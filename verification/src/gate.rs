//! The request gate: in which order a request is checked before a job is
//! started for it, and what is answered when a check fails.
use vstd::prelude::*;
use vstd::string::*;
use crate::antibot::{
    antibot_verdict, bot_check_message, challenges_after_validation, honeypot_filled,
    honeypot_is_filled, presented_token, turnstile_verdict, validate_antibot_at,
    verifier_timeout_message, verify_request_protection, verify_turnstile_token, BotCheckFailure,
    ChallengeTable, ProtectionPlan, ProtectionStrategy, VerifierReply, VerifierVerdict,
};
use crate::clock::{utc_now, Timestamp};
use crate::errors::{
    bad_request_view, bot_check_failed_view, daily_limit_exceeded_view, ApiError, ApiErrorView,
    ErrorCode, STATUS_FORBIDDEN,
};
use crate::extractor::{extractor_failure, extractor_result, ExtractorOutcome};
use crate::formats::{
    automatic_listing_for, automatic_title, fallback_applies, is_automatic_listing,
    is_fallback_site, looks_like_metadata_error, FormatsResponse,
};
use crate::model::DownloadRequest;
use crate::rate_limit::{admission, register_download_attempt_at, stamps_after, RateLimiter};
use crate::text::{trim, trimmed};
use crate::urls::{is_supported, parse_url, parsed_url, url_is_supported};

verus! {

/// What a URL was sent for.
#[derive(Clone, Copy, Debug, PartialEq, Eq, Structural)]
pub enum UrlPurpose {
    Download,
    Formats,
}

pub open spec fn empty_url_message(purpose: UrlPurpose) -> Seq<char> {
    match purpose {
        UrlPurpose::Download => "Ingresa una URL valida antes de descargar."@,
        UrlPurpose::Formats => "Ingresa una URL valida."@,
    }
}

pub open spec fn unsupported_site_message() -> Seq<char> {
    "URL no soportada. Usa una URL de X, Facebook, TikTok, YouTube, Instagram o Bluesky."@
}

/// The URL to work with, trimmed, or the error for a URL that is empty or
/// not of a supported site.
pub open spec fn url_verdict(url: Seq<char>, purpose: UrlPurpose) -> Result<Seq<char>, ApiErrorView> {
    let text = trimmed(url);
    if text.len() == 0 {
        Err(bad_request_view(empty_url_message(purpose)))
    } else if !is_supported(parsed_url(text)) {
        Err(bad_request_view(unsupported_site_message()))
    } else {
        Ok(text)
    }
}

pub fn validate_url(url: &str, purpose: UrlPurpose) -> (r: Result<String, ApiError>)
    ensures
        match url_verdict(url@, purpose) {
            Ok(text) => r is Ok && r->Ok_0@ == text,
            Err(e) => r is Err && r->Err_0@ == e,
        },
{
    let text = trim(url);
    if text.unicode_len() == 0 {
        return Err(
            match purpose {
                UrlPurpose::Download => ApiError::bad_request(
                    "Ingresa una URL valida antes de descargar.",
                ),
                UrlPurpose::Formats => ApiError::bad_request("Ingresa una URL valida."),
            },
        );
    }
    let parts = parse_url(text);
    if !url_is_supported(&parts) {
        return Err(
            ApiError::bad_request(
                "URL no soportada. Usa una URL de X, Facebook, TikTok, YouTube, Instagram o Bluesky.",
            ),
        );
    }
    Ok(text.to_owned())
}

/// Where a request stands after its checks.
#[derive(Debug)]
pub enum GateStep {
    /// It is turned down with this error.
    Rejected { error: ApiError },
    /// The verification service is to be asked about this token; the request
    /// goes on with `admit_verified`.
    AskVerifier { url: String, token: String },
    /// It passed every check and its attempt is on record: a job may be
    /// started for this URL.
    Admitted { url: String },
}

/// What the quota says to an attempt of `client` at `now`.
pub open spec fn quota_step(
    before: RateLimiter,
    after: RateLimiter,
    client: Seq<char>,
    url: Seq<char>,
    now: Timestamp,
    step: GateStep,
) -> bool {
    &&& after.stamps_of(client) == stamps_after(before.stamps_of(client), now)
    &&& forall|k: Seq<char>| k != client ==> after.stamps_of(k) == before.stamps_of(k)
    &&& match admission(before.stamps_of(client), now) {
        Ok(_) => step is Admitted && step->Admitted_url@ == url,
        Err(wait) => step is Rejected && step->error@ == daily_limit_exceeded_view(wait),
    }
}

/// The step is a refusal by the anti-bot check. The error is the same
/// whatever the reason.
pub open spec fn is_bot_refusal(step: GateStep) -> bool {
    step is Rejected && step->error@ == bot_check_failed_view(bot_check_message())
}

/// Takes the attempt to the quota once the anti-bot check has passed.
fn admit_at(
    limiter: &mut RateLimiter,
    client_ip: &str,
    url: String,
    now: Timestamp,
) -> (step: GateStep)
    requires
        old(limiter).wf(),
        now.wf(),
    ensures
        final(limiter).wf(),
        quota_step(*old(limiter), *final(limiter), client_ip@, url@, now, step),
{
    match register_download_attempt_at(limiter, client_ip, now) {
        Ok(()) => GateStep::Admitted { url },
        Err(wait) => GateStep::Rejected { error: ApiError::daily_limit_exceeded(wait) },
    }
}

/// What checking a download request of `client` at `now` comes to: the step,
/// and what has become of the challenges and of the attempts on record.
pub open spec fn gate_outcome(
    strategy: ProtectionStrategy,
    challenges: ChallengeTable,
    challenges_after: ChallengeTable,
    limiter: RateLimiter,
    limiter_after: RateLimiter,
    client: Seq<char>,
    payload: DownloadRequest,
    now: Timestamp,
    step: GateStep,
) -> bool {
    if honeypot_filled(payload) {
        is_bot_refusal(step) && challenges_after == challenges
            && limiter_after == limiter
    } else {
        match url_verdict(payload.url@, UrlPurpose::Download) {
            Err(e) => step is Rejected && step->error@ == e && challenges_after == challenges
                && limiter_after == limiter,
            Ok(url) => match strategy {
                ProtectionStrategy::Delegated { .. } => challenges_after == challenges
                    && limiter_after == limiter && match presented_token(payload) {
                    Some(token) => step is AskVerifier && step->AskVerifier_url@ == url
                        && step->token@ == token,
                    None => is_bot_refusal(step),
                },
                ProtectionStrategy::LocalPow => challenges_after@ == challenges_after_validation(
                    challenges@,
                    payload,
                    now,
                ) && match antibot_verdict(challenges@, client, payload, now) {
                    Err(_) => is_bot_refusal(step) && limiter_after == limiter,
                    Ok(_) => quota_step(limiter, limiter_after, client, url, now, step),
                },
            },
        }
    }
}

/// Checks a download request at time `now`. The checks come in a
/// fixed order, and a request that fails one goes no further: first the
/// honeypot, then the URL, then the anti-bot check of the configured
/// strategy, and last the quota. So a request that the anti-bot check turns
/// down uses up no attempt, and a request with an unusable URL uses up no
/// challenge.
pub fn open_gate_at(
    strategy: &ProtectionStrategy,
    challenges: &mut ChallengeTable,
    limiter: &mut RateLimiter,
    client_ip: &str,
    payload: &DownloadRequest,
    now: Timestamp,
) -> (step: GateStep)
    requires
        old(challenges).wf(),
        old(limiter).wf(),
        now.wf(),
    ensures
        final(challenges).wf(),
        final(challenges).limit == old(challenges).limit,
        final(limiter).wf(),
        gate_outcome(
            *strategy,
            *old(challenges),
            *final(challenges),
            *old(limiter),
            *final(limiter),
            client_ip@,
            *payload,
            now,
            step,
        ),
{
    if honeypot_is_filled(payload) {
        return GateStep::Rejected { error: BotCheckFailure::Honeypot.to_api_error() };
    }
    let url = match validate_url(payload.url.as_str(), UrlPurpose::Download) {
        Ok(url) => url,
        Err(error) => {
            return GateStep::Rejected { error };
        },
    };
    match verify_request_protection(strategy, payload) {
        ProtectionPlan::Reject(failure) => GateStep::Rejected { error: failure.to_api_error() },
        ProtectionPlan::Delegate { token } => GateStep::AskVerifier { url, token },
        ProtectionPlan::ValidateLocally => {
            match validate_antibot_at(challenges, client_ip, payload, now) {
                Err(failure) => GateStep::Rejected { error: failure.to_api_error() },
                Ok(()) => admit_at(limiter, client_ip, url, now),
            }
        },
    }
}

/// A request with a filled honeypot is turned down as a failed bot check
/// and changes nothing, whatever else it holds and whichever strategy is
/// configured.
pub proof fn lemma_honeypot_always_rejects(
    strategy: ProtectionStrategy,
    challenges: ChallengeTable,
    challenges_after: ChallengeTable,
    limiter: RateLimiter,
    limiter_after: RateLimiter,
    client: Seq<char>,
    payload: DownloadRequest,
    now: Timestamp,
    step: GateStep,
)
    requires
        honeypot_filled(payload),
        gate_outcome(
            strategy,
            challenges,
            challenges_after,
            limiter,
            limiter_after,
            client,
            payload,
            now,
            step,
        ),
    ensures
        step is Rejected,
        step->error.status == STATUS_FORBIDDEN,
        step->error.code == Some(ErrorCode::BotCheckFailed),
        challenges_after == challenges,
        limiter_after == limiter,
{
}

/// Checks a download request at the current time: see `open_gate_at`.
pub fn open_gate(
    strategy: &ProtectionStrategy,
    challenges: &mut ChallengeTable,
    limiter: &mut RateLimiter,
    client_ip: &str,
    payload: &DownloadRequest,
) -> (step: GateStep)
    requires
        old(challenges).wf(),
        old(limiter).wf(),
    ensures
        final(challenges).wf(),
        final(challenges).limit == old(challenges).limit,
        final(limiter).wf(),
        exists|now: Timestamp|
            now.wf() && #[trigger] gate_outcome(
                *strategy,
                *old(challenges),
                *final(challenges),
                *old(limiter),
                *final(limiter),
                client_ip@,
                *payload,
                now,
                step,
            ),
{
    let now = utc_now();
    open_gate_at(strategy, challenges, limiter, client_ip, payload, now)
}

/// Goes on with a request after the verification service answered, at time
/// `now`: a token that was not accepted turns the request down and uses up
/// no attempt, with 403 for a refusal and 400 for a verification that ran out
/// of time; an accepted one takes the attempt to the quota.
pub fn admit_verified_at(
    limiter: &mut RateLimiter,
    client_ip: &str,
    url: String,
    reply: VerifierReply,
    now: Timestamp,
) -> (step: GateStep)
    requires
        old(limiter).wf(),
        now.wf(),
    ensures
        final(limiter).wf(),
        verified_outcome(*old(limiter), *final(limiter), client_ip@, url@, reply, now, step),
{
    match verify_turnstile_token(reply).to_api_error() {
        Some(error) => GateStep::Rejected { error },
        None => admit_at(limiter, client_ip, url, now),
    }
}

/// What going on with a request comes to once the verification service
/// has answered or run out of time.
pub open spec fn verified_outcome(
    limiter: RateLimiter,
    limiter_after: RateLimiter,
    client: Seq<char>,
    url: Seq<char>,
    reply: VerifierReply,
    now: Timestamp,
    step: GateStep,
) -> bool {
    match turnstile_verdict(reply) {
        VerifierVerdict::Accepted => quota_step(limiter, limiter_after, client, url, now, step),
        VerifierVerdict::Refused { .. } => is_bot_refusal(step) && limiter_after == limiter,
        VerifierVerdict::TimedOut => step is Rejected && step->error@ == bad_request_view(
            verifier_timeout_message(),
        ) && limiter_after == limiter,
    }
}

/// Goes on with a request after the verification service answered, at the
/// current time: see `admit_verified_at`.
pub fn admit_verified(
    limiter: &mut RateLimiter,
    client_ip: &str,
    url: String,
    reply: VerifierReply,
) -> (step: GateStep)
    requires
        old(limiter).wf(),
    ensures
        final(limiter).wf(),
        exists|now: Timestamp|
            now.wf() && #[trigger] verified_outcome(
                *old(limiter),
                *final(limiter),
                client_ip@,
                url@,
                reply,
                now,
                step,
            ),
{
    let now = utc_now();
    admit_verified_at(limiter, client_ip, url, reply, now)
}

/// What follows a run of the extractor that was to describe a URL.
#[derive(Debug)]
pub enum FormatsStep {
    /// The extractor's output is to be interpreted.
    Interpret { stdout: Vec<u8> },
    /// This listing is the answer.
    Respond { listing: FormatsResponse },
    /// This error is the answer.
    Fail { error: ApiError },
}

/// Decides what follows a run of the extractor that was to describe
/// `url`: its output is interpreted when it succeeded; when it failed on a
/// page of a site whose metadata are known to be unreadable at times, the
/// automatic listing is answered in place of the error.
pub fn fetch_formats_step(url: &str, outcome: ExtractorOutcome) -> (step: FormatsStep)
    ensures
        match extractor_failure(outcome) {
            None => outcome is Exited && step == (FormatsStep::Interpret {
                stdout: outcome->stdout,
            }),
            Some(e) => if looks_like_metadata_error(e.message) && is_fallback_site(
                parsed_url(url@),
            ) {
                step is Respond && is_automatic_listing(
                    step->listing,
                    automatic_title(parsed_url(url@)),
                )
            } else {
                step is Fail && step->Fail_error@ == e
            },
        },
{
    match extractor_result(outcome) {
        Ok(stdout) => FormatsStep::Interpret { stdout },
        Err(error) => {
            let parts = parse_url(url);
            if fallback_applies(&parts, error.message.as_str()) {
                FormatsStep::Respond { listing: automatic_listing_for(&parts) }
            } else {
                FormatsStep::Fail { error }
            }
        },
    }
}

} // verus!
