//! The anti-bot check. With a verification secret configured the caller's
//! token is judged by the external service; without one the caller solves a
//! proof-of-work challenge that is bound to its identity, lives five minutes
//! and is used up by the first attempt to redeem it.
use vstd::prelude::*;
use vstd::string::*;
use crate::clock::{utc_now, Timestamp};
use crate::errors::{
    bad_request_view, bot_check_failed_view, ApiError, ApiErrorView, STATUS_BAD_REQUEST,
    STATUS_FORBIDDEN,
};
use crate::ids::{is_hyphenated_id, is_simple_id, new_hyphenated_id, new_simple_id};
use crate::model::DownloadRequest;
use crate::strmap::StrMap;
use crate::text::{
    decimal_digits, is_blank, non_empty, non_empty_spec, push_decimal, str_eq, trimmed,
};

verus! {

/// The number of leading zero hexadecimal digits a solution's hash must have.
pub const ANTIBOT_DIFFICULTY_HEX_PREFIX: usize = 3;

/// A challenge can be redeemed for this many seconds.
pub const ANTIBOT_CHALLENGE_TTL_SECONDS: i64 = 300;

/// The least time a person takes between loading the form and sending it.
pub const ANTIBOT_MIN_ELAPSED_MS: u64 = 900;

/// The most challenges that are kept at once.
pub const MAX_ANTIBOT_CHALLENGES: usize = 20_000;

/// The verification service is given this long to answer.
pub const TURNSTILE_TIMEOUT_SECONDS: u64 = 10;

/// Where the verification service takes a token.
pub fn turnstile_endpoint() -> (url: &'static str)
    ensures
        url@ == "https://challenges.cloudflare.com/turnstile/v0/siteverify"@,
{
    "https://challenges.cloudflare.com/turnstile/v0/siteverify"
}

/// The SHA-256 digest of a byte string.
pub uninterp spec fn sha256(data: Seq<u8>) -> Seq<u8>;

/// `sha2::Sha256::digest` (the `Digest` trait of the `sha2` crate): the
/// digest depends on the bytes alone and is 32 bytes long.
#[verifier::external_body]
pub(crate) fn sha256_digest(data: &[u8]) -> (digest: Vec<u8>)
    ensures
        digest@ == sha256(data@),
        digest@.len() == 32,
{
    <sha2::Sha256 as sha2::Digest>::digest(data).to_vec()
}

/// The `i`-th digit of the digest written in hexadecimal.
pub open spec fn hex_digit_value(digest: Seq<u8>, i: int) -> int {
    if i % 2 == 0 {
        digest[i / 2] as int / 16
    } else {
        digest[i / 2] as int % 16
    }
}

/// The digest, written in hexadecimal, begins with
/// `ANTIBOT_DIFFICULTY_HEX_PREFIX` zeros.
pub open spec fn meets_difficulty(digest: Seq<u8>) -> bool {
    &&& ANTIBOT_DIFFICULTY_HEX_PREFIX <= 2 * digest.len()
    &&& forall|i: int|
        0 <= i < ANTIBOT_DIFFICULTY_HEX_PREFIX ==> #[trigger] hex_digit_value(digest, i) == 0
}

pub fn digest_meets_difficulty(digest: &[u8]) -> (ok: bool)
    ensures
        ok == meets_difficulty(digest@),
{
    if digest.len() < 2 {
        return false;
    }
    let ok = digest[0] == 0 && digest[1] < 16;
    proof {
        if !ok {
            // One of the first three digits is not zero; which one depends on
            // where the first set bit lies.
            if digest[0] >= 16 {
                assert(hex_digit_value(digest@, 0) != 0);
            } else if digest[0] != 0 {
                assert(hex_digit_value(digest@, 1) != 0);
            } else {
                assert(hex_digit_value(digest@, 2) != 0);
            }
        }
    }
    ok
}

/// What is hashed for a solution: the challenge id, the nonce and the
/// solution in decimal, joined by colons.
pub open spec fn pow_message(challenge_id: Seq<char>, nonce: Seq<char>, solution: u64) -> Seq<char> {
    challenge_id + seq![':'] + nonce + seq![':'] + decimal_digits(solution as nat)
}

/// Whether `solution` solves the challenge: a function of the three values
/// alone.
pub open spec fn pow_accepts(challenge_id: Seq<char>, nonce: Seq<char>, solution: u64) -> bool {
    meets_difficulty(sha256(vstd::utf8::encode_utf8(pow_message(challenge_id, nonce, solution))))
}

pub fn is_pow_solution_valid(challenge_id: &str, nonce: &str, solution: u64) -> (ok: bool)
    ensures
        ok == pow_accepts(challenge_id@, nonce@, solution),
{
    proof {
        reveal_strlit(":");
        assert(":"@ =~= seq![':']);
    }
    let mut message = challenge_id.to_owned();
    message.append(":");
    message.append(nonce);
    message.append(":");
    push_decimal(&mut message, solution);
    assert(message@ =~= pow_message(challenge_id@, nonce@, solution));
    let digest = sha256_digest(message.as_str().as_bytes());
    digest_meets_difficulty(digest.as_slice())
}

/// Two validations of the same three values agree.
pub proof fn lemma_pow_is_deterministic(
    id_a: Seq<char>,
    nonce_a: Seq<char>,
    solution_a: u64,
    id_b: Seq<char>,
    nonce_b: Seq<char>,
    solution_b: u64,
)
    requires
        id_a == id_b,
        nonce_a == nonce_b,
        solution_a == solution_b,
    ensures
        pow_accepts(id_a, nonce_a, solution_a) == pow_accepts(id_b, nonce_b, solution_b),
{
}

/// A challenge as it is kept: what the caller has to hash with, when it was
/// made, and whom it was made for.
#[derive(Debug)]
pub struct AntiBotChallenge {
    pub nonce: String,
    pub created_at: Timestamp,
    pub ip: String,
}

/// What the caller is told about a new challenge.
#[derive(Debug)]
pub struct AntiBotChallengeResponse {
    pub challenge_id: String,
    pub nonce: String,
    pub difficulty: usize,
    pub expires_in_seconds: i64,
}

/// The challenges that are waiting to be redeemed, by id, and the most that
/// are kept.
pub struct ChallengeTable {
    pub challenges: StrMap<AntiBotChallenge>,
    pub limit: usize,
}

impl View for ChallengeTable {
    type V = Map<Seq<char>, AntiBotChallenge>;

    open spec fn view(&self) -> Map<Seq<char>, AntiBotChallenge> {
        self.challenges@
    }
}

impl ChallengeTable {
    pub open spec fn wf(&self) -> bool {
        &&& self.challenges.wf()
        &&& forall|k: Seq<char>|
            self.challenges@.contains_key(k) ==> (#[trigger] self.challenges@[k]).created_at.wf()
    }

    /// An empty table that keeps up to `MAX_ANTIBOT_CHALLENGES` challenges.
    pub fn new() -> (table: ChallengeTable)
        ensures
            table.wf(),
            table@ == Map::<Seq<char>, AntiBotChallenge>::empty(),
            table.limit == MAX_ANTIBOT_CHALLENGES,
    {
        ChallengeTable { challenges: StrMap::new(), limit: MAX_ANTIBOT_CHALLENGES }
    }

    /// An empty table that keeps up to `limit` challenges.
    pub fn with_limit(limit: usize) -> (table: ChallengeTable)
        ensures
            table.wf(),
            table@ == Map::<Seq<char>, AntiBotChallenge>::empty(),
            table.limit == limit,
    {
        ChallengeTable { challenges: StrMap::new(), limit }
    }

    /// The number of challenges kept.
    pub fn len(&self) -> (n: usize)
        requires
            self.wf(),
        ensures
            n == self@.dom().len(),
    {
        self.challenges.len()
    }

    pub fn contains(&self, challenge_id: &str) -> (b: bool)
        requires
            self.wf(),
        ensures
            b == self@.contains_key(challenge_id@),
    {
        self.challenges.contains_key(challenge_id)
    }
}

/// A challenge made at `created_at` can still be redeemed at `now`: no more
/// than the time to live has passed, to the nanosecond.
pub open spec fn is_fresh(created_at: Timestamp, now: Timestamp) -> bool {
    now.as_nanos() - created_at.as_nanos() <= ANTIBOT_CHALLENGE_TTL_SECONDS * 1_000_000_000
}

pub fn challenge_is_fresh(created_at: &Timestamp, now: &Timestamp) -> (fresh: bool)
    requires
        created_at.wf(),
        now.wf(),
    ensures
        fresh == is_fresh(*created_at, *now),
{
    now.nanos_since_epoch() - created_at.nanos_since_epoch() <= 300_000_000_000
}

/// The challenges of `table` that can still be redeemed at `now`.
pub open spec fn fresh_challenges(
    table: Map<Seq<char>, AntiBotChallenge>,
    now: Timestamp,
) -> Map<Seq<char>, AntiBotChallenge> {
    table.restrict(Set::new(|k: Seq<char>| is_fresh(table[k].created_at, now)))
}

/// Drops every challenge that has outlived its time to live.
pub fn prune_antibot_challenges(table: &mut ChallengeTable, now: Timestamp)
    requires
        old(table).wf(),
        now.wf(),
    ensures
        final(table).wf(),
        final(table).limit == old(table).limit,
        final(table)@ == fresh_challenges(old(table)@, now),
{
    let mut i: usize = 0;
    while i < table.challenges.len()
        invariant
            table.wf(),
            now.wf(),
            i <= table.challenges.len_spec(),
            table.limit == old(table).limit,
            forall|k: Seq<char>| #[trigger]
                table@.contains_key(k) ==> old(table)@.contains_key(k) && table@[k] == old(
                    table,
                )@[k],
            forall|k: Seq<char>|
                old(table)@.contains_key(k) && is_fresh(old(table)@[k].created_at, now)
                    ==> #[trigger] table@.contains_key(k),
            forall|j: int|
                0 <= j < i ==> is_fresh(
                    (#[trigger] table.challenges.value_spec(j)).created_at,
                    now,
                ),
        decreases table.challenges.len_spec() - i,
    {
        proof {
            table.challenges.lemma_entries();
        }
        assert(table@.contains_key(table.challenges.key_spec(i as int)));
        let fresh = challenge_is_fresh(&table.challenges.value_at(i).created_at, &now);
        if fresh {
            i += 1;
        } else {
            let ghost before = table@;
            let ghost gone = table.challenges.key_spec(i as int);
            table.challenges.remove_at(i);
            assert(table@ == before.remove(gone));
        }
    }
    proof {
        table.challenges.lemma_entries();
        assert(table@ =~= fresh_challenges(old(table)@, now));
    }
}

/// `after` is `before` cut down to `limit` entries, oldest first: nothing is
/// added or changed, the number kept is the smaller of the number before and
/// the limit, and nothing that went was made later than anything that stayed.
pub open spec fn trimmed_to(
    before: Map<Seq<char>, AntiBotChallenge>,
    after: Map<Seq<char>, AntiBotChallenge>,
    limit: nat,
) -> bool {
    &&& forall|k: Seq<char>| #[trigger]
        after.contains_key(k) ==> before.contains_key(k) && after[k] == before[k]
    &&& after.dom().len() == if before.dom().len() <= limit {
        before.dom().len()
    } else {
        limit
    }
    &&& forall|gone: Seq<char>, kept: Seq<char>|
        before.contains_key(gone) && !after.contains_key(gone) && #[trigger] after.contains_key(
            kept,
        ) ==> (#[trigger] before[gone]).created_at.as_nanos() <= before[kept].created_at.as_nanos()
}

/// The index of a challenge that none in the table was made before.
fn oldest_index(table: &ChallengeTable) -> (idx: usize)
    requires
        table.wf(),
        table.challenges.len_spec() > 0,
    ensures
        idx < table.challenges.len_spec(),
        forall|j: int|
            0 <= j < table.challenges.len_spec() ==> table.challenges.value_spec(
                idx as int,
            ).created_at.as_nanos() <= (#[trigger] table.challenges.value_spec(
                j,
            )).created_at.as_nanos(),
{
    proof {
        table.challenges.lemma_entries();
    }
    let n = table.challenges.len();
    let mut idx: usize = 0;
    let mut i: usize = 1;
    while i < n
        invariant
            table.wf(),
            n == table.challenges.len_spec(),
            idx < i <= n,
            forall|j: int|
                0 <= j < n ==> table@.contains_key(#[trigger] table.challenges.key_spec(j))
                    && table@[table.challenges.key_spec(j)] == table.challenges.value_spec(j),
            forall|j: int|
                0 <= j < i ==> table.challenges.value_spec(idx as int).created_at.as_nanos() <= (
                #[trigger] table.challenges.value_spec(j)).created_at.as_nanos(),
        decreases n - i,
    {
        let candidate = table.challenges.value_at(i);
        let best = table.challenges.value_at(idx);
        assert(table@.contains_key(table.challenges.key_spec(i as int)));
        assert(table@.contains_key(table.challenges.key_spec(idx as int)));
        if candidate.created_at.is_before(&best.created_at) {
            idx = i;
        }
        i += 1;
    }
    idx
}

/// Cuts the table down to its limit, evicting the challenges made first.
pub fn trim_antibot_challenges(table: &mut ChallengeTable)
    requires
        old(table).wf(),
    ensures
        final(table).wf(),
        final(table).limit == old(table).limit,
        trimmed_to(old(table)@, final(table)@, old(table).limit as nat),
{
    proof {
        table.challenges.lemma_entries();
    }
    let ghost start_len = table.challenges.len_spec();
    while table.challenges.len() > table.limit
        invariant
            table.wf(),
            table.limit == old(table).limit,
            start_len == old(table)@.dom().len(),
            forall|k: Seq<char>| #[trigger]
                table@.contains_key(k) ==> old(table)@.contains_key(k) && table@[k] == old(
                    table,
                )@[k],
            table.challenges.len_spec() <= start_len,
            start_len <= table.limit ==> table.challenges.len_spec() == start_len,
            start_len > table.limit ==> table.challenges.len_spec() >= table.limit,
            forall|gone: Seq<char>, kept: Seq<char>|
                old(table)@.contains_key(gone) && !table@.contains_key(gone)
                    && #[trigger] table@.contains_key(kept) ==> (#[trigger] old(
                    table,
                )@[gone]).created_at.as_nanos() <= old(table)@[kept].created_at.as_nanos(),
        decreases table.challenges.len_spec(),
    {
        let idx = oldest_index(table);
        proof {
            table.challenges.lemma_entries();
        }
        let ghost before = table@;
        let ghost evicted = table.challenges.key_spec(idx as int);
        assert(before.contains_key(evicted));
        assert forall|kept: Seq<char>| #[trigger] before.contains_key(kept) implies before[evicted].created_at.as_nanos()
            <= before[kept].created_at.as_nanos() by {
            let j = choose|j: int|
                0 <= j < table.challenges.len_spec() && table.challenges.key_spec(j) == kept;
            assert(before[table.challenges.key_spec(j)] == table.challenges.value_spec(j));
        }
        table.challenges.remove_at(idx);
        assert(table@ == before.remove(evicted));
        assert forall|k: Seq<char>| #[trigger] table@.contains_key(k) implies old(
            table,
        )@.contains_key(k) && table@[k] == old(table)@[k] by {
            assert(before.contains_key(k));
        }
        assert forall|gone: Seq<char>, kept: Seq<char>|
            old(table)@.contains_key(gone) && !table@.contains_key(gone)
                && #[trigger] table@.contains_key(kept) implies (#[trigger] old(
            table,
        )@[gone]).created_at.as_nanos() <= old(table)@[kept].created_at.as_nanos() by {
            assert(before.contains_key(kept));
            assert(old(table)@[kept] == before[kept]);
            if before.contains_key(gone) {
                assert(gone == evicted);
                assert(old(table)@[gone] == before[gone]);
            }
        }
    }
    proof {
        table.challenges.lemma_entries();
    }
}

/// Records a new challenge: first the expired ones go, then the new one is
/// stored under its id, then the table is cut down to its limit.
pub fn issue_challenge(
    table: &mut ChallengeTable,
    challenge_id: String,
    nonce: String,
    client_ip: String,
    now: Timestamp,
) -> (response: AntiBotChallengeResponse)
    requires
        old(table).wf(),
        now.wf(),
    ensures
        final(table).wf(),
        final(table).limit == old(table).limit,
        trimmed_to(
            fresh_challenges(old(table)@, now).insert(
                challenge_id@,
                AntiBotChallenge { nonce, created_at: now, ip: client_ip },
            ),
            final(table)@,
            old(table).limit as nat,
        ),
        response.challenge_id@ == challenge_id@,
        response.nonce@ == nonce@,
        response.difficulty == ANTIBOT_DIFFICULTY_HEX_PREFIX,
        response.expires_in_seconds == ANTIBOT_CHALLENGE_TTL_SECONDS,
{
    prune_antibot_challenges(table, now);
    let response = AntiBotChallengeResponse {
        challenge_id: challenge_id.clone(),
        nonce: nonce.clone(),
        difficulty: ANTIBOT_DIFFICULTY_HEX_PREFIX,
        expires_in_seconds: ANTIBOT_CHALLENGE_TTL_SECONDS,
    };
    table.challenges.insert(challenge_id, AntiBotChallenge { nonce, created_at: now, ip: client_ip });
    trim_antibot_challenges(table);
    response
}

/// Makes a challenge for `client_ip` with a fresh random id and nonce at the
/// current time, and records it as `issue_challenge` does.
pub fn create_antibot_challenge(
    table: &mut ChallengeTable,
    client_ip: &str,
) -> (response: AntiBotChallengeResponse)
    requires
        old(table).wf(),
    ensures
        final(table).wf(),
        final(table).limit == old(table).limit,
        is_hyphenated_id(response.challenge_id@),
        is_simple_id(response.nonce@),
        response.difficulty == ANTIBOT_DIFFICULTY_HEX_PREFIX,
        response.expires_in_seconds == ANTIBOT_CHALLENGE_TTL_SECONDS,
        exists|now: Timestamp, made: AntiBotChallenge|
            now.wf() && made.created_at == now && made.nonce@ == response.nonce@ && made.ip@
                == client_ip@ && trimmed_to(
                fresh_challenges(old(table)@, now).insert(response.challenge_id@, made),
                final(table)@,
                old(table).limit as nat,
            ),
{
    let now = utc_now();
    let challenge_id = new_hyphenated_id();
    let nonce = new_simple_id();
    let owner = client_ip.to_owned();
    let ghost made = AntiBotChallenge { nonce, created_at: now, ip: owner };
    let response = issue_challenge(table, challenge_id, nonce, owner, now);
    assert(trimmed_to(
        fresh_challenges(old(table)@, now).insert(response.challenge_id@, made),
        table@,
        old(table).limit as nat,
    ));
    response
}

/// Why the anti-bot check turned a request down.
#[derive(Clone, Copy, Debug, PartialEq, Eq, Structural)]
pub enum BotCheckFailure {
    /// The hidden form field was filled in.
    Honeypot,
    /// The form came back faster than a person fills it in.
    TooFast,
    /// No challenge id was sent.
    MissingChallenge,
    /// No solution was sent.
    MissingSolution,
    /// The challenge is not known, has expired or was used before.
    UnknownChallenge,
    /// The challenge was made for another client.
    OriginMismatch,
    /// The solution's hash does not have the required prefix.
    InvalidProof,
    /// No verification token was sent.
    MissingToken,
    /// The verification service gave no usable answer.
    VerifierUnavailable,
    /// The verification service turned the token down.
    VerifierRejected,
}

/// What a caller is told when the anti-bot check turns its request down:
/// one text for every reason, so that the answer does not tell which check
/// failed.
pub open spec fn bot_check_message() -> Seq<char> {
    "No se pudo validar anti-bot. Intenta nuevamente."@
}

impl BotCheckFailure {
    /// The error for the caller. It has the status and the code of a failed
    /// bot check and the same message whatever the reason.
    pub fn to_api_error(&self) -> (e: ApiError)
        ensures
            e@ == bot_check_failed_view(bot_check_message()),
    {
        ApiError::bot_check_failed("No se pudo validar anti-bot. Intenta nuevamente.")
    }
}

/// The hidden form field holds something: any value that is not empty,
/// whitespace included.
pub open spec fn honeypot_filled(payload: DownloadRequest) -> bool {
    match payload.antibot_honey {
        Some(honey) => honey@.len() > 0,
        None => false,
    }
}

pub fn honeypot_is_filled(payload: &DownloadRequest) -> (filled: bool)
    ensures
        filled == honeypot_filled(*payload),
{
    match &payload.antibot_honey {
        Some(honey) => !honey.as_str().is_empty(),
        None => false,
    }
}

/// The id of the challenge that the request wants to redeem.
pub open spec fn requested_challenge(payload: DownloadRequest) -> Option<Seq<char>> {
    match payload.antibot_challenge_id {
        Some(id) => non_empty_spec(id@),
        None => None,
    }
}

/// The time the caller says it took, zero when it says nothing.
pub open spec fn reported_elapsed_ms(payload: DownloadRequest) -> u64 {
    match payload.antibot_elapsed_ms {
        Some(ms) => ms,
        None => 0,
    }
}

/// The failure that is found without looking at the table, if there is one:
/// the honeypot first, then the elapsed time, then what is missing.
pub open spec fn early_rejection(payload: DownloadRequest) -> Option<BotCheckFailure> {
    if honeypot_filled(payload) {
        Some(BotCheckFailure::Honeypot)
    } else if reported_elapsed_ms(payload) < ANTIBOT_MIN_ELAPSED_MS {
        Some(BotCheckFailure::TooFast)
    } else if requested_challenge(payload) is None {
        Some(BotCheckFailure::MissingChallenge)
    } else if payload.antibot_solution is None {
        Some(BotCheckFailure::MissingSolution)
    } else {
        None
    }
}

/// The verdict of the local check on a request of `client` at `now`.
pub open spec fn antibot_verdict(
    table: Map<Seq<char>, AntiBotChallenge>,
    client: Seq<char>,
    payload: DownloadRequest,
    now: Timestamp,
) -> Result<(), BotCheckFailure> {
    match early_rejection(payload) {
        Some(failure) => Err(failure),
        None => {
            let id = requested_challenge(payload)->0;
            let live = fresh_challenges(table, now);
            if !live.contains_key(id) {
                Err(BotCheckFailure::UnknownChallenge)
            } else if live[id].ip@ != client {
                Err(BotCheckFailure::OriginMismatch)
            } else if !pow_accepts(id, live[id].nonce@, payload.antibot_solution->0) {
                Err(BotCheckFailure::InvalidProof)
            } else {
                Ok(())
            }
        },
    }
}

/// The table after the local check: untouched when the request failed
/// before the lookup, otherwise without the expired challenges and without
/// the requested one, whatever the verdict.
pub open spec fn challenges_after_validation(
    table: Map<Seq<char>, AntiBotChallenge>,
    payload: DownloadRequest,
    now: Timestamp,
) -> Map<Seq<char>, AntiBotChallenge> {
    if early_rejection(payload) is Some {
        table
    } else {
        fresh_challenges(table, now).remove(requested_challenge(payload)->0)
    }
}

/// The local proof-of-work check at time `now`.
pub fn validate_antibot_at(
    table: &mut ChallengeTable,
    client_ip: &str,
    payload: &DownloadRequest,
    now: Timestamp,
) -> (r: Result<(), BotCheckFailure>)
    requires
        old(table).wf(),
        now.wf(),
    ensures
        final(table).wf(),
        final(table).limit == old(table).limit,
        r == antibot_verdict(old(table)@, client_ip@, *payload, now),
        final(table)@ == challenges_after_validation(old(table)@, *payload, now),
{
    if honeypot_is_filled(payload) {
        return Err(BotCheckFailure::Honeypot);
    }
    let elapsed: u64 = match payload.antibot_elapsed_ms {
        Some(ms) => ms,
        None => 0,
    };
    if elapsed < ANTIBOT_MIN_ELAPSED_MS {
        return Err(BotCheckFailure::TooFast);
    }
    let requested: Option<&str> = match &payload.antibot_challenge_id {
        Some(id) => non_empty(id.as_str()),
        None => None,
    };
    let challenge_id: &str = match requested {
        Some(id) => id,
        None => {
            return Err(BotCheckFailure::MissingChallenge);
        },
    };
    let solution: u64 = match payload.antibot_solution {
        Some(solution) => solution,
        None => {
            return Err(BotCheckFailure::MissingSolution);
        },
    };
    prune_antibot_challenges(table, now);
    let challenge = match table.challenges.remove(challenge_id) {
        Some(challenge) => challenge,
        None => {
            return Err(BotCheckFailure::UnknownChallenge);
        },
    };
    if !str_eq(challenge.ip.as_str(), client_ip) {
        return Err(BotCheckFailure::OriginMismatch);
    }
    if !is_pow_solution_valid(challenge_id, challenge.nonce.as_str(), solution) {
        return Err(BotCheckFailure::InvalidProof);
    }
    Ok(())
}

/// The local proof-of-work check at the current time.
pub fn validate_antibot(
    table: &mut ChallengeTable,
    client_ip: &str,
    payload: &DownloadRequest,
) -> (r: Result<(), ApiError>)
    requires
        old(table).wf(),
    ensures
        final(table).wf(),
        final(table).limit == old(table).limit,
        exists|now: Timestamp|
            now.wf() && final(table)@ == challenges_after_validation(old(table)@, *payload, now)
                && match #[trigger] antibot_verdict(old(table)@, client_ip@, *payload, now) {
                Ok(_) => r is Ok,
                Err(failure) => r is Err && r->Err_0@ == bot_check_failed_view(
                    bot_check_message(),
                ),
            },
{
    let now = utc_now();
    match validate_antibot_at(table, client_ip, payload, now) {
        Ok(()) => Ok(()),
        Err(failure) => Err(failure.to_api_error()),
    }
}

/// A challenge is redeemed at most once: after a validation that got as far
/// as the lookup, whatever its verdict, no later request for the same
/// challenge id is accepted, by whomever and whenever it is made.
pub proof fn lemma_challenge_is_single_use(
    table: Map<Seq<char>, AntiBotChallenge>,
    first_client: Seq<char>,
    first: DownloadRequest,
    first_now: Timestamp,
    second_client: Seq<char>,
    second: DownloadRequest,
    second_now: Timestamp,
)
    requires
        early_rejection(first) is None,
        requested_challenge(second) == requested_challenge(first),
    ensures
        antibot_verdict(
            challenges_after_validation(table, first, first_now),
            second_client,
            second,
            second_now,
        ) is Err,
{
}

/// In particular a challenge that was accepted once is never accepted again.
pub proof fn lemma_accepted_challenge_is_spent(
    table: Map<Seq<char>, AntiBotChallenge>,
    first_client: Seq<char>,
    first: DownloadRequest,
    first_now: Timestamp,
    second_client: Seq<char>,
    second: DownloadRequest,
    second_now: Timestamp,
)
    requires
        antibot_verdict(table, first_client, first, first_now) is Ok,
        requested_challenge(second) == requested_challenge(first),
    ensures
        antibot_verdict(
            challenges_after_validation(table, first, first_now),
            second_client,
            second,
            second_now,
        ) is Err,
{
    lemma_challenge_is_single_use(
        table,
        first_client,
        first,
        first_now,
        second_client,
        second,
        second_now,
    );
}

/// A challenge that is not in the table stays out of it until it is issued
/// anew: no request for it is accepted, and neither a validation nor the
/// issue of another challenge brings it back.
pub proof fn lemma_spent_challenge_stays_spent(
    table: Map<Seq<char>, AntiBotChallenge>,
    id: Seq<char>,
    client: Seq<char>,
    payload: DownloadRequest,
    now: Timestamp,
    issued_id: Seq<char>,
    issued: AntiBotChallenge,
    after_issue: Map<Seq<char>, AntiBotChallenge>,
    limit: nat,
)
    requires
        !table.contains_key(id),
    ensures
        requested_challenge(payload) == Some(id) ==> antibot_verdict(
            table,
            client,
            payload,
            now,
        ) is Err,
        !challenges_after_validation(table, payload, now).contains_key(id),
        issued_id != id && trimmed_to(
            fresh_challenges(table, now).insert(issued_id, issued),
            after_issue,
            limit,
        ) ==> !after_issue.contains_key(id),
{
}

/// A validation uses up no challenge but the one it was made for: every
/// other challenge that can still be redeemed stays as it is.
pub proof fn lemma_validation_uses_up_one_challenge(
    table: Map<Seq<char>, AntiBotChallenge>,
    payload: DownloadRequest,
    now: Timestamp,
    other: Seq<char>,
)
    requires
        requested_challenge(payload) != Some(other),
        table.contains_key(other),
        is_fresh(table[other].created_at, now),
    ensures
        challenges_after_validation(table, payload, now).contains_key(other),
        challenges_after_validation(table, payload, now)[other] == table[other],
{
}

/// How the anti-bot check is made, chosen once when the service starts.
#[derive(Debug)]
pub enum ProtectionStrategy {
    /// Tokens are judged by the verification service, which knows this secret.
    Delegated { secret: String },
    /// Callers solve a local proof-of-work challenge.
    LocalPow,
}

/// The strategy for a configured secret: delegated when there is a secret
/// that holds more than whitespace, local proof of work otherwise.
pub fn strategy_from_secret(secret: Option<&str>) -> (strategy: ProtectionStrategy)
    ensures
        match strategy {
            ProtectionStrategy::Delegated { secret: kept } => secret is Some && !is_blank(
                secret->0@,
            ) && kept@ == trimmed(secret->0@),
            ProtectionStrategy::LocalPow => secret is None || is_blank(secret->0@),
        },
{
    let usable: Option<&str> = match secret {
        Some(value) => non_empty(value),
        None => None,
    };
    match usable {
        Some(value) => ProtectionStrategy::Delegated { secret: value.to_owned() },
        None => ProtectionStrategy::LocalPow,
    }
}

/// What is to be done to check a request.
#[derive(Debug)]
pub enum ProtectionPlan {
    /// Nothing: the request is turned down.
    Reject(BotCheckFailure),
    /// The verification service is asked about this token.
    Delegate { token: String },
    /// The local proof-of-work check is made.
    ValidateLocally,
}

/// The token of a request, if it holds more than whitespace.
pub open spec fn presented_token(payload: DownloadRequest) -> Option<Seq<char>> {
    match payload.turnstile_token {
        Some(token) => non_empty_spec(token@),
        None => None,
    }
}

/// Decides how a request is checked. A filled honeypot turns the request
/// down under either strategy, before anything else is looked at.
pub fn verify_request_protection(
    strategy: &ProtectionStrategy,
    payload: &DownloadRequest,
) -> (plan: ProtectionPlan)
    ensures
        honeypot_filled(*payload) ==> plan == ProtectionPlan::Reject(BotCheckFailure::Honeypot),
        !honeypot_filled(*payload) ==> match *strategy {
            ProtectionStrategy::LocalPow => plan is ValidateLocally,
            ProtectionStrategy::Delegated { .. } => match presented_token(*payload) {
                Some(token) => plan is Delegate && plan->token@ == token,
                None => plan == ProtectionPlan::Reject(BotCheckFailure::MissingToken),
            },
        },
{
    if honeypot_is_filled(payload) {
        return ProtectionPlan::Reject(BotCheckFailure::Honeypot);
    }
    match strategy {
        ProtectionStrategy::LocalPow => ProtectionPlan::ValidateLocally,
        ProtectionStrategy::Delegated { .. } => {
            let presented: Option<&str> = match &payload.turnstile_token {
                Some(token) => non_empty(token.as_str()),
                None => None,
            };
            match presented {
                Some(token) => ProtectionPlan::Delegate { token: token.to_owned() },
                None => ProtectionPlan::Reject(BotCheckFailure::MissingToken),
            }
        },
    }
}

/// The fields of the form that is sent to the verification service, in
/// order: the secret, the caller's token, and the caller's address.
pub fn turnstile_form(secret: &str, token: &str, client_ip: &str) -> (form: Vec<(String, String)>)
    ensures
        form.len() == 3,
        form[0].0@ == "secret"@ && form[0].1@ == secret@,
        form[1].0@ == "response"@ && form[1].1@ == token@,
        form[2].0@ == "remoteip"@ && form[2].1@ == client_ip@,
{
    let mut form: Vec<(String, String)> = Vec::new();
    form.push(("secret".to_owned(), secret.to_owned()));
    form.push(("response".to_owned(), token.to_owned()));
    form.push(("remoteip".to_owned(), client_ip.to_owned()));
    form
}

/// What came back from the verification service.
#[derive(Clone, Copy, Debug, PartialEq, Eq, Structural)]
pub enum VerifierReply {
    /// The request ran out of the time it was given.
    TimedOut,
    /// The request failed in another way before an answer came.
    Unreachable,
    /// It answered with this HTTP status; `success` is the flag of its
    /// answer, or `None` when the answer could not be read.
    Answered { status: u16, success: Option<bool> },
}

/// What the reply means for the token.
#[derive(Clone, Copy, Debug, PartialEq, Eq, Structural)]
pub enum VerifierVerdict {
    /// The service accepted the token.
    Accepted,
    /// The token counts as turned down, for this reason.
    Refused { failure: BotCheckFailure },
    /// The service did not answer in time: nothing is known of the token, and
    /// the caller may try again.
    TimedOut,
}

/// A status in the range of success, 200 to 299.
pub open spec fn is_success_status(status: u16) -> bool {
    200 <= status && status < 300
}

/// The verdict on a token. It fails closed: the token is accepted only when
/// the service answered with a status of success and said so. A request
/// that ran out of time is told apart from every other failure.
pub open spec fn turnstile_verdict(reply: VerifierReply) -> VerifierVerdict {
    match reply {
        VerifierReply::TimedOut => VerifierVerdict::TimedOut,
        VerifierReply::Unreachable => VerifierVerdict::Refused {
            failure: BotCheckFailure::VerifierUnavailable,
        },
        VerifierReply::Answered { status, success } => if !is_success_status(status) {
            VerifierVerdict::Refused { failure: BotCheckFailure::VerifierUnavailable }
        } else {
            match success {
                None => VerifierVerdict::Refused { failure: BotCheckFailure::VerifierUnavailable },
                Some(false) => VerifierVerdict::Refused {
                    failure: BotCheckFailure::VerifierRejected,
                },
                Some(true) => VerifierVerdict::Accepted,
            }
        },
    }
}

pub fn verify_turnstile_token(reply: VerifierReply) -> (verdict: VerifierVerdict)
    ensures
        verdict == turnstile_verdict(reply),
        verdict is Accepted <==> (reply matches VerifierReply::Answered { status, success }
            && is_success_status(status) && success == Some(true)),
        verdict is TimedOut <==> reply is TimedOut,
{
    match reply {
        VerifierReply::TimedOut => VerifierVerdict::TimedOut,
        VerifierReply::Unreachable => VerifierVerdict::Refused {
            failure: BotCheckFailure::VerifierUnavailable,
        },
        VerifierReply::Answered { status, success } => {
            if !(200 <= status && status < 300) {
                VerifierVerdict::Refused { failure: BotCheckFailure::VerifierUnavailable }
            } else {
                match success {
                    None => VerifierVerdict::Refused {
                        failure: BotCheckFailure::VerifierUnavailable,
                    },
                    Some(false) => VerifierVerdict::Refused {
                        failure: BotCheckFailure::VerifierRejected,
                    },
                    Some(true) => VerifierVerdict::Accepted,
                }
            }
        },
    }
}

pub open spec fn verifier_timeout_message() -> Seq<char> {
    "La verificacion anti-bot excedio el tiempo limite. Intenta nuevamente."@
}

/// The error that a verdict amounts to, or `None` for an accepted token: a
/// refusal is a failed bot check, a verification that ran out of time is the
/// caller's to retry.
pub open spec fn verdict_error(verdict: VerifierVerdict) -> Option<ApiErrorView> {
    match verdict {
        VerifierVerdict::Accepted => None,
        VerifierVerdict::Refused { failure } => Some(bot_check_failed_view(bot_check_message())),
        VerifierVerdict::TimedOut => Some(bad_request_view(verifier_timeout_message())),
    }
}

impl VerifierVerdict {
    /// The error for the caller, if the token was not accepted.
    pub fn to_api_error(&self) -> (e: Option<ApiError>)
        ensures
            match verdict_error(*self) {
                None => e is None,
                Some(view) => e is Some && e->0@ == view,
            },
            e is Some && !(*self is TimedOut) ==> e->0.status == STATUS_FORBIDDEN,
            *self is TimedOut ==> e is Some && e->0.status == STATUS_BAD_REQUEST && e->0.code is None,
    {
        match self {
            VerifierVerdict::Accepted => None,
            VerifierVerdict::Refused { failure } => Some(failure.to_api_error()),
            VerifierVerdict::TimedOut => Some(
                ApiError::bad_request(
                    "La verificacion anti-bot excedio el tiempo limite. Intenta nuevamente.",
                ),
            ),
        }
    }
}

} // verus!
