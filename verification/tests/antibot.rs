use backend::antibot::{
    challenge_is_fresh, create_antibot_challenge, digest_meets_difficulty, honeypot_is_filled,
    is_pow_solution_valid, issue_challenge, prune_antibot_challenges, strategy_from_secret,
    trim_antibot_challenges, turnstile_endpoint, turnstile_form, validate_antibot,
    validate_antibot_at, verify_request_protection, verify_turnstile_token, BotCheckFailure,
    ChallengeTable, ProtectionPlan, ProtectionStrategy, VerifierReply, VerifierVerdict,
    ANTIBOT_CHALLENGE_TTL_SECONDS, ANTIBOT_DIFFICULTY_HEX_PREFIX, ANTIBOT_MIN_ELAPSED_MS,
    MAX_ANTIBOT_CHALLENGES, TURNSTILE_TIMEOUT_SECONDS,
};
use backend::clock::Timestamp;
use backend::errors::ErrorCode;
use backend::model::{DownloadMode, DownloadRequest};

fn at(secs: i64) -> Timestamp {
    Timestamp { secs, nanos: 0 }
}

fn request() -> DownloadRequest {
    DownloadRequest {
        url: "https://youtu.be/abc".to_string(),
        title: None,
        thumbnail: None,
        mode: DownloadMode::Video,
        format_id: None,
        format_label: None,
        has_audio: None,
        antibot_challenge_id: None,
        antibot_solution: None,
        antibot_honey: None,
        antibot_elapsed_ms: None,
        turnstile_token: None,
    }
}

fn solved(challenge_id: &str, solution: u64) -> DownloadRequest {
    let mut payload = request();
    payload.antibot_challenge_id = Some(challenge_id.to_string());
    payload.antibot_solution = Some(solution);
    payload.antibot_elapsed_ms = Some(1_500);
    payload
}

fn solve(challenge_id: &str, nonce: &str) -> u64 {
    let mut solution: u64 = 0;
    while !is_pow_solution_valid(challenge_id, nonce, solution) {
        solution += 1;
    }
    solution
}

fn issue(table: &mut ChallengeTable, id: &str, nonce: &str, ip: &str, now: Timestamp) {
    issue_challenge(table, id.to_string(), nonce.to_string(), ip.to_string(), now);
}

#[test]
fn antibot_constants_have_their_values() {
    assert_eq!(ANTIBOT_DIFFICULTY_HEX_PREFIX, 3);
    assert_eq!(ANTIBOT_CHALLENGE_TTL_SECONDS, 300);
    assert_eq!(ANTIBOT_MIN_ELAPSED_MS, 900);
    assert_eq!(MAX_ANTIBOT_CHALLENGES, 20_000);
    assert_eq!(TURNSTILE_TIMEOUT_SECONDS, 10);
    assert_eq!(turnstile_endpoint(), "https://challenges.cloudflare.com/turnstile/v0/siteverify");
}

#[test]
fn a_new_table_keeps_up_to_the_ceiling() {
    assert_eq!(ChallengeTable::new().limit, 20_000);
    assert_eq!(ChallengeTable::with_limit(7).limit, 7);
    assert_eq!(ChallengeTable::new().len(), 0);
}

#[test]
fn pow_accepts_known_solutions() {
    assert!(is_pow_solution_valid("challenge-1", "nonce-a", 5213));
    assert!(is_pow_solution_valid("challenge-1", "nonce-a", 5706));
    assert!(is_pow_solution_valid(
        "3f2b8c1e-0d4a-4b6f-9a1e-5c7d8e9f0a1b",
        "0123456789abcdef0123456789abcdef",
        235
    ));
    assert!(is_pow_solution_valid("día-ñ", "nøncé", 10368));
}

#[test]
fn pow_rejects_everything_else() {
    assert!(!is_pow_solution_valid("challenge-1", "nonce-a", 0));
    assert!(!is_pow_solution_valid("challenge-1", "nonce-a", 181));
    assert!(!is_pow_solution_valid("challenge-1", "nonce-a", 5212));
    assert!(!is_pow_solution_valid("challenge-1", "nonce-b", 5213));
    assert!(!is_pow_solution_valid("challenge-2", "nonce-a", 5213));
    assert!(!is_pow_solution_valid("challenge-1:nonce-a", "", 5213));
    for solution in 0..235 {
        assert!(!is_pow_solution_valid(
            "3f2b8c1e-0d4a-4b6f-9a1e-5c7d8e9f0a1b",
            "0123456789abcdef0123456789abcdef",
            solution
        ));
    }
}

#[test]
fn pow_is_a_function_of_its_inputs() {
    for solution in [0u64, 181, 5213, 5706, 99_999] {
        let first = is_pow_solution_valid("challenge-1", "nonce-a", solution);
        let second = is_pow_solution_valid("challenge-1", "nonce-a", solution);
        assert_eq!(first, second);
    }
}

#[test]
fn difficulty_is_three_hex_zeros() {
    assert!(digest_meets_difficulty(&[0x00, 0x0a, 0xc2, 0x3e]));
    assert!(digest_meets_difficulty(&[0x00, 0x00]));
    assert!(digest_meets_difficulty(&[0x00, 0x0f, 0xff]));
    assert!(!digest_meets_difficulty(&[0x00, 0x10]));
    assert!(!digest_meets_difficulty(&[0x00, 0x3b]));
    assert!(!digest_meets_difficulty(&[0x01, 0x00]));
    assert!(!digest_meets_difficulty(&[0x10, 0x00]));
    assert!(!digest_meets_difficulty(&[0x00]));
    assert!(!digest_meets_difficulty(&[]));
}

#[test]
fn a_challenge_lives_five_minutes_and_no_longer() {
    let made = Timestamp { secs: 1_000, nanos: 500_000_000 };
    assert!(challenge_is_fresh(&made, &Timestamp { secs: 1_000, nanos: 500_000_000 }));
    assert!(challenge_is_fresh(&made, &Timestamp { secs: 1_300, nanos: 499_999_999 }));
    assert!(challenge_is_fresh(&made, &Timestamp { secs: 1_300, nanos: 500_000_000 }));
    assert!(!challenge_is_fresh(&made, &Timestamp { secs: 1_300, nanos: 500_000_001 }));
    assert!(!challenge_is_fresh(&made, &Timestamp { secs: 1_301, nanos: 0 }));
    assert!(!challenge_is_fresh(&made, &Timestamp { secs: 1_301, nanos: 499_999_999 }));
    assert!(!challenge_is_fresh(&made, &at(2_000)));
    assert!(challenge_is_fresh(&made, &at(900)));
    assert!(challenge_is_fresh(&made, &at(-5_000)));
    assert!(challenge_is_fresh(&at(0), &at(300)));
    assert!(!challenge_is_fresh(&at(0), &Timestamp { secs: 300, nanos: 500_000_000 }));
}

#[test]
fn a_challenge_half_a_second_too_old_is_pruned_and_rejected() {
    let mut table = ChallengeTable::new();
    issue(&mut table, "challenge-1", "nonce-a", "1.2.3.4", at(0));
    let late = Timestamp { secs: 300, nanos: 500_000_000 };
    assert_eq!(
        validate_antibot_at(&mut table, "1.2.3.4", &solved("challenge-1", 5213), late),
        Err(BotCheckFailure::UnknownChallenge)
    );
    assert_eq!(table.len(), 0);
    issue(&mut table, "challenge-1", "nonce-a", "1.2.3.4", at(0));
    assert_eq!(
        validate_antibot_at(&mut table, "1.2.3.4", &solved("challenge-1", 5213), at(300)),
        Ok(())
    );
    issue(&mut table, "kept", "n", "1.2.3.4", at(0));
    prune_antibot_challenges(&mut table, at(300));
    assert!(table.contains("kept"));
    prune_antibot_challenges(&mut table, Timestamp { secs: 300, nanos: 1 });
    assert!(!table.contains("kept"));
}

#[test]
fn issue_stores_the_challenge() {
    let mut table = ChallengeTable::new();
    assert_eq!(table.len(), 0);
    let response = issue_challenge(
        &mut table,
        "id-1".to_string(),
        "nonce-1".to_string(),
        "1.2.3.4".to_string(),
        at(1_000),
    );
    assert_eq!(response.challenge_id, "id-1");
    assert_eq!(response.nonce, "nonce-1");
    assert_eq!(response.difficulty, 3);
    assert_eq!(response.expires_in_seconds, 300);
    assert_eq!(table.len(), 1);
    assert!(table.contains("id-1"));
    assert!(!table.contains("id-2"));
}

#[test]
fn issue_replaces_a_challenge_with_the_same_id() {
    let mut table = ChallengeTable::new();
    issue(&mut table, "id-1", "nonce-1", "1.2.3.4", at(1_000));
    issue(&mut table, "id-1", "nonce-2", "5.6.7.8", at(1_010));
    assert_eq!(table.len(), 1);
    let solution = solve("id-1", "nonce-2");
    let verdict = validate_antibot_at(&mut table, "5.6.7.8", &solved("id-1", solution), at(1_020));
    assert_eq!(verdict, Ok(()));
}

#[test]
fn issue_prunes_expired_challenges() {
    let mut table = ChallengeTable::new();
    issue(&mut table, "old", "n", "1.2.3.4", at(1_000));
    issue(&mut table, "edge", "n", "1.2.3.4", at(1_200));
    issue(&mut table, "new", "n", "1.2.3.4", at(1_500));
    assert!(!table.contains("old"));
    assert!(table.contains("edge"));
    assert!(table.contains("new"));
    assert_eq!(table.len(), 2);
}

#[test]
fn prune_keeps_what_is_within_the_time_to_live() {
    let mut table = ChallengeTable::new();
    issue(&mut table, "a", "n", "ip", at(1_000));
    issue(&mut table, "b", "n", "ip", at(1_100));
    issue(&mut table, "c", "n", "ip", at(1_200));
    prune_antibot_challenges(&mut table, at(1_300));
    assert_eq!(table.len(), 3);
    prune_antibot_challenges(&mut table, at(1_301));
    assert_eq!(table.len(), 2);
    assert!(!table.contains("a"));
    prune_antibot_challenges(&mut table, at(1_500));
    assert_eq!(table.len(), 1);
    assert!(table.contains("c"));
    prune_antibot_challenges(&mut table, at(9_999));
    assert_eq!(table.len(), 0);
}

#[test]
fn trim_evicts_the_oldest_first() {
    let mut table = ChallengeTable::with_limit(3);
    issue(&mut table, "c", "n", "ip", at(1_030));
    issue(&mut table, "a", "n", "ip", at(1_010));
    issue(&mut table, "d", "n", "ip", at(1_040));
    assert_eq!(table.len(), 3);
    issue(&mut table, "b", "n", "ip", at(1_020));
    assert_eq!(table.len(), 3);
    assert!(!table.contains("a"));
    assert!(table.contains("b"));
    assert!(table.contains("c"));
    assert!(table.contains("d"));
    issue(&mut table, "e", "n", "ip", at(1_050));
    assert_eq!(table.len(), 3);
    assert!(!table.contains("b"));
    assert!(table.contains("c") && table.contains("d") && table.contains("e"));
    trim_antibot_challenges(&mut table);
    assert_eq!(table.len(), 3);
}

#[test]
fn trim_to_a_limit_of_zero_keeps_nothing() {
    let mut table = ChallengeTable::with_limit(0);
    issue(&mut table, "a", "n", "ip", at(1_010));
    assert_eq!(table.len(), 0);
}

#[test]
fn create_makes_a_fresh_challenge() {
    let mut table = ChallengeTable::new();
    let first = create_antibot_challenge(&mut table, "1.2.3.4");
    let second = create_antibot_challenge(&mut table, "1.2.3.4");
    assert_eq!(first.challenge_id.len(), 36);
    assert_eq!(first.nonce.len(), 32);
    assert!(first.challenge_id.chars().all(|c| c == '-' || c.is_ascii_digit() || ('a'..='f').contains(&c)));
    assert!(first.nonce.chars().all(|c| c.is_ascii_digit() || ('a'..='f').contains(&c)));
    assert_eq!(first.challenge_id.matches('-').count(), 4);
    assert_ne!(first.challenge_id, second.challenge_id);
    assert_ne!(first.nonce, second.nonce);
    assert_eq!(first.difficulty, 3);
    assert_eq!(first.expires_in_seconds, 300);
    assert_eq!(table.len(), 2);
    assert!(table.contains(&first.challenge_id));
    assert!(table.contains(&second.challenge_id));
}

#[test]
fn created_challenge_can_be_redeemed_once() {
    let mut table = ChallengeTable::new();
    let challenge = create_antibot_challenge(&mut table, "1.2.3.4");
    let solution = solve(&challenge.challenge_id, &challenge.nonce);
    let payload = solved(&challenge.challenge_id, solution);
    assert!(validate_antibot(&mut table, "1.2.3.4", &payload).is_ok());
    let again = validate_antibot(&mut table, "1.2.3.4", &payload).unwrap_err();
    assert_eq!(again.status, 403);
    assert_eq!(again.code, Some(ErrorCode::BotCheckFailed));
    assert_eq!(again.message, "No se pudo validar anti-bot. Intenta nuevamente.");
}

#[test]
fn valid_solution_is_accepted() {
    let mut table = ChallengeTable::new();
    issue(&mut table, "challenge-1", "nonce-a", "1.2.3.4", at(1_000));
    let verdict = validate_antibot_at(&mut table, "1.2.3.4", &solved("challenge-1", 5213), at(1_010));
    assert_eq!(verdict, Ok(()));
    assert!(!table.contains("challenge-1"));
}

#[test]
fn challenge_id_is_trimmed_before_the_lookup() {
    let mut table = ChallengeTable::new();
    issue(&mut table, "challenge-1", "nonce-a", "1.2.3.4", at(1_000));
    let verdict =
        validate_antibot_at(&mut table, "1.2.3.4", &solved("  challenge-1\n", 5213), at(1_010));
    assert_eq!(verdict, Ok(()));
}

#[test]
fn second_attempt_with_the_same_id_is_rejected() {
    let mut table = ChallengeTable::new();
    issue(&mut table, "challenge-1", "nonce-a", "1.2.3.4", at(1_000));
    let payload = solved("challenge-1", 5213);
    assert_eq!(validate_antibot_at(&mut table, "1.2.3.4", &payload, at(1_010)), Ok(()));
    assert_eq!(
        validate_antibot_at(&mut table, "1.2.3.4", &payload, at(1_011)),
        Err(BotCheckFailure::UnknownChallenge)
    );
    assert_eq!(
        validate_antibot_at(&mut table, "9.9.9.9", &solved("challenge-1", 5706), at(1_012)),
        Err(BotCheckFailure::UnknownChallenge)
    );
}

#[test]
fn failed_attempt_uses_the_challenge_up() {
    let mut table = ChallengeTable::new();
    issue(&mut table, "challenge-1", "nonce-a", "1.2.3.4", at(1_000));
    assert_eq!(
        validate_antibot_at(&mut table, "1.2.3.4", &solved("challenge-1", 1), at(1_010)),
        Err(BotCheckFailure::InvalidProof)
    );
    assert!(!table.contains("challenge-1"));
    assert_eq!(
        validate_antibot_at(&mut table, "1.2.3.4", &solved("challenge-1", 5213), at(1_011)),
        Err(BotCheckFailure::UnknownChallenge)
    );
}

#[test]
fn too_fast_is_rejected_even_with_a_valid_solution() {
    let mut table = ChallengeTable::new();
    issue(&mut table, "challenge-1", "nonce-a", "1.2.3.4", at(1_000));
    let mut payload = solved("challenge-1", 5213);
    payload.antibot_elapsed_ms = Some(500);
    assert_eq!(
        validate_antibot_at(&mut table, "1.2.3.4", &payload, at(1_010)),
        Err(BotCheckFailure::TooFast)
    );
    assert!(table.contains("challenge-1"));
    payload.antibot_elapsed_ms = Some(899);
    assert_eq!(
        validate_antibot_at(&mut table, "1.2.3.4", &payload, at(1_010)),
        Err(BotCheckFailure::TooFast)
    );
    payload.antibot_elapsed_ms = None;
    assert_eq!(
        validate_antibot_at(&mut table, "1.2.3.4", &payload, at(1_010)),
        Err(BotCheckFailure::TooFast)
    );
    payload.antibot_elapsed_ms = Some(900);
    assert_eq!(validate_antibot_at(&mut table, "1.2.3.4", &payload, at(1_010)), Ok(()));
}

#[test]
fn too_fast_answers_with_403() {
    let mut table = ChallengeTable::new();
    let challenge = create_antibot_challenge(&mut table, "1.2.3.4");
    let solution = solve(&challenge.challenge_id, &challenge.nonce);
    let mut payload = solved(&challenge.challenge_id, solution);
    payload.antibot_elapsed_ms = Some(500);
    let error = validate_antibot(&mut table, "1.2.3.4", &payload).unwrap_err();
    assert_eq!(error.status, 403);
    assert_eq!(error.code, Some(ErrorCode::BotCheckFailed));
    assert_eq!(error.message, "No se pudo validar anti-bot. Intenta nuevamente.");
    assert_eq!(error.retry_after_seconds, None);
}

#[test]
fn honeypot_is_rejected_whatever_else_is_sent() {
    let mut table = ChallengeTable::new();
    issue(&mut table, "challenge-1", "nonce-a", "1.2.3.4", at(1_000));
    let mut payload = solved("challenge-1", 5213);
    for honey in ["i am a bot", "x", " ", "   ", "\t", "\n", "\u{a0}"] {
        payload.antibot_honey = Some(honey.to_string());
        assert!(honeypot_is_filled(&payload), "{:?}", honey);
        assert_eq!(
            validate_antibot_at(&mut table, "1.2.3.4", &payload, at(1_010)),
            Err(BotCheckFailure::Honeypot),
            "{:?}",
            honey
        );
        assert!(table.contains("challenge-1"));
    }
    payload.antibot_honey = Some("".to_string());
    assert!(!honeypot_is_filled(&payload));
    payload.antibot_honey = None;
    assert!(!honeypot_is_filled(&payload));
    payload.antibot_honey = Some(String::new());
    assert_eq!(validate_antibot_at(&mut table, "1.2.3.4", &payload, at(1_010)), Ok(()));
}

#[test]
fn missing_fields_are_rejected() {
    let mut table = ChallengeTable::new();
    issue(&mut table, "challenge-1", "nonce-a", "1.2.3.4", at(1_000));
    let mut payload = solved("challenge-1", 5213);
    payload.antibot_challenge_id = None;
    assert_eq!(
        validate_antibot_at(&mut table, "1.2.3.4", &payload, at(1_010)),
        Err(BotCheckFailure::MissingChallenge)
    );
    payload.antibot_challenge_id = Some("  ".to_string());
    assert_eq!(
        validate_antibot_at(&mut table, "1.2.3.4", &payload, at(1_010)),
        Err(BotCheckFailure::MissingChallenge)
    );
    payload.antibot_challenge_id = Some("challenge-1".to_string());
    payload.antibot_solution = None;
    assert_eq!(
        validate_antibot_at(&mut table, "1.2.3.4", &payload, at(1_010)),
        Err(BotCheckFailure::MissingSolution)
    );
    assert!(table.contains("challenge-1"));
}

#[test]
fn expired_challenge_is_rejected() {
    let mut table = ChallengeTable::new();
    issue(&mut table, "challenge-1", "nonce-a", "1.2.3.4", at(1_000));
    assert_eq!(
        validate_antibot_at(&mut table, "1.2.3.4", &solved("challenge-1", 5213), at(1_301)),
        Err(BotCheckFailure::UnknownChallenge)
    );
    assert_eq!(table.len(), 0);
}

#[test]
fn challenge_of_another_client_is_rejected() {
    let mut table = ChallengeTable::new();
    issue(&mut table, "challenge-1", "nonce-a", "1.2.3.4", at(1_000));
    assert_eq!(
        validate_antibot_at(&mut table, "4.3.2.1", &solved("challenge-1", 5213), at(1_010)),
        Err(BotCheckFailure::OriginMismatch)
    );
    assert!(!table.contains("challenge-1"));
}

#[test]
fn two_requests_with_distinct_challenges_each_use_up_their_own() {
    let mut table = ChallengeTable::new();
    issue(&mut table, "challenge-1", "nonce-a", "1.2.3.4", at(1_000));
    issue(
        &mut table,
        "3f2b8c1e-0d4a-4b6f-9a1e-5c7d8e9f0a1b",
        "0123456789abcdef0123456789abcdef",
        "1.2.3.4",
        at(1_001),
    );
    let first = solved("challenge-1", 5213);
    let second = solved("3f2b8c1e-0d4a-4b6f-9a1e-5c7d8e9f0a1b", 235);
    assert_eq!(validate_antibot_at(&mut table, "1.2.3.4", &first, at(1_010)), Ok(()));
    assert!(table.contains("3f2b8c1e-0d4a-4b6f-9a1e-5c7d8e9f0a1b"));
    assert_eq!(validate_antibot_at(&mut table, "1.2.3.4", &second, at(1_010)), Ok(()));
    assert_eq!(table.len(), 0);
    assert_eq!(
        validate_antibot_at(&mut table, "1.2.3.4", &first, at(1_011)),
        Err(BotCheckFailure::UnknownChallenge)
    );
    assert_eq!(
        validate_antibot_at(&mut table, "1.2.3.4", &second, at(1_011)),
        Err(BotCheckFailure::UnknownChallenge)
    );
}

#[test]
fn every_failure_is_a_403_with_the_same_message() {
    let failures = [
        BotCheckFailure::Honeypot,
        BotCheckFailure::TooFast,
        BotCheckFailure::MissingChallenge,
        BotCheckFailure::MissingSolution,
        BotCheckFailure::UnknownChallenge,
        BotCheckFailure::OriginMismatch,
        BotCheckFailure::InvalidProof,
        BotCheckFailure::MissingToken,
        BotCheckFailure::VerifierUnavailable,
        BotCheckFailure::VerifierRejected,
    ];
    for failure in failures {
        let error = failure.to_api_error();
        assert_eq!(error.status, 403);
        assert_eq!(error.message, "No se pudo validar anti-bot. Intenta nuevamente.");
        assert_eq!(error.code, Some(ErrorCode::BotCheckFailed));
        assert_eq!(error.retry_after_seconds, None);
    }
}

#[test]
fn strategy_follows_the_secret() {
    assert!(matches!(strategy_from_secret(None), ProtectionStrategy::LocalPow));
    assert!(matches!(strategy_from_secret(Some("")), ProtectionStrategy::LocalPow));
    assert!(matches!(strategy_from_secret(Some("  \n")), ProtectionStrategy::LocalPow));
    match strategy_from_secret(Some("  s3cret ")) {
        ProtectionStrategy::Delegated { secret } => assert_eq!(secret, "s3cret"),
        ProtectionStrategy::LocalPow => panic!("a secret was configured"),
    }
}

#[test]
fn protection_plan_for_the_local_strategy() {
    let payload = solved("challenge-1", 5213);
    assert!(matches!(
        verify_request_protection(&ProtectionStrategy::LocalPow, &payload),
        ProtectionPlan::ValidateLocally
    ));
}

#[test]
fn protection_plan_for_the_delegated_strategy() {
    let strategy = ProtectionStrategy::Delegated { secret: "s".to_string() };
    let mut payload = request();
    assert!(matches!(
        verify_request_protection(&strategy, &payload),
        ProtectionPlan::Reject(BotCheckFailure::MissingToken)
    ));
    payload.turnstile_token = Some("   ".to_string());
    assert!(matches!(
        verify_request_protection(&strategy, &payload),
        ProtectionPlan::Reject(BotCheckFailure::MissingToken)
    ));
    payload.turnstile_token = Some("  tok-123 ".to_string());
    match verify_request_protection(&strategy, &payload) {
        ProtectionPlan::Delegate { token } => assert_eq!(token, "tok-123"),
        other => panic!("unexpected plan {:?}", other),
    }
}

#[test]
fn honeypot_rejects_under_either_strategy() {
    let mut payload = solved("challenge-1", 5213);
    payload.turnstile_token = Some("tok-123".to_string());
    for honey in ["x", " ", "\r\n"] {
        payload.antibot_honey = Some(honey.to_string());
        assert!(matches!(
            verify_request_protection(&ProtectionStrategy::LocalPow, &payload),
            ProtectionPlan::Reject(BotCheckFailure::Honeypot)
        ));
        assert!(matches!(
            verify_request_protection(
                &ProtectionStrategy::Delegated { secret: "s".to_string() },
                &payload
            ),
            ProtectionPlan::Reject(BotCheckFailure::Honeypot)
        ));
    }
    payload.antibot_honey = Some(String::new());
    assert!(matches!(
        verify_request_protection(&ProtectionStrategy::LocalPow, &payload),
        ProtectionPlan::ValidateLocally
    ));
    assert!(matches!(
        verify_request_protection(
            &ProtectionStrategy::Delegated { secret: "s".to_string() },
            &payload
        ),
        ProtectionPlan::Delegate { .. }
    ));
}

#[test]
fn turnstile_form_has_three_fields() {
    let form = turnstile_form("secret-value", "token-value", "1.2.3.4");
    assert_eq!(
        form,
        vec![
            ("secret".to_string(), "secret-value".to_string()),
            ("response".to_string(), "token-value".to_string()),
            ("remoteip".to_string(), "1.2.3.4".to_string()),
        ]
    );
}

#[test]
fn verifier_fails_closed() {
    let unavailable = VerifierVerdict::Refused { failure: BotCheckFailure::VerifierUnavailable };
    let rejected = VerifierVerdict::Refused { failure: BotCheckFailure::VerifierRejected };
    assert_eq!(verify_turnstile_token(VerifierReply::Unreachable), unavailable);
    assert_eq!(
        verify_turnstile_token(VerifierReply::Answered { status: 500, success: Some(true) }),
        unavailable
    );
    assert_eq!(
        verify_turnstile_token(VerifierReply::Answered { status: 199, success: Some(true) }),
        unavailable
    );
    assert_eq!(
        verify_turnstile_token(VerifierReply::Answered { status: 300, success: Some(true) }),
        unavailable
    );
    assert_eq!(
        verify_turnstile_token(VerifierReply::Answered { status: 200, success: None }),
        unavailable
    );
    assert_eq!(
        verify_turnstile_token(VerifierReply::Answered { status: 200, success: Some(false) }),
        rejected
    );
    assert_eq!(
        verify_turnstile_token(VerifierReply::Answered { status: 200, success: Some(true) }),
        VerifierVerdict::Accepted
    );
    assert_eq!(
        verify_turnstile_token(VerifierReply::Answered { status: 299, success: Some(true) }),
        VerifierVerdict::Accepted
    );
}

#[test]
fn a_verification_that_ran_out_of_time_is_a_400() {
    let verdict = verify_turnstile_token(VerifierReply::TimedOut);
    assert_eq!(verdict, VerifierVerdict::TimedOut);
    let error = verdict.to_api_error().unwrap();
    assert_eq!(error.status, 400);
    assert_eq!(error.code, None);
    assert_eq!(error.retry_after_seconds, None);
    assert_eq!(
        error.message,
        "La verificacion anti-bot excedio el tiempo limite. Intenta nuevamente."
    );
}

#[test]
fn a_refusal_by_the_verifier_is_a_403() {
    for reply in [
        VerifierReply::Unreachable,
        VerifierReply::Answered { status: 503, success: None },
        VerifierReply::Answered { status: 200, success: None },
        VerifierReply::Answered { status: 200, success: Some(false) },
    ] {
        let error = verify_turnstile_token(reply).to_api_error().unwrap();
        assert_eq!(error.status, 403);
        assert_eq!(error.code, Some(ErrorCode::BotCheckFailed));
        assert_eq!(error.message, "No se pudo validar anti-bot. Intenta nuevamente.");
    }
    let accepted = verify_turnstile_token(VerifierReply::Answered { status: 200, success: Some(true) });
    assert!(accepted.to_api_error().is_none());
}
