use aborganizer::error::ApiError;
use aborganizer::pairing::{
    code_of, consumed_response, find_match, issue_code, issued_response, listed_code, mint_code,
    pairing_codes_revoke, pairing_consume, pick_token_nickname, plan_consume, plan_issue,
    ConsumePairingCodeRequest, CreatePairingCodeRequest, IssuedCode, StoredCode, CODE_ALPHABET,
    CONSUME_PUBLIC_PATH, MAX_LIFETIME_MINUTES,
};
use aborganizer::rate_limit::{CheckResult, RateLimiter};

const NOW: i64 = 1_800_000_000;

fn request(label: &str, scopes: &[&str], minutes: Option<u32>) -> CreatePairingCodeRequest {
    CreatePairingCodeRequest {
        device_label: label.to_owned(),
        scopes: scopes.iter().map(|s| (*s).to_owned()).collect(),
        expires_in_minutes: minutes,
    }
}

fn issue(req: &CreatePairingCodeRequest) -> IssuedCode {
    let plan = plan_issue(req).expect("valid request");
    issue_code(plan, &req.scopes, NOW).expect("issued")
}

fn store(c: &IssuedCode, code_id: i64) -> StoredCode {
    StoredCode {
        code_id,
        code_hash: c.code_hash.clone(),
        device_label: c.device_label.clone(),
        scopes_json: c.scopes_json.clone(),
        issued_at: c.issued_at,
        expires_at: c.expires_at,
        consumed_token_id: None,
    }
}

fn ask(code: &str) -> ConsumePairingCodeRequest {
    ConsumePairingCodeRequest { code: code.to_owned(), device_label: None }
}

fn consume(rows: &Vec<StoredCode>, code: &str, now: i64) -> Result<usize, ApiError> {
    pairing_consume(&mut RateLimiter::default(), rows, &ask(code), now, 0)
}

fn not_recognised(r: &Result<usize, ApiError>) -> bool {
    matches!(r, Err(ApiError::NotFound(m))
        if m == "pairing code not recognised, expired, or already consumed")
}

#[test]
fn mint_code_shape() {
    let c = mint_code();
    assert_eq!(c.len(), 9, "8 chars + dash");
    assert_eq!(c.chars().nth(4), Some('-'));
    for (i, ch) in c.chars().enumerate() {
        if i == 4 {
            continue;
        }
        assert!(CODE_ALPHABET.contains(ch), "char {ch} at {i} not in alphabet");
    }
}

#[test]
fn mint_code_is_distinct_per_call() {
    let a = mint_code();
    let b = mint_code();
    assert_ne!(a, b, "rng collision smoke");
}

#[test]
fn codes_of_given_bytes() {
    assert_eq!(code_of(&[0, 1, 2, 3, 4, 5, 6, 7]), "ABCD-EFGH");
    assert_eq!(code_of(&[21, 22, 43, 44, 255, 8, 9, 10]), "YAYA-PJKL");
}

#[test]
fn create_returns_raw_code_then_list_omits_it() {
    let req = request("iPad", &["play"], Some(30));
    let issued = issue(&req);
    let row = listed_code(&store(&issued, 1));
    let created = issued_response(issued, 1, req.scopes);
    assert_eq!(created.code.len(), 9, "raw code XXXX-XXXX");
    assert!(created.row.expires_at > created.row.issued_at);
    assert_eq!(row.code_id, created.row.code_id);
    assert_eq!(row.device_label, "iPad");
    assert_eq!(row.scopes, vec!["play"]);
}

#[test]
fn create_rejects_empty_device_label() {
    let r = plan_issue(&request("   ", &[], None));
    assert!(matches!(r, Err(ApiError::BadRequest(_))));
}

#[test]
fn create_rejects_long_labels_and_empty_scopes() {
    assert!(plan_issue(&request(&"x".repeat(128), &[], None)).is_ok());
    assert!(matches!(
        plan_issue(&request(&"x".repeat(129), &[], None)),
        Err(ApiError::BadRequest(m)) if m == "device_label must be ≤ 128 chars"
    ));
    assert!(
        plan_issue(&request(&"ä".repeat(65), &[], None)).is_err(),
        "the label is measured in bytes"
    );
    assert!(matches!(
        plan_issue(&request("x", &["play", ""], None)),
        Err(ApiError::BadRequest(m)) if m == "scope strings must be non-empty"
    ));
}

#[test]
fn create_defaults_and_caps_lifetime() {
    let a = issue(&request("A", &[], None));
    let life = a.expires_at - a.issued_at;
    assert!((599..=601).contains(&life), "default lifetime ≈ 10min, got {life}s");
    let b = issue(&request("B", &[], Some(99_999)));
    let life_b = b.expires_at - b.issued_at;
    let max_secs = i64::from(MAX_LIFETIME_MINUTES) * 60;
    assert!(
        (max_secs - 1..=max_secs + 1).contains(&life_b),
        "capped to {max_secs}s, got {life_b}s"
    );
    let c = issue(&request("C", &[], Some(0)));
    assert_eq!(c.expires_at - c.issued_at, 600);
}

#[test]
fn revoke_unknown_id_is_not_found() {
    let r = pairing_codes_revoke(99_999, 0, false);
    assert!(matches!(r, Err(ApiError::NotFound(m)) if m == "pairing_code 99999"));
}

#[test]
fn revoke_pending_removes_row() {
    assert!(pairing_codes_revoke(1, 1, true).is_ok());
}

#[test]
fn revoke_consumed_code_returns_conflict() {
    let r = pairing_codes_revoke(1, 0, true);
    assert!(
        matches!(r, Err(ApiError::Conflict(m))
            if m == "pairing_code 1 is already consumed; revoke the token instead"),
        "consumed code → 409 conflict; revoke the token instead"
    );
}

#[test]
fn consume_round_trip() {
    let created = issue(&request("iPad-A", &["play", "read"], Some(15)));
    let mut rows = vec![store(&created, 1)];
    let k = consume(&rows, &created.code, NOW).expect("found");
    assert_eq!(k, 0);
    let consumed =
        consumed_response(&rows[k], Some("iPad-A-paired"), 5, "f".repeat(64), NOW);
    assert_eq!(consumed.token.len(), 64, "raw bearer is 64 hex chars");
    assert_eq!(consumed.row.nickname.as_deref(), Some("iPad-A-paired"));
    assert_eq!(consumed.row.scopes, vec!["play", "read"]);
    assert_eq!(consumed.row.expires_at, Some(created.expires_at));

    rows[k].consumed_token_id = Some(consumed.row.token_id);
    assert_eq!(listed_code(&rows[k]).consumed_token_id, Some(5));
    let again = consume(&rows, &created.code, NOW);
    assert!(not_recognised(&again), "a code is consumed once, got {again:?}");
}

#[test]
fn consume_rejects_wrong_code() {
    let created = issue(&request("X", &[], None));
    let rows = vec![store(&created, 1)];
    let r = consume(&rows, "WRON-GONE", NOW);
    assert!(not_recognised(&r), "{r:?}");
}

#[test]
fn consume_is_case_insensitive() {
    let created = issue(&request("X", &[], None));
    let rows = vec![store(&created, 1)];
    let r = consume(&rows, &format!("  {} ", created.code.to_lowercase()), NOW);
    assert!(matches!(r, Ok(0)), "lower-case input should still verify, got {r:?}");
}

#[test]
fn consume_rejects_expired_code() {
    let created = issue(&request("X", &[], Some(1)));
    let mut rows = vec![store(&created, 1)];
    assert!(matches!(consume(&rows, &created.code, created.expires_at - 1), Ok(0)));
    assert!(not_recognised(&consume(&rows, &created.code, created.expires_at)));
    rows[0].expires_at = 1;
    assert!(not_recognised(&consume(&rows, &created.code, NOW)));
}

#[test]
fn unreadable_hashes_match_nothing() {
    let created = issue(&request("X", &[], None));
    let mut broken = store(&created, 1);
    broken.code_hash = "not a hash".to_owned();
    let rows = vec![broken, store(&created, 2)];
    assert_eq!(find_match(&rows, &created.code, NOW), Some(1));
}

#[test]
fn hashes_with_too_many_lanes_match_nothing() {
    let created = issue(&request("X", &[], None));
    let mut wide = store(&created, 1);
    wide.code_hash = created.code_hash.replace("p=1", "p=536870912");
    assert_ne!(wide.code_hash, created.code_hash);
    let rows = vec![wide, store(&created, 2)];
    assert!(matches!(consume(&rows, &created.code, NOW), Ok(1)));
}

#[test]
fn consume_rate_limit_kicks_in_after_threshold() {
    let created = issue(&request("X", &[], None));
    let rows = vec![store(&created, 1)];
    let nothing: Vec<StoredCode> = vec![];
    let mut limiter = RateLimiter::default();
    let req = ask("WRON-GONE");
    for i in 1..=30 {
        let r = pairing_consume(&mut limiter, &nothing, &req, NOW, 100 + i);
        assert!(not_recognised(&r), "attempt {i}: {r:?}");
    }
    match pairing_consume(&mut limiter, &nothing, &req, NOW, 131) {
        Err(ApiError::RateLimited { retry_after_secs }) => {
            assert!(retry_after_secs >= 1, "Retry-After must be ≥ 1, got {retry_after_secs}");
            assert_eq!(retry_after_secs, 30);
        }
        other => panic!("31st attempt should return RateLimited, got {other:?}"),
    }
    let good = ask(&created.code);
    let r = pairing_consume(&mut limiter, &rows, &good, NOW, 131);
    assert!(matches!(r, Err(ApiError::RateLimited { .. })), "a right code waits too: {r:?}");
    assert!(matches!(pairing_consume(&mut limiter, &rows, &good, NOW, 161), Ok(0)));
}

#[test]
fn matches_leave_the_budget_alone() {
    let created = issue(&request("X", &[], None));
    let rows = vec![store(&created, 1)];
    let mut limiter = RateLimiter::default();
    for i in 0..29 {
        let _ = pairing_consume(&mut limiter, &vec![], &ask("WRON-GONE"), NOW, i);
    }
    let before = limiter.failures.len();
    assert!(matches!(pairing_consume(&mut limiter, &rows, &ask(&created.code), NOW, 30), Ok(0)));
    assert_eq!(limiter.failures.len(), before);
}

#[test]
fn rate_limit_short_circuits_empty_code() {
    let mut limiter = RateLimiter::default();
    for _ in 0..30 {
        limiter.record_failure(50);
    }
    let r = pairing_consume(&mut limiter, &vec![], &ask(""), NOW, 50);
    assert!(
        matches!(r, Err(ApiError::RateLimited { .. })),
        "rate-limit must short-circuit before BadRequest validation, got {r:?}"
    );
    let r = consume(&vec![], "", NOW);
    assert!(matches!(r, Err(ApiError::BadRequest(m)) if m == "code must not be empty"));
    let r = plan_consume(&CheckResult::Allowed, &ask(" ab-cd "));
    assert_eq!(r.expect("presented"), "AB-CD");
}

#[test]
fn token_labels_fall_back_to_the_code() {
    assert_eq!(pick_token_nickname(Some(" a "), "b"), "a");
    assert_eq!(pick_token_nickname(Some("  "), "b"), "b");
    assert_eq!(pick_token_nickname(None, "b"), "b");
    assert_eq!(CONSUME_PUBLIC_PATH, "/pairing/consume");
}

#[test]
fn unreadable_scopes_are_none() {
    let created = issue(&request("X", &["a\"b", "ü"], None));
    let mut row = store(&created, 1);
    assert_eq!(listed_code(&row).scopes, vec!["a\"b", "ü"]);
    row.scopes_json = "nonsense".to_owned();
    assert!(listed_code(&row).scopes.is_empty());
}

#[test]
fn scopes_are_stored_as_a_json_array() {
    let none = issue(&request("X", &[], None));
    assert_eq!(none.scopes_json, "[]");
    let some = issue(&request("X", &["play", "a\"b\\", "\u{1}\n/ü"], None));
    assert_eq!(some.scopes_json, "[\"play\",\"a\\\"b\\\\\",\"\\u0001\\n/ü\"]");
}
