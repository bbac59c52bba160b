use aborganizer::auth::{
    constant_time_eq, decide_token, extract_bearer, is_public, require_token, settle_token,
    tokens_table_is_empty, AuthStep, TokenLookup,
};

#[test]
fn public_paths_are_allow_listed() {
    assert!(is_public("/health"));
    assert!(is_public("/version"));
    assert!(!is_public("/library/scan"));
    assert!(!is_public("/health/extra"));
    assert!(!is_public("/version/something"));
}

#[test]
fn constant_time_eq_basics() {
    assert!(constant_time_eq(b"abc", b"abc"));
    assert!(!constant_time_eq(b"abc", b"abd"));
    assert!(!constant_time_eq(b"abc", b"abcd"));
    assert!(!constant_time_eq(b"", b"x"));
    assert!(constant_time_eq(b"", b""));
}

#[test]
fn extract_bearer_handles_common_shapes() {
    assert_eq!(extract_bearer(Some("Bearer token123")).as_deref(), Some("token123"));
    assert_eq!(extract_bearer(Some("Bearer ")), None, "empty token after Bearer");
    assert_eq!(extract_bearer(None), None, "missing header");
    assert_eq!(extract_bearer(Some("Basic abc")), None, "wrong scheme");
    assert_eq!(extract_bearer(Some("Bearer   padded  ")).as_deref(), Some("padded"));
    assert_eq!(extract_bearer(Some("bearer x")), None);
}

#[test]
fn requests_need_a_token_unless_public() {
    assert!(matches!(require_token("/health", None), AuthStep::Pass));
    assert!(matches!(require_token("/books", None), AuthStep::Refuse(r) if r.status == 401 && r.challenge == "Bearer"));
    assert!(matches!(
        require_token("/books", Some("Bearer t")),
        AuthStep::LookUp(t) if t == "t"
    ));
}

#[test]
fn configured_token_counts_while_the_table_is_empty() {
    assert!(decide_token("t", TokenLookup::Found, None, false));
    assert!(decide_token("secret", TokenLookup::NotFound, Some("secret"), true));
    assert!(!decide_token("secret", TokenLookup::NotFound, Some("secret"), false));
    assert!(!decide_token("Secret", TokenLookup::NotFound, Some("secret"), true));
    assert!(!decide_token("x", TokenLookup::NotFound, None, true));
    assert!(!decide_token("secret", TokenLookup::Failed, Some("secret"), true));
    assert!(tokens_table_is_empty(Some(0)));
    assert!(!tokens_table_is_empty(Some(1)));
    assert!(!tokens_table_is_empty(None));
}

#[test]
fn refusals_are_challenged() {
    assert!(settle_token("t", TokenLookup::Found, None, None).is_ok());
    assert!(settle_token("secret", TokenLookup::NotFound, Some("secret"), Some(0)).is_ok());
    for refused in [
        settle_token("secret", TokenLookup::NotFound, Some("secret"), Some(2)),
        settle_token("secret", TokenLookup::NotFound, Some("secret"), None),
        settle_token("secret", TokenLookup::Failed, Some("secret"), Some(0)),
        settle_token("x", TokenLookup::NotFound, None, Some(0)),
    ] {
        let r = refused.expect_err("refused");
        assert_eq!(r.status, 401);
        assert_eq!(r.challenge, "Bearer");
        assert_eq!(r.body, "Unauthorized");
    }
}
