use base64::Engine;
use firm_remote_mcp::auth::helpers::OAuthReply;
use firm_remote_mcp::auth::OAuthState;

fn test_state(key: &str) -> OAuthState {
    OAuthState::new(
        "test-client".into(),
        "test-secret".into(),
        "https://example.com".into(),
        key.into(),
        vec![],
    )
}

#[test]
fn access_token_validates_as_access() {
    let state = test_state("test-key-1");
    let token = state.issue_access_token().unwrap();
    assert!(state.validate_access_token(&token));
}

#[test]
fn refresh_token_validates_as_refresh() {
    let state = test_state("test-key-2");
    let token = state.issue_refresh_token("my-client").unwrap();
    let client_id = state.validate_refresh_token(&token);
    assert_eq!(client_id, Some("my-client".to_string()));
}

#[test]
fn access_token_fails_refresh_validation() {
    let state = test_state("test-key-3");
    let token = state.issue_access_token().unwrap();
    assert!(state.validate_refresh_token(&token).is_none());
}

#[test]
fn refresh_token_fails_access_validation() {
    let state = test_state("test-key-4");
    let token = state.issue_refresh_token("c").unwrap();
    assert!(!state.validate_access_token(&token));
}

#[test]
fn tampered_token_fails_validation() {
    let state = test_state("test-key-5");
    let mut token = state.issue_access_token().unwrap();
    // Flip a character in the signature portion
    let last = token.pop().unwrap();
    token.push(if last == 'A' { 'B' } else { 'A' });
    assert!(!state.validate_access_token(&token));
}

#[test]
fn different_key_fails_validation() {
    let state_a = test_state("key-alpha");
    let state_b = test_state("key-beta");
    let token = state_a.issue_access_token().unwrap();
    assert!(!state_b.validate_access_token(&token));
}

#[test]
fn access_token_claims_have_one_hour_lifetime() {
    let state = test_state("test-key-6");
    let token = state.issue_access_token().unwrap();
    let payload = token.split('.').nth(1).unwrap();
    let bytes = base64::engine::general_purpose::URL_SAFE_NO_PAD.decode(payload).unwrap();
    let claims: serde_json::Value = serde_json::from_slice(&bytes).unwrap();
    assert_eq!(claims["sub"], "access");
    let exp = claims["exp"].as_u64().unwrap();
    let iat = claims["iat"].as_u64().unwrap();
    assert_eq!(exp - iat, 3600);
    assert!(claims.get("client_id").is_none());
}

#[test]
fn refresh_token_claims_have_seven_day_lifetime() {
    let state = test_state("test-key-7");
    let token = state.issue_refresh_token("cli").unwrap();
    let payload = token.split('.').nth(1).unwrap();
    let bytes = base64::engine::general_purpose::URL_SAFE_NO_PAD.decode(payload).unwrap();
    let claims: serde_json::Value = serde_json::from_slice(&bytes).unwrap();
    assert_eq!(claims["sub"], "refresh");
    assert_eq!(claims["client_id"], "cli");
    let exp = claims["exp"].as_u64().unwrap();
    let iat = claims["iat"].as_u64().unwrap();
    assert_eq!(exp - iat, 7 * 86400);
}

#[test]
fn garbage_token_fails_validation() {
    let state = test_state("test-key-8");
    assert!(!state.validate_access_token("invalid.jwt.token"));
    assert!(state.validate_refresh_token("invalid.jwt.token").is_none());
    assert!(!state.validate_access_token(""));
}

fn payload_claims(token: &str) -> serde_json::Value {
    let payload = token.split('.').nth(1).unwrap();
    let bytes = base64::engine::general_purpose::URL_SAFE_NO_PAD.decode(payload).unwrap();
    serde_json::from_slice(&bytes).unwrap()
}

#[test]
fn tokens_at_a_given_clock_reading_carry_that_reading() {
    let state = test_state("test-key-9");
    let access = state.issue_access_token_at(1_700_000_000).ok().unwrap();
    let claims = payload_claims(&access);
    assert_eq!(claims["sub"], "access");
    assert_eq!(claims["iat"].as_u64(), Some(1_700_000_000));
    assert_eq!(claims["exp"].as_u64(), Some(1_700_003_600));
    assert_eq!(state.issue_access_token_at(1_700_000_000).ok().unwrap(), access);
    let refresh = state.issue_refresh_token_at("cli", 1_700_000_000).ok().unwrap();
    let claims = payload_claims(&refresh);
    assert_eq!(claims["sub"], "refresh");
    assert_eq!(claims["client_id"], "cli");
    assert_eq!(claims["exp"].as_u64(), Some(1_700_604_800));
    // Issued long ago, so both have expired.
    assert!(!state.validate_access_token(&access));
    assert!(state.validate_refresh_token(&refresh).is_none());
}

#[test]
fn clock_readings_past_the_expiry_range_are_refused() {
    let state = test_state("test-key-10");
    assert!(state.issue_access_token_at(u64::MAX - 3600).is_ok());
    assert!(matches!(
        state.issue_access_token_at(u64::MAX - 3599),
        Err(firm_remote_mcp::auth::SigningError::ClockOutOfRange)
    ));
    assert!(state.issue_refresh_token_at("c", u64::MAX - 604800).is_ok());
    assert!(matches!(
        state.issue_refresh_token_at("c", u64::MAX - 604799),
        Err(firm_remote_mcp::auth::SigningError::ClockOutOfRange)
    ));
}

#[test]
fn issue_pair_at_hands_out_both_tokens_or_a_server_error() {
    let state = test_state("test-key-11");
    match state.issue_pair_at("cli", 1_700_000_000, 1_700_000_001) {
        OAuthReply::Tokens { access_token, refresh_token, expires_in } => {
            assert_eq!(expires_in, 3600);
            assert_eq!(payload_claims(&access_token)["iat"].as_u64(), Some(1_700_000_000));
            assert_eq!(payload_claims(&refresh_token)["iat"].as_u64(), Some(1_700_000_001));
            assert_eq!(payload_claims(&refresh_token)["client_id"], "cli");
        }
        _ => panic!("expected tokens"),
    }
    match state.issue_pair_at("cli", 0, u64::MAX) {
        OAuthReply::Error { status, error, description } => {
            assert_eq!(status, 500);
            assert_eq!(error, "server_error");
            assert_eq!(description.as_deref(), Some("Token signing failed: clock out of range"));
        }
        _ => panic!("expected a server error"),
    }
}
