use base64::engine::general_purpose::URL_SAFE_NO_PAD;
use base64::Engine;
use sha2::{Digest, Sha256};

use firm_remote_mcp::auth::codes::AuthCodeStore;
use firm_remote_mcp::auth::helpers::OAuthReply;
use firm_remote_mcp::auth::{AuthorizeParams, BearerVerdict, OAuthState, TokenRequest};

const SECOND: u64 = 1_000_000_000;

fn test_oauth_state() -> OAuthState {
    OAuthState::new(
        "test-client-id".into(),
        "test-client-secret".into(),
        "https://test.example.com".into(),
        "test-jwt-signing-key-for-tests".into(),
        vec!["https://callback.example.com/cb".into()],
    )
}

fn pkce_pair() -> (String, String) {
    let verifier = "dBjftJeZ4CVP-mB92K27uhbUJU1p1r_wW1gFWFOEjXk";
    let hash = Sha256::digest(verifier.as_bytes());
    let challenge = URL_SAFE_NO_PAD.encode(hash);
    (verifier.to_string(), challenge)
}

fn status(reply: &OAuthReply) -> u16 {
    match reply {
        OAuthReply::Redirect { .. } => 302,
        OAuthReply::Error { status, .. } => *status,
        OAuthReply::Tokens { .. } => 200,
    }
}

fn error_code(reply: &OAuthReply) -> String {
    match reply {
        OAuthReply::Error { error, .. } => error.clone(),
        _ => panic!("expected an error reply"),
    }
}

fn location(reply: &OAuthReply) -> String {
    match reply {
        OAuthReply::Redirect { location } => location.clone(),
        _ => panic!("expected a redirect"),
    }
}

fn query_value(location: &str, key: &str) -> Option<String> {
    let url = url::Url::parse(location).unwrap();
    url.query_pairs().find(|(k, _)| k == key).map(|(_, v)| v.to_string())
}

fn authorize_params(client_id: &str, challenge: &str, method: &str) -> AuthorizeParams {
    AuthorizeParams {
        response_type: "code".into(),
        client_id: client_id.into(),
        redirect_uri: "https://callback.example.com/cb".into(),
        code_challenge: challenge.into(),
        code_challenge_method: method.into(),
        state: None,
        resource: None,
        scope: None,
    }
}

fn code_request(code: &str, verifier: &str, client_id: &str, client_secret: &str) -> TokenRequest {
    TokenRequest {
        grant_type: "authorization_code".into(),
        code: Some(code.into()),
        redirect_uri: Some("https://callback.example.com/cb".into()),
        code_verifier: Some(verifier.into()),
        refresh_token: None,
        client_id: Some(client_id.into()),
        client_secret: Some(client_secret.into()),
        resource: None,
    }
}

/// Register, authorize and exchange the code; returns (access, refresh).
fn do_full_oauth_flow(state: &OAuthState, codes: &mut AuthCodeStore) -> (String, String) {
    let (verifier, challenge) = pkce_pair();

    let uris = serde_json::Value::Array(vec![serde_json::Value::String(
        "https://callback.example.com/cb".into(),
    )]);
    let reg = state.register(Some(uris.clone()));
    assert_eq!(reg.redirect_uris, Some(uris));
    let client_id = reg.client_id.clone();
    let client_secret = reg.client_secret.clone();

    let reply = state.authorize(codes, authorize_params(&client_id, &challenge, "S256"), 0);
    assert_eq!(status(&reply), 302);
    let code = query_value(&location(&reply), "code").unwrap();

    let reply = state.token(codes, code_request(&code, &verifier, &client_id, &client_secret), SECOND);
    assert_eq!(status(&reply), 200);
    match reply {
        OAuthReply::Tokens { access_token, refresh_token, expires_in } => {
            assert_eq!(expires_in, 3600);
            (access_token, refresh_token)
        }
        _ => unreachable!(),
    }
}

#[test]
fn full_oauth_flow_happy_path() {
    let state = test_oauth_state();
    let mut codes = AuthCodeStore::new();
    let (access_token, _refresh_token) = do_full_oauth_flow(&state, &mut codes);
    let header = format!("Bearer {}", access_token);
    assert!(matches!(state.check_bearer(Some(&header)), BearerVerdict::Allow));
    assert_eq!(codes.len(), 0);
}

#[test]
fn token_refresh_flow() {
    let state = test_oauth_state();
    let mut codes = AuthCodeStore::new();
    let (_, refresh_token) = do_full_oauth_flow(&state, &mut codes);

    let req = TokenRequest {
        grant_type: "refresh_token".into(),
        code: None,
        redirect_uri: None,
        code_verifier: None,
        refresh_token: Some(refresh_token),
        client_id: Some("test-client-id".into()),
        client_secret: Some("test-client-secret".into()),
        resource: None,
    };
    let reply = state.token(&mut codes, req, 2 * SECOND);
    assert_eq!(status(&reply), 200);
    let new_access = match reply {
        OAuthReply::Tokens { access_token, .. } => access_token,
        _ => unreachable!(),
    };
    let header = format!("Bearer {}", new_access);
    assert!(matches!(state.check_bearer(Some(&header)), BearerVerdict::Allow));
}

#[test]
fn missing_auth_header_returns_401() {
    let state = test_oauth_state();
    match state.check_bearer(None) {
        BearerVerdict::Reject { www_authenticate } => {
            assert!(www_authenticate.contains("oauth-protected-resource"));
        }
        BearerVerdict::Allow => panic!("request without a token was let through"),
    }
}

#[test]
fn invalid_token_returns_401() {
    let state = test_oauth_state();
    let verdict = state.check_bearer(Some("Bearer invalid.jwt.token"));
    assert!(matches!(verdict, BearerVerdict::Reject { .. }));
}

#[test]
fn authorize_wrong_client_id_redirects_with_error() {
    let state = test_oauth_state();
    let mut codes = AuthCodeStore::new();
    let (_, challenge) = pkce_pair();
    let reply = state.authorize(&mut codes, authorize_params("wrong-id", &challenge, "S256"), 0);
    assert_eq!(status(&reply), 302);
    assert!(location(&reply).contains("error=invalid_client"));
    assert_eq!(codes.len(), 0);
}

#[test]
fn authorize_invalid_challenge_method_redirects_with_error() {
    let state = test_oauth_state();
    let mut codes = AuthCodeStore::new();
    let (_, challenge) = pkce_pair();
    let reply = state.authorize(&mut codes, authorize_params("test-client-id", &challenge, "plain"), 0);
    assert_eq!(status(&reply), 302);
    assert!(location(&reply).contains("error=invalid_request"));
    assert_eq!(codes.len(), 0);
}

#[test]
fn token_invalid_code_returns_400() {
    let state = test_oauth_state();
    let mut codes = AuthCodeStore::new();
    let req = code_request("bogus", "abc", "test-client-id", "test-client-secret");
    let reply = state.token(&mut codes, req, 0);
    assert_eq!(status(&reply), 400);
    assert_eq!(error_code(&reply), "invalid_grant");
}

#[test]
fn token_pkce_mismatch_returns_400() {
    let state = test_oauth_state();
    let mut codes = AuthCodeStore::new();
    let (_, challenge) = pkce_pair();
    let reply = state.authorize(&mut codes, authorize_params("test-client-id", &challenge, "S256"), 0);
    let code = query_value(&location(&reply), "code").unwrap();

    let req = code_request(&code, "wrong-verifier", "test-client-id", "test-client-secret");
    let reply = state.token(&mut codes, req, SECOND);
    assert_eq!(status(&reply), 400);
    assert_eq!(error_code(&reply), "invalid_grant");
}

#[test]
fn token_wrong_client_credentials_returns_401() {
    let state = test_oauth_state();
    let mut codes = AuthCodeStore::new();
    let mut req = code_request("any", "any", "wrong", "wrong");
    req.redirect_uri = Some("https://x.com".into());
    let reply = state.token(&mut codes, req, 0);
    assert_eq!(status(&reply), 401);
    assert_eq!(error_code(&reply), "invalid_client");
}

#[test]
fn protected_resource_metadata_returns_correct_json() {
    let state = test_oauth_state();
    let doc = state.protected_resource_metadata();
    assert_eq!(doc.resource, "https://test.example.com");
    assert_eq!(doc.authorization_servers[0], "https://test.example.com");
    assert_eq!(doc.bearer_methods_supported, vec!["header".to_string()]);
    assert!(doc.scopes_supported.is_empty());
}

#[test]
fn authorization_server_metadata_returns_correct_json() {
    let state = test_oauth_state();
    let doc = state.authorization_server_metadata();
    assert_eq!(doc.issuer, "https://test.example.com");
    assert_eq!(doc.authorization_endpoint, "https://test.example.com/authorize");
    assert_eq!(doc.token_endpoint, "https://test.example.com/token");
    assert_eq!(doc.registration_endpoint, "https://test.example.com/register");
    assert_eq!(doc.response_types_supported[0], "code");
    assert_eq!(doc.grant_types_supported[0], "authorization_code");
    assert_eq!(doc.grant_types_supported[1], "refresh_token");
    assert_eq!(doc.code_challenge_methods_supported[0], "S256");
}
