use firm_remote_mcp::auth::codes::{AuthCode, AuthCodeStore};
use firm_remote_mcp::auth::jwt::read_claims;
use firm_remote_mcp::auth::BearerVerdict;
use firm_remote_mcp::auth::helpers::{
    code_redirect, error_redirect, generate_token, verify_pkce_s256, OAuthReply,
};
use firm_remote_mcp::auth::{
    bearer_token, www_authenticate, AuthorizeParams, OAuthState, SigningError, TokenRequest,
};
use firm_remote_mcp::config::{parse_comma_list, strip_trailing_slashes, Config, EnvVars};
use firm_remote_mcp::git::{
    branch_base_ref, checkout_plan, commit_needed, local_branch_ref, merge_outcome, merge_step,
    push_refspec, remote_branch_ref, CheckoutPlan, GitError, MergeStep,
};
use firm_remote_mcp::server::{
    add_entity_message, after_rebuild, commit_warning, fetch_warning, replace_source_message,
    sync_warning, update_source_message, WriteFollowUp,
};

const SECOND: u64 = 1_000_000_000;
const TTL: u64 = 60 * SECOND;
const VERIFIER: &str = "dBjftJeZ4CVP-mB92K27uhbUJU1p1r_wW1gFWFOEjXk";
const CHALLENGE: &str = "E9Melhoa2OwvFrEMTJguCHaoeK1t8URWbuGJSstw-cM";
const CALLBACK: &str = "https://callback.example.com/cb";

fn state() -> OAuthState {
    OAuthState::new(
        "cid".into(),
        "secret".into(),
        "https://srv.example".into(),
        "signing-key".into(),
        vec![CALLBACK.into()],
    )
}

fn params() -> AuthorizeParams {
    AuthorizeParams {
        response_type: "code".into(),
        client_id: "cid".into(),
        redirect_uri: CALLBACK.into(),
        code_challenge: CHALLENGE.into(),
        code_challenge_method: "S256".into(),
        state: Some("xyz".into()),
        resource: None,
        scope: None,
    }
}

fn code_req(code: &str) -> TokenRequest {
    TokenRequest {
        grant_type: "authorization_code".into(),
        code: Some(code.into()),
        redirect_uri: Some(CALLBACK.into()),
        code_verifier: Some(VERIFIER.into()),
        refresh_token: None,
        client_id: Some("cid".into()),
        client_secret: Some("secret".into()),
        resource: None,
    }
}

fn error_of(reply: &OAuthReply) -> (u16, String, Option<String>) {
    match reply {
        OAuthReply::Error { status, error, description } => (*status, error.clone(), description.clone()),
        _ => panic!("expected an error reply"),
    }
}

fn grant(created_at: u64) -> AuthCode {
    AuthCode {
        client_id: "cid".into(),
        redirect_uri: CALLBACK.into(),
        code_challenge: CHALLENGE.into(),
        created_at,
    }
}

fn all_vars() -> EnvVars {
    EnvVars {
        repo_url: Some("https://github.com/o/r.git".into()),
        github_token: Some("tok".into()),
        oauth_client_id: Some("cid".into()),
        oauth_client_secret: Some("sec".into()),
        jwt_signing_key: Some("key".into()),
        server_url: Some("https://srv.example//".into()),
        allowed_redirect_uris: Some(" https://a.example/cb , ,https://b.example/cb".into()),
        branch: None,
        port: None,
        workspace_subdir: None,
    }
}

// ── PKCE, tokens, headers ──

#[test]
fn pkce_rfc7636_example_verifies() {
    assert!(verify_pkce_s256(VERIFIER, CHALLENGE));
    assert!(!verify_pkce_s256(VERIFIER, VERIFIER));
    assert!(!verify_pkce_s256("wrong-verifier", CHALLENGE));
}

#[test]
fn generated_token_is_url_safe_base64_of_32_bytes() {
    let t = generate_token(32);
    assert_eq!(t.len(), 43);
    assert!(t.chars().all(|c| c.is_ascii_alphanumeric() || c == '-' || c == '_'));
    assert_ne!(generate_token(32), t);
}

#[test]
fn www_authenticate_points_at_metadata() {
    assert_eq!(
        www_authenticate("https://srv.example"),
        "Bearer resource_metadata=\"https://srv.example/.well-known/oauth-protected-resource\""
    );
}

#[test]
fn bearer_token_extraction() {
    assert_eq!(bearer_token("Bearer abc.def"), Some("abc.def"));
    assert_eq!(bearer_token("bEaReR xyz"), Some("xyz"));
    assert_eq!(bearer_token("Bearer "), None);
    assert_eq!(bearer_token("Bearerabc"), None);
    assert_eq!(bearer_token("Basic dXNlcjpwYXNz"), None);
    assert_eq!(bearer_token(""), None);
}

#[test]
fn clock_error_message() {
    assert_eq!(SigningError::ClockOutOfRange.message(), "clock out of range");
}

// ── Redirects ──

#[test]
fn error_redirect_carries_error_and_state() {
    match error_redirect(CALLBACK, "invalid_client", "Unknown client_id", Some("s1")) {
        OAuthReply::Redirect { location } => assert_eq!(
            location,
            "https://callback.example.com/cb?error=invalid_client&error_description=Unknown+client_id&state=s1"
        ),
        _ => panic!("expected a redirect"),
    }
}

#[test]
fn error_redirect_to_unparseable_uri_is_400() {
    let reply = error_redirect("not a url", "invalid_client", "Unknown client_id", None);
    assert_eq!(
        error_of(&reply),
        (400, "invalid_request".to_string(), Some("Invalid redirect_uri".to_string()))
    );
}

#[test]
fn code_redirect_to_unparseable_uri_is_400() {
    let reply = code_redirect("::", "abc", None);
    assert_eq!(error_of(&reply), (400, "invalid_redirect_uri".to_string(), None));
}

// ── /authorize ──

#[test]
fn authorize_with_code_redirects_with_code_and_state() {
    let s = state();
    let mut codes = AuthCodeStore::new();
    match s.authorize_with_code(&mut codes, params(), "abc".into(), 5) {
        OAuthReply::Redirect { location } => {
            assert_eq!(location, "https://callback.example.com/cb?code=abc&state=xyz")
        }
        _ => panic!("expected a redirect"),
    }
    assert_eq!(codes.len(), 1);
    let g = codes.take("abc").unwrap();
    assert_eq!(g.client_id, "cid");
    assert_eq!(g.code_challenge, CHALLENGE);
    assert_eq!(g.created_at, 5);
}

#[test]
fn authorize_unregistered_redirect_is_400() {
    let s = state();
    let mut codes = AuthCodeStore::new();
    let mut p = params();
    p.redirect_uri = "https://evil.example/cb".into();
    let reply = s.authorize(&mut codes, p, 0);
    assert_eq!(
        error_of(&reply),
        (400, "invalid_request".to_string(), Some("Invalid redirect_uri".to_string()))
    );
    assert_eq!(codes.len(), 0);
}

#[test]
fn authorize_wrong_response_type_redirects_with_error() {
    let s = state();
    let mut codes = AuthCodeStore::new();
    let mut p = params();
    p.response_type = "token".into();
    match s.authorize(&mut codes, p, 0) {
        OAuthReply::Redirect { location } => {
            assert!(location.contains("error=unsupported_response_type"));
            assert!(location.contains("state=xyz"));
        }
        _ => panic!("expected a redirect"),
    }
    assert_eq!(codes.len(), 0);
}

// ── /token ──

#[test]
fn code_is_single_use() {
    let s = state();
    let mut codes = AuthCodeStore::new();
    s.authorize_with_code(&mut codes, params(), "abc".into(), 0);
    assert!(matches!(s.token(&mut codes, code_req("abc"), SECOND), OAuthReply::Tokens { .. }));
    let reply = s.token(&mut codes, code_req("abc"), 2 * SECOND);
    assert_eq!(
        error_of(&reply),
        (400, "invalid_grant".to_string(), Some("Invalid or expired code".to_string()))
    );
}

#[test]
fn code_expiry_boundary() {
    let s = state();
    let mut codes = AuthCodeStore::new();
    s.authorize_with_code(&mut codes, params(), "a".into(), 0);
    s.authorize_with_code(&mut codes, params(), "b".into(), 0);
    // Exactly the lifetime: still redeemable.
    assert!(matches!(s.token(&mut codes, code_req("a"), TTL), OAuthReply::Tokens { .. }));
    // One nanosecond more: expired, and consumed.
    let reply = s.token(&mut codes, code_req("b"), TTL + 1);
    assert_eq!(
        error_of(&reply),
        (400, "invalid_grant".to_string(), Some("Authorization code expired".to_string()))
    );
    assert_eq!(codes.len(), 0);
}

#[test]
fn redirect_uri_mismatch_is_refused() {
    let s = state();
    let mut codes = AuthCodeStore::new();
    s.authorize_with_code(&mut codes, params(), "abc".into(), 0);
    let mut req = code_req("abc");
    req.redirect_uri = Some("https://callback.example.com/other".into());
    let reply = s.token(&mut codes, req, SECOND);
    assert_eq!(
        error_of(&reply),
        (400, "invalid_grant".to_string(), Some("redirect_uri mismatch".to_string()))
    );
    assert_eq!(codes.len(), 0);
}

#[test]
fn missing_fields_are_invalid_requests() {
    let s = state();
    let mut codes = AuthCodeStore::new();
    let mut req = code_req("abc");
    req.code = None;
    assert_eq!(error_of(&s.token(&mut codes, req, 0)).2, Some("Missing code".to_string()));
    let mut req = code_req("abc");
    req.code_verifier = None;
    assert_eq!(error_of(&s.token(&mut codes, req, 0)).2, Some("Missing code_verifier".to_string()));
    let mut req = code_req("abc");
    req.redirect_uri = None;
    assert_eq!(error_of(&s.token(&mut codes, req, 0)).2, Some("Missing redirect_uri".to_string()));
    let mut req = code_req("abc");
    req.grant_type = "refresh_token".into();
    assert_eq!(
        error_of(&s.token(&mut codes, req, 0)),
        (400, "invalid_request".to_string(), Some("Missing refresh_token".to_string()))
    );
}

#[test]
fn unsupported_grant_type() {
    let s = state();
    let mut codes = AuthCodeStore::new();
    let mut req = code_req("abc");
    req.grant_type = "password".into();
    assert_eq!(
        error_of(&s.token(&mut codes, req, 0)),
        (400, "unsupported_grant_type".to_string(), Some("Unsupported grant type".to_string()))
    );
}

#[test]
fn wrong_secret_alone_is_refused() {
    let s = state();
    let mut codes = AuthCodeStore::new();
    s.authorize_with_code(&mut codes, params(), "abc".into(), 0);
    let mut req = code_req("abc");
    req.client_secret = Some("secreT".into());
    assert_eq!(error_of(&s.token(&mut codes, req, SECOND)).0, 401);
    // The code was not touched.
    assert_eq!(codes.len(), 1);
    let mut req = code_req("abc");
    req.client_secret = None;
    assert_eq!(error_of(&s.token(&mut codes, req, SECOND)).1, "invalid_client");
}

#[test]
fn refresh_with_access_token_is_refused() {
    let s = state();
    let mut codes = AuthCodeStore::new();
    let access = s.issue_access_token().unwrap();
    let req = TokenRequest {
        grant_type: "refresh_token".into(),
        code: None,
        redirect_uri: None,
        code_verifier: None,
        refresh_token: Some(access),
        client_id: Some("cid".into()),
        client_secret: Some("secret".into()),
        resource: None,
    };
    assert_eq!(
        error_of(&s.token(&mut codes, req, 0)),
        (400, "invalid_grant".to_string(), Some("Invalid or expired refresh token".to_string()))
    );
    assert_eq!(error_of(&s.refresh_grant_for(None)).1, "invalid_grant");
}

// ── Registration ──

#[test]
fn register_returns_preconfigured_credentials() {
    let s = state();
    let reg = s.register(None);
    assert_eq!(reg.client_id, "cid");
    assert_eq!(reg.client_secret, "secret");
    assert_eq!(reg.client_id_issued_at, 0);
    assert_eq!(reg.client_secret_expires_at, 0);
    assert_eq!(reg.token_endpoint_auth_method, "client_secret_post");
    assert_eq!(reg.grant_types, vec!["authorization_code".to_string(), "refresh_token".to_string()]);
    assert_eq!(reg.response_types, vec!["code".to_string()]);
    assert!(reg.redirect_uris.is_none());
    let uris = serde_json::Value::Array(vec![serde_json::Value::String(CALLBACK.into())]);
    assert_eq!(s.register(Some(uris.clone())).redirect_uris, Some(uris));
}

// ── Code store ──

#[test]
fn store_take_after_insert_and_replace() {
    let mut codes = AuthCodeStore::new();
    codes.insert("k".into(), grant(1));
    codes.insert("k".into(), grant(2));
    assert_eq!(codes.len(), 1);
    assert_eq!(codes.take("k").unwrap().created_at, 2);
    assert!(codes.take("k").is_none());
}

#[test]
fn sweep_keeps_only_fresh_codes() {
    let mut codes = AuthCodeStore::new();
    codes.insert("old".into(), grant(0));
    codes.insert("young".into(), grant(1));
    codes.insert("newer".into(), grant(30 * SECOND));
    codes.retain_fresh(TTL);
    assert_eq!(codes.len(), 2);
    assert!(codes.take("old").is_none());
    assert!(codes.take("young").is_some());
    assert!(codes.take("newer").is_some());
}

// ── Configuration ──

#[test]
fn config_defaults_and_normalisation() {
    let c = Config::from_env(all_vars()).unwrap();
    assert_eq!(c.server_url, "https://srv.example");
    assert_eq!(c.branch, "mcp");
    assert_eq!(c.port, 8080);
    assert_eq!(
        c.allowed_redirect_uris,
        vec!["https://a.example/cb".to_string(), "https://b.example/cb".to_string()]
    );
    assert_eq!(c.workspace_subdir, None);
    assert_eq!(c.repo_url, "https://github.com/o/r.git");
}

#[test]
fn config_reports_first_missing_variable() {
    let mut v = all_vars();
    v.repo_url = None;
    v.server_url = None;
    assert_eq!(Config::from_env(v).err().unwrap(), "REPO_URL environment variable is required");
    let mut v = all_vars();
    v.server_url = None;
    assert_eq!(Config::from_env(v).err().unwrap(), "SERVER_URL environment variable is required");
}

#[test]
fn config_redirect_uris_default_to_empty() {
    let mut v = all_vars();
    v.allowed_redirect_uris = None;
    v.server_url = Some("https://firm-mcp-xyz.a.run.app//".into());
    let c = Config::from_env(v).unwrap();
    assert!(c.allowed_redirect_uris.is_empty());
    assert_eq!(c.server_url, "https://firm-mcp-xyz.a.run.app");
    assert_eq!(c.port, 8080);
    assert_eq!(c.branch, "mcp");
}

#[test]
fn config_port_parsing() {
    let mut v = all_vars();
    v.port = Some("+9000".into());
    v.branch = Some("work".into());
    let c = Config::from_env(v).unwrap();
    assert_eq!(c.port, 9000);
    assert_eq!(c.branch, "work");
    let mut v = all_vars();
    v.port = Some("abc".into());
    assert_eq!(
        Config::from_env(v).err().unwrap(),
        "Invalid PORT value: invalid digit found in string"
    );
    let mut v = all_vars();
    v.port = Some("70000".into());
    assert!(Config::from_env(v).err().unwrap().starts_with("Invalid PORT value: "));
}

#[test]
fn list_and_slash_helpers() {
    assert_eq!(strip_trailing_slashes("a///"), "a");
    assert_eq!(strip_trailing_slashes("///"), "");
    assert_eq!(strip_trailing_slashes("a/b"), "a/b");
    assert_eq!(parse_comma_list(""), Vec::<String>::new());
    assert_eq!(parse_comma_list("x,y , z"), vec!["x".to_string(), "y".to_string(), "z".to_string()]);
}

// ── Git decisions ──

#[test]
fn git_reference_names() {
    assert_eq!(local_branch_ref("mcp"), "refs/heads/mcp");
    assert_eq!(remote_branch_ref("mcp"), "refs/remotes/origin/mcp");
    assert_eq!(push_refspec("mcp"), "+refs/heads/mcp:refs/heads/mcp");
    assert_eq!(branch_base_ref("mcp", true), "refs/remotes/origin/mcp");
    assert_eq!(branch_base_ref("mcp", false), "refs/remotes/origin/main");
}

#[test]
fn git_error_messages() {
    assert_eq!(GitError::NothingToCommit.message(), "nothing to commit");
    assert_eq!(GitError::Git2("bad ref".into()).message(), "git error: bad ref");
    assert_eq!(GitError::Join("panicked".into()).message(), "task join error: panicked");
    assert_eq!(
        GitError::MergeConflicts.message(),
        "merge conflicts between origin/main and mcp branch (resolve manually)"
    );
}

#[test]
fn git_step_decisions() {
    assert!(matches!(checkout_plan("mcp", true, true), CheckoutPlan::CheckOut));
    match checkout_plan("mcp", false, true) {
        CheckoutPlan::CreateFrom(r) => assert_eq!(r, "refs/remotes/origin/mcp"),
        _ => panic!("expected a branch to be created"),
    }
    match checkout_plan("mcp", false, false) {
        CheckoutPlan::CreateFrom(r) => assert_eq!(r, "refs/remotes/origin/main"),
        _ => panic!("expected a branch to be created"),
    }
    assert!(matches!(merge_step(false, true, true, true), MergeStep::NoOriginMain));
    assert!(matches!(merge_step(true, true, true, true), MergeStep::UpToDate));
    assert!(matches!(merge_step(true, false, true, true), MergeStep::FastForward));
    assert!(matches!(merge_step(true, false, false, true), MergeStep::Merge));
    assert!(matches!(merge_step(true, false, false, false), MergeStep::Nothing));
    assert!(matches!(merge_outcome(true), Err(GitError::MergeConflicts)));
    assert!(merge_outcome(false).is_ok());
    assert!(matches!(commit_needed(true), Err(GitError::NothingToCommit)));
    assert!(commit_needed(false).is_ok());
}

// ── Tool handler decisions ──

#[test]
fn commit_warnings() {
    assert_eq!(commit_warning(&Ok(())), None);
    assert_eq!(commit_warning(&Err(GitError::NothingToCommit)), None);
    assert_eq!(
        commit_warning(&Err(GitError::Git2("denied".into()))),
        Some("Warning: git commit/push failed: git error: denied".to_string())
    );
    assert_eq!(
        fetch_warning(&GitError::MergeConflicts),
        "Git fetch failed: merge conflicts between origin/main and mcp branch (resolve manually)"
    );
    assert_eq!(sync_warning(&GitError::NothingToCommit), "Git sync failed: nothing to commit");
}

#[test]
fn commit_messages() {
    assert_eq!(add_entity_message("person", "john_doe"), "Add person/john_doe via MCP");
    assert_eq!(update_source_message("core/main.firm", false), "Update source 'core/main.firm' via MCP");
    assert_eq!(
        update_source_message("core/main.firm", true),
        "Update source 'core/main.firm' via MCP (force)"
    );
    assert_eq!(replace_source_message("a.firm", true), "Replace in source 'a.firm' via MCP (force)");
}

#[test]
fn write_follow_up() {
    assert!(matches!(after_rebuild(true, false), WriteFollowUp::Commit));
    assert!(matches!(after_rebuild(true, true), WriteFollowUp::Commit));
    assert!(matches!(after_rebuild(false, true), WriteFollowUp::CommitForced));
    assert!(matches!(after_rebuild(false, false), WriteFollowUp::RollBack));
}

#[test]
fn refresh_token_is_not_a_bearer_token() {
    let s = state();
    let refresh = s.issue_refresh_token("cid").unwrap();
    let header = format!("Bearer {}", refresh);
    assert!(matches!(
        s.check_bearer(Some(&header)),
        BearerVerdict::Reject { .. }
    ));
    let access = s.issue_access_token().unwrap();
    let header = format!("bearer {}", access);
    assert!(matches!(s.check_bearer(Some(&header)), BearerVerdict::Allow));
}

fn claims_map(sub: &str) -> serde_json::Map<String, serde_json::Value> {
    let mut m = serde_json::Map::new();
    m.insert("sub".into(), serde_json::Value::from(sub));
    m.insert("exp".into(), serde_json::Value::from(4_000_000_000u64));
    m.insert("iat".into(), serde_json::Value::from(1u64));
    m
}

#[test]
fn bearer_verdict_rule() {
    let s = state();
    let ok_access: Result<_, jsonwebtoken::errors::Error> = Ok(claims_map("access"));
    let ok_refresh: Result<_, jsonwebtoken::errors::Error> = Ok(claims_map("refresh"));
    let failed: Result<serde_json::Map<String, serde_json::Value>, _> =
        Err(jsonwebtoken::errors::Error::from(jsonwebtoken::errors::ErrorKind::InvalidToken));
    assert!(matches!(s.bearer_verdict(Some("Bearer t"), &ok_access), BearerVerdict::Allow));
    assert!(matches!(s.bearer_verdict(Some("BEARER t"), &ok_access), BearerVerdict::Allow));
    assert!(matches!(s.bearer_verdict(Some("Token t"), &ok_access), BearerVerdict::Reject { .. }));
    assert!(matches!(s.bearer_verdict(None, &ok_access), BearerVerdict::Reject { .. }));
    assert!(matches!(s.bearer_verdict(Some("Bearer t"), &ok_refresh), BearerVerdict::Reject { .. }));
    match s.bearer_verdict(Some("Bearer t"), &failed) {
        BearerVerdict::Reject { www_authenticate } => assert_eq!(
            www_authenticate,
            "Bearer resource_metadata=\"https://srv.example/.well-known/oauth-protected-resource\""
        ),
        BearerVerdict::Allow => panic!("a token that failed to decode was let through"),
    }
}

#[test]
fn claims_reader_shapes() {
    let c = read_claims(&claims_map("access")).unwrap();
    assert_eq!((c.sub.as_str(), c.exp, c.iat, c.client_id), ("access", 4_000_000_000, 1, None));
    let mut m = claims_map("refresh");
    m.insert("client_id".into(), serde_json::Value::from("cid"));
    assert_eq!(read_claims(&m).unwrap().client_id, Some("cid".to_string()));
    m.insert("client_id".into(), serde_json::Value::Null);
    assert_eq!(read_claims(&m).unwrap().client_id, None);
    m.insert("client_id".into(), serde_json::Value::from(7u64));
    assert!(read_claims(&m).is_none());
    let mut m = claims_map("access");
    m.insert("exp".into(), serde_json::Value::from(1.5f64));
    assert!(read_claims(&m).is_none());
    let mut m = claims_map("access");
    m.remove("iat");
    assert!(read_claims(&m).is_none());
}

#[test]
fn generated_token_length_follows_the_byte_count() {
    assert_eq!(generate_token(0).len(), 0);
    assert_eq!(generate_token(1).len(), 2);
    assert_eq!(generate_token(2).len(), 3);
    assert_eq!(generate_token(3).len(), 4);
}

#[test]
fn code_redirect_keeps_the_fragment_after_the_query() {
    match code_redirect("https://a.example/cb#frag", "abc", Some("s 1")) {
        OAuthReply::Redirect { location } => {
            assert_eq!(location, "https://a.example/cb?code=abc&state=s+1#frag")
        }
        _ => panic!("expected a redirect"),
    }
}
