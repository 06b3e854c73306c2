//! The OAuth authorization server: configuration, the `/authorize` and
//! `/token` decisions, bearer-token checks and the discovery documents.
use vstd::prelude::*;
use vstd::string::StringSliceAdditionalSpecFns;
use crate::text::{concat2, str_eq};

pub mod codes;
pub mod helpers;
pub mod jwt;

use codes::{
    code_expired, elapsed_nanos, AuthCode, AuthCodeStore, AuthCodeView, AUTH_CODE_TTL_NANOS,
};
use helpers::{
    base64_url_no_pad, code_redirect, credentials_equal, error_redirect, error_reply,
    generate_token, lemma_base64_url_len, lemma_code_redirect_budget, lemma_error_redirect_budget,
    pkce_s256_matches, state_len, signing_failure, spec_code_redirect, spec_error_redirect,
    token_error, verify_pkce_s256, OAuthReply, ReplyView, AUTH_CODE_BYTES,
};
pub use helpers::{spec_www_authenticate, www_authenticate};
use jwt::{
    access_accepted, access_claims, current_timestamp, jwt_error_text, refresh_accepted,
    refresh_claims, sign_access_token, sign_refresh_token, signed_token, ACCESS_TOKEN_TTL_SECS,
    REFRESH_TOKEN_TTL_SECS,
};

verus! {

// ---------------------------------------------------------------------------
// State
// ---------------------------------------------------------------------------

/// The authorization server's configuration: the one client it knows, its
/// public URL, the redirect URIs it accepts and the key it signs tokens
/// with. Outstanding authorization codes live in an [`AuthCodeStore`].
pub struct OAuthState {
    pub client_id: String,
    pub client_secret: String,
    pub server_url: String,
    pub allowed_redirect_uris: Vec<String>,
    /// HS256 secret for access and refresh tokens.
    pub signing_key: Vec<u8>,
}

impl OAuthState {
    /// Builds the state; the signing key is the UTF-8 bytes of
    /// `jwt_signing_key`.
    pub fn new(
        client_id: String,
        client_secret: String,
        server_url: String,
        jwt_signing_key: String,
        allowed_redirect_uris: Vec<String>,
    ) -> (r: Self)
        ensures
            r.client_id@ == client_id@,
            r.client_secret@ == client_secret@,
            r.server_url@ == server_url@,
            r.allowed_redirect_uris.deep_view() == allowed_redirect_uris.deep_view(),
            r.signing_key@ == vstd::utf8::encode_utf8(jwt_signing_key@),
    {
        let signing_key = jwt_signing_key.as_str().as_bytes_vec();
        OAuthState { client_id, client_secret, server_url, allowed_redirect_uris, signing_key }
    }
}

// ---------------------------------------------------------------------------
// Tokens
// ---------------------------------------------------------------------------

/// Why a token could not be issued.
#[derive(Debug)]
pub enum SigningError {
    /// jsonwebtoken refused to sign.
    Jwt(jsonwebtoken::errors::Error),
    /// The clock reads so late that the expiry would not fit in a `u64`.
    ClockOutOfRange,
}

impl SigningError {
    /// Display text of the error.
    pub fn message(&self) -> (r: String)
        ensures
            self is ClockOutOfRange ==> r@ == "clock out of range"@,
    {
        match self {
            SigningError::Jwt(e) => jwt_error_text(e),
            SigningError::ClockOutOfRange => "clock out of range".to_owned(),
        }
    }
}

/// `t` is the access token for some issue time.
pub open spec fn is_access_token(t: Seq<char>, secret: Seq<u8>) -> bool {
    exists|now: u64|
        now + ACCESS_TOKEN_TTL_SECS <= u64::MAX && t == #[trigger] signed_token(
            access_claims(now),
            secret,
        )
}

/// `t` is the refresh token for `client_id` for some issue time.
pub open spec fn is_refresh_token(t: Seq<char>, client_id: Seq<char>, secret: Seq<u8>) -> bool {
    exists|now: u64|
        now + REFRESH_TOKEN_TTL_SECS <= u64::MAX && t == #[trigger] signed_token(
            refresh_claims(now, client_id),
            secret,
        )
}

impl OAuthState {
    /// Issues the access token (`sub = "access"`, valid for an hour) for the
    /// clock reading `now`, in seconds since the Unix epoch. Signing cannot
    /// fail; the only error is a reading so late that the expiry would not fit
    /// in a `u64`.
    pub fn issue_access_token_at(&self, now: u64) -> (r: Result<String, SigningError>)
        ensures
            match r {
                Ok(t) => now <= u64::MAX - ACCESS_TOKEN_TTL_SECS && t@ == signed_token(
                    access_claims(now),
                    self.signing_key@,
                ),
                Err(e) => now > u64::MAX - ACCESS_TOKEN_TTL_SECS && e is ClockOutOfRange,
            },
    {
        if now > u64::MAX - ACCESS_TOKEN_TTL_SECS {
            return Err(SigningError::ClockOutOfRange);
        }
        match sign_access_token(self.signing_key.as_slice(), now) {
            Ok(t) => Ok(t),
            Err(e) => Err(SigningError::Jwt(e)),
        }
    }

    /// Issues the refresh token for `client_id` (`sub = "refresh"`, valid for
    /// seven days) for the clock reading `now`, in seconds since the Unix
    /// epoch. Signing cannot fail; the only error is a reading so late that
    /// the expiry would not fit in a `u64`.
    pub fn issue_refresh_token_at(&self, client_id: &str, now: u64) -> (r: Result<
        String,
        SigningError,
    >)
        ensures
            match r {
                Ok(t) => now <= u64::MAX - REFRESH_TOKEN_TTL_SECS && t@ == signed_token(
                    refresh_claims(now, client_id@),
                    self.signing_key@,
                ),
                Err(e) => now > u64::MAX - REFRESH_TOKEN_TTL_SECS && e is ClockOutOfRange,
            },
    {
        if now > u64::MAX - REFRESH_TOKEN_TTL_SECS {
            return Err(SigningError::ClockOutOfRange);
        }
        match sign_refresh_token(self.signing_key.as_slice(), client_id, now) {
            Ok(t) => Ok(t),
            Err(e) => Err(SigningError::Jwt(e)),
        }
    }

    /// Issues an access token at the current time (see
    /// [`Self::issue_access_token_at`]); which reading the clock gives is
    /// the clock's own.
    pub fn issue_access_token(&self) -> (r: Result<String, SigningError>)
        ensures
            r matches Ok(t) ==> is_access_token(t@, self.signing_key@),
            r matches Err(e) ==> e is ClockOutOfRange,
    {
        let now = current_timestamp();
        self.issue_access_token_at(now)
    }

    /// Issues a refresh token for `client_id` at the current time (see
    /// [`Self::issue_refresh_token_at`]); which reading the clock gives is
    /// the clock's own.
    pub fn issue_refresh_token(&self, client_id: &str) -> (r: Result<String, SigningError>)
        ensures
            r matches Ok(t) ==> is_refresh_token(t@, client_id@, self.signing_key@),
            r matches Err(e) ==> e is ClockOutOfRange,
    {
        let now = current_timestamp();
        self.issue_refresh_token_at(client_id, now)
    }

    /// Whether `token` is a valid, unexpired access token signed with this
    /// state's key. Expiry depends on the clock, so whether a genuine access
    /// token passes is left to the clock; `jwt::access_accepted` states the
    /// rule applied to the decoded payload. A refresh token never passes.
    pub fn validate_access_token(&self, token: &str) -> (r: bool)
        ensures
            is_some_refresh_token(token@, self.signing_key@) ==> !r,
    {
        let decoded = jwt::decode_claims(token, self.signing_key.as_slice());
        let r = access_accepted(&decoded);
        proof {
            if is_some_refresh_token(token@, self.signing_key@) {
                let c = choose|c: Seq<char>| is_refresh_token(token@, c, self.signing_key@);
                let now = choose|now: u64|
                    now + REFRESH_TOKEN_TTL_SECS <= u64::MAX && token@ == #[trigger] signed_token(
                        refresh_claims(now, c),
                        self.signing_key@,
                    );
                if let Ok(m) = decoded {
                    let claims = refresh_claims(now, c);
                    assert(jwt::hs256_jwt(claims.sub, claims.exp, claims.iat, claims.client_id, self.signing_key@) == token@);
                    jwt::lemma_claims_read_back(claims);
                    lemma_access_and_refresh_differ();
                }
            }
        }
        r
    }

    /// The client id carried by `token` if it is a valid, unexpired refresh
    /// token signed with this state's key. Expiry depends on the clock;
    /// `jwt::refresh_accepted` states the rule applied to the payload. An
    /// access token never passes, and a refresh token issued to a client can
    /// only name that client.
    pub fn validate_refresh_token(&self, token: &str) -> (r: Option<String>)
        ensures
            is_access_token(token@, self.signing_key@) ==> r is None,
            forall|c: Seq<char>|
                #[trigger] is_refresh_token(token@, c, self.signing_key@) ==> r is None
                    || r.deep_view() == Some(c),
    {
        let decoded = jwt::decode_claims(token, self.signing_key.as_slice());
        let r = refresh_accepted(&decoded);
        proof {
            if is_access_token(token@, self.signing_key@) {
                let now = choose|now: u64|
                    now + ACCESS_TOKEN_TTL_SECS <= u64::MAX && token@ == #[trigger] signed_token(
                        access_claims(now),
                        self.signing_key@,
                    );
                if let Ok(m) = decoded {
                    let claims = access_claims(now);
                    assert(jwt::hs256_jwt(claims.sub, claims.exp, claims.iat, claims.client_id, self.signing_key@) == token@);
                    jwt::lemma_claims_read_back(claims);
                    lemma_access_and_refresh_differ();
                }
            }
            assert forall|c: Seq<char>|
                #[trigger] is_refresh_token(token@, c, self.signing_key@) implies r is None
                    || r.deep_view() == Some(c) by {
                let now = choose|now: u64|
                    now + REFRESH_TOKEN_TTL_SECS <= u64::MAX && token@ == #[trigger] signed_token(
                        refresh_claims(now, c),
                        self.signing_key@,
                    );
                if let Ok(m) = decoded {
                    let claims = refresh_claims(now, c);
                    assert(jwt::hs256_jwt(claims.sub, claims.exp, claims.iat, claims.client_id, self.signing_key@) == token@);
                    jwt::lemma_claims_read_back(claims);
                }
            }
        }
        r
    }
}

/// `t` is a refresh token for some client and issue time.
pub open spec fn is_some_refresh_token(t: Seq<char>, secret: Seq<u8>) -> bool {
    exists|c: Seq<char>| is_refresh_token(t, c, secret)
}

proof fn lemma_access_and_refresh_differ()
    ensures
        "access"@ != "refresh"@,
{
    reveal_strlit("access");
    reveal_strlit("refresh");
    assert("access"@[0] != "refresh"@[0]);
}

// ---------------------------------------------------------------------------
// /authorize
// ---------------------------------------------------------------------------

/// Query parameters of `/authorize`.
pub struct AuthorizeParams {
    pub response_type: String,
    pub client_id: String,
    pub redirect_uri: String,
    pub code_challenge: String,
    pub code_challenge_method: String,
    pub state: Option<String>,
    /// Accepted and ignored.
    pub resource: Option<String>,
    /// Accepted and ignored.
    pub scope: Option<String>,
}

/// `uri` is one of the registered redirect URIs.
pub open spec fn redirect_allowed(allowed: Seq<Seq<char>>, uri: Seq<char>) -> bool {
    allowed.contains(uri)
}

/// How `/authorize` judges a request.
pub ghost enum AuthorizeCheck {
    /// The redirect URI is not registered: answer 400, do not redirect.
    UnregisteredRedirect,
    /// Redirect back with this error.
    Refuse { error: Seq<char>, description: Seq<char> },
    /// Issue a code.
    Issue,
}

/// Which check of `/authorize` fails first (0 to 3), or 4 when all pass.
pub open spec fn authorize_verdict(state: OAuthState, p: AuthorizeParams) -> u8 {
    if !redirect_allowed(state.allowed_redirect_uris.deep_view(), p.redirect_uri@) {
        0
    } else if p.response_type@ != "code"@ {
        1
    } else if p.client_id@ != state.client_id@ {
        2
    } else if p.code_challenge_method@ != "S256"@ {
        3
    } else {
        4
    }
}

/// The checks of `/authorize`, in the order it makes them.
pub open spec fn authorize_check(state: OAuthState, p: AuthorizeParams) -> AuthorizeCheck {
    let v = authorize_verdict(state, p);
    if v == 0 {
        AuthorizeCheck::UnregisteredRedirect
    } else if v == 1 {
        AuthorizeCheck::Refuse {
            error: "unsupported_response_type"@,
            description: "Only 'code' response type is supported"@,
        }
    } else if v == 2 {
        AuthorizeCheck::Refuse { error: "invalid_client"@, description: "Unknown client_id"@ }
    } else if v == 3 {
        AuthorizeCheck::Refuse {
            error: "invalid_request"@,
            description: "Only S256 code challenge method is supported"@,
        }
    } else {
        AuthorizeCheck::Issue
    }
}

/// The grant stored for a code issued to `p` at `now`.
pub open spec fn issued_grant(p: AuthorizeParams, now: u64) -> AuthCodeView {
    AuthCodeView {
        client_id: p.client_id@,
        redirect_uri: p.redirect_uri@,
        code_challenge: p.code_challenge@,
        created_at: now,
    }
}

/// The codes outstanding after `/authorize`, and its reply, when the code it
/// would issue is `code`.
pub open spec fn authorize_outcome(
    state: OAuthState,
    codes: Map<Seq<char>, AuthCodeView>,
    p: AuthorizeParams,
    code: Seq<char>,
    now: u64,
) -> (Map<Seq<char>, AuthCodeView>, ReplyView) {
    match authorize_check(state, p) {
        AuthorizeCheck::UnregisteredRedirect => (
            codes,
            error_reply(400, "invalid_request"@, "Invalid redirect_uri"@),
        ),
        AuthorizeCheck::Refuse { error, description } => (
            codes,
            spec_error_redirect(p.redirect_uri@, error, description, p.state.deep_view()),
        ),
        AuthorizeCheck::Issue => (
            codes.insert(code, issued_grant(p, now)),
            spec_code_redirect(p.redirect_uri@, code, p.state.deep_view()),
        ),
    }
}

/// The redirect URI, the client's `state` and a code of `code_len`
/// characters fit within url's offsets, whichever redirect `/authorize`
/// sends back.
pub open spec fn authorize_fits(p: AuthorizeParams, code_len: int) -> bool {
    256 * p.redirect_uri@.len() + 12 * (state_len(p.state.deep_view()) + code_len) + 2048
        <= u32::MAX
}

/// Whether `uri` is in `allowed`.
fn contains_uri(allowed: &Vec<String>, uri: &str) -> (r: bool)
    ensures
        r == redirect_allowed(allowed.deep_view(), uri@),
{
    let n = allowed.len();
    let mut i: usize = 0;
    while i < n
        invariant
            n == allowed@.len(),
            i <= n,
            forall|j: int| 0 <= j < i ==> allowed@[j]@ != uri@,
        decreases n - i,
    {
        if str_eq(allowed[i].as_str(), uri) {
            assert(allowed.deep_view()[i as int] == uri@);
            return true;
        }
        i = i + 1;
    }
    assert(!allowed.deep_view().contains(uri@)) by {
        if allowed.deep_view().contains(uri@) {
            let j = choose|j: int| 0 <= j < n && allowed.deep_view()[j] == uri@;
            assert(allowed@[j]@ == uri@);
        }
    }
    false
}

impl OAuthState {
    /// How `/authorize` judges `params`.
    fn check_authorize(&self, params: &AuthorizeParams) -> (r: u8)
        ensures
            r == authorize_verdict(*self, *params),
    {
        if !contains_uri(&self.allowed_redirect_uris, params.redirect_uri.as_str()) {
            0
        } else if !str_eq(params.response_type.as_str(), "code") {
            1
        } else if !str_eq(params.client_id.as_str(), self.client_id.as_str()) {
            2
        } else if !str_eq(params.code_challenge_method.as_str(), "S256") {
            3
        } else {
            4
        }
    }

    /// `/authorize` when the code to issue, if any, is `code`: checks the
    /// request, stores the code with its grant and redirects back.
    pub fn authorize_with_code(
        &self,
        codes: &mut AuthCodeStore,
        params: AuthorizeParams,
        code: String,
        now: u64,
    ) -> (r: OAuthReply)
        requires
            old(codes).unique_codes(),
            authorize_fits(params, code@.len() as int),
        ensures
            final(codes).unique_codes(),
            (final(codes).spec_map(), r@) == authorize_outcome(
                *self,
                old(codes).spec_map(),
                params,
                code@,
                now,
            ),
    {
        let ghost p = params;
        let verdict = self.check_authorize(&params);
        let state = match &params.state {
            Some(s) => Some(s.as_str()),
            None => None,
        };
        assert(state.deep_view() == params.state.deep_view());
        proof {
            reveal_strlit("unsupported_response_type");
            reveal_strlit("Only 'code' response type is supported");
            reveal_strlit("invalid_client");
            reveal_strlit("Unknown client_id");
            reveal_strlit("invalid_request");
            reveal_strlit("Only S256 code challenge method is supported");
            lemma_error_redirect_budget(
                "unsupported_response_type"@,
                "Only 'code' response type is supported"@,
                state.deep_view(),
            );
            lemma_error_redirect_budget(
                "invalid_client"@,
                "Unknown client_id"@,
                state.deep_view(),
            );
            lemma_error_redirect_budget(
                "invalid_request"@,
                "Only S256 code challenge method is supported"@,
                state.deep_view(),
            );
            lemma_code_redirect_budget(code@, state.deep_view());
        }
        if verdict == 0 {
            token_error(400, "invalid_request", "Invalid redirect_uri")
        } else if verdict == 1 {
            error_redirect(
                params.redirect_uri.as_str(),
                "unsupported_response_type",
                "Only 'code' response type is supported",
                state,
            )
        } else if verdict == 2 {
            error_redirect(
                params.redirect_uri.as_str(),
                "invalid_client",
                "Unknown client_id",
                state,
            )
        } else if verdict == 3 {
            error_redirect(
                params.redirect_uri.as_str(),
                "invalid_request",
                "Only S256 code challenge method is supported",
                state,
            )
        } else {
            let reply = code_redirect(params.redirect_uri.as_str(), code.as_str(), state);
            let grant = AuthCode {
                client_id: params.client_id,
                redirect_uri: params.redirect_uri,
                code_challenge: params.code_challenge,
                created_at: now,
            };
            codes.insert(code, grant);
            reply
        }
    }

    /// `/authorize`: checks the request and, when it passes, issues a fresh
    /// random code (32 random bytes, unpadded URL-safe base64), stores it
    /// and redirects back with it.
    pub fn authorize(&self, codes: &mut AuthCodeStore, params: AuthorizeParams, now: u64) -> (r:
        OAuthReply)
        requires
            old(codes).unique_codes(),
            authorize_fits(params, 43),
        ensures
            final(codes).unique_codes(),
            exists|bytes: Seq<u8>|
                bytes.len() == AUTH_CODE_BYTES && base64_url_no_pad(bytes).len() == 43 && (
                final(codes).spec_map(),
                r@,
            ) == authorize_outcome(
                    *self,
                    old(codes).spec_map(),
                    params,
                    #[trigger] base64_url_no_pad(bytes),
                    now,
                ),
    {
        let verdict = self.check_authorize(&params);
        if verdict == 4 {
            let code = generate_token(AUTH_CODE_BYTES);
            self.authorize_with_code(codes, params, code, now)
        } else {
            let ghost bytes = Seq::new(AUTH_CODE_BYTES as nat, |i: int| 0u8);
            proof {
                lemma_base64_url_len(bytes);
                reveal_strlit("");
            }
            let unused = "".to_owned();
            let r = self.authorize_with_code(codes, params, unused, now);
            assert(bytes.len() == AUTH_CODE_BYTES);
            assert((codes.spec_map(), r@) == authorize_outcome(
                *self,
                old(codes).spec_map(),
                params,
                base64_url_no_pad(bytes),
                now,
            ));
            r
        }
    }
}

// ---------------------------------------------------------------------------
// /token
// ---------------------------------------------------------------------------

/// Form fields of `/token`.
pub struct TokenRequest {
    pub grant_type: String,
    pub code: Option<String>,
    pub redirect_uri: Option<String>,
    pub code_verifier: Option<String>,
    pub refresh_token: Option<String>,
    pub client_id: Option<String>,
    pub client_secret: Option<String>,
    /// Accepted and ignored.
    pub resource: Option<String>,
}

/// The text of an optional field, empty when it is missing.
pub open spec fn text_or_empty(o: Option<String>) -> Seq<char> {
    match o {
        Some(s) => s@,
        None => Seq::empty(),
    }
}

/// The request names the configured client and its secret.
pub open spec fn client_authenticated(state: OAuthState, req: TokenRequest) -> bool {
    text_or_empty(req.client_id) == state.client_id@ && text_or_empty(req.client_secret)
        == state.client_secret@
}

/// What a grant comes to before any token is signed.
pub ghost enum GrantCheck {
    /// Answer with this error.
    Reject(ReplyView),
    /// Issue tokens for this client.
    Issue(Seq<char>),
}

/// A 400 reply for a request that lacks a field.
pub open spec fn invalid_request(description: Seq<char>) -> GrantCheck {
    GrantCheck::Reject(error_reply(400, "invalid_request"@, description))
}

/// A 400 reply for a grant that does not hold.
pub open spec fn invalid_grant(description: Seq<char>) -> GrantCheck {
    GrantCheck::Reject(error_reply(400, "invalid_grant"@, description))
}

/// The authorization-code grant: the outstanding codes afterwards and the
/// verdict. The code is consumed as soon as it is found, whatever the later
/// checks say.
pub open spec fn code_grant_check(
    codes: Map<Seq<char>, AuthCodeView>,
    req: TokenRequest,
    now: u64,
) -> (Map<Seq<char>, AuthCodeView>, GrantCheck) {
    if req.code is None {
        (codes, invalid_request("Missing code"@))
    } else if req.code_verifier is None {
        (codes, invalid_request("Missing code_verifier"@))
    } else if req.redirect_uri is None {
        (codes, invalid_request("Missing redirect_uri"@))
    } else {
        let code = req.code->Some_0@;
        if !codes.dom().contains(code) {
            (codes, invalid_grant("Invalid or expired code"@))
        } else {
            let g = codes[code];
            let rest = codes.remove(code);
            if code_expired(now, g.created_at) {
                (rest, invalid_grant("Authorization code expired"@))
            } else if req.redirect_uri->Some_0@ != g.redirect_uri {
                (rest, invalid_grant("redirect_uri mismatch"@))
            } else if !pkce_s256_matches(req.code_verifier->Some_0@, g.code_challenge) {
                (rest, invalid_grant("PKCE verification failed"@))
            } else {
                (rest, GrantCheck::Issue(g.client_id))
            }
        }
    }
}

/// The reply of a grant that issues tokens for `client_id`, when the clock
/// reads `access_now` as the access token is signed and `refresh_now` as
/// the refresh token is: both tokens (the access token expiring in an
/// hour), or a 500 when a reading is too late for its expiry to fit in a
/// `u64`.
pub open spec fn pair_reply(
    client_id: Seq<char>,
    secret: Seq<u8>,
    access_now: u64,
    refresh_now: u64,
) -> ReplyView {
    if access_now > u64::MAX - ACCESS_TOKEN_TTL_SECS || refresh_now > u64::MAX
        - REFRESH_TOKEN_TTL_SECS {
        error_reply(500, "server_error"@, "Token signing failed: clock out of range"@)
    } else {
        ReplyView::Tokens {
            access_token: signed_token(access_claims(access_now), secret),
            refresh_token: signed_token(refresh_claims(refresh_now, client_id), secret),
            expires_in: ACCESS_TOKEN_TTL_SECS,
        }
    }
}

/// `r` is the reply of a grant that issues tokens for `client_id`, both
/// for one reading of the clock.
pub open spec fn issued_reply(r: ReplyView, client_id: Seq<char>, secret: Seq<u8>) -> bool {
    exists|now: u64| r == #[trigger] pair_reply(client_id, secret, now, now)
}

/// `r` is the reply a grant verdict calls for.
pub open spec fn grant_reply(r: ReplyView, check: GrantCheck, secret: Seq<u8>) -> bool {
    match check {
        GrantCheck::Reject(v) => r == v,
        GrantCheck::Issue(client_id) => issued_reply(r, client_id, secret),
    }
}

/// The refresh-token grant once the refresh token has been checked:
/// `client_id` is the client it was issued to, if it passed.
pub open spec fn refresh_grant_check(client_id: Option<Seq<char>>) -> GrantCheck {
    match client_id {
        Some(c) => GrantCheck::Issue(c),
        None => invalid_grant("Invalid or expired refresh token"@),
    }
}

/// What `/token` may answer to the refresh-token grant, whatever the clock
/// says of the token's expiry.
pub open spec fn refresh_reply(r: ReplyView, req: TokenRequest, secret: Seq<u8>) -> bool {
    if req.refresh_token is None {
        r == error_reply(400, "invalid_request"@, "Missing refresh_token"@)
    } else {
        let t = req.refresh_token->Some_0@;
        let refused = error_reply(400, "invalid_grant"@, "Invalid or expired refresh token"@);
        &&& exists|c: Option<Seq<char>>| grant_reply(r, #[trigger] refresh_grant_check(c), secret)
        &&& is_access_token(t, secret) ==> r == refused
        &&& forall|c: Seq<char>|
            #[trigger] is_refresh_token(t, c, secret) ==> r == refused || issued_reply(r, c, secret)
    }
}

impl OAuthState {
    /// Signs an access token and a refresh token for `client_id`, the
    /// first for the clock reading `access_now`, the second for
    /// `refresh_now`.
    pub fn issue_pair_at(&self, client_id: &str, access_now: u64, refresh_now: u64) -> (r:
        OAuthReply)
        ensures
            r@ == pair_reply(client_id@, self.signing_key@, access_now, refresh_now),
    {
        proof {
            reveal_strlit("server_error");
            reveal_strlit("clock out of range");
            reveal_strlit("Token signing failed: ");
            reveal_strlit("Token signing failed: clock out of range");
            assert("Token signing failed: "@ + "clock out of range"@
                =~= "Token signing failed: clock out of range"@);
        }
        let access = match self.issue_access_token_at(access_now) {
            Ok(t) => t,
            Err(e) => {
                let m = e.message();
                return signing_failure(m.as_str());
            },
        };
        let refresh = match self.issue_refresh_token_at(client_id, refresh_now) {
            Ok(t) => t,
            Err(e) => {
                let m = e.message();
                return signing_failure(m.as_str());
            },
        };
        OAuthReply::Tokens {
            access_token: access,
            refresh_token: refresh,
            expires_in: ACCESS_TOKEN_TTL_SECS,
        }
    }

    /// Signs a fresh access token and a refresh token for `client_id`, both
    /// issued at the one clock reading taken for the grant.
    fn issue_pair(&self, client_id: &str) -> (r: OAuthReply)
        ensures
            issued_reply(r@, client_id@, self.signing_key@),
    {
        let now = current_timestamp();
        let r = self.issue_pair_at(client_id, now, now);
        assert(r@ == pair_reply(client_id@, self.signing_key@, now, now));
        r
    }

    /// The authorization-code grant of `/token`.
    fn code_grant(&self, codes: &mut AuthCodeStore, req: &TokenRequest, now: u64) -> (r:
        OAuthReply)
        requires
            old(codes).unique_codes(),
        ensures
            final(codes).unique_codes(),
            final(codes).spec_map() == code_grant_check(old(codes).spec_map(), *req, now).0,
            grant_reply(r@, code_grant_check(old(codes).spec_map(), *req, now).1, self.signing_key@),
    {
        let code = match &req.code {
            Some(c) => c,
            None => return token_error(400, "invalid_request", "Missing code"),
        };
        let verifier = match &req.code_verifier {
            Some(v) => v,
            None => return token_error(400, "invalid_request", "Missing code_verifier"),
        };
        let redirect_uri = match &req.redirect_uri {
            Some(u) => u,
            None => return token_error(400, "invalid_request", "Missing redirect_uri"),
        };
        let grant = match codes.take(code.as_str()) {
            Some(g) => g,
            None => return token_error(400, "invalid_grant", "Invalid or expired code"),
        };
        if elapsed_nanos(now, grant.created_at) > AUTH_CODE_TTL_NANOS {
            return token_error(400, "invalid_grant", "Authorization code expired");
        }
        if !str_eq(redirect_uri.as_str(), grant.redirect_uri.as_str()) {
            return token_error(400, "invalid_grant", "redirect_uri mismatch");
        }
        if !verify_pkce_s256(verifier.as_str(), grant.code_challenge.as_str()) {
            return token_error(400, "invalid_grant", "PKCE verification failed");
        }
        self.issue_pair(grant.client_id.as_str())
    }

    /// The refresh-token grant once the refresh token has been checked.
    pub fn refresh_grant_for(&self, client_id: Option<String>) -> (r: OAuthReply)
        ensures
            grant_reply(r@, refresh_grant_check(client_id.deep_view()), self.signing_key@),
    {
        match client_id {
            Some(c) => self.issue_pair(c.as_str()),
            None => token_error(400, "invalid_grant", "Invalid or expired refresh token"),
        }
    }

    /// The refresh-token grant of `/token`.
    fn refresh_grant(&self, req: &TokenRequest) -> (r: OAuthReply)
        ensures
            refresh_reply(r@, *req, self.signing_key@),
    {
        let refresh = match &req.refresh_token {
            Some(t) => t,
            None => return token_error(400, "invalid_request", "Missing refresh_token"),
        };
        let client_id = self.validate_refresh_token(refresh.as_str());
        let ghost c = client_id.deep_view();
        let r = self.refresh_grant_for(client_id);
        assert(grant_reply(r@, refresh_grant_check(c), self.signing_key@));
        proof {
            let t = refresh@;
            assert forall|d: Seq<char>| #[trigger] is_refresh_token(t, d, self.signing_key@) implies r@
                == error_reply(400, "invalid_grant"@, "Invalid or expired refresh token"@)
                || issued_reply(r@, d, self.signing_key@) by {
                assert(c is None || c == Some(d));
            }
        }
        r
    }

    /// `/token`: authenticates the client (in constant time), then runs the
    /// requested grant.
    pub fn token(&self, codes: &mut AuthCodeStore, req: TokenRequest, now: u64) -> (r: OAuthReply)
        requires
            old(codes).unique_codes(),
        ensures
            final(codes).unique_codes(),
            !client_authenticated(*self, req) ==> {
                &&& final(codes).spec_map() == old(codes).spec_map()
                &&& r@ == error_reply(401, "invalid_client"@, "Invalid client credentials"@)
            },
            client_authenticated(*self, req) && req.grant_type@ == "authorization_code"@ ==> {
                let (after, check) = code_grant_check(old(codes).spec_map(), req, now);
                final(codes).spec_map() == after && grant_reply(r@, check, self.signing_key@)
            },
            client_authenticated(*self, req) && req.grant_type@ == "refresh_token"@ ==> {
                &&& final(codes).spec_map() == old(codes).spec_map()
                &&& refresh_reply(r@, req, self.signing_key@)
            },
            client_authenticated(*self, req) && req.grant_type@ != "authorization_code"@
                && req.grant_type@ != "refresh_token"@ ==> {
                &&& final(codes).spec_map() == old(codes).spec_map()
                &&& r@ == error_reply(400, "unsupported_grant_type"@, "Unsupported grant type"@)
            },
    {
        let cid = match &req.client_id {
            Some(c) => c.as_str(),
            None => "",
        };
        let csecret = match &req.client_secret {
            Some(c) => c.as_str(),
            None => "",
        };
        proof {
            reveal_strlit("");
            reveal_strlit("authorization_code");
            reveal_strlit("refresh_token");
            assert(""@ =~= Seq::<char>::empty());
            assert("authorization_code"@ != "refresh_token"@) by {
                assert("authorization_code"@[0] != "refresh_token"@[0]);
            }
        }
        assert(cid@ == text_or_empty(req.client_id));
        assert(csecret@ == text_or_empty(req.client_secret));
        let id_match = credentials_equal(cid, self.client_id.as_str());
        let secret_match = credentials_equal(csecret, self.client_secret.as_str());
        // Both comparisons have run in full before either result is looked at.
        if !(id_match && secret_match) {
            return token_error(401, "invalid_client", "Invalid client credentials");
        }
        if str_eq(req.grant_type.as_str(), "authorization_code") {
            self.code_grant(codes, &req, now)
        } else if str_eq(req.grant_type.as_str(), "refresh_token") {
            self.refresh_grant(&req)
        } else {
            token_error(400, "unsupported_grant_type", "Unsupported grant type")
        }
    }
}

// ---------------------------------------------------------------------------
// Bearer tokens
// ---------------------------------------------------------------------------

/// ASCII lower-casing of one byte, as `u8::to_ascii_lowercase` does it.
pub open spec fn ascii_lower(b: u8) -> u8 {
    if 65 <= b && b <= 90 {
        (b + 32) as u8
    } else {
        b
    }
}

/// The bytes of `"bearer "`.
pub open spec fn bearer_scheme() -> Seq<u8> {
    seq![98u8, 101u8, 97u8, 114u8, 101u8, 114u8, 32u8]
}

/// The header is longer than `"bearer "` and starts with it, ignoring ASCII
/// case.
pub open spec fn has_bearer_prefix(h: Seq<u8>) -> bool {
    h.len() > 7 && forall|i: int| 0 <= i < 7 ==> ascii_lower(#[trigger] h[i]) == bearer_scheme()[i]
}

/// The middleware slices the header at byte 7; the header must not split a
/// character there.
pub open spec fn splits_cleanly(h: Seq<u8>) -> bool {
    h.len() > 7 ==> vstd::utf8::is_char_boundary(h, 7)
}

fn to_ascii_lower(b: u8) -> (r: u8)
    ensures
        r == ascii_lower(b),
{
    if 65 <= b && b <= 90 {
        b + 32
    } else {
        b
    }
}

/// The token of an `Authorization: Bearer <token>` header value (scheme
/// matched without regard to ASCII case), if it has that form.
pub fn bearer_token(header: &str) -> (r: Option<&str>)
    requires
        splits_cleanly(header.spec_bytes()),
    ensures
        match r {
            Some(t) => has_bearer_prefix(header.spec_bytes()) && t.spec_bytes()
                == header.spec_bytes().subrange(7, header.spec_bytes().len() as int),
            None => !has_bearer_prefix(header.spec_bytes()),
        },
{
    let bytes = header.as_bytes();
    if bytes.len() <= 7 || !has_prefix_bytes(bytes) {
        return None;
    }
    let (_, rest) = header.split_at(7);
    Some(rest)
}

/// A request passes when its header carries the bearer scheme and the
/// token decoded to access-token claims.
pub open spec fn bearer_allows(
    authorization: Option<&str>,
    decoded: Result<serde_json::Map<String, serde_json::Value>, jsonwebtoken::errors::Error>,
) -> bool {
    match authorization {
        Some(h) => has_bearer_prefix(h.spec_bytes()) && match decoded {
            Ok(m) => jwt::accepts_as_access(jwt::json_claims(m)),
            Err(_) => false,
        },
        None => false,
    }
}

/// The token text after `"bearer "` in a header value.
pub open spec fn bearer_text(h: Seq<u8>) -> Seq<char> {
    vstd::utf8::decode_utf8(h.subrange(7, h.len() as int))
}

/// The header presents a refresh token as its bearer token.
pub open spec fn carries_refresh_token(authorization: Option<&str>, secret: Seq<u8>) -> bool {
    match authorization {
        Some(h) => has_bearer_prefix(h.spec_bytes()) && is_some_refresh_token(
            bearer_text(h.spec_bytes()),
            secret,
        ),
        None => false,
    }
}

/// What the bearer middleware does with a request.
pub enum BearerVerdict {
    /// Pass the request on.
    Allow,
    /// Answer 401 `Unauthorized` with this `WWW-Authenticate` value.
    Reject { www_authenticate: String },
}

impl OAuthState {
    /// The verdict on a request whose `Authorization` header is
    /// `authorization`, once its token has been decoded as `decoded`.
    pub fn bearer_verdict(
        &self,
        authorization: Option<&str>,
        decoded: &Result<serde_json::Map<String, serde_json::Value>, jsonwebtoken::errors::Error>,
    ) -> (r: BearerVerdict)
        ensures
            r matches BearerVerdict::Reject { www_authenticate } ==> www_authenticate@
                == spec_www_authenticate(self.server_url@),
            r is Allow <==> bearer_allows(authorization, *decoded),
    {
        let ok = match authorization {
            Some(h) => {
                let bytes = h.as_bytes();
                bytes.len() > 7 && has_prefix_bytes(bytes) && access_accepted(decoded)
            },
            None => false,
        };
        if ok {
            BearerVerdict::Allow
        } else {
            BearerVerdict::Reject { www_authenticate: www_authenticate(self.server_url.as_str()) }
        }
    }

    /// The bearer middleware: a request passes only with an
    /// `Authorization: Bearer <token>` header whose token is a valid access
    /// token; otherwise it is answered 401 with a challenge that points at
    /// the protected resource metadata. Token expiry depends on the clock.
    pub fn check_bearer(&self, authorization: Option<&str>) -> (r: BearerVerdict)
        requires
            authorization matches Some(h) ==> splits_cleanly(h.spec_bytes()),
        ensures
            r matches BearerVerdict::Reject { www_authenticate } ==> www_authenticate@
                == spec_www_authenticate(self.server_url@),
            !(authorization matches Some(h) && has_bearer_prefix(h.spec_bytes())) ==> r is Reject,
            carries_refresh_token(authorization, self.signing_key@) ==> r is Reject,
    {
        let token = match authorization {
            Some(h) => bearer_token(h),
            None => None,
        };
        match token {
            Some(t) => {
                let decoded = jwt::decode_claims(t, self.signing_key.as_slice());
                let verdict = self.bearer_verdict(authorization, &decoded);
                proof {
                    vstd::utf8::encode_utf8_decode_utf8(t@);
                    if carries_refresh_token(authorization, self.signing_key@) {
                        let c = choose|c: Seq<char>| is_refresh_token(t@, c, self.signing_key@);
                        let now = choose|now: u64|
                            now + REFRESH_TOKEN_TTL_SECS <= u64::MAX && t@
                                == #[trigger] signed_token(refresh_claims(now, c), self.signing_key@);
                        if let Ok(m) = decoded {
                            let claims = refresh_claims(now, c);
                            assert(jwt::hs256_jwt(claims.sub, claims.exp, claims.iat, claims.client_id, self.signing_key@) == t@);
                            jwt::lemma_claims_read_back(claims);
                            lemma_access_and_refresh_differ();
                        }
                    }
                }
                verdict
            },
            None => BearerVerdict::Reject {
                www_authenticate: www_authenticate(self.server_url.as_str()),
            },
        }
    }
}

/// Whether the first seven bytes read `"bearer "` in any ASCII case.
fn has_prefix_bytes(bytes: &[u8]) -> (r: bool)
    requires
        bytes@.len() > 7,
    ensures
        r == has_bearer_prefix(bytes@),
{
    let scheme: Vec<u8> = vec![98u8, 101u8, 97u8, 114u8, 101u8, 114u8, 32u8];
    assert(scheme@ =~= bearer_scheme());
    let mut i: usize = 0;
    while i < 7
        invariant
            i <= 7,
            bytes@.len() > 7,
            scheme@ == bearer_scheme(),
            forall|j: int| 0 <= j < i ==> ascii_lower(#[trigger] bytes@[j]) == bearer_scheme()[j],
        decreases 7 - i,
    {
        if to_ascii_lower(bytes[i]) != scheme[i] {
            return false;
        }
        i = i + 1;
    }
    true
}

// ---------------------------------------------------------------------------
// Discovery and registration
// ---------------------------------------------------------------------------

/// The OAuth protected resource metadata document (RFC 9728).
pub struct ProtectedResourceMetadata {
    pub resource: String,
    pub authorization_servers: Vec<String>,
    pub scopes_supported: Vec<String>,
    pub bearer_methods_supported: Vec<String>,
}

/// The OAuth authorization server metadata document (RFC 8414).
pub struct AuthorizationServerMetadata {
    pub issuer: String,
    pub authorization_endpoint: String,
    pub token_endpoint: String,
    pub registration_endpoint: String,
    pub response_types_supported: Vec<String>,
    pub grant_types_supported: Vec<String>,
    pub token_endpoint_auth_methods_supported: Vec<String>,
    pub code_challenge_methods_supported: Vec<String>,
    pub scopes_supported: Vec<String>,
}

/// The answer to a client registration request: the preconfigured
/// credentials.
pub struct ClientRegistration {
    pub client_id: String,
    pub client_secret: String,
    pub client_id_issued_at: u64,
    pub client_secret_expires_at: u64,
    /// The `redirect_uris` the request sent, echoed; sent as an empty list
    /// when the request had none.
    pub redirect_uris: Option<serde_json::Value>,
    pub token_endpoint_auth_method: String,
    pub grant_types: Vec<String>,
    pub response_types: Vec<String>,
}

/// The grant types the server supports.
pub open spec fn supported_grant_types() -> Seq<Seq<char>> {
    seq!["authorization_code"@, "refresh_token"@]
}

impl OAuthState {
    /// The protected resource metadata: this server is both the resource and
    /// its authorization server; tokens travel in the `Authorization` header.
    pub fn protected_resource_metadata(&self) -> (r: ProtectedResourceMetadata)
        ensures
            r.resource@ == self.server_url@,
            r.authorization_servers.deep_view() == seq![self.server_url@],
            r.scopes_supported@.len() == 0,
            r.bearer_methods_supported.deep_view() == seq!["header"@],
    {
        let r = ProtectedResourceMetadata {
            resource: self.server_url.clone(),
            authorization_servers: vec![self.server_url.clone()],
            scopes_supported: Vec::new(),
            bearer_methods_supported: vec!["header".to_owned()],
        };
        assert(r.authorization_servers.deep_view() =~= seq![self.server_url@]);
        assert(r.bearer_methods_supported.deep_view() =~= seq!["header"@]);
        r
    }

    /// The authorization server metadata: endpoints under the server URL,
    /// the code flow with S256 PKCE, and `client_secret_post` client
    /// authentication.
    pub fn authorization_server_metadata(&self) -> (r: AuthorizationServerMetadata)
        ensures
            r.issuer@ == self.server_url@,
            r.authorization_endpoint@ == self.server_url@ + "/authorize"@,
            r.token_endpoint@ == self.server_url@ + "/token"@,
            r.registration_endpoint@ == self.server_url@ + "/register"@,
            r.response_types_supported.deep_view() == seq!["code"@],
            r.grant_types_supported.deep_view() == supported_grant_types(),
            r.token_endpoint_auth_methods_supported.deep_view() == seq!["client_secret_post"@],
            r.code_challenge_methods_supported.deep_view() == seq!["S256"@],
            r.scopes_supported@.len() == 0,
    {
        let issuer = self.server_url.as_str();
        let r = AuthorizationServerMetadata {
            issuer: issuer.to_owned(),
            authorization_endpoint: concat2(issuer, "/authorize"),
            token_endpoint: concat2(issuer, "/token"),
            registration_endpoint: concat2(issuer, "/register"),
            response_types_supported: vec!["code".to_owned()],
            grant_types_supported: vec!["authorization_code".to_owned(), "refresh_token".to_owned()],
            token_endpoint_auth_methods_supported: vec!["client_secret_post".to_owned()],
            code_challenge_methods_supported: vec!["S256".to_owned()],
            scopes_supported: Vec::new(),
        };
        assert(r.response_types_supported.deep_view() =~= seq!["code"@]);
        assert(r.grant_types_supported.deep_view() =~= supported_grant_types());
        assert(r.token_endpoint_auth_methods_supported.deep_view() =~= seq!["client_secret_post"@]);
        assert(r.code_challenge_methods_supported.deep_view() =~= seq!["S256"@]);
        r
    }

    /// Client registration: hands back the preconfigured client id and
    /// secret (issued at 0, never expiring) and echoes the requested
    /// redirect URIs.
    pub fn register(&self, redirect_uris: Option<serde_json::Value>) -> (r: ClientRegistration)
        ensures
            r.client_id@ == self.client_id@,
            r.client_secret@ == self.client_secret@,
            r.client_id_issued_at == 0,
            r.client_secret_expires_at == 0,
            r.redirect_uris == redirect_uris,
            r.token_endpoint_auth_method@ == "client_secret_post"@,
            r.grant_types.deep_view() == supported_grant_types(),
            r.response_types.deep_view() == seq!["code"@],
    {
        let r = ClientRegistration {
            client_id: self.client_id.clone(),
            client_secret: self.client_secret.clone(),
            client_id_issued_at: 0,
            client_secret_expires_at: 0,
            redirect_uris,
            token_endpoint_auth_method: "client_secret_post".to_owned(),
            grant_types: vec!["authorization_code".to_owned(), "refresh_token".to_owned()],
            response_types: vec!["code".to_owned()],
        };
        assert(r.grant_types.deep_view() =~= supported_grant_types());
        assert(r.response_types.deep_view() =~= seq!["code"@]);
        r
    }
}

// ---------------------------------------------------------------------------
// Laws of the code flow
// ---------------------------------------------------------------------------

/// The authorization code flow works and codes are single-use: a code that
/// `/authorize` issued, redeemed before it expires with the redirect URI it
/// was issued for and a verifier that answers its S256 challenge, is granted
/// to the client it was issued to and leaves the outstanding codes as they
/// were before it was issued, less that code; redeeming it a second time is
/// refused as an invalid grant.
pub proof fn lemma_issued_code_redeems_once(
    state: OAuthState,
    codes: Map<Seq<char>, AuthCodeView>,
    p: AuthorizeParams,
    code: Seq<char>,
    issued_at: u64,
    req: TokenRequest,
    now: u64,
)
    requires
        authorize_check(state, p) is Issue,
        req.code matches Some(c) && c@ == code,
        req.redirect_uri matches Some(u) && u@ == p.redirect_uri@,
        req.code_verifier matches Some(v) && pkce_s256_matches(v@, p.code_challenge@),
        !code_expired(now, issued_at),
    ensures
        code_grant_check(authorize_outcome(state, codes, p, code, issued_at).0, req, now) == (
            codes.remove(code),
            GrantCheck::Issue(state.client_id@),
        ),
        code_grant_check(
            code_grant_check(authorize_outcome(state, codes, p, code, issued_at).0, req, now).0,
            req,
            now,
        ).1 == invalid_grant("Invalid or expired code"@),
{
    let after = authorize_outcome(state, codes, p, code, issued_at).0;
    assert(after == codes.insert(code, issued_grant(p, issued_at)));
    assert(after.remove(code) =~= codes.remove(code));
    assert(authorize_verdict(state, p) == 4);
    assert(p.client_id@ == state.client_id@);
}

/// A code yields tokens at most once: a code grant that names a code and
/// carries a verifier and a redirect URI leaves that code outstanding no
/// more, whatever its verdict, so any later grant with the same code is
/// refused as an invalid grant.
pub proof fn lemma_code_grant_single_use(
    codes: Map<Seq<char>, AuthCodeView>,
    req: TokenRequest,
    now: u64,
    later: TokenRequest,
    later_now: u64,
)
    requires
        req.code is Some,
        req.code_verifier is Some,
        req.redirect_uri is Some,
        later.code matches Some(c) && c@ == req.code->Some_0@,
        later.code_verifier is Some,
        later.redirect_uri is Some,
    ensures
        code_grant_check(codes, req, now).0 == codes.remove(req.code->Some_0@),
        code_grant_check(code_grant_check(codes, req, now).0, later, later_now).1
            == invalid_grant("Invalid or expired code"@),
{
    let code = req.code->Some_0@;
    if !codes.dom().contains(code) {
        assert(codes.remove(code) =~= codes);
    }
}

/// Every token pair a grant hands out holds an access token and a refresh
/// token for the grant's client, and their payloads, read back, pass the
/// access check and the refresh check (the refresh check naming that
/// client).
pub proof fn lemma_issued_pair_accepted(
    client_id: Seq<char>,
    secret: Seq<u8>,
    access_now: u64,
    refresh_now: u64,
)
    ensures
        pair_reply(client_id, secret, access_now, refresh_now) matches ReplyView::Tokens {
            access_token,
            refresh_token,
            expires_in,
        } ==> {
            &&& is_access_token(access_token, secret)
            &&& is_refresh_token(refresh_token, client_id, secret)
            &&& jwt::accepts_as_access(jwt::claims_json(access_claims(access_now)))
            &&& jwt::refresh_client(jwt::claims_json(refresh_claims(refresh_now, client_id)))
                == Some(client_id)
        },
{
    reveal_strlit("access");
    reveal_strlit("refresh");
    jwt::lemma_claims_read_back(access_claims(access_now));
    jwt::lemma_claims_read_back(refresh_claims(refresh_now, client_id));
}

/// The tokens of a grant are issued together: a grant that hands out
/// tokens for `client_id` signs the access-token claims and the
/// refresh-token claims of one and the same issue time, so the refresh
/// token outlives the access token by the difference of their lifetimes
/// (it expires `REFRESH_TOKEN_TTL_SECS` after the grant, the access token
/// `ACCESS_TOKEN_TTL_SECS` after it). A grant that does not hand out tokens
/// answers 500 `server_error`.
pub proof fn lemma_grant_tokens_share_issue_time(r: ReplyView, client_id: Seq<char>, secret: Seq<u8>)
    requires
        issued_reply(r, client_id, secret),
    ensures
        r matches ReplyView::Tokens { access_token, refresh_token, expires_in } ==> (exists|now: u64|
            {
                &&& now + REFRESH_TOKEN_TTL_SECS <= u64::MAX
                &&& expires_in == ACCESS_TOKEN_TTL_SECS
                &&& access_token == signed_token(
                    jwt::ClaimsView {
                        sub: "access"@,
                        exp: (now + ACCESS_TOKEN_TTL_SECS) as u64,
                        iat: now,
                        client_id: None,
                    },
                    secret,
                )
                &&& refresh_token == #[trigger] signed_token(
                    jwt::ClaimsView {
                        sub: "refresh"@,
                        exp: (now + REFRESH_TOKEN_TTL_SECS) as u64,
                        iat: now,
                        client_id: Some(client_id),
                    },
                    secret,
                )
            }),
        !(r is Tokens) ==> (r matches ReplyView::Error { status, error, .. } && status == 500
            && error == "server_error"@),
{
    let now = choose|now: u64| r == #[trigger] pair_reply(client_id, secret, now, now);
    if r is Tokens {
        assert(now + REFRESH_TOKEN_TTL_SECS <= u64::MAX);
        assert(refresh_claims(now, client_id) == jwt::ClaimsView {
            sub: "refresh"@,
            exp: (now + REFRESH_TOKEN_TTL_SECS) as u64,
            iat: now,
            client_id: Some(client_id),
        });
    }
}

/// Every registered redirect URI is honoured, wherever it stands in the
/// list: a request that names the configured client, asks for a `code` with
/// the S256 method and redirects to any one of the registered URIs gets a
/// code, stored with its grant, and a redirect back to that URI. A redirect
/// URI that is none of the registered ones is answered 400 and stores
/// nothing.
pub proof fn lemma_registered_redirects_honoured(
    state: OAuthState,
    codes: Map<Seq<char>, AuthCodeView>,
    p: AuthorizeParams,
    code: Seq<char>,
    now: u64,
)
    ensures
        (exists|i: int|
            0 <= i < state.allowed_redirect_uris.len() && #[trigger] state.allowed_redirect_uris[i]@
                == p.redirect_uri@) && p.response_type@ == "code"@ && p.client_id@
            == state.client_id@ && p.code_challenge_method@ == "S256"@ ==> authorize_outcome(
            state,
            codes,
            p,
            code,
            now,
        ) == (
            codes.insert(code, issued_grant(p, now)),
            spec_code_redirect(p.redirect_uri@, code, p.state.deep_view()),
        ),
        (forall|i: int|
            0 <= i < state.allowed_redirect_uris.len() ==> #[trigger] state.allowed_redirect_uris[i]@
                != p.redirect_uri@) ==> authorize_outcome(state, codes, p, code, now) == (
            codes,
            error_reply(400, "invalid_request"@, "Invalid redirect_uri"@),
        ),
{
    let allowed = state.allowed_redirect_uris.deep_view();
    if exists|i: int|
        0 <= i < state.allowed_redirect_uris.len() && #[trigger] state.allowed_redirect_uris[i]@
            == p.redirect_uri@ {
        let i = choose|i: int|
            0 <= i < state.allowed_redirect_uris.len() && #[trigger] state.allowed_redirect_uris[i]@
                == p.redirect_uri@;
        assert(allowed[i] == p.redirect_uri@);
        assert(allowed.contains(p.redirect_uri@));
    }
    if forall|i: int|
        0 <= i < state.allowed_redirect_uris.len() ==> #[trigger] state.allowed_redirect_uris[i]@
            != p.redirect_uri@ {
        if allowed.contains(p.redirect_uri@) {
            let j = choose|j: int| 0 <= j < allowed.len() && allowed[j] == p.redirect_uri@;
            assert(state.allowed_redirect_uris[j]@ == p.redirect_uri@);
        }
    }
}

} // verus!
