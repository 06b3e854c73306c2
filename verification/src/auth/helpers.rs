//! Random codes, PKCE checks, redirect URLs and the replies the endpoints give.
use vstd::prelude::*;
use crate::text::{concat2, concat3, str_eq};

verus! {

// ---------------------------------------------------------------------------
// Outside functions
// ---------------------------------------------------------------------------

/// SHA-256 of `data`, as sha2's `Sha256::digest` computes it.
pub uninterp spec fn sha256_digest(data: Seq<u8>) -> Seq<u8>;

/// The digit for the six-bit value `v` in the URL-safe base64 alphabet
/// (`A`-`Z`, `a`-`z`, `0`-`9`, `-`, `_`).
pub open spec fn base64_url_digit(v: int) -> char {
    if v < 26 {
        (v + 65) as char
    } else if v < 52 {
        (v + 71) as char
    } else if v < 62 {
        (v - 4) as char
    } else if v == 62 {
        '-'
    } else {
        '_'
    }
}

/// The unpadded URL-safe base64 text of `data` (RFC 4648, section 5):
/// each group of three bytes becomes four digits, and a final group of one
/// or two bytes becomes two or three digits, with no `=` padding.
pub open spec fn base64_url_no_pad(data: Seq<u8>) -> Seq<char>
    decreases data.len(),
{
    if data.len() == 0 {
        Seq::empty()
    } else {
        let b0 = data[0] as int;
        if data.len() == 1 {
            seq![base64_url_digit(b0 / 4), base64_url_digit((b0 % 4) * 16)]
        } else {
            let b1 = data[1] as int;
            if data.len() == 2 {
                seq![
                    base64_url_digit(b0 / 4),
                    base64_url_digit((b0 % 4) * 16 + b1 / 16),
                    base64_url_digit((b1 % 16) * 4),
                ]
            } else {
                let b2 = data[2] as int;
                seq![
                    base64_url_digit(b0 / 4),
                    base64_url_digit((b0 % 4) * 16 + b1 / 16),
                    base64_url_digit((b1 % 16) * 4 + b2 / 64),
                    base64_url_digit(b2 % 64),
                ] + base64_url_no_pad(data.skip(3))
            }
        }
    }
}

/// Unpadded base64 of `n` bytes is `ceil(4n / 3)` digits long.
pub proof fn lemma_base64_url_len(data: Seq<u8>)
    ensures
        base64_url_no_pad(data).len() == (4 * data.len() + 2) / 3,
    decreases data.len(),
{
    if data.len() >= 3 {
        lemma_base64_url_len(data.skip(3));
    }
}

/// The text of the URL that url's `Url::parse` makes of `base` after
/// url's form-urlencoded serializer has appended `pairs` to its query, in
/// order; `None` where `Url::parse` refuses `base`.
pub uninterp spec fn url_with_query_pairs(
    base: Seq<char>,
    pairs: Seq<(Seq<char>, Seq<char>)>,
) -> Option<Seq<char>>;

/// Calls sha2's `Sha256::digest`. Trusted: the result is the digest that
/// `sha256_digest` names, and it is 32 bytes long (the output size of
/// SHA-256).
#[verifier::external_body]
fn sha256(data: &[u8]) -> (r: Vec<u8>)
    ensures
        r@ == sha256_digest(data@),
        r@.len() == 32,
{
    <sha2::Sha256 as sha2::Digest>::digest(data).to_vec()
}

/// Calls base64's `Engine::encode` on the `URL_SAFE_NO_PAD` engine.
/// Trusted: the result is the unpadded URL-safe base64 of `data`, as
/// `base64_url_no_pad` spells it out. The engine panics when the output
/// length overflows `usize`, which the bound on the input rules out.
#[verifier::external_body]
fn base64_url_encode(data: &[u8]) -> (r: String)
    requires
        data@.len() <= usize::MAX / 2,
    ensures
        r@ == base64_url_no_pad(data@),
{
    base64::Engine::encode(&base64::engine::general_purpose::URL_SAFE_NO_PAD, data)
}

/// Calls rand's `Rng::random::<u8>` on the thread-local generator of
/// `rand::rng()`. Nothing is stated of the byte: it is random.
#[verifier::external_body]
fn random_byte() -> (r: u8) {
    rand::Rng::random::<u8>(&mut rand::rng())
}

/// Calls subtle's `ConstantTimeEq::ct_eq` on two byte slices and converts
/// the `Choice` to a `bool`. Trusted: the answer is whether the slices are
/// equal (same length, same bytes), as subtle documents it.
#[verifier::external_body]
fn constant_time_eq(a: &[u8], b: &[u8]) -> (r: bool)
    ensures
        r == (a@ == b@),
{
    bool::from(subtle::ConstantTimeEq::ct_eq(a, b))
}

/// The most text the form-urlencoded serializer can write for `pairs`:
/// every character of a name or a value is at most four UTF-8 bytes, each
/// written as at most three characters (`%XX`), plus `=` and `&` per pair.
pub open spec fn pairs_budget(pairs: Seq<(Seq<char>, Seq<char>)>) -> int
    decreases pairs.len(),
{
    if pairs.len() == 0 {
        0
    } else {
        12 * (pairs[0].0.len() + pairs[0].1.len()) + 2 + pairs_budget(pairs.skip(1))
    }
}

/// `base` with `pairs` appended stays within the `u32` offsets that url's
/// `Url` keeps into its text. Parsing can lengthen a URL: the path, query
/// and fragment are percent-encoded (at most twelve characters for one)
/// and an internationalised host becomes `xn--` labels (at most eighteen
/// mapped code points of eleven punycode digits each, plus the label's
/// `xn--` and `-`, for one character); 256 characters per character of
/// `base` covers both.
pub open spec fn fits_url_offsets(base: Seq<char>, pairs: Seq<(Seq<char>, Seq<char>)>) -> bool {
    256 * base.len() + pairs_budget(pairs) + 16 <= u32::MAX
}

/// The budget of two runs of pairs is the sum of theirs.
proof fn lemma_pairs_budget_concat(
    a: Seq<(Seq<char>, Seq<char>)>,
    b: Seq<(Seq<char>, Seq<char>)>,
)
    ensures
        pairs_budget(a + b) == pairs_budget(a) + pairs_budget(b),
    decreases a.len(),
{
    if a.len() > 0 {
        assert((a + b).skip(1) =~= a.skip(1) + b);
        lemma_pairs_budget_concat(a.skip(1), b);
    }
}

/// The budget of a single pair.
proof fn lemma_pairs_budget_one(k: Seq<char>, v: Seq<char>)
    ensures
        pairs_budget(seq![(k, v)]) == 12 * (k.len() + v.len()) + 2,
{
    let one = seq![(k, v)];
    assert(one.skip(1) =~= Seq::<(Seq<char>, Seq<char>)>::empty());
    assert(pairs_budget(one.skip(1)) == 0);
    assert(one[0] == (k, v));
}

/// The length of the client's `state`, zero when it sent none.
pub open spec fn state_len(state: Option<Seq<char>>) -> int {
    match state {
        Some(s) => s.len() as int,
        None => 0,
    }
}

/// The budget of the `state` pair.
proof fn lemma_state_pair_budget(state: Option<Seq<char>>)
    ensures
        pairs_budget(state_pair(state)) <= 12 * (5 + state_len(state)) + 2,
{
    reveal_strlit("state");
    match state {
        Some(s) => lemma_pairs_budget_one("state"@, s),
        None => {},
    }
}

/// The budget of an error redirect's pairs.
pub proof fn lemma_error_redirect_budget(
    error: Seq<char>,
    description: Seq<char>,
    state: Option<Seq<char>>,
)
    ensures
        pairs_budget(error_redirect_pairs(error, description, state)) <= 12 * (27 + error.len()
            + description.len() + state_len(state)) + 6,
{
    reveal_strlit("error");
    reveal_strlit("error_description");
    let first = seq![("error"@, error)];
    let second = seq![("error_description"@, description)];
    assert(seq![("error"@, error), ("error_description"@, description)] =~= first + second);
    lemma_pairs_budget_concat(first + second, state_pair(state));
    lemma_pairs_budget_concat(first, second);
    lemma_pairs_budget_one("error"@, error);
    lemma_pairs_budget_one("error_description"@, description);
    lemma_state_pair_budget(state);
}

/// The budget of an authorization redirect's pairs.
pub proof fn lemma_code_redirect_budget(code: Seq<char>, state: Option<Seq<char>>)
    ensures
        pairs_budget(code_redirect_pairs(code, state)) <= 12 * (9 + code.len() + state_len(state))
            + 4,
{
    reveal_strlit("code");
    lemma_pairs_budget_concat(seq![("code"@, code)], state_pair(state));
    lemma_pairs_budget_one("code"@, code);
    lemma_state_pair_budget(state);
}

/// Parses `base` with url's `Url::parse`, appends `pairs` with the query
/// serializer's `extend_pairs` and converts the URL to its text. Trusted:
/// the result is what `url_with_query_pairs` names; `None` exactly when the
/// parse fails. When `base` has a fragment, url puts it back after the
/// query and panics if the text before it has outgrown a `u32` offset;
/// `fits_url_offsets` rules that out.
#[verifier::external_body]
fn append_query_pairs(base: &str, pairs: &Vec<(String, String)>) -> (r: Option<String>)
    requires
        fits_url_offsets(base@, pairs.deep_view()),
    ensures
        r.deep_view() == url_with_query_pairs(base@, pairs.deep_view()),
{
    let mut url = url::Url::parse(base).ok()?;
    url.query_pairs_mut().extend_pairs(pairs.iter());
    Some(url.into())
}

// ---------------------------------------------------------------------------
// Tokens and PKCE
// ---------------------------------------------------------------------------

/// Number of random bytes behind an authorization code.
pub const AUTH_CODE_BYTES: usize = 32;

/// Draws `len` random bytes and returns them as unpadded URL-safe base64.
pub fn generate_token(len: usize) -> (r: String)
    requires
        len <= usize::MAX / 2,
    ensures
        exists|bytes: Seq<u8>| bytes.len() == len && r@ == #[trigger] base64_url_no_pad(bytes),
        r@.len() == (4 * len + 2) / 3,
{
    let mut bytes: Vec<u8> = Vec::new();
    let mut i: usize = 0;
    while i < len
        invariant
            i <= len,
            bytes@.len() == i,
        decreases len - i,
    {
        bytes.push(random_byte());
        i = i + 1;
    }
    proof {
        lemma_base64_url_len(bytes@);
    }
    base64_url_encode(bytes.as_slice())
}

/// The S256 PKCE rule: the challenge is the unpadded URL-safe base64 of the
/// SHA-256 of the verifier's UTF-8 bytes.
pub open spec fn pkce_s256_matches(code_verifier: Seq<char>, code_challenge: Seq<char>) -> bool {
    base64_url_no_pad(sha256_digest(vstd::utf8::encode_utf8(code_verifier))) == code_challenge
}

/// Checks a PKCE code verifier against the S256 challenge it must answer.
pub fn verify_pkce_s256(code_verifier: &str, code_challenge: &str) -> (r: bool)
    ensures
        r == pkce_s256_matches(code_verifier@, code_challenge@),
{
    let hash = sha256(code_verifier.as_bytes());
    let computed = base64_url_encode(hash.as_slice());
    str_eq(computed.as_str(), code_challenge)
}

/// Compares two strings in constant time (for the same lengths).
pub fn credentials_equal(given: &str, expected: &str) -> (r: bool)
    ensures
        r == (given@ == expected@),
{
    let r = constant_time_eq(given.as_bytes(), expected.as_bytes());
    proof {
        vstd::utf8::encode_utf8_decode_utf8(given@);
        vstd::utf8::encode_utf8_decode_utf8(expected@);
    }
    r
}

// ---------------------------------------------------------------------------
// Replies
// ---------------------------------------------------------------------------

/// What an OAuth endpoint answers. Every reply carries
/// `Cache-Control: no-store` except `Tokens`, a plain 200 JSON document.
pub enum OAuthReply {
    /// 302 to `location`.
    Redirect { location: String },
    /// A JSON error document `{"error", "error_description"?}` with `status`.
    Error { status: u16, error: String, description: Option<String> },
    /// 200 with `{"access_token", "token_type": "Bearer", "expires_in",
    /// "refresh_token"}`.
    Tokens { access_token: String, refresh_token: String, expires_in: u64 },
}

/// Mathematical value of an [`OAuthReply`].
pub ghost enum ReplyView {
    Redirect { location: Seq<char> },
    Error { status: u16, error: Seq<char>, description: Option<Seq<char>> },
    Tokens { access_token: Seq<char>, refresh_token: Seq<char>, expires_in: u64 },
}

impl View for OAuthReply {
    type V = ReplyView;

    open spec fn view(&self) -> ReplyView {
        match self {
            OAuthReply::Redirect { location } => ReplyView::Redirect { location: location@ },
            OAuthReply::Error { status, error, description } => ReplyView::Error {
                status: *status,
                error: error@,
                description: description.deep_view(),
            },
            OAuthReply::Tokens { access_token, refresh_token, expires_in } => ReplyView::Tokens {
                access_token: access_token@,
                refresh_token: refresh_token@,
                expires_in: *expires_in,
            },
        }
    }
}

/// An error document with a description.
pub open spec fn error_reply(status: u16, error: Seq<char>, description: Seq<char>) -> ReplyView {
    ReplyView::Error { status, error, description: Some(description) }
}

/// A JSON error reply `{"error": error, "error_description": description}`.
pub fn token_error(status: u16, error: &str, description: &str) -> (r: OAuthReply)
    ensures
        r@ == error_reply(status, error@, description@),
{
    OAuthReply::Error {
        status,
        error: error.to_owned(),
        description: Some(description.to_owned()),
    }
}

/// The query pairs an error redirect carries.
pub open spec fn error_redirect_pairs(
    error: Seq<char>,
    description: Seq<char>,
    state: Option<Seq<char>>,
) -> Seq<(Seq<char>, Seq<char>)> {
    seq![("error"@, error), ("error_description"@, description)] + state_pair(state)
}

/// The `state` pair, where the client sent one.
pub open spec fn state_pair(state: Option<Seq<char>>) -> Seq<(Seq<char>, Seq<char>)> {
    match state {
        Some(s) => seq![("state"@, s)],
        None => Seq::empty(),
    }
}

/// The reply that sends an error back to the client's redirect URI, or a
/// 400 where that URI does not parse.
pub open spec fn spec_error_redirect(
    redirect_uri: Seq<char>,
    error: Seq<char>,
    description: Seq<char>,
    state: Option<Seq<char>>,
) -> ReplyView {
    match url_with_query_pairs(redirect_uri, error_redirect_pairs(error, description, state)) {
        Some(location) => ReplyView::Redirect { location },
        None => error_reply(400, "invalid_request"@, "Invalid redirect_uri"@),
    }
}

/// Appends the `state` pair, if any, to `pairs`.
fn push_state(pairs: &mut Vec<(String, String)>, state: Option<&str>)
    ensures
        final(pairs).deep_view() == old(pairs).deep_view() + state_pair(state.deep_view()),
{
    match state {
        Some(s) => {
            pairs.push(("state".to_owned(), s.to_owned()));
        },
        None => {},
    }
    assert(pairs.deep_view() =~= old(pairs).deep_view() + state_pair(state.deep_view()));
}

/// Redirects to `redirect_uri` with `error`, `error_description` and, if
/// given, `state` in the query.
pub fn error_redirect(
    redirect_uri: &str,
    error: &str,
    description: &str,
    state: Option<&str>,
) -> (r: OAuthReply)
    requires
        fits_url_offsets(redirect_uri@, error_redirect_pairs(error@, description@, state.deep_view())),
    ensures
        r@ == spec_error_redirect(redirect_uri@, error@, description@, state.deep_view()),
{
    let mut pairs: Vec<(String, String)> = Vec::new();
    pairs.push(("error".to_owned(), error.to_owned()));
    pairs.push(("error_description".to_owned(), description.to_owned()));
    assert(pairs.deep_view() =~= seq![("error"@, error@), ("error_description"@, description@)]);
    push_state(&mut pairs, state);
    match append_query_pairs(redirect_uri, &pairs) {
        Some(location) => OAuthReply::Redirect { location },
        None => token_error(400, "invalid_request", "Invalid redirect_uri"),
    }
}

/// The query pairs of a successful authorization redirect.
pub open spec fn code_redirect_pairs(code: Seq<char>, state: Option<Seq<char>>) -> Seq<
    (Seq<char>, Seq<char>),
> {
    seq![("code"@, code)] + state_pair(state)
}

/// Redirects to `redirect_uri` with the issued `code` and, if given,
/// `state`; a 400 `invalid_redirect_uri` where the URI does not parse.
pub open spec fn spec_code_redirect(
    redirect_uri: Seq<char>,
    code: Seq<char>,
    state: Option<Seq<char>>,
) -> ReplyView {
    match url_with_query_pairs(redirect_uri, code_redirect_pairs(code, state)) {
        Some(location) => ReplyView::Redirect { location },
        None => ReplyView::Error { status: 400, error: "invalid_redirect_uri"@, description: None },
    }
}

/// Builds the redirect that hands an authorization code to the client.
pub fn code_redirect(redirect_uri: &str, code: &str, state: Option<&str>) -> (r: OAuthReply)
    requires
        fits_url_offsets(redirect_uri@, code_redirect_pairs(code@, state.deep_view())),
    ensures
        r@ == spec_code_redirect(redirect_uri@, code@, state.deep_view()),
{
    let mut pairs: Vec<(String, String)> = Vec::new();
    pairs.push(("code".to_owned(), code.to_owned()));
    assert(pairs.deep_view() =~= seq![("code"@, code@)]);
    push_state(&mut pairs, state);
    match append_query_pairs(redirect_uri, &pairs) {
        Some(location) => OAuthReply::Redirect { location },
        None => OAuthReply::Error {
            status: 400,
            error: "invalid_redirect_uri".to_owned(),
            description: None,
        },
    }
}

/// `"Token signing failed: "` followed by the signing error's text.
pub fn signing_failure(message: &str) -> (r: OAuthReply)
    ensures
        r@ == error_reply(500, "server_error"@, "Token signing failed: "@ + message@),
{
    let description = concat2("Token signing failed: ", message);
    OAuthReply::Error { status: 500, error: "server_error".to_owned(), description: Some(description) }
}

/// The `WWW-Authenticate` challenge that points clients at the protected
/// resource metadata document of `server_url`.
pub open spec fn spec_www_authenticate(server_url: Seq<char>) -> Seq<char> {
    "Bearer resource_metadata=\""@ + server_url + "/.well-known/oauth-protected-resource\""@
}

/// Builds the `WWW-Authenticate` header value for a 401 reply.
pub fn www_authenticate(server_url: &str) -> (r: String)
    ensures
        r@ == spec_www_authenticate(server_url@),
{
    concat3("Bearer resource_metadata=\"", server_url, "/.well-known/oauth-protected-resource\"")
}

} // verus!
