//! Signed access and refresh tokens (HS256 JSON Web Tokens).
use vstd::prelude::*;
use crate::text::str_eq;

verus! {

#[verifier::external_type_specification]
#[verifier::external_body]
pub struct ExJwtError(jsonwebtoken::errors::Error);

#[verifier::external_type_specification]
#[verifier::external_body]
#[verifier::reject_recursive_types(K)]
#[verifier::reject_recursive_types(V)]
pub struct ExJsonMap<K, V>(serde_json::Map<K, V>);

#[verifier::external_type_specification]
#[verifier::external_body]
pub struct ExJsonValue(serde_json::Value);

/// Lifetime of an access token, in seconds.
pub const ACCESS_TOKEN_TTL_SECS: u64 = 3600;

/// Lifetime of a refresh token, in seconds (seven days).
pub const REFRESH_TOKEN_TTL_SECS: u64 = 604800;

/// The claims a token carries.
pub struct TokenClaims {
    /// `"access"` or `"refresh"`.
    pub sub: String,
    pub exp: u64,
    pub iat: u64,
    /// Present in refresh tokens only.
    pub client_id: Option<String>,
}

/// Mathematical value of [`TokenClaims`].
pub ghost struct ClaimsView {
    pub sub: Seq<char>,
    pub exp: u64,
    pub iat: u64,
    pub client_id: Option<Seq<char>>,
}

impl View for TokenClaims {
    type V = ClaimsView;

    open spec fn view(&self) -> ClaimsView {
        ClaimsView {
            sub: self.sub@,
            exp: self.exp,
            iat: self.iat,
            client_id: self.client_id.deep_view(),
        }
    }
}

/// What a JSON claim value is, as far as the claims reader cares.
pub ghost enum JsonClaim {
    Null,
    Str(Seq<char>),
    /// A number that is a non-negative integer within `u64`.
    Num(u64),
    /// Any other number, a boolean, an array or an object.
    Other,
}

/// One claim of a decoded payload, as the reader sees it.
pub enum ClaimValue {
    Absent,
    Null,
    Str(String),
    Num(u64),
    Other,
}

/// The claims of a decoded JSON object: for each key, the kind of its value.
pub uninterp spec fn json_claims(m: serde_json::Map<String, serde_json::Value>) -> Map<
    Seq<char>,
    JsonClaim,
>;

/// The compact HS256 JWT that jsonwebtoken's `encode` writes for the default
/// header and a JSON object holding `sub`, `exp`, `iat` and (when present)
/// `client_id`, in that order, signed with `secret`.
pub uninterp spec fn hs256_jwt(
    sub: Seq<char>,
    exp: u64,
    iat: u64,
    client_id: Option<Seq<char>>,
    secret: Seq<u8>,
) -> Seq<char>;

/// Calls jsonwebtoken's `encode` with the default (HS256) header on a JSON
/// object of the given claims (`client_id` left out when absent), keyed by
/// `EncodingKey::from_secret(secret)`. Trusted: it succeeds, and the token is
/// the one `hs256_jwt` names. `encode` fails only when the key's algorithm
/// family differs from the header's (both are HMAC here) or when serde_json
/// cannot serialize the header or claims (a struct of strings and a map of
/// strings and integers, written to a `Vec`); HS256 signing itself
/// (`crypto::sign_hmac`) cannot fail.
#[verifier::external_body]
fn encode_claims(
    sub: &str,
    exp: u64,
    iat: u64,
    client_id: Option<&str>,
    secret: &[u8],
) -> (r: Result<String, jsonwebtoken::errors::Error>)
    ensures
        r is Ok,
        r matches Ok(t) ==> t@ == hs256_jwt(sub@, exp, iat, client_id.deep_view(), secret@),
{
    let mut claims = serde_json::Map::new();
    claims.insert("sub".to_string(), sub.into());
    claims.insert("exp".to_string(), exp.into());
    claims.insert("iat".to_string(), iat.into());
    if let Some(c) = client_id {
        claims.insert("client_id".to_string(), c.into());
    }
    let key = jsonwebtoken::EncodingKey::from_secret(secret);
    jsonwebtoken::encode(&jsonwebtoken::Header::default(), &claims, &key)
}

/// The JSON object of claims that `encode_claims` signs: `sub`, `exp`,
/// `iat` and, when present, `client_id`.
pub open spec fn claims_json(c: ClaimsView) -> Map<Seq<char>, JsonClaim> {
    let base = Map::<Seq<char>, JsonClaim>::empty().insert("sub"@, JsonClaim::Str(c.sub)).insert(
        "exp"@,
        JsonClaim::Num(c.exp),
    ).insert("iat"@, JsonClaim::Num(c.iat));
    match c.client_id {
        Some(id) => base.insert("client_id"@, JsonClaim::Str(id)),
        None => base,
    }
}

/// Calls jsonwebtoken's `decode` into a JSON object, with
/// `Validation::new(HS256)` requiring the `exp`, `sub` and `iat` claims and
/// `DecodingKey::from_secret(secret)`. Whether it succeeds depends on the
/// clock (expiry), so only what holds of every success is stated: the
/// validation found `exp` and a string `sub`, and a token that `encode_claims`
/// wrote with this secret decodes to exactly the claims it was written with
/// (the signature binds the payload, and serde_json reads back the strings
/// and integers it wrote). The expiry check reads the clock through
/// `get_current_timestamp`, which panics when the clock reads before the
/// Unix epoch.
#[verifier::external_body]
pub(crate) fn decode_claims(token: &str, secret: &[u8]) -> (r: Result<
    serde_json::Map<String, serde_json::Value>,
    jsonwebtoken::errors::Error,
>)
    ensures
        r matches Ok(m) ==> json_claims(m).dom().contains("exp"@),
        r matches Ok(m) ==> json_claims(m).dom().contains("sub"@) && json_claims(m)["sub"@] is Str,
        r matches Ok(m) ==> forall|sub: Seq<char>, exp: u64, iat: u64, client_id: Option<Seq<char>>|
            #[trigger] hs256_jwt(sub, exp, iat, client_id, secret@) == token@ ==> json_claims(m)
                == claims_json(ClaimsView { sub, exp, iat, client_id }),
{
    let mut validation = jsonwebtoken::Validation::new(jsonwebtoken::Algorithm::HS256);
    validation.set_required_spec_claims(&["exp", "sub", "iat"]);
    let key = jsonwebtoken::DecodingKey::from_secret(secret);
    jsonwebtoken::decode::<serde_json::Map<String, serde_json::Value>>(token, &key, &validation).map(
        |data| data.claims,
    )
}

/// Looks `key` up in a decoded JSON object with serde_json's `Map::get` and
/// tells the value's kind apart (`Number::as_u64` for numbers). Trusted: the
/// answer agrees with `json_claims`.
#[verifier::external_body]
fn claim(m: &serde_json::Map<String, serde_json::Value>, key: &str) -> (r: ClaimValue)
    ensures
        match r {
            ClaimValue::Absent => !json_claims(*m).dom().contains(key@),
            ClaimValue::Null => json_claims(*m).dom().contains(key@) && json_claims(*m)[key@]
                == JsonClaim::Null,
            ClaimValue::Str(s) => json_claims(*m).dom().contains(key@) && json_claims(*m)[key@]
                == JsonClaim::Str(s@),
            ClaimValue::Num(n) => json_claims(*m).dom().contains(key@) && json_claims(*m)[key@]
                == JsonClaim::Num(n),
            ClaimValue::Other => json_claims(*m).dom().contains(key@) && json_claims(*m)[key@]
                == JsonClaim::Other,
        },
{
    match m.get(key) {
        None => ClaimValue::Absent,
        Some(serde_json::Value::Null) => ClaimValue::Null,
        Some(serde_json::Value::String(s)) => ClaimValue::Str(s.clone()),
        Some(serde_json::Value::Number(n)) => match n.as_u64() {
            Some(v) => ClaimValue::Num(v),
            None => ClaimValue::Other,
        },
        Some(_) => ClaimValue::Other,
    }
}

/// Calls jsonwebtoken's `get_current_timestamp` (seconds since the Unix
/// epoch). Nothing is stated: it reads the clock. jsonwebtoken panics when
/// the system clock reads before the epoch; that is the machine's state,
/// not an argument, so no `requires` can exclude it.
#[verifier::external_body]
pub(crate) fn current_timestamp() -> (r: u64) {
    jsonwebtoken::get_current_timestamp()
}

/// Converts a jsonwebtoken error to its display text. Nothing is stated of
/// the text.
#[verifier::external_body]
pub(crate) fn jwt_error_text(e: &jsonwebtoken::errors::Error) -> (r: String) {
    e.to_string()
}

// ---------------------------------------------------------------------------
// Claims
// ---------------------------------------------------------------------------

/// Reads typed claims from a decoded payload: `sub` a string, `exp` and
/// `iat` non-negative integers, `client_id` a string, `null` or absent.
/// Other keys are ignored.
pub open spec fn claims_from_json(j: Map<Seq<char>, JsonClaim>) -> Option<ClaimsView> {
    if j.dom().contains("sub"@) && j["sub"@] is Str && j.dom().contains("exp"@)
        && j["exp"@] is Num && j.dom().contains("iat"@) && j["iat"@] is Num && (!j.dom().contains(
        "client_id"@,
    ) || j["client_id"@] is Null || j["client_id"@] is Str) {
        Some(
            ClaimsView {
                sub: j["sub"@]->Str_0,
                exp: j["exp"@]->Num_0,
                iat: j["iat"@]->Num_0,
                client_id: if j.dom().contains("client_id"@) && j["client_id"@] is Str {
                    Some(j["client_id"@]->Str_0)
                } else {
                    None
                },
            },
        )
    } else {
        None
    }
}

/// The typed claims of a decoded payload, if it has the right shape.
pub fn read_claims(m: &serde_json::Map<String, serde_json::Value>) -> (r: Option<TokenClaims>)
    ensures
        match r {
            Some(c) => claims_from_json(json_claims(*m)) == Some(c@),
            None => claims_from_json(json_claims(*m)) is None,
        },
{
    let sub = match claim(m, "sub") {
        ClaimValue::Str(s) => s,
        _ => return None,
    };
    let exp = match claim(m, "exp") {
        ClaimValue::Num(n) => n,
        _ => return None,
    };
    let iat = match claim(m, "iat") {
        ClaimValue::Num(n) => n,
        _ => return None,
    };
    let client_id = match claim(m, "client_id") {
        ClaimValue::Absent => None,
        ClaimValue::Null => None,
        ClaimValue::Str(s) => Some(s),
        _ => return None,
    };
    Some(TokenClaims { sub, exp, iat, client_id })
}

/// Claims of an access token issued at `now`.
pub open spec fn access_claims(now: u64) -> ClaimsView {
    ClaimsView { sub: "access"@, exp: (now + ACCESS_TOKEN_TTL_SECS) as u64, iat: now, client_id: None }
}

/// Claims of a refresh token for `client_id` issued at `now`.
pub open spec fn refresh_claims(now: u64, client_id: Seq<char>) -> ClaimsView {
    ClaimsView {
        sub: "refresh"@,
        exp: (now + REFRESH_TOKEN_TTL_SECS) as u64,
        iat: now,
        client_id: Some(client_id),
    }
}

/// The token that carries `c`, signed with `secret`.
pub open spec fn signed_token(c: ClaimsView, secret: Seq<u8>) -> Seq<char> {
    hs256_jwt(c.sub, c.exp, c.iat, c.client_id, secret)
}

/// Decoded claims pass as an access token.
pub open spec fn accepts_as_access(j: Map<Seq<char>, JsonClaim>) -> bool {
    claims_from_json(j) matches Some(c) && c.sub == "access"@
}

/// The client a refresh token was issued to, if the decoded claims pass as
/// a refresh token that names one.
pub open spec fn refresh_client(j: Map<Seq<char>, JsonClaim>) -> Option<Seq<char>> {
    match claims_from_json(j) {
        Some(c) => if c.sub == "refresh"@ {
            c.client_id
        } else {
            None
        },
        None => None,
    }
}

/// Whether the outcome of decoding a token lets it through as an access
/// token.
pub fn access_accepted(
    decoded: &Result<serde_json::Map<String, serde_json::Value>, jsonwebtoken::errors::Error>,
) -> (r: bool)
    ensures
        r == (decoded matches Ok(m) && accepts_as_access(json_claims(*m))),
{
    match decoded {
        Ok(m) => match read_claims(m) {
            Some(c) => str_eq(c.sub.as_str(), "access"),
            None => false,
        },
        Err(_) => false,
    }
}

/// The client id a decoded refresh token carries, if it passes as one.
pub fn refresh_accepted(
    decoded: &Result<serde_json::Map<String, serde_json::Value>, jsonwebtoken::errors::Error>,
) -> (r: Option<String>)
    ensures
        r.deep_view() == match decoded {
            Ok(m) => refresh_client(json_claims(*m)),
            Err(_) => None,
        },
{
    match decoded {
        Ok(m) => match read_claims(m) {
            Some(c) => if str_eq(c.sub.as_str(), "refresh") {
                c.client_id
            } else {
                None
            },
            None => None,
        },
        Err(_) => None,
    }
}

/// Signs the access-token claims for issue time `now`.
pub fn sign_access_token(secret: &[u8], now: u64) -> (r: Result<String, jsonwebtoken::errors::Error>)
    requires
        now + ACCESS_TOKEN_TTL_SECS <= u64::MAX,
    ensures
        r is Ok,
        r matches Ok(t) ==> t@ == signed_token(access_claims(now), secret@),
{
    encode_claims("access", now + ACCESS_TOKEN_TTL_SECS, now, None, secret)
}

/// Signs the refresh-token claims for `client_id` and issue time `now`.
pub fn sign_refresh_token(secret: &[u8], client_id: &str, now: u64) -> (r: Result<
    String,
    jsonwebtoken::errors::Error,
>)
    requires
        now + REFRESH_TOKEN_TTL_SECS <= u64::MAX,
    ensures
        r is Ok,
        r matches Ok(t) ==> t@ == signed_token(refresh_claims(now, client_id@), secret@),
{
    encode_claims("refresh", now + REFRESH_TOKEN_TTL_SECS, now, Some(client_id), secret)
}

/// The claims reader reads back exactly the claims the writer signs.
pub proof fn lemma_claims_read_back(c: ClaimsView)
    ensures
        claims_from_json(claims_json(c)) == Some(c),
{
    reveal_strlit("sub");
    reveal_strlit("exp");
    reveal_strlit("iat");
    reveal_strlit("client_id");
    let j = claims_json(c);
    assert("sub"@ != "exp"@ && "sub"@ != "iat"@ && "exp"@ != "iat"@) by {
        assert("sub"@[0] != "exp"@[0] && "sub"@[0] != "iat"@[0] && "exp"@[0] != "iat"@[0]);
    }
    assert("client_id"@ != "sub"@ && "client_id"@ != "exp"@ && "client_id"@ != "iat"@) by {
        assert("client_id"@.len() != "sub"@.len());
    }
    assert(j["sub"@] == JsonClaim::Str(c.sub));
    assert(j["exp"@] == JsonClaim::Num(c.exp));
    assert(j["iat"@] == JsonClaim::Num(c.iat));
}

/// A token can never pass both as an access token and as a refresh token:
/// the two checks ask for different `sub` claims of the same payload.
pub proof fn lemma_access_and_refresh_exclusive(j: Map<Seq<char>, JsonClaim>)
    ensures
        accepts_as_access(j) ==> refresh_client(j) is None,
{
    reveal_strlit("access");
    reveal_strlit("refresh");
    if accepts_as_access(j) {
        let c = claims_from_json(j)->Some_0;
        assert(c.sub[0] == 'a');
        assert(c.sub != "refresh"@) by {
            assert("refresh"@[0] == 'r');
        }
    }
}

} // verus!
