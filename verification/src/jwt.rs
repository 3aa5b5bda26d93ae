use vstd::prelude::*;

verus! {

/// How long an issued token stays valid, in seconds.
pub const TOKEN_LIFETIME_SECS: u64 = 600;

/// The claims carried inside a bearer token: when it was issued and
/// when it expires, as Unix timestamps.
#[derive(Debug)]
pub struct Claims {
    pub iat: u64,
    pub exp: u64,
}

impl Claims {
    /// Is this claims set stale at the given instant? Stale strictly
    /// after the expiry second, never at it.
    pub fn expired_at(&self, now: i64) -> (r: bool)
        ensures
            r == token_expired(self.exp, now),
    {
        now >= 0 && now as u64 > self.exp
    }
}

/// The signed token that jsonwebtoken's HS256 encoding produces for the
/// claims `{iat, exp}` under the given secret.
pub uninterp spec fn jwt_token_of(iat: u64, exp: u64, secret: Seq<char>) -> Seq<char>;

/// What decoding a token under a secret yields: the `{iat, exp}` claims
/// when the signature checks out, and nothing otherwise.
pub uninterp spec fn jwt_claims_of(token: Seq<char>, secret: Seq<char>) -> Option<(u64, u64)>;

/// Relies on chrono::Utc::now for the current Unix timestamp in
/// seconds: the call aborts rather than hand back an instant before
/// the Unix epoch (or outside chrono's date range), so a returned
/// timestamp is never negative.
#[verifier::external_body]
pub(crate) fn now_ts() -> (r: i64)
    ensures
        0 <= r,
{
    chrono::Utc::now().timestamp()
}

/// Relies on jsonwebtoken::encode with the default (HS256) header: the
/// call always succeeds for a secret key — HMAC accepts keys of any
/// length, the header and the two-field claims map serialize
/// infallibly, and HMAC-SHA256 signing cannot fail — the token is a
/// deterministic function of the claims and the secret, it is never
/// empty (three dot-joined base64 parts), and decoding it with the same
/// secret yields the claims back.
#[verifier::external_body]
fn encode_claims(iat: u64, exp: u64, secret: &str) -> (r: Result<String, ()>)
    ensures
        r is Ok,
        r is Ok ==> r->Ok_0@ == jwt_token_of(iat, exp, secret@),
        r is Ok ==> r->Ok_0@.len() > 0,
        r is Ok ==> jwt_claims_of(jwt_token_of(iat, exp, secret@), secret@) == Some((iat, exp)),
{
    let mut claims = serde_json::Map::new();
    claims.insert("iat".to_string(), serde_json::Value::from(iat));
    claims.insert("exp".to_string(), serde_json::Value::from(exp));
    let key = jsonwebtoken::EncodingKey::from_secret(secret.as_bytes());
    let header = jsonwebtoken::Header::default();
    match jsonwebtoken::encode(&header, &serde_json::Value::Object(claims), &key) {
        Ok(token) => Ok(token),
        Err(_) => Err(()),
    }
}

/// Relies on jsonwebtoken::decode with HS256 and expiry validation turned
/// off: whether the signature checks out, and which claims come back,
/// depend on the token and the secret alone. The expiry decision is made
/// by the caller.
#[verifier::external_body]
fn decode_claims(token: &str, secret: &str) -> (r: Option<(u64, u64)>)
    ensures
        r == jwt_claims_of(token@, secret@),
{
    let key = jsonwebtoken::DecodingKey::from_secret(secret.as_bytes());
    let mut validation = jsonwebtoken::Validation::new(jsonwebtoken::Algorithm::HS256);
    validation.validate_exp = false;
    validation.required_spec_claims = std::collections::HashSet::new();
    let claims = match jsonwebtoken::decode::<serde_json::Value>(token, &key, &validation) {
        Ok(data) => data.claims,
        Err(_) => return None,
    };
    let iat = claims.get("iat").and_then(serde_json::Value::as_u64);
    let exp = claims.get("exp").and_then(serde_json::Value::as_u64);
    match (iat, exp) {
        (Some(iat), Some(exp)) => Some((iat, exp)),
        _ => None,
    }
}

/// The claims a well-signed token yields under a secret, as a value.
pub fn token_claims(token: &str, secret: &str) -> (r: Option<Claims>)
    ensures
        match r {
            Some(c) => jwt_claims_of(token@, secret@) == Some((c.iat, c.exp)),
            None => jwt_claims_of(token@, secret@) is None,
        },
{
    match decode_claims(token, secret) {
        Some((iat, exp)) => Some(Claims { iat, exp }),
        None => None,
    }
}

/// Is a token carrying the given expiry stale at the given instant?
/// A token is rejected strictly after its expiry second, and accepted
/// at the expiry second itself.
pub open spec fn token_expired(exp: u64, now: i64) -> bool {
    now > exp
}

/// Issue a token at the given instant: claims `{iat: now, exp: now + 10
/// minutes}`, signed under the secret. Yields a token for every
/// instant from the Unix epoch on, and nothing before it.
pub fn create_jwt_at(secret: &str, now: i64) -> (r: Option<String>)
    ensures
        r is Some <==> 0 <= now,
        r is Some ==> r->0@ == jwt_token_of(now as u64, (now + TOKEN_LIFETIME_SECS) as u64, secret@),
        r is Some ==> r->0@.len() > 0,
        r is Some ==> jwt_claims_of(r->0@, secret@) == Some(
            (now as u64, (now + TOKEN_LIFETIME_SECS) as u64),
        ),
{
    if now < 0 {
        return None;
    }
    let iat: u64 = now as u64;
    let exp: u64 = iat + TOKEN_LIFETIME_SECS;
    match encode_claims(iat, exp, secret) {
        Ok(token) => Some(token),
        Err(_) => None,
    }
}

/// The token was issued at instant `t`: it is the signed form of the
/// claims `{iat: t, exp: t + 10 minutes}` under the secret, and decodes
/// back to them.
pub open spec fn issued_at(token: Seq<char>, secret: Seq<char>, t: i64) -> bool {
    &&& 0 <= t
    &&& token == jwt_token_of(t as u64, (t + TOKEN_LIFETIME_SECS) as u64, secret)
    &&& jwt_claims_of(token, secret) == Some((t as u64, (t + TOKEN_LIFETIME_SECS) as u64))
}

/// Issue a token for the current instant, as read from the system clock.
pub fn create_jwt(secret: &str) -> (r: Option<String>)
    ensures
        r is Some,
        r is Some ==> exists|t: i64| issued_at(r->0@, secret@, t),
        r is Some ==> r->0@.len() > 0,
{
    let now = now_ts();
    let r = create_jwt_at(secret, now);
    proof {
        if r is Some {
            assert(issued_at(r->0@, secret@, now));
        }
    }
    r
}

/// The three verdicts on a presented token, with the user-facing message
/// each carries.
#[derive(Debug)]
pub enum TokenVerdict {
    Valid,
    Expired,
    Invalid,
}

/// What `is_valid_jwt` decides about a token at a given instant, over
/// what decoding yields for it.
pub open spec fn token_verdict(decoded: Option<(u64, u64)>, now: i64) -> TokenVerdict {
    match decoded {
        Some((iat, exp)) => if token_expired(exp, now) {
            TokenVerdict::Expired
        } else {
            TokenVerdict::Valid
        },
        None => TokenVerdict::Invalid,
    }
}

/// The message a verdict surfaces: recovery advice for an expired
/// session, a deliberately generic message for everything else invalid.
pub open spec fn verdict_message(v: TokenVerdict) -> Seq<char> {
    match v {
        TokenVerdict::Valid => "OK"@,
        TokenVerdict::Expired => "Your session has expired, please log in again"@,
        TokenVerdict::Invalid => "Something went wrong on the server side"@,
    }
}

/// Check a token at the given instant: the signature must verify and the
/// expiry second must not lie strictly in the past.
pub fn is_valid_jwt_at(token: &str, secret: &str, now: i64) -> (r: (bool, String))
    ensures
        r.0 == (token_verdict(jwt_claims_of(token@, secret@), now) is Valid),
        r.1@ == verdict_message(token_verdict(jwt_claims_of(token@, secret@), now)),
{
    match decode_claims(token, secret) {
        Some((_iat, exp)) => {
            if now >= 0 && now as u64 > exp {
                (false, "Your session has expired, please log in again".to_owned())
            } else {
                (true, "OK".to_owned())
            }
        },
        None => (false, "Something went wrong on the server side".to_owned()),
    }
}

/// Check a token against the system clock.
pub fn is_valid_jwt(token: &str, secret: &str) -> (r: (bool, String))
    ensures
        exists|t: i64|
            r.0 == (token_verdict(jwt_claims_of(token@, secret@), t) is Valid) && r.1@
                == verdict_message(token_verdict(jwt_claims_of(token@, secret@), t)),
{
    let now = now_ts();
    let r = is_valid_jwt_at(token, secret, now);
    proof {
        assert(r.0 == (token_verdict(jwt_claims_of(token@, secret@), now) is Valid) && r.1@
            == verdict_message(token_verdict(jwt_claims_of(token@, secret@), now)));
    }
    r
}

} // verus!
