//! The token service: issues and verifies signed, time-limited identity
//! tokens. A token moves from issued to valid to expired; there is no
//! revocation state, so verification is stateless: signature plus expiry,
//! nothing read from the store.

use vstd::prelude::*;
use vstd::string::StringExecFns;

use crate::clock::now_ts;
use crate::error::Error;
use crate::ids::{uuid_text, uuid_to_string};

verus! {

/// How long an issued token stays valid, in seconds: one day.
pub const TOKEN_TTL_SECONDS: i64 = 86400;

#[verifier::ext_equal]
pub ghost struct ClaimsView {
    pub sub: Seq<char>,
    pub email: Seq<char>,
    pub exp: i64,
    pub iat: i64,
}

/// The claims a token carries: the subject (the user id in canonical
/// text), the email, and the expiry and issue instants in epoch seconds.
#[derive(Debug)]
pub struct Claims {
    pub sub: String,
    pub email: String,
    pub exp: i64,
    pub iat: i64,
}

impl View for Claims {
    type V = ClaimsView;

    open spec fn view(&self) -> ClaimsView {
        ClaimsView { sub: self.sub@, email: self.email@, exp: self.exp, iat: self.iat }
    }
}

/// The claims carried by a token whose signature the secret verifies,
/// with no expiry check: a pure function of the token and the secret.
pub uninterp spec fn jwt_payload(token: Seq<char>, secret: Seq<u8>) -> Option<
    (Seq<char>, Seq<char>, i64, i64),
>;

/// The signed token that encoding the given claims with the secret
/// produces: a pure function of the claims and the secret.
pub uninterp spec fn jwt_token(
    sub: Seq<char>,
    email: Seq<char>,
    exp: i64,
    iat: i64,
    secret: Seq<u8>,
) -> Seq<char>;

/// Relies on jsonwebtoken::encode with HS256 and a symmetric secret.
/// HMAC signing and the sorted-map JSON serialization are both
/// deterministic, so the token is a function of the claims and the
/// secret alone; decoding it with the same secret yields the claims back.
/// For an HMAC key, the default header and string-keyed JSON claims,
/// every path of encode is infallible, so a token is always returned.
#[verifier::external_body]
fn jwt_encode(sub: &str, email: &str, exp: i64, iat: i64, secret: &[u8]) -> (r: Option<String>)
    ensures
        r is Some,
        r matches Some(t) ==> t@ == jwt_token(sub@, email@, exp, iat, secret@) && jwt_payload(
            t@,
            secret@,
        ) == Some((sub@, email@, exp, iat)),
{
    let mut m = serde_json::Map::new();
    m.insert("sub".to_string(), serde_json::Value::String(sub.to_string()));
    m.insert("email".to_string(), serde_json::Value::String(email.to_string()));
    m.insert("exp".to_string(), serde_json::Value::from(exp));
    m.insert("iat".to_string(), serde_json::Value::from(iat));
    jsonwebtoken::encode(
        &jsonwebtoken::Header::default(),
        &serde_json::Value::Object(m),
        &jsonwebtoken::EncodingKey::from_secret(secret),
    ).ok()
}

/// Relies on jsonwebtoken::decode with HS256, expiry validation turned
/// off: a pure signature check and claim extraction, a function of the
/// token and the secret alone.
#[verifier::external_body]
fn jwt_decode(token: &str, secret: &[u8]) -> (r: Option<(String, String, i64, i64)>)
    ensures
        r matches Some(c) ==> jwt_payload(token@, secret@) == Some((c.0@, c.1@, c.2, c.3)),
        r is None ==> jwt_payload(token@, secret@) is None,
{
    let mut v = jsonwebtoken::Validation::new(jsonwebtoken::Algorithm::HS256);
    v.validate_exp = false;
    v.required_spec_claims = std::collections::HashSet::new();
    let key = jsonwebtoken::DecodingKey::from_secret(secret);
    let d = jsonwebtoken::decode::<serde_json::Value>(token, &key, &v).ok()?;
    let sub = d.claims.get("sub")?.as_str()?.to_string();
    let email = d.claims.get("email")?.as_str()?.to_string();
    let exp = d.claims.get("exp")?.as_i64()?;
    let iat = d.claims.get("iat")?.as_i64()?;
    Some((sub, email, exp, iat))
}

impl Claims {
    /// The claims of a token issued at `now`: subject and email embedded,
    /// expiry one day later.
    pub fn at(user_id: u128, email: String, now: i64) -> (r: Claims)
        requires
            now + TOKEN_TTL_SECONDS <= i64::MAX,
        ensures
            r@ == (ClaimsView {
                sub: uuid_text(user_id),
                email: email@,
                exp: (now + TOKEN_TTL_SECONDS) as i64,
                iat: now,
            }),
    {
        Claims {
            sub: uuid_to_string(user_id),
            email: email,
            exp: now + TOKEN_TTL_SECONDS,
            iat: now,
        }
    }

    /// The claims of a token issued now.
    pub fn new(user_id: u128, email: String) -> (r: Claims)
        ensures
            r@.sub == uuid_text(user_id),
            r@.email == email@,
            r@.exp as int == r@.iat as int + TOKEN_TTL_SECONDS as int,
    {
        let now = now_ts();
        Claims::at(user_id, email, now)
    }
}

/// Issues a token for the user at the given instant: subject, email,
/// issued-at, and expiry a day later, signed with the secret. Issuing
/// cannot fail.
pub fn create_token_at(user_id: u128, email: &str, secret: &[u8], now: i64) -> (r: Result<
    String,
    Error,
>)
    requires
        now + TOKEN_TTL_SECONDS <= i64::MAX,
    ensures
        r is Ok,
        r matches Ok(t) ==> t@ == jwt_token(
            uuid_text(user_id),
            email@,
            (now + TOKEN_TTL_SECONDS) as i64,
            now,
            secret@,
        ) && jwt_payload(t@, secret@) == Some(
            (uuid_text(user_id), email@, (now + TOKEN_TTL_SECONDS) as i64, now),
        ),
{
    let claims = Claims::at(user_id, String::from_str(email), now);
    match jwt_encode(claims.sub.as_str(), claims.email.as_str(), claims.exp, claims.iat, secret) {
        Some(t) => Ok(t),
        None => {
            proof {
                assert(false);
            }
            Err(Error::StoreUnavailable)
        },
    }
}

/// Issues a token for the user now. Issuing cannot fail.
pub fn create_token(user_id: u128, email: &str, secret: &[u8]) -> (r: Result<String, Error>)
    ensures
        r is Ok,
        r matches Ok(t) ==> (jwt_payload(t@, secret@) matches Some(p) && p.0 == uuid_text(user_id)
            && p.1 == email@ && p.2 as int == p.3 as int + TOKEN_TTL_SECONDS as int),
{
    let now = now_ts();
    create_token_at(user_id, email, secret, now)
}

/// What verifying a token at instant `now` yields: its claims when the
/// signature holds and the expiry lies ahead, nothing otherwise.
pub open spec fn token_verdict(token: Seq<char>, secret: Seq<u8>, now: i64) -> Option<ClaimsView> {
    match jwt_payload(token, secret) {
        Some(p) => if now < p.2 {
            Some(ClaimsView { sub: p.0, email: p.1, exp: p.2, iat: p.3 })
        } else {
            None
        },
        None => None,
    }
}

/// Verifies signature and expiry against the given instant. Every
/// failure reads as one kind: no caller learns why a token was refused.
pub fn verify_token_at(token: &str, secret: &[u8], now: i64) -> (r: Result<Claims, Error>)
    ensures
        match r {
            Ok(c) => token_verdict(token@, secret@, now) == Some(c@),
            Err(e) => token_verdict(token@, secret@, now) is None && e == Error::Unauthenticated,
        },
{
    match jwt_decode(token, secret) {
        Some((sub, email, exp, iat)) => {
            if now < exp {
                let c = Claims { sub: sub, email: email, exp: exp, iat: iat };
                proof {
                    assert(token_verdict(token@, secret@, now) == Some(c@));
                }
                Ok(c)
            } else {
                Err(Error::Unauthenticated)
            }
        },
        None => Err(Error::Unauthenticated),
    }
}

/// Verifies signature and expiry against the clock.
pub fn verify_token(token: &str, secret: &[u8]) -> (r: Result<Claims, Error>)
    ensures
        r matches Ok(c) ==> jwt_payload(token@, secret@) == Some((c@.sub, c@.email, c@.exp, c@.iat)),
        r matches Err(e) ==> e == Error::Unauthenticated,
{
    let now = now_ts();
    verify_token_at(token, secret, now)
}

} // verus!
