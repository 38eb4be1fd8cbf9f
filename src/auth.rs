//! Credentials: the claims a signed token carries, and the verifier that
//! admits a token while it is unexpired.
use vstd::prelude::*;
use crate::error::BridgeError;

verus! {

/// How long an issued token stays valid, in seconds: one day.
pub const TOKEN_LIFETIME_SECS: u64 = 86400;

/// The subject every issued token names.
pub const ADMIN_SUBJECT: &'static str = "admin";

/// The claims of a credential token: who it names, when it expires and when
/// it was issued, as Unix timestamps in seconds.
#[derive(Clone, Debug, PartialEq, Eq)]
pub struct Claims {
    pub sub: String,
    pub exp: usize,
    pub iat: usize,
}

/// The persisted login state: a password hash and a one-time-code secret.
#[derive(Clone, Debug, PartialEq, Eq)]
pub struct AuthStore {
    pub password_hash: String,
    pub totp_secret: String,
    pub setup_complete: bool,
}

#[derive(Clone, Debug, PartialEq, Eq)]
pub struct LoginRequest {
    pub password: String,
    pub code: String,
}

#[derive(Clone, Debug, PartialEq, Eq)]
pub struct SetupRequest {
    pub password: String,
    pub code: String,
    pub secret: String,
}

/// The claims, as `(subject, expiry, issued-at)`, that jsonwebtoken finds in
/// `token` when its HS256 signature verifies under `secret`; `None` when the
/// token is malformed, wrongly signed or lacks them.
pub uninterp spec fn hs256_claims(token: Seq<char>, secret: Seq<u8>) -> Option<(Seq<char>, int, int)>;

pub open spec fn claims_view(c: Option<Claims>) -> Option<(Seq<char>, int, int)> {
    match c {
        Some(c) => Some((c.sub@, c.exp as int, c.iat as int)),
        None => None,
    }
}

pub open spec fn subject_view(r: Result<String, BridgeError>) -> Result<Seq<char>, BridgeError> {
    match r {
        Ok(s) => Ok(s@),
        Err(e) => Err(e),
    }
}

/// Relies on jsonwebtoken::decode, with HS256 and with its own expiry check
/// switched off so that its answer depends on the token and the key alone,
/// and on serde_json::Value's `get`, `as_str` and `as_u64` to read the
/// decoded payload: the claims come back when the signature verifies and the
/// payload holds a string `sub` and unsigned integers `exp` and `iat`.
#[verifier::external_body]
fn decode_hs256(token: &str, secret: &[u8]) -> (r: Option<Claims>)
    ensures
        claims_view(r) == hs256_claims(token@, secret@),
{
    let mut rules = jsonwebtoken::Validation::new(jsonwebtoken::Algorithm::HS256);
    rules.validate_exp = false;
    let key = jsonwebtoken::DecodingKey::from_secret(secret);
    let data = jsonwebtoken::decode::<serde_json::Value>(token, &key, &rules).ok()?;
    let sub = data.claims.get("sub")?.as_str()?.to_string();
    let exp = data.claims.get("exp")?.as_u64()? as usize;
    let iat = data.claims.get("iat")?.as_u64()? as usize;
    Some(Claims { sub, exp, iat })
}

/// A token is admitted, naming its subject, when its claims could be read and
/// `now` lies strictly before its expiry.
pub open spec fn credential_outcome(decoded: Option<(Seq<char>, int, int)>, now: u64) -> Result<
    Seq<char>,
    BridgeError,
> {
    match decoded {
        Some(c) => if now < c.1 {
            Ok(c.0)
        } else {
            Err(BridgeError::Unauthenticated)
        },
        None => Err(BridgeError::Unauthenticated),
    }
}

/// Admits decoded claims that are unexpired at `now`.
pub fn check_claims(decoded: Option<Claims>, now: u64) -> (r: Result<String, BridgeError>)
    ensures
        subject_view(r) == credential_outcome(claims_view(decoded), now),
{
    match decoded {
        Some(c) => {
            if now < c.exp as u64 {
                Ok(c.sub)
            } else {
                Err(BridgeError::Unauthenticated)
            }
        },
        None => Err(BridgeError::Unauthenticated),
    }
}

/// The credential verifier: the token's subject when its signature verifies
/// under `secret` and it is unexpired at `now`.
pub fn verify_credential(token: &str, secret: &[u8], now: u64) -> (r: Result<String, BridgeError>)
    ensures
        subject_view(r) == credential_outcome(hs256_claims(token@, secret@), now),
{
    check_claims(decode_hs256(token, secret), now)
}

/// Credentials: a token whose signature and claims check is admitted, naming
/// its subject, exactly while `now` lies before its expiry; once `now`
/// reaches the expiry it is refused as unauthenticated, and so is every token
/// whose signature does not verify, whatever its expiry.
pub proof fn credential_admits_until_expiry(token: Seq<char>, secret: Seq<u8>, now: u64)
    ensures
        ({
            let decoded = hs256_claims(token, secret);
            let outcome = credential_outcome(decoded, now);
            &&& decoded is Some && now < decoded.unwrap().1 ==> outcome == Ok::<
                Seq<char>,
                BridgeError,
            >(decoded.unwrap().0)
            &&& decoded is Some && decoded.unwrap().1 <= now ==> outcome == Err::<
                Seq<char>,
                BridgeError,
            >(BridgeError::Unauthenticated)
            &&& decoded is None ==> outcome == Err::<Seq<char>, BridgeError>(
                BridgeError::Unauthenticated,
            )
        }),
{
}

/// The claims of a token issued at `now`: subject `admin`, valid for one day.
/// `None` when the expiry would not fit in a `usize`.
pub fn issue_claims(now: u64) -> (r: Option<Claims>)
    ensures
        r is Some <==> now as int + TOKEN_LIFETIME_SECS <= usize::MAX,
        r matches Some(c) ==> c.sub@ == ADMIN_SUBJECT@ && c.iat == now && c.exp == now as int
            + TOKEN_LIFETIME_SECS,
{
    if now > usize::MAX as u64 || now as usize > usize::MAX - TOKEN_LIFETIME_SECS as usize {
        return None;
    }
    Some(Claims { sub: ADMIN_SUBJECT.to_owned(), exp: now as usize + TOKEN_LIFETIME_SECS as usize, iat: now as usize })
}

} // verus!
