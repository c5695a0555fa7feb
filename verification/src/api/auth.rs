//! Control-panel authentication: API tokens, bearer verification, password
//! hashing, and the HS256 JSON Web Tokens of panel sessions.
use vstd::prelude::*;

use crate::api::openai_types::unix_now;
use crate::error::ZeptoError;
use crate::text::{chars_of, is_prefix, push_str, str_eq, string_from_char_range, to_owned_string};

verus! {

/// `c` is a lower-case hexadecimal digit.
pub open spec fn is_lower_hex(c: char) -> bool {
    ('0' <= c && c <= '9') || ('a' <= c && c <= 'f')
}

/// A fresh random UUID (`uuid::Uuid::new_v4`) in its simple form (no
/// hyphens), which the crate's formatter writes as 32 lower-case hex digits.
/// The value is random; only its shape is claimed.
#[verifier::external_body]
pub(crate) fn random_uuid_simple() -> (s: String)
    ensures
        s@.len() == 32,
        forall|i: int| 0 <= i < 32 ==> is_lower_hex(#[trigger] s@[i]),
{
    uuid::Uuid::new_v4().simple().to_string()
}

/// A random 64-character lower-case hex API token (two UUID v4 values).
pub fn generate_api_token() -> (t: String)
    ensures
        t@.len() == 64,
        forall|i: int| 0 <= i < 64 ==> is_lower_hex(#[trigger] t@[i]),
{
    let a = random_uuid_simple();
    let b = random_uuid_simple();
    let ac = chars_of(a.as_str());
    let bc = chars_of(b.as_str());
    let mut t = string_from_char_range(ac.as_slice(), 0, 32);
    let tail = string_from_char_range(bc.as_slice(), 0, 32);
    push_str(&mut t, tail.as_str());
    assert forall|i: int| 0 <= i < 64 implies is_lower_hex(#[trigger] t@[i]) by {
        if i < 32 {
            assert(t@[i] == a@[i]);
        } else {
            assert(t@[i] == b@[i - 32]);
        }
    }
    t
}

/// The outcome of checking an `Authorization` header against the expected
/// token: the `Bearer ` prefix (case-sensitive) must be present and the rest
/// must equal the token.
pub open spec fn bearer_check(header: Seq<char>, expected: Seq<char>) -> Result<(), Seq<char>> {
    if !is_prefix("Bearer "@, header) {
        Err("missing Bearer prefix"@)
    } else if header.skip(7) == expected {
        Ok(())
    } else {
        Err("invalid API token"@)
    }
}

/// Verifies an `Authorization: Bearer <token>` header value against the
/// expected token; failures are `Unauthorized` errors.
pub fn verify_bearer_token(header: &str, expected: &str) -> (r: Result<(), ZeptoError>)
    ensures
        match bearer_check(header@, expected@) {
            Ok(()) => r is Ok,
            Err(m) => r matches Err(ZeptoError::Unauthorized(e)) && e@ == m,
        },
{
    let hc = chars_of(header);
    let prefix = chars_of("Bearer ");
    proof {
        reveal_strlit("Bearer ");
    }
    if !crate::text::starts_with_chars(hc.as_slice(), prefix.as_slice()) {
        return Err(ZeptoError::Unauthorized(to_owned_string("missing Bearer prefix")));
    }
    let token = string_from_char_range(hc.as_slice(), 7, hc.len());
    assert(token@ =~= header@.skip(7));
    if str_eq(token.as_str(), expected) {
        Ok(())
    } else {
        Err(ZeptoError::Unauthorized(to_owned_string("invalid API token")))
    }
}

/// bcrypt's error type.
#[verifier::external_type_specification]
#[verifier::external_body]
pub struct ExBcryptError(bcrypt::BcryptError);

/// What `bcrypt::verify(password, hash)` decides: `Some(matches)`, or `None`
/// when the hash cannot be parsed. It depends on its arguments alone.
pub uninterp spec fn bcrypt_verdict(password: Seq<char>, hash: Seq<char>) -> Option<bool>;

/// The bcrypt cost at which panel passwords are hashed.
pub const BCRYPT_COST: u32 = 12;

/// A bcrypt cost written with two decimal digits, as bcrypt writes it.
pub open spec fn cost_digits(cost: u32) -> Seq<char> {
    seq![(48 + cost / 10) as char, (48 + cost % 10) as char]
}

/// `bcrypt::hash(password, cost)`. The salt is random, so the hash is not
/// named. It succeeds only for a cost from 4 to 31; the crate then formats the
/// hash as `$2b$`, the cost in two digits, `$`, and 53 characters of salt and
/// digest, and verifying the same password against it recomputes the same
/// digest. Otherwise it fails, as it does when the system's randomness fails.
#[verifier::external_body]
fn bcrypt_hash(password: &str, cost: u32) -> (r: Result<String, bcrypt::BcryptError>)
    ensures
        r matches Ok(h) ==> 4 <= cost <= 31 && h@.len() == 60 && is_prefix(
            "$2b$"@ + cost_digits(cost) + "$"@,
            h@,
        ) && bcrypt_verdict(password@, h@) == Some(true),
{
    bcrypt::hash(password, cost)
}

/// `bcrypt::verify(password, hash)`: the result is named `bcrypt_verdict`.
#[verifier::external_body]
fn bcrypt_verify(password: &str, hash: &str) -> (r: Result<bool, bcrypt::BcryptError>)
    ensures
        match r {
            Ok(b) => bcrypt_verdict(password@, hash@) == Some(b),
            Err(_) => bcrypt_verdict(password@, hash@) is None,
        },
{
    bcrypt::verify(password, hash)
}

/// The display text of a bcrypt error; nothing is claimed of it.
#[verifier::external_body]
fn bcrypt_error_text(e: &bcrypt::BcryptError) -> String {
    format!("{e}")
}

/// Hashes `password` with bcrypt at cost 12. The hash verifies against the
/// same password; a failure is a configuration error.
pub fn hash_password(password: &str) -> (r: Result<String, ZeptoError>)
    ensures
        match r {
            Ok(h) => h@.len() == 60 && is_prefix("$2b$12$"@, h@) && bcrypt_verdict(password@, h@) == Some(true),
            Err(e) => e matches ZeptoError::Config(m) && is_prefix("bcrypt hash: "@, m@),
        },
{
    match bcrypt_hash(password, BCRYPT_COST) {
        Ok(h) => {
            proof {
                reveal_strlit("$2b$");
                reveal_strlit("$");
                reveal_strlit("$2b$12$");
                assert("$2b$"@ + cost_digits(12) + "$"@ =~= "$2b$12$"@);
            }
            Ok(h)
        },
        Err(e) => {
            let mut m = to_owned_string("bcrypt hash: ");
            let t = bcrypt_error_text(&e);
            push_str(&mut m, t.as_str());
            proof {
                reveal_strlit("bcrypt hash: ");
                assert(m@.take(13) =~= "bcrypt hash: "@);
            }
            Err(ZeptoError::Config(m))
        },
    }
}

/// Verifies `password` against a bcrypt `hash`: whether it matches, or a
/// configuration error when the hash is malformed.
pub fn verify_password(password: &str, hash: &str) -> (r: Result<bool, ZeptoError>)
    ensures
        match bcrypt_verdict(password@, hash@) {
            Some(b) => r == Ok::<bool, ZeptoError>(b),
            None => r matches Err(ZeptoError::Config(m)) && is_prefix("bcrypt verify: "@, m@),
        },
{
    match bcrypt_verify(password, hash) {
        Ok(b) => Ok(b),
        Err(e) => {
            let mut m = to_owned_string("bcrypt verify: ");
            let t = bcrypt_error_text(&e);
            push_str(&mut m, t.as_str());
            proof {
                reveal_strlit("bcrypt verify: ");
                assert(m@.take(15) =~= "bcrypt verify: "@);
            }
            Err(ZeptoError::Config(m))
        },
    }
}

/// Claims of a panel JWT: the subject (user name) and the expiry (Unix seconds).
#[derive(Debug, Clone, PartialEq, Eq)]
pub struct Claims {
    pub sub: String,
    pub exp: usize,
}

/// The claims for `username` issued at `now` (Unix seconds), valid for
/// `expires_in_secs`: the expiry saturates at `u64::MAX`, then is taken as a
/// machine word.
pub fn claims_for(username: &str, now: u64, expires_in_secs: u64) -> (c: Claims)
    ensures
        c.sub@ == username@,
        c.exp == (if now + expires_in_secs > u64::MAX {
            u64::MAX
        } else {
            (now + expires_in_secs) as u64
        }) as usize,
{
    let exp = now.saturating_add(expires_in_secs);
    Claims { sub: to_owned_string(username), exp: exp as usize }
}

/// How long past its expiry a token is still accepted, in seconds (the
/// default leeway of `jsonwebtoken::Validation`).
pub const JWT_LEEWAY_SECS: u64 = 60;

/// The compact HS256 token that `jsonwebtoken::encode` makes, with the
/// default header, of the claims `{"exp": exp, "sub": sub}` signed with
/// `secret`.
pub uninterp spec fn jwt_hs256(sub: Seq<char>, exp: nat, secret: Seq<char>) -> Seq<char>;

/// The claims `(sub, exp)` that `jsonwebtoken::decode` accepts in `token`
/// under `secret`, with the default validation but the expiry left
/// unchecked: `None` when the token is malformed, its signature is not the
/// HS256 signature under `secret`, its header names another algorithm, it
/// has no `exp` or has an `aud`, or its `sub` is not text or its `exp` not an
/// unsigned integer.
pub uninterp spec fn jwt_claims(token: Seq<char>, secret: Seq<char>) -> Option<(Seq<char>, nat)>;

/// `jsonwebtoken::encode` with the default (HS256) header, of the claims
/// `sub` and `exp`, signed with `secret`: the token is named
/// `jwt_hs256(sub, exp, secret)`, and decoding it under the same secret gives
/// back `sub` and `exp`. The error is the crate's error text.
#[verifier::external_body]
fn jwt_encode(sub: &str, exp: usize, secret: &str) -> (r: Result<String, String>)
    ensures
        r matches Ok(t) ==> t@ == jwt_hs256(sub@, exp as nat, secret@) && jwt_claims(t@, secret@) == Some(
            (sub@, exp as nat),
        ),
{
    let mut claims = serde_json::Map::new();
    claims.insert("sub".to_string(), serde_json::Value::from(sub));
    claims.insert("exp".to_string(), serde_json::Value::from(exp as u64));
    let key = jsonwebtoken::EncodingKey::from_secret(secret.as_bytes());
    jsonwebtoken::encode(&jsonwebtoken::Header::default(), &claims, &key).map_err(|e| e.to_string())
}

/// `jsonwebtoken::decode` with the default validation (HS256, `exp`
/// required, no `aud`) but without the expiry check, reading the `sub` text
/// and the `exp` integer of the claims: `Ok(Some(..))` exactly when the
/// claims are named `jwt_claims(token, secret)`; `Err` carries the crate's
/// error text, and `Ok(None)` stands for claims without a text `sub` or an
/// integer `exp`.
#[verifier::external_body]
fn jwt_decode(token: &str, secret: &str) -> (r: Result<Option<(String, usize)>, String>)
    ensures
        match r {
            Ok(Some((s, e))) => jwt_claims(token@, secret@) == Some((s@, e as nat)),
            _ => jwt_claims(token@, secret@) is None,
        },
{
    let mut validation = jsonwebtoken::Validation::default();
    validation.validate_exp = false;
    let key = jsonwebtoken::DecodingKey::from_secret(secret.as_bytes());
    let data = jsonwebtoken::decode::<serde_json::Value>(token, &key, &validation).map_err(|e| e.to_string())?;
    let sub = data.claims.get("sub").and_then(|v| v.as_str());
    let exp = data.claims.get("exp").and_then(|v| v.as_u64());
    Ok(match (sub, exp) {
        (Some(s), Some(e)) => Some((s.to_string(), e as usize)),
        _ => None,
    })
}

/// The expiry of a token issued at `now` for `expires_in_secs` (see
/// `claims_for`).
pub open spec fn jwt_exp(now: u64, expires_in_secs: u64) -> nat {
    ((if now + expires_in_secs > u64::MAX {
        u64::MAX
    } else {
        (now + expires_in_secs) as u64
    }) as usize) as nat
}

/// A token that expired at `exp` is refused at `now` once the leeway has
/// passed too.
pub open spec fn jwt_expired(exp: nat, now: u64) -> bool {
    exp + JWT_LEEWAY_SECS < now
}

/// What validating `token` under `secret` at `now` accepts: its claims,
/// unless they are missing or expired.
pub open spec fn jwt_verdict(token: Seq<char>, secret: Seq<char>, now: u64) -> Option<(Seq<char>, nat)> {
    match jwt_claims(token, secret) {
        Some((s, e)) => if jwt_expired(e, now) {
            None
        } else {
            Some((s, e))
        },
        None => None,
    }
}

/// `e` is an unauthorized error whose message starts with `prefix`.
pub open spec fn unauthorized_with(e: ZeptoError, prefix: Seq<char>) -> bool {
    e matches ZeptoError::Unauthorized(m) && prefix.is_prefix_of(m@)
}

/// Issues an HS256 token for `username` at `now` (Unix seconds), valid for
/// `expires_in_secs`. The token carries `username` and the expiry of
/// `claims_for`; validated under the same secret it gives them back until
/// the expiry and the leeway have passed, and is refused after. A failure of
/// the encoder is an `Unauthorized` error (`JWT encode: ...`).
pub fn generate_jwt_at(username: &str, secret: &str, now: u64, expires_in_secs: u64) -> (r: Result<String, ZeptoError>)
    ensures
        match r {
            Ok(t) => {
                &&& t@ == jwt_hs256(username@, jwt_exp(now, expires_in_secs), secret@)
                &&& jwt_claims(t@, secret@) == Some((username@, jwt_exp(now, expires_in_secs)))
                &&& forall|later: u64| #[trigger]
                    jwt_verdict(t@, secret@, later) == if jwt_expired(jwt_exp(now, expires_in_secs), later) {
                        None
                    } else {
                        Some((username@, jwt_exp(now, expires_in_secs)))
                    }
            },
            Err(e) => unauthorized_with(e, "JWT encode: "@),
        },
{
    let claims = claims_for(username, now, expires_in_secs);
    match jwt_encode(claims.sub.as_str(), claims.exp, secret) {
        Ok(t) => Ok(t),
        Err(e) => {
            let mut m = to_owned_string("JWT encode: ");
            let ghost p = m@;
            push_str(&mut m, e.as_str());
            assert(m@.subrange(0, p.len() as int) =~= p);
            Err(ZeptoError::Unauthorized(m))
        },
    }
}

/// Validates an HS256 token under `secret` at `now` (Unix seconds): its
/// claims, when its signature and form are valid and it has not expired
/// (with the leeway); otherwise an `Unauthorized` error
/// (`JWT validation: ...`).
pub fn validate_jwt_at(token: &str, secret: &str, now: u64) -> (r: Result<Claims, ZeptoError>)
    ensures
        match jwt_verdict(token@, secret@, now) {
            Some((s, e)) => r matches Ok(c) && c.sub@ == s && c.exp == e,
            None => r matches Err(e) && unauthorized_with(e, "JWT validation: "@),
        },
{
    let text = match jwt_decode(token, secret) {
        Ok(Some((sub, exp))) => {
            if (exp as u128) + (JWT_LEEWAY_SECS as u128) < (now as u128) {
                to_owned_string("ExpiredSignature")
            } else {
                return Ok(Claims { sub, exp });
            }
        },
        Ok(None) => to_owned_string("missing or malformed claims"),
        Err(e) => e,
    };
    let mut m = to_owned_string("JWT validation: ");
    let ghost p = m@;
    push_str(&mut m, text.as_str());
    assert(m@.subrange(0, p.len() as int) =~= p);
    Err(ZeptoError::Unauthorized(m))
}

/// Issues an HS256 token for `username`, valid for `expires_in_secs` from
/// now by the system clock (see `generate_jwt_at`).
pub fn generate_jwt(username: &str, secret: &str, expires_in_secs: u64) -> (r: Result<String, ZeptoError>)
    ensures
        match r {
            Ok(t) => exists|now: u64|
                #![trigger jwt_exp(now, expires_in_secs)]
                t@ == jwt_hs256(username@, jwt_exp(now, expires_in_secs), secret@) && jwt_claims(t@, secret@) == Some(
                    (username@, jwt_exp(now, expires_in_secs)),
                ),
            Err(e) => unauthorized_with(e, "JWT encode: "@),
        },
{
    let now = unix_now();
    let r = generate_jwt_at(username, secret, now, expires_in_secs);
    proof {
        let _ = jwt_exp(now, expires_in_secs);
    }
    r
}

/// Validates an HS256 token (signature, form and expiry, by the system
/// clock) and returns its claims (see `validate_jwt_at`). A token whose
/// claims are not accepted under `secret` is always refused.
pub fn validate_jwt(token: &str, secret: &str) -> (r: Result<Claims, ZeptoError>)
    ensures
        match jwt_claims(token@, secret@) {
            Some((s, e)) => match r {
                Ok(c) => c.sub@ == s && c.exp == e,
                Err(err) => unauthorized_with(err, "JWT validation: "@),
            },
            None => r matches Err(err) && unauthorized_with(err, "JWT validation: "@),
        },
{
    validate_jwt_at(token, secret, unix_now())
}

} // verus!
