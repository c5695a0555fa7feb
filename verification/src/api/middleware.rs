//! Panel API authentication: which requests pass, which are refused, and
//! which need their bearer token checked as a JWT.
use vstd::prelude::*;

use crate::text::{chars_of, is_prefix, starts_with_chars, str_eq, string_from_char_range};

verus! {

/// Paths served without authentication: health, login, and WebSocket upgrades.
pub open spec fn auth_exempt(path: Seq<char>) -> bool {
    path == "/api/health"@ || path == "/api/auth/login"@ || is_prefix("/ws/"@, path)
}

/// What becomes of a request.
#[derive(Debug, PartialEq, Eq)]
pub enum AuthStep {
    /// Serve it.
    Allow,
    /// Answer 401 Unauthorized.
    Reject,
    /// Serve it if this bearer token is a valid panel JWT, else answer 401.
    CheckJwt(String),
}

/// Whether `path` is served without authentication.
pub fn is_auth_exempt(path: &str) -> (r: bool)
    ensures
        r == auth_exempt(path@),
{
    let pc = chars_of(path);
    let ws = chars_of("/ws/");
    str_eq(path, "/api/health") || str_eq(path, "/api/auth/login") || starts_with_chars(pc.as_slice(), ws.as_slice())
}

/// The authentication step for a request to `path` with the given
/// `Authorization` header: exempt paths pass; a `Bearer ` token equal to the
/// API token passes; another bearer token must be checked as a JWT; anything
/// else is refused.
pub fn auth_step(path: &str, authorization: Option<&str>, api_token: &str) -> (r: AuthStep)
    ensures
        auth_exempt(path@) ==> r == AuthStep::Allow,
        !auth_exempt(path@) ==> match authorization {
            Some(h) if is_prefix("Bearer "@, h@) => if h@.skip(7) == api_token@ {
                r == AuthStep::Allow
            } else {
                r matches AuthStep::CheckJwt(t) && t@ == h@.skip(7)
            },
            _ => r == AuthStep::Reject,
        },
{
    if is_auth_exempt(path) {
        return AuthStep::Allow;
    }
    match authorization {
        Some(h) => {
            let hc = chars_of(h);
            let bearer = chars_of("Bearer ");
            proof {
                reveal_strlit("Bearer ");
            }
            if !starts_with_chars(hc.as_slice(), bearer.as_slice()) {
                return AuthStep::Reject;
            }
            let token = string_from_char_range(hc.as_slice(), 7, hc.len());
            assert(token@ =~= h@.skip(7));
            if str_eq(token.as_str(), api_token) {
                AuthStep::Allow
            } else {
                AuthStep::CheckJwt(token)
            }
        },
        None => AuthStep::Reject,
    }
}

} // verus!
