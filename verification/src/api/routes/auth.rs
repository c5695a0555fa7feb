//! Login and WebSocket ticket routes.
use vstd::prelude::*;

use crate::api::auth::{bcrypt_verdict, verify_password};
use crate::error::ZeptoError;

verus! {

/// Body of a login request.
#[derive(Debug, Clone, PartialEq, Eq)]
pub struct LoginRequest {
    pub password: String,
}

/// Answer to a successful login: a JWT valid for 24 hours.
#[derive(Debug, Clone, PartialEq, Eq)]
pub struct LoginResponse {
    pub token: String,
}

/// Answer to a WebSocket ticket request: a single-use ticket valid for 30 seconds.
#[derive(Debug, Clone, PartialEq, Eq)]
pub struct WsTicketResponse {
    pub ticket: String,
}

/// Lifetime of a login JWT, in seconds.
pub const LOGIN_TOKEN_SECS: u64 = 86_400;

/// What a login attempt comes to.
#[derive(Debug, Clone, Copy, PartialEq, Eq)]
pub enum LoginOutcome {
    /// Password login is not configured: 404.
    NotConfigured,
    /// The password hash could not be checked: 500.
    CheckFailed,
    /// Wrong password: 401.
    WrongPassword,
    /// Issue a JWT for `admin`, valid for `LOGIN_TOKEN_SECS`.
    IssueToken,
}

/// The outcome of a login with `request` against the configured password hash.
pub fn login_outcome(request: &LoginRequest, password_hash: Option<&str>) -> (r: LoginOutcome)
    ensures
        match password_hash {
            None => r == LoginOutcome::NotConfigured,
            Some(h) => match bcrypt_verdict(request.password@, h@) {
                None => r == LoginOutcome::CheckFailed,
                Some(true) => r == LoginOutcome::IssueToken,
                Some(false) => r == LoginOutcome::WrongPassword,
            },
        },
{
    match password_hash {
        None => LoginOutcome::NotConfigured,
        Some(h) => match verify_password(request.password.as_str(), h) {
            Err(_) => LoginOutcome::CheckFailed,
            Ok(true) => LoginOutcome::IssueToken,
            Ok(false) => LoginOutcome::WrongPassword,
        },
    }
}

} // verus!
