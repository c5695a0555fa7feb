//! Session persistence after a run.
use vstd::prelude::*;

verus! {

/// Saves the session after the pipeline succeeded; failed runs leave it unsaved.
#[derive(Debug)]
pub struct SessionSaveMiddleware;

impl SessionSaveMiddleware {
    /// The session-save middleware.
    pub fn new() -> (m: Self) {
        SessionSaveMiddleware
    }

    /// The middleware's name.
    pub fn name(&self) -> (s: &'static str)
        ensures
            s@ == "session_save"@,
    {
        "session_save"
    }

    /// Whether the session is saved: only after a successful run that loaded one.
    pub fn should_save(succeeded: bool, has_session: bool) -> (r: bool)
        ensures
            r == (succeeded && has_session),
    {
        succeeded && has_session
    }
}

} // verus!
