//! Per-run token budget guard.
use vstd::prelude::*;

use crate::error::ZeptoError;
use crate::text::{push_str, to_owned_string};

verus! {

/// Resets the per-run counters and refuses a run whose budget is already spent.
#[derive(Debug)]
pub struct TokenBudgetMiddleware;

impl TokenBudgetMiddleware {
    /// The token-budget middleware.
    pub fn new() -> (m: Self) {
        TokenBudgetMiddleware
    }

    /// The middleware's name.
    pub fn name(&self) -> (s: &'static str)
        ensures
            s@ == "token_budget"@,
    {
        "token_budget"
    }

    /// The guard after the counters were reset: a provider error quoting the
    /// budget summary when the budget is exceeded, else the run goes on.
    pub fn check(exceeded: bool, summary: &str) -> (r: Result<(), ZeptoError>)
        ensures
            !exceeded ==> r is Ok,
            exceeded ==> (r matches Err(ZeptoError::Provider(m)) && m@ == "Token budget exceeded: "@
                + summary@),
    {
        if exceeded {
            let mut m = to_owned_string("Token budget exceeded: ");
            push_str(&mut m, summary);
            Err(ZeptoError::Provider(m))
        } else {
            Ok(())
        }
    }
}

} // verus!
