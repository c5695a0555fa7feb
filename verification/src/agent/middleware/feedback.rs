//! Feedback events emitted around the pipeline for user interfaces.
use vstd::prelude::*;

use crate::agent::{ToolFeedback, ToolFeedbackPhase};

verus! {

/// Emits `Thinking` before the inner pipeline and `ResponseReady` after it succeeds.
#[derive(Debug)]
pub struct FeedbackMiddleware;

impl FeedbackMiddleware {
    /// The feedback middleware.
    pub fn new() -> (m: Self) {
        FeedbackMiddleware
    }

    /// The middleware's name.
    pub fn name(&self) -> (s: &'static str)
        ensures
            s@ == "feedback"@,
    {
        "feedback"
    }

    /// The event sent before the inner pipeline runs.
    pub fn before_event() -> (e: ToolFeedback)
        ensures
            e.tool_name@.len() == 0,
            e.phase is Thinking,
            e.args_json is None,
    {
        ToolFeedback { tool_name: String::new(), phase: ToolFeedbackPhase::Thinking, args_json: None }
    }

    /// The event sent after the inner pipeline: `ResponseReady` on success,
    /// nothing on failure.
    pub fn after_event(succeeded: bool) -> (e: Option<ToolFeedback>)
        ensures
            succeeded ==> (e matches Some(f) && f.tool_name@.len() == 0 && f.phase is ResponseReady
                && f.args_json is None),
            !succeeded ==> e is None,
    {
        if succeeded {
            Some(
                ToolFeedback {
                    tool_name: String::new(),
                    phase: ToolFeedbackPhase::ResponseReady,
                    args_json: None,
                },
            )
        } else {
            None
        }
    }
}

} // verus!
