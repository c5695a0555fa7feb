//! The terminal executor placed at the end of the middleware pipeline.
use vstd::prelude::*;

use crate::agent::middleware::PipelineOutput;
use crate::error::ZeptoError;
use crate::text::to_owned_string;

verus! {

/// Placeholder terminal: it refuses every run with an explanatory error, so
/// that a pipeline wired to it by mistake fails loudly.
#[derive(Debug, Default)]
pub struct LegacyTerminal;

/// The message with which the placeholder terminal refuses to run.
pub open spec fn legacy_terminal_message() -> Seq<char> {
    "agent::core_loop::LegacyTerminal is a Phase 2 scaffolding stub; the real LLM + tool-loop executor lands in Phase 2b of #399. Production should continue calling AgentLoop::process_message()."@
}

impl LegacyTerminal {
    /// A placeholder terminal.
    pub fn new() -> (t: Self) {
        LegacyTerminal
    }

    /// Runs the terminal: always a provider error explaining that the real
    /// executor is not wired yet.
    pub fn execute(&self) -> (r: Result<PipelineOutput, ZeptoError>)
        ensures
            r matches Err(ZeptoError::Provider(m)) && m@ == legacy_terminal_message(),
    {
        Err(ZeptoError::Provider(to_owned_string(
            "agent::core_loop::LegacyTerminal is a Phase 2 scaffolding stub; the real LLM + tool-loop executor lands in Phase 2b of #399. Production should continue calling AgentLoop::process_message().",
        )))
    }
}

} // verus!
