//! Agent-side logic: loop detection, tool feedback events, context size
//! tiers and the middleware pipeline's decisions.
use vstd::prelude::*;

pub mod agent_loop;
pub mod context_monitor;
pub mod core_loop;
pub mod facade;
pub mod loop_guard;
pub mod middleware;
pub mod pipeline;
pub mod scratchpad;

verus! {

/// Tool execution feedback event for a user interface.
#[derive(Debug, Clone)]
pub struct ToolFeedback {
    /// Name of the tool being executed (empty for model-level phases).
    pub tool_name: String,
    /// Current phase of execution.
    pub phase: ToolFeedbackPhase,
    /// Raw JSON arguments, for display hints.
    pub args_json: Option<String>,
}

/// Phase of a tool execution or of the model's turn.
#[derive(Debug, Clone)]
pub enum ToolFeedbackPhase {
    /// The model is processing.
    Thinking,
    /// The model finished thinking.
    ThinkingDone,
    /// A tool execution is starting.
    Starting,
    /// A tool execution completed.
    Done { elapsed_ms: u64 },
    /// A tool execution failed.
    Failed { elapsed_ms: u64, error: String },
    /// All work is complete; the final response follows.
    ResponseReady,
}

} // verus!
