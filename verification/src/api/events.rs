//! Real-time events shown by the control panel.
use vstd::prelude::*;

verus! {

/// An event of the agent loop, for panel clients.
#[derive(Debug, Clone, PartialEq, Eq)]
pub enum PanelEvent {
    /// A tool execution started.
    ToolStarted { tool: String },
    /// A tool execution completed.
    ToolDone { tool: String, duration_ms: u64 },
    /// A tool execution failed.
    ToolFailed { tool: String, error: String },
    /// A message arrived on a channel.
    MessageReceived { channel: String, chat_id: String },
    /// An agent run started for a session.
    AgentStarted { session_key: String },
    /// An agent run completed.
    AgentDone { session_key: String, tokens: u64 },
    /// The context was compacted.
    Compaction { from_tokens: u64, to_tokens: u64 },
    /// A channel's status changed.
    ChannelStatus { channel: String, status: String },
    /// A scheduled job fired.
    CronFired { job_id: String, status: String },
}

} // verus!
