//! The parts of the agent configuration that the library's decisions read.
use vstd::prelude::*;

verus! {

/// Safety settings.
#[derive(Debug, Clone, Copy, PartialEq, Eq)]
pub struct SafetyConfig {
    /// Master switch of the safety layer.
    pub enabled: bool,
    /// Whether inbound messages are scanned for prompt injection.
    pub injection_check_enabled: bool,
}

/// What happens to messages that arrive while their session is busy.
#[derive(Debug, Clone, Copy, PartialEq, Eq)]
pub enum MessageQueueMode {
    /// Combine them into one numbered message once the session is free.
    Collect,
    /// Replay them one by one once the session is free.
    Followup,
}

/// Defaults applied to every agent run.
#[derive(Debug, Clone, PartialEq, Eq)]
pub struct AgentDefaults {
    /// The model used when a message names none.
    pub model: String,
}

/// Agent settings.
#[derive(Debug, Clone, PartialEq, Eq)]
pub struct AgentsConfig {
    pub defaults: AgentDefaults,
}

/// The agent configuration.
#[derive(Debug, Clone, PartialEq, Eq)]
pub struct Config {
    pub safety: SafetyConfig,
    pub agents: AgentsConfig,
}

} // verus!
