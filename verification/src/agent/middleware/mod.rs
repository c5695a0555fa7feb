//! The agent's middleware pipeline: what it produces, and the decision each
//! middleware takes around the inner pipeline.
use vstd::prelude::*;

use crate::providers::Usage;

pub mod cache;
pub mod compaction;
pub mod context_build;
pub mod feedback;
pub mod injection_scan;
pub mod memory_injection;
pub mod metrics;
pub mod provider_resolution;
pub mod session;
pub mod session_save;
pub mod token_budget;

verus! {

/// What the pipeline produces.
#[derive(Debug)]
pub enum PipelineOutput {
    /// A complete response.
    Sync { response: String, usage: Option<Usage>, cached: bool },
    /// A streamed response; the deltas went through the streaming channel.
    Streaming,
}

impl PipelineOutput {
    /// The response text, or `None` for a streamed response.
    pub fn response(&self) -> (r: Option<&str>)
        ensures
            match *self {
                PipelineOutput::Sync { response, .. } => r matches Some(s) && s@ == response@,
                PipelineOutput::Streaming => r is None,
            },
    {
        match self {
            PipelineOutput::Sync { response, .. } => Some(response.as_str()),
            PipelineOutput::Streaming => None,
        }
    }

    /// The token usage, when known.
    pub fn usage(&self) -> (r: Option<&Usage>)
        ensures
            match *self {
                PipelineOutput::Sync { usage, .. } => match usage {
                    Some(u) => r matches Some(x) && *x == u,
                    None => r is None,
                },
                PipelineOutput::Streaming => r is None,
            },
    {
        match self {
            PipelineOutput::Sync { usage, .. } => match usage {
                Some(u) => Some(u),
                None => None,
            },
            PipelineOutput::Streaming => None,
        }
    }

    /// Whether the response came from the cache.
    pub fn is_cached(&self) -> (r: bool)
        ensures
            r == (*self matches PipelineOutput::Sync { cached, .. } && cached),
    {
        match self {
            PipelineOutput::Sync { cached, .. } => *cached,
            PipelineOutput::Streaming => false,
        }
    }
}

} // verus!
