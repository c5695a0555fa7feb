//! Pipeline metrics: which token counts are recorded.
use vstd::prelude::*;

use crate::agent::middleware::PipelineOutput;

verus! {

/// Records execution timing, token usage and errors around the pipeline.
#[derive(Debug)]
pub struct MetricsMiddleware;

impl MetricsMiddleware {
    /// The metrics middleware.
    pub fn new() -> (m: Self) {
        MetricsMiddleware
    }

    /// The middleware's name.
    pub fn name(&self) -> (s: &'static str)
        ensures
            s@ == "metrics"@,
    {
        "metrics"
    }

    /// The (input, output) token counts to record for a successful run: those
    /// of its usage, when it reports one.
    pub fn tokens_to_record(output: &PipelineOutput) -> (r: Option<(u64, u64)>)
        ensures
            match *output {
                PipelineOutput::Sync { usage: Some(u), .. } => r == Some(
                    (u.prompt_tokens as u64, u.completion_tokens as u64),
                ),
                _ => r is None,
            },
    {
        match output.usage() {
            Some(u) => Some((u.prompt_tokens as u64, u.completion_tokens as u64)),
            None => None,
        }
    }
}

} // verus!
