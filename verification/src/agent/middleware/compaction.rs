//! Context overflow recovery: what is done at each urgency tier.
use vstd::prelude::*;

use crate::agent::context_monitor::CompactionUrgency;

verus! {

/// Applies context overflow recovery when the session nears the context limit.
#[derive(Debug)]
pub struct CompactionMiddleware;

/// Messages kept by the first recovery tier.
pub const KEEP_RECENT_FOR_TRUNCATION: usize = 8;

impl CompactionMiddleware {
    /// The compaction middleware.
    pub fn new() -> (m: Self) {
        CompactionMiddleware
    }

    /// The middleware's name.
    pub fn name(&self) -> (s: &'static str)
        ensures
            s@ == "compaction"@,
    {
        "compaction"
    }

    /// Whether memories are flushed before compacting: only at `Normal`
    /// urgency; the emergency and critical tiers skip it to recover faster.
    pub fn flushes_memory_first(urgency: CompactionUrgency) -> (r: bool)
        ensures
            r == (urgency == CompactionUrgency::Normal),
    {
        match urgency {
            CompactionUrgency::Normal => true,
            _ => false,
        }
    }
}

} // verus!
