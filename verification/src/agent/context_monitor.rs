//! Context size tiers and strategies, and the word count on which the
//! token estimate rests.
use vstd::prelude::*;

use crate::session::Message;
use crate::text::{chars_of, split_whitespace_chars, words};

verus! {

/// Strategy suggested when the context is getting too large.
#[derive(Debug, Clone, Copy, PartialEq, Eq)]
pub enum CompactionStrategy {
    /// No compaction needed.
    NotNeeded,
    /// Summarize the oldest messages, keeping `keep_recent` most recent.
    Summarize { keep_recent: usize },
    /// Drop the oldest messages, keeping `keep_recent` most recent.
    Truncate { keep_recent: usize },
}

/// Compaction urgency tier.
#[derive(Debug, Clone, Copy, PartialEq, Eq)]
pub enum CompactionUrgency {
    Normal,
    Emergency,
    Critical,
}

/// The number of whitespace-separated words of a message's content.
pub fn word_count(msg: &Message) -> (n: usize)
    ensures
        n == words(msg.content@).len(),
{
    let cs = chars_of(msg.content.as_str());
    let ws = split_whitespace_chars(cs.as_slice());
    assert(ws@.map_values(|v: Vec<char>| v@).len() == ws@.len());
    ws.len()
}

/// The strategy for an urgency tier: none below the threshold, truncation to
/// the last 3 (critical) or 5 (emergency) messages, else summarization keeping
/// 5 messages when more than 85% is used (`above_85_percent`) and 8 otherwise.
pub fn strategy_for(urgency: Option<CompactionUrgency>, above_85_percent: bool) -> (s: CompactionStrategy)
    ensures
        s == (match urgency {
            None => CompactionStrategy::NotNeeded,
            Some(CompactionUrgency::Critical) => CompactionStrategy::Truncate { keep_recent: 3 },
            Some(CompactionUrgency::Emergency) => CompactionStrategy::Truncate { keep_recent: 5 },
            Some(CompactionUrgency::Normal) => if above_85_percent {
                CompactionStrategy::Summarize { keep_recent: 5 }
            } else {
                CompactionStrategy::Summarize { keep_recent: 8 }
            },
        }),
{
    match urgency {
        None => CompactionStrategy::NotNeeded,
        Some(CompactionUrgency::Critical) => CompactionStrategy::Truncate { keep_recent: 3 },
        Some(CompactionUrgency::Emergency) => CompactionStrategy::Truncate { keep_recent: 5 },
        Some(CompactionUrgency::Normal) => {
            if above_85_percent {
                CompactionStrategy::Summarize { keep_recent: 5 }
            } else {
                CompactionStrategy::Summarize { keep_recent: 8 }
            }
        },
    }
}

} // verus!
