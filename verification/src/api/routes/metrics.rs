//! Metrics route: which counters the token totals come from.
use vstd::prelude::*;

verus! {

/// Token totals (input, output): those of the per-session collector when
/// there is one, else those of the gateway usage metrics, else zero.
pub fn token_totals(collector: Option<(u64, u64)>, usage: Option<(u64, u64)>) -> (r: (u64, u64))
    ensures
        r == (match collector {
            Some(t) => t,
            None => match usage {
                Some(u) => u,
                None => (0u64, 0u64),
            },
        }),
{
    match collector {
        Some(t) => t,
        None => match usage {
            Some(u) => u,
            None => (0, 0),
        },
    }
}

} // verus!
