//! Long-term memory injection: when a memory block overrides the context.
use vstd::prelude::*;

verus! {

/// Searches long-term memory and injects relevant entries into the context.
#[derive(Debug)]
pub struct MemoryInjectionMiddleware;

impl MemoryInjectionMiddleware {
    /// The memory-injection middleware.
    pub fn new() -> (m: Self) {
        MemoryInjectionMiddleware
    }

    /// The middleware's name.
    pub fn name(&self) -> (s: &'static str)
        ensures
            s@ == "memory_injection"@,
    {
        "memory_injection"
    }

    /// The memory override for a built memory block: none when it is empty.
    pub fn memory_override(memory: String) -> (r: Option<String>)
        ensures
            memory@.len() == 0 ==> r is None,
            memory@.len() > 0 ==> r == Some(memory),
    {
        if memory.as_str().is_empty() {
            None
        } else {
            Some(memory)
        }
    }
}

} // verus!
