//! Response caching around the first model call: which key inputs are used,
//! and which outputs are stored.
use vstd::prelude::*;

use crate::agent::middleware::PipelineOutput;
use crate::session::{Message, Role};

verus! {

/// Caches model responses keyed by model, system prompt and user content.
#[derive(Debug)]
pub struct CacheMiddleware;

/// The model a cache key is built for: the resolved model, or the configured default.
pub open spec fn cache_model(model: Option<Seq<char>>, default_model: Seq<char>) -> Seq<char> {
    match model {
        Some(m) => m,
        None => default_model,
    }
}

/// The system prompt a cache key is built for: the content of the first
/// message when it is a system message, else the empty text.
pub open spec fn cache_system_prompt(messages: Option<Seq<Message>>) -> Seq<char> {
    match messages {
        Some(ms) => if ms.len() > 0 && ms[0].role == Role::System {
            ms[0].content@
        } else {
            Seq::empty()
        },
        None => Seq::empty(),
    }
}

impl CacheMiddleware {
    /// The cache middleware.
    pub fn new() -> (m: Self) {
        CacheMiddleware
    }

    /// The middleware's name.
    pub fn name(&self) -> (s: &'static str)
        ensures
            s@ == "cache"@,
    {
        "cache"
    }

    /// The model name and system prompt from which the cache key is built.
    pub fn key_inputs<'a>(
        model: Option<&'a str>,
        default_model: &'a str,
        messages: Option<&'a Vec<Message>>,
    ) -> (r: (&'a str, &'a str))
        ensures
            r.0@ == cache_model(
                match model {
                    Some(m) => Some(m@),
                    None => None,
                },
                default_model@,
            ),
            r.1@ == cache_system_prompt(
                match messages {
                    Some(v) => Some(v@),
                    None => None,
                },
            ),
    {
        let model_name = match model {
            Some(m) => m,
            None => default_model,
        };
        let system_prompt = match messages {
            Some(v) => {
                if v.len() > 0 && v[0].role == Role::System {
                    v[0].content.as_str()
                } else {
                    ""
                }
            },
            None => "",
        };
        proof {
            reveal_strlit("");
        }
        (model_name, system_prompt)
    }

    /// The answer on a cache lookup: on a hit (`cached` holds the stored
    /// response for the key), that response marked as served from the cache,
    /// without usage, and the rest of the pipeline does not run; on a miss,
    /// `None`: the rest of the pipeline runs and its output is passed back
    /// unchanged, after `storable` says what to store.
    pub fn on_lookup(cached: Option<String>) -> (r: Option<PipelineOutput>)
        ensures
            match cached {
                Some(c) => r matches Some(PipelineOutput::Sync { response, usage, cached }) && response == c
                    && usage is None && cached,
                None => r is None,
            },
    {
        match cached {
            Some(c) => Some(PipelineOutput::Sync { response: c, usage: None, cached: true }),
            None => None,
        }
    }

    /// What to store after a cache miss: the response and its completion token
    /// count (0 when unknown), for complete responses not served from the cache.
    pub fn storable(output: &PipelineOutput) -> (r: Option<(&String, u32)>)
        ensures
            match *output {
                PipelineOutput::Sync { response, usage, cached } => if cached {
                    r is None
                } else {
                    r matches Some(p) && *p.0 == response && p.1 == (match usage {
                        Some(u) => u.completion_tokens,
                        None => 0,
                    })
                },
                PipelineOutput::Streaming => r is None,
            },
    {
        match output {
            PipelineOutput::Sync { response, usage, cached } => {
                if *cached {
                    None
                } else {
                    let tokens = match usage {
                        Some(u) => u.completion_tokens,
                        None => 0,
                    };
                    Some((response, tokens))
                }
            },
            PipelineOutput::Streaming => None,
        }
    }
}

} // verus!
