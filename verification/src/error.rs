//! Error type shared by the library.
use vstd::prelude::*;

use crate::text::{push_str, to_owned_string};

verus! {

/// Errors reported by the library, each with a human-readable message.
#[derive(Debug, Clone, PartialEq, Eq)]
pub enum ZeptoError {
    /// Invalid or missing configuration, or a failed setup step.
    Config(String),
    /// An LLM provider failure.
    Provider(String),
    /// A tool failure or a rejected tool input.
    Tool(String),
    /// A channel failure.
    Channel(String),
    /// A failed authentication.
    Unauthorized(String),
}

/// The text of an error: a kind prefix followed by its message.
pub open spec fn error_text(e: ZeptoError) -> Seq<char> {
    match e {
        ZeptoError::Config(m) => "Configuration error: "@ + m@,
        ZeptoError::Provider(m) => "Provider error: "@ + m@,
        ZeptoError::Tool(m) => "Tool error: "@ + m@,
        ZeptoError::Channel(m) => "Channel error: "@ + m@,
        ZeptoError::Unauthorized(m) => "Unauthorized: "@ + m@,
    }
}

impl ZeptoError {
    /// The error as text: a kind prefix followed by its message.
    pub fn to_string(&self) -> (s: String)
        ensures
            s@ == error_text(*self),
    {
        let (mut s, m) = match self {
            ZeptoError::Config(m) => (to_owned_string("Configuration error: "), m),
            ZeptoError::Provider(m) => (to_owned_string("Provider error: "), m),
            ZeptoError::Tool(m) => (to_owned_string("Tool error: "), m),
            ZeptoError::Channel(m) => (to_owned_string("Channel error: "), m),
            ZeptoError::Unauthorized(m) => (to_owned_string("Unauthorized: "), m),
        };
        push_str(&mut s, m.as_str());
        s
    }
}

} // verus!
