//! Provider-facing data: token usage, tool calls requested by a model, model
//! responses and streaming events.
use vstd::prelude::*;

use crate::error::ZeptoError;
use crate::text::to_owned_string;

verus! {

/// Token usage reported by a provider for one call.
#[derive(Debug, Clone, Copy, PartialEq, Eq)]
pub struct Usage {
    pub prompt_tokens: u32,
    pub completion_tokens: u32,
    pub total_tokens: u32,
}

impl Usage {
    /// Usage of `prompt_tokens` input and `completion_tokens` output tokens;
    /// the total saturates at `u32::MAX`.
    pub fn new(prompt_tokens: u32, completion_tokens: u32) -> (u: Usage)
        ensures
            u.prompt_tokens == prompt_tokens,
            u.completion_tokens == completion_tokens,
            u.total_tokens == (if prompt_tokens + completion_tokens > u32::MAX {
                u32::MAX as int
            } else {
                prompt_tokens + completion_tokens
            }),
    {
        Usage {
            prompt_tokens,
            completion_tokens,
            total_tokens: prompt_tokens.saturating_add(completion_tokens),
        }
    }
}

/// A tool invocation requested by a model.
/// A tool offered to the model: its name, what it does, and the JSON Schema
/// of its arguments.
#[derive(Debug, Clone)]
pub struct ToolDefinition {
    pub name: String,
    pub description: String,
    pub parameters: serde_json::Value,
}

#[derive(Debug, Clone, PartialEq, Eq)]
pub struct LLMToolCall {
    pub id: String,
    pub name: String,
    /// JSON-encoded arguments.
    pub arguments: String,
}

impl LLMToolCall {
    /// A tool call with the given id, tool name and JSON arguments.
    pub fn new(id: &str, name: &str, arguments: &str) -> (c: LLMToolCall)
        ensures
            c.id@ == id@,
            c.name@ == name@,
            c.arguments@ == arguments@,
    {
        LLMToolCall {
            id: to_owned_string(id),
            name: to_owned_string(name),
            arguments: to_owned_string(arguments),
        }
    }
}

/// A complete (non-streaming) model response.
#[derive(Debug, Clone)]
pub struct LLMResponse {
    pub content: String,
    pub tool_calls: Vec<LLMToolCall>,
    pub usage: Option<Usage>,
}

impl LLMResponse {
    /// A plain text response without tool calls or usage.
    pub fn text(content: &str) -> (r: LLMResponse)
        ensures
            r.content@ == content@,
            r.tool_calls@.len() == 0,
            r.usage is None,
    {
        LLMResponse { content: to_owned_string(content), tool_calls: Vec::new(), usage: None }
    }

    /// A response with text and tool calls, without usage.
    pub fn with_tools(content: &str, tool_calls: Vec<LLMToolCall>) -> (r: LLMResponse)
        ensures
            r.content@ == content@,
            r.tool_calls@ == tool_calls@,
            r.usage is None,
    {
        LLMResponse { content: to_owned_string(content), tool_calls, usage: None }
    }

    /// The same response with `usage` attached.
    pub fn with_usage(self, usage: Usage) -> (r: LLMResponse)
        ensures
            r.content == self.content,
            r.tool_calls == self.tool_calls,
            r.usage == Some(usage),
    {
        LLMResponse { usage: Some(usage), ..self }
    }

    /// Whether the model asked for tool calls.
    pub fn has_tool_calls(&self) -> (r: bool)
        ensures
            r == (self.tool_calls@.len() > 0),
    {
        self.tool_calls.len() > 0
    }
}

/// An event of a streaming model response.
#[derive(Debug)]
pub enum StreamEvent {
    /// A fragment of generated text.
    Delta(String),
    /// Tool calls requested by the model.
    ToolCalls(Vec<LLMToolCall>),
    /// The end of the stream, with the full text and usage when known.
    Done { content: String, usage: Option<Usage> },
    /// A provider failure.
    Error(ZeptoError),
}

} // verus!
