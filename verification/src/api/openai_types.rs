//! OpenAI-compatible chat completion types and the conversions between them
//! and the library's provider and session types.
use vstd::prelude::*;

use crate::json::{json_object_of_type, object_of_type};
use crate::providers::{LLMResponse, LLMToolCall, StreamEvent, ToolDefinition, Usage};
use crate::session::{ContentPart, Message, Role, ToolCall};
use crate::text::{is_prefix, opt_str_view, push_str, str_eq, to_owned_string};

verus! {

/// A chat message in OpenAI format.
#[derive(Debug, Clone)]
pub struct ChatMessage {
    /// "system", "user", "assistant" or "tool".
    pub role: String,
    /// Text content; absent for assistant messages that only call tools.
    pub content: Option<String>,
    /// Tool calls made by the assistant.
    pub tool_calls: Option<Vec<ToolCallResponse>>,
    /// The tool call a "tool" message answers.
    pub tool_call_id: Option<String>,
}

/// A chat completion response.
#[derive(Debug)]
pub struct ChatCompletionResponse {
    pub id: String,
    /// Always "chat.completion".
    pub object: &'static str,
    /// Unix timestamp of creation.
    pub created: u64,
    pub model: String,
    /// Exactly one choice.
    pub choices: Vec<Choice>,
    pub usage: UsageResponse,
}

/// A completion choice.
#[derive(Debug)]
pub struct Choice {
    pub index: u32,
    pub message: ChatMessage,
    /// "stop" or "tool_calls".
    pub finish_reason: String,
}

/// One server-sent chunk of a streaming completion.
#[derive(Debug)]
pub struct ChatCompletionChunk {
    pub id: String,
    /// Always "chat.completion.chunk".
    pub object: &'static str,
    pub created: u64,
    pub model: String,
    pub choices: Vec<ChunkChoice>,
}

/// The choice of a streaming chunk.
#[derive(Debug)]
pub struct ChunkChoice {
    pub index: u32,
    pub delta: Delta,
    pub finish_reason: Option<String>,
}

/// The increment a streaming chunk carries.
#[derive(Debug)]
pub struct Delta {
    /// Present in the first chunk only.
    pub role: Option<String>,
    pub content: Option<String>,
    pub tool_calls: Option<Vec<DeltaToolCall>>,
}

/// A tool call inside a streaming delta.
#[derive(Debug, Clone)]
pub struct DeltaToolCall {
    pub index: u32,
    pub id: Option<String>,
    pub call_type: Option<String>,
    pub function: DeltaFunction,
}

/// Function name and arguments of a streamed tool call.
#[derive(Debug, Clone)]
pub struct DeltaFunction {
    pub name: Option<String>,
    pub arguments: String,
}

/// A tool call in a response message.
#[derive(Debug, Clone)]
pub struct ToolCallResponse {
    pub id: String,
    /// Always "function".
    pub call_type: String,
    pub function: FunctionCallResponse,
}

/// The function invocation of a tool call.
#[derive(Debug, Clone)]
pub struct FunctionCallResponse {
    pub name: String,
    /// JSON-encoded arguments.
    pub arguments: String,
}

/// Token usage in OpenAI format.
#[derive(Debug, Clone, Copy, PartialEq, Eq)]
pub struct UsageResponse {
    pub prompt_tokens: u32,
    pub completion_tokens: u32,
    pub total_tokens: u32,
}

/// The answer to a model listing.
#[derive(Debug)]
pub struct ModelsResponse {
    pub object: &'static str,
    pub data: Vec<ModelObject>,
}

/// One model of a model listing.
#[derive(Debug)]
pub struct ModelObject {
    pub id: String,
    pub object: &'static str,
    pub created: u64,
    pub owned_by: String,
}

// ---------------------------------------------------------------------------
// Specifications
// ---------------------------------------------------------------------------

/// The role named by an OpenAI role string, if it is one of the four known.
pub open spec fn role_named(s: Seq<char>) -> Option<Role> {
    if s == "system"@ {
        Some(Role::System)
    } else if s == "user"@ {
        Some(Role::User)
    } else if s == "assistant"@ {
        Some(Role::Assistant)
    } else if s == "tool"@ {
        Some(Role::Tool)
    } else {
        None
    }
}

/// `r` is the OpenAI form of the model's tool call `c`.
pub open spec fn is_tool_call_response(r: ToolCallResponse, c: LLMToolCall) -> bool {
    &&& r.id@ == c.id@
    &&& r.call_type@ == "function"@
    &&& r.function.name@ == c.name@
    &&& r.function.arguments@ == c.arguments@
}

/// `rs` holds the OpenAI form of each of `calls`, in order.
pub open spec fn are_tool_call_responses(rs: Seq<ToolCallResponse>, calls: Seq<LLMToolCall>) -> bool {
    &&& rs.len() == calls.len()
    &&& forall|i: int| 0 <= i < rs.len() ==> is_tool_call_response(#[trigger] rs[i], calls[i])
}

/// `tc` is the session form of the OpenAI tool call `r`.
pub open spec fn is_session_tool_call(tc: ToolCall, r: ToolCallResponse) -> bool {
    &&& tc.id@ == r.id@
    &&& tc.name@ == r.function.name@
    &&& tc.arguments@ == r.function.arguments@
}

/// The text of an optional content: the empty text when absent.
pub open spec fn content_or_empty(c: Option<String>) -> Seq<char> {
    match c {
        Some(s) => s@,
        None => Seq::empty(),
    }
}

/// `out` is the session message made of the OpenAI message `m` (whose role is known).
pub open spec fn is_converted_message(out: Message, m: ChatMessage) -> bool {
    &&& role_named(m.role@) == Some(out.role)
    &&& out.content@ == content_or_empty(m.content)
    &&& out.content_parts@.len() == 1
    &&& out.content_parts@[0] matches ContentPart::Text { text } && text@ == out.content@
    &&& out.tool_call_id == m.tool_call_id
    &&& match m.tool_calls {
        None => out.tool_calls is None,
        Some(tcs) => out.tool_calls matches Some(v) && v@.len() == tcs@.len() && forall|i: int|
            0 <= i < v@.len() ==> is_session_tool_call(#[trigger] v@[i], tcs@[i]),
    }
}

/// The error for a message with an unknown role.
pub open spec fn unsupported_role_error(role: Seq<char>) -> Seq<char> {
    "unsupported message role: "@ + role
}

/// OpenAI usage made of provider usage.
pub open spec fn usage_response_of(u: Usage) -> UsageResponse {
    UsageResponse {
        prompt_tokens: u.prompt_tokens,
        completion_tokens: u.completion_tokens,
        total_tokens: u.total_tokens,
    }
}

/// `r` answers the model response `llm` for `model`, whatever its id and timestamp.
pub open spec fn is_completion_for(r: ChatCompletionResponse, llm: LLMResponse, model: Seq<char>) -> bool {
    let has_tools = llm.tool_calls@.len() > 0;
    let msg = r.choices@[0].message;
    &&& r.object@ == "chat.completion"@
    &&& r.model@ == model
    &&& r.usage == (match llm.usage {
        Some(u) => usage_response_of(u),
        None => UsageResponse { prompt_tokens: 0, completion_tokens: 0, total_tokens: 0 },
    })
    &&& r.choices@.len() == 1
    &&& r.choices@[0].index == 0
    &&& r.choices@[0].finish_reason@ == (if has_tools { "tool_calls"@ } else { "stop"@ })
    &&& msg.role@ == "assistant"@
    &&& opt_str_view(msg.content) == (if llm.content@.len() == 0 && has_tools {
        None
    } else {
        Some(llm.content@)
    })
    &&& (has_tools ==> (msg.tool_calls matches Some(v) && are_tool_call_responses(v@, llm.tool_calls@)))
    &&& (!has_tools ==> msg.tool_calls is None)
    &&& msg.tool_call_id is None
}

/// `c` is a single-choice chunk of completion `id` for `model` at `created`
/// whose delta holds `role` and `content` and whose finish reason is `finish`.
pub open spec fn is_chunk(
    c: ChatCompletionChunk,
    model: Seq<char>,
    id: Seq<char>,
    created: u64,
    role: Option<Seq<char>>,
    content: Option<Seq<char>>,
    finish: Option<Seq<char>>,
) -> bool {
    &&& c.id@ == id
    &&& c.object@ == "chat.completion.chunk"@
    &&& c.created == created
    &&& c.model@ == model
    &&& c.choices@.len() == 1
    &&& c.choices@[0].index == 0
    &&& opt_str_view(c.choices@[0].delta.role) == role
    &&& opt_str_view(c.choices@[0].delta.content) == content
    &&& opt_str_view(c.choices@[0].finish_reason) == finish
}

/// `d` is the streamed form of the tool call `c` at position `i`.
pub open spec fn is_delta_tool_call(d: DeltaToolCall, c: LLMToolCall, i: int) -> bool {
    &&& d.index == i as u32
    &&& opt_str_view(d.id) == Some(c.id@)
    &&& opt_str_view(d.call_type) == Some("function"@)
    &&& opt_str_view(d.function.name) == Some(c.name@)
    &&& d.function.arguments@ == c.arguments@
}

/// `d` is the streamed form of `calls`, numbered from 0.
pub open spec fn are_delta_tool_calls(d: Seq<DeltaToolCall>, calls: Seq<LLMToolCall>) -> bool {
    &&& d.len() == calls.len()
    &&& forall|i: int| 0 <= i < d.len() ==> is_delta_tool_call(#[trigger] d[i], calls[i], i)
}

/// `c` is the chunk carrying `calls` as tool-call deltas.
pub open spec fn is_tool_calls_chunk(
    c: ChatCompletionChunk,
    calls: Seq<LLMToolCall>,
    model: Seq<char>,
    id: Seq<char>,
    created: u64,
) -> bool {
    &&& is_chunk(c, model, id, created, None, None, None)
    &&& c.choices@[0].delta.tool_calls matches Some(v) && are_delta_tool_calls(v@, calls)
}

/// `c` is a chunk without tool calls of the given shape.
pub open spec fn is_plain_chunk(
    c: ChatCompletionChunk,
    model: Seq<char>,
    id: Seq<char>,
    created: u64,
    role: Option<Seq<char>>,
    content: Option<Seq<char>>,
    finish: Option<Seq<char>>,
) -> bool {
    &&& is_chunk(c, model, id, created, role, content, finish)
    &&& c.choices@[0].delta.tool_calls is None
}

/// A completion id: `chatcmpl-` followed by a hyphenated UUID.
pub open spec fn is_completion_id(s: Seq<char>) -> bool {
    &&& is_prefix("chatcmpl-"@, s)
    &&& s.len() == 45
}

// ---------------------------------------------------------------------------
// Outside calls
// ---------------------------------------------------------------------------

/// A fresh random UUID (`uuid::Uuid::new_v4`) in its hyphenated lower-case
/// text form, which the crate's formatter writes with 36 characters. The
/// value is random; only its length is claimed.
#[verifier::external_body]
pub(crate) fn random_uuid_text() -> (s: String)
    ensures
        s@.len() == 36,
{
    uuid::Uuid::new_v4().to_string()
}

/// Seconds since the Unix epoch by the system clock (`SystemTime::now`),
/// `None` when the clock reads before the epoch. Nothing is claimed of the value.
#[verifier::external_body]
fn system_secs_since_epoch() -> Option<u64> {
    match std::time::SystemTime::now().duration_since(std::time::UNIX_EPOCH) {
        Ok(d) => Some(d.as_secs()),
        Err(_) => None,
    }
}

// ---------------------------------------------------------------------------
// Conversions
// ---------------------------------------------------------------------------

/// A fresh completion id: `chatcmpl-` followed by a random UUID.
pub fn completion_id() -> (s: String)
    ensures
        is_completion_id(s@),
{
    let mut s = to_owned_string("chatcmpl-");
    let u = random_uuid_text();
    push_str(&mut s, u.as_str());
    proof {
        reveal_strlit("chatcmpl-");
        assert(s@.take(9) =~= "chatcmpl-"@);
    }
    s
}

/// The current Unix time in seconds (0 when the clock reads before the epoch).
pub fn unix_now() -> u64 {
    match system_secs_since_epoch() {
        Some(s) => s,
        None => 0,
    }
}

/// Provider usage in OpenAI format.
pub fn usage_from_zepto(u: &Usage) -> (r: UsageResponse)
    ensures
        r == usage_response_of(*u),
{
    UsageResponse {
        prompt_tokens: u.prompt_tokens,
        completion_tokens: u.completion_tokens,
        total_tokens: u.total_tokens,
    }
}

/// The OpenAI form of the model's tool calls.
pub fn tool_calls_from_llm(calls: &[LLMToolCall]) -> (r: Vec<ToolCallResponse>)
    ensures
        are_tool_call_responses(r@, calls@),
{
    let mut r: Vec<ToolCallResponse> = Vec::new();
    let mut i: usize = 0;
    while i < calls.len()
        invariant
            i <= calls@.len(),
            r@.len() == i,
            forall|k: int| 0 <= k < i ==> is_tool_call_response(#[trigger] r@[k], calls@[k]),
        decreases calls@.len() - i,
    {
        let c = &calls[i];
        r.push(
            ToolCallResponse {
                id: c.id.clone(),
                call_type: to_owned_string("function"),
                function: FunctionCallResponse {
                    name: c.name.clone(),
                    arguments: c.arguments.clone(),
                },
            },
        );
        i += 1;
    }
    r
}

/// The role named by `s`, if known.
fn parse_role(s: &str) -> (r: Option<Role>)
    ensures
        r == role_named(s@),
{
    if str_eq(s, "system") {
        Some(Role::System)
    } else if str_eq(s, "user") {
        Some(Role::User)
    } else if str_eq(s, "assistant") {
        Some(Role::Assistant)
    } else if str_eq(s, "tool") {
        Some(Role::Tool)
    } else {
        None
    }
}

/// The session form of OpenAI tool calls.
fn session_tool_calls(tcs: &Vec<ToolCallResponse>) -> (v: Vec<ToolCall>)
    ensures
        v@.len() == tcs@.len(),
        forall|i: int| 0 <= i < v@.len() ==> is_session_tool_call(#[trigger] v@[i], tcs@[i]),
{
    let mut v: Vec<ToolCall> = Vec::new();
    let mut i: usize = 0;
    while i < tcs.len()
        invariant
            i <= tcs@.len(),
            v@.len() == i,
            forall|k: int| 0 <= k < i ==> is_session_tool_call(#[trigger] v@[k], tcs@[k]),
        decreases tcs@.len() - i,
    {
        let tc = &tcs[i];
        v.push(
            ToolCall {
                id: tc.id.clone(),
                name: tc.function.name.clone(),
                arguments: tc.function.arguments.clone(),
            },
        );
        i += 1;
    }
    v
}

/// Converts OpenAI messages into session messages; fails on the first message
/// whose role is not "system", "user", "assistant" or "tool".
pub fn messages_from_openai(msgs: &[ChatMessage]) -> (r: Result<Vec<Message>, String>)
    ensures
        match r {
            Ok(v) => {
                &&& forall|i: int| 0 <= i < msgs@.len() ==> (#[trigger] role_named(msgs@[i].role@)) is Some
                &&& v@.len() == msgs@.len()
                &&& forall|i: int| 0 <= i < v@.len() ==> is_converted_message(#[trigger] v@[i], msgs@[i])
            },
            Err(e) => exists|i: int|
                0 <= i < msgs@.len() && (forall|j: int| 0 <= j < i ==> (#[trigger] role_named(msgs@[j].role@)) is Some)
                    && role_named(msgs@[i].role@) is None && e@ == unsupported_role_error(msgs@[i].role@),
        },
{
    let mut out: Vec<Message> = Vec::new();
    let mut i: usize = 0;
    while i < msgs.len()
        invariant
            i <= msgs@.len(),
            out@.len() == i,
            forall|k: int| 0 <= k < i ==> (#[trigger] role_named(msgs@[k].role@)) is Some,
            forall|k: int| 0 <= k < i ==> is_converted_message(#[trigger] out@[k], msgs@[k]),
        decreases msgs@.len() - i,
    {
        let m = &msgs[i];
        let role = match parse_role(m.role.as_str()) {
            Some(role) => role,
            None => {
                let mut e = to_owned_string("unsupported message role: ");
                push_str(&mut e, m.role.as_str());
                assert(role_named(msgs@[i as int].role@) is None);
                return Err(e);
            },
        };
        let content = match &m.content {
            Some(c) => c.clone(),
            None => String::new(),
        };
        let tool_calls = match &m.tool_calls {
            Some(tcs) => Some(session_tool_calls(tcs)),
            None => None,
        };
        let mut parts: Vec<ContentPart> = Vec::new();
        parts.push(ContentPart::Text { text: content.clone() });
        out.push(
            Message {
                role,
                content,
                content_parts: parts,
                tool_calls,
                tool_call_id: m.tool_call_id.clone(),
            },
        );
        i += 1;
    }
    Ok(out)
}

/// The completion response for the model response `llm`, with the given id and
/// creation time.
pub fn response_from_llm_with(
    llm: &LLMResponse,
    model: &str,
    id: String,
    created: u64,
) -> (r: ChatCompletionResponse)
    ensures
        is_completion_for(r, *llm, model@),
        r.id == id,
        r.created == created,
{
    let usage = match &llm.usage {
        Some(u) => usage_from_zepto(u),
        None => UsageResponse { prompt_tokens: 0, completion_tokens: 0, total_tokens: 0 },
    };
    let has_tool_calls = llm.tool_calls.len() > 0;
    let tool_calls = if has_tool_calls {
        Some(tool_calls_from_llm(llm.tool_calls.as_slice()))
    } else {
        None
    };
    let content = if llm.content.as_str().is_empty() && has_tool_calls {
        None
    } else {
        Some(llm.content.clone())
    };
    let finish_reason = if has_tool_calls {
        to_owned_string("tool_calls")
    } else {
        to_owned_string("stop")
    };
    let mut choices: Vec<Choice> = Vec::new();
    choices.push(
        Choice {
            index: 0,
            message: ChatMessage {
                role: to_owned_string("assistant"),
                content,
                tool_calls,
                tool_call_id: None,
            },
            finish_reason,
        },
    );
    ChatCompletionResponse {
        id,
        object: "chat.completion",
        created,
        model: to_owned_string(model),
        choices,
        usage,
    }
}

/// The completion response for the model response `llm`, under a fresh
/// completion id and the current time.
pub fn response_from_llm(llm: &LLMResponse, model: &str) -> (r: ChatCompletionResponse)
    ensures
        is_completion_for(r, *llm, model@),
        is_completion_id(r.id@),
{
    let id = completion_id();
    let now = unix_now();
    response_from_llm_with(llm, model, id, now)
}

/// One chunk choice with the given delta and finish reason.
fn single_chunk(
    model: &str,
    id: &str,
    created: u64,
    delta: Delta,
    finish_reason: Option<String>,
) -> (c: ChatCompletionChunk)
    ensures
        c.id@ == id@,
        c.object@ == "chat.completion.chunk"@,
        c.created == created,
        c.model@ == model@,
        c.choices@.len() == 1,
        c.choices@[0].index == 0,
        c.choices@[0].delta == delta,
        c.choices@[0].finish_reason == finish_reason,
{
    let mut choices: Vec<ChunkChoice> = Vec::new();
    choices.push(ChunkChoice { index: 0, delta, finish_reason });
    ChatCompletionChunk {
        id: to_owned_string(id),
        object: "chat.completion.chunk",
        created,
        model: to_owned_string(model),
        choices,
    }
}

/// The first streaming chunk: it carries the assistant role.
pub fn first_chunk(model: &str, id: &str, created: u64) -> (c: ChatCompletionChunk)
    ensures
        is_plain_chunk(c, model@, id@, created, Some("assistant"@), None, None),
{
    let delta = Delta { role: Some(to_owned_string("assistant")), content: None, tool_calls: None };
    single_chunk(model, id, created, delta, None)
}

/// A streaming chunk carrying the text fragment `text`.
pub fn delta_chunk(text: &str, model: &str, id: &str, created: u64) -> (c: ChatCompletionChunk)
    ensures
        is_plain_chunk(c, model@, id@, created, None, Some(text@), None),
{
    let delta = Delta { role: None, content: Some(to_owned_string(text)), tool_calls: None };
    single_chunk(model, id, created, delta, None)
}

/// A streaming chunk carrying the model's tool calls, numbered from 0.
pub fn tool_calls_chunk(calls: &[LLMToolCall], model: &str, id: &str, created: u64) -> (c:
    ChatCompletionChunk)
    ensures
        is_tool_calls_chunk(c, calls@, model@, id@, created),
{
    let mut d: Vec<DeltaToolCall> = Vec::new();
    let mut i: usize = 0;
    while i < calls.len()
        invariant
            i <= calls@.len(),
            d@.len() == i,
            forall|k: int| 0 <= k < i ==> is_delta_tool_call(#[trigger] d@[k], calls@[k], k),
        decreases calls@.len() - i,
    {
        let c = &calls[i];
        d.push(
            DeltaToolCall {
                index: i as u32,
                id: Some(c.id.clone()),
                call_type: Some(to_owned_string("function")),
                function: DeltaFunction { name: Some(c.name.clone()), arguments: c.arguments.clone() },
            },
        );
        assert(is_delta_tool_call(d@[i as int], calls@[i as int], i as int));
        i += 1;
    }
    let delta = Delta { role: None, content: None, tool_calls: Some(d) };
    single_chunk(model, id, created, delta, None)
}

/// The final streaming chunk, ending with `finish_reason`.
pub fn done_chunk_with_reason(model: &str, id: &str, created: u64, finish_reason: &str) -> (c:
    ChatCompletionChunk)
    ensures
        is_plain_chunk(c, model@, id@, created, None, None, Some(finish_reason@)),
{
    let delta = Delta { role: None, content: None, tool_calls: None };
    single_chunk(model, id, created, delta, Some(to_owned_string(finish_reason)))
}

/// The final streaming chunk, ending with "stop".
pub fn done_chunk(model: &str, id: &str, created: u64) -> (c: ChatCompletionChunk)
    ensures
        is_plain_chunk(c, model@, id@, created, None, None, Some("stop"@)),
{
    done_chunk_with_reason(model, id, created, "stop")
}

/// The chunk that a stream event becomes: text deltas and non-empty tool calls
/// are forwarded, `Done` ends the stream with "stop", errors and empty tool
/// calls give no chunk.
pub fn chunk_from_stream_event(event: &StreamEvent, model: &str, id: &str, created: u64) -> (r:
    Option<ChatCompletionChunk>)
    ensures
        match *event {
            StreamEvent::Delta(text) => r matches Some(c) && is_plain_chunk(
                c,
                model@,
                id@,
                created,
                None,
                Some(text@),
                None,
            ),
            StreamEvent::Done { .. } => r matches Some(c) && is_plain_chunk(
                c,
                model@,
                id@,
                created,
                None,
                None,
                Some("stop"@),
            ),
            StreamEvent::Error(_) => r is None,
            StreamEvent::ToolCalls(calls) => if calls@.len() == 0 {
                r is None
            } else {
                r matches Some(c) && is_tool_calls_chunk(c, calls@, model@, id@, created)
            },
        },
{
    match event {
        StreamEvent::Delta(text) => Some(delta_chunk(text.as_str(), model, id, created)),
        StreamEvent::Done { .. } => Some(done_chunk(model, id, created)),
        StreamEvent::Error(_) => None,
        StreamEvent::ToolCalls(calls) => {
            if calls.len() > 0 {
                Some(tool_calls_chunk(calls.as_slice(), model, id, created))
            } else {
                None
            }
        },
    }
}

/// The `tool_choice` of a request, as far as it matters here.
#[derive(Debug, Clone, PartialEq, Eq)]
pub enum ToolChoice {
    /// The field is absent.
    Absent,
    /// The field is `null`.
    Null,
    /// The field is a string.
    Text(String),
    /// Any other JSON value (an object naming a function, ...).
    Other,
}

/// Whether the requested tool choice is one the server honours: absent,
/// `null` or `"auto"`.
pub open spec fn tool_choice_supported(c: ToolChoice) -> bool {
    match c {
        ToolChoice::Absent => true,
        ToolChoice::Null => true,
        ToolChoice::Text(s) => s@ == "auto"@,
        ToolChoice::Other => false,
    }
}

/// Whether the requested tool choice is supported (absent, `null` or `"auto"`).
pub fn supports_tool_choice(choice: &ToolChoice) -> (r: bool)
    ensures
        r == tool_choice_supported(*choice),
{
    match choice {
        ToolChoice::Absent => true,
        ToolChoice::Null => true,
        ToolChoice::Text(s) => str_eq(s.as_str(), "auto"),
        ToolChoice::Other => false,
    }
}

/// A tool offered in a request (`{"type": "function", "function": ...}`).
#[derive(Debug, Clone)]
pub struct ToolParam {
    /// Always `"function"`.
    pub tool_type: String,
    /// The function definition.
    pub function: FunctionDef,
}

/// Function definition within a tool parameter.
#[derive(Debug, Clone)]
pub struct FunctionDef {
    /// The name of the function.
    pub name: String,
    /// A description of what the function does.
    pub description: Option<String>,
    /// JSON Schema describing the function's parameters.
    pub parameters: Option<serde_json::Value>,
}

/// The tool definition made of a requested tool: its name, its description
/// (empty when absent) and its parameter schema (`{"type": "object"}` when
/// absent).
pub open spec fn tool_definition_of(t: ToolParam) -> (Seq<char>, Seq<char>, serde_json::Value) {
    (
        t.function.name@,
        match t.function.description {
            Some(d) => d@,
            None => Seq::empty(),
        },
        match t.function.parameters {
            Some(p) => p,
            None => json_object_of_type("object"@),
        },
    )
}

/// Converts the tools of a request into tool definitions, one for one and in
/// order.
pub fn tools_from_openai(tools: &[ToolParam]) -> (r: Vec<ToolDefinition>)
    ensures
        r@.len() == tools@.len(),
        forall|i: int|
            0 <= i < tools@.len() ==> (r@[i].name@, r@[i].description@, r@[i].parameters)
                == tool_definition_of(#[trigger] tools@[i]),
{
    let mut out: Vec<ToolDefinition> = Vec::new();
    let mut i: usize = 0;
    while i < tools.len()
        invariant
            i <= tools@.len(),
            out@.len() == i,
            forall|j: int|
                0 <= j < i ==> (out@[j].name@, out@[j].description@, out@[j].parameters)
                    == tool_definition_of(#[trigger] tools@[j]),
        decreases tools@.len() - i,
    {
        let f = &tools[i].function;
        let description = match &f.description {
            Some(d) => d.clone(),
            None => String::new(),
        };
        let parameters = match &f.parameters {
            Some(p) => p.clone(),
            None => object_of_type("object"),
        };
        proof {
            reveal_strlit("object");
        }
        out.push(ToolDefinition { name: f.name.clone(), description, parameters });
        i += 1;
    }
    out
}

} // verus!
