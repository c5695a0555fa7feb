//! Conversation data: roles, messages, tool calls and message content parts.
use vstd::prelude::*;

use crate::text::to_owned_string;

verus! {

/// The author of a conversation message.
#[derive(Debug, Clone, Copy, PartialEq, Eq, Structural)]
pub enum Role {
    System,
    User,
    Assistant,
    Tool,
}

/// A tool call recorded in a conversation.
#[derive(Debug, Clone, PartialEq, Eq)]
pub struct ToolCall {
    pub id: String,
    pub name: String,
    /// JSON-encoded arguments.
    pub arguments: String,
}

/// A part of a multimodal message.
#[derive(Debug, Clone, PartialEq, Eq)]
pub enum ContentPart {
    Text { text: String },
    Image { data: String, mime_type: String },
}

/// One conversation message.
#[derive(Debug, Clone, PartialEq, Eq)]
pub struct Message {
    pub role: Role,
    pub content: String,
    pub content_parts: Vec<ContentPart>,
    pub tool_calls: Option<Vec<ToolCall>>,
    pub tool_call_id: Option<String>,
}

/// `m` holds just the text `content`, without tool calls.
pub open spec fn is_text_message(m: Message, content: Seq<char>) -> bool {
    &&& m.content@ == content
    &&& m.content_parts@.len() == 1
    &&& m.content_parts@[0] matches ContentPart::Text { text } && text@ == content
    &&& m.tool_calls is None
    &&& m.tool_call_id is None
}

/// Whether some part of `parts` is an image.
pub open spec fn has_image_part(parts: Seq<ContentPart>) -> bool {
    exists|i: int| 0 <= i < parts.len() && parts[i] is Image
}

impl ToolCall {
    /// A tool call with the given id, tool name and JSON arguments.
    pub fn new(id: &str, name: &str, arguments: &str) -> (c: ToolCall)
        ensures
            c.id@ == id@,
            c.name@ == name@,
            c.arguments@ == arguments@,
    {
        ToolCall { id: to_owned_string(id), name: to_owned_string(name), arguments: to_owned_string(arguments) }
    }
}

impl Message {
    /// A system message with the text `content`.
    pub fn system(content: &str) -> (m: Message)
        ensures
            m.role == Role::System,
            is_text_message(m, content@),
    {
        Message::new(Role::System, content)
    }

    /// An assistant message with the text `content`.
    pub fn assistant(content: &str) -> (m: Message)
        ensures
            m.role == Role::Assistant,
            is_text_message(m, content@),
    {
        Message::new(Role::Assistant, content)
    }

    /// An assistant message with the text `content` that calls the given tools.
    pub fn assistant_with_tools(content: &str, tool_calls: Vec<ToolCall>) -> (m: Message)
        ensures
            m.role == Role::Assistant,
            m.content@ == content@,
            m.content_parts@.len() == 1,
            m.content_parts@[0] matches ContentPart::Text { text } && text@ == content@,
            m.tool_calls == Some(tool_calls),
            m.tool_call_id is None,
    {
        let mut m = Message::new(Role::Assistant, content);
        m.tool_calls = Some(tool_calls);
        m
    }

    /// The result `content` of the tool call `tool_call_id`.
    pub fn tool_result(tool_call_id: &str, content: &str) -> (m: Message)
        ensures
            m.role == Role::Tool,
            m.content@ == content@,
            m.content_parts@.len() == 1,
            m.content_parts@[0] matches ContentPart::Text { text } && text@ == content@,
            m.tool_calls is None,
            m.tool_call_id matches Some(id) && id@ == tool_call_id@,
    {
        let mut m = Message::new(Role::Tool, content);
        m.tool_call_id = Some(to_owned_string(tool_call_id));
        m
    }

    /// A message of `role` whose whole content is the text `content`.
    pub fn new(role: Role, content: &str) -> (m: Message)
        ensures
            m.role == role,
            m.content@ == content@,
            m.content_parts@.len() == 1,
            m.content_parts@[0] matches ContentPart::Text { text } && text@ == content@,
            m.tool_calls is None,
            m.tool_call_id is None,
    {
        let mut parts: Vec<ContentPart> = Vec::new();
        parts.push(ContentPart::Text { text: to_owned_string(content) });
        Message {
            role,
            content: to_owned_string(content),
            content_parts: parts,
            tool_calls: None,
            tool_call_id: None,
        }
    }

    /// A user message with the text `content`.
    pub fn user(content: &str) -> (m: Message)
        ensures
            m.role == Role::User,
            m.content@ == content@,
            m.content_parts@.len() == 1,
            m.content_parts@[0] matches ContentPart::Text { text } && text@ == content@,
            m.tool_calls is None,
            m.tool_call_id is None,
    {
        Message::new(Role::User, content)
    }

    /// Whether the message carries an image part.
    pub fn has_images(&self) -> (r: bool)
        ensures
            r == has_image_part(self.content_parts@),
    {
        let mut i: usize = 0;
        while i < self.content_parts.len()
            invariant
                i <= self.content_parts@.len(),
                forall|k: int| 0 <= k < i ==> !(self.content_parts@[k] is Image),
            decreases self.content_parts@.len() - i,
        {
            if let ContentPart::Image { .. } = &self.content_parts[i] {
                return true;
            }
            i += 1;
        }
        false
    }
}

} // verus!
