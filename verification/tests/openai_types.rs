use zeptoclaw::api::openai_types::{
    chunk_from_stream_event, completion_id, delta_chunk, done_chunk, done_chunk_with_reason,
    first_chunk, messages_from_openai, response_from_llm, response_from_llm_with, tool_calls_chunk,
    tool_calls_from_llm, tools_from_openai, unix_now, usage_from_zepto, ChatMessage, FunctionCallResponse,
    FunctionDef, ToolCallResponse, ToolParam,
};
use zeptoclaw::error::ZeptoError;
use zeptoclaw::providers::{LLMResponse, LLMToolCall, StreamEvent, Usage};
use zeptoclaw::session::{ContentPart, Role};

fn text_msg(role: &str, content: &str) -> ChatMessage {
    ChatMessage {
        role: role.to_string(),
        content: Some(content.to_string()),
        tool_calls: None,
        tool_call_id: None,
    }
}

#[test]
fn test_messages_from_openai_empty() {
    let msgs = messages_from_openai(&[]).unwrap();
    assert!(msgs.is_empty());
}

#[test]
fn test_messages_from_openai_maps_roles() {
    let openai_msgs = vec![
        text_msg("system", "You are helpful."),
        text_msg("user", "Hello"),
        text_msg("assistant", "Hi!"),
    ];
    let msgs = messages_from_openai(&openai_msgs).unwrap();
    assert_eq!(msgs.len(), 3);
    assert_eq!(msgs[0].role, Role::System);
    assert_eq!(msgs[0].content, "You are helpful.");
    assert_eq!(msgs[1].role, Role::User);
    assert_eq!(msgs[2].role, Role::Assistant);
    assert_eq!(
        msgs[0].content_parts,
        vec![ContentPart::Text { text: "You are helpful.".to_string() }]
    );
}

#[test]
fn test_messages_from_openai_unknown_role_returns_error() {
    let openai_msgs = vec![text_msg("function", "result")];
    let result = messages_from_openai(&openai_msgs);
    assert!(result.is_err());
    assert!(result.unwrap_err().contains("function"));
}

#[test]
fn test_messages_from_openai_error_names_first_bad_role() {
    let openai_msgs = vec![
        text_msg("user", "a"),
        text_msg("developer", "b"),
        text_msg("function", "c"),
    ];
    assert_eq!(
        messages_from_openai(&openai_msgs).unwrap_err(),
        "unsupported message role: developer"
    );
}

#[test]
fn test_messages_from_openai_tool_role() {
    let msg = ChatMessage {
        role: "tool".to_string(),
        content: Some("72 degrees".to_string()),
        tool_calls: None,
        tool_call_id: Some("call_abc".to_string()),
    };
    let msgs = messages_from_openai(&[msg]).unwrap();
    assert_eq!(msgs.len(), 1);
    assert_eq!(msgs[0].role, Role::Tool);
    assert_eq!(msgs[0].content, "72 degrees");
    assert_eq!(msgs[0].tool_call_id.as_deref(), Some("call_abc"));
}

#[test]
fn test_messages_from_openai_assistant_with_tool_calls() {
    let msg = ChatMessage {
        role: "assistant".to_string(),
        content: None,
        tool_calls: Some(vec![ToolCallResponse {
            id: "call_1".to_string(),
            call_type: "function".to_string(),
            function: FunctionCallResponse {
                name: "get_weather".to_string(),
                arguments: r#"{"location":"Boston"}"#.to_string(),
            },
        }]),
        tool_call_id: None,
    };
    let msgs = messages_from_openai(&[msg]).unwrap();
    assert_eq!(msgs[0].role, Role::Assistant);
    assert_eq!(msgs[0].content, "");
    let tcs = msgs[0].tool_calls.as_ref().unwrap();
    assert_eq!(tcs.len(), 1);
    assert_eq!(tcs[0].name, "get_weather");
    assert_eq!(tcs[0].id, "call_1");
}

#[test]
fn test_tool_calls_from_llm() {
    let calls = vec![
        LLMToolCall::new("call_1", "search", r#"{"q":"rust"}"#),
        LLMToolCall::new("call_2", "read", r#"{"path":"foo"}"#),
    ];
    let resp = tool_calls_from_llm(&calls);
    assert_eq!(resp.len(), 2);
    assert_eq!(resp[0].id, "call_1");
    assert_eq!(resp[0].call_type, "function");
    assert_eq!(resp[0].function.name, "search");
    assert_eq!(resp[0].function.arguments, r#"{"q":"rust"}"#);
    assert_eq!(resp[1].function.name, "read");
}

#[test]
fn test_response_from_llm_basic() {
    let llm = LLMResponse::text("Hello, world!");
    let resp = response_from_llm(&llm, "test-model");
    assert_eq!(resp.object, "chat.completion");
    assert_eq!(resp.model, "test-model");
    assert_eq!(resp.choices.len(), 1);
    assert_eq!(resp.choices[0].message.role, "assistant");
    assert_eq!(
        resp.choices[0].message.content.as_deref(),
        Some("Hello, world!")
    );
    assert!(resp.choices[0].message.tool_calls.is_none());
    assert_eq!(resp.choices[0].finish_reason, "stop");
    assert!(resp.id.starts_with("chatcmpl-"));
}

#[test]
fn test_response_from_llm_with_usage() {
    let llm = LLMResponse::text("ok").with_usage(Usage::new(10, 20));
    let resp = response_from_llm(&llm, "m");
    assert_eq!(resp.usage.prompt_tokens, 10);
    assert_eq!(resp.usage.completion_tokens, 20);
    assert_eq!(resp.usage.total_tokens, 30);
}

#[test]
fn test_response_from_llm_without_usage_zeroes() {
    let llm = LLMResponse::text("ok");
    let resp = response_from_llm(&llm, "m");
    assert_eq!(resp.usage.prompt_tokens, 0);
    assert_eq!(resp.usage.total_tokens, 0);
}

#[test]
fn test_response_from_llm_with_tool_calls() {
    let tc = LLMToolCall::new("call_1", "get_weather", r#"{"location":"NYC"}"#);
    let llm = LLMResponse::with_tools("", vec![tc]);
    let resp = response_from_llm(&llm, "m");
    assert_eq!(resp.choices[0].finish_reason, "tool_calls");
    assert!(resp.choices[0].message.content.is_none());
    let tcs = resp.choices[0].message.tool_calls.as_ref().unwrap();
    assert_eq!(tcs.len(), 1);
    assert_eq!(tcs[0].id, "call_1");
    assert_eq!(tcs[0].call_type, "function");
    assert_eq!(tcs[0].function.name, "get_weather");
}

#[test]
fn test_response_from_llm_with_content_and_tool_calls() {
    let tc = LLMToolCall::new("call_1", "search", r#"{"q":"rust"}"#);
    let llm = LLMResponse::with_tools("Let me search that", vec![tc]);
    let resp = response_from_llm(&llm, "m");
    assert_eq!(resp.choices[0].finish_reason, "tool_calls");
    assert_eq!(
        resp.choices[0].message.content.as_deref(),
        Some("Let me search that")
    );
    assert!(resp.choices[0].message.tool_calls.is_some());
}

#[test]
fn test_response_from_llm_with_keeps_id_and_time() {
    let llm = LLMResponse::text("ok");
    let resp = response_from_llm_with(&llm, "m", "chatcmpl-x".to_string(), 77);
    assert_eq!(resp.id, "chatcmpl-x");
    assert_eq!(resp.created, 77);
    assert_eq!(resp.choices[0].index, 0);
    assert!(resp.choices[0].message.tool_call_id.is_none());
}

#[test]
fn test_first_chunk_has_role() {
    let c = first_chunk("m", "id-1", 1000);
    assert_eq!(c.object, "chat.completion.chunk");
    assert_eq!(c.choices[0].delta.role.as_deref(), Some("assistant"));
    assert!(c.choices[0].delta.content.is_none());
    assert!(c.choices[0].delta.tool_calls.is_none());
    assert!(c.choices[0].finish_reason.is_none());
}

#[test]
fn test_delta_chunk_has_content() {
    let c = delta_chunk("hello", "m", "id-1", 1000);
    assert!(c.choices[0].delta.role.is_none());
    assert_eq!(c.choices[0].delta.content.as_deref(), Some("hello"));
    assert!(c.choices[0].delta.tool_calls.is_none());
    assert!(c.choices[0].finish_reason.is_none());
    assert_eq!(c.id, "id-1");
    assert_eq!(c.created, 1000);
    assert_eq!(c.model, "m");
}

#[test]
fn test_done_chunk_has_stop_reason() {
    let c = done_chunk("m", "id-1", 1000);
    assert!(c.choices[0].delta.role.is_none());
    assert!(c.choices[0].delta.content.is_none());
    assert!(c.choices[0].delta.tool_calls.is_none());
    assert_eq!(c.choices[0].finish_reason.as_deref(), Some("stop"));
}

#[test]
fn test_done_chunk_with_custom_reason() {
    let c = done_chunk_with_reason("m", "id-1", 1000, "tool_calls");
    assert_eq!(c.choices[0].finish_reason.as_deref(), Some("tool_calls"));
}

#[test]
fn test_tool_calls_chunk() {
    let calls = vec![
        LLMToolCall::new("call_1", "search", r#"{"q":"hi"}"#),
        LLMToolCall::new("call_2", "read", r#"{"p":"f"}"#),
    ];
    let c = tool_calls_chunk(&calls, "m", "id-1", 1000);
    let delta = &c.choices[0].delta;
    assert!(delta.role.is_none());
    assert!(delta.content.is_none());
    let tcs = delta.tool_calls.as_ref().unwrap();
    assert_eq!(tcs.len(), 2);
    assert_eq!(tcs[0].index, 0);
    assert_eq!(tcs[0].id.as_deref(), Some("call_1"));
    assert_eq!(tcs[0].call_type.as_deref(), Some("function"));
    assert_eq!(tcs[0].function.name.as_deref(), Some("search"));
    assert_eq!(tcs[0].function.arguments, r#"{"q":"hi"}"#);
    assert_eq!(tcs[1].index, 1);
    assert!(c.choices[0].finish_reason.is_none());
}

#[test]
fn test_chunk_from_delta_event() {
    let event = StreamEvent::Delta("hi".into());
    let chunk = chunk_from_stream_event(&event, "m", "id", 1);
    assert!(chunk.is_some());
    let c = chunk.unwrap();
    assert_eq!(c.choices[0].delta.content.as_deref(), Some("hi"));
}

#[test]
fn test_chunk_from_done_event() {
    let event = StreamEvent::Done {
        content: "full".into(),
        usage: None,
    };
    let chunk = chunk_from_stream_event(&event, "m", "id", 1);
    assert!(chunk.is_some());
    let c = chunk.unwrap();
    assert_eq!(c.choices[0].finish_reason.as_deref(), Some("stop"));
}

#[test]
fn test_chunk_from_error_event_is_none() {
    let event = StreamEvent::Error(ZeptoError::Provider("fail".into()));
    let chunk = chunk_from_stream_event(&event, "m", "id", 1);
    assert!(chunk.is_none());
}

#[test]
fn test_chunk_from_empty_tool_calls_is_none() {
    let event = StreamEvent::ToolCalls(vec![]);
    let chunk = chunk_from_stream_event(&event, "m", "id", 1);
    assert!(chunk.is_none());
}

#[test]
fn test_chunk_from_tool_calls_event() {
    let tc = LLMToolCall::new("call_1", "search", r#"{"q":"rust"}"#);
    let event = StreamEvent::ToolCalls(vec![tc]);
    let chunk = chunk_from_stream_event(&event, "m", "id", 1);
    assert!(chunk.is_some());
    let c = chunk.unwrap();
    let tcs = c.choices[0].delta.tool_calls.as_ref().unwrap();
    assert_eq!(tcs.len(), 1);
    assert_eq!(tcs[0].function.name.as_deref(), Some("search"));
}

#[test]
fn test_completion_id_format() {
    let id = completion_id();
    assert!(id.starts_with("chatcmpl-"));
    assert!(id.len() > "chatcmpl-".len());
    assert_eq!(id.len(), 45);
    assert_ne!(completion_id(), id);
}

#[test]
fn test_unix_now_is_reasonable() {
    let now = unix_now();
    assert!(now > 1_704_067_200);
}

#[test]
fn test_usage_from_zepto() {
    let zu = Usage::new(5, 10);
    let u = usage_from_zepto(&zu);
    assert_eq!(u.prompt_tokens, 5);
    assert_eq!(u.completion_tokens, 10);
    assert_eq!(u.total_tokens, 15);
}

#[test]
fn test_usage_total_saturates() {
    let u = Usage::new(u32::MAX, 1);
    assert_eq!(u.total_tokens, u32::MAX);
}

#[test]
fn test_tools_from_openai_empty() {
    let tools = tools_from_openai(&[]);
    assert!(tools.is_empty());
}

#[test]
fn test_tools_from_openai_converts() {
    let schema: serde_json::Value = serde_json::from_str(
        r#"{"type": "object", "properties": {"location": {"type": "string"}}, "required": ["location"]}"#,
    )
    .unwrap();
    let params = vec![ToolParam {
        tool_type: "function".to_string(),
        function: FunctionDef {
            name: "get_weather".to_string(),
            description: Some("Get weather for a city".to_string()),
            parameters: Some(schema),
        },
    }];
    let defs = tools_from_openai(&params);
    assert_eq!(defs.len(), 1);
    assert_eq!(defs[0].name, "get_weather");
    assert_eq!(defs[0].description, "Get weather for a city");
    assert!(defs[0].parameters["properties"]["location"].is_object());
}

#[test]
fn test_tools_from_openai_defaults() {
    let params = vec![ToolParam {
        tool_type: "function".to_string(),
        function: FunctionDef {
            name: "ping".to_string(),
            description: None,
            parameters: None,
        },
    }];
    let defs = tools_from_openai(&params);
    assert_eq!(defs[0].description, "");
    let expected: serde_json::Value = serde_json::from_str(r#"{"type": "object"}"#).unwrap();
    assert_eq!(defs[0].parameters, expected);
}
