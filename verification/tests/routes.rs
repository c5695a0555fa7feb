use zeptoclaw::api::auth::hash_password;
use zeptoclaw::api::middleware::{auth_step, is_auth_exempt, AuthStep};
use zeptoclaw::api::openai_types::{supports_tool_choice, ChatMessage, ToolChoice};
use zeptoclaw::api::routes::auth::{login_outcome, LoginOutcome, LoginRequest};
use zeptoclaw::api::routes::metrics::token_totals;
use zeptoclaw::api::routes::openai::{
    check_completion_request, list_models, ProviderModel, SseFrame, StreamState, StreamStep,
};
use zeptoclaw::providers::{LLMToolCall, StreamEvent};

#[test]
fn auth_exempt_paths() {
    assert!(is_auth_exempt("/api/health"));
    assert!(is_auth_exempt("/api/auth/login"));
    assert!(is_auth_exempt("/ws/events"));
    assert!(!is_auth_exempt("/api/healthz"));
    assert!(!is_auth_exempt("/ws"));
}

#[test]
fn auth_steps() {
    assert_eq!(auth_step("/api/health", None, "tok"), AuthStep::Allow);
    assert_eq!(auth_step("/api/tasks", None, "tok"), AuthStep::Reject);
    assert_eq!(auth_step("/api/tasks", Some("Bearer tok"), "tok"), AuthStep::Allow);
    assert_eq!(auth_step("/api/tasks", Some("bearer tok"), "tok"), AuthStep::Reject);
    assert_eq!(
        auth_step("/api/tasks", Some("Bearer eyJ.x.y"), "tok"),
        AuthStep::CheckJwt("eyJ.x.y".to_string())
    );
}

#[test]
fn login_outcomes() {
    let req = LoginRequest { password: "hunter2".into() };
    assert_eq!(login_outcome(&req, None), LoginOutcome::NotConfigured);
    let hash = hash_password("hunter2").unwrap();
    assert_eq!(login_outcome(&req, Some(&hash)), LoginOutcome::IssueToken);
    let wrong = LoginRequest { password: "nope".into() };
    assert_eq!(login_outcome(&wrong, Some(&hash)), LoginOutcome::WrongPassword);
    assert_eq!(login_outcome(&req, Some("garbage")), LoginOutcome::CheckFailed);
}

#[test]
fn metrics_token_totals() {
    assert_eq!(token_totals(Some((1, 2)), Some((3, 4))), (1, 2));
    assert_eq!(token_totals(None, Some((3, 4))), (3, 4));
    assert_eq!(token_totals(None, None), (0, 0));
}

fn msg(role: &str) -> ChatMessage {
    ChatMessage { role: role.into(), content: Some("x".into()), tool_calls: None, tool_call_id: None }
}

#[test]
fn test_supports_tool_choice() {
    assert!(supports_tool_choice(&ToolChoice::Absent));
    assert!(supports_tool_choice(&ToolChoice::Null));
    assert!(supports_tool_choice(&ToolChoice::Text("auto".to_string())));
    assert!(!supports_tool_choice(&ToolChoice::Text("required".to_string())));
    assert!(!supports_tool_choice(&ToolChoice::Other));
}

#[test]
fn completion_request_checks() {
    let e = check_completion_request(false, &[msg("user")], &ToolChoice::Absent).unwrap_err();
    assert_eq!(e.status, 503);
    assert_eq!(e.message, "No LLM provider configured");
    let e = check_completion_request(true, &[msg("function")], &ToolChoice::Absent).unwrap_err();
    assert_eq!(e.status, 400);
    assert_eq!(e.message, "unsupported message role: function");
    let e = check_completion_request(true, &[msg("user")], &ToolChoice::Other).unwrap_err();
    assert_eq!(e.status, 400);
    assert!(e.message.starts_with("unsupported tool_choice"));
    let ok = check_completion_request(true, &[msg("system"), msg("user")], &ToolChoice::Null).unwrap();
    assert_eq!(ok.len(), 2);
}

#[test]
fn model_listing() {
    let configured = vec![
        ProviderModel { provider: "anthropic".into(), model: Some("m-a".into()) },
        ProviderModel { provider: "openai".into(), model: None },
    ];
    let r = list_models(&configured, "default-m", Some(("x", "y")));
    assert_eq!(r.object, "list");
    assert_eq!(r.data.len(), 2);
    assert_eq!(r.data[0].id, "m-a");
    assert_eq!(r.data[0].owned_by, "zeptoclaw/anthropic");
    assert_eq!(r.data[1].id, "default-m");
    assert_eq!(r.data[1].object, "model");
    assert_eq!(r.data[1].created, 0);
    let r = list_models(&vec![], "d", Some(("fallback-model", "mock")));
    assert_eq!(r.data.len(), 1);
    assert_eq!(r.data[0].owned_by, "zeptoclaw/mock");
    assert!(list_models(&vec![], "d", None).data.is_empty());
}

#[test]
fn stream_text_then_done() {
    let s = StreamState::initial();
    let s = match s.poll("m", "id", 7) {
        StreamStep::Emit(SseFrame::Chunk(c), s) => {
            assert_eq!(c.choices[0].delta.role.as_deref(), Some("assistant"));
            s
        }
        other => panic!("unexpected {:?}", other),
    };
    assert!(matches!(s.poll("m", "id", 7), StreamStep::AwaitEvent));
    let (frame, s) = StreamState::on_event(Some(&StreamEvent::Delta("hi".into())), "m", "id", 7);
    match frame {
        SseFrame::Chunk(c) => assert_eq!(c.choices[0].delta.content.as_deref(), Some("hi")),
        other => panic!("unexpected {:?}", other),
    }
    let done = StreamEvent::Done { content: "hi".into(), usage: None };
    let (frame, s) = StreamState::on_event(Some(&done), "m", "id", 7);
    match frame {
        SseFrame::Chunk(c) => assert_eq!(c.choices[0].finish_reason.as_deref(), Some("stop")),
        other => panic!("unexpected {:?}", other),
    }
    let s = match s.poll("m", "id", 7) {
        StreamStep::Emit(SseFrame::DoneSentinel, s) => s,
        other => panic!("unexpected {:?}", other),
    };
    assert!(matches!(s.poll("m", "id", 7), StreamStep::End));
}

#[test]
fn stream_tool_calls_then_stop() {
    let s = StreamState { sent_first: true, done: false, sent_done_sentinel: false, pending_tool_stop: false };
    let ev = StreamEvent::ToolCalls(vec![LLMToolCall::new("c", "f", "{}")]);
    let (frame, s2) = StreamState::on_event(Some(&ev), "m", "id", 1);
    assert!(matches!(frame, SseFrame::Chunk(_)));
    assert!(s2.pending_tool_stop);
    match s2.poll("m", "id", 1) {
        StreamStep::Emit(SseFrame::Chunk(c), s3) => {
            assert_eq!(c.choices[0].finish_reason.as_deref(), Some("tool_calls"));
            assert!(s3.done);
        }
        other => panic!("unexpected {:?}", other),
    }
    let (frame, _) = StreamState::on_event(Some(&StreamEvent::ToolCalls(vec![])), "m", "id", 1);
    assert!(matches!(frame, SseFrame::SkipComment));
    let (frame, end) = StreamState::on_event(None, "m", "id", 1);
    assert!(matches!(frame, SseFrame::DoneSentinel));
    assert!(end.sent_done_sentinel);
    let _ = s;
}

fn run_stream(events: Vec<Option<StreamEvent>>) -> Vec<String> {
    let mut out = Vec::new();
    let mut s = StreamState::initial();
    let mut evs = events.into_iter();
    loop {
        match s.poll("m", "id", 3) {
            StreamStep::End => break,
            StreamStep::Emit(f, t) => {
                out.push(describe(&f));
                s = t;
            }
            StreamStep::AwaitEvent => match evs.next() {
                Some(ev) => {
                    let (f, t) = StreamState::on_event(ev.as_ref(), "m", "id", 3);
                    out.push(describe(&f));
                    s = t;
                }
                None => break,
            },
        }
    }
    out
}

fn describe(f: &SseFrame) -> String {
    match f {
        SseFrame::DoneSentinel => "[DONE]".to_string(),
        SseFrame::SkipComment => "skip".to_string(),
        SseFrame::Chunk(c) => {
            let ch = &c.choices[0];
            if ch.delta.role.is_some() {
                "role".to_string()
            } else if ch.delta.tool_calls.is_some() {
                "tool_calls".to_string()
            } else if let Some(r) = &ch.finish_reason {
                format!("finish:{}", r)
            } else {
                format!("text:{}", ch.delta.content.clone().unwrap_or_default())
            }
        }
    }
}

#[test]
fn stream_whole_run_orders_frames() {
    let run = run_stream(vec![
        Some(StreamEvent::Delta("a".into())),
        Some(StreamEvent::ToolCalls(vec![])),
        Some(StreamEvent::Delta("b".into())),
        None,
        Some(StreamEvent::Delta("late".into())),
    ]);
    assert_eq!(run, vec!["role", "text:a", "skip", "text:b", "[DONE]"]);

    let run = run_stream(vec![
        Some(StreamEvent::Delta("a".into())),
        Some(StreamEvent::ToolCalls(vec![LLMToolCall::new("c", "f", "{}")])),
        Some(StreamEvent::Delta("late".into())),
    ]);
    assert_eq!(run, vec!["role", "text:a", "tool_calls", "finish:tool_calls", "[DONE]"]);

    let run = run_stream(vec![Some(StreamEvent::Done { content: "x".into(), usage: None }), None]);
    assert_eq!(run, vec!["role", "finish:stop", "[DONE]"]);
    assert_eq!(run.iter().filter(|f| f.as_str() == "[DONE]").count(), 1);
}
