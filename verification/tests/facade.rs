use zeptoclaw::agent::facade::{
    find_tool, tool_result, ChatStep, ToolOutcome, ZeptoAgentBuilder, DEFAULT_MAX_ITERATIONS,
};
use zeptoclaw::error::ZeptoError;
use zeptoclaw::providers::{LLMResponse, LLMToolCall};
use zeptoclaw::session::Role;

#[derive(Debug, PartialEq)]
struct Provider(&'static str);

#[derive(Debug, PartialEq)]
struct Tool(&'static str);

#[test]
fn test_builder_no_provider() {
    let r = ZeptoAgentBuilder::<Provider, Tool>::new().build();
    match r {
        Err(ZeptoError::Config(m)) => assert!(m.contains("requires a provider")),
        _ => panic!("expected a configuration error"),
    }
}

#[test]
fn test_builder_minimal() {
    let agent = ZeptoAgentBuilder::<Provider, Tool>::new()
        .provider(Provider("mock"))
        .build()
        .unwrap();
    assert_eq!(agent.provider(), &Provider("mock"));
    assert_eq!(agent.tool_count(), 0);
    assert_eq!(agent.history_len(), 0);
    assert_eq!(agent.max_iterations(), DEFAULT_MAX_ITERATIONS);
    assert_eq!(agent.system_prompt(), "You are a helpful AI assistant.");
    assert!(agent.model().is_none());
}

#[test]
fn test_builder_with_tools() {
    let agent = ZeptoAgentBuilder::new()
        .provider(Provider("mock"))
        .tool(Tool("echo"))
        .tools(vec![Tool("a"), Tool("b")])
        .system_prompt("Be brief.")
        .model("m-1")
        .max_iterations(3)
        .build()
        .unwrap();
    assert_eq!(agent.tool_count(), 3);
    assert_eq!(agent.tools()[2], Tool("b"));
    assert_eq!(agent.system_prompt(), "Be brief.");
    assert_eq!(agent.model(), Some("m-1"));
    assert_eq!(agent.max_iterations(), 3);
}

#[test]
fn test_chat_returns_response_and_keeps_history() {
    let mut agent = ZeptoAgentBuilder::<Provider, Tool>::new()
        .provider(Provider("mock"))
        .build()
        .unwrap();
    let (_turn, step) = agent.begin_chat("Hello");
    assert!(matches!(step, ChatStep::CallProvider));
    match agent.on_provider_response(&LLMResponse::text("Hi there")) {
        ChatStep::Reply(s) => assert_eq!(s, "Hi there"),
        other => panic!("unexpected {:?}", other),
    }
    assert_eq!(agent.history_len(), 2);
    assert_eq!(agent.history()[0].role, Role::User);
    assert_eq!(agent.history()[1].content, "Hi there");

    let (_turn, _) = agent.begin_chat("Again");
    agent.on_provider_response(&LLMResponse::text("Sure"));
    assert_eq!(agent.history_len(), 4);
    agent.clear_history();
    assert_eq!(agent.history_len(), 0);
}

#[test]
fn test_tool_execution_loop_and_cap() {
    let mut agent = ZeptoAgentBuilder::<Provider, Tool>::new()
        .provider(Provider("mock"))
        .max_iterations(1)
        .build()
        .unwrap();
    let (turn, _) = agent.begin_chat("use a tool");
    let calls = vec![LLMToolCall::new("c1", "echo", "{}")];
    let step = agent.on_provider_response(&LLMResponse::with_tools("", calls.clone()));
    assert!(matches!(step, ChatStep::RunTools));
    let results = vec![tool_result("echo", ToolOutcome::Output("done".into()))];
    let (_turn, step) = agent.on_tool_results(turn, &calls, results);
    match step {
        ChatStep::Reply(s) => assert_eq!(s, "I've completed the requested actions."),
        other => panic!("unexpected {:?}", other),
    }
    let h = agent.history();
    assert_eq!(h.len(), 4);
    assert_eq!(h[1].tool_calls.as_ref().unwrap()[0].name, "echo");
    assert_eq!(h[2].role, Role::Tool);
    assert_eq!(h[2].tool_call_id.as_deref(), Some("c1"));
    assert_eq!(h[2].content, "done");
}

#[test]
fn test_zero_iterations_replies_at_once() {
    let mut agent = ZeptoAgentBuilder::<Provider, Tool>::new()
        .provider(Provider("mock"))
        .max_iterations(0)
        .build()
        .unwrap();
    let (_turn, step) = agent.begin_chat("hi");
    assert!(matches!(step, ChatStep::Reply(_)));
    assert_eq!(agent.history_len(), 2);
}

#[test]
fn test_tool_result_texts() {
    assert_eq!(tool_result("x", ToolOutcome::Output("ok".into())), "ok");
    assert_eq!(tool_result("x", ToolOutcome::Failed("boom".into())), "Tool error: boom");
    assert_eq!(tool_result("nope", ToolOutcome::Unknown), "Unknown tool: nope");
    let names = vec!["a".to_string(), "b".to_string(), "b".to_string()];
    assert_eq!(find_tool(&names, "b"), Some(1));
    assert_eq!(find_tool(&names, "c"), None);
}

#[test]
fn test_chat_returns_response() {
    let mut agent = ZeptoAgentBuilder::<Provider, Tool>::new()
        .provider(Provider("mock"))
        .build()
        .unwrap();
    let (_turn, step) = agent.begin_chat("Hi");
    assert!(matches!(step, ChatStep::CallProvider));
    // The provider is called with the system prompt, then the user message.
    let (system, history) = agent.provider_request();
    assert_eq!(system.role, Role::System);
    assert_eq!(system.content, "You are a helpful AI assistant.");
    assert_eq!(history.len(), 1);
    assert_eq!(history[0].role, Role::User);
    assert_eq!(history[0].content, "Hi");
    match agent.on_provider_response(&LLMResponse::text("Hello there!")) {
        ChatStep::Reply(s) => assert_eq!(s, "Hello there!"),
        other => panic!("unexpected {:?}", other),
    }
    assert_eq!(agent.history_len(), 2);
    assert_eq!(agent.history()[1].role, Role::Assistant);
    assert_eq!(agent.history()[1].content, "Hello there!");
    let _ = agent.begin_chat("More");
    let (_, history) = agent.provider_request();
    assert_eq!(history.len(), 3);
    agent.on_provider_response(&LLMResponse::text("Ok"));
    assert_eq!(agent.history_len(), 4);
}
