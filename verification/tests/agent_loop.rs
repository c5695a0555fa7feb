use zeptoclaw::agent::agent_loop::{
    begin_run, build_pipeline_static, end_run, loop_step, LoopAction, LoopEvent, finish_inbound, outcome_message, queue_or_process, AgentStage, replay_queued, token_delta, PendingMessages, QueuedReplay,
    RunOutcome,
};
use zeptoclaw::bus::{get_meta, insert_meta, propagate_routing_metadata, InboundMessage, OutboundMessage};
use zeptoclaw::config::{AgentDefaults, AgentsConfig, Config, MessageQueueMode, SafetyConfig};
use zeptoclaw::error::ZeptoError;

fn inbound(session: &str, content: &str) -> InboundMessage {
    InboundMessage {
        channel: "telegram".into(),
        sender_id: "u1".into(),
        chat_id: "c1".into(),
        content: content.into(),
        session_key: session.into(),
        metadata: vec![],
    }
}

#[test]
fn pending_messages_are_fifo_per_session() {
    let mut p = PendingMessages::new();
    p.queue(inbound("s1", "a"));
    p.queue(inbound("s2", "x"));
    p.queue(inbound("s1", "b"));
    let q = p.take("s1");
    let contents: Vec<&str> = q.iter().map(|m| m.content.as_str()).collect();
    assert_eq!(contents, vec!["a", "b"]);
    assert!(p.take("s1").is_empty());
    assert_eq!(p.take("s2").len(), 1);
}

#[test]
fn replay_modes() {
    assert!(matches!(replay_queued(MessageQueueMode::Collect, vec![]), QueuedReplay::Nothing));
    match replay_queued(MessageQueueMode::Collect, vec![inbound("s", "first"), inbound("s", "second")]) {
        QueuedReplay::Combined(s) => assert_eq!(
            s,
            "[Queued messages while I was busy]\n\n1. first\n2. second"
        ),
        other => panic!("unexpected {:?}", other),
    }
    match replay_queued(MessageQueueMode::Followup, vec![inbound("s", "a"), inbound("s", "b")]) {
        QueuedReplay::OneByOne(v) => assert_eq!(v[1].content, "b"),
        other => panic!("unexpected {:?}", other),
    }
}

#[test]
fn outcome_messages() {
    assert_eq!(outcome_message(RunOutcome::Replied("hi".into()), 30), ("hi".to_string(), true));
    assert_eq!(
        outcome_message(RunOutcome::Failed(ZeptoError::Provider("down".into())), 30),
        ("Error: Provider error: down".to_string(), false)
    );
    assert_eq!(
        outcome_message(RunOutcome::TimedOut, 300),
        ("Agent run timed out after 300s. Try a simpler request.".to_string(), false)
    );
}

#[test]
fn token_deltas() {
    assert_eq!(token_delta(Some((10, 20)), Some((15, 26))), (5, 6));
    assert_eq!(token_delta(Some((10, 20)), Some((5, 26))), (0, 6));
    assert_eq!(token_delta(None, Some((5, 6))), (0, 0));
    assert_eq!(token_delta(Some((1, 1)), None), (0, 0));
}

#[test]
fn routing_metadata_propagates_thread_id() {
    let mut inb = inbound("s", "x");
    inb.metadata.push(("telegram_thread_id".into(), "42".into()));
    let mut out = OutboundMessage {
        channel: "telegram".into(),
        chat_id: "c1".into(),
        content: "reply".into(),
        reply_to: None,
        metadata: vec![("other".into(), "v".into()), ("telegram_thread_id".into(), "old".into())],
    };
    propagate_routing_metadata(&mut out, &inb);
    assert_eq!(get_meta(&out.metadata, "telegram_thread_id").map(|s| s.as_str()), Some("42"));
    assert_eq!(get_meta(&out.metadata, "other").map(|s| s.as_str()), Some("v"));
    assert_eq!(out.metadata.len(), 2);

    let plain = inbound("s", "x");
    let mut out2 = out.clone();
    propagate_routing_metadata(&mut out2, &plain);
    assert_eq!(out2, out);
}

#[test]
fn metadata_read_after_write() {
    let mut md: Vec<(String, String)> = vec![];
    insert_meta(&mut md, "k", "v1".into());
    insert_meta(&mut md, "k", "v2".into());
    insert_meta(&mut md, "j", "w".into());
    assert_eq!(get_meta(&md, "k").map(|s| s.as_str()), Some("v2"));
    assert_eq!(get_meta(&md, "j").map(|s| s.as_str()), Some("w"));
    assert_eq!(get_meta(&md, "z"), None);
}

#[test]
fn finish_inbound_replies_once_per_outcome() {
    let mut msg = inbound("s1", "hi");
    msg.metadata.push(("telegram_thread_id".to_string(), "42".to_string()));
    msg.metadata.push(("other".to_string(), "x".to_string()));

    let done = finish_inbound(&msg, RunOutcome::Replied("hello".into()), 300, MessageQueueMode::Collect, vec![]);
    assert_eq!(done.reply.channel, "telegram");
    assert_eq!(done.reply.chat_id, "c1");
    assert_eq!(done.reply.content, "hello");
    assert_eq!(done.reply.reply_to, None);
    assert_eq!(done.reply.metadata, vec![("telegram_thread_id".to_string(), "42".to_string())]);
    assert!(done.completed);
    assert!(matches!(done.replay, QueuedReplay::Nothing));

    let failed = finish_inbound(
        &msg,
        RunOutcome::Failed(ZeptoError::Provider("down".into())),
        300,
        MessageQueueMode::Followup,
        vec![inbound("s1", "a"), inbound("s1", "b")],
    );
    assert_eq!(failed.reply.content, "Error: Provider error: down");
    assert!(!failed.completed);
    match failed.replay {
        QueuedReplay::OneByOne(v) => {
            assert_eq!(v.len(), 2);
            assert_eq!(v[0].content, "a");
            assert_eq!(v[1].content, "b");
        }
        _ => panic!("expected follow-up replay"),
    }

    let timed_out = finish_inbound(
        &inbound("s2", "q"),
        RunOutcome::TimedOut,
        120,
        MessageQueueMode::Collect,
        vec![inbound("s2", "x"), inbound("s2", "y")],
    );
    assert_eq!(timed_out.reply.content, "Agent run timed out after 120s. Try a simpler request.");
    assert!(timed_out.reply.metadata.is_empty());
    assert!(!timed_out.completed);
    match timed_out.replay {
        QueuedReplay::Combined(s) => assert_eq!(s, "[Queued messages while I was busy]\n\n1. x\n2. y"),
        _ => panic!("expected a combined replay"),
    }
}

#[test]
fn begin_run_refuses_a_second_start() {
    let mut running = false;
    assert_eq!(begin_run(&mut running), Ok(()));
    assert!(running);
    assert_eq!(
        begin_run(&mut running),
        Err(ZeptoError::Config("Agent loop already running".into()))
    );
    assert!(running);
}

#[test]
fn queue_or_process_queues_only_busy_sessions() {
    let mut pending = PendingMessages::new();
    let free = queue_or_process(&mut pending, false, inbound("s1", "now"));
    assert_eq!(free.map(|m| m.content), Some("now".to_string()));
    assert!(pending.take("s1").is_empty());
    assert!(queue_or_process(&mut pending, true, inbound("s1", "later")).is_none());
    assert!(queue_or_process(&mut pending, true, inbound("s1", "later2")).is_none());
    let q = pending.take("s1");
    assert_eq!(q.len(), 2);
    assert_eq!(q[0].content, "later");
    assert_eq!(q[1].content, "later2");
}

fn config(safety: bool, injection: bool) -> Config {
    Config {
        safety: SafetyConfig { enabled: safety, injection_check_enabled: injection },
        agents: AgentsConfig { defaults: AgentDefaults { model: "m".into() } },
    }
}

#[test]
fn pipeline_order_follows_configuration() {
    let full = build_pipeline_static(&config(true, true), true);
    let mut stages = Vec::new();
    let mut next = full.start();
    loop {
        match next.run() {
            zeptoclaw::agent::pipeline::NextStage::Middleware(s, rest) => {
                stages.push(*s);
                next = rest;
            }
            zeptoclaw::agent::pipeline::NextStage::Terminal(_) => break,
        }
    }
    assert_eq!(
        stages,
        vec![
            AgentStage::SessionSave,
            AgentStage::Metrics,
            AgentStage::Feedback,
            AgentStage::InjectionScan,
            AgentStage::ProviderResolution,
            AgentStage::Session,
            AgentStage::Compaction,
            AgentStage::MemoryInjection,
            AgentStage::ContextBuild,
            AgentStage::TokenBudget,
            AgentStage::Cache,
        ]
    );
    assert_eq!(build_pipeline_static(&config(true, false), false).len(), 9);
    assert_eq!(build_pipeline_static(&config(false, true), true).len(), 10);
}

#[test]
fn agent_loop_restarts_after_its_run_ends() {
    let mut running = false;
    assert_eq!(begin_run(&mut running), Ok(()));
    assert!(begin_run(&mut running).is_err());
    end_run(&mut running);
    assert!(!running);
    assert_eq!(begin_run(&mut running), Ok(()));
    assert!(running);
    end_run(&mut running);
    assert!(!running);
}

#[test]
fn loop_step_stops_on_shutdown_or_closed_channel() {
    let mut pending = PendingMessages::new();
    assert!(matches!(loop_step(&mut pending, LoopEvent::Shutdown(true), true, false), LoopAction::Stop));
    assert!(matches!(loop_step(&mut pending, LoopEvent::Shutdown(false), true, false), LoopAction::Continue));
    assert!(matches!(loop_step(&mut pending, LoopEvent::ChannelClosed, true, false), LoopAction::Stop));
    assert!(pending.take("s1").is_empty());
}

#[test]
fn loop_step_rejects_unpaired_devices_and_queues_busy_sessions() {
    let mut pending = PendingMessages::new();
    let mut msg = inbound("s1", "hello");
    insert_meta(&mut msg.metadata, "telegram_thread_id", "42".to_string());
    match loop_step(&mut pending, LoopEvent::Inbound(msg), false, true) {
        LoopAction::Reject(reply) => {
            assert_eq!(
                reply.content,
                "Access denied: device not paired. Use `zeptoclaw pair new` to generate a pairing code."
            );
            assert_eq!(reply.channel, "telegram");
            assert_eq!(get_meta(&reply.metadata, "telegram_thread_id").map(|s| s.as_str()), Some("42"));
        }
        other => panic!("unexpected {:?}", other),
    }
    assert!(pending.take("s1").is_empty());
    assert!(matches!(
        loop_step(&mut pending, LoopEvent::Inbound(inbound("s1", "later")), true, true),
        LoopAction::Queued
    ));
    match loop_step(&mut pending, LoopEvent::Inbound(inbound("s2", "now")), true, false) {
        LoopAction::Process(m) => assert_eq!(m.content, "now"),
        other => panic!("unexpected {:?}", other),
    }
    let q = pending.take("s1");
    assert_eq!(q.len(), 1);
    assert_eq!(q[0].content, "later");
}
