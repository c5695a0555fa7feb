use zeptoclaw::agent::loop_guard::{LoopGuard, LoopGuardDecision, ToolCallSig};

fn call<'a>(name: &'a str, arguments: &'a str) -> ToolCallSig<'a> {
    ToolCallSig { name, arguments }
}

#[test]
fn test_detects_single_tool_repetition() {
    let mut guard = LoopGuard::new(10, 3, 3);
    assert_eq!(
        guard.record_batch(&[call("web_search", r#"{"q":"rust"}"#)]),
        LoopGuardDecision::Continue
    );
    assert_eq!(
        guard.record_batch(&[call("web_search", r#"{"q":"rust"}"#)]),
        LoopGuardDecision::Continue
    );
    match guard.record_batch(&[call("web_search", r#"{"q":"rust"}"#)]) {
        LoopGuardDecision::Warn { occurrences, .. } => assert_eq!(occurrences, 3),
        other => panic!("unexpected decision: {other:?}"),
    }
}

#[test]
fn test_detects_ping_pong_batch_repetition() {
    let mut guard = LoopGuard::new(10, 3, 3);
    let batch = [call("tool_a", r#"{"x":1}"#), call("tool_b", r#"{"y":2}"#)];
    assert_eq!(guard.record_batch(&batch), LoopGuardDecision::Continue);
    assert_eq!(guard.record_batch(&batch), LoopGuardDecision::Continue);
    match guard.record_batch(&batch) {
        LoopGuardDecision::Warn { occurrences, .. } => assert_eq!(occurrences, 3),
        other => panic!("unexpected decision: {other:?}"),
    }
}

#[test]
fn test_circuit_breaker_after_n_detections() {
    let mut guard = LoopGuard::new(10, 2, 2);
    let batch = [call("echo", r#"{"message":"x"}"#)];
    assert_eq!(guard.record_batch(&batch), LoopGuardDecision::Continue);
    assert!(matches!(
        guard.record_batch(&batch),
        LoopGuardDecision::Warn { .. }
    ));
    assert!(matches!(
        guard.record_batch(&batch),
        LoopGuardDecision::Break { .. }
    ));
}

#[test]
fn loop_guard_empty_batch_continues() {
    let mut guard = LoopGuard::new(0, 0, 0);
    for _ in 0..5 {
        assert_eq!(guard.record_batch(&[]), LoopGuardDecision::Continue);
    }
}

#[test]
fn loop_guard_normalizes_json_whitespace() {
    // The same JSON arguments written differently hash alike.
    let mut guard = LoopGuard::new(10, 2, 5);
    assert_eq!(guard.record_batch(&[call("t", r#"{"a": 1}"#)]), LoopGuardDecision::Continue);
    match guard.record_batch(&[call("t", r#" {"a":1} "#)]) {
        LoopGuardDecision::Warn { hash, occurrences, loops_detected } => {
            assert_eq!(occurrences, 2);
            assert_eq!(loops_detected, 1);
            assert_eq!(hash.len(), 64);
            assert!(hash.chars().all(|c| c.is_ascii_hexdigit() && !c.is_ascii_uppercase()));
        }
        other => panic!("unexpected decision: {other:?}"),
    }
}

#[test]
fn loop_guard_window_forgets_old_batches() {
    // Window of 2: a, b, a -> the first `a` has left the window.
    let mut guard = LoopGuard::new(2, 2, 5);
    assert_eq!(guard.record_batch(&[call("a", "x")]), LoopGuardDecision::Continue);
    assert_eq!(guard.record_batch(&[call("b", "x")]), LoopGuardDecision::Continue);
    assert_eq!(guard.record_batch(&[call("c", "x")]), LoopGuardDecision::Continue);
    assert_eq!(guard.record_batch(&[call("a", "x")]), LoopGuardDecision::Continue);
    assert!(matches!(guard.record_batch(&[call("a", "x")]), LoopGuardDecision::Warn { .. }));
}

#[test]
fn loop_guard_different_arguments_do_not_repeat() {
    let mut guard = LoopGuard::new(10, 2, 2);
    assert_eq!(guard.record_batch(&[call("s", r#"{"q":1}"#)]), LoopGuardDecision::Continue);
    assert_eq!(guard.record_batch(&[call("s", r#"{"q":2}"#)]), LoopGuardDecision::Continue);
    assert_eq!(guard.record_batch(&[call("s", "not json  ")]), LoopGuardDecision::Continue);
    // Non-JSON arguments are trimmed before hashing.
    assert!(matches!(guard.record_batch(&[call("s", "  not json")]), LoopGuardDecision::Warn { .. }));
}
