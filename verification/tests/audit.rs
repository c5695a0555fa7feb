use zeptoclaw::audit::{
    audit_tip_hash, genesis_hash, log_audit_event, recent_audit_entries, record_audit_chain_event,
    sanitize_text, verify_audit_chain_integrity, AuditAction, AuditCategory, AuditHashChain,
    AuditLogLevel, AuditSeverity,
};

#[test]
fn test_audit_category_display() {
    assert_eq!(AuditCategory::LeakDetection.to_string(), "leak_detection");
    assert_eq!(
        AuditCategory::PolicyViolation.to_string(),
        "policy_violation"
    );
    assert_eq!(
        AuditCategory::InjectionAttempt.to_string(),
        "injection_attempt"
    );
    assert_eq!(AuditCategory::ShellSecurity.to_string(), "shell_security");
    assert_eq!(AuditCategory::PathSecurity.to_string(), "path_security");
    assert_eq!(AuditCategory::MountSecurity.to_string(), "mount_security");
    assert_eq!(
        AuditCategory::PluginIntegrity.to_string(),
        "plugin_integrity"
    );
    assert_eq!(
        AuditCategory::ToolChainAlert.to_string(),
        "tool_chain_alert"
    );
    assert_eq!(AuditCategory::TaintViolation.to_string(), "taint_violation");
}

#[test]
fn test_audit_severity_display() {
    assert_eq!(AuditSeverity::Info.to_string(), "info");
    assert_eq!(AuditSeverity::Warning.to_string(), "warning");
    assert_eq!(AuditSeverity::Critical.to_string(), "critical");
}

#[test]
fn test_audit_action_display() {
    assert_eq!(AuditAction::ToolInvoke.to_string(), "tool_invoke");
    assert_eq!(AuditAction::ShellExec.to_string(), "shell_exec");
    assert_eq!(AuditAction::NetworkAccess.to_string(), "network_access");
    assert_eq!(AuditAction::AgentSpawn.to_string(), "agent_spawn");
    assert_eq!(AuditAction::AgentMessage.to_string(), "agent_message");
    assert_eq!(AuditAction::MemoryAccess.to_string(), "memory_access");
    assert_eq!(AuditAction::FileAccess.to_string(), "file_access");
    assert_eq!(AuditAction::AuthAttempt.to_string(), "auth_attempt");
    assert_eq!(AuditAction::ConfigChange.to_string(), "config_change");
}

#[test]
fn test_hash_chain_record_and_verify() {
    let mut chain = AuditHashChain::new();

    let first = chain.record("agent-a", AuditAction::ToolInvoke, "tool=echo", "success");
    let second = chain.record("agent-a", AuditAction::ShellExec, "tool=shell", "success");

    assert_eq!(first.seq, 1);
    assert_eq!(second.seq, 2);
    assert_eq!(second.prev_hash, first.hash);
    assert_eq!(chain.verify_integrity(), Ok(()));
}

#[test]
fn test_hash_chain_recent_and_tip() {
    let mut chain = AuditHashChain::new();
    assert_eq!(chain.tip_hash(), genesis_hash());

    let first = chain.record("agent-x", AuditAction::ToolInvoke, "tool=echo", "ok");
    let second = chain.record(
        "agent-x",
        AuditAction::NetworkAccess,
        "tool=web_fetch",
        "ok",
    );
    assert_ne!(first.hash, chain.tip_hash());
    assert_eq!(second.hash, chain.tip_hash());

    let recent = chain.recent(1);
    assert_eq!(recent.len(), 1);
    assert_eq!(recent[0].seq, 2);
}

#[test]
fn test_log_audit_event_info() {
    log_audit_event(
        AuditCategory::LeakDetection,
        AuditSeverity::Info,
        "secret_warn",
        "Potential secret detected",
        false,
    );
}

#[test]
fn test_log_audit_event_warning() {
    log_audit_event(
        AuditCategory::InjectionAttempt,
        AuditSeverity::Warning,
        "injection_sanitized",
        "Prompt injection pattern removed",
        false,
    );
}

#[test]
fn test_log_audit_event_critical() {
    log_audit_event(
        AuditCategory::PolicyViolation,
        AuditSeverity::Critical,
        "policy_block",
        "System file access blocked",
        true,
    );
}

#[test]
fn test_audit_enums_debug_partial_eq() {
    assert_eq!(AuditCategory::ShellSecurity, AuditCategory::ShellSecurity);
    assert_ne!(AuditCategory::ShellSecurity, AuditCategory::PathSecurity);
    assert_eq!(AuditSeverity::Critical, AuditSeverity::Critical);
    assert_ne!(AuditSeverity::Info, AuditSeverity::Warning);
    assert_eq!(AuditAction::AuthAttempt, AuditAction::AuthAttempt);
    assert_ne!(AuditAction::AuthAttempt, AuditAction::ConfigChange);

    let dbg = format!("{:?}", AuditCategory::MountSecurity);
    assert!(dbg.contains("MountSecurity"));
    let dbg = format!("{:?}", AuditSeverity::Warning);
    assert!(dbg.contains("Warning"));
    let dbg = format!("{:?}", AuditAction::ShellExec);
    assert!(dbg.contains("ShellExec"));
}

#[test]
fn audit_log_levels_follow_severity() {
    let r = log_audit_event(AuditCategory::LeakDetection, AuditSeverity::Info, "e", "d", false);
    assert_eq!(r.level, AuditLogLevel::Info);
    let r = log_audit_event(AuditCategory::LeakDetection, AuditSeverity::Warning, "e", "d", false);
    assert_eq!(r.level, AuditLogLevel::Warn);
    let r = log_audit_event(AuditCategory::PolicyViolation, AuditSeverity::Critical, "ev", "dt", true);
    assert_eq!(r.level, AuditLogLevel::Error);
    assert_eq!(r.event_type, "ev");
    assert_eq!(r.detail, "dt");
    assert!(r.blocked);
}

#[test]
fn audit_genesis_is_64_zeros() {
    let g = genesis_hash();
    assert_eq!(g.len(), 64);
    assert!(g.chars().all(|c| c == '0'));
}

#[test]
fn audit_sanitize_text_trims_flattens_and_cuts() {
    assert_eq!(sanitize_text("  a\nb\rc  ", 100), "a b c");
    assert_eq!(sanitize_text("abcdef", 3), "abc");
    assert_eq!(sanitize_text("   ", 3), "");
}

#[test]
fn audit_record_at_fixed_time_is_deterministic() {
    let mut a = AuditHashChain::new();
    let mut b = AuditHashChain::new();
    let e1 = a.record_at("2024-01-01T00:00:00+00:00".to_string(), "x", AuditAction::FileAccess, "d", "o");
    let e2 = b.record_at("2024-01-01T00:00:00+00:00".to_string(), "x", AuditAction::FileAccess, "d", "o");
    assert_eq!(e1, e2);
    assert_eq!(e1.prev_hash, genesis_hash());
    assert_eq!(e1.hash.len(), 64);
    let e3 = b.record_at("2024-01-01T00:00:00+00:00".to_string(), "x", AuditAction::FileAccess, "d", "o");
    assert_ne!(e3.hash, e2.hash);
    assert_eq!(e3.prev_hash, e2.hash);
}

#[test]
fn audit_free_functions_and_long_fields() {
    let mut chain = AuditHashChain::new();
    let long = "z".repeat(600);
    let e = record_audit_chain_event(&mut chain, &long, AuditAction::AgentSpawn, &long, "ok\n");
    assert_eq!(e.agent_id.len(), 120);
    assert_eq!(e.detail.len(), 512);
    assert_eq!(e.outcome, "ok");
    assert_eq!(verify_audit_chain_integrity(&chain), Ok(()));
    assert_eq!(audit_tip_hash(&chain), e.hash);
    assert!(recent_audit_entries(&chain, 0).is_empty());
    assert_eq!(recent_audit_entries(&chain, 10).len(), 1);
}

#[test]
fn test_hash_chain_detects_tampering() {
    let mut chain = AuditHashChain::new();
    chain.record("agent-t", AuditAction::ToolInvoke, "tool=echo", "success");
    chain.record("agent-t", AuditAction::ToolInvoke, "tool=shell", "success");

    let mut entries = chain.recent(2);
    entries[1].detail = "tampered".to_string();
    let tampered = AuditHashChain::from_parts(entries, chain.tip_hash());

    let err = tampered.verify_integrity().unwrap_err();
    assert!(err.contains("hash mismatch"));
}

#[test]
fn test_hash_chain_from_parts_intact() {
    let mut chain = AuditHashChain::new();
    chain.record("a", AuditAction::ToolInvoke, "x", "ok");
    let restored = AuditHashChain::from_parts(chain.recent(1), chain.tip_hash());
    assert!(restored.verify_integrity().is_ok());
    let wrong_tip = AuditHashChain::from_parts(chain.recent(1), genesis_hash());
    assert_eq!(
        wrong_tip.verify_integrity().unwrap_err(),
        "chain broken: tip does not match final entry hash"
    );
}
