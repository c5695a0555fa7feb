use zeptoclaw::agent::context_monitor::{strategy_for, word_count, CompactionStrategy, CompactionUrgency};
use zeptoclaw::agent::core_loop::LegacyTerminal;
use zeptoclaw::agent::middleware::cache::CacheMiddleware;
use zeptoclaw::agent::middleware::compaction::CompactionMiddleware;
use zeptoclaw::agent::middleware::context_build::ContextBuildMiddleware;
use zeptoclaw::agent::middleware::feedback::FeedbackMiddleware;
use zeptoclaw::agent::middleware::injection_scan::{InjectionScanMiddleware, InjectionVerdict};
use zeptoclaw::agent::middleware::memory_injection::MemoryInjectionMiddleware;
use zeptoclaw::agent::middleware::metrics::MetricsMiddleware;
use zeptoclaw::agent::middleware::provider_resolution::ProviderResolutionMiddleware;
use zeptoclaw::agent::middleware::session::SessionMiddleware;
use zeptoclaw::agent::middleware::session_save::SessionSaveMiddleware;
use zeptoclaw::agent::middleware::token_budget::TokenBudgetMiddleware;
use zeptoclaw::agent::middleware::PipelineOutput;
use zeptoclaw::agent::{ToolFeedback, ToolFeedbackPhase};
use zeptoclaw::audit::{AuditCategory, AuditSeverity};
use zeptoclaw::config::{AgentDefaults, AgentsConfig, Config, SafetyConfig};
use zeptoclaw::error::ZeptoError;
use zeptoclaw::providers::Usage;
use zeptoclaw::session::{ContentPart, Message, Role};

#[test]
fn pipeline_output_sync_variant() {
    let output = PipelineOutput::Sync {
        response: "hello".to_string(),
        usage: None,
        cached: false,
    };
    match output {
        PipelineOutput::Sync {
            response, cached, ..
        } => {
            assert_eq!(response, "hello");
            assert!(!cached);
        }
        PipelineOutput::Streaming => panic!("expected Sync"),
    }
}

#[test]
fn pipeline_output_streaming_variant() {
    let output = PipelineOutput::Streaming;
    assert!(matches!(output, PipelineOutput::Streaming));
}

#[test]
fn pipeline_output_sync_accessors() {
    let output = PipelineOutput::Sync {
        response: "hello".into(),
        usage: Some(Usage::new(10, 5)),
        cached: false,
    };
    assert_eq!(output.response(), Some("hello"));
    assert!(output.usage().is_some());
    assert!(!output.is_cached());
}

#[test]
fn pipeline_output_cached_accessor() {
    let output = PipelineOutput::Sync {
        response: "cached".into(),
        usage: None,
        cached: true,
    };
    assert!(output.is_cached());
    assert!(output.usage().is_none());
}

#[test]
fn pipeline_output_streaming_accessors() {
    let output = PipelineOutput::Streaming;
    assert!(output.response().is_none());
    assert!(output.usage().is_none());
    assert!(!output.is_cached());
}

#[test]
fn test_tool_feedback_debug() {
    let fb = ToolFeedback {
        tool_name: "shell".to_string(),
        phase: ToolFeedbackPhase::Starting,
        args_json: None,
    };
    let debug_str = format!("{:?}", fb);
    assert!(debug_str.contains("shell"));
    assert!(debug_str.contains("Starting"));
}

#[test]
fn test_tool_feedback_phases() {
    let starting = ToolFeedbackPhase::Starting;
    let done = ToolFeedbackPhase::Done { elapsed_ms: 1200 };
    let failed = ToolFeedbackPhase::Failed {
        elapsed_ms: 500,
        error: "timeout".to_string(),
    };
    assert!(format!("{:?}", starting).contains("Starting"));
    assert!(format!("{:?}", done).contains("1200"));
    assert!(format!("{:?}", failed).contains("timeout"));
}

#[test]
fn middleware_names() {
    assert_eq!(CacheMiddleware::new().name(), "cache");
    assert_eq!(CompactionMiddleware::new().name(), "compaction");
    assert_eq!(ContextBuildMiddleware::new().name(), "context_build");
    assert_eq!(FeedbackMiddleware::new().name(), "feedback");
    assert_eq!(InjectionScanMiddleware::new(true).name(), "injection_scan");
    assert_eq!(MemoryInjectionMiddleware::new().name(), "memory_injection");
    assert_eq!(MetricsMiddleware::new().name(), "metrics");
    assert_eq!(ProviderResolutionMiddleware::new().name(), "provider_resolution");
    assert_eq!(SessionMiddleware::new().name(), "session");
    assert_eq!(SessionSaveMiddleware::new().name(), "session_save");
    assert_eq!(TokenBudgetMiddleware::new().name(), "token_budget");
}

#[test]
fn cache_key_inputs_use_system_prompt_and_default_model() {
    let msgs = vec![Message::new(Role::System, "be brief"), Message::user("hi")];
    let (model, system) = CacheMiddleware::key_inputs(None, "default-model", Some(&msgs));
    assert_eq!(model, "default-model");
    assert_eq!(system, "be brief");
    let user_first = vec![Message::user("hi")];
    let (model, system) = CacheMiddleware::key_inputs(Some("m"), "d", Some(&user_first));
    assert_eq!(model, "m");
    assert_eq!(system, "");
    assert_eq!(CacheMiddleware::key_inputs(None, "d", None).1, "");
}

#[test]
fn cache_stores_only_fresh_sync_responses() {
    let fresh = PipelineOutput::Sync {
        response: "r".into(),
        usage: Some(Usage::new(3, 7)),
        cached: false,
    };
    let stored = CacheMiddleware::storable(&fresh).unwrap();
    assert_eq!(stored.0, "r");
    assert_eq!(stored.1, 7);
    let no_usage = PipelineOutput::Sync { response: "r".into(), usage: None, cached: false };
    assert_eq!(CacheMiddleware::storable(&no_usage).unwrap().1, 0);
    let hit = PipelineOutput::Sync { response: "r".into(), usage: None, cached: true };
    assert!(CacheMiddleware::storable(&hit).is_none());
    assert!(CacheMiddleware::storable(&PipelineOutput::Streaming).is_none());
}

#[test]
fn compaction_flushes_only_at_normal_urgency() {
    assert!(CompactionMiddleware::flushes_memory_first(CompactionUrgency::Normal));
    assert!(!CompactionMiddleware::flushes_memory_first(CompactionUrgency::Emergency));
    assert!(!CompactionMiddleware::flushes_memory_first(CompactionUrgency::Critical));
}

#[test]
fn context_build_drops_empty_user_messages() {
    let mut with_image = Message::user("");
    with_image.content_parts = vec![ContentPart::Image {
        data: "AAAA".into(),
        mime_type: "image/png".into(),
    }];
    let msgs = vec![
        Message::new(Role::System, "sys"),
        Message::user(""),
        Message::user("hello"),
        Message::new(Role::Assistant, ""),
        with_image,
    ];
    let kept = ContextBuildMiddleware::drop_empty_user_messages(msgs);
    assert_eq!(kept.len(), 4);
    assert_eq!(kept[0].content, "sys");
    assert_eq!(kept[1].content, "hello");
    assert_eq!(kept[2].role, Role::Assistant);
    assert!(kept[3].has_images());
}

#[test]
fn feedback_events_surround_successful_runs() {
    let before = FeedbackMiddleware::before_event();
    assert!(matches!(before.phase, ToolFeedbackPhase::Thinking));
    assert!(before.tool_name.is_empty());
    let after = FeedbackMiddleware::after_event(true).unwrap();
    assert!(matches!(after.phase, ToolFeedbackPhase::ResponseReady));
    assert!(FeedbackMiddleware::after_event(false).is_none());
}

fn config(enabled: bool, injection: bool) -> Config {
    Config {
        safety: SafetyConfig {
            enabled,
            injection_check_enabled: injection,
        },
        agents: AgentsConfig {
            defaults: AgentDefaults { model: "m".into() },
        },
    }
}

#[test]
fn injection_scan_blocks_webhook() {
    let scan = InjectionScanMiddleware::from_config(&config(true, true));
    match scan.verdict(true, "webhook", "u1") {
        InjectionVerdict::Blocked(record, err) => {
            assert_eq!(record.category, AuditCategory::InjectionAttempt);
            assert_eq!(record.severity, AuditSeverity::Critical);
            assert_eq!(record.event_type, "inbound_injection_blocked");
            assert_eq!(record.detail, "Channel: webhook, sender: u1");
            assert!(record.blocked);
            assert!(err.to_string().contains("prompt injection"));
        }
        other => panic!("expected a block, got {:?}", other),
    }
}

#[test]
fn injection_scan_warns_other_channels() {
    let scan = InjectionScanMiddleware::new(true);
    for channel in ["telegram", "discord", "slack", "whatsapp", "whatsapp_cloud", "cli"] {
        match scan.verdict(true, channel, "u") {
            InjectionVerdict::Warned(record) => {
                assert_eq!(record.severity, AuditSeverity::Warning);
                assert_eq!(record.event_type, "inbound_injection_warned");
                assert!(!record.blocked);
            }
            other => panic!("expected a warning, got {:?}", other),
        }
    }
}

#[test]
fn injection_scan_skipped_when_disabled_or_clean() {
    let off = InjectionScanMiddleware::from_config(&config(false, true));
    assert!(matches!(off.verdict(true, "webhook", "u"), InjectionVerdict::Proceed));
    let no_check = InjectionScanMiddleware::from_config(&config(true, false));
    assert!(matches!(no_check.verdict(true, "webhook", "u"), InjectionVerdict::Proceed));
    let on = InjectionScanMiddleware::new(true);
    assert!(matches!(on.verdict(false, "webhook", "u"), InjectionVerdict::Proceed));
}

#[test]
fn memory_override_only_when_non_empty() {
    assert!(MemoryInjectionMiddleware::memory_override(String::new()).is_none());
    assert_eq!(
        MemoryInjectionMiddleware::memory_override("fact".into()),
        Some("fact".to_string())
    );
}

#[test]
fn metrics_records_reported_tokens() {
    let out = PipelineOutput::Sync { response: "r".into(), usage: Some(Usage::new(4, 9)), cached: false };
    assert_eq!(MetricsMiddleware::tokens_to_record(&out), Some((4, 9)));
    let none = PipelineOutput::Sync { response: "r".into(), usage: None, cached: false };
    assert_eq!(MetricsMiddleware::tokens_to_record(&none), None);
    assert_eq!(MetricsMiddleware::tokens_to_record(&PipelineOutput::Streaming), None);
}

#[test]
fn provider_resolution_prefers_overrides() {
    let md = vec![
        ("model_override".to_string(), "gpt-4o".to_string()),
        ("provider_override".to_string(), "openai".to_string()),
    ];
    let registered = vec!["anthropic".to_string(), "openai".to_string()];
    assert_eq!(ProviderResolutionMiddleware::resolve_model(&md, "default-model"), "gpt-4o");
    assert_eq!(ProviderResolutionMiddleware::resolve_provider(&md, &registered).unwrap(), "openai");

    let empty = vec![("model_override".to_string(), String::new())];
    assert_eq!(ProviderResolutionMiddleware::resolve_model(&empty, "default-model"), "default-model");
    assert_eq!(ProviderResolutionMiddleware::resolve_model(&vec![], "default-model"), "default-model");

    let unknown = vec![("provider_override".to_string(), "groq".to_string())];
    assert_eq!(
        ProviderResolutionMiddleware::resolve_provider(&unknown, &registered).unwrap(),
        "anthropic"
    );
    assert_eq!(
        ProviderResolutionMiddleware::resolve_provider(&unknown, &vec![]),
        Err(ZeptoError::Provider("No provider configured".to_string()))
    );
}

#[test]
fn session_appends_user_message() {
    let mut history = vec![Message::new(Role::System, "sys")];
    SessionMiddleware::append_user_message(&mut history, "hello");
    assert_eq!(history.len(), 2);
    assert_eq!(history[0].content, "sys");
    assert_eq!(history[1].role, Role::User);
    assert_eq!(history[1].content, "hello");
}

#[test]
fn session_saved_only_after_success() {
    assert!(SessionSaveMiddleware::should_save(true, true));
    assert!(!SessionSaveMiddleware::should_save(false, true));
    assert!(!SessionSaveMiddleware::should_save(true, false));
}

#[test]
fn token_budget_guard() {
    assert!(TokenBudgetMiddleware::check(false, "0/100").is_ok());
    assert_eq!(
        TokenBudgetMiddleware::check(true, "120/100").unwrap_err(),
        ZeptoError::Provider("Token budget exceeded: 120/100".to_string())
    );
}

#[test]
fn legacy_terminal_returns_scaffolding_error() {
    let err = LegacyTerminal::new().execute().unwrap_err();
    assert!(err.to_string().contains("scaffolding stub"));
}

#[test]
fn compaction_strategy_by_urgency() {
    assert_eq!(strategy_for(None, true), CompactionStrategy::NotNeeded);
    assert_eq!(
        strategy_for(Some(CompactionUrgency::Critical), false),
        CompactionStrategy::Truncate { keep_recent: 3 }
    );
    assert_eq!(
        strategy_for(Some(CompactionUrgency::Emergency), false),
        CompactionStrategy::Truncate { keep_recent: 5 }
    );
    assert_eq!(
        strategy_for(Some(CompactionUrgency::Normal), true),
        CompactionStrategy::Summarize { keep_recent: 5 }
    );
    assert_eq!(
        strategy_for(Some(CompactionUrgency::Normal), false),
        CompactionStrategy::Summarize { keep_recent: 8 }
    );
}

#[test]
fn word_count_splits_on_whitespace() {
    assert_eq!(word_count(&Message::user("Hello, world!")), 2);
    assert_eq!(word_count(&Message::user("  a\tb \n c  ")), 3);
    assert_eq!(word_count(&Message::user("")), 0);
}

#[test]
fn test_inbound_injection_check_blocks_webhook() {
    // A message the scanner flagged, arriving on the untrusted webhook channel, is blocked.
    let scan = InjectionScanMiddleware::new(true);
    match scan.verdict(true, "webhook", "attacker") {
        InjectionVerdict::Blocked(record, ZeptoError::Tool(m)) => {
            assert_eq!(m, "Message rejected: potential prompt injection detected");
            assert!(record.blocked);
        }
        other => panic!("expected a block, got {other:?}"),
    }
}

#[test]
fn test_inbound_injection_check_warns_telegram() {
    // On the allowlisted channels a flagged message only warns.
    let scan = InjectionScanMiddleware::new(true);
    for channel in &["telegram", "discord", "slack", "whatsapp", "whatsapp_cloud", "cli"] {
        assert_ne!(*channel, "webhook");
        match scan.verdict(true, channel, "user") {
            InjectionVerdict::Warned(record) => assert!(!record.blocked),
            other => panic!("expected a warning on {channel}, got {other:?}"),
        }
    }
}

#[test]
fn test_cache_lookup_hit_and_miss() {
    match CacheMiddleware::on_lookup(Some("cached answer".to_string())) {
        Some(PipelineOutput::Sync { response, usage, cached }) => {
            assert_eq!(response, "cached answer");
            assert!(usage.is_none());
            assert!(cached);
        }
        other => panic!("expected a cached response, got {other:?}"),
    }
    assert!(CacheMiddleware::on_lookup(None).is_none());
}
