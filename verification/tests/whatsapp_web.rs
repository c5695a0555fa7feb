use zeptoclaw::channels::whatsapp_web::{
    backoff_delay, backoff_delay_millis, expand_auth_dir, expand_auth_dir_with_home,
    normalize_phone, outbound_wa_message, render_qr_terminal, OutboundWaMessage,
    WhatsAppWebChannel, WhatsAppWebConfig,
};
use zeptoclaw::channels::OutboundMessage;

fn make_channel(config: WhatsAppWebConfig) -> WhatsAppWebChannel {
    WhatsAppWebChannel::new(config)
}

#[test]
fn test_default_config() {
    let cfg = WhatsAppWebConfig::default();
    assert!(!cfg.enabled);
    assert_eq!(cfg.auth_dir, "~/.zeptoclaw/state/whatsapp_web");
    assert!(cfg.allow_from.is_empty());
    assert!(!cfg.deny_by_default);
}

#[test]
fn test_normalize_phone_with_plus() {
    assert_eq!(normalize_phone("+60123456789"), "60123456789");
}

#[test]
fn test_normalize_phone_without_plus() {
    assert_eq!(normalize_phone("60123456789"), "60123456789");
}

#[test]
fn test_normalize_phone_empty() {
    assert_eq!(normalize_phone(""), "");
}

#[test]
fn test_normalize_phone_only_plus() {
    assert_eq!(normalize_phone("+"), "");
}

#[test]
fn test_normalize_phone_us_number() {
    assert_eq!(normalize_phone("+14155551234"), "14155551234");
}

#[test]
fn test_normalize_phone_strips_every_leading_plus() {
    assert_eq!(normalize_phone("++601"), "601");
    assert_eq!(normalize_phone("60+1"), "60+1");
}

#[test]
fn test_is_allowed_normalized_match() {
    let ch = make_channel(WhatsAppWebConfig {
        allow_from: vec!["+60123456789".to_string()],
        ..WhatsAppWebConfig::default()
    });
    assert!(ch.is_allowed("60123456789"));
}

#[test]
fn test_is_allowed_denied() {
    let ch = make_channel(WhatsAppWebConfig {
        allow_from: vec!["+60123456789".to_string()],
        ..WhatsAppWebConfig::default()
    });
    assert!(!ch.is_allowed("60111111111"));
}

#[test]
fn test_is_allowed_empty_allowlist() {
    let ch = make_channel(WhatsAppWebConfig {
        allow_from: vec![],
        deny_by_default: false,
        ..WhatsAppWebConfig::default()
    });
    assert!(ch.is_allowed("60999999999"));
}

#[test]
fn test_is_allowed_deny_by_default() {
    let ch = make_channel(WhatsAppWebConfig {
        allow_from: vec![],
        deny_by_default: true,
        ..WhatsAppWebConfig::default()
    });
    assert!(!ch.is_allowed("60999999999"));
}

#[test]
fn test_is_allowed_with_plus_query() {
    let ch = make_channel(WhatsAppWebConfig {
        allow_from: vec!["+60123456789".to_string()],
        ..WhatsAppWebConfig::default()
    });
    assert!(ch.is_allowed("+60123456789"));
}

#[test]
fn test_render_qr_empty() {
    let result = render_qr_terminal(&[]);
    assert_eq!(result, "");
}

#[test]
fn test_render_qr_single_row() {
    let data = vec![vec![true, false]];
    let result = render_qr_terminal(&data);
    assert!(result.contains('\u{2580}'));
    assert!(result.ends_with('\n'));
    assert_eq!(result, "\u{2580} \n");
}

#[test]
fn test_render_qr_two_rows() {
    let data = vec![vec![true, false], vec![false, true]];
    let result = render_qr_terminal(&data);
    let lines: Vec<&str> = result.lines().collect();
    assert_eq!(lines.len(), 1, "two rows → one terminal line");
}

#[test]
fn test_render_qr_all_patterns() {
    let data = vec![
        vec![true, true, false, false],
        vec![true, false, true, false],
    ];
    let result = render_qr_terminal(&data);
    assert!(result.contains('\u{2588}'), "should contain █ (both dark)");
    assert!(
        result.contains('\u{2580}'),
        "should contain ▀ (top dark, bottom light)"
    );
    assert!(
        result.contains('\u{2584}'),
        "should contain ▄ (top light, bottom dark)"
    );
    assert!(result.contains(' '), "should contain space (both light)");
    assert_eq!(result, "\u{2588}\u{2580}\u{2584} \n");
}

#[test]
fn test_render_qr_three_rows_two_lines() {
    let data = vec![vec![true], vec![false], vec![true]];
    assert_eq!(render_qr_terminal(&data), "\u{2580}\n\u{2580}\n");
}

#[test]
fn test_backoff_attempt_0() {
    assert_eq!(backoff_delay(0).as_millis(), 2_000);
}

#[test]
fn test_backoff_attempt_1() {
    assert_eq!(backoff_delay(1).as_millis(), 4_000);
}

#[test]
fn test_backoff_attempt_2() {
    assert_eq!(backoff_delay(2).as_millis(), 8_000);
}

#[test]
fn test_backoff_attempt_5() {
    assert_eq!(backoff_delay(5).as_millis(), 64_000);
}

#[test]
fn test_backoff_capped_at_120s() {
    assert_eq!(backoff_delay(10).as_millis(), 120_000);
    assert_eq!(backoff_delay(100).as_millis(), 120_000);
}

#[test]
fn test_backoff_millis_boundary() {
    assert_eq!(backoff_delay_millis(5), 64_000);
    assert_eq!(backoff_delay_millis(6), 120_000);
    assert_eq!(backoff_delay_millis(u32::MAX), 120_000);
}

#[test]
fn test_expand_auth_dir_tilde() {
    let expanded = expand_auth_dir("~/.zeptoclaw/state/whatsapp_web");
    if dirs::home_dir().is_some() {
        assert!(!expanded.starts_with('~'));
    }
}

#[test]
fn test_expand_auth_dir_absolute() {
    let path = "/absolute/path/to/state";
    assert_eq!(expand_auth_dir(path), path);
}

#[test]
fn test_expand_auth_dir_relative() {
    let path = "relative/path/state";
    assert_eq!(expand_auth_dir(path), path);
}

#[test]
fn test_expand_auth_dir_with_given_home() {
    assert_eq!(
        expand_auth_dir_with_home("~/.zeptoclaw/state", Some("/home/me".to_string())),
        "/home/me/.zeptoclaw/state"
    );
    assert_eq!(expand_auth_dir_with_home("~/x", None), "~/x");
}

#[test]
fn test_outbound_message_basic() {
    let msg = OutboundWaMessage {
        to: "60123456789@s.whatsapp.net".to_string(),
        content: "Hello".to_string(),
        reply_to: None,
    };
    assert_eq!(msg.to, "60123456789@s.whatsapp.net");
    assert_eq!(msg.content, "Hello");
    assert!(msg.reply_to.is_none());
}

#[test]
fn test_outbound_message_with_reply() {
    let msg = OutboundWaMessage {
        to: "60123456789@s.whatsapp.net".to_string(),
        content: "Got it!".to_string(),
        reply_to: Some("ABCDEF123456".to_string()),
    };
    assert_eq!(msg.reply_to, Some("ABCDEF123456".to_string()));
}

#[test]
fn test_outbound_jid_format() {
    let phone = "60123456789";
    let jid = format!("{}@s.whatsapp.net", phone);
    assert_eq!(jid, "60123456789@s.whatsapp.net");
}

#[test]
fn test_outbound_wa_message_from_bus_message() {
    let msg = OutboundMessage {
        channel: "whatsapp_web".to_string(),
        chat_id: "+60123456789".to_string(),
        content: "Hello".to_string(),
        reply_to: Some("ABC".to_string()),
        metadata: vec![],
    };
    let wa = outbound_wa_message(&msg);
    assert_eq!(wa.to, "60123456789@s.whatsapp.net");
    assert_eq!(wa.content, "Hello");
    assert_eq!(wa.reply_to, Some("ABC".to_string()));

    let group = OutboundMessage {
        chat_id: "12036302@g.us".to_string(),
        ..msg
    };
    assert_eq!(outbound_wa_message(&group).to, "12036302@g.us");
}

#[test]
fn test_channel_name() {
    let ch = make_channel(WhatsAppWebConfig::default());
    assert_eq!(ch.name(), "whatsapp_web");
}

#[test]
fn test_channel_not_running_initially() {
    let ch = make_channel(WhatsAppWebConfig::default());
    assert!(!ch.is_running());
}

#[test]
fn test_new_normalizes_allowlist() {
    let ch = make_channel(WhatsAppWebConfig {
        allow_from: vec!["+60123456789".to_string(), "+14155551234".to_string()],
        ..WhatsAppWebConfig::default()
    });
    assert!(ch
        .base_config
        .allowlist
        .contains(&"60123456789".to_string()));
    assert!(ch
        .base_config
        .allowlist
        .contains(&"14155551234".to_string()));
    assert!(!ch.base_config.allowlist.iter().any(|p| p.starts_with('+')));
}

#[test]
fn test_new_sets_deny_by_default() {
    let ch = make_channel(WhatsAppWebConfig {
        deny_by_default: true,
        ..WhatsAppWebConfig::default()
    });
    assert!(ch.base_config.deny_by_default);
}

#[test]
fn render_qr_lines_are_row_pairs() {
    let data = vec![
        vec![true, true, false, false],
        vec![true, false, true, false],
    ];
    assert_eq!(render_qr_terminal(&data), "\u{2588}\u{2580}\u{2584} \n");
    let data = vec![vec![true, false], vec![false, false], vec![false, true]];
    assert_eq!(render_qr_terminal(&data), "\u{2580} \n \u{2580}\n");
}
