use zeptoclaw::auth::claude_import::{
    read_claude_credentials, token_set_from_claude, ClaudeConfigFile,
    ClaudeOAuth,
};
use zeptoclaw::auth::codex_import::{
    keychain_account, read_codex_credentials, resolve_codex_home, token_set_from_auth_file,
    token_set_from_keychain, CodexAuthFile, CodexKeychainData, CodexTokens,
};
use zeptoclaw::auth::store::TokenStore;
use zeptoclaw::auth::{OAuthTokenSet, CLAUDE_CODE_CLIENT_ID};

const NOW: i64 = 1_760_000_000;

fn test_token(provider: &str) -> OAuthTokenSet {
    OAuthTokenSet {
        provider: provider.to_string(),
        access_token: format!("access-token-{}", provider),
        refresh_token: Some(format!("refresh-token-{}", provider)),
        expires_at: Some(NOW + 28800),
        token_type: "Bearer".to_string(),
        scope: None,
        obtained_at: NOW,
        client_id: Some("test-client-id".to_string()),
    }
}

#[test]
fn test_store_save_and_load() {
    let mut store = TokenStore::new();
    assert!(store.load("anthropic").is_none());
    let token = test_token("anthropic");
    store.save(&token);
    let loaded = store.load("anthropic").expect("token should exist");
    assert_eq!(loaded.access_token, "access-token-anthropic");
    assert_eq!(loaded.provider, "anthropic");
    assert!(loaded.refresh_token.is_some());
}

#[test]
fn test_store_multiple_providers() {
    let mut store = TokenStore::new();
    store.save(&test_token("anthropic"));
    store.save(&test_token("openai"));
    assert!(store.load("anthropic").is_some());
    assert!(store.load("openai").is_some());
    assert!(store.load("groq").is_none());
}

#[test]
fn test_store_overwrite() {
    let mut store = TokenStore::new();
    let mut token = test_token("anthropic");
    store.save(&token);
    token.access_token = "updated-token".to_string();
    store.save(&token);
    let loaded = store.load("anthropic").unwrap();
    assert_eq!(loaded.access_token, "updated-token");
    assert_eq!(store.entries().len(), 1);
}

#[test]
fn test_store_delete() {
    let mut store = TokenStore::new();
    store.save(&test_token("anthropic"));
    assert!(store.load("anthropic").is_some());
    assert!(store.delete("anthropic"));
    assert!(store.load("anthropic").is_none());
    assert!(!store.delete("anthropic"));
}

#[test]
fn test_store_list() {
    let mut store = TokenStore::new();
    store.save(&test_token("openai"));
    store.save(&test_token("anthropic"));
    let list = store.list(NOW);
    assert_eq!(list.len(), 2);
    assert_eq!(list[0].0, "anthropic");
    assert_eq!(list[1].0, "openai");
    assert!(!list[0].1.is_expired);
    assert!(list[0].1.has_refresh_token);
    assert_eq!(list[0].1.expires_in, "8h 0m");
    assert_eq!(list[0].1.obtained_at, NOW);
}

#[test]
fn test_store_from_entries_last_wins() {
    let mut first = test_token("anthropic");
    first.access_token = "old".into();
    let second = test_token("anthropic");
    let store = TokenStore::from_entries(vec![
        ("anthropic".to_string(), first),
        ("anthropic".to_string(), second),
    ]);
    assert_eq!(store.entries().len(), 1);
    assert_eq!(store.load("anthropic").unwrap().access_token, "access-token-anthropic");
}

#[test]
fn test_token_expiry_texts() {
    let mut t = test_token("x");
    t.expires_at = None;
    assert!(!t.is_expired(NOW));
    assert_eq!(t.expires_in_human(NOW), "no expiry");
    t.expires_at = Some(NOW);
    assert!(t.is_expired(NOW));
    assert_eq!(t.expires_in_human(NOW), "expired");
    t.expires_at = Some(NOW + 125);
    assert_eq!(t.expires_in_human(NOW), "2m");
    t.expires_at = Some(NOW + 3 * 3600 + 61);
    assert_eq!(t.expires_in_human(NOW), "3h 1m");
}

fn claude_doc(access: Option<&str>, refresh: Option<&str>, expires: Option<i64>) -> ClaudeConfigFile {
    ClaudeConfigFile {
        claude_ai_oauth: Some(ClaudeOAuth {
            access_token: access.map(|s| s.to_string()),
            refresh_token: refresh.map(|s| s.to_string()),
            expires_at: expires,
        }),
    }
}

#[test]
fn test_read_valid_oauth() {
    let ts = token_set_from_claude(
        claude_doc(Some("sk-ant-abc123"), Some("rt-def456"), Some(1773074160794)),
        NOW,
    )
    .expect("expected Some for valid config");
    assert_eq!(ts.provider, "anthropic");
    assert_eq!(ts.access_token, "sk-ant-abc123");
    assert_eq!(ts.refresh_token.as_deref(), Some("rt-def456"));
    assert_eq!(ts.token_type, "Bearer");
    assert_eq!(ts.client_id.as_deref(), Some(CLAUDE_CODE_CLIENT_ID));
    assert!(ts.scope.is_none());
    assert_eq!(ts.obtained_at, NOW);
}

#[test]
fn test_missing_claude_ai_oauth_key() {
    let doc = ClaudeConfigFile { claude_ai_oauth: None };
    assert!(token_set_from_claude(doc, NOW).is_none());
}

#[test]
fn test_missing_access_token() {
    assert!(token_set_from_claude(claude_doc(None, Some("rt-def456"), Some(1773074160794)), NOW).is_none());
}

#[test]
fn test_empty_access_token() {
    assert!(token_set_from_claude(claude_doc(Some(""), Some("rt-def456"), Some(1773074160794)), NOW).is_none());
}

#[test]
fn test_missing_refresh_token() {
    let ts = token_set_from_claude(claude_doc(Some("sk-ant-abc123"), None, Some(1773074160794)), NOW)
        .expect("expected Some when only accessToken is present");
    assert_eq!(ts.access_token, "sk-ant-abc123");
    assert!(ts.refresh_token.is_none());
}

#[test]
fn test_expires_at_millis_to_secs() {
    let millis: i64 = 1773074160794;
    let expected_secs = millis / 1000;
    let ts = token_set_from_claude(claude_doc(Some("sk-ant-abc123"), Some("rt-def456"), Some(millis)), NOW)
        .unwrap();
    assert_eq!(ts.expires_at, Some(expected_secs));
    let neg = token_set_from_claude(claude_doc(Some("a"), None, Some(-1999)), NOW).unwrap();
    assert_eq!(neg.expires_at, Some(-1999 / 1000));
}

#[test]
fn test_read_claude_credentials_first_source_wins() {
    let sources = vec![
        None,
        Some(claude_doc(Some(""), None, None)),
        Some(claude_doc(Some("from-keychain"), None, None)),
        Some(claude_doc(Some("from-file"), None, None)),
    ];
    let ts = read_claude_credentials(sources, NOW).unwrap();
    assert_eq!(ts.access_token, "from-keychain");
    assert!(read_claude_credentials(vec![None, Some(ClaudeConfigFile { claude_ai_oauth: None })], NOW).is_none());
}

fn codex_file(access: Option<&str>, refresh: Option<&str>) -> CodexAuthFile {
    CodexAuthFile {
        tokens: Some(CodexTokens {
            access_token: access.map(|s| s.to_string()),
            refresh_token: refresh.map(|s| s.to_string()),
        }),
    }
}

#[test]
fn test_read_from_file_valid() {
    let ts = token_set_from_auth_file(codex_file(Some("oat-abc123"), Some("ort-def456")), NOW)
        .expect("expected Some for valid auth.json");
    assert_eq!(ts.provider, "openai");
    assert_eq!(ts.access_token, "oat-abc123");
    assert_eq!(ts.refresh_token.as_deref(), Some("ort-def456"));
    assert_eq!(ts.token_type, "Bearer");
    assert!(ts.scope.is_none());
    assert!(ts.client_id.is_none());
    assert!(ts.expires_at.is_none());
    assert_eq!(ts.obtained_at, NOW);
}

#[test]
fn test_read_from_file_missing_access_token() {
    assert!(token_set_from_auth_file(codex_file(None, Some("ort-def456")), NOW).is_none());
}

#[test]
fn test_read_from_file_missing_refresh_token() {
    let ts = token_set_from_auth_file(codex_file(Some("oat-abc123"), None), NOW).unwrap();
    assert_eq!(ts.access_token, "oat-abc123");
    assert!(ts.refresh_token.is_none());
}

#[test]
fn test_read_from_file_empty_access_token() {
    assert!(token_set_from_auth_file(codex_file(Some(""), Some("ort-def456")), NOW).is_none());
}

#[test]
fn test_keychain_entry_uses_last_refresh() {
    let data = CodexKeychainData {
        tokens: Some(CodexTokens { access_token: Some("a".into()), refresh_token: None }),
        last_refresh: Some("2025-01-01T00:00:00Z".into()),
    };
    let ts = token_set_from_keychain(data, NOW).unwrap();
    assert_eq!(ts.obtained_at, 1_735_689_600);
    assert_eq!(ts.expires_at, Some(1_735_689_600 + 3600));
    let bad = CodexKeychainData {
        tokens: Some(CodexTokens { access_token: Some("a".into()), refresh_token: None }),
        last_refresh: Some("yesterday".into()),
    };
    let ts = token_set_from_keychain(bad, NOW).unwrap();
    assert_eq!(ts.obtained_at, NOW);
    assert_eq!(ts.expires_at, Some(NOW + 3600));
}

#[test]
fn test_read_codex_credentials_prefers_keychain() {
    let k = CodexKeychainData {
        tokens: Some(CodexTokens { access_token: Some("kc".into()), refresh_token: None }),
        last_refresh: None,
    };
    let ts = read_codex_credentials(Some(k), Some(codex_file(Some("file"), None)), NOW).unwrap();
    assert_eq!(ts.access_token, "kc");
    let empty = CodexKeychainData { tokens: None, last_refresh: None };
    let ts = read_codex_credentials(Some(empty), Some(codex_file(Some("file"), None)), NOW).unwrap();
    assert_eq!(ts.access_token, "file");
    assert!(read_codex_credentials(None, None, NOW).is_none());
}

#[test]
fn test_resolve_codex_home() {
    assert_eq!(
        resolve_codex_home(Some("/opt/codex".into()), Some("/home/me".into())),
        Some("/opt/codex".to_string())
    );
    assert_eq!(
        resolve_codex_home(Some(String::new()), Some("/home/me".into())),
        Some("/home/me/.codex".to_string())
    );
    assert_eq!(resolve_codex_home(None, None), None);
}

#[test]
fn test_keychain_account_format() {
    let account = keychain_account("/Users/testuser/.codex");
    assert!(account.starts_with("cli|"));
    let suffix = &account[4..];
    assert_eq!(suffix.len(), 16);
    assert!(suffix.chars().all(|c| c.is_ascii_hexdigit()));
}

#[test]
fn test_keychain_account_deterministic() {
    let a1 = keychain_account("/Users/test/.codex");
    let a2 = keychain_account("/Users/test/.codex");
    assert_eq!(a1, a2);
    let a3 = keychain_account("/Users/other/.codex");
    assert_ne!(a1, a3);
}

#[test]
fn test_keychain_account_known_digest() {
    // SHA-256("") = e3b0c44298fc1c14...
    assert_eq!(keychain_account(""), "cli|e3b0c44298fc1c14");
}
