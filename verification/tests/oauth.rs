use zeptoclaw::auth::oauth::{
    build_authorize_url, callback_request_path, callback_success_response, generate_csrf_state,
    parse_callback_params, token_set_from_response, urldecode, urlencode, validate_oauth_state,
    PkceChallenge, TokenResponse,
};
use zeptoclaw::auth::ProviderOAuthConfig;

#[test]
fn test_parse_callback_params_success() {
    let result = parse_callback_params("/oauth/callback?code=abc123&state=xyz").unwrap();
    assert_eq!(result.code, "abc123");
    assert_eq!(result.state, Some("xyz".to_string()));
}

#[test]
fn test_parse_callback_params_code_only() {
    let result = parse_callback_params("/oauth/callback?code=abc123").unwrap();
    assert_eq!(result.code, "abc123");
    assert!(result.state.is_none());
}

#[test]
fn test_parse_callback_params_error() {
    let result = parse_callback_params(
        "/oauth/callback?error=access_denied&error_description=User%20denied%20access",
    );
    assert!(result.is_err());
    let err = result.unwrap_err().to_string();
    assert!(err.contains("access_denied"));
    assert!(err.contains("User denied access"));
}

#[test]
fn test_parse_callback_params_missing_query() {
    let result = parse_callback_params("/oauth/callback");
    assert!(result.is_err());
}

#[test]
fn test_parse_callback_params_missing_code() {
    let result = parse_callback_params("/oauth/callback?state=xyz");
    assert!(result.is_err());
}

#[test]
fn test_validate_oauth_state_ok() {
    assert!(validate_oauth_state(Some("state123"), "state123").is_ok());
}

#[test]
fn test_validate_oauth_state_missing() {
    let err = validate_oauth_state(None, "state123")
        .unwrap_err()
        .to_string();
    assert!(err.contains("missing state"));
}

#[test]
fn test_validate_oauth_state_mismatch() {
    let err = validate_oauth_state(Some("wrong"), "state123")
        .unwrap_err()
        .to_string();
    assert!(err.contains("state parameter mismatch"));
}

#[test]
fn test_urlencode() {
    assert_eq!(urlencode("hello"), "hello");
    assert_eq!(urlencode("hello world"), "hello%20world");
    assert_eq!(urlencode("a=b&c=d"), "a%3Db%26c%3Dd");
    assert_eq!(urlencode("test-value_123.txt"), "test-value_123.txt");
}

#[test]
fn test_urldecode() {
    assert_eq!(urldecode("hello"), "hello");
    assert_eq!(urldecode("hello%20world"), "hello world");
    assert_eq!(urldecode("hello+world"), "hello world");
    assert_eq!(urldecode("a%3Db"), "a=b");
    assert_eq!(urldecode("%E2%9C%93"), "\u{2713}");
}

#[test]
fn test_build_authorize_url() {
    let config = ProviderOAuthConfig {
        provider: "test".to_string(),
        token_url: "https://example.com/token".to_string(),
        authorize_url: "https://example.com/authorize".to_string(),
        client_name: "TestApp".to_string(),
        scopes: vec!["read".to_string(), "write".to_string()],
    };

    let pkce = PkceChallenge {
        code_verifier: "verifier".to_string(),
        code_challenge: "challenge".to_string(),
    };

    let url = build_authorize_url(
        &config,
        "client-id",
        "http://localhost:1234/cb",
        &pkce,
        "state123",
    );

    assert!(url.starts_with("https://example.com/authorize?"));
    assert!(url.contains("response_type=code"));
    assert!(url.contains("client_id=client-id"));
    assert!(url.contains("code_challenge=challenge"));
    assert!(url.contains("code_challenge_method=S256"));
    assert!(url.contains("state=state123"));
    assert!(url.contains("scope=read%20write"));
}

#[test]
fn test_build_authorize_url_no_scopes() {
    let config = ProviderOAuthConfig {
        provider: "test".to_string(),
        token_url: "https://example.com/token".to_string(),
        authorize_url: "https://example.com/authorize".to_string(),
        client_name: "TestApp".to_string(),
        scopes: vec![],
    };

    let pkce = PkceChallenge {
        code_verifier: "v".to_string(),
        code_challenge: "c".to_string(),
    };

    let url = build_authorize_url(&config, "cid", "http://localhost:1234/cb", &pkce, "s");
    assert!(!url.contains("scope="));
}

#[test]
fn test_build_authorize_url_openai_fixed_port() {
    let config = ProviderOAuthConfig {
        provider: "openai".to_string(),
        token_url: "https://auth.openai.com/oauth/token".to_string(),
        authorize_url: "https://auth.openai.com/oauth/authorize".to_string(),
        client_name: "ZeptoClaw".to_string(),
        scopes: vec!["openid".to_string(), "email".to_string()],
    };
    let pkce = PkceChallenge {
        code_verifier: "v".to_string(),
        code_challenge: "c".to_string(),
    };
    let redirect_uri = "http://localhost:1455/auth/callback";
    let url = build_authorize_url(
        &config,
        "app_EMoamEEZ73f0CkXaXp7hrann",
        redirect_uri,
        &pkce,
        "s",
    );

    assert!(
        url.contains("https://auth.openai.com/oauth/authorize"),
        "URL must start with authorize endpoint"
    );
    assert!(
        url.contains("client_id=app_EMoamEEZ73f0CkXaXp7hrann"),
        "URL must contain client_id"
    );
    assert!(url.contains("1455"), "URL must contain port 1455");
    assert!(url.contains("openid"), "URL must contain openid scope");
}

#[test]
fn test_pkce_generate() {
    let pkce = PkceChallenge::generate();
    assert!(!pkce.code_verifier.is_empty());
    assert!(pkce.code_verifier.len() >= 43);
    assert!(!pkce.code_challenge.is_empty());
    assert!(pkce.code_challenge.len() >= 43);
    let again = PkceChallenge::from_verifier(pkce.code_verifier.clone());
    assert_eq!(pkce.code_challenge, again.code_challenge);
}

#[test]
fn test_pkce_unique() {
    let a = PkceChallenge::generate();
    let b = PkceChallenge::generate();
    assert_ne!(a.code_verifier, b.code_verifier);
    assert_ne!(a.code_challenge, b.code_challenge);
}

#[test]
fn pkce_known_vector() {
    // RFC 7636, appendix B.
    let p = PkceChallenge::from_verifier("dBjftJeZ4CVP-mB92K27uhbUJU1p1r_wW1gFWFOEjXk".to_string());
    assert_eq!(p.code_challenge, "E9Melhoa2OwvFrEMTJguCHaoeK1t8URWbuGJSstw-cM");
}

#[test]
fn urlencode_non_ascii_and_roundtrip() {
    assert_eq!(urlencode("\u{2713}"), "%E2%9C%93");
    for s in ["", "a b+c", "100%", "\u{2713} ok?&=", "~._-"] {
        assert_eq!(urldecode(&urlencode(s)), s);
    }
}

#[test]
fn urldecode_edge_cases() {
    assert_eq!(urldecode("100%"), "100%");
    assert_eq!(urldecode("%zz"), "%zz");
    assert_eq!(urldecode("%4"), "%4");
    assert_eq!(urldecode("%+5"), "\u{5}");
    assert_eq!(urldecode("%41%42"), "AB");
    assert_eq!(urldecode("%FF"), "\u{FFFD}");
}

#[test]
fn parse_callback_params_last_value_wins_and_decodes() {
    let r = parse_callback_params("/cb?code=a&code=b%2Bc&state=s%20t&x").unwrap();
    assert_eq!(r.code, "b+c");
    assert_eq!(r.state.as_deref(), Some("s t"));
    let r = parse_callback_params("/cb?a=1?code=ignored").unwrap_err().to_string();
    assert!(r.contains("missing 'code'"));
}

#[test]
fn csrf_state_is_32_hex() {
    let s = generate_csrf_state();
    assert_eq!(s.len(), 32);
    assert!(s.chars().all(|c| c.is_ascii_hexdigit()));
}

#[test]
fn callback_request_path_from_request_line() {
    assert_eq!(
        callback_request_path("GET /oauth/callback?code=1 HTTP/1.1\r\nHost: x\r\n\r\n"),
        Some("/oauth/callback?code=1".to_string())
    );
    assert_eq!(callback_request_path(""), None);
    assert_eq!(callback_request_path("GET\r\n"), None);
}

#[test]
fn callback_response_has_content_length() {
    let r = callback_success_response();
    assert!(r.starts_with("HTTP/1.1 200 OK\r\n"));
    let body = r.split("\r\n\r\n").nth(1).unwrap();
    assert!(r.contains(&format!("Content-Length: {}\r\n", body.len())));
}

#[test]
fn test_token_set_from_response() {
    let full = TokenResponse {
        access_token: "at".to_string(),
        refresh_token: Some("rt".to_string()),
        expires_in: Some(3600),
        token_type: Some("bearer".to_string()),
        scope: Some("read".to_string()),
    };
    let t = token_set_from_response("anthropic", full, 1_700_000_000, "client-1");
    assert_eq!(t.provider, "anthropic");
    assert_eq!(t.access_token, "at");
    assert_eq!(t.refresh_token.as_deref(), Some("rt"));
    assert_eq!(t.expires_at, Some(1_700_003_600));
    assert_eq!(t.token_type, "bearer");
    assert_eq!(t.scope.as_deref(), Some("read"));
    assert_eq!(t.obtained_at, 1_700_000_000);
    assert_eq!(t.client_id.as_deref(), Some("client-1"));

    let bare = TokenResponse {
        access_token: "x".to_string(),
        refresh_token: None,
        expires_in: None,
        token_type: None,
        scope: None,
    };
    let t = token_set_from_response("openai", bare, 5, "c");
    assert_eq!(t.expires_at, None);
    assert_eq!(t.token_type, "Bearer");
    assert_eq!(t.refresh_token, None);
}
