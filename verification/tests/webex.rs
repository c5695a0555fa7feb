use zeptoclaw::bus::{MediaType, OutboundMessage};
use zeptoclaw::channels::webex::{
    accept_polled_message, created_before_startup, http_reply, outbound_message, webhook_gate,
    WebhookReply, eq_ignore_case, get_header, hmac_sha1_hex,
    parse_http_request, parse_media_type, verify_signature, webhook_message_content,
    ProcessedMessageIds, MAX_PROCESSED_IDS,
};
use zeptoclaw::error::ZeptoError;

#[test]
fn webex_hmac_sha1_known_vector() {
    assert_eq!(
        hmac_sha1_hex(b"key", b"The quick brown fox jumps over the lazy dog"),
        "de7c9b85b8b78aa6bc8a7a36f70a90701c9db4d9"
    );
    assert_eq!(hmac_sha1_hex(b"", b""), "fbdb1d1b18aa6c08324b7d64b71fb76370690e1d");
}

#[test]
fn webex_hmac_sha1_long_key_is_hashed_first() {
    let key = [0xaau8; 80];
    assert_eq!(
        hmac_sha1_hex(&key, b"Test Using Larger Than Block-Size Key - Hash Key First"),
        "aa4ae5e15272d00e95705637ce8a3b55ed402112"
    );
}

#[test]
fn webex_verify_signature() {
    let sig = hmac_sha1_hex(b"secret", b"{\"a\":1}");
    assert!(verify_signature(Some("secret"), &sig, "{\"a\":1}"));
    assert!(!verify_signature(Some("secret"), "deadbeef", "{\"a\":1}"));
    assert!(!verify_signature(Some("other"), &sig, "{\"a\":1}"));
    assert!(verify_signature(None, "anything", "body"));
}

#[test]
fn webex_parse_http_request() {
    let raw = b"post /webhook HTTP/1.1\r\nHost: example.com\r\nX-Spark-Signature: abc \r\n\r\n{\"x\":1}";
    let req = parse_http_request(raw).unwrap();
    assert_eq!(req.method, "POST");
    assert_eq!(req.path, "/webhook");
    assert_eq!(req.headers.len(), 2);
    assert_eq!(req.headers[1], ("X-Spark-Signature".to_string(), "abc".to_string()));
    assert_eq!(req.body, "{\"x\":1}");
    assert_eq!(get_header(&req.headers, "x-spark-signature"), Some("abc"));
    assert_eq!(get_header(&req.headers, "missing"), None);
}

#[test]
fn webex_parse_http_request_errors() {
    match parse_http_request(b"") {
        Err(ZeptoError::Channel(m)) => assert_eq!(m, "Empty HTTP request"),
        other => panic!("unexpected {other:?}"),
    }
    match parse_http_request(b"GET") {
        Err(ZeptoError::Channel(m)) => assert_eq!(m, "Missing HTTP path"),
        other => panic!("unexpected {other:?}"),
    }
    match parse_http_request(b"   \r\n") {
        Err(ZeptoError::Channel(m)) => assert_eq!(m, "Missing HTTP method"),
        other => panic!("unexpected {other:?}"),
    }
    match parse_http_request(&[0xff, 0xfe]) {
        Err(ZeptoError::Channel(m)) => assert_eq!(m, "Invalid UTF-8 in HTTP request"),
        other => panic!("unexpected {other:?}"),
    }
}

#[test]
fn webex_eq_ignore_case_and_media_type() {
    assert!(eq_ignore_case("Content-Type", "content-type"));
    assert!(!eq_ignore_case("Content-Type", "content-typ"));
    assert_eq!(parse_media_type("IMAGE/png"), MediaType::Image);
    assert_eq!(parse_media_type("audio/mpeg"), MediaType::Audio);
    assert_eq!(parse_media_type("video/mp4"), MediaType::Video);
    assert_eq!(parse_media_type("application/pdf"), MediaType::Document);
}

#[test]
fn webex_webhook_message_content() {
    let mut ids = ProcessedMessageIds::new();
    let ok = webhook_message_content(
        &mut ids, "messages", "created", Some(("m1", "user1")), Some("bot"), true, Some("hi"), Some("**hi**"), false,
    );
    assert_eq!(ok, Some("hi".to_string()));
    let md = webhook_message_content(
        &mut ids, "messages", "created", Some(("m2", "user1")), None, true, None, Some("**hi**"), false,
    );
    assert_eq!(md, Some("**hi**".to_string()));
    assert_eq!(
        webhook_message_content(&mut ids, "rooms", "created", Some(("m3", "u")), None, true, Some("x"), None, false),
        None
    );
    assert_eq!(
        webhook_message_content(&mut ids, "messages", "deleted", Some(("m4", "u")), None, true, Some("x"), None, false),
        None
    );
    assert_eq!(
        webhook_message_content(&mut ids, "messages", "created", None, None, true, Some("x"), None, false),
        None
    );
    assert_eq!(
        webhook_message_content(&mut ids, "messages", "created", Some(("m5", "bot")), Some("bot"), true, Some("x"), None, false),
        None
    );
    assert_eq!(
        webhook_message_content(&mut ids, "messages", "created", Some(("m6", "u")), None, false, Some("x"), None, false),
        None
    );
    assert_eq!(
        webhook_message_content(&mut ids, "messages", "created", Some(("m7", "u")), None, true, None, None, false),
        None
    );
    assert_eq!(
        webhook_message_content(&mut ids, "messages", "created", Some(("m8", "u")), None, true, None, None, true),
        Some(String::new())
    );
    // Ignored events and the bot's own messages are not remembered; other ids are.
    assert!(!ids.contains("m3") && !ids.contains("m4") && !ids.contains("m5"));
    assert!(ids.contains("m1") && ids.contains("m6") && ids.contains("m7"));
}

#[test]
fn webex_webhook_redelivery_is_forwarded_once() {
    let mut ids = ProcessedMessageIds::new();
    let first = webhook_message_content(
        &mut ids, "messages", "created", Some(("msg-9", "alice")), Some("bot"), true, Some("hello"), None, false,
    );
    assert_eq!(first, Some("hello".to_string()));
    let again = webhook_message_content(
        &mut ids, "messages", "created", Some(("msg-9", "alice")), Some("bot"), true, Some("hello"), None, false,
    );
    assert_eq!(again, None);
    // A message seen by polling is not forwarded again by the webhook.
    let start = Some((1704067200, 0));
    assert_eq!(
        accept_polled_message(&mut ids, "msg-10", "alice", None, "2024-01-01T00:05:00Z", start, true, Some("x"), None, false),
        Some("x".to_string())
    );
    assert_eq!(
        webhook_message_content(&mut ids, "messages", "created", Some(("msg-10", "alice")), None, true, Some("x"), None, false),
        None
    );
}

#[test]
fn webex_processed_ids_dedupe() {
    let mut ids = ProcessedMessageIds::new();
    assert!(ids.mark("m1"));
    assert!(!ids.mark("m1"));
    assert!(ids.mark("m2"));
    assert!(ids.contains("m1"));
    assert!(!ids.contains("m3"));
    assert_eq!(ids.len(), 2);
}

#[test]
fn webex_processed_ids_prune_oldest_half() {
    let mut ids = ProcessedMessageIds::new();
    for i in 0..MAX_PROCESSED_IDS {
        assert!(ids.mark(&format!("id{i}")));
    }
    assert_eq!(ids.len(), 1000);
    assert!(ids.contains("id0"));
    assert!(ids.mark("newest"));
    assert_eq!(ids.len(), 501);
    assert!(!ids.contains("id0"));
    assert!(!ids.contains("id499"));
    assert!(ids.contains("id500"));
    assert!(ids.contains("newest"));
}

#[test]
fn webex_created_before_startup() {
    // 2024-01-01T00:00:00Z is 1704067200.
    assert!(created_before_startup("2024-01-01T00:00:00Z", Some((1704067201, 0))));
    assert!(created_before_startup("2024-01-01T00:00:00.250Z", Some((1704067200, 500_000_000))));
    assert!(!created_before_startup("2024-01-01T00:00:00.750Z", Some((1704067200, 500_000_000))));
    assert!(!created_before_startup("2024-01-01T00:00:00Z", None));
    assert!(!created_before_startup("yesterday", Some((1704067201, 0))));
    assert!(!created_before_startup("2024-01-01T01:00:00+01:00", Some((1704067200, 0))));
}

#[test]
fn webex_accept_polled_message() {
    let mut ids = ProcessedMessageIds::new();
    let start = Some((1704067200, 0));
    let new_time = "2024-01-01T00:05:00Z";
    // The bot's own message is skipped and not remembered.
    assert_eq!(
        accept_polled_message(&mut ids, "m0", "bot", Some("bot"), new_time, start, true, Some("x"), None, false),
        None
    );
    assert!(!ids.contains("m0"));
    // A message older than the start is skipped and not remembered.
    assert_eq!(
        accept_polled_message(&mut ids, "m1", "u", Some("bot"), "2023-12-31T23:00:00Z", start, true, Some("x"), None, false),
        None
    );
    assert!(!ids.contains("m1"));
    // A new message is forwarded once.
    assert_eq!(
        accept_polled_message(&mut ids, "m2", "u", Some("bot"), new_time, start, true, Some("hello"), None, false),
        Some("hello".to_string())
    );
    assert_eq!(
        accept_polled_message(&mut ids, "m2", "u", Some("bot"), new_time, start, true, Some("hello"), None, false),
        None
    );
    // A sender outside the allowlist is remembered but not forwarded.
    assert_eq!(
        accept_polled_message(&mut ids, "m3", "stranger", None, new_time, start, false, Some("x"), None, false),
        None
    );
    assert!(ids.contains("m3"));
    // Markdown stands in for missing text; an empty message without files is dropped.
    assert_eq!(
        accept_polled_message(&mut ids, "m4", "u", None, new_time, None, true, None, Some("*md*"), false),
        Some("*md*".to_string())
    );
    assert_eq!(
        accept_polled_message(&mut ids, "m5", "u", None, new_time, None, true, None, None, false),
        None
    );
}

fn reply(metadata: &[(&str, &str)]) -> OutboundMessage {
    OutboundMessage {
        channel: "webex".to_string(),
        chat_id: "room-1".to_string(),
        content: "Done!".to_string(),
        reply_to: Some("parent-9".to_string()),
        metadata: metadata.iter().map(|(k, v)| (k.to_string(), v.to_string())).collect(),
    }
}

#[test]
fn webex_outbound_group_reply_mentions_sender() {
    let m = outbound_message(&reply(&[
        ("room_type", "group"),
        ("sender_id", "person-7"),
        ("sender_email", "alice@example.com"),
    ]));
    assert_eq!(m.room_id, "room-1");
    assert_eq!(m.text, None);
    assert_eq!(m.markdown, None);
    assert_eq!(
        m.html.as_deref(),
        Some("<spark-mention data-object-type=\"person\" data-object-id=\"person-7\">alice</spark-mention> Done!")
    );
    assert_eq!(m.parent_id.as_deref(), Some("parent-9"));
}

#[test]
fn webex_outbound_plain_text_otherwise() {
    let direct = outbound_message(&reply(&[("room_type", "direct"), ("sender_id", "p"), ("sender_email", "a@b")]));
    assert_eq!(direct.text.as_deref(), Some("Done!"));
    assert_eq!(direct.html, None);
    let no_email = outbound_message(&reply(&[("room_type", "group"), ("sender_id", "p")]));
    assert_eq!(no_email.text.as_deref(), Some("Done!"));
    assert_eq!(no_email.html, None);
    let bare = outbound_message(&reply(&[("room_type", "group"), ("sender_id", "p"), ("sender_email", "bob")]));
    assert!(bare.html.unwrap().contains(">bob</spark-mention> Done!"));
}

fn request(method: &str, signature: Option<&str>, body: &str) -> zeptoclaw::channels::webex::ParsedHttpRequest {
    let mut raw = format!("{method} /webhook HTTP/1.1\r\nHost: x\r\n");
    if let Some(sig) = signature {
        raw.push_str(&format!("x-spark-signature: {sig}\r\n"));
    }
    raw.push_str("\r\n");
    raw.push_str(body);
    parse_http_request(raw.as_bytes()).unwrap()
}

#[test]
fn webex_webhook_gate() {
    let body = "{\"resource\":\"messages\"}";
    let good = hmac_sha1_hex(b"s3cret", body.as_bytes());
    assert_eq!(webhook_gate(&request("GET", None, body), Some("s3cret")), Some(WebhookReply::MethodNotAllowed));
    assert_eq!(webhook_gate(&request("POST", Some(&good), body), Some("s3cret")), None);
    assert_eq!(
        webhook_gate(&request("POST", Some("0000"), body), Some("s3cret")),
        Some(WebhookReply::Unauthorized)
    );
    // Without the header, or without a secret, the body is read.
    assert_eq!(webhook_gate(&request("POST", None, body), Some("s3cret")), None);
    assert_eq!(webhook_gate(&request("post", Some("0000"), body), None), None);
}

#[test]
fn webex_http_replies() {
    assert_eq!(http_reply(WebhookReply::MethodNotAllowed), "HTTP/1.1 405 Method Not Allowed\r\n\r\n");
    assert_eq!(http_reply(WebhookReply::Unauthorized), "HTTP/1.1 401 Unauthorized\r\n\r\n");
    assert_eq!(http_reply(WebhookReply::BadRequest), "HTTP/1.1 400 Bad Request\r\n\r\n");
    assert_eq!(http_reply(WebhookReply::Accepted), "HTTP/1.1 200 OK\r\nContent-Length: 2\r\n\r\nOK");
}
