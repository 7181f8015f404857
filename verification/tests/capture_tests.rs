use rustnetlens_core::capture::{
    is_html_like, is_json_like, is_text_like, is_textual, preview_body, preview_body_with_encoding,
    preview_request_body, preview_response_body, preview_websocket_frame, pretty_html,
    redact_header, redact_headers,
};
use rustnetlens_core::model::{BodyPreview, HeaderPair};

fn header(name: &str, value: &str) -> HeaderPair {
    HeaderPair { name: name.to_string(), value: value.to_string() }
}

#[test]
fn redacts_sensitive_headers() {
    assert_eq!(redact_header("Authorization", "secret"), "<redacted>");
    assert_eq!(redact_header("X-Api-Key", "secret"), "<redacted>");
    assert_eq!(redact_header("Accept", "json"), "json");
}

#[test]
fn pretty_prints_json_body() {
    let preview = preview_body_with_encoding(Some("application/json"), None, br#"{"a":1}"#, 1024);
    assert_eq!(preview.pretty.as_deref(), Some("{\n  \"a\": 1\n}"));
    assert_eq!(preview.text.as_deref(), Some("{\"a\":1}"));
}

#[test]
fn redaction_is_idempotent_and_keeps_names() {
    let headers = vec![
        header("Cookie", "a=b"),
        header("X-Auth-Token", "t"),
        header("Set-Cookie", "c"),
        header("Host", "example.com"),
    ];
    let once = redact_headers(&headers);
    assert_eq!(
        once,
        vec![
            header("Cookie", "<redacted>"),
            header("X-Auth-Token", "<redacted>"),
            header("Set-Cookie", "<redacted>"),
            header("Host", "example.com"),
        ]
    );
    assert_eq!(redact_headers(&once), once);
}

#[test]
fn classifies_content_types() {
    assert!(is_text_like(Some("Text/HTML; charset=utf-8")));
    assert!(is_text_like(Some("application/x-www-form-urlencoded")));
    assert!(!is_text_like(Some("image/png")));
    assert!(!is_text_like(None));
    assert!(is_html_like(Some("text/html")));
    assert!(!is_html_like(Some("text/plain")));
    assert!(is_json_like(None, b"  [1,2]"));
    assert!(!is_json_like(None, b"x[1]"));
    assert!(is_textual(None, b"plain"));
    assert!(!is_textual(None, &[0xff, 0xfe]));
    assert!(!is_textual(Some("image/png"), b"abc"));
}

#[test]
fn html_gets_line_breaks_between_tags() {
    assert_eq!(pretty_html("<a><b></b></a>"), "<a>\n<b>\n</b>\n</a>");
}

#[test]
fn binary_bodies_are_shown_as_base64() {
    let preview = preview_body(Some("image/png"), &[0, 1, 2, 3], 1024);
    assert_eq!(preview.base64.as_deref(), Some("AAECAw=="));
    assert_eq!(preview.text, None);
    assert_eq!(preview.pretty, None);
    assert_eq!(preview.size, 4);
    assert!(!preview.truncated);
}

#[test]
fn long_bodies_are_cut_and_counted() {
    let preview = preview_body(Some("text/plain"), b"abcdef", 4);
    assert_eq!(preview.text.as_deref(), Some("abcd"));
    assert_eq!(preview.size, 6);
    assert!(preview.truncated);
}

#[test]
fn encodings_are_trimmed_and_blank_ones_dropped() {
    let preview = preview_request_body(Some("text/plain"), Some("  gzip "), b"x");
    assert_eq!(preview.encoding.as_deref(), Some("gzip"));
    let preview = preview_response_body(Some("text/plain"), Some("   "), b"x");
    assert_eq!(preview.encoding, None);
}

#[test]
fn empty_preview_has_nothing() {
    let e = BodyPreview::empty();
    assert_eq!(e.size, 0);
    assert!(e.text.is_none() && e.base64.is_none() && e.pretty.is_none());
    let p = preview_body(None, b"", 10);
    assert_eq!(p.base64, None);
    assert_eq!(p.text.as_deref(), Some(""));
}

#[test]
fn websocket_frames_preview_text_or_base64() {
    let text = preview_websocket_frame("client", "text", b"hello", 3);
    assert_eq!(text.text.as_deref(), Some("hel"));
    assert!(text.truncated);
    assert_eq!(text.size, 5);
    let bin = preview_websocket_frame("upstream", "binary", &[1, 2], 16);
    assert_eq!(bin.text, None);
    assert_eq!(bin.base64.as_deref(), Some("AQI="));
    assert_eq!(bin.direction, "upstream");
}
