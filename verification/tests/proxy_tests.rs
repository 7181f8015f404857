use rustnetlens_core::error::ProxyError;
use rustnetlens_core::model::{
    CapturedSession, HeaderPair, SessionKind, SessionState, WebSocketFramePreview,
};
use rustnetlens_core::proxy::{
    after_request_rules, apply_request_rules, begin_connect, begin_http_exchange,
    begin_websocket, extract_grpc_metadata, finish_tunnel, finish_websocket, first_header_value,
    host_port, internal_error_body, is_grpc_content_type, is_websocket_upgrade,
    preview_body_with_headers, record_mock_response, record_request_body,
    record_upstream_response, relay_frame, request_context, response_context, response_status,
    websocket_handshake, HttpStep, ProxyConfig, RequestHead, UriParts,
};
use rustnetlens_core::rules::{RuleEngine, RuleResult};
use rustnetlens_core::model::{Rule, RuleAction, RuleMatch};
use rustnetlens_core::wire::assemble_frame;

fn header(name: &str, value: &str) -> HeaderPair {
    HeaderPair { name: name.to_string(), value: value.to_string() }
}

fn relative(path: &str) -> UriParts {
    UriParts {
        text: path.into(),
        scheme: None,
        authority: None,
        host: None,
        port: None,
        path_and_query: Some(path.into()),
    }
}

fn absolute(scheme: &str, host: &str, path: &str) -> UriParts {
    UriParts {
        text: format!("{scheme}://{host}{path}"),
        scheme: Some(scheme.into()),
        authority: Some(host.into()),
        host: Some(host.into()),
        port: None,
        path_and_query: Some(path.into()),
    }
}

fn head(method: &str, uri: UriParts, host: Option<&str>) -> RequestHead {
    RequestHead {
        method: method.into(),
        uri,
        headers: vec![header("Host", host.unwrap_or("")), header("Authorization", "secret")],
        host_header: host.map(|h| h.to_string()),
    }
}

#[test]
fn relative_requests_are_sent_to_their_host() {
    let h = head("POST", relative("/submit?x=1"), Some("example.com:8080"));
    let (session, target) = begin_http_exchange(7, 1000, &h, "http").unwrap();
    assert_eq!(target.text, "http://example.com:8080/submit?x=1");
    assert_eq!(target.scheme.as_deref(), Some("http"));
    assert_eq!(session.id, 7);
    assert_eq!(session.kind, SessionKind::Http);
    assert_eq!(session.state, SessionState::Pending);
    assert_eq!(session.method.as_deref(), Some("POST"));
    assert_eq!(session.url.as_deref(), Some("http://example.com:8080/submit?x=1"));
    assert_eq!(session.host.as_deref(), Some("example.com:8080"));
    assert_eq!(session.port, Some(8080));
    assert_eq!(session.path.as_deref(), Some("/submit?x=1"));
    assert_eq!(session.request_headers[1], header("Authorization", "<redacted>"));
    assert_eq!(session.timeline.len(), 1);
    assert_eq!(session.timeline[0].name, "request_received");
    assert_eq!(session.timeline[0].started_at, 1000);
}

#[test]
fn absolute_requests_keep_their_uri() {
    let h = head("GET", absolute("http", "example.com", "/a"), None);
    let (session, target) = begin_http_exchange(1, 0, &h, "https").unwrap();
    assert_eq!(target.text, "http://example.com/a");
    assert_eq!(session.host.as_deref(), Some("example.com"));
    assert_eq!(session.port, None);
}

#[test]
fn requests_without_a_host_are_invalid() {
    let h = head("GET", relative("/"), None);
    assert_eq!(
        begin_http_exchange(1, 0, &h, "http").unwrap_err(),
        ProxyError::InvalidRequest("missing host".into())
    );
    let h = head("GET", relative("/"), Some("bad host"));
    match begin_http_exchange(1, 0, &h, "http").unwrap_err() {
        ProxyError::InvalidRequest(m) => assert!(m.starts_with("invalid target uri: ")),
        other => panic!("unexpected {other:?}"),
    }
}

fn mock_engine() -> RuleEngine {
    let mut engine = RuleEngine::default();
    engine.set_rules(vec![Rule {
        id: "mock-1".into(),
        name: "Mock user".into(),
        enabled: true,
        priority: 1,
        match_: RuleMatch {
            url_contains: Some("/api/user".into()),
            method: Some("GET".into()),
            host: None,
            status: None,
        },
        action: RuleAction::MockResponse {
            status: 200,
            headers: vec![header("content-type", "application/json")],
            body: "{\"id\":1,\"name\":\"demo\"}".into(),
        },
        created_at: 0,
        updated_at: 0,
    }]);
    engine
}

#[test]
fn a_mock_rule_short_circuits_upstream() {
    let engine = mock_engine();
    let h = head("GET", relative("/api/user"), Some("127.0.0.1:9"));
    let (mut session, _) = begin_http_exchange(3, 10_000_000, &h, "http").unwrap();
    record_request_body(&mut session, &h.headers, &[], b"");
    let mut ctx = request_context(&session, &h.headers, &[], b"");
    let rules = engine.apply_request(&mut ctx);
    let step = after_request_rules(&mut session, &h.headers, &[], &rules, &ctx.matched_rule_ids, 2048, 20_000_000);
    let plan = match step {
        HttpStep::Respond(plan) => plan,
        HttpStep::Forward { .. } => panic!("the mock must not go upstream"),
    };
    assert_eq!(plan.status, 200);
    assert_eq!(plan.body, b"{\"id\":1,\"name\":\"demo\"}".to_vec());
    assert_eq!(session.state, SessionState::Mocked);
    assert_eq!(session.matched_rule_ids, vec!["mock-1"]);
    assert_eq!(session.status, Some(200));
    assert_eq!(session.ended_at, Some(20_000_000));
    assert_eq!(session.duration_ms, Some(10));
    assert_eq!(session.response_body.text.as_deref(), Some("{\"id\":1,\"name\":\"demo\"}"));
    assert_eq!(session.timeline.last().map(|t| t.name.as_str()), Some("completed"));
}

#[test]
fn requests_without_a_mock_are_forwarded_with_rewrites() {
    let mut rules = RuleResult::default();
    rules.rewrite_request_headers = vec![header("x-added", "1"), header("AUTHORIZATION", "new")];
    rules.matched_rule_ids = vec!["r".into()];
    let h = head("GET", relative("/"), Some("example.com"));
    let (mut session, _) = begin_http_exchange(3, 10_000_000, &h, "http").unwrap();
    let step = after_request_rules(&mut session, &h.headers, &[], &rules, &vec!["r".to_string()], 10, 20);
    match step {
        HttpStep::Forward { headers, trailers } => {
            assert_eq!(
                headers,
                vec![header("Host", "example.com"), header("Authorization", "new"), header("x-added", "1")]
            );
            assert!(trailers.is_empty());
        }
        HttpStep::Respond(_) => panic!("no mock was asked for"),
    }
    assert_eq!(session.request_headers[1], header("Authorization", "<redacted>"));
    assert_eq!(session.state, SessionState::Pending);
    let (out, _) = apply_request_rules(&mut session, &h.headers, &[], &RuleResult::default(), &vec![]);
    assert_eq!(out, h.headers);
}

#[test]
fn upstream_responses_are_recorded_and_returned() {
    let h = head("GET", relative("/"), Some("example.com"));
    let (mut session, _) = begin_http_exchange(3, 10_000_000, &h, "http").unwrap();
    let response_headers = vec![header("Content-Type", "text/plain"), header("Set-Cookie", "s=1")];
    let ctx = response_context(&session, &response_headers, &[], b"hi");
    assert_eq!(ctx.response_headers[1], header("Set-Cookie", "<redacted>"));
    let mut rules = RuleResult::default();
    rules.rewrite_response_headers = vec![header("X-Seen", "yes")];
    rules.matched_rule_ids = vec!["resp".into()];
    let plan = record_upstream_response(&mut session, 404, &response_headers, &[], b"hi", &rules, 1024, 30);
    assert_eq!(plan.status, 404);
    assert_eq!(plan.body, b"hi".to_vec());
    assert_eq!(plan.headers.len(), 3);
    assert_eq!(session.status, Some(404));
    assert_eq!(session.state, SessionState::Completed);
    assert_eq!(session.bytes_down, 2);
    assert_eq!(session.matched_rule_ids, vec!["resp"]);
    assert_eq!(session.response_body.text.as_deref(), Some("hi"));
    let names: Vec<&str> = session.timeline.iter().map(|t| t.name.as_str()).collect();
    assert_eq!(names, vec!["request_received", "first_byte", "completed"]);
}

#[test]
fn grpc_metadata_is_kept_for_grpc_only() {
    let headers = vec![
        header(":path", "/svc/M"),
        header("Content-Type", "Application/GRPC+proto"),
        header("content-length", "5"),
        header("x-trace", "abc"),
    ];
    assert!(is_grpc_content_type(&headers));
    let meta = extract_grpc_metadata(&headers);
    assert_eq!(meta, vec![header("Content-Type", "Application/GRPC+proto"), header("x-trace", "abc")]);
    assert!(!is_grpc_content_type(&[header("content-type", "application/json")]));
    let mut session = CapturedSession::with_identity(SessionKind::Http, 1, 0);
    record_request_body(&mut session, &headers, &[header("grpc-status", "0")], b"12345");
    assert_eq!(session.grpc_request_metadata.len(), 2);
    assert_eq!(session.grpc_request_trailers.headers, vec![header("grpc-status", "0")]);
    assert_eq!(session.bytes_up, 5);
}

#[test]
fn header_lookup_and_previews_follow_the_first_header() {
    let headers = vec![header("content-type", "text/html"), header("Content-Type", "image/png")];
    assert_eq!(first_header_value(&headers, "CONTENT-TYPE").as_deref(), Some("text/html"));
    assert_eq!(first_header_value(&headers, "accept"), None);
    let preview = preview_body_with_headers(&headers, b"<a><b>", 100);
    assert_eq!(preview.pretty.as_deref(), Some("<a>\n<b>"));
}

#[test]
fn mock_responses_record_redacted_headers() {
    let mut session = CapturedSession::with_identity(SessionKind::Http, 1, 100_000_000);
    let plan = record_mock_response(
        &mut session,
        1000,
        &vec![header("Set-Cookie", "k=v")],
        &"body".to_string(),
        2,
        150_999_999,
    );
    assert_eq!(plan.status, 200);
    assert_eq!(plan.headers, vec![header("Set-Cookie", "k=v")]);
    assert_eq!(session.status, Some(1000));
    assert_eq!(session.response_headers, vec![header("Set-Cookie", "<redacted>")]);
    assert!(session.response_body.truncated);
    assert_eq!(session.bytes_down, 4);
    assert_eq!(session.duration_ms, Some(50));
}

#[test]
fn statuses_outside_100_to_999_are_sent_as_200() {
    assert_eq!(response_status(99), 200);
    assert_eq!(response_status(100), 100);
    assert_eq!(response_status(999), 999);
    assert_eq!(response_status(1000), 200);
}

#[test]
fn failures_are_reported_in_the_body() {
    let err = ProxyError::UpstreamConnectFailed { target: "x:1".into(), source: "refused".into() };
    assert_eq!(internal_error_body(&err), "proxy error: failed to connect upstream x:1: refused");
    assert_eq!(
        internal_error_body(&ProxyError::Http("closed".into())),
        "proxy error: http error: closed"
    );
}

#[test]
fn connect_tunnels_are_recorded() {
    let h = RequestHead {
        method: "CONNECT".into(),
        uri: UriParts {
            text: "example.com:443".into(),
            scheme: None,
            authority: Some("example.com:8443".into()),
            host: Some("example.com".into()),
            port: Some(8443),
            path_and_query: None,
        },
        headers: vec![],
        host_header: None,
    };
    let (mut session, target) = begin_connect(9, 5_000_000, &h).unwrap();
    assert_eq!(target, "example.com:8443");
    assert_eq!(session.kind, SessionKind::ConnectTunnel);
    assert_eq!(session.state, SessionState::Tunneling);
    assert_eq!(session.url.as_deref(), Some("example.com:8443"));
    assert_eq!(session.port, Some(8443));
    assert_eq!(session.bytes_up, 0);
    finish_tunnel(&mut session, 517, 4096, 8_400_000);
    assert_eq!(session.state, SessionState::Completed);
    assert_eq!(session.duration_ms, Some(3));
    assert_eq!(session.host.as_deref(), Some("example.com"));
    assert_eq!(session.bytes_up, 517);
    assert_eq!(session.bytes_down, 4096);
    let names: Vec<&str> = session.timeline.iter().map(|t| t.name.as_str()).collect();
    assert_eq!(names, vec!["connect", "completed"]);
    let missing = RequestHead { method: "CONNECT".into(), uri: relative("/"), headers: vec![], host_header: None };
    assert_eq!(
        begin_connect(1, 0, &missing).unwrap_err(),
        ProxyError::InvalidRequest("CONNECT target missing".into())
    );
    assert_eq!(host_port("h", 80), "h:80");
}

#[test]
fn websocket_upgrades_are_recognised() {
    assert!(is_websocket_upgrade("GET", Some("WebSocket"), Some("keep-alive, Upgrade")));
    assert!(!is_websocket_upgrade("POST", Some("websocket"), Some("upgrade")));
    assert!(!is_websocket_upgrade("GET", Some("h2c"), Some("upgrade")));
    assert!(!is_websocket_upgrade("GET", Some("websocket"), None));
}

#[test]
fn websocket_sessions_capture_frames() {
    let h = head("GET", relative("/chat"), Some("example.com:9001"));
    let (mut session, relay) = begin_websocket(4, 100, &h).unwrap();
    assert_eq!(relay, "example.com:9001");
    assert_eq!(session.kind, SessionKind::WebSocket);
    assert_eq!(session.url.as_deref(), Some("ws://example.com:9001/chat"));
    assert_eq!(session.status, Some(101));
    assert_eq!(session.scheme.as_deref(), Some("ws"));
    let frame = assemble_frame(&[0x81, 0x02], &[], None, b"hi".to_vec());
    assert!(!relay_frame(&mut session, "client", &frame, 1024, 110));
    let close = assemble_frame(&[0x88, 0x00], &[], None, vec![]);
    assert!(relay_frame(&mut session, "upstream", &close, 1024, 120));
    assert_eq!(session.websocket_frames.len(), 2);
    assert_eq!(
        session.websocket_frames[0],
        WebSocketFramePreview {
            direction: "client".into(),
            opcode: "text".into(),
            size: 2,
            text: Some("hi".into()),
            base64: None,
            truncated: false,
        }
    );
    finish_websocket(&mut session, None, Some(&ProxyError::Http("reset".into())), 130);
    assert_eq!(session.state, SessionState::Failed);
    assert_eq!(session.error.as_deref(), Some("http error: reset"));
    let names: Vec<&str> = session.timeline.iter().map(|t| t.name.as_str()).collect();
    assert_eq!(names, vec!["upgrade", "first_frame", "completed"]);
}

#[test]
fn only_cleartext_websockets_are_captured() {
    let h = head("GET", absolute("wss", "example.com", "/chat"), None);
    assert_eq!(
        begin_websocket(1, 0, &h).unwrap_err(),
        ProxyError::InvalidRequest(
            "only cleartext ws:// capture is supported; wss:// remains a CONNECT tunnel".into()
        )
    );
    let h = head("GET", relative("/"), None);
    assert_eq!(
        begin_websocket(1, 0, &h).unwrap_err(),
        ProxyError::InvalidRequest("missing websocket host".into())
    );
    assert_eq!(
        websocket_handshake(None).unwrap_err(),
        ProxyError::InvalidRequest("missing Sec-WebSocket-Key".into())
    );
    assert_eq!(
        websocket_handshake(Some("dGhlIHNhbXBsZSBub25jZQ==")).unwrap(),
        "s3pPLMBiTxaQ9kYGzzhZRbK+xOo="
    );
}

#[test]
fn proxy_config_for_a_port() {
    let c = ProxyConfig::for_port(8899);
    assert_eq!(c.listen_addr, "127.0.0.1:8899");
    assert_eq!(c.max_request_body_bytes, 1024 * 1024);
    assert_eq!(c.max_response_body_bytes, 2 * 1024 * 1024);
    assert_eq!(c.max_websocket_frame_bytes, 64 * 1024);
}

#[test]
fn absolute_websocket_targets_are_parsed() {
    let h = head("GET", absolute("ws", "example.com:8080", "/live?x=1"), None);
    let (session, relay) = begin_websocket(2, 0, &h).unwrap();
    assert_eq!(relay, "example.com:8080");
    assert_eq!(session.host.as_deref(), Some("example.com"));
    assert_eq!(session.port, Some(8080));
    assert_eq!(session.path.as_deref(), Some("/live?x=1"));
    let h = head("GET", absolute("ws", "example.com", "/"), None);
    let (session, relay) = begin_websocket(2, 0, &h).unwrap();
    assert_eq!(relay, "example.com:80");
    assert_eq!(session.port, Some(80));
}
