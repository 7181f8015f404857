use rustnetlens_core::capture::preview_request_body;
use rustnetlens_core::error::ReplayError;
use rustnetlens_core::model::{BodyPreview, CapturedSession, HeaderPair, SessionKind, SessionState};
use rustnetlens_core::replay::{replay_request, replayed_session};

fn http_session() -> CapturedSession {
    let mut session = CapturedSession::with_identity(SessionKind::Http, 5, 1000);
    session.url = Some("http://example.com/post".into());
    session.host = Some("example.com".into());
    session.port = Some(80);
    session.request_headers = vec![
        HeaderPair { name: "Content-Type".into(), value: "text/plain".into() },
        HeaderPair { name: "bad name".into(), value: "x".into() },
    ];
    session
}

#[test]
fn only_http_sessions_with_a_url_replay() {
    let mut tunnel = http_session();
    tunnel.kind = SessionKind::ConnectTunnel;
    assert!(matches!(replay_request(&tunnel), Err(ReplayError::NotReplayable)));
    let mut no_url = http_session();
    no_url.url = None;
    assert!(matches!(replay_request(&no_url), Err(ReplayError::NotReplayable)));
    assert_eq!(ReplayError::NotReplayable.message(), "session not replayable");
}

#[test]
fn replays_use_get_and_the_recorded_text() {
    let mut session = http_session();
    session.request_body.text = Some("hello=world".into());
    let request = replay_request(&session).unwrap();
    assert_eq!(request.method, "GET");
    assert_eq!(request.url, "http://example.com/post");
    assert_eq!(request.body, b"hello=world".to_vec());
    assert_eq!(request.headers.len(), 1);
    assert_eq!(request.headers[0].name, "Content-Type");
}

#[test]
fn recorded_base64_is_decoded() {
    let mut session = http_session();
    session.method = Some("PUT".into());
    session.request_body.base64 = Some("AAECAw==".into());
    let request = replay_request(&session).unwrap();
    assert_eq!(request.method, "PUT");
    assert_eq!(request.body, vec![0, 1, 2, 3]);
    session.request_body.base64 = Some("%%%".into());
    assert!(matches!(replay_request(&session), Err(ReplayError::Request(_))));
    session.request_body = BodyPreview::empty();
    assert!(replay_request(&session).unwrap().body.is_empty());
}

#[test]
fn invalid_methods_are_refused() {
    let mut session = http_session();
    session.method = Some("BAD METHOD".into());
    match replay_request(&session) {
        Err(ReplayError::Request(m)) => assert_eq!(m, "invalid HTTP method"),
        _ => panic!("expected a request error"),
    }
}

#[test]
fn the_replayed_session_records_the_new_exchange() {
    let mut source = http_session();
    source.request_body.text = Some("abc".into());
    let request = replay_request(&source).unwrap();
    let replayed = replayed_session(
        9,
        2000,
        &source,
        &request,
        201,
        vec![HeaderPair { name: "content-type".into(), value: "text/plain".into() }],
        Some("text/plain"),
        b"created",
    );
    assert_eq!(replayed.id, 9);
    assert_eq!(replayed.kind, SessionKind::Http);
    assert_eq!(replayed.state, SessionState::Completed);
    assert_eq!(replayed.started_at, 2000);
    assert_eq!(replayed.ended_at, Some(2000));
    assert_eq!(replayed.duration_ms, Some(0));
    assert_eq!(replayed.status, Some(201));
    assert_eq!(replayed.method.as_deref(), Some("GET"));
    assert_eq!(replayed.host.as_deref(), Some("example.com"));
    assert_eq!(replayed.request_headers, source.request_headers);
    assert_eq!(replayed.response_body.text.as_deref(), Some("created"));
    assert_eq!(replayed.bytes_up, 3);
    assert_eq!(replayed.bytes_down, 7);
    assert!(replayed.timeline.is_empty());
}

#[test]
fn captured_bodies_replay_as_the_same_bytes() {
    for (content_type, bytes) in [
        (Some("image/png"), vec![0u8, 159, 146, 150]),
        (Some("text/plain"), "caf\u{e9} au lait".as_bytes().to_vec()),
        (None, vec![]),
    ] {
        let mut session = http_session();
        session.request_body = preview_request_body(content_type, None, &bytes);
        let request = replay_request(&session).unwrap();
        assert_eq!(request.body, bytes);
    }
}
