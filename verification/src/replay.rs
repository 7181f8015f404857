//! Replaying a captured HTTP request: what is sent again, and the session
//! that records the new exchange.
use vstd::prelude::*;

use crate::capture::{preview_response_body, shown_bytes, DEFAULT_RESPONSE_LIMIT};
use crate::clock::Instant;
use crate::codec::base64_decode;
use crate::error::ReplayError;
use crate::model::{
    copy_headers, CapturedSession, HeaderModel, HeaderPair, SessionId, SessionKind,
    SessionModel, SessionState,
};
use crate::proxy::previewed;
use crate::wire::{is_valid_method, sendable, sendable_headers, valid_method};

verus! {

/// A request to send again.
#[derive(Debug)]
pub struct ReplayRequest {
    pub method: String,
    pub url: String,
    /// The recorded request headers that can be sent.
    pub headers: Vec<HeaderPair>,
    pub body: Vec<u8>,
}

/// A replayed session, with the id of the session it replays.
#[derive(Debug)]
pub struct ReplayResult {
    pub source_session_id: String,
    pub replayed_session: CapturedSession,
}

/// The method a session is replayed with: its own, or `GET`.
pub open spec fn replay_method(s: SessionModel) -> Seq<char> {
    match s.method {
        Some(m) => m,
        None => "GET"@,
    }
}

/// Whether a session can be replayed: an HTTP exchange with a URL.
pub open spec fn replayable(s: SessionModel) -> bool {
    s.kind == SessionKind::Http && s.url is Some
}

/// What is sent to replay a session. Only HTTP exchanges with a URL can be
/// replayed. The method must be one that HTTP accepts (the error is
/// `invalid HTTP method`), and recorded base64 must decode (the error is
/// the decoder's). The body is the bytes that the recorded request body
/// shows (see `shown_bytes`); the headers are the recorded ones that can be
/// sent.
pub fn replay_request(session: &CapturedSession) -> (r: Result<ReplayRequest, ReplayError>)
    ensures
        !replayable(session@) ==> r matches Err(ReplayError::NotReplayable),
        replayable(session@) && !valid_method(replay_method(session@)) ==> (r matches Err(
            ReplayError::Request(m),
        ) && m@ == "invalid HTTP method"@),
        replayable(session@) && valid_method(replay_method(session@)) ==> match shown_bytes(
            session@.request_body,
        ) {
            Err(m) => (r matches Err(ReplayError::Request(e)) && e@ == m),
            Ok(body) => (r matches Ok(q) && q.method@ == replay_method(session@) && q.url@
                == session@.url->0 && q.headers.deep_view() == sendable(session@.request_headers)
                && q.body@ == body),
        },
{
    if session.kind != SessionKind::Http {
        return Err(ReplayError::NotReplayable);
    }
    let url = match &session.url {
        Some(u) => u.clone(),
        None => {
            return Err(ReplayError::NotReplayable);
        },
    };
    let method = match &session.method {
        Some(m) => m.clone(),
        None => "GET".to_owned(),
    };
    if !is_valid_method(method.as_str()) {
        return Err(ReplayError::Request("invalid HTTP method".to_owned()));
    }
    let headers = sendable_headers(session.request_headers.as_slice());
    let body = match &session.request_body.text {
        Some(t) => vstd::slice::slice_to_vec(t.as_str().as_bytes()),
        None => match &session.request_body.base64 {
            Some(e) => match base64_decode(e.as_str()) {
                Ok(bytes) => bytes,
                Err(msg) => {
                    return Err(ReplayError::Request(msg));
                },
            },
            None => Vec::new(),
        },
    };
    Ok(ReplayRequest { method, url, headers, body })
}

/// The session that records a replay started at `now`: an HTTP exchange,
/// completed at once with zero duration, with the method and URL sent, the
/// source's scheme, host, port, path, request headers and request body, the
/// response's status and headers, the preview of its body (cut to 2 MiB,
/// typed by its content type) and the sizes sent and received.
pub open spec fn replayed_model(
    id: SessionId,
    now: Instant,
    source: SessionModel,
    method: Seq<char>,
    url: Seq<char>,
    sent: Seq<u8>,
    status: u16,
    headers: Seq<HeaderModel>,
    content_type: Option<Seq<char>>,
    body: Seq<u8>,
) -> SessionModel {
    SessionModel {
        state: SessionState::Completed,
        ended_at: Some(now),
        duration_ms: Some(0),
        method: Some(method),
        url: Some(url),
        scheme: source.scheme,
        host: source.host,
        port: source.port,
        path: source.path,
        status: Some(status),
        request_headers: source.request_headers,
        response_headers: headers,
        request_body: source.request_body,
        response_body: previewed(content_type, None, body, DEFAULT_RESPONSE_LIMIT),
        bytes_up: sent.len() as u64,
        bytes_down: body.len() as u64,
        ..CapturedSession::fresh_model(SessionKind::Http, id, now)
    }
}

/// The session that records a replay of `source` sent as `request` at
/// `now`, given the response's status, headers, content type (the text of
/// its first `Content-Type` header, when it is visible ASCII) and body.
pub fn replayed_session(
    id: SessionId,
    now: Instant,
    source: &CapturedSession,
    request: &ReplayRequest,
    status: u16,
    headers: Vec<HeaderPair>,
    content_type: Option<&str>,
    body: &[u8],
) -> (r: CapturedSession)
    requires
        body@.len() <= isize::MAX,
    ensures
        r@ == replayed_model(
            id,
            now,
            source@,
            request.method@,
            request.url@,
            request.body@,
            status,
            headers.deep_view(),
            content_type.deep_view(),
            body@,
        ),
{
    let mut session = CapturedSession::with_identity(SessionKind::Http, id, now);
    session.state = SessionState::Completed;
    session.ended_at = Some(now);
    session.duration_ms = Some(0);
    session.method = Some(request.method.clone());
    session.url = Some(request.url.clone());
    session.scheme = source.scheme.clone();
    session.host = source.host.clone();
    session.port = source.port;
    session.path = source.path.clone();
    session.status = Some(status);
    session.request_headers = copy_headers(&source.request_headers);
    session.response_headers = headers;
    session.request_body = source.request_body.clone();
    session.response_body = preview_response_body(content_type, None, body);
    session.bytes_up = request.body.len() as u64;
    session.bytes_down = body.len() as u64;
    assert(session@ =~= replayed_model(
        id,
        now,
        source@,
        request.method@,
        request.url@,
        request.body@,
        status,
        session.response_headers.deep_view(),
        content_type.deep_view(),
        body@,
    ));
    session
}

} // verus!
