//! The data model of captured traffic, rules and statistics.
//!
//! Identifiers of sessions are 128-bit integers (the value of a UUID), and
//! instants are integers counting nanoseconds since the Unix epoch, UTC.
use vstd::prelude::*;

use crate::clock::{is_random_uuid, new_session_id, now_instant, Instant};

verus! {

/// Identifier of a captured session: the 128-bit value of a UUID.
pub type SessionId = u128;

#[derive(Debug, Clone, Copy, PartialEq, Eq, Structural)]
pub enum SessionKind {
    Http,
    ConnectTunnel,
    WebSocket,
}

#[derive(Debug, Clone, Copy, PartialEq, Eq, Structural)]
pub enum SessionState {
    Pending,
    Completed,
    Failed,
    Mocked,
    Tunneling,
}

#[derive(Debug, PartialEq, Eq)]
pub struct HeaderPair {
    pub name: String,
    pub value: String,
}

/// The model of a header: its name and value as character sequences.
#[verifier::ext_equal]
pub ghost struct HeaderModel {
    pub name: Seq<char>,
    pub value: Seq<char>,
}

impl View for HeaderPair {
    type V = HeaderModel;

    open spec fn view(&self) -> HeaderModel {
        HeaderModel { name: self.name@, value: self.value@ }
    }
}

impl DeepView for HeaderPair {
    type V = HeaderModel;

    open spec fn deep_view(&self) -> HeaderModel {
        self@
    }
}

impl Clone for HeaderPair {
    fn clone(&self) -> (r: Self)
        ensures
            r == *self,
    {
        HeaderPair { name: self.name.clone(), value: self.value.clone() }
    }
}

#[derive(Debug, PartialEq, Eq)]
pub struct BodyPreview {
    pub content_type: Option<String>,
    pub truncated: bool,
    pub size: u64,
    pub encoding: Option<String>,
    pub pretty: Option<String>,
    pub text: Option<String>,
    pub base64: Option<String>,
}

/// The model of a body preview.
#[verifier::ext_equal]
pub ghost struct BodyModel {
    pub content_type: Option<Seq<char>>,
    pub truncated: bool,
    pub size: u64,
    pub encoding: Option<Seq<char>>,
    pub pretty: Option<Seq<char>>,
    pub text: Option<Seq<char>>,
    pub base64: Option<Seq<char>>,
}

impl View for BodyPreview {
    type V = BodyModel;

    open spec fn view(&self) -> BodyModel {
        BodyModel {
            content_type: self.content_type.deep_view(),
            truncated: self.truncated,
            size: self.size,
            encoding: self.encoding.deep_view(),
            pretty: self.pretty.deep_view(),
            text: self.text.deep_view(),
            base64: self.base64.deep_view(),
        }
    }
}

impl Clone for BodyPreview {
    fn clone(&self) -> (r: Self)
        ensures
            r == *self,
    {
        BodyPreview {
            content_type: self.content_type.clone(),
            truncated: self.truncated,
            size: self.size,
            encoding: self.encoding.clone(),
            pretty: self.pretty.clone(),
            text: self.text.clone(),
            base64: self.base64.clone(),
        }
    }
}

impl BodyPreview {
    /// The preview of an empty, absent body.
    pub open spec fn empty_model() -> BodyModel {
        BodyModel {
            content_type: None,
            truncated: false,
            size: 0,
            encoding: None,
            pretty: None,
            text: None,
            base64: None,
        }
    }

    pub fn empty() -> (r: Self)
        ensures
            r@ == Self::empty_model(),
    {
        BodyPreview {
            content_type: None,
            truncated: false,
            size: 0,
            encoding: None,
            pretty: None,
            text: None,
            base64: None,
        }
    }
}


#[derive(Debug, PartialEq, Eq)]
pub struct TimelineEntry {
    pub name: String,
    pub started_at: Instant,
    pub ended_at: Option<Instant>,
    pub duration_ms: Option<u64>,
}

#[verifier::ext_equal]
pub ghost struct TimelineModel {
    pub name: Seq<char>,
    pub started_at: Instant,
    pub ended_at: Option<Instant>,
    pub duration_ms: Option<u64>,
}

impl View for TimelineEntry {
    type V = TimelineModel;

    open spec fn view(&self) -> TimelineModel {
        TimelineModel {
            name: self.name@,
            started_at: self.started_at,
            ended_at: self.ended_at,
            duration_ms: self.duration_ms,
        }
    }
}

impl DeepView for TimelineEntry {
    type V = TimelineModel;

    open spec fn deep_view(&self) -> TimelineModel {
        self@
    }
}

impl Clone for TimelineEntry {
    fn clone(&self) -> (r: Self)
        ensures
            r == *self,
    {
        TimelineEntry {
            name: self.name.clone(),
            started_at: self.started_at,
            ended_at: self.ended_at,
            duration_ms: self.duration_ms,
        }
    }
}

impl TimelineEntry {
    /// A timeline entry of zero duration, started and ended at `at`.
    pub fn mark(name: &str, at: Instant) -> (r: Self)
        ensures
            r.name@ == name@,
            r.started_at == at,
            r.ended_at == Some(at),
            r.duration_ms == Some(0u64),
    {
        TimelineEntry { name: name.to_owned(), started_at: at, ended_at: Some(at), duration_ms: Some(0) }
    }
}

#[derive(Debug, PartialEq, Eq)]
pub struct WebSocketFramePreview {
    pub direction: String,
    pub opcode: String,
    pub size: u64,
    pub text: Option<String>,
    pub base64: Option<String>,
    pub truncated: bool,
}

#[verifier::ext_equal]
pub ghost struct FrameModel {
    pub direction: Seq<char>,
    pub opcode: Seq<char>,
    pub size: u64,
    pub text: Option<Seq<char>>,
    pub base64: Option<Seq<char>>,
    pub truncated: bool,
}

impl View for WebSocketFramePreview {
    type V = FrameModel;

    open spec fn view(&self) -> FrameModel {
        FrameModel {
            direction: self.direction@,
            opcode: self.opcode@,
            size: self.size,
            text: self.text.deep_view(),
            base64: self.base64.deep_view(),
            truncated: self.truncated,
        }
    }
}

impl DeepView for WebSocketFramePreview {
    type V = FrameModel;

    open spec fn deep_view(&self) -> FrameModel {
        self@
    }
}

impl Clone for WebSocketFramePreview {
    fn clone(&self) -> (r: Self)
        ensures
            r == *self,
    {
        WebSocketFramePreview {
            direction: self.direction.clone(),
            opcode: self.opcode.clone(),
            size: self.size,
            text: self.text.clone(),
            base64: self.base64.clone(),
            truncated: self.truncated,
        }
    }
}

/// Trailing headers of a message, as captured.
#[derive(Debug, PartialEq, Eq)]
pub struct TrailersPreview {
    pub headers: Vec<HeaderPair>,
}

impl View for TrailersPreview {
    type V = Seq<HeaderModel>;

    open spec fn view(&self) -> Seq<HeaderModel> {
        self.headers.deep_view()
    }
}

impl Clone for TrailersPreview {
    fn clone(&self) -> (r: Self)
        ensures
            r@ == self@,
    {
        let headers = self.headers.clone();
        assert(headers.deep_view() =~= self.headers.deep_view());
        TrailersPreview { headers }
    }
}

impl TrailersPreview {
    pub fn empty() -> (r: Self)
        ensures
            r@ == Seq::<HeaderModel>::empty(),
    {
        TrailersPreview { headers: Vec::new() }
    }
}

/// One captured exchange: an HTTP request and response, a CONNECT tunnel,
/// or a WebSocket connection.
#[derive(Debug)]
pub struct CapturedSession {
    pub id: SessionId,
    pub kind: SessionKind,
    pub state: SessionState,
    /// Nanoseconds since the Unix epoch.
    pub started_at: Instant,
    pub ended_at: Option<Instant>,
    pub duration_ms: Option<u64>,
    pub method: Option<String>,
    pub url: Option<String>,
    pub scheme: Option<String>,
    pub host: Option<String>,
    pub port: Option<u16>,
    pub path: Option<String>,
    pub status: Option<u16>,
    pub request_headers: Vec<HeaderPair>,
    pub response_headers: Vec<HeaderPair>,
    pub request_body: BodyPreview,
    pub response_body: BodyPreview,
    pub grpc_request_metadata: Vec<HeaderPair>,
    pub grpc_response_metadata: Vec<HeaderPair>,
    pub grpc_request_trailers: TrailersPreview,
    pub grpc_response_trailers: TrailersPreview,
    pub timeline: Vec<TimelineEntry>,
    pub websocket_frames: Vec<WebSocketFramePreview>,
    pub bytes_up: u64,
    pub bytes_down: u64,
    pub error: Option<String>,
    pub matched_rule_ids: Vec<String>,
}

/// The model of a captured session: every field by its view.
#[verifier::ext_equal]
pub ghost struct SessionModel {
    pub id: SessionId,
    pub kind: SessionKind,
    pub state: SessionState,
    pub started_at: Instant,
    pub ended_at: Option<Instant>,
    pub duration_ms: Option<u64>,
    pub method: Option<Seq<char>>,
    pub url: Option<Seq<char>>,
    pub scheme: Option<Seq<char>>,
    pub host: Option<Seq<char>>,
    pub port: Option<u16>,
    pub path: Option<Seq<char>>,
    pub status: Option<u16>,
    pub request_headers: Seq<HeaderModel>,
    pub response_headers: Seq<HeaderModel>,
    pub request_body: BodyModel,
    pub response_body: BodyModel,
    pub grpc_request_metadata: Seq<HeaderModel>,
    pub grpc_response_metadata: Seq<HeaderModel>,
    pub grpc_request_trailers: Seq<HeaderModel>,
    pub grpc_response_trailers: Seq<HeaderModel>,
    pub timeline: Seq<TimelineModel>,
    pub websocket_frames: Seq<FrameModel>,
    pub bytes_up: u64,
    pub bytes_down: u64,
    pub error: Option<Seq<char>>,
    pub matched_rule_ids: Seq<Seq<char>>,
}

impl View for CapturedSession {
    type V = SessionModel;

    open spec fn view(&self) -> SessionModel {
        SessionModel {
            id: self.id,
            kind: self.kind,
            state: self.state,
            started_at: self.started_at,
            ended_at: self.ended_at,
            duration_ms: self.duration_ms,
            method: self.method.deep_view(),
            url: self.url.deep_view(),
            scheme: self.scheme.deep_view(),
            host: self.host.deep_view(),
            port: self.port,
            path: self.path.deep_view(),
            status: self.status,
            request_headers: self.request_headers.deep_view(),
            response_headers: self.response_headers.deep_view(),
            request_body: self.request_body@,
            response_body: self.response_body@,
            grpc_request_metadata: self.grpc_request_metadata.deep_view(),
            grpc_response_metadata: self.grpc_response_metadata.deep_view(),
            grpc_request_trailers: self.grpc_request_trailers@,
            grpc_response_trailers: self.grpc_response_trailers@,
            timeline: self.timeline.deep_view(),
            websocket_frames: self.websocket_frames.deep_view(),
            bytes_up: self.bytes_up,
            bytes_down: self.bytes_down,
            error: self.error.deep_view(),
            matched_rule_ids: self.matched_rule_ids.deep_view(),
        }
    }
}

impl DeepView for CapturedSession {
    type V = SessionModel;

    open spec fn deep_view(&self) -> SessionModel {
        self@
    }
}

/// A copy of a vector of strings with the same characters.
pub fn copy_strings(v: &Vec<String>) -> (r: Vec<String>)
    ensures
        r.deep_view() == v.deep_view(),
{
    let r = v.clone();
    assert(r.deep_view() =~= v.deep_view());
    r
}

/// A copy of a vector of headers with the same names and values.
pub fn copy_headers(v: &Vec<HeaderPair>) -> (r: Vec<HeaderPair>)
    ensures
        r.deep_view() == v.deep_view(),
{
    let r = v.clone();
    assert(r.deep_view() =~= v.deep_view());
    r
}

impl Clone for CapturedSession {
    fn clone(&self) -> (r: Self)
        ensures
            r@ == self@,
    {
        let timeline = self.timeline.clone();
        let websocket_frames = self.websocket_frames.clone();
        assert(timeline.deep_view() =~= self.timeline.deep_view());
        assert(websocket_frames.deep_view() =~= self.websocket_frames.deep_view());
        CapturedSession {
            id: self.id,
            kind: self.kind,
            state: self.state,
            started_at: self.started_at,
            ended_at: self.ended_at,
            duration_ms: self.duration_ms,
            method: self.method.clone(),
            url: self.url.clone(),
            scheme: self.scheme.clone(),
            host: self.host.clone(),
            port: self.port,
            path: self.path.clone(),
            status: self.status,
            request_headers: copy_headers(&self.request_headers),
            response_headers: copy_headers(&self.response_headers),
            request_body: self.request_body.clone(),
            response_body: self.response_body.clone(),
            grpc_request_metadata: copy_headers(&self.grpc_request_metadata),
            grpc_response_metadata: copy_headers(&self.grpc_response_metadata),
            grpc_request_trailers: self.grpc_request_trailers.clone(),
            grpc_response_trailers: self.grpc_response_trailers.clone(),
            timeline,
            websocket_frames,
            bytes_up: self.bytes_up,
            bytes_down: self.bytes_down,
            error: self.error.clone(),
            matched_rule_ids: copy_strings(&self.matched_rule_ids),
        }
    }
}

/// Whole milliseconds from `from` to `to` (nanosecond instants), or zero
/// when `to` is earlier; a span too long for `u64` milliseconds, which no
/// two dates of the calendar reach, counts as `u64::MAX`.
pub open spec fn elapsed_ms(from: int, to: int) -> u64 {
    if to >= from {
        let ms = (to - from) / 1_000_000;
        if ms <= u64::MAX {
            ms as u64
        } else {
            u64::MAX
        }
    } else {
        0
    }
}

/// Whole milliseconds from `from` to `to`, as `elapsed_ms` counts them.
pub fn elapsed_millis(from: Instant, to: Instant) -> (r: u64)
    ensures
        r == elapsed_ms(from as int, to as int),
{
    if to < from {
        return 0;
    }
    let span: u128 = if from >= 0 {
        (to - from) as u128
    } else if to < 0 {
        (to - from) as u128
    } else {
        (to as u128) + ((-(from + 1)) as u128) + 1
    };
    let ms = span / 1_000_000;
    if ms > u64::MAX as u128 {
        u64::MAX
    } else {
        ms as u64
    }
}

impl CapturedSession {
    /// The model of a fresh pending session with no captured data.
    pub open spec fn fresh_model(kind: SessionKind, id: SessionId, started_at: Instant) -> SessionModel {
        SessionModel {
            id,
            kind,
            state: SessionState::Pending,
            started_at,
            ended_at: None,
            duration_ms: None,
            method: None,
            url: None,
            scheme: None,
            host: None,
            port: None,
            path: None,
            status: None,
            request_headers: Seq::empty(),
            response_headers: Seq::empty(),
            request_body: BodyPreview::empty_model(),
            response_body: BodyPreview::empty_model(),
            grpc_request_metadata: Seq::empty(),
            grpc_response_metadata: Seq::empty(),
            grpc_request_trailers: Seq::empty(),
            grpc_response_trailers: Seq::empty(),
            timeline: Seq::empty(),
            websocket_frames: Seq::empty(),
            bytes_up: 0,
            bytes_down: 0,
            error: None,
            matched_rule_ids: Seq::empty(),
        }
    }

    /// A fresh pending session with the given identity and start instant.
    pub fn with_identity(kind: SessionKind, id: SessionId, started_at: Instant) -> (r: Self)
        ensures
            r@ == Self::fresh_model(kind, id, started_at),
    {
        let r = CapturedSession {
            id,
            kind,
            state: SessionState::Pending,
            started_at,
            ended_at: None,
            duration_ms: None,
            method: None,
            url: None,
            scheme: None,
            host: None,
            port: None,
            path: None,
            status: None,
            request_headers: Vec::new(),
            response_headers: Vec::new(),
            request_body: BodyPreview::empty(),
            response_body: BodyPreview::empty(),
            grpc_request_metadata: Vec::new(),
            grpc_response_metadata: Vec::new(),
            grpc_request_trailers: TrailersPreview::empty(),
            grpc_response_trailers: TrailersPreview::empty(),
            timeline: Vec::new(),
            websocket_frames: Vec::new(),
            bytes_up: 0,
            bytes_down: 0,
            error: None,
            matched_rule_ids: Vec::new(),
        };
        assert(r@ =~= Self::fresh_model(kind, id, started_at));
        r
    }

    /// A fresh pending session of the given kind, with a random id, started now.
    pub fn new(kind: SessionKind) -> (r: Self)
        ensures
            r@ == Self::fresh_model(kind, r.id, r.started_at),
            is_random_uuid(r.id),
    {
        let id = new_session_id();
        let now = now_instant();
        Self::with_identity(kind, id, now)
    }

    /// Ends the session at instant `now` in the given state.
    pub fn finish_at(&mut self, state: SessionState, now: Instant)
        ensures
            final(self)@ == (SessionModel {
                ended_at: Some(now),
                duration_ms: Some(elapsed_ms(old(self).started_at as int, now as int)),
                state,
                ..old(self)@
            }),
    {
        let elapsed: u64 = elapsed_millis(self.started_at, now);
        self.ended_at = Some(now);
        self.duration_ms = Some(elapsed);
        self.state = state;
    }

    /// Ends the session now in the given state.
    pub fn finish(&mut self, state: SessionState)
        ensures
            final(self).ended_at is Some,
            final(self)@ == (SessionModel {
                ended_at: final(self).ended_at,
                duration_ms: Some(elapsed_ms(old(self).started_at as int, final(self).ended_at->0 as int)),
                state,
                ..old(self)@
            }),
    {
        let now = now_instant();
        self.finish_at(state, now);
    }
}

#[derive(Debug, PartialEq, Eq)]
pub struct ProxyStatus {
    pub running: bool,
    pub listen_addr: Option<String>,
    /// Nanoseconds since the Unix epoch.
    pub started_at: Option<Instant>,
    pub active_sessions: usize,
}

impl ProxyStatus {
    /// The status of a proxy that is not running.
    pub fn stopped() -> (r: Self)
        ensures
            !r.running,
            r.listen_addr is None,
            r.started_at is None,
            r.active_sessions == 0,
    {
        ProxyStatus { running: false, listen_addr: None, started_at: None, active_sessions: 0 }
    }
}

/// Criteria that a session summary must meet to be listed; `None` and
/// `false` impose nothing.
#[derive(Debug)]
pub struct SessionFilter {
    pub keyword: Option<String>,
    pub method: Option<String>,
    pub status: Option<u16>,
    pub host: Option<String>,
    pub only_failed: bool,
    pub only_mocked: bool,
}

impl Default for SessionFilter {
    fn default() -> (r: Self)
        ensures
            r.keyword is None,
            r.method is None,
            r.status is None,
            r.host is None,
            !r.only_failed,
            !r.only_mocked,
    {
        SessionFilter {
            keyword: None,
            method: None,
            status: None,
            host: None,
            only_failed: false,
            only_mocked: false,
        }
    }
}

#[verifier::ext_equal]
pub ghost struct FilterModel {
    pub keyword: Option<Seq<char>>,
    pub method: Option<Seq<char>>,
    pub status: Option<u16>,
    pub host: Option<Seq<char>>,
    pub only_failed: bool,
    pub only_mocked: bool,
}

impl View for SessionFilter {
    type V = FilterModel;

    open spec fn view(&self) -> FilterModel {
        FilterModel {
            keyword: self.keyword.deep_view(),
            method: self.method.deep_view(),
            status: self.status,
            host: self.host.deep_view(),
            only_failed: self.only_failed,
            only_mocked: self.only_mocked,
        }
    }
}

/// The listed form of a session.
#[derive(Debug)]
pub struct SessionSummary {
    pub id: SessionId,
    pub kind: SessionKind,
    pub state: SessionState,
    pub started_at: Instant,
    pub method: Option<String>,
    pub url: Option<String>,
    pub host: Option<String>,
    pub status: Option<u16>,
    pub duration_ms: Option<u64>,
    pub bytes_up: u64,
    pub bytes_down: u64,
    pub matched_rule_ids: Vec<String>,
}

#[verifier::ext_equal]
pub ghost struct SummaryModel {
    pub id: SessionId,
    pub kind: SessionKind,
    pub state: SessionState,
    pub started_at: Instant,
    pub method: Option<Seq<char>>,
    pub url: Option<Seq<char>>,
    pub host: Option<Seq<char>>,
    pub status: Option<u16>,
    pub duration_ms: Option<u64>,
    pub bytes_up: u64,
    pub bytes_down: u64,
    pub matched_rule_ids: Seq<Seq<char>>,
}

impl View for SessionSummary {
    type V = SummaryModel;

    open spec fn view(&self) -> SummaryModel {
        SummaryModel {
            id: self.id,
            kind: self.kind,
            state: self.state,
            started_at: self.started_at,
            method: self.method.deep_view(),
            url: self.url.deep_view(),
            host: self.host.deep_view(),
            status: self.status,
            duration_ms: self.duration_ms,
            bytes_up: self.bytes_up,
            bytes_down: self.bytes_down,
            matched_rule_ids: self.matched_rule_ids.deep_view(),
        }
    }
}

impl DeepView for SessionSummary {
    type V = SummaryModel;

    open spec fn deep_view(&self) -> SummaryModel {
        self@
    }
}

impl Clone for SessionSummary {
    fn clone(&self) -> (r: Self)
        ensures
            r@ == self@,
    {
        SessionSummary {
            id: self.id,
            kind: self.kind,
            state: self.state,
            started_at: self.started_at,
            method: self.method.clone(),
            url: self.url.clone(),
            host: self.host.clone(),
            status: self.status,
            duration_ms: self.duration_ms,
            bytes_up: self.bytes_up,
            bytes_down: self.bytes_down,
            matched_rule_ids: copy_strings(&self.matched_rule_ids),
        }
    }
}

/// The summary of a session model.
pub open spec fn summary_of(s: SessionModel) -> SummaryModel {
    SummaryModel {
        id: s.id,
        kind: s.kind,
        state: s.state,
        started_at: s.started_at,
        method: s.method,
        url: s.url,
        host: s.host,
        status: s.status,
        duration_ms: s.duration_ms,
        bytes_up: s.bytes_up,
        bytes_down: s.bytes_down,
        matched_rule_ids: s.matched_rule_ids,
    }
}

impl SessionSummary {
    pub fn from_session(session: &CapturedSession) -> (r: Self)
        ensures
            r@ == summary_of(session@),
    {
        SessionSummary {
            id: session.id,
            kind: session.kind,
            state: session.state,
            started_at: session.started_at,
            method: session.method.clone(),
            url: session.url.clone(),
            host: session.host.clone(),
            status: session.status,
            duration_ms: session.duration_ms,
            bytes_up: session.bytes_up,
            bytes_down: session.bytes_down,
            matched_rule_ids: copy_strings(&session.matched_rule_ids),
        }
    }
}

/// Conditions under which a rule applies to a session; `None` imposes nothing.
#[derive(Debug, PartialEq, Eq)]
pub struct RuleMatch {
    pub url_contains: Option<String>,
    pub method: Option<String>,
    pub host: Option<String>,
    pub status: Option<u16>,
}

#[verifier::ext_equal]
pub ghost struct MatchModel {
    pub url_contains: Option<Seq<char>>,
    pub method: Option<Seq<char>>,
    pub host: Option<Seq<char>>,
    pub status: Option<u16>,
}

impl View for RuleMatch {
    type V = MatchModel;

    open spec fn view(&self) -> MatchModel {
        MatchModel {
            url_contains: self.url_contains.deep_view(),
            method: self.method.deep_view(),
            host: self.host.deep_view(),
            status: self.status,
        }
    }
}

impl Clone for RuleMatch {
    fn clone(&self) -> (r: Self)
        ensures
            r == *self,
    {
        RuleMatch {
            url_contains: self.url_contains.clone(),
            method: self.method.clone(),
            host: self.host.clone(),
            status: self.status,
        }
    }
}

/// What a matching rule does.
#[derive(Debug, PartialEq, Eq)]
pub enum RuleAction {
    RewriteRequestHeaders { headers: Vec<HeaderPair> },
    RewriteResponseHeaders { headers: Vec<HeaderPair> },
    MockResponse { status: u16, headers: Vec<HeaderPair>, body: String },
    Delay { millis: u64 },
}

#[verifier::ext_equal]
pub ghost enum ActionModel {
    RewriteRequestHeaders { headers: Seq<HeaderModel> },
    RewriteResponseHeaders { headers: Seq<HeaderModel> },
    MockResponse { status: u16, headers: Seq<HeaderModel>, body: Seq<char> },
    Delay { millis: u64 },
}

impl View for RuleAction {
    type V = ActionModel;

    open spec fn view(&self) -> ActionModel {
        match self {
            RuleAction::RewriteRequestHeaders { headers } => ActionModel::RewriteRequestHeaders {
                headers: headers.deep_view(),
            },
            RuleAction::RewriteResponseHeaders { headers } => ActionModel::RewriteResponseHeaders {
                headers: headers.deep_view(),
            },
            RuleAction::MockResponse { status, headers, body } => ActionModel::MockResponse {
                status: *status,
                headers: headers.deep_view(),
                body: body@,
            },
            RuleAction::Delay { millis } => ActionModel::Delay { millis: *millis },
        }
    }
}

impl Clone for RuleAction {
    fn clone(&self) -> (r: Self)
        ensures
            r@ == self@,
    {
        match self {
            RuleAction::RewriteRequestHeaders { headers } => RuleAction::RewriteRequestHeaders {
                headers: copy_headers(headers),
            },
            RuleAction::RewriteResponseHeaders { headers } => RuleAction::RewriteResponseHeaders {
                headers: copy_headers(headers),
            },
            RuleAction::MockResponse { status, headers, body } => RuleAction::MockResponse {
                status: *status,
                headers: copy_headers(headers),
                body: body.clone(),
            },
            RuleAction::Delay { millis } => RuleAction::Delay { millis: *millis },
        }
    }
}

/// A traffic rule: when it is enabled and its match holds for a session,
/// its action applies. Rules run by ascending priority.
#[derive(Debug, PartialEq, Eq)]
pub struct Rule {
    pub id: String,
    pub name: String,
    pub enabled: bool,
    pub priority: i64,
    pub match_: RuleMatch,
    pub action: RuleAction,
    /// Nanoseconds since the Unix epoch.
    pub created_at: Instant,
    pub updated_at: Instant,
}

#[verifier::ext_equal]
pub ghost struct RuleModel {
    pub id: Seq<char>,
    pub name: Seq<char>,
    pub enabled: bool,
    pub priority: i64,
    pub match_: MatchModel,
    pub action: ActionModel,
    pub created_at: Instant,
    pub updated_at: Instant,
}

impl View for Rule {
    type V = RuleModel;

    open spec fn view(&self) -> RuleModel {
        RuleModel {
            id: self.id@,
            name: self.name@,
            enabled: self.enabled,
            priority: self.priority,
            match_: self.match_@,
            action: self.action@,
            created_at: self.created_at,
            updated_at: self.updated_at,
        }
    }
}

impl DeepView for Rule {
    type V = RuleModel;

    open spec fn deep_view(&self) -> RuleModel {
        self@
    }
}

impl Clone for Rule {
    fn clone(&self) -> (r: Self)
        ensures
            r@ == self@,
    {
        Rule {
            id: self.id.clone(),
            name: self.name.clone(),
            enabled: self.enabled,
            priority: self.priority,
            match_: self.match_.clone(),
            action: self.action.clone(),
            created_at: self.created_at,
            updated_at: self.updated_at,
        }
    }
}

impl Rule {
    /// An enabled rule of priority 100 that matches every session, created
    /// and updated at instant `now`.
    pub fn with_time(id: String, name: String, action: RuleAction, now: Instant) -> (r: Self)
        ensures
            r.id@ == id@,
            r.name@ == name@,
            r.enabled,
            r.priority == 100,
            r.match_@ == (MatchModel { url_contains: None, method: None, host: None, status: None }),
            r.action@ == action@,
            r.created_at == now,
            r.updated_at == now,
    {
        Rule {
            id,
            name,
            enabled: true,
            priority: 100,
            match_: RuleMatch { url_contains: None, method: None, host: None, status: None },
            action,
            created_at: now,
            updated_at: now,
        }
    }

    /// An enabled rule of priority 100 that matches every session, created now.
    pub fn new(id: String, name: String, action: RuleAction) -> (r: Self)
        ensures
            r.id@ == id@,
            r.name@ == name@,
            r.enabled,
            r.priority == 100,
            r.match_@ == (MatchModel { url_contains: None, method: None, host: None, status: None }),
            r.action@ == action@,
            r.created_at == r.updated_at,
    {
        let now = now_instant();
        Self::with_time(id, name, action, now)
    }
}

/// What the rules see of a request on its way upstream.
#[derive(Debug)]
pub struct RequestContext {
    pub session: CapturedSession,
    pub request_headers: Vec<HeaderPair>,
    pub request_body: Vec<u8>,
    pub request_trailers: Vec<HeaderPair>,
    pub should_mock: bool,
    pub delay_ms: Option<u64>,
    pub rewrite_request_headers: Vec<HeaderPair>,
    pub rewrite_request_trailers: Vec<HeaderPair>,
    pub matched_rule_ids: Vec<String>,
}

/// What the rules see of a response on its way back.
#[derive(Debug)]
pub struct ResponseContext {
    pub session: CapturedSession,
    pub response_headers: Vec<HeaderPair>,
    pub response_body: Vec<u8>,
    pub response_trailers: Vec<HeaderPair>,
    pub delay_ms: Option<u64>,
    pub rewrite_response_headers: Vec<HeaderPair>,
    pub rewrite_response_trailers: Vec<HeaderPair>,
    pub matched_rule_ids: Vec<String>,
}

/// A session that has just been stored.
#[derive(Debug)]
pub struct CaptureEvent {
    pub session: CapturedSession,
}

impl Clone for CaptureEvent {
    fn clone(&self) -> (r: Self)
        ensures
            r.session@ == self.session@,
    {
        CaptureEvent { session: self.session.clone() }
    }
}

/// Aggregates over the most recent sessions.
#[derive(Debug, PartialEq, Eq)]
pub struct TrafficOverview {
    pub total_sessions: u64,
    pub total_bytes_up: u64,
    pub total_bytes_down: u64,
    pub average_duration_ms: Option<u64>,
    pub p95_duration_ms: Option<u64>,
    pub by_host: Vec<TrafficBucket>,
    pub by_method: Vec<TrafficBucket>,
    pub by_status: Vec<TrafficBucket>,
}

/// Aggregates over the sessions that share one key.
#[derive(Debug, PartialEq, Eq)]
pub struct TrafficBucket {
    pub key: String,
    pub count: u64,
    pub bytes_up: u64,
    pub bytes_down: u64,
    pub average_duration_ms: Option<u64>,
}

#[verifier::ext_equal]
pub ghost struct BucketModel {
    pub key: Seq<char>,
    pub count: u64,
    pub bytes_up: u64,
    pub bytes_down: u64,
    pub average_duration_ms: Option<u64>,
}

impl View for TrafficBucket {
    type V = BucketModel;

    open spec fn view(&self) -> BucketModel {
        BucketModel {
            key: self.key@,
            count: self.count,
            bytes_up: self.bytes_up,
            bytes_down: self.bytes_down,
            average_duration_ms: self.average_duration_ms,
        }
    }
}

impl DeepView for TrafficBucket {
    type V = BucketModel;

    open spec fn deep_view(&self) -> BucketModel {
        self@
    }
}

/// Sessions with the format tag of an export.
#[derive(Debug)]
pub struct ExportBundle {
    pub format: String,
    /// Nanoseconds since the Unix epoch.
    pub exported_at: Instant,
    pub sessions: Vec<CapturedSession>,
}

// ---------------------------------------------------------------------------
// Request collections
// ---------------------------------------------------------------------------

/// A request saved in a collection: the captured session it came from and
/// what it takes to send the request again.
#[derive(Debug)]
pub struct CollectionItem {
    pub session_id: SessionId,
    pub method: Option<String>,
    pub url: Option<String>,
    pub request_headers: Vec<HeaderPair>,
    pub request_body: BodyPreview,
}

#[verifier::ext_equal]
pub ghost struct ItemModel {
    pub session_id: SessionId,
    pub method: Option<Seq<char>>,
    pub url: Option<Seq<char>>,
    pub request_headers: Seq<HeaderModel>,
    pub request_body: BodyModel,
}

impl View for CollectionItem {
    type V = ItemModel;

    open spec fn view(&self) -> ItemModel {
        ItemModel {
            session_id: self.session_id,
            method: self.method.deep_view(),
            url: self.url.deep_view(),
            request_headers: self.request_headers.deep_view(),
            request_body: self.request_body@,
        }
    }
}

impl DeepView for CollectionItem {
    type V = ItemModel;

    open spec fn deep_view(&self) -> ItemModel {
        self@
    }
}

impl Clone for CollectionItem {
    fn clone(&self) -> (r: Self)
        ensures
            r@ == self@,
    {
        CollectionItem {
            session_id: self.session_id,
            method: self.method.clone(),
            url: self.url.clone(),
            request_headers: copy_headers(&self.request_headers),
            request_body: self.request_body.clone(),
        }
    }
}

/// The collection item saved from session `s`.
pub open spec fn item_of(s: SessionModel) -> ItemModel {
    ItemModel {
        session_id: s.id,
        method: s.method,
        url: s.url,
        request_headers: s.request_headers,
        request_body: s.request_body,
    }
}

impl CollectionItem {
    /// The item that saves the request of `session`.
    pub fn from_session(session: &CapturedSession) -> (r: Self)
        ensures
            r@ == item_of(session@),
    {
        CollectionItem {
            session_id: session.id,
            method: session.method.clone(),
            url: session.url.clone(),
            request_headers: copy_headers(&session.request_headers),
            request_body: session.request_body.clone(),
        }
    }
}

/// A named set of saved requests.
#[derive(Debug)]
pub struct RequestCollection {
    pub id: String,
    pub name: String,
    pub description: Option<String>,
    pub items: Vec<CollectionItem>,
    /// Nanoseconds since the Unix epoch.
    pub created_at: Instant,
    /// Nanoseconds since the Unix epoch.
    pub updated_at: Instant,
}

#[verifier::ext_equal]
pub ghost struct CollectionModel {
    pub id: Seq<char>,
    pub name: Seq<char>,
    pub description: Option<Seq<char>>,
    pub items: Seq<ItemModel>,
    pub created_at: Instant,
    pub updated_at: Instant,
}

impl View for RequestCollection {
    type V = CollectionModel;

    open spec fn view(&self) -> CollectionModel {
        CollectionModel {
            id: self.id@,
            name: self.name@,
            description: self.description.deep_view(),
            items: self.items.deep_view(),
            created_at: self.created_at,
            updated_at: self.updated_at,
        }
    }
}

impl RequestCollection {
    /// Adds the request of `session` at the end of the collection, at
    /// instant `now`: the items grow by the session's item, and the
    /// collection is marked updated at `now`.
    pub fn add_session(&mut self, session: &CapturedSession, now: Instant)
        ensures
            final(self)@ == (CollectionModel {
                items: old(self)@.items.push(item_of(session@)),
                updated_at: now,
                ..old(self)@
            }),
    {
        let item = CollectionItem::from_session(session);
        let ghost before = self.items.deep_view();
        self.items.push(item);
        assert(self.items.deep_view() =~= before.push(item_of(session@)));
        self.updated_at = now;
    }
}

} // verus!
