//! The decisions of the intercepting proxy. The proxy's I/O (sockets, TLS,
//! the HTTP server and client) runs around these functions: it hands them
//! what it read as plain values and performs what they return.
use vstd::prelude::*;
use vstd::string::StringSliceAdditionalSpecFns;
use vstd::utf8::encode_utf8;

use crate::capture::{
    body_preview_model, frame_preview_model, json_pretty_of, preview_body_with_encoding,
    is_sensitive_name, preview_text, preview_websocket_frame, redact_headers, redacted_headers, visible_part,
    DEFAULT_REQUEST_LIMIT, DEFAULT_RESPONSE_LIMIT,
};
use crate::clock::Instant;
use crate::codec::{base64_standard, sha1_digest};
use crate::error::ProxyError;
use crate::model::{
    copy_headers, copy_strings, elapsed_ms, BodyModel, BodyPreview, CapturedSession, FrameModel,
    HeaderModel, HeaderPair, RequestContext, ResponseContext, SessionId, SessionKind,
    SessionModel, SessionState, TimelineEntry, TimelineModel, TrailersPreview,
};
use crate::rules::{
    first_named, has_named, is_first_named, merge_headers, merged, ResultModel, RuleResult,
};
use crate::text::{
    decimal, decimal_string, eq_ignore_ascii_case, eq_ignore_case, lower_contains, lower_seq,
    seq_contains,
};
use crate::wire::{
    connect_target, header_lists_token, lists_token, opcode_text, parse_connect_target,
    websocket_accept, websocket_guid, WebSocketFrame,
};

verus! {

// ---------------------------------------------------------------------------
// Configuration
// ---------------------------------------------------------------------------

/// Where the proxy listens and how much of each body it keeps.
#[derive(Debug)]
pub struct ProxyConfig {
    /// The socket address to listen on, as `ip:port`.
    pub listen_addr: String,
    pub max_request_body_bytes: usize,
    pub max_response_body_bytes: usize,
    pub max_websocket_frame_bytes: usize,
}

impl Clone for ProxyConfig {
    fn clone(&self) -> (r: Self)
        ensures
            r.listen_addr@ == self.listen_addr@,
            r.max_request_body_bytes == self.max_request_body_bytes,
            r.max_response_body_bytes == self.max_response_body_bytes,
            r.max_websocket_frame_bytes == self.max_websocket_frame_bytes,
    {
        ProxyConfig {
            listen_addr: self.listen_addr.clone(),
            max_request_body_bytes: self.max_request_body_bytes,
            max_response_body_bytes: self.max_response_body_bytes,
            max_websocket_frame_bytes: self.max_websocket_frame_bytes,
        }
    }
}

impl ProxyConfig {
    /// The configuration of a proxy on the loopback interface at `port`,
    /// keeping 1 MiB of request bodies, 2 MiB of response bodies and 64 KiB
    /// of WebSocket frames.
    pub fn for_port(port: u16) -> (r: Self)
        ensures
            r.listen_addr@ == "127.0.0.1:"@ + decimal(port as nat),
            r.max_request_body_bytes == 1048576,
            r.max_response_body_bytes == 2097152,
            r.max_websocket_frame_bytes == 65536,
    {
        let digits = decimal_string(port as u64);
        ProxyConfig {
            listen_addr: crate::text::concat2("127.0.0.1:", digits.as_str()),
            max_request_body_bytes: 1048576,
            max_response_body_bytes: 2097152,
            max_websocket_frame_bytes: 65536,
        }
    }
}

// ---------------------------------------------------------------------------
// Headers
// ---------------------------------------------------------------------------

/// The value of the first header named `name` up to ASCII case.
pub open spec fn header_value(hs: Seq<HeaderModel>, name: Seq<char>) -> Option<Seq<char>> {
    if has_named(hs, name) {
        Some(hs[first_named(hs, name)].value)
    } else {
        None
    }
}

/// The value of the first header named `name` up to ASCII case.
pub fn first_header_value(headers: &[HeaderPair], name: &str) -> (r: Option<String>)
    ensures
        r.deep_view() == header_value(headers.deep_view(), name@),
{
    let ghost hs = headers.deep_view();
    let mut i: usize = 0;
    while i < headers.len()
        invariant
            i <= headers.len(),
            hs == headers.deep_view(),
            forall|j: int| 0 <= j < i ==> !eq_ignore_case(#[trigger] hs[j].name, name@),
        decreases headers.len() - i,
    {
        if eq_ignore_ascii_case(headers[i].name.as_str(), name) {
            proof {
                assert(is_first_named(hs, name@, i as int));
                let k = first_named(hs, name@);
                assert(is_first_named(hs, name@, k));
                if k < i {
                    assert(!eq_ignore_case(hs[k].name, name@));
                } else if i < k {
                    assert(!eq_ignore_case(hs[i as int].name, name@));
                }
            }
            return Some(headers[i].value.clone());
        }
        i += 1;
    }
    assert(!has_named(hs, name@));
    None
}

/// Some `content-type` header names gRPC: its ASCII lower-cased value
/// contains `application/grpc`.
pub open spec fn is_grpc(hs: Seq<HeaderModel>) -> bool {
    exists|i: int|
        0 <= i < hs.len() && eq_ignore_case(#[trigger] hs[i].name, "content-type"@)
            && seq_contains(lower_seq(hs[i].value), "application/grpc"@)
}

/// Whether the headers declare a gRPC body.
pub fn is_grpc_content_type(headers: &[HeaderPair]) -> (r: bool)
    ensures
        r == is_grpc(headers.deep_view()),
{
    let ghost hs = headers.deep_view();
    let mut i: usize = 0;
    while i < headers.len()
        invariant
            i <= headers.len(),
            hs == headers.deep_view(),
            forall|j: int|
                0 <= j < i ==> !(eq_ignore_case(#[trigger] hs[j].name, "content-type"@)
                    && seq_contains(lower_seq(hs[j].value), "application/grpc"@)),
        decreases headers.len() - i,
    {
        if eq_ignore_ascii_case(headers[i].name.as_str(), "content-type") && lower_contains(
            headers[i].value.as_str(),
            "application/grpc",
        ) {
            assert(hs[i as int] == headers[i as int]@);
            assert(eq_ignore_case(hs[i as int].name, "content-type"@));
            return true;
        }
        i += 1;
    }
    false
}

/// A header that is kept as gRPC metadata: not a pseudo-header (a name
/// starting with `:`) and not `content-length`.
pub open spec fn is_metadata(h: HeaderModel) -> bool {
    !(h.name.len() > 0 && h.name[0] == ':') && !eq_ignore_case(h.name, "content-length"@)
}

/// The headers kept as gRPC metadata, in order.
pub open spec fn metadata_of(hs: Seq<HeaderModel>) -> Seq<HeaderModel>
    decreases hs.len(),
{
    if hs.len() == 0 {
        hs
    } else if is_metadata(hs.last()) {
        metadata_of(hs.drop_last()).push(hs.last())
    } else {
        metadata_of(hs.drop_last())
    }
}

/// The headers kept as gRPC metadata, in order.
pub fn extract_grpc_metadata(headers: &[HeaderPair]) -> (r: Vec<HeaderPair>)
    ensures
        r.deep_view() == metadata_of(headers.deep_view()),
{
    let ghost hs = headers.deep_view();
    let mut out: Vec<HeaderPair> = Vec::new();
    let mut i: usize = 0;
    assert(hs.take(0) =~= Seq::<HeaderModel>::empty());
    while i < headers.len()
        invariant
            i <= headers.len(),
            hs == headers.deep_view(),
            out.deep_view() == metadata_of(hs.take(i as int)),
        decreases headers.len() - i,
    {
        let h = &headers[i];
        assert(hs.take(i + 1).drop_last() =~= hs.take(i as int));
        assert(hs.take(i + 1).last() == h@);
        if !starts_with_colon(h.name.as_str()) && !eq_ignore_ascii_case(
            h.name.as_str(),
            "content-length",
        ) {
            let ghost before = out.deep_view();
            out.push(h.clone());
            assert(out.deep_view() =~= before.push(h@));
        }
        i += 1;
    }
    assert(hs.take(headers.len() as int) =~= hs);
    out
}

/// Whether a header name starts with `:`.
fn starts_with_colon(name: &str) -> (r: bool)
    ensures
        r == (name@.len() > 0 && name@[0] == ':'),
{
    let cs = crate::text::chars_of(name);
    cs.len() > 0 && cs[0] == ':'
}

/// The gRPC metadata recorded for a message: the metadata of `kept` when
/// `declared` (the headers that decide) declares gRPC, else nothing.
pub open spec fn grpc_metadata_for(declared: Seq<HeaderModel>, kept: Seq<HeaderModel>) -> Seq<
    HeaderModel,
> {
    if is_grpc(declared) {
        metadata_of(kept)
    } else {
        Seq::empty()
    }
}

/// The gRPC metadata recorded for a message.
pub fn grpc_metadata(declared: &[HeaderPair], kept: &[HeaderPair]) -> (r: Vec<HeaderPair>)
    ensures
        r.deep_view() == grpc_metadata_for(declared.deep_view(), kept.deep_view()),
{
    if is_grpc_content_type(declared) {
        extract_grpc_metadata(kept)
    } else {
        let r: Vec<HeaderPair> = Vec::new();
        assert(r.deep_view() =~= Seq::<HeaderModel>::empty());
        r
    }
}

// ---------------------------------------------------------------------------
// Bodies
// ---------------------------------------------------------------------------

/// The preview of a body cut to `max_bytes`, with the pretty JSON and the
/// base64 that the outside encoders give for the visible part.
pub open spec fn previewed(
    content_type: Option<Seq<char>>,
    content_encoding: Option<Seq<char>>,
    bytes: Seq<u8>,
    max_bytes: usize,
) -> BodyModel {
    let visible = visible_part(bytes, max_bytes);
    body_preview_model(
        content_type,
        content_encoding,
        bytes,
        max_bytes,
        json_pretty_of(preview_text(content_type, visible)),
        base64_standard(visible),
    )
}

/// The preview of a body whose content type and encoding are those of the
/// first `content-type` and `content-encoding` headers.
pub fn preview_body_with_headers(headers: &[HeaderPair], bytes: &[u8], max_bytes: usize) -> (r:
    BodyPreview)
    requires
        bytes@.len() <= isize::MAX,
    ensures
        r@ == previewed(
            header_value(headers.deep_view(), "content-type"@),
            header_value(headers.deep_view(), "content-encoding"@),
            bytes@,
            max_bytes,
        ),
{
    let content_type = first_header_value(headers, "content-type");
    let content_encoding = first_header_value(headers, "content-encoding");
    let ct = match &content_type {
        Some(v) => Some(v.as_str()),
        None => None,
    };
    let ce = match &content_encoding {
        Some(v) => Some(v.as_str()),
        None => None,
    };
    preview_body_with_encoding(ct, ce, bytes, max_bytes)
}

// ---------------------------------------------------------------------------
// Responses
// ---------------------------------------------------------------------------

/// The status a response is sent with: the given one when it is a valid
/// status code (100 to 999), else 200.
pub open spec fn sent_status(status: u16) -> u16 {
    if 100 <= status <= 999 {
        status
    } else {
        200
    }
}

/// The status a response is sent with (`StatusCode::from_u16`, falling back
/// to 200 OK).
pub fn response_status(status: u16) -> (r: u16)
    ensures
        r == sent_status(status),
{
    if 100 <= status && status <= 999 {
        status
    } else {
        200
    }
}

/// The body of the 500 response that reports a failed request.
pub fn internal_error_body(err: &ProxyError) -> (r: String)
    ensures
        r@ == "proxy error: "@ + err.spec_message(),
{
    let m = err.message();
    crate::text::concat2("proxy error: ", m.as_str())
}

// ---------------------------------------------------------------------------
// WebSocket upgrades
// ---------------------------------------------------------------------------

/// A request asks for a WebSocket upgrade: it is a `GET` whose `Upgrade`
/// header is `websocket` and whose `Connection` header lists `upgrade`,
/// both up to ASCII case.
pub open spec fn asks_websocket(
    method: Seq<char>,
    upgrade: Option<Seq<char>>,
    connection: Option<Seq<char>>,
) -> bool {
    &&& method == "GET"@
    &&& upgrade matches Some(u) && eq_ignore_case(u, "websocket"@)
    &&& connection matches Some(c) && lists_token(c, "upgrade"@)
}

/// Whether a request asks for a WebSocket upgrade, given its method and the
/// text of its `Upgrade` and `Connection` headers.
pub fn is_websocket_upgrade(method: &str, upgrade: Option<&str>, connection: Option<&str>) -> (r:
    bool)
    ensures
        r == asks_websocket(method@, upgrade.deep_view(), connection.deep_view()),
{
    if !crate::text::same_text(method, "GET") {
        proof {
            reveal_strlit("GET");
        }
        return false;
    }
    let up = match upgrade {
        Some(u) => eq_ignore_ascii_case(u, "websocket"),
        None => false,
    };
    if !up {
        return false;
    }
    match connection {
        Some(c) => header_lists_token(c, "upgrade"),
        None => false,
    }
}

// ---------------------------------------------------------------------------
// Request heads and target URIs
// ---------------------------------------------------------------------------

/// The parts of a URI as the `http` crate reads them.
#[derive(Debug)]
pub struct UriParts {
    /// The URI as it is displayed.
    pub text: String,
    pub scheme: Option<String>,
    /// The authority, `host` or `host:port`.
    pub authority: Option<String>,
    pub host: Option<String>,
    pub port: Option<u16>,
    pub path_and_query: Option<String>,
}

#[verifier::ext_equal]
pub ghost struct UriModel {
    pub text: Seq<char>,
    pub scheme: Option<Seq<char>>,
    pub authority: Option<Seq<char>>,
    pub host: Option<Seq<char>>,
    pub port: Option<u16>,
    pub path_and_query: Option<Seq<char>>,
}

impl View for UriParts {
    type V = UriModel;

    open spec fn view(&self) -> UriModel {
        UriModel {
            text: self.text@,
            scheme: self.scheme.deep_view(),
            authority: self.authority.deep_view(),
            host: self.host.deep_view(),
            port: self.port,
            path_and_query: self.path_and_query.deep_view(),
        }
    }
}

impl Clone for UriParts {
    fn clone(&self) -> (r: Self)
        ensures
            r@ == self@,
    {
        UriParts {
            text: self.text.clone(),
            scheme: self.scheme.clone(),
            authority: self.authority.clone(),
            host: self.host.clone(),
            port: self.port,
            path_and_query: self.path_and_query.clone(),
        }
    }
}

/// What `text.parse::<http::Uri>()` gives: the parts of the URI, or the
/// display text of the parse error.
pub uninterp spec fn http_uri(text: Seq<char>) -> Result<UriModel, Seq<char>>;

/// Trusted: `<http::Uri as FromStr>::from_str`, then the URI's `Display`
/// text and its `scheme_str`, `authority`, `host`, `port_u16` and
/// `path_and_query`, or the `Display` text of the `InvalidUri` error. The
/// outcome is named `http_uri`; nothing more is stated of it.
#[verifier::external_body]
pub(crate) fn parse_uri(text: &str) -> (r: Result<UriParts, String>)
    ensures
        match r {
            Ok(p) => (http_uri(text@) matches Ok(u) && u == p@),
            Err(e) => (http_uri(text@) matches Err(m) && m == e@),
        },
{
    match text.parse::<http::Uri>() {
        Ok(u) => Ok(UriParts {
            text: u.to_string(),
            scheme: u.scheme_str().map(ToString::to_string),
            authority: u.authority().map(ToString::to_string),
            host: u.host().map(ToString::to_string),
            port: u.port_u16(),
            path_and_query: u.path_and_query().map(http::uri::PathAndQuery::as_str).map(str::to_owned),
        }),
        Err(e) => Err(e.to_string()),
    }
}

/// What the proxy reads of a request before its body: the method, the
/// request target, the headers (a value that is not visible ASCII reads as
/// empty) and the text of the first `Host` header, when it is visible ASCII.
#[derive(Debug)]
pub struct RequestHead {
    pub method: String,
    pub uri: UriParts,
    pub headers: Vec<HeaderPair>,
    pub host_header: Option<String>,
}

#[verifier::ext_equal]
pub ghost struct HeadModel {
    pub method: Seq<char>,
    pub uri: UriModel,
    pub headers: Seq<HeaderModel>,
    pub host_header: Option<Seq<char>>,
}

impl View for RequestHead {
    type V = HeadModel;

    open spec fn view(&self) -> HeadModel {
        HeadModel {
            method: self.method@,
            uri: self.uri@,
            headers: self.headers.deep_view(),
            host_header: self.host_header.deep_view(),
        }
    }
}

/// A URI with both a scheme and an authority.
pub open spec fn is_absolute(u: UriModel) -> bool {
    u.scheme is Some && u.authority is Some
}

/// The host a request is addressed to: its URI's authority, else its Host
/// header.
pub open spec fn request_host(head: HeadModel) -> Option<Seq<char>> {
    match head.uri.authority {
        Some(a) => Some(a),
        None => head.host_header,
    }
}

/// The port a request is addressed to: its URI's port, else the port
/// written at the end of its Host header.
pub open spec fn request_port(head: HeadModel) -> Option<u16> {
    match head.uri.port {
        Some(p) => Some(p),
        None => crate::wire::host_header_port(head.host_header),
    }
}

/// The text of the URI that a relative request is forwarded to:
/// `scheme://host` followed by the path and query (`/` when there is none),
/// the scheme being the request's own or else the default.
pub open spec fn composed_target(head: HeadModel, default_scheme: Seq<char>, host: Seq<char>) -> Seq<
    char,
> {
    let scheme = match head.uri.scheme {
        Some(s) => s,
        None => default_scheme,
    };
    let path = match head.uri.path_and_query {
        Some(p) => p,
        None => "/"@,
    };
    scheme + "://"@ + host + path
}

/// The text of `s`, or `fallback` when there is none.
fn text_or<'a>(s: &'a Option<String>, fallback: &'a str) -> (r: &'a str)
    ensures
        r@ == (match s {
            Some(v) => v@,
            None => fallback@,
        }),
{
    match s {
        Some(v) => v.as_str(),
        None => fallback,
    }
}

/// The URI a request is forwarded to: its own URI when it is absolute; else
/// the composed `scheme://host/path`, parsed. Without a host, or when the
/// composed text does not parse, the request is invalid.
pub fn target_uri(head: &RequestHead, default_scheme: &str) -> (r: Result<UriParts, ProxyError>)
    ensures
        match target_uri_outcome(head@, default_scheme@) {
            Ok(t) => (r matches Ok(u) && u@ == t),
            Err(m) => (r matches Err(ProxyError::InvalidRequest(e)) && e@ == m),
        },
{
    if head.uri.scheme.is_some() && head.uri.authority.is_some() {
        return Ok(head.uri.clone());
    }
    let host: &str = match &head.uri.authority {
        Some(a) => a.as_str(),
        None => match &head.host_header {
            Some(h) => h.as_str(),
            None => {
                return Err(ProxyError::InvalidRequest("missing host".to_owned()));
            },
        },
    };
    let scheme = text_or(&head.uri.scheme, default_scheme);
    let path = text_or(&head.uri.path_and_query, "/");
    let mut text = crate::text::concat3(scheme, "://", host);
    text.append(path);
    match parse_uri(text.as_str()) {
        Ok(u) => Ok(u),
        Err(e) => Err(ProxyError::InvalidRequest(crate::text::concat2("invalid target uri: ", e.as_str()))),
    }
}

// ---------------------------------------------------------------------------
// HTTP exchanges
// ---------------------------------------------------------------------------

/// A timeline entry of zero duration at instant `at`.
pub open spec fn mark_at(name: Seq<char>, at: Instant) -> TimelineModel {
    TimelineModel { name, started_at: at, ended_at: Some(at), duration_ms: Some(0) }
}

/// The session of an HTTP exchange as its head is received at `now`: the
/// method, the redacted request headers, the host and port the request is
/// addressed to, the target's text, scheme and path (`/` when it has none),
/// and a `request_received` mark.
pub open spec fn received_model(id: SessionId, now: Instant, head: HeadModel, target: UriModel) -> SessionModel {
    SessionModel {
        request_headers: redacted_headers(head.headers),
        host: request_host(head),
        port: request_port(head),
        method: Some(head.method),
        url: Some(target.text),
        scheme: target.scheme,
        path: Some(
            match target.path_and_query {
                Some(p) => p,
                None => "/"@,
            },
        ),
        timeline: seq![mark_at("request_received"@, now)],
        ..CapturedSession::fresh_model(SessionKind::Http, id, now)
    }
}

/// The session of an HTTP exchange whose head was received at `now` and
/// that goes to `target`.
pub fn http_session_start(id: SessionId, now: Instant, head: &RequestHead, target: &UriParts) -> (r:
    CapturedSession)
    ensures
        r@ == received_model(id, now, head@, target@),
{
    let mut session = CapturedSession::with_identity(SessionKind::Http, id, now);
    session.request_headers = redact_headers(head.headers.as_slice());
    session.host = match &head.uri.authority {
        Some(a) => Some(a.clone()),
        None => head.host_header.clone(),
    };
    session.port = match head.uri.port {
        Some(p) => Some(p),
        None => {
            let h = match &head.host_header {
                Some(v) => Some(v.as_str()),
                None => None,
            };
            crate::wire::parse_host_port(h)
        },
    };
    session.method = Some(head.method.clone());
    session.url = Some(target.text.clone());
    session.scheme = target.scheme.clone();
    session.path = Some(
        match &target.path_and_query {
            Some(p) => p.clone(),
            None => "/".to_owned(),
        },
    );
    session.timeline.push(TimelineEntry::mark("request_received", now));
    proof {
        reveal_strlit("/");
    }
    assert(session@ =~= received_model(id, now, head@, target@));
    session
}

/// Begins the capture of an HTTP exchange: the target is resolved (see
/// `target_uri`) and the session is that of `http_session_start`.
pub fn begin_http_exchange(id: SessionId, now: Instant, head: &RequestHead, default_scheme: &str) -> (r:
    Result<(CapturedSession, UriParts), ProxyError>)
    ensures
        match target_uri_outcome(head@, default_scheme@) {
            Ok(t) => (r matches Ok((s, u)) && u@ == t && s@ == received_model(id, now, head@, t)),
            Err(m) => (r matches Err(ProxyError::InvalidRequest(e)) && e@ == m),
        },
{
    match target_uri(head, default_scheme) {
        Ok(target) => {
            let session = http_session_start(id, now, head, &target);
            Ok((session, target))
        },
        Err(e) => Err(e),
    }
}

/// What `target_uri` gives: the target's parts, or the message of the
/// invalid request.
pub open spec fn target_uri_outcome(head: HeadModel, default_scheme: Seq<char>) -> Result<
    UriModel,
    Seq<char>,
> {
    if is_absolute(head.uri) {
        Ok(head.uri)
    } else {
        match request_host(head) {
            None => Err("missing host"@),
            Some(h) => match http_uri(composed_target(head, default_scheme, h)) {
                Ok(u) => Ok(u),
                Err(e) => Err("invalid target uri: "@ + e),
            },
        }
    }
}

/// The session once the request's body and trailers are received: its gRPC
/// metadata (when the raw headers declare gRPC), its redacted trailers, the
/// preview of its body (cut to 1 MiB, typed by the raw headers) and the
/// number of bytes sent up.
pub open spec fn with_request_body(
    s: SessionModel,
    headers: Seq<HeaderModel>,
    trailers: Seq<HeaderModel>,
    body: Seq<u8>,
) -> SessionModel {
    SessionModel {
        grpc_request_metadata: grpc_metadata_for(headers, redacted_headers(headers)),
        grpc_request_trailers: redacted_headers(trailers),
        request_body: previewed(
            header_value(headers, "content-type"@),
            header_value(headers, "content-encoding"@),
            body,
            DEFAULT_REQUEST_LIMIT,
        ),
        bytes_up: body.len() as u64,
        ..s
    }
}

/// A copy of a slice of headers.
fn header_list(headers: &[HeaderPair]) -> (r: Vec<HeaderPair>)
    ensures
        r.deep_view() == headers.deep_view(),
{
    let mut out: Vec<HeaderPair> = Vec::new();
    let mut i: usize = 0;
    while i < headers.len()
        invariant
            i <= headers.len(),
            out.deep_view() == headers.deep_view().take(i as int),
        decreases headers.len() - i,
    {
        let h = headers[i].clone();
        assert(h@ == headers.deep_view()[i as int]);
        let ghost before = out.deep_view();
        out.push(h);
        assert(out.deep_view() =~= before.push(h@));
        assert(before.push(h@) =~= headers.deep_view().take(i + 1));
        i += 1;
    }
    assert(headers.deep_view().take(headers.len() as int) =~= headers.deep_view());
    out
}

/// Records the received body and trailers of the request in the session.
pub fn record_request_body(
    session: &mut CapturedSession,
    headers: &[HeaderPair],
    trailers: &[HeaderPair],
    body: &[u8],
)
    requires
        body@.len() <= isize::MAX,
    ensures
        final(session)@ == with_request_body(
            old(session)@,
            headers.deep_view(),
            trailers.deep_view(),
            body@,
        ),
{
    let redacted = redact_headers(headers);
    session.grpc_request_metadata = grpc_metadata(headers, redacted.as_slice());
    session.grpc_request_trailers = TrailersPreview { headers: redact_headers(trailers) };
    session.request_body = preview_body_with_headers(headers, body, DEFAULT_REQUEST_LIMIT);
    session.bytes_up = body.len() as u64;
    assert(session@ =~= with_request_body(
        old(session)@,
        headers.deep_view(),
        trailers.deep_view(),
        body@,
    ));
}

/// What the request rules are shown: the session, the redacted headers
/// and trailers and the body, with nothing decided yet.
pub fn request_context(
    session: &CapturedSession,
    headers: &[HeaderPair],
    trailers: &[HeaderPair],
    body: &[u8],
) -> (r: RequestContext)
    ensures
        r.session@ == session@,
        r.request_headers.deep_view() == redacted_headers(headers.deep_view()),
        r.request_body@ == body@,
        r.request_trailers.deep_view() == redacted_headers(trailers.deep_view()),
        !r.should_mock,
        r.delay_ms is None,
        r.rewrite_request_headers@.len() == 0,
        r.rewrite_request_trailers@.len() == 0,
        r.matched_rule_ids@.len() == 0,
{
    RequestContext {
        session: session.clone(),
        request_headers: redact_headers(headers),
        request_body: vstd::slice::slice_to_vec(body),
        request_trailers: redact_headers(trailers),
        should_mock: false,
        delay_ms: None,
        rewrite_request_headers: Vec::new(),
        rewrite_request_trailers: Vec::new(),
        matched_rule_ids: Vec::new(),
    }
}

/// The session once the request rules have run: it records the ids of the
/// rules that matched, and the request as it goes upstream (the raw headers
/// and trailers with the rules' rewrites merged in), redacted, with its gRPC
/// metadata.
pub open spec fn with_request_rules(
    s: SessionModel,
    headers: Seq<HeaderModel>,
    trailers: Seq<HeaderModel>,
    rules: ResultModel,
    matched: Seq<Seq<char>>,
) -> SessionModel {
    let out_headers = merged(headers, rules.rewrite_request_headers);
    let out_trailers = merged(trailers, rules.rewrite_request_trailers);
    SessionModel {
        matched_rule_ids: matched,
        request_headers: redacted_headers(out_headers),
        grpc_request_metadata: grpc_metadata_for(out_headers, redacted_headers(out_headers)),
        grpc_request_trailers: redacted_headers(out_trailers),
        ..s
    }
}

/// Applies the outcome of the request rules: the session is updated (see
/// `with_request_rules`) and the headers and trailers to send upstream are
/// returned, unredacted.
pub fn apply_request_rules(
    session: &mut CapturedSession,
    headers: &[HeaderPair],
    trailers: &[HeaderPair],
    rules: &RuleResult,
    matched: &Vec<String>,
) -> (r: (Vec<HeaderPair>, Vec<HeaderPair>))
    ensures
        r.0.deep_view() == merged(headers.deep_view(), rules@.rewrite_request_headers),
        r.1.deep_view() == merged(trailers.deep_view(), rules@.rewrite_request_trailers),
        final(session)@ == with_request_rules(
            old(session)@,
            headers.deep_view(),
            trailers.deep_view(),
            rules@,
            matched.deep_view(),
        ),
{
    session.matched_rule_ids = copy_strings(matched);
    let mut out_headers = header_list(headers);
    merge_headers(&mut out_headers, rules.rewrite_request_headers.as_slice());
    let mut out_trailers = header_list(trailers);
    merge_headers(&mut out_trailers, rules.rewrite_request_trailers.as_slice());
    let redacted = redact_headers(out_headers.as_slice());
    session.grpc_request_metadata = grpc_metadata(out_headers.as_slice(), redacted.as_slice());
    session.request_headers = redacted;
    session.grpc_request_trailers = TrailersPreview { headers: redact_headers(out_trailers.as_slice()) };
    assert(session@ =~= with_request_rules(
        old(session)@,
        headers.deep_view(),
        trailers.deep_view(),
        rules@,
        matched.deep_view(),
    ));
    (out_headers, out_trailers)
}

/// The model of a session ended at `now` in `state`.
pub open spec fn ended(s: SessionModel, state: SessionState, now: Instant) -> SessionModel {
    SessionModel {
        ended_at: Some(now),
        duration_ms: Some(elapsed_ms(s.started_at as int, now as int)),
        state,
        ..s
    }
}

/// What is sent back to the client: the status (see `sent_status`), the
/// headers, the body and the trailers.
#[derive(Debug)]
pub struct ResponsePlan {
    pub status: u16,
    pub headers: Vec<HeaderPair>,
    pub body: Vec<u8>,
    pub trailers: Vec<HeaderPair>,
}

/// The session once a rule's mock response is sent at `now`: its status,
/// redacted headers, body preview (cut to `max_bytes`, typed by the
/// redacted headers), size and gRPC metadata, no trailers, a `completed`
/// mark, and the session ended as mocked.
pub open spec fn mocked(
    s: SessionModel,
    status: u16,
    headers: Seq<HeaderModel>,
    body: Seq<u8>,
    max_bytes: usize,
    now: Instant,
) -> SessionModel {
    let red = redacted_headers(headers);
    ended(
        SessionModel {
            status: Some(status),
            response_headers: red,
            response_body: previewed(
                header_value(red, "content-type"@),
                header_value(red, "content-encoding"@),
                body,
                max_bytes,
            ),
            bytes_down: body.len() as u64,
            grpc_response_metadata: grpc_metadata_for(red, red),
            grpc_response_trailers: Seq::empty(),
            timeline: s.timeline.push(mark_at("completed"@, now)),
            ..s
        },
        SessionState::Mocked,
        now,
    )
}

/// Records a rule's mock response, sent at `now`, and returns it: the mock
/// status, headers and body, with no trailers.
pub fn record_mock_response(
    session: &mut CapturedSession,
    status: u16,
    headers: &Vec<HeaderPair>,
    body: &String,
    max_bytes: usize,
    now: Instant,
) -> (r: ResponsePlan)
    requires
        encode_utf8(body@).len() <= isize::MAX,
    ensures
        final(session)@ == mocked(old(session)@, status, headers.deep_view(), encode_utf8(body@), max_bytes, now),
        r.status == sent_status(status),
        r.headers.deep_view() == headers.deep_view(),
        r.body@ == encode_utf8(body@),
        r.trailers@.len() == 0,
{
    let bytes = body.as_str().as_bytes();
    let red = redact_headers(headers.as_slice());
    session.state = SessionState::Mocked;
    session.status = Some(status);
    session.response_body = preview_body_with_headers(red.as_slice(), bytes, max_bytes);
    session.bytes_down = bytes.len() as u64;
    session.grpc_response_metadata = grpc_metadata(red.as_slice(), red.as_slice());
    session.response_headers = red;
    session.grpc_response_trailers = TrailersPreview::empty();
    session.timeline.push(TimelineEntry::mark("completed", now));
    session.finish_at(SessionState::Mocked, now);
    assert(session@ =~= mocked(old(session)@, status, headers.deep_view(), encode_utf8(body@), max_bytes, now));
    ResponsePlan {
        status: response_status(status),
        headers: copy_headers(headers),
        body: vstd::slice::slice_to_vec(bytes),
        trailers: Vec::new(),
    }
}

/// What happens to a request once the request rules have run.
#[derive(Debug)]
pub enum HttpStep {
    /// A rule's mock response is sent back; nothing goes upstream.
    Respond(ResponsePlan),
    /// The request goes upstream with these headers and trailers.
    Forward { headers: Vec<HeaderPair>, trailers: Vec<HeaderPair> },
}

/// Applies the outcome of the request rules at `now` (see
/// `apply_request_rules`). A mock response short-circuits the exchange: it
/// is recorded (see `mocked`, with `max_bytes` of body) and sent back, and
/// nothing goes upstream. Otherwise the request is forwarded with its
/// rewritten headers and trailers.
pub fn after_request_rules(
    session: &mut CapturedSession,
    headers: &[HeaderPair],
    trailers: &[HeaderPair],
    rules: &RuleResult,
    matched: &Vec<String>,
    max_bytes: usize,
    now: Instant,
) -> (r: HttpStep)
    requires
        rules@.mock_response matches Some((_, _, b)) ==> encode_utf8(b).len() <= isize::MAX,
    ensures
        ({
            let s = with_request_rules(
                old(session)@,
                headers.deep_view(),
                trailers.deep_view(),
                rules@,
                matched.deep_view(),
            );
            match rules@.mock_response {
                Some((st, hs, b)) => final(session)@ == mocked(s, st, hs, encode_utf8(b), max_bytes, now)
                    && (r matches HttpStep::Respond(p) && p.status == sent_status(st)
                    && p.headers.deep_view() == hs && p.body@ == encode_utf8(b) && p.trailers@.len()
                    == 0),
                None => final(session)@ == s && (r matches HttpStep::Forward { headers: h, trailers: t }
                    && h.deep_view() == merged(headers.deep_view(), rules@.rewrite_request_headers)
                    && t.deep_view() == merged(trailers.deep_view(), rules@.rewrite_request_trailers)),
            }
        }),
{
    let (out_headers, out_trailers) = apply_request_rules(session, headers, trailers, rules, matched);
    match &rules.mock_response {
        Some((st, hs, b)) => HttpStep::Respond(record_mock_response(session, *st, hs, b, max_bytes, now)),
        None => HttpStep::Forward { headers: out_headers, trailers: out_trailers },
    }
}

/// What the response rules are shown: the session, the redacted headers
/// and trailers and the body, with nothing decided yet.
pub fn response_context(
    session: &CapturedSession,
    headers: &[HeaderPair],
    trailers: &[HeaderPair],
    body: &[u8],
) -> (r: ResponseContext)
    ensures
        r.session@ == session@,
        r.response_headers.deep_view() == redacted_headers(headers.deep_view()),
        r.response_body@ == body@,
        r.response_trailers.deep_view() == redacted_headers(trailers.deep_view()),
        r.delay_ms is None,
        r.rewrite_response_headers@.len() == 0,
        r.rewrite_response_trailers@.len() == 0,
        r.matched_rule_ids@.len() == 0,
{
    ResponseContext {
        session: session.clone(),
        response_headers: redact_headers(headers),
        response_body: vstd::slice::slice_to_vec(body),
        response_trailers: redact_headers(trailers),
        delay_ms: None,
        rewrite_response_headers: Vec::new(),
        rewrite_response_trailers: Vec::new(),
        matched_rule_ids: Vec::new(),
    }
}

/// The session once the upstream response and the response rules are in,
/// at `now`. The ids of the rules that matched are appended. A mock response
/// of the rules replaces the upstream one (see `mocked`). Otherwise the
/// session records the upstream status, the headers and trailers as they
/// go back (rewrites merged in) redacted, the body preview (cut to 2 MiB,
/// typed by the raw headers), its size and gRPC metadata, `first_byte` and
/// `completed` marks, and ends as completed.
pub open spec fn with_upstream_response(
    s: SessionModel,
    status: u16,
    headers: Seq<HeaderModel>,
    trailers: Seq<HeaderModel>,
    body: Seq<u8>,
    rules: ResultModel,
    max_bytes: usize,
    now: Instant,
) -> SessionModel {
    let s0 = SessionModel { matched_rule_ids: s.matched_rule_ids + rules.matched_rule_ids, ..s };
    match rules.mock_response {
        Some((st, hs, b)) => mocked(s0, st, hs, encode_utf8(b), max_bytes, now),
        None => {
            let out_headers = merged(headers, rules.rewrite_response_headers);
            let out_trailers = merged(trailers, rules.rewrite_response_trailers);
            let red = redacted_headers(out_headers);
            ended(
                SessionModel {
                    status: Some(status),
                    response_headers: red,
                    response_body: previewed(
                        header_value(headers, "content-type"@),
                        header_value(headers, "content-encoding"@),
                        body,
                        DEFAULT_RESPONSE_LIMIT,
                    ),
                    bytes_down: body.len() as u64,
                    grpc_response_metadata: grpc_metadata_for(out_headers, red),
                    grpc_response_trailers: redacted_headers(out_trailers),
                    timeline: s0.timeline.push(mark_at("first_byte"@, now)).push(
                        mark_at("completed"@, now),
                    ),
                    ..s0
                },
                SessionState::Completed,
                now,
            )
        },
    }
}

/// Records the upstream response and the outcome of the response rules in
/// the session (see `with_upstream_response`) and returns what goes back to
/// the client: the rules' mock response when there is one, else the
/// upstream status and body with the rewritten headers and trailers.
pub fn record_upstream_response(
    session: &mut CapturedSession,
    status: u16,
    headers: &[HeaderPair],
    trailers: &[HeaderPair],
    body: &[u8],
    rules: &RuleResult,
    max_bytes: usize,
    now: Instant,
) -> (r: ResponsePlan)
    requires
        body@.len() <= isize::MAX,
        rules@.mock_response matches Some((_, _, b)) ==> encode_utf8(b).len() <= isize::MAX,
    ensures
        final(session)@ == with_upstream_response(
            old(session)@,
            status,
            headers.deep_view(),
            trailers.deep_view(),
            body@,
            rules@,
            max_bytes,
            now,
        ),
        match rules@.mock_response {
            Some((st, hs, b)) => r.status == sent_status(st) && r.headers.deep_view() == hs
                && r.body@ == encode_utf8(b) && r.trailers@.len() == 0,
            None => r.status == sent_status(status) && r.headers.deep_view() == merged(
                headers.deep_view(),
                rules@.rewrite_response_headers,
            ) && r.body@ == body@ && r.trailers.deep_view() == merged(
                trailers.deep_view(),
                rules@.rewrite_response_trailers,
            ),
        },
{
    let ghost ids0 = session.matched_rule_ids.deep_view();
    let mut i: usize = 0;
    while i < rules.matched_rule_ids.len()
        invariant
            i <= rules.matched_rule_ids.len(),
            session.matched_rule_ids.deep_view() == ids0 + rules.matched_rule_ids.deep_view().take(
                i as int,
            ),
            session@ == (SessionModel { matched_rule_ids: session@.matched_rule_ids, ..old(session)@ }),
        decreases rules.matched_rule_ids.len() - i,
    {
        let ghost before = session.matched_rule_ids.deep_view();
        session.matched_rule_ids.push(rules.matched_rule_ids[i].clone());
        assert(session.matched_rule_ids.deep_view() =~= before.push(rules.matched_rule_ids[i as int]@));
        assert(ids0 + rules.matched_rule_ids.deep_view().take(i + 1) =~= before.push(
            rules.matched_rule_ids[i as int]@,
        ));
        i += 1;
    }
    assert(rules.matched_rule_ids.deep_view().take(i as int) =~= rules.matched_rule_ids.deep_view());
    let ghost s0 = session@;
    match &rules.mock_response {
        Some((st, hs, b)) => record_mock_response(session, *st, hs, b, max_bytes, now),
        None => {
            let mut out_headers = header_list(headers);
            merge_headers(&mut out_headers, rules.rewrite_response_headers.as_slice());
            let mut out_trailers = header_list(trailers);
            merge_headers(&mut out_trailers, rules.rewrite_response_trailers.as_slice());
            let red = redact_headers(out_headers.as_slice());
            session.status = Some(status);
            session.response_body = preview_body_with_headers(headers, body, DEFAULT_RESPONSE_LIMIT);
            session.bytes_down = body.len() as u64;
            session.grpc_response_metadata = grpc_metadata(out_headers.as_slice(), red.as_slice());
            session.response_headers = red;
            session.grpc_response_trailers = TrailersPreview {
                headers: redact_headers(out_trailers.as_slice()),
            };
            session.timeline.push(TimelineEntry::mark("first_byte", now));
            session.timeline.push(TimelineEntry::mark("completed", now));
            session.finish_at(SessionState::Completed, now);
            assert(session@ =~= with_upstream_response(
                old(session)@,
                status,
                headers.deep_view(),
                trailers.deep_view(),
                body@,
                rules@,
                max_bytes,
                now,
            ));
            ResponsePlan {
                status: response_status(status),
                headers: out_headers,
                body: vstd::slice::slice_to_vec(body),
                trailers: out_trailers,
            }
        },
    }
}

// ---------------------------------------------------------------------------
// CONNECT tunnels
// ---------------------------------------------------------------------------

/// The address of a tunnel, `host:port`.
pub open spec fn host_port_text(host: Seq<char>, port: u16) -> Seq<char> {
    host + ":"@ + decimal(port as nat)
}

/// `host:port`.
pub fn host_port(host: &str, port: u16) -> (r: String)
    ensures
        r@ == host_port_text(host@, port),
{
    let digits = decimal_string(port as u64);
    crate::text::concat3(host, ":", digits.as_str())
}

/// The session of a CONNECT tunnel to `host:port` opened at `now`.
pub open spec fn connect_model(id: SessionId, now: Instant, host: Seq<char>, port: u16) -> SessionModel {
    SessionModel {
        method: Some("CONNECT"@),
        host: Some(host),
        port: Some(port),
        url: Some(host_port_text(host, port)),
        state: SessionState::Tunneling,
        timeline: seq![mark_at("connect"@, now)],
        ..CapturedSession::fresh_model(SessionKind::ConnectTunnel, id, now)
    }
}

/// Begins the capture of a CONNECT request at `now`. Its target is the
/// request's authority or else its Host header; without one the request is
/// invalid. Returns the session and the `host:port` to tunnel to.
pub fn begin_connect(id: SessionId, now: Instant, head: &RequestHead) -> (r: Result<
    (CapturedSession, String),
    ProxyError,
>)
    ensures
        match request_host(head@) {
            None => (r matches Err(ProxyError::InvalidRequest(m)) && m@ == "CONNECT target missing"@),
            Some(a) => (r matches Ok((s, t)) && s@ == connect_model(
                id,
                now,
                connect_target(a).0,
                connect_target(a).1,
            ) && t@ == host_port_text(connect_target(a).0, connect_target(a).1)),
        },
{
    let authority: &str = match &head.uri.authority {
        Some(a) => a.as_str(),
        None => match &head.host_header {
            Some(h) => h.as_str(),
            None => {
                return Err(ProxyError::InvalidRequest("CONNECT target missing".to_owned()));
            },
        },
    };
    let (host, port) = match parse_connect_target(authority) {
        Ok(v) => v,
        Err(e) => {
            return Err(e);
        },
    };
    let target = host_port(host.as_str(), port);
    let mut session = CapturedSession::with_identity(SessionKind::ConnectTunnel, id, now);
    session.method = Some("CONNECT".to_owned());
    session.url = Some(target.clone());
    session.host = Some(host);
    session.port = Some(port);
    session.state = SessionState::Tunneling;
    session.timeline.push(TimelineEntry::mark("connect", now));
    assert(session@ =~= connect_model(id, now, connect_target(authority@).0, connect_target(authority@).1));
    Ok((session, target))
}

/// Ends the capture of a tunnel at `now`, once `bytes_up` bytes went from
/// the client to the target and `bytes_down` came back: the counts, a
/// `completed` mark, and the session ended as completed.
pub fn finish_tunnel(session: &mut CapturedSession, bytes_up: u64, bytes_down: u64, now: Instant)
    ensures
        final(session)@ == ended(
            SessionModel {
                bytes_up,
                bytes_down,
                timeline: old(session)@.timeline.push(mark_at("completed"@, now)),
                ..old(session)@
            },
            SessionState::Completed,
            now,
        ),
{
    session.bytes_up = bytes_up;
    session.bytes_down = bytes_down;
    session.timeline.push(TimelineEntry::mark("completed", now));
    session.finish_at(SessionState::Completed, now);
}

// ---------------------------------------------------------------------------
// WebSocket capture
// ---------------------------------------------------------------------------

/// What the target of a WebSocket upgrade comes to: the request's own URI
/// when it is absolute, else `ws://` with the Host header and the path and
/// query (`/` when there is none); the text is parsed either way. Without a
/// Host header, or when the text does not parse, the request is invalid.
pub open spec fn websocket_target_outcome(head: HeadModel) -> Result<UriModel, Seq<char>> {
    let text = if is_absolute(head.uri) {
        Some(head.uri.text)
    } else {
        match head.host_header {
            Some(h) => Some(
                "ws://"@ + h + match head.uri.path_and_query {
                    Some(p) => p,
                    None => "/"@,
                },
            ),
            None => None,
        }
    };
    match text {
        None => Err("missing websocket host"@),
        Some(t) => match http_uri(t) {
            Ok(u) => Ok(u),
            Err(e) => Err("invalid websocket uri: "@ + e),
        },
    }
}

/// The target of a WebSocket upgrade (see `websocket_target_outcome`).
pub fn websocket_target(head: &RequestHead) -> (r: Result<UriParts, ProxyError>)
    ensures
        match websocket_target_outcome(head@) {
            Ok(t) => (r matches Ok(u) && u@ == t),
            Err(m) => (r matches Err(ProxyError::InvalidRequest(e)) && e@ == m),
        },
{
    let text = if head.uri.scheme.is_some() && head.uri.authority.is_some() {
        head.uri.text.clone()
    } else {
        match &head.host_header {
            Some(h) => {
                let path = text_or(&head.uri.path_and_query, "/");
                crate::text::concat3("ws://", h.as_str(), path)
            },
            None => {
                return Err(ProxyError::InvalidRequest("missing websocket host".to_owned()));
            },
        }
    };
    match parse_uri(text.as_str()) {
        Ok(u) => Ok(u),
        Err(e) => Err(
            ProxyError::InvalidRequest(crate::text::concat2("invalid websocket uri: ", e.as_str())),
        ),
    }
}

/// The session of a WebSocket connection upgraded at `now` to `target`
/// (with host `host` and port `port`).
pub open spec fn websocket_model(
    id: SessionId,
    now: Instant,
    head: HeadModel,
    target: UriModel,
    host: Seq<char>,
    port: u16,
) -> SessionModel {
    SessionModel {
        method: Some("GET"@),
        url: Some(target.text),
        scheme: Some("ws"@),
        host: Some(host),
        port: Some(port),
        path: Some(
            match target.path_and_query {
                Some(p) => p,
                None => "/"@,
            },
        ),
        request_headers: redacted_headers(head.headers),
        status: Some(101),
        timeline: seq![mark_at("upgrade"@, now)],
        ..CapturedSession::fresh_model(SessionKind::WebSocket, id, now)
    }
}

/// The message of the error for a WebSocket target that is not `ws://`.
pub open spec fn cleartext_only() -> Seq<char> {
    "only cleartext ws:// capture is supported; wss:// remains a CONNECT tunnel"@
}

/// The session of a WebSocket connection to `target`, upgraded at `now`,
/// and the `host:port` to relay to (port 80 when the target has none). Only
/// `ws://` targets with a host are captured.
pub fn websocket_session_start(id: SessionId, now: Instant, head: &RequestHead, target: &UriParts) -> (r:
    Result<(CapturedSession, String), ProxyError>)
    ensures
        target@.scheme != Some("ws"@) ==> (r matches Err(ProxyError::InvalidRequest(m)) && m@
            == cleartext_only()),
        target@.scheme == Some("ws"@) && target@.host is None ==> (r matches Err(
            ProxyError::InvalidRequest(m),
        ) && m@ == "missing websocket host"@),
        target@.scheme == Some("ws"@) && target@.host is Some ==> ({
            let host = target@.host->0;
            let port = match target@.port {
                Some(p) => p,
                None => 80u16,
            };
            r matches Ok((s, t)) && s@ == websocket_model(id, now, head@, target@, host, port) && t@
                == host_port_text(host, port)
        }),
{
    let is_ws = match &target.scheme {
        Some(sc) => crate::text::same_text(sc.as_str(), "ws"),
        None => false,
    };
    if !is_ws {
        return Err(
            ProxyError::InvalidRequest(
                "only cleartext ws:// capture is supported; wss:// remains a CONNECT tunnel".to_owned(),
            ),
        );
    }
    let host = match &target.host {
        Some(h) => h.clone(),
        None => {
            return Err(ProxyError::InvalidRequest("missing websocket host".to_owned()));
        },
    };
    let port: u16 = match target.port {
        Some(p) => p,
        None => 80,
    };
    let relay = host_port(host.as_str(), port);
    let mut session = CapturedSession::with_identity(SessionKind::WebSocket, id, now);
    session.method = Some("GET".to_owned());
    session.url = Some(target.text.clone());
    session.scheme = Some("ws".to_owned());
    session.host = Some(host);
    session.port = Some(port);
    session.path = Some(
        match &target.path_and_query {
            Some(p) => p.clone(),
            None => "/".to_owned(),
        },
    );
    session.request_headers = redact_headers(head.headers.as_slice());
    session.status = Some(101);
    session.timeline.push(TimelineEntry::mark("upgrade", now));
    proof {
        reveal_strlit("/");
    }
    assert(session@ =~= websocket_model(id, now, head@, target@, target@.host->0, port));
    Ok((session, relay))
}

/// Begins the capture of a WebSocket upgrade at `now`: the target is
/// resolved (see `websocket_target`), then the session is that of
/// `websocket_session_start`.
pub fn begin_websocket(id: SessionId, now: Instant, head: &RequestHead) -> (r: Result<
    (CapturedSession, String),
    ProxyError,
>)
    ensures
        match websocket_target_outcome(head@) {
            Err(m) => (r matches Err(ProxyError::InvalidRequest(e)) && e@ == m),
            Ok(t) => if t.scheme != Some("ws"@) {
                (r matches Err(ProxyError::InvalidRequest(m)) && m@ == cleartext_only())
            } else if t.host is None {
                (r matches Err(ProxyError::InvalidRequest(m)) && m@ == "missing websocket host"@)
            } else {
                let port = match t.port {
                    Some(p) => p,
                    None => 80u16,
                };
                r matches Ok((s, a)) && s@ == websocket_model(id, now, head@, t, t.host->0, port)
                    && a@ == host_port_text(t.host->0, port)
            },
        },
{
    match websocket_target(head) {
        Ok(target) => websocket_session_start(id, now, head, &target),
        Err(e) => Err(e),
    }
}

/// The `Sec-WebSocket-Accept` value that answers the request's
/// `Sec-WebSocket-Key` (see `websocket_accept`); a request without a key is
/// invalid.
pub fn websocket_handshake(key: Option<&str>) -> (r: Result<String, ProxyError>)
    requires
        key matches Some(k) ==> k.spec_bytes().len() < 0x1000_0000_0000_0000,
    ensures
        match key {
            None => (r matches Err(ProxyError::InvalidRequest(m)) && m@ == "missing Sec-WebSocket-Key"@),
            Some(k) => (r matches Ok(a) && a@ == base64_standard(
                sha1_digest(encode_utf8(k@) + encode_utf8(websocket_guid())),
            )),
        },
{
    match key {
        Some(k) => Ok(websocket_accept(k)),
        None => Err(ProxyError::InvalidRequest("missing Sec-WebSocket-Key".to_owned())),
    }
}

/// The session once a frame has gone through at `now`: the first frame
/// adds a `first_frame` mark after the upgrade, and every frame's preview is
/// appended.
pub open spec fn with_frame(s: SessionModel, preview: FrameModel, now: Instant) -> SessionModel {
    SessionModel {
        timeline: if s.timeline.len() == 1 {
            s.timeline.push(mark_at("first_frame"@, now))
        } else {
            s.timeline
        },
        websocket_frames: s.websocket_frames.push(preview),
        ..s
    }
}

/// Records a frame that went through in `direction` at `now`, previewed
/// with at most `max_bytes` of payload. Returns whether the relay in that
/// direction stops there: after a close frame.
pub fn relay_frame(
    session: &mut CapturedSession,
    direction: &str,
    frame: &WebSocketFrame,
    max_bytes: usize,
    now: Instant,
) -> (stop: bool)
    requires
        frame.payload@.len() <= isize::MAX,
    ensures
        final(session)@ == with_frame(
            old(session)@,
            frame_preview_model(
                direction@,
                opcode_text(frame.opcode),
                frame.payload@,
                max_bytes,
                base64_standard(visible_part(frame.payload@, max_bytes)),
            ),
            now,
        ),
        stop == (frame.opcode == 8),
{
    let preview = preview_websocket_frame(direction, frame.opcode_name(), frame.payload.as_slice(), max_bytes);
    if session.timeline.len() == 1 {
        session.timeline.push(TimelineEntry::mark("first_frame", now));
    }
    session.websocket_frames.push(preview);
    assert(session@ =~= with_frame(
        old(session)@,
        frame_preview_model(
            direction@,
            opcode_text(frame.opcode),
            frame.payload@,
            max_bytes,
            base64_standard(visible_part(frame.payload@, max_bytes)),
        ),
        now,
    ));
    frame.opcode == 8
}

/// Ends the capture of a WebSocket connection at `now`. When the relay from
/// the client failed, or else the relay from upstream, the session records
/// that error's message and ends as failed; otherwise it ends as completed.
/// A `completed` mark is added after.
pub fn finish_websocket(
    session: &mut CapturedSession,
    client_error: Option<&ProxyError>,
    upstream_error: Option<&ProxyError>,
    now: Instant,
)
    ensures
        final(session)@ == ({
            let failure = match client_error {
                Some(e) => Some(e.spec_message()),
                None => match upstream_error {
                    Some(e) => Some(e.spec_message()),
                    None => None,
                },
            };
            let s = match failure {
                Some(m) => ended(
                    SessionModel { error: Some(m), ..old(session)@ },
                    SessionState::Failed,
                    now,
                ),
                None => ended(old(session)@, SessionState::Completed, now),
            };
            SessionModel { timeline: s.timeline.push(mark_at("completed"@, now)), ..s }
        }),
{
    let failure = match client_error {
        Some(e) => Some(e.message()),
        None => match upstream_error {
            Some(e) => Some(e.message()),
            None => None,
        },
    };
    match failure {
        Some(m) => {
            session.error = Some(m);
            session.finish_at(SessionState::Failed, now);
        },
        None => {
            session.finish_at(SessionState::Completed, now);
        },
    }
    session.timeline.push(TimelineEntry::mark("completed", now));
}

// ---------------------------------------------------------------------------
// Laws
// ---------------------------------------------------------------------------

/// Two session models share their identity: id, kind, start, method and URL.
pub open spec fn same_identity(a: SessionModel, b: SessionModel) -> bool {
    &&& a.id == b.id
    &&& a.kind == b.kind
    &&& a.started_at == b.started_at
    &&& a.method == b.method
    &&& a.url == b.url
}

/// Every capture step keeps a session's identity: receiving the body,
/// applying the request rules, a mock response, the upstream response, a
/// WebSocket frame, and ending. An ended session lasts from its start to
/// the end it records.
pub proof fn law_steps_keep_identity(
    s: SessionModel,
    headers: Seq<HeaderModel>,
    trailers: Seq<HeaderModel>,
    body: Seq<u8>,
    rules: ResultModel,
    matched: Seq<Seq<char>>,
    status: u16,
    frame: FrameModel,
    state: SessionState,
    max_bytes: usize,
    now: Instant,
)
    ensures
        same_identity(with_request_body(s, headers, trailers, body), s),
        same_identity(with_request_rules(s, headers, trailers, rules, matched), s),
        same_identity(mocked(s, status, headers, body, max_bytes, now), s),
        same_identity(
            with_upstream_response(s, status, headers, trailers, body, rules, max_bytes, now),
            s,
        ),
        same_identity(with_frame(s, frame, now), s),
        same_identity(ended(s, state, now), s),
        ended(s, state, now).ended_at == Some(now),
        ended(s, state, now).duration_ms == Some(elapsed_ms(s.started_at as int, now as int)),
{
}

/// Recording the upstream response keeps the rule history: afterwards the
/// session's matched rule ids are the ids it held before, each in its
/// place, followed by the ids of the response rules in their order, whether
/// or not a response rule mocks.
pub proof fn law_response_keeps_rule_history(
    s: SessionModel,
    status: u16,
    headers: Seq<HeaderModel>,
    trailers: Seq<HeaderModel>,
    body: Seq<u8>,
    rules: ResultModel,
    max_bytes: usize,
    now: Instant,
)
    ensures
        ({
            let ids = with_upstream_response(s, status, headers, trailers, body, rules, max_bytes, now).matched_rule_ids;
            &&& ids.len() == s.matched_rule_ids.len() + rules.matched_rule_ids.len()
            &&& forall|i: int| 0 <= i < s.matched_rule_ids.len() ==> #[trigger] ids[i] == s.matched_rule_ids[i]
            &&& forall|j: int|
                0 <= j < rules.matched_rule_ids.len() ==> ids[s.matched_rule_ids.len() + j]
                    == #[trigger] rules.matched_rule_ids[j]
        }),
{
}

/// The recorded request headers of a captured exchange are those of the
/// request, one for one: as many, with the same names in the same order,
/// each value kept unless its name marks a credential, which shows
/// `<redacted>`. So it is for a WebSocket upgrade and for an HTTP request.
pub proof fn law_sessions_record_request_headers(
    id: SessionId,
    now: Instant,
    head: HeadModel,
    target: UriModel,
    host: Seq<char>,
    port: u16,
)
    ensures
        ({
            let ws = websocket_model(id, now, head, target, host, port).request_headers;
            let http = received_model(id, now, head, target).request_headers;
            &&& ws.len() == head.headers.len()
            &&& http.len() == head.headers.len()
            &&& forall|i: int|
                0 <= i < head.headers.len() ==> {
                    &&& (#[trigger] ws[i]).name == head.headers[i].name
                    &&& http[i].name == head.headers[i].name
                    &&& !is_sensitive_name(head.headers[i].name) ==> ws[i].value == head.headers[i].value
                        && http[i].value == head.headers[i].value
                    &&& is_sensitive_name(head.headers[i].name) ==> ws[i].value == "<redacted>"@
                        && http[i].value == "<redacted>"@
                }
        }),
{
}

/// How a response ends a captured exchange. A mock response leaves the
/// session mocked, with the mock's status, its headers one for one (same
/// names in the same order, credentials redacted), its body's size as the
/// bytes down, and ended at that instant. An upstream response with no mock
/// leaves it completed, with the upstream status and body size, ended at
/// that instant. Neither touches what was recorded of the request.
pub proof fn law_responses_end_the_exchange(
    s: SessionModel,
    status: u16,
    headers: Seq<HeaderModel>,
    trailers: Seq<HeaderModel>,
    body: Seq<u8>,
    rules: ResultModel,
    max_bytes: usize,
    now: Instant,
)
    ensures
        ({
            let m = mocked(s, status, headers, body, max_bytes, now);
            &&& m.state == SessionState::Mocked
            &&& m.status == Some(status)
            &&& m.bytes_down == body.len() as u64
            &&& m.ended_at == Some(now)
            &&& m.response_headers.len() == headers.len()
            &&& forall|i: int| 0 <= i < headers.len() ==> (#[trigger] m.response_headers[i]).name == headers[i].name
                && (!is_sensitive_name(headers[i].name) ==> m.response_headers[i].value == headers[i].value)
                && (is_sensitive_name(headers[i].name) ==> m.response_headers[i].value == "<redacted>"@)
            &&& m.request_headers == s.request_headers
            &&& m.request_body == s.request_body
            &&& m.matched_rule_ids == s.matched_rule_ids
        }),
        rules.mock_response is None ==> ({
            let u = with_upstream_response(s, status, headers, trailers, body, rules, max_bytes, now);
            &&& u.state == SessionState::Completed
            &&& u.status == Some(status)
            &&& u.bytes_down == body.len() as u64
            &&& u.ended_at == Some(now)
            &&& u.request_headers == s.request_headers
            &&& u.request_body == s.request_body
        }),
        ({
            let r = with_request_rules(s, headers, trailers, rules, s.matched_rule_ids);
            &&& r.state == s.state
            &&& r.status == s.status
            &&& r.request_headers.len() >= headers.len()
        }),
{
    crate::rules::law_merge_keeps_headers(headers, rules.rewrite_request_headers);
}

} // verus!
