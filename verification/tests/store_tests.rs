use rustnetlens_core::error::StoreError;
use rustnetlens_core::model::{
    CapturedSession, CollectionItem, HeaderPair, RequestCollection, SessionFilter, SessionKind, SessionState, SessionSummary,
};
use rustnetlens_core::store::{
    average_u64, buckets_by, filter_summaries, kind_name, parse_kind, parse_state,
    percentile_u64, session_from_row, session_matches_filter, session_row, sort_ascending,
    state_name, summary_from_row, traffic_overview, BucketBy, SqliteStore, SummaryRow,
    collection_from_row, collection_row, CollectionRow,
};

#[test]
fn session_filtering_works() {
    let mut session = CapturedSession::new(SessionKind::Http);
    session.state = SessionState::Mocked;
    session.method = Some("POST".into());
    session.url = Some("http://example.com/api/user".into());
    session.host = Some("example.com".into());
    session.status = Some(200);
    let sessions = filter_summaries(
        vec![SessionSummary::from_session(&session)],
        &SessionFilter {
            keyword: Some("api/user".into()),
            method: Some("POST".into()),
            status: Some(200),
            host: Some("example.com".into()),
            only_failed: false,
            only_mocked: true,
        },
    );
    assert_eq!(sessions.len(), 1);
}

#[test]
fn traffic_overview_aggregates_sessions() {
    let mut summaries = Vec::new();
    for (host, status, bytes_up, bytes_down) in [
        ("example.com", Some(200), 10, 20),
        ("example.com", Some(500), 30, 40),
        ("api.example.com", Some(200), 50, 60),
    ] {
        let mut session = CapturedSession::new(SessionKind::Http);
        session.state = SessionState::Completed;
        session.method = Some("GET".into());
        session.url = Some(format!("http://{host}/demo"));
        session.host = Some(host.into());
        session.status = status;
        session.bytes_up = bytes_up;
        session.bytes_down = bytes_down;
        summaries.push(SessionSummary::from_session(&session));
    }
    let overview = traffic_overview(&summaries);
    assert_eq!(overview.total_sessions, 3);
    assert_eq!(overview.total_bytes_up, 90);
    assert_eq!(overview.by_host.first().map(|item| item.key.as_str()), Some("example.com"));
    assert_eq!(overview.by_status.len(), 2);
}

fn summary(host: Option<&str>, method: Option<&str>, status: Option<u16>, duration: Option<u64>) -> SessionSummary {
    let mut session = CapturedSession::new(SessionKind::Http);
    session.host = host.map(|h| h.to_string());
    session.method = method.map(|m| m.to_string());
    session.status = status;
    session.duration_ms = duration;
    session.bytes_up = 1;
    session.bytes_down = 2;
    SessionSummary::from_session(&session)
}

#[test]
fn overview_statistics_are_exact() {
    let summaries = vec![
        summary(Some("a"), Some("GET"), Some(200), Some(30)),
        summary(Some("b"), None, None, Some(10)),
        summary(None, Some("GET"), Some(200), None),
        summary(Some("a"), Some("POST"), Some(404), Some(20)),
    ];
    let overview = traffic_overview(&summaries);
    assert_eq!(overview.total_sessions, 4);
    assert_eq!(overview.total_bytes_up, 4);
    assert_eq!(overview.total_bytes_down, 8);
    assert_eq!(overview.average_duration_ms, Some(20));
    assert_eq!(overview.p95_duration_ms, Some(30));
    let hosts: Vec<(String, u64)> = overview.by_host.iter().map(|b| (b.key.clone(), b.count)).collect();
    assert_eq!(hosts, vec![("a".into(), 2), ("-".into(), 1), ("b".into(), 1)]);
    let methods: Vec<(String, u64)> =
        overview.by_method.iter().map(|b| (b.key.clone(), b.count)).collect();
    assert_eq!(methods, vec![("GET".into(), 2), ("-".into(), 1), ("POST".into(), 1)]);
    let by_status = buckets_by(&summaries, BucketBy::Status);
    assert_eq!(by_status[0].key, "200");
    assert_eq!(by_status[0].average_duration_ms, Some(30));
}

#[test]
fn averages_and_percentiles() {
    assert_eq!(average_u64(&[]), None);
    assert_eq!(average_u64(&[1, 2, 4]), Some(2));
    assert_eq!(percentile_u64(&[], 95), None);
    assert_eq!(percentile_u64(&[5, 6, 7, 8], 95), Some(8));
    assert_eq!(percentile_u64(&[5, 6, 7, 8], 50), Some(7));
    assert_eq!(percentile_u64(&[5, 6, 7, 8], 100), Some(8));
    assert_eq!(sort_ascending(vec![3, 1, 2, 1]), vec![1, 1, 2, 3]);
}

#[test]
fn default_filter_lists_everything() {
    let all = vec![summary(Some("x"), None, None, None), summary(None, Some("GET"), Some(500), Some(1))];
    let kept = filter_summaries(all, &SessionFilter::default());
    assert_eq!(kept.len(), 2);
}

#[test]
fn filters_refuse_what_does_not_match() {
    let s = summary(Some("example.com"), Some("get"), Some(200), None);
    let mut f = SessionFilter::default();
    f.method = Some("GET".into());
    assert!(session_matches_filter(&s, &f));
    f.only_failed = true;
    assert!(!session_matches_filter(&s, &f));
    let mut g = SessionFilter::default();
    g.keyword = Some("EXAMPLE".into());
    assert!(session_matches_filter(&s, &g));
    g.host = Some("other".into());
    assert!(!session_matches_filter(&s, &g));
}

#[test]
fn kinds_and_states_round_trip_through_their_names() {
    for kind in [SessionKind::Http, SessionKind::ConnectTunnel, SessionKind::WebSocket] {
        assert_eq!(parse_kind(kind_name(kind)), Ok(kind));
    }
    for state in [
        SessionState::Pending,
        SessionState::Completed,
        SessionState::Failed,
        SessionState::Mocked,
        SessionState::Tunneling,
    ] {
        assert_eq!(parse_state(state_name(state)), Ok(state));
    }
    assert_eq!(
        parse_kind("Ftp"),
        Err(StoreError::Serialization("unknown session kind: Ftp".into()))
    );
    assert_eq!(
        parse_state("Gone"),
        Err(StoreError::Serialization("unknown session state: Gone".into()))
    );
}

#[test]
fn a_session_row_reads_back_as_the_session() {
    let mut session = CapturedSession::new(SessionKind::WebSocket);
    session.state = SessionState::Failed;
    session.method = Some("GET".into());
    session.url = Some("ws://example.com/chat".into());
    session.host = Some("example.com".into());
    session.port = Some(8080);
    session.status = Some(101);
    session.ended_at = Some(session.started_at + 1500);
    session.duration_ms = Some(1500);
    session.bytes_up = 12;
    session.bytes_down = 34;
    session.error = Some("boom".into());
    session.matched_rule_ids = vec!["r1".into(), "r2".into()];
    let row = session_row(&session, session.started_at).unwrap();
    assert_eq!(row.kind, "WebSocket");
    assert_eq!(row.state, "Failed");
    assert_eq!(row.id, uuid::Uuid::from_u128(session.id).to_string());
    assert_eq!(
        row.started_at,
        chrono::DateTime::<chrono::Utc>::from_timestamp_nanos(session.started_at as i64).to_rfc3339()
    );
    assert_eq!(row.matched_rule_ids, "[\"r1\",\"r2\"]");
    let back = session_from_row(&row).unwrap();
    assert_eq!(back.id, session.id);
    assert_eq!(back.kind, session.kind);
    assert_eq!(back.state, session.state);
    assert_eq!(back.started_at, session.started_at);
    assert_eq!(back.ended_at, session.ended_at);
    assert_eq!(back.duration_ms, session.duration_ms);
    assert_eq!(back.url, session.url);
    assert_eq!(back.port, session.port);
    assert_eq!(back.status, session.status);
    assert_eq!(back.bytes_up, 12);
    assert_eq!(back.bytes_down, 34);
    assert_eq!(back.error, session.error);
    assert_eq!(back.matched_rule_ids, session.matched_rule_ids);
}

#[test]
fn summary_rows_report_the_first_bad_column() {
    let good = SummaryRow {
        id: "00000000-0000-0000-0000-000000000007".into(),
        kind: "Http".into(),
        state: "Completed".into(),
        started_at: "1970-01-01T00:00:00.250+00:00".into(),
        method: Some("GET".into()),
        url: None,
        host: None,
        status: Some(204),
        duration_ms: Some(3),
        bytes_up: -5,
        bytes_down: 9,
        matched_rule_ids: "not json".into(),
    };
    let s = summary_from_row(good).unwrap();
    assert_eq!(s.id, 7);
    assert_eq!(s.started_at, 250_000_000);
    assert_eq!(s.bytes_up, 0);
    assert_eq!(s.bytes_down, 9);
    assert!(s.matched_rule_ids.is_empty());
    let bad = SummaryRow {
        id: "nope".into(),
        kind: "Http".into(),
        state: "Completed".into(),
        started_at: "1970-01-01T00:00:00+00:00".into(),
        method: None,
        url: None,
        host: None,
        status: None,
        duration_ms: None,
        bytes_up: 0,
        bytes_down: 0,
        matched_rule_ids: "[]".into(),
    };
    assert!(matches!(summary_from_row(bad), Err(StoreError::Serialization(_))));
}

#[test]
fn store_keeps_its_path() {
    let store = SqliteStore::at("/tmp/data.sqlite3");
    assert_eq!(store.db_path(), "/tmp/data.sqlite3");
}

#[test]
fn a_cloned_store_keeps_its_path() {
    let store = SqliteStore::at("/var/lib/capture.sqlite3");
    let copy = store.clone();
    assert_eq!(copy.db_path(), "/var/lib/capture.sqlite3");
    assert_eq!(store.db_path(), copy.db_path());
}

#[test]
fn rows_read_back_only_for_four_digit_years() {
    let mut session = CapturedSession::new(SessionKind::Http);
    // The last millisecond of 9999-12-31 reads back.
    session.started_at = 253_402_300_799_999_000_000;
    let row = session_row(&session, 0).unwrap();
    assert_eq!(row.started_at, "9999-12-31T23:59:59.999+00:00");
    assert_eq!(session_from_row(&row).unwrap().started_at, session.started_at);
    // The first instant of year 10000 is written with a sign, which the
    // RFC 3339 parser refuses.
    session.started_at = 253_402_300_800_000_000_000;
    let row = session_row(&session, 0).unwrap();
    assert_eq!(row.started_at, "+10000-01-01T00:00:00+00:00");
    assert!(matches!(session_from_row(&row), Err(StoreError::Serialization(_))));
}

#[test]
fn rows_keep_instants_to_the_nanosecond() {
    let mut session = CapturedSession::new(SessionKind::Http);
    session.started_at = 1_700_000_000_123_456_789;
    session.ended_at = Some(-1);
    let row = session_row(&session, 0).unwrap();
    assert_eq!(row.started_at, "2023-11-14T22:13:20.123456789+00:00");
    assert_eq!(row.ended_at.as_deref(), Some("1969-12-31T23:59:59.999999999+00:00"));
    assert_eq!(row.created_at, "1970-01-01T00:00:00+00:00");
    let back = session_from_row(&row).unwrap();
    assert_eq!(back.started_at, 1_700_000_000_123_456_789);
    assert_eq!(back.ended_at, Some(-1));
}

#[test]
fn a_stored_row_lists_as_the_session_summary() {
    let mut session = CapturedSession::new(SessionKind::Http);
    session.state = SessionState::Mocked;
    session.method = Some("GET".into());
    session.url = Some("http://h/x".into());
    session.host = Some("h".into());
    session.status = Some(204);
    session.duration_ms = Some(12);
    session.bytes_up = 3;
    session.bytes_down = 4;
    session.matched_rule_ids = vec!["r".into()];
    let row = session_row(&session, session.started_at).unwrap();
    let columns = SummaryRow {
        id: row.id.clone(),
        kind: row.kind.clone(),
        state: row.state.clone(),
        started_at: row.started_at.clone(),
        method: row.method.clone(),
        url: row.url.clone(),
        host: row.host.clone(),
        status: row.status,
        duration_ms: row.duration_ms,
        bytes_up: row.bytes_up,
        bytes_down: row.bytes_down,
        matched_rule_ids: row.matched_rule_ids.clone(),
    };
    let listed = summary_from_row(columns).unwrap();
    let expected = SessionSummary::from_session(&session);
    assert_eq!(listed.id, expected.id);
    assert_eq!(listed.kind, expected.kind);
    assert_eq!(listed.state, expected.state);
    assert_eq!(listed.started_at, expected.started_at);
    assert_eq!(listed.method, expected.method);
    assert_eq!(listed.url, expected.url);
    assert_eq!(listed.host, expected.host);
    assert_eq!(listed.status, expected.status);
    assert_eq!(listed.duration_ms, expected.duration_ms);
    assert_eq!(listed.bytes_up, expected.bytes_up);
    assert_eq!(listed.bytes_down, expected.bytes_down);
    assert_eq!(listed.matched_rule_ids, expected.matched_rule_ids);
}

#[test]
fn fresh_sessions_get_random_uuids() {
    let s = CapturedSession::new(SessionKind::Http);
    assert_eq!((s.id >> 76) & 0xf, 4);
    assert_eq!((s.id >> 62) & 0x3, 2);
    let id = rustnetlens_core::clock::new_session_id();
    assert_eq!(uuid::Uuid::from_u128(id).get_version_num(), 4);
    let before = rustnetlens_core::clock::now_instant();
    let mut t = CapturedSession::new(SessionKind::Http);
    assert!(t.started_at >= before);
    t.finish(SessionState::Completed);
    assert!(t.ended_at.unwrap() >= t.started_at);
}

fn collection() -> RequestCollection {
    RequestCollection {
        id: "c1".into(),
        name: "login flow".into(),
        description: Some("saved requests".into()),
        items: vec![],
        created_at: 1_000_000_000,
        updated_at: 2_500_000_000,
    }
}

#[test]
fn adding_a_session_appends_its_request() {
    let mut session = CapturedSession::with_identity(SessionKind::Http, 42, 0);
    session.method = Some("POST".into());
    session.url = Some("http://h/login".into());
    session.request_headers = vec![HeaderPair { name: "Accept".into(), value: "*/*".into() }];
    let mut c = collection();
    c.add_session(&session, 9_000_000_000);
    c.add_session(&CapturedSession::with_identity(SessionKind::Http, 43, 0), 9_500_000_000);
    assert_eq!(c.items.len(), 2);
    assert_eq!(c.items[0].session_id, 42);
    assert_eq!(c.items[0].method.as_deref(), Some("POST"));
    assert_eq!(c.items[0].url.as_deref(), Some("http://h/login"));
    assert_eq!(c.items[0].request_headers, session.request_headers);
    assert_eq!(c.items[1].session_id, 43);
    assert_eq!(c.updated_at, 9_500_000_000);
    assert_eq!(c.created_at, 1_000_000_000);
    assert_eq!(c.name, "login flow");
    let item = CollectionItem::from_session(&session);
    assert_eq!(item.session_id, 42);
}

#[test]
fn collection_rows_read_back() {
    let c = collection();
    let row = collection_row(&c).unwrap();
    assert_eq!(row.created_at, "1970-01-01T00:00:01+00:00");
    assert_eq!(row.updated_at, "1970-01-01T00:00:02.500+00:00");
    let back = collection_from_row(row, Ok(vec![])).unwrap();
    assert_eq!(back.id, "c1");
    assert_eq!(back.description.as_deref(), Some("saved requests"));
    assert_eq!(back.created_at, 1_000_000_000);
    assert_eq!(back.updated_at, 2_500_000_000);
    let bad_items = collection_from_row(collection_row(&c).unwrap(), Err("expected value".into()));
    assert_eq!(bad_items.unwrap_err(), StoreError::Serialization("expected value".into()));
    let bad_time = CollectionRow {
        id: "c".into(),
        name: "n".into(),
        description: None,
        created_at: "yesterday".into(),
        updated_at: "1970-01-01T00:00:00+00:00".into(),
    };
    assert!(matches!(collection_from_row(bad_time, Ok(vec![])), Err(StoreError::Serialization(_))));
}
