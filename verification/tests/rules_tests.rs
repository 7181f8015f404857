use rustnetlens_core::model::{
    CapturedSession, HeaderPair, RequestContext, ResponseContext, Rule, RuleAction, RuleMatch,
    SessionKind,
};
use rustnetlens_core::rules::{merge_headers, RuleEngine};

fn header(name: &str, value: &str) -> HeaderPair {
    HeaderPair { name: name.to_string(), value: value.to_string() }
}

fn rule(id: &str, priority: i64, enabled: bool, action: RuleAction) -> Rule {
    Rule {
        id: id.into(),
        name: format!("rule {id}"),
        enabled,
        priority,
        match_: RuleMatch { url_contains: None, method: None, host: None, status: None },
        action,
        created_at: 0,
        updated_at: 0,
    }
}

fn request_context(method: &str, url: &str) -> RequestContext {
    let mut session = CapturedSession::new(SessionKind::Http);
    session.method = Some(method.into());
    session.url = Some(url.into());
    RequestContext {
        session,
        request_headers: vec![],
        request_body: vec![],
        request_trailers: vec![],
        should_mock: false,
        delay_ms: None,
        rewrite_request_headers: vec![],
        rewrite_request_trailers: vec![],
        matched_rule_ids: vec![],
    }
}

#[test]
fn merges_headers_case_insensitively() {
    let mut headers = vec![header("X-Test", "old")];
    merge_headers(&mut headers, &[header("x-test", "new")]);
    assert_eq!(headers[0].value, "new");
}

#[test]
fn rule_engine_matches_mock() {
    let mut engine = RuleEngine::default();
    engine.set_rules(vec![Rule {
        id: "rule-1".into(),
        name: "mock".into(),
        enabled: true,
        priority: 1,
        match_: RuleMatch {
            url_contains: Some("/api/user".into()),
            method: Some("GET".into()),
            host: None,
            status: None,
        },
        action: RuleAction::MockResponse {
            status: 200,
            headers: vec![header("content-type", "application/json")],
            body: "{\"ok\":true}".into(),
        },
        created_at: 0,
        updated_at: 0,
    }]);
    let mut ctx = request_context("GET", "http://localhost/api/user");
    let result = engine.apply_request(&mut ctx);
    assert!(result.mock_response.is_some());
    assert_eq!(ctx.matched_rule_ids, vec!["rule-1"]);
}

#[test]
fn merge_keeps_the_existing_name_and_appends_new_ones() {
    let mut headers = vec![header("Content-Type", "text/plain"), header("Accept", "*/*")];
    merge_headers(
        &mut headers,
        &[header("content-type", "application/json"), header("X-New", "1")],
    );
    assert_eq!(
        headers,
        vec![
            header("Content-Type", "application/json"),
            header("Accept", "*/*"),
            header("X-New", "1"),
        ]
    );
}

#[test]
fn merge_last_rewrite_of_a_name_wins() {
    let mut headers = vec![header("X-A", "0")];
    merge_headers(&mut headers, &[header("x-a", "1"), header("X-B", "b"), header("X-A", "2")]);
    assert_eq!(headers, vec![header("X-A", "2"), header("X-B", "b")]);
}

#[test]
fn merge_without_rewrites_changes_nothing() {
    let mut headers = vec![header("X-A", "0"), header("x-a", "1")];
    merge_headers(&mut headers, &[]);
    assert_eq!(headers, vec![header("X-A", "0"), header("x-a", "1")]);
}

#[test]
fn disabled_rules_are_skipped() {
    let mut engine = RuleEngine::default();
    engine.set_rules(vec![
        rule("off", 1, false, RuleAction::Delay { millis: 5 }),
        rule("on", 2, true, RuleAction::Delay { millis: 7 }),
    ]);
    let mut ctx = request_context("GET", "http://localhost/");
    let result = engine.apply_request(&mut ctx);
    assert_eq!(result.matched_rule_ids, vec!["on"]);
    assert_eq!(result.delay_ms, Some(7));
}

#[test]
fn rules_run_by_priority_then_id_and_ties_keep_their_order() {
    let mut engine = RuleEngine::default();
    let mut first = rule("b", 5, true, RuleAction::Delay { millis: 1 });
    first.name = "first".into();
    let mut second = rule("b", 5, true, RuleAction::Delay { millis: 2 });
    second.name = "second".into();
    engine.set_rules(vec![
        rule("z", 10, true, RuleAction::Delay { millis: 3 }),
        first,
        rule("a", 5, true, RuleAction::Delay { millis: 4 }),
        second,
    ]);
    let ordered: Vec<(String, String)> =
        engine.get_rules().into_iter().map(|r| (r.id, r.name)).collect();
    assert_eq!(
        ordered,
        vec![
            ("a".to_string(), "rule a".to_string()),
            ("b".to_string(), "first".to_string()),
            ("b".to_string(), "second".to_string()),
            ("z".to_string(), "rule z".to_string()),
        ]
    );
    let mut ctx = request_context("GET", "http://localhost/");
    let result = engine.apply_request(&mut ctx);
    // the last delay that applies is the one that counts
    assert_eq!(result.delay_ms, Some(3));
}

#[test]
fn request_rewrites_accumulate_and_response_rules_never_mock() {
    let mut engine = RuleEngine::default();
    engine.set_rules(vec![
        rule("1", 1, true, RuleAction::RewriteRequestHeaders { headers: vec![header("X-A", "1")] }),
        rule("2", 2, true, RuleAction::RewriteRequestHeaders { headers: vec![header("X-B", "2")] }),
        rule("3", 3, true, RuleAction::RewriteResponseHeaders { headers: vec![header("X-C", "3")] }),
        rule(
            "4",
            4,
            true,
            RuleAction::MockResponse { status: 201, headers: vec![], body: "m".into() },
        ),
    ]);
    let mut ctx = request_context("GET", "http://localhost/");
    let result = engine.apply_request(&mut ctx);
    assert_eq!(result.rewrite_request_headers, vec![header("X-A", "1"), header("X-B", "2")]);
    assert!(result.rewrite_response_headers.is_empty());
    assert_eq!(result.mock_response, Some((201, vec![], "m".to_string())));

    let mut rctx = ResponseContext {
        session: CapturedSession::new(SessionKind::Http),
        response_headers: vec![],
        response_body: vec![],
        response_trailers: vec![],
        delay_ms: None,
        rewrite_response_headers: vec![],
        rewrite_response_trailers: vec![],
        matched_rule_ids: vec![],
    };
    let response = engine.apply_response(&mut rctx);
    assert_eq!(response.rewrite_response_headers, vec![header("X-C", "3")]);
    assert!(response.mock_response.is_none());
    assert_eq!(rctx.matched_rule_ids, vec!["1", "2", "3", "4"]);
}

#[test]
fn rules_match_on_method_host_url_and_status() {
    let mut r = rule("m", 1, true, RuleAction::Delay { millis: 1 });
    r.match_ = RuleMatch {
        url_contains: Some("/api".into()),
        method: Some("post".into()),
        host: Some("example".into()),
        status: None,
    };
    let mut session = CapturedSession::new(SessionKind::Http);
    session.method = Some("POST".into());
    session.url = Some("http://example.com/api/x".into());
    session.host = Some("example.com".into());
    assert!(rustnetlens_core::rules::matches_request(&r, &session));
    session.host = None;
    assert!(!rustnetlens_core::rules::matches_request(&r, &session));
    r.match_.host = None;
    r.match_.status = Some(404);
    assert!(!rustnetlens_core::rules::matches_request(&r, &session));
}

#[test]
fn rule_validation_refuses_blank_ids_and_names() {
    let blank_id = rule("  ", 1, true, RuleAction::Delay { millis: 1 });
    let err = RuleEngine::validate_rule(&blank_id).unwrap_err();
    assert_eq!(err.message(), "invalid rule: id cannot be empty");
    let mut blank_name = rule("id", 1, true, RuleAction::Delay { millis: 1 });
    blank_name.name = "\t".into();
    let err = RuleEngine::validate_rule(&blank_name).unwrap_err();
    assert_eq!(err.message(), "invalid rule: name cannot be empty");
    assert!(RuleEngine::validate_rule(&rule("id", 1, true, RuleAction::Delay { millis: 1 })).is_ok());
}

#[test]
fn delay_applies_only_when_positive() {
    assert_eq!(RuleEngine::delay_to_apply(Some(0)), None);
    assert_eq!(RuleEngine::delay_to_apply(Some(15)), Some(15));
    assert_eq!(RuleEngine::delay_to_apply(None), None);
}

#[test]
fn merging_the_same_rewrites_twice_is_merging_once() {
    let rewrites = [header("x-a", "1"), header("X-New", "2"), header("X-A", "3"), header("x-new", "4")];
    let mut once = vec![header("X-A", "old"), header("Accept", "*/*")];
    merge_headers(&mut once, &rewrites);
    let mut twice = once.clone();
    merge_headers(&mut twice, &rewrites);
    assert_eq!(twice, once);
    assert_eq!(
        once,
        vec![header("X-A", "3"), header("Accept", "*/*"), header("X-New", "4")]
    );
}

#[test]
fn a_request_gets_what_its_applying_rules_ask_for() {
    let mut engine = RuleEngine::default();
    engine.set_rules(vec![
        rule("d", 2, true, RuleAction::Delay { millis: 40 }),
        rule("a", 1, true, RuleAction::RewriteRequestHeaders { headers: vec![header("x-1", "a")] }),
        rule("off", 0, false, RuleAction::Delay { millis: 999 }),
        rule("m", 3, true, RuleAction::MockResponse { status: 201, headers: vec![], body: "hi".into() }),
        rule("b", 1, true, RuleAction::RewriteRequestHeaders { headers: vec![header("x-2", "b")] }),
        rule("e", 4, true, RuleAction::Delay { millis: 7 }),
    ]);
    let ids: Vec<String> = engine.get_rules().iter().map(|r| r.id.clone()).collect();
    assert_eq!(ids, vec!["off", "a", "b", "d", "m", "e"]);
    let mut ctx = request_context("GET", "http://h/x");
    let result = engine.apply_request(&mut ctx);
    assert_eq!(result.matched_rule_ids, vec!["a", "b", "d", "m", "e"]);
    assert_eq!(ctx.matched_rule_ids, result.matched_rule_ids);
    assert_eq!(result.rewrite_request_headers, vec![header("x-1", "a"), header("x-2", "b")]);
    assert!(result.rewrite_response_headers.is_empty());
    assert_eq!(result.mock_response, Some((201, vec![], "hi".to_string())));
    assert_eq!(result.delay_ms, Some(7));
}
