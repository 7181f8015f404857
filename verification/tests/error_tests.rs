use rustnetlens_core::error::{ProxyError, ReplayError, RuleError, SecurityError, StoreError};

#[test]
fn proxy_errors_display_their_messages() {
    assert_eq!(
        ProxyError::BindFailed { addr: "127.0.0.1:1".into(), source: "in use".into() }.message(),
        "failed to bind proxy address 127.0.0.1:1: in use"
    );
    assert_eq!(
        ProxyError::UpstreamConnectFailed { target: "h:80".into(), source: "refused".into() }.message(),
        "failed to connect upstream h:80: refused"
    );
    assert_eq!(ProxyError::InvalidRequest("x".into()).message(), "invalid proxy request: x");
    assert_eq!(ProxyError::Http("y".into()).message(), "http error: y");
    assert_eq!(ProxyError::Store("z".into()).message(), "store error: z");
}

#[test]
fn store_rule_replay_and_security_errors_display_their_messages() {
    assert_eq!(StoreError::Database("locked".into()).message(), "database error: locked");
    assert_eq!(StoreError::Serialization("bad".into()).message(), "serialization error: bad");
    assert_eq!(StoreError::NotFound.message(), "not found");
    assert_eq!(RuleError::InvalidRule("r".into()).message(), "invalid rule: r");
    assert_eq!(ReplayError::NotReplayable.message(), "session not replayable");
    assert_eq!(ReplayError::Request("t".into()).message(), "request execution failed: t");
    assert_eq!(ReplayError::Store("s".into()).message(), "store error: s");
    assert_eq!(SecurityError::Io("disk".into()).message(), "io error: disk");
    assert_eq!(SecurityError::Certificate("c".into()).message(), "certificate error: c");
    assert_eq!(SecurityError::Tls("t".into()).message(), "tls error: t");
}
