use rustnetlens_core::error::SecurityError;
use rustnetlens_core::security::{sha256_hex, HttpsMitmState, RootCaBundle};

fn bundle() -> RootCaBundle {
    RootCaBundle {
        generated_at: 42,
        cert_path: "/data/certs/rustnetlens-root-ca.pem".into(),
        key_path: "/data/certs/rustnetlens-root-ca-key.pem".into(),
        cert_pem: "abc".into(),
        key_pem: "key".into(),
    }
}

#[test]
fn fingerprints_are_lower_case_sha256_hex() {
    assert_eq!(
        sha256_hex(b"abc"),
        "ba7816bf8f01cfea414140de5dae2223b00361a396177a9cb410ff61f20015ad"
    );
    assert_eq!(
        sha256_hex(b""),
        "e3b0c44298fc1c149afbf4c8996fb92427ae41e4649b934ca495991b7852b855"
    );
}

#[test]
fn interception_is_off_and_not_ready_by_default() {
    let state = HttpsMitmState::default();
    assert!(!state.enabled());
    assert!(!state.is_ready());
    assert!(!state.intercepts());
    let status = state.status();
    assert!(!status.enabled && !status.ready && status.local_only && status.default_off);
    assert!(status.root_ca.is_none());
    assert!(status.install_hint.starts_with("HTTPS decrypt is disabled by default."));
    assert!(state.root_ca_paths().is_none());
    assert!(state.root_ca_pem().is_none());
}

#[test]
fn a_root_ca_makes_interception_ready() {
    let mut state = HttpsMitmState::default();
    let err = state.ensure_root_ca_with(None).unwrap_err();
    assert_eq!(err, SecurityError::Certificate("failed to load or generate root CA".into()));
    let info = state.ensure_root_ca_with(Some(bundle())).unwrap();
    assert_eq!(info.generated_at, 42);
    assert_eq!(info.cert_path, "/data/certs/rustnetlens-root-ca.pem");
    assert_eq!(info.fingerprint_sha256, sha256_hex(b"abc"));
    assert!(state.is_ready());
    assert!(!state.intercepts());
    state.set_enabled(true);
    assert!(state.intercepts());
    let mut other = bundle();
    other.cert_pem = "other".into();
    let again = state.ensure_root_ca_with(Some(other)).unwrap();
    assert_eq!(again.fingerprint_sha256, info.fingerprint_sha256);
    let status = state.status();
    assert_eq!(
        status.install_hint,
        "Local Root CA is ready. Install /data/certs/rustnetlens-root-ca.pem on devices you control, then enable HTTPS decrypt explicitly."
    );
    assert_eq!(
        state.root_ca_pem(),
        Some(("abc".to_string(), "key".to_string()))
    );
    assert_eq!(
        state.root_ca_paths().map(|(c, _)| c),
        Some("/data/certs/rustnetlens-root-ca.pem".to_string())
    );
}
