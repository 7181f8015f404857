use rustnetlens_core::export::{export_bundle, export_file_name, export_suffix};
use rustnetlens_core::model::{CapturedSession, SessionKind};

#[test]
fn bundles_carry_their_format_and_time() {
    let bundle = export_bundle(vec![CapturedSession::with_identity(SessionKind::Http, 1, 0)], 77);
    assert_eq!(bundle.format, "rustnetlens-export-v1");
    assert_eq!(bundle.exported_at, 77);
    assert_eq!(bundle.sessions.len(), 1);
}

#[test]
fn export_files_are_named_by_time_and_suffix() {
    assert_eq!(export_file_name(0, "har").as_deref(), Some("rustnetlens-export-19700101-000000.har"));
    assert_eq!(
        export_file_name(1_700_000_000_999_999_999, "json").as_deref(),
        Some("rustnetlens-export-20231114-221320.json")
    );
    assert_eq!(export_file_name(-1, "json").as_deref(), Some("rustnetlens-export-19691231-235959.json"));
    assert_eq!(export_suffix("har"), "har");
    assert_eq!(export_suffix("json"), "json");
    assert_eq!(export_suffix("xml"), "json");
}
