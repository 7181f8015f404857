use rustnetlens_core::wire::{
    apply_mask, assemble_frame, decode_frame_start, extended_length_size, header_lists_token,
    is_valid_header_name, is_valid_header_value, is_valid_method, parse_connect_target,
    parse_host_port, parse_u16, payload_length, sendable_headers, websocket_accept,
};
use rustnetlens_core::model::HeaderPair;

#[test]
fn connect_targets_default_to_port_443() {
    assert_eq!(parse_connect_target("example.com:8443").unwrap(), ("example.com".to_string(), 8443));
    assert_eq!(parse_connect_target("example.com").unwrap(), ("example.com".to_string(), 443));
    assert_eq!(parse_connect_target("example.com:https").unwrap(), ("example.com".to_string(), 443));
    assert_eq!(parse_connect_target("a:1:2").unwrap(), ("a".to_string(), 443));
    assert_eq!(parse_connect_target("").unwrap(), (String::new(), 443));
}

#[test]
fn ports_parse_like_std() {
    assert_eq!(parse_u16("65535"), Some(65535));
    assert_eq!(parse_u16("65536"), None);
    assert_eq!(parse_u16("+80"), Some(80));
    assert_eq!(parse_u16(""), None);
    assert_eq!(parse_u16("8a"), None);
    assert_eq!(parse_u16("0080"), Some(80));
}

#[test]
fn host_header_ports_come_after_the_last_colon() {
    assert_eq!(parse_host_port(Some("example.com:8080")), Some(8080));
    assert_eq!(parse_host_port(Some("[::1]:443")), Some(443));
    assert_eq!(parse_host_port(Some("example.com")), None);
    assert_eq!(parse_host_port(Some("8080")), Some(8080));
    assert_eq!(parse_host_port(None), None);
}

#[test]
fn frame_headers_decode() {
    let start = decode_frame_start(0x81, 0x85);
    assert!(start.fin);
    assert_eq!(start.opcode, 1);
    assert!(start.masked);
    assert_eq!(start.short_len, 5);
    assert_eq!(extended_length_size(125), 0);
    assert_eq!(extended_length_size(126), 2);
    assert_eq!(extended_length_size(127), 8);
    assert_eq!(payload_length(5, &[]), 5);
    assert_eq!(payload_length(126, &[0x01, 0x00]), 256);
    assert_eq!(payload_length(127, &[0, 0, 0, 0, 0, 1, 0, 0]), 65536);
}

#[test]
fn masking_follows_rfc_6455_and_undoes_itself() {
    let key = [0x37, 0xfa, 0x21, 0x3d];
    let masked = [0x7f, 0x9f, 0x4d, 0x51, 0x58];
    let plain = apply_mask(&masked, &key);
    assert_eq!(plain, b"Hello".to_vec());
    assert_eq!(apply_mask(&plain, &key), masked.to_vec());
}

#[test]
fn frames_keep_their_raw_bytes() {
    let key = [0x37, 0xfa, 0x21, 0x3d];
    let frame = assemble_frame(&[0x81, 0x85], &[], Some(&key[..]), vec![0x7f, 0x9f, 0x4d, 0x51, 0x58]);
    assert_eq!(frame.opcode, 1);
    assert_eq!(frame.payload, b"Hello".to_vec());
    assert_eq!(frame.raw, vec![0x81, 0x85, 0x37, 0xfa, 0x21, 0x3d, 0x7f, 0x9f, 0x4d, 0x51, 0x58]);
    assert_eq!(frame.opcode_name(), "text");
    let close = assemble_frame(&[0x88, 0x00], &[], None, vec![]);
    assert_eq!(close.opcode_name(), "close");
    assert_eq!(close.raw, vec![0x88, 0x00]);
}

#[test]
fn websocket_accept_matches_rfc_6455() {
    assert_eq!(websocket_accept("dGhlIHNhbXBsZSBub25jZQ=="), "s3pPLMBiTxaQ9kYGzzhZRbK+xOo=");
}

#[test]
fn connection_headers_list_tokens() {
    assert!(header_lists_token("keep-alive, Upgrade", "upgrade"));
    assert!(header_lists_token("upgrade", "upgrade"));
    assert!(!header_lists_token("upgrade-insecure", "upgrade"));
    assert!(!header_lists_token("", "upgrade"));
    assert!(header_lists_token(",\tUPGRADE ,", "upgrade"));
}

#[test]
fn header_and_method_validity_follow_http() {
    assert!(is_valid_method("GET"));
    assert!(is_valid_method("PROPFIND"));
    assert!(!is_valid_method(""));
    assert!(!is_valid_method("GE T"));
    assert!(is_valid_header_name("X-Custom_1"));
    assert!(!is_valid_header_name("bad name"));
    assert!(!is_valid_header_name(""));
    assert!(is_valid_header_value("text/plain; q=0.5\t"));
    assert!(is_valid_header_value("caf\u{e9}"));
    assert!(!is_valid_header_value("line\nbreak"));
    let kept = sendable_headers(&[
        HeaderPair { name: "Ok".into(), value: "1".into() },
        HeaderPair { name: "Bad Name".into(), value: "2".into() },
        HeaderPair { name: "Also-Ok".into(), value: "x\u{7f}".into() },
        HeaderPair { name: "Last".into(), value: "3".into() },
    ]);
    let names: Vec<&str> = kept.iter().map(|h| h.name.as_str()).collect();
    assert_eq!(names, vec!["Ok", "Last"]);
}
