use backend::addr::parse_server_addr;
use backend::report_file::{report_file_location, report_json_relpath, resolve_stored_file_path};
use backend::text::{is_whitespace, trim};

#[test]
fn parse_addr_with_port() {
    assert_eq!(parse_server_addr("10.0.0.5:9000"), ("10.0.0.5".to_string(), "9000".to_string()));
}

#[test]
fn parse_addr_without_port_uses_default() {
    assert_eq!(parse_server_addr("example.org"), ("example.org".to_string(), "8081".to_string()));
    assert_eq!(parse_server_addr(""), ("".to_string(), "8081".to_string()));
}

#[test]
fn parse_addr_splits_at_first_colon() {
    assert_eq!(parse_server_addr("a:b:c"), ("a".to_string(), "b:c".to_string()));
    assert_eq!(parse_server_addr(":80"), ("".to_string(), "80".to_string()));
    assert_eq!(parse_server_addr("host:"), ("host".to_string(), "".to_string()));
}

#[test]
fn trim_removes_surrounding_white_space() {
    assert_eq!(trim("  a b \t\n"), "a b");
    assert_eq!(trim("   "), "");
    assert_eq!(trim(""), "");
    assert_eq!(trim("x"), "x");
    assert_eq!(trim("\u{a0}y\u{3000}"), "y");
}

#[test]
fn relpath_is_hyphenated_uuid_json() {
    assert_eq!(
        report_json_relpath(0xa1a2a3a4b1b2c1c2d1d2d3d4d5d6d7d8),
        "a1a2a3a4-b1b2-c1c2-d1d2-d3d4d5d6d7d8.json"
    );
    assert_eq!(report_json_relpath(0), "00000000-0000-0000-0000-000000000000.json");
    assert_ne!(report_json_relpath(1), report_json_relpath(2));
}

#[test]
fn resolve_blank_is_empty() {
    assert_eq!(resolve_stored_file_path("reports", "   "), "");
    assert_eq!(resolve_stored_file_path("reports", ""), "");
}

#[test]
fn resolve_relative_goes_under_reports_dir() {
    assert_eq!(resolve_stored_file_path("reports", " abc.json "), "reports/abc.json");
    assert_eq!(resolve_stored_file_path("/var/reports/", "x.json"), "/var/reports/x.json");
}

#[test]
fn resolve_absolute_is_kept() {
    assert_eq!(resolve_stored_file_path("reports", "/data/old.json"), "/data/old.json");
}

#[test]
fn new_report_location() {
    let (rel, full) = report_file_location("reports", 0xa1a2a3a4b1b2c1c2d1d2d3d4d5d6d7d8);
    assert_eq!(rel, "a1a2a3a4-b1b2-c1c2-d1d2-d3d4d5d6d7d8.json");
    assert_eq!(full, "reports/a1a2a3a4-b1b2-c1c2-d1d2-d3d4d5d6d7d8.json");
}

#[test]
fn trimming_twice_is_trimming_once() {
    for s in ["  a  ", "\t\n", "b", " c d "] {
        assert_eq!(trim(trim(s)), trim(s));
        assert_eq!(
            resolve_stored_file_path("reports", trim(s)),
            resolve_stored_file_path("reports", s)
        );
    }
}

#[test]
fn address_rejoins() {
    for addr in ["h:1", "a:b:c", ":", "x:"] {
        let (host, port) = parse_server_addr(addr);
        assert_eq!(format!("{}:{}", host, port), addr);
        assert!(!host.contains(':'));
    }
}

#[test]
fn new_report_location_is_random_uuid_under_dir() {
    let (id1, rel1, full1) = backend::report_file::new_report_location("reports");
    let (id2, rel2, _) = backend::report_file::new_report_location("reports");
    assert_ne!(id1, id2);
    assert_ne!(rel1, rel2);
    assert_eq!((id1 >> 76) & 0xf, 4);
    assert_eq!((id1 >> 62) & 0x3, 2);
    assert_eq!(rel1, report_json_relpath(id1));
    assert_eq!(rel1.as_bytes()[14], b'4');
    assert_eq!(full1, format!("reports/{}", rel1));
    assert_eq!(resolve_stored_file_path("reports", &rel1), full1);
}

#[test]
fn white_space_literals_trim_to_nothing() {
    assert_eq!(trim(" \t\n"), "");
    assert_eq!(trim("\u{85}\u{1680}\u{2000}x\u{200a}\u{2028}\u{2029}\u{202f}\u{205f}"), "x");
    assert_eq!(trim("\u{200b}x"), "\u{200b}x");
}

#[test]
fn whitespace_matches_std() {
    for n in 0u32..0x3100 {
        if let Some(c) = char::from_u32(n) {
            assert_eq!(is_whitespace(c), c.is_whitespace(), "{:#x}", n);
        }
    }
}
