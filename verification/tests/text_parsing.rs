use shadow_os::control::ControlRequest;
use shadow_os::text::{parse_i32, parse_u32, parse_u64, split_whitespace, trim};

#[test]
fn trim_drops_unicode_white_space_at_both_ends() {
    assert_eq!(trim("  a b \t\n"), "a b");
    assert_eq!(trim("\u{3000}x\u{a0}"), "x");
    assert_eq!(trim("   "), "");
}

#[test]
fn integers_parse_like_from_str() {
    assert_eq!(parse_u32("+12"), Some(12));
    assert_eq!(parse_u32("4294967296"), None);
    assert_eq!(parse_i32("-2147483648"), Some(i32::MIN));
    assert_eq!(parse_i32("-"), None);
    assert_eq!(parse_u64(""), None);
    assert_eq!(split_whitespace(" a  b\tc "), vec!["a", "b", "c"]);
}

#[test]
fn control_lines_round_trip() {
    for line in ["home\n", "switcher\n", "launch counter\n"] {
        let request = ControlRequest::parse(line).expect("known request");
        assert_eq!(request.encode(), line);
    }
    assert!(ControlRequest::parse("launch nothing").is_none());
    assert!(ControlRequest::parse("home now").is_none());
}
