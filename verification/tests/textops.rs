use habitcmd::dec_str;
use habitcmd::parse_u32_str;
use habitcmd::split_str;
use habitcmd::trim_str;

#[test]
fn trim_removes_leading_and_trailing_whitespace() {
    assert_eq!(trim_str("  add eat "), "add eat");
    assert_eq!(trim_str("\t x \n"), "x");
    assert_eq!(trim_str(""), "");
    assert_eq!(trim_str("   "), "");
    assert_eq!(trim_str("inner  spaces stay"), "inner  spaces stay");
}

#[test]
fn split_separates_on_every_single_space() {
    assert_eq!(split_str("add eat 2"), vec!["add", "eat", "2"]);
    assert_eq!(split_str("a  b"), vec!["a", "", "b"]);
    assert_eq!(split_str(""), vec![""]);
    assert_eq!(split_str(" x"), vec!["", "x"]);
    assert_eq!(split_str("x "), vec!["x", ""]);
}

#[test]
fn numeric_tokens_read_as_u32_like_std_parse() {
    assert_eq!(parse_u32_str("42"), Some(42));
    assert_eq!(parse_u32_str("0"), Some(0));
    assert_eq!(parse_u32_str("007"), Some(7));
    assert_eq!(parse_u32_str("+9"), Some(9));
    assert_eq!(parse_u32_str("4294967295"), Some(u32::MAX));
    assert_eq!(parse_u32_str("4294967296"), None);
    assert_eq!(parse_u32_str(""), None);
    assert_eq!(parse_u32_str("+"), None);
    assert_eq!(parse_u32_str("-1"), None);
    assert_eq!(parse_u32_str("12a"), None);
    assert_eq!(parse_u32_str("5K"), None);
}

#[test]
fn numeric_reading_matches_std_on_samples() {
    for s in ["0", "1", "+0", "10", "999999999", "4294967295", "4294967296", "x", "", "+", "-3"] {
        assert_eq!(parse_u32_str(s), s.parse::<u32>().ok());
    }
}

#[test]
fn decimal_rendering_matches_std_formatting() {
    for n in [0u32, 1, 9, 10, 99, 100, 210, 4294967295] {
        assert_eq!(dec_str(n), n.to_string());
    }
}
