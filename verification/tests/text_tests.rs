use blabbergraph::model::routing::channel_suffix;
use blabbergraph::text::{decimal_string, joined, parse_u32_text, same_text, starts_with, text_le_exec};

#[test]
fn channel_suffix_takes_text_after_last_underscore() {
    assert_eq!(channel_suffix("playback_FL"), "FL");
    assert_eq!(channel_suffix("monitor_playback_FR"), "FR");
}

#[test]
fn channel_suffix_without_underscore_is_whole_name() {
    assert_eq!(channel_suffix("MONO"), "MONO");
    assert_eq!(channel_suffix(""), "");
}

#[test]
fn channel_suffix_of_trailing_underscore_is_empty() {
    assert_eq!(channel_suffix("capture_"), "");
}

#[test]
fn decimal_rendering() {
    assert_eq!(decimal_string(0), "0");
    assert_eq!(decimal_string(7), "7");
    assert_eq!(decimal_string(42), "42");
    assert_eq!(decimal_string(4294967295), "4294967295");
}

#[test]
fn parse_accepts_digits_and_one_plus() {
    assert_eq!(parse_u32_text("0"), Some(0));
    assert_eq!(parse_u32_text("+5"), Some(5));
    assert_eq!(parse_u32_text("007"), Some(7));
    assert_eq!(parse_u32_text("4294967295"), Some(4294967295));
}

#[test]
fn parse_rejects_malformed_text() {
    assert_eq!(parse_u32_text(""), None);
    assert_eq!(parse_u32_text("+"), None);
    assert_eq!(parse_u32_text("++1"), None);
    assert_eq!(parse_u32_text("-1"), None);
    assert_eq!(parse_u32_text("12a"), None);
    assert_eq!(parse_u32_text(" 1"), None);
    assert_eq!(parse_u32_text("4294967296"), None);
}

#[test]
fn parse_agrees_with_std() {
    for s in ["0", "+5", "007", "99999999999", "12a", "", "+", "4294967295", "4294967296", "-0"] {
        assert_eq!(parse_u32_text(s), s.parse::<u32>().ok(), "{}", s);
    }
}

#[test]
fn parse_reads_back_decimal() {
    for n in [0u32, 1, 9, 10, 99, 100, 65535, 4294967295] {
        assert_eq!(parse_u32_text(&decimal_string(n)), Some(n));
    }
}

#[test]
fn text_comparisons() {
    assert!(same_text("abc", "abc"));
    assert!(!same_text("abc", "abd"));
    assert!(starts_with("blabbergraph.bus.A1", "blabbergraph."));
    assert!(!starts_with("blabber", "blabbergraph."));
    assert!(text_le_exec("a", "b"));
    assert!(text_le_exec("ab", "abc"));
    assert!(!text_le_exec("b", "a"));
    assert!(text_le_exec("", ""));
    assert_eq!(joined("blabbergraph.peak.", "12"), "blabbergraph.peak.12");
}

#[test]
fn text_order_agrees_with_std() {
    let words = ["", "a", "ab", "b", "B", "ba", "Zeta", "alpha"];
    for a in words {
        for b in words {
            assert_eq!(text_le_exec(a, b), a <= b, "{} {}", a, b);
        }
    }
}
