use mchose_tray::logging::{log_line, needs_rotation, timestamp, Level};
use mchose_tray::text::{join, push_decimal, push_zero_padded, same_text, trim, wide};

#[test]
fn decimal_and_padding() {
    let mut s = String::from("n=");
    push_decimal(&mut s, 0);
    push_decimal(&mut s, 1234567890);
    assert_eq!(s, "n=01234567890");
    let mut p = String::new();
    push_zero_padded(&mut p, 7, 3);
    push_zero_padded(&mut p, 12345, 2);
    assert_eq!(p, "00712345");
}

#[test]
fn trim_matches_std() {
    for text in ["", "  a b  ", "\t\n x\r\n", "\u{85}y\u{205f}", "z", "\u{200b}q"] {
        assert_eq!(trim(text), text.trim(), "{text:?}");
    }
}

#[test]
fn join_and_compare() {
    assert_eq!(join(&vec![], "; "), "");
    assert_eq!(join(&vec!["a".to_string()], "; "), "a");
    assert_eq!(join(&vec!["a".to_string(), "b".to_string()], "; "), "a; b");
    assert!(same_text("é", "é"));
    assert!(!same_text("ab", "abc"));
}

#[test]
fn wide_matches_utf16() {
    for text in ["", "Local\\MchoseTray", "é—😀"] {
        let mut expected: Vec<u16> = text.encode_utf16().collect();
        expected.push(0);
        assert_eq!(wide(text), expected);
    }
}

#[test]
fn log_lines() {
    let stamp = timestamp(2026, 9, 3, 7, 5, 0);
    assert_eq!(stamp, "2026-09-03 07:05:00");
    assert_eq!(
        log_line(&stamp, Level::Warn, "timeout"),
        "2026-09-03 07:05:00 [WARN] timeout"
    );
    assert_eq!(Level::Info.as_str(), "INFO");
    assert_eq!(Level::Error.as_str(), "ERROR");
    assert!(!needs_rotation(256 * 1024));
    assert!(needs_rotation(256 * 1024 + 1));
}
