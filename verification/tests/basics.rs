//! Texts, numbers, identities and times.

use parselab::ids::{ExtractionId, PageId, TocEntryId};
use parselab::number::Real;
use parselab::stamp::Timestamp;
use parselab::text::{
    chars_of, comes_before, decimal_text, find_char, has_prefix, has_suffix, join, lines_of,
    lowercase, replace, rfind, string_of, trimmed, white_space,
};

#[test]
fn numbers_keep_their_shortest_text() {
    assert_eq!(Real::parse("1.50").unwrap().text(), "1.5");
    assert_eq!(Real::parse("1e3").unwrap().text(), "1000");
    assert_eq!(Real::parse("0.1").unwrap().text(), "0.1");
    assert!(Real::parse("one").is_none());
    assert_eq!(Real::from_whole(-7).text(), "-7");
    assert_eq!(Real::from_whole(1 << 53).text(), "9007199254740992");
    assert_eq!(Real::from_cents(3, 5).text(), "3.05");
    assert!(Real::parse("2.0").unwrap().same(&Real::from_whole(2)));
    assert!(Real::parse("-0").unwrap().same(&Real::from_whole(0)));
    assert!(!Real::parse("-1").unwrap().same(&Real::from_whole(1)));
    let none = Real::parse("NaN").unwrap();
    assert!(!none.same(&none.copy()));
    assert!(!none.same(&Real::from_whole(0)));
}

#[test]
fn identities_are_random() {
    let a = ExtractionId::new();
    assert_ne!(a, ExtractionId::new());
    assert_eq!((a.0 >> 76) & 0xf, 4);
    assert_eq!((PageId::new().0 >> 62) & 0x3, 2);
    assert_ne!(TocEntryId::default(), TocEntryId::default());
}

#[test]
fn times_are_written_and_read() {
    let t = |nanos| Timestamp::new(1_777_464_000, nanos).unwrap().to_rfc3339();
    assert_eq!(t(0), "2026-04-29T12:00:00Z");
    assert_eq!(t(999), "2026-04-29T12:00:00.000000999Z");
    assert_eq!(t(250_000_000), "2026-04-29T12:00:00.250Z");
    assert_eq!(Timestamp::parse_rfc3339("2026-04-29T14:00:00+02:00").map(|t| t.secs()), Ok(1_777_464_000));
    assert_eq!(Timestamp::parse_rfc3339("1970-01-01T00:00:00.5Z").map(|t| t.nanos()), Ok(500_000_000));
    assert!(Timestamp::parse_rfc3339("soon").is_err());
    assert!(Timestamp::new(0, 2_000_000_000).is_none());
    assert!(Timestamp::new(i64::MAX, 0).is_none());
    assert!(Timestamp::new(0, 1_500_000_000).is_none());
    assert!(Timestamp::new(59, 1_500_000_000).is_some());
    assert!(Timestamp::now().secs() > 1_700_000_000);
}

#[test]
fn texts_are_trimmed_split_and_searched() {
    let t = |s: &str| string_of(&trimmed(&chars_of(s)));
    assert_eq!(t("\u{a0} x\u{3000}\n"), "x");
    assert!(white_space('\u{2003}') && !white_space('\u{200b}'));
    let lines: Vec<String> = lines_of(&chars_of("a\r\nb\n\nc")).iter().map(|l| string_of(l)).collect();
    assert_eq!(lines, vec!["a", "b", "", "c"]);
    assert_eq!(find_char(&chars_of("héé"), 'é'), Some(1));
    assert_eq!(rfind(&chars_of("abab"), &chars_of("ab")), Some(2));
    assert!(has_prefix(&chars_of("abc"), &chars_of("ab")));
    assert!(has_suffix(&chars_of("abc"), &chars_of("bc")));
    assert_eq!(string_of(&replace(&chars_of("a_b"), '_', ' ')), "a b");
    assert_eq!(lowercase("AbÉ"), "abÉ");
}

#[test]
fn texts_are_ordered_and_joined() {
    assert!(comes_before("a", "b") && !comes_before("b", "a") && !comes_before("a", "a"));
    assert!(comes_before("a", "aa"));
    assert!(comes_before("z", "é"));
    assert_eq!(join(&vec!["a".to_string(), "b".to_string()], ", "), "a, b");
    assert_eq!(join(&Vec::new(), ", "), "");
    assert_eq!(decimal_text(u64::MAX), "18446744073709551615");
    assert_eq!(decimal_text(0), "0");
}
