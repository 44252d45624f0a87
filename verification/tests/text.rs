use apiary::paths::join;
use apiary::text::{
    contains, decimal_of, given_text, le, parse_u64, same, signed_decimal_of, starts_with,
    take_chars, to_ascii_lower, trim,
};
use apiary::time::{Moment, MAX_SECS, MIN_SECS};

#[test]
fn trimming_follows_unicode_white_space() {
    for s in ["", " \t\n", "  a b\u{a0}", "\u{2003}x\u{3000}", "\u{200b}y ", "\u{1c}z"] {
        assert_eq!(trim(s), s.trim(), "{s:?}");
    }
    assert_eq!(given_text(&Some(" a ".to_string())), Some("a".to_string()));
    assert_eq!(given_text(&Some("\u{85}".to_string())), None);
    assert_eq!(given_text(&None), None);
}

#[test]
fn texts_compare_as_their_bytes_do() {
    let texts = ["", "a", "ab", "b", "é", "ü", "\u{ffff}", "\u{10000}"];
    for a in texts {
        for b in texts {
            assert_eq!(le(a, b), a <= b, "{a:?} {b:?}");
            assert_eq!(same(a, b), a == b);
            assert_eq!(contains(a, b), a.contains(b));
            assert_eq!(starts_with(a, b), a.starts_with(b));
        }
    }
}

#[test]
fn only_ascii_capitals_are_made_small() {
    assert_eq!(to_ascii_lower("VoiceÉ-Z9"), "VoiceÉ-Z9".to_ascii_lowercase());
}

#[test]
fn numbers_are_written_and_read_back() {
    for n in [0, 7, 10, 99, 1_000, u64::MAX] {
        assert_eq!(decimal_of(n), n.to_string());
        assert_eq!(parse_u64(&decimal_of(n)), Some(n));
    }
    for n in [0, -1, 10, i64::MIN, i64::MAX] {
        assert_eq!(signed_decimal_of(n), n.to_string());
    }
    for s in ["", "+", "-1", "+5", "007", "18446744073709551616", "1 ", "٣", "12a"] {
        assert_eq!(parse_u64(s), s.parse::<u64>().ok(), "{s:?}");
    }
}

#[test]
fn taking_counts_characters() {
    assert_eq!(take_chars("héllo", 2), "hé");
    assert_eq!(take_chars("hé", 5), "hé");
}

#[test]
fn a_path_is_joined_with_one_slash() {
    assert_eq!(join("a", "b"), "a/b");
    assert_eq!(join("a/", "b"), "a/b");
    assert_eq!(join("", "b"), "b");
}

#[test]
fn moments_agree_with_the_calendar() {
    let m = Moment::new(1_755_000_000, 250_000_000).unwrap();
    assert_eq!(m.day(), "2025-08-12");
    assert_eq!(m.to_rfc3339(), "2025-08-12T12:00:00.250+00:00");
    assert_eq!(Moment::new(-1, 0).unwrap().day(), "1969-12-31");
    assert_eq!(Moment::new(86_399, 999_999_999).unwrap().day(), "1970-01-01");
    assert_eq!(Moment::new(86_400, 0).unwrap().day(), "1970-01-02");
    assert!(Moment::new(0, 1_000_000_000).is_none());
    assert!(Moment::new(MIN_SECS - 1, 0).is_none());
    assert!(Moment::new(MAX_SECS + 1, 0).is_none());
    assert!(Moment::new(MIN_SECS, 0).is_some());
    assert_eq!(chrono::DateTime::<chrono::Utc>::MIN_UTC.timestamp(), MIN_SECS);
    assert_eq!(chrono::DateTime::<chrono::Utc>::MAX_UTC.timestamp(), MAX_SECS);
}

#[test]
fn spans_are_exact_and_whole_seconds_go_towards_zero() {
    let a = Moment::new(10, 0).unwrap();
    let b = Moment::new(8, 500_000_000).unwrap();
    assert_eq!(a.since(b), 1_500_000_000);
    assert_eq!(a.secs_since(b), 1);
    assert_eq!(b.secs_since(a), -1);
    assert_eq!(b.plus(1_500_000_000), a);
    assert!(b.before(a) && !a.before(a));
    assert_eq!(a.max(b), a);
    assert!(a.reaches(0));
    assert!(!Moment::new(MAX_SECS, 0).unwrap().reaches(1_000_000_000));
}
