use chrono::{DateTime, Duration, Utc};
use hhm_api::json::integer_text;
use hhm_api::moment::Timestamp;
use hhm_api::table::KeySet;
use hhm_api::text::{
    ascii_lower, chars_of, contains_char, contains_control, decimal_text, is_control,
    is_white_space, len_in_bytes, list_entries, non_empty, split, trim, valid_bounded_text,
};

fn at(seconds: i64, nanos: u32) -> Timestamp {
    Timestamp::new(seconds, nanos).expect("in the calendar")
}

fn date(seconds: i64, nanos: u32) -> DateTime<Utc> {
    DateTime::from_timestamp(seconds, nanos).expect("in the calendar")
}

#[test]
fn the_calendar_has_an_end() {
    assert_eq!(DateTime::<Utc>::MIN_UTC.timestamp(), -8_334_601_228_800);
    assert_eq!(DateTime::<Utc>::MAX_UTC.timestamp(), 8_210_266_876_799);
    assert!(Timestamp::new(-8_334_601_228_800, 0).is_some());
    assert!(Timestamp::new(-8_334_601_228_801, 0).is_none());
    assert!(Timestamp::new(8_210_266_876_799, 999_999_999).is_some());
    assert!(Timestamp::new(8_210_266_876_800, 0).is_none());
    assert!(Timestamp::new(59, 1_999_999_999).is_some());
    assert!(Timestamp::new(58, 1_000_000_000).is_none());
    assert!(Timestamp::new(59, 2_000_000_000).is_none());
}

#[test]
fn moments_move_as_the_calendar_does() {
    for (seconds, nanos) in [
        (1_787_000_000, 5),
        (-1, 999_999_999),
        (59, 1_500_000_000),
        (1_483_228_799, 1_000_000_000),
    ] {
        let later = date(seconds, nanos) + Duration::seconds(60);
        let moved = at(seconds, nanos).plus_seconds(60);
        assert_eq!((moved.seconds(), moved.nanos()), (later.timestamp(), later.timestamp_subsec_nanos()));
        let earlier = date(seconds, nanos) - Duration::hours(24);
        let moved = at(seconds, nanos).minus_hours(24);
        assert_eq!(
            (moved.seconds(), moved.nanos()),
            (earlier.timestamp(), earlier.timestamp_subsec_nanos())
        );
    }
    assert_eq!(at(59, 1_500_000_000).plus_seconds(60), at(119, 500_000_000));
    assert_eq!(at(59, 1_500_000_000).minus_hours(1), at(-3_540, 500_000_000));
}

#[test]
fn moments_are_ordered_and_counted_in_minutes() {
    assert!(at(1, 0).is_before(&at(1, 1)));
    assert!(!at(1, 1).is_before(&at(1, 1)));
    assert!(!at(2, 0).is_before(&at(1, 5)));
    assert_eq!(at(119, 0).minute(), 1);
    assert_eq!(at(0, 0).minute(), 0);
    assert_eq!(at(-1, 0).minute(), -1);
    assert_eq!(at(-60, 0).minute(), -1);
    assert_eq!(at(-61, 0).minute(), -2);
    assert_eq!(at(-61, 0).minute(), date(-61, 0).timestamp().div_euclid(60));
}

#[test]
fn days_between_moments_are_those_of_the_calendar() {
    let day = 86_400;
    for (end, start) in [
        ((day, 0), (0, 0)),
        ((day, 1), (0, 0)),
        ((day - 1, 999_999_999), (0, 0)),
        ((day + 59, 0), (59, 1_000_000_000)),
        ((day + 60, 0), (59, 1_500_000_000)),
        ((day + 59, 1_500_000_000), (61, 0)),
        ((0, 0), (day, 0)),
    ] {
        let span = date(end.0, end.1) - date(start.0, start.1);
        assert_eq!(
            at(end.0, end.1).exceeds_days_since(&at(start.0, start.1), 1),
            span > Duration::days(1)
        );
    }
    assert!(!at(day, 0).exceeds_days_since(&at(0, 0), 1));
    assert!(at(day, 1).exceeds_days_since(&at(0, 0), 1));
}

#[test]
fn texts_are_cut_and_trimmed() {
    assert_eq!(trim(" \u{a0}\t a b \n\u{3000}"), "a b");
    assert_eq!(trim("   "), "");
    assert_eq!(trim("ñ "), "ñ".trim());
    assert_eq!(split("a|b||c", '|'), vec!["a", "b", "", "c"]);
    assert_eq!(split("", ','), vec![""]);
    assert_eq!(list_entries(" a, ,b ,,c"), vec!["a", "b", "c"]);
    assert!(list_entries("").is_empty());
    assert_eq!(non_empty(&Some(" x ".to_owned())), Some("x".to_owned()));
    assert_eq!(non_empty(&Some("\n".to_owned())), None);
    assert_eq!(non_empty(&None), None);
}

#[test]
fn characters_are_told_apart_as_in_the_standard() {
    for code in 0..0x3100u32 {
        if let Some(c) = char::from_u32(code) {
            assert_eq!(is_control(c), c.is_control());
            assert_eq!(is_white_space(c), c.is_whitespace());
        }
    }
    assert!(contains_char("a*ñ", 'ñ'));
    assert!(!contains_char("a*ñ", 'n'));
    assert!(contains_control("a\u{85}b"));
    assert!(!contains_control("añb"));
}

#[test]
fn texts_are_measured_and_written() {
    assert_eq!(len_in_bytes("añ"), 3);
    assert_eq!(chars_of("añ"), vec!['a', 'ñ']);
    assert_eq!(ascii_lower("CONFIRMED Ñ"), "confirmed Ñ");
    assert_eq!(decimal_text(0), "0");
    assert_eq!(decimal_text(4_000), "4000");
    assert_eq!(integer_text(-10), "-10");
    assert_eq!(integer_text(i64::MAX), i64::MAX.to_string());
    assert_eq!(integer_text(i64::MIN), i64::MIN.to_string());
    assert!(valid_bounded_text("ñ", 1));
    assert!(!valid_bounded_text("ññ", 1));
    assert!(!valid_bounded_text("", 1));
    assert!(!valid_bounded_text("\u{0}", 1));
}

#[test]
fn a_set_holds_each_key_once() {
    let mut keys: KeySet<u128> = KeySet::new();
    keys.insert(3);
    keys.insert(3);
    keys.insert(4);
    assert_eq!(keys.len(), 2);
    assert!(keys.contains(&3));
    assert!(!keys.contains(&5));
}
