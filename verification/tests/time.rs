use hoshino::binary64::Binary64;
use hoshino::collect::time::{day_progress_percent, from_input, TimeInput};
use jiff::Zoned;

fn number(value: f64) -> Option<Binary64> {
    Some(Binary64 { bits: value.to_bits() })
}

fn input(now: i64, start: i64, end: i64) -> TimeInput {
    TimeInput {
        local: Some("12:00:00".into()),
        date: Some("2024-02-29".into()),
        timezone_name: Some("Test/Zone".into()),
        timezone_offset_seconds: Some(0),
        instant_seconds: Some(now),
        day_start_seconds: Some(start),
        next_day_start_seconds: Some(end),
    }
}

#[test]
fn day_progress_uses_actual_dst_day_lengths_and_midnight() {
    assert_eq!(day_progress_percent(0, 0, 82_800), number(0.0));
    assert_eq!(day_progress_percent(41_400, 0, 82_800), number(50.0));
    assert_eq!(day_progress_percent(45_000, 0, 90_000), number(50.0));
    assert_eq!(day_progress_percent(86_400, 0, 86_400), number(100.0));
}

#[test]
fn leap_day_and_timezone_unavailability_are_preserved() {
    let mut value = input(43_200, 0, 86_400);
    value.timezone_name = None;
    value.timezone_offset_seconds = None;
    let facts = from_input(value);
    assert_eq!(facts.time.date.as_deref(), Some("2024-02-29"));
    assert_eq!(facts.time.timezone_name, None);
    assert_eq!(facts.time.timezone_offset_seconds, None);
    assert_eq!(facts.time.day_progress_percent, number(50.0));
}

#[test]
fn invalid_boundaries_are_unavailable() {
    assert_eq!(day_progress_percent(0, 1, 1), None);
    assert_eq!(day_progress_percent(-1, 0, 86_400), None);
    assert_eq!(day_progress_percent(86_401, 0, 86_400), None);
}

#[test]
fn zoned_boundaries_cover_real_dst_transition() {
    for (noon, length) in [
        ("2024-03-10 12:00[America/New_York]", 82_800),
        ("2024-11-03 12:00[America/New_York]", 90_000),
    ] {
        let noon: Zoned = noon.parse().unwrap();
        let start = noon.start_of_day().unwrap().timestamp().as_second();
        let end = noon.tomorrow().unwrap().start_of_day().unwrap().timestamp().as_second();
        assert_eq!(end - start, length);
        let now = noon.timestamp().as_second();
        let expected = (now - start) as f64 / length as f64 * 100.0;
        assert_eq!(day_progress_percent(now, start, end), number(expected));
    }
}

#[test]
fn day_progress_is_the_float_of_the_quotient() {
    for now in [1_i64, 7, 12_345, 33_333, 54_321, 77_777, 86_399] {
        let expected = now as f64 / 86_400_f64 * 100.0;
        assert_eq!(day_progress_percent(now, 0, 86_400), number(expected));
    }
    assert_eq!(day_progress_percent(i64::MAX, i64::MIN, 0), None);
    let mut unknown = input(1, 0, 2);
    unknown.day_start_seconds = None;
    assert_eq!(from_input(unknown).time.day_progress_percent, None);
}

#[test]
fn day_progress_keeps_to_a_hundred_on_days_of_any_length() {
    for day in [1_i64, 3, 86_399, 86_400, (1 << 53) + 1, i64::MAX - 1, i64::MAX] {
        assert_eq!(day_progress_percent(day, 0, day), number(100.0));
        let before = day_progress_percent(day - 1, 0, day).unwrap();
        let value = f64::from_bits(before.bits);
        assert!((0.0..=100.0).contains(&value));
    }
}
