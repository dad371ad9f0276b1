use wingmate::clock::{current_clock, now_local_clock, now_offset_clock, parse_i8, ClockTime};

fn in_range(t: &ClockTime) {
    assert!(t.minute < 60, "minute {}", t.minute);
    assert!(t.hour < 24, "hour {}", t.hour);
    assert!((1..=31).contains(&t.day), "day {}", t.day);
    assert!((1..=12).contains(&t.month), "month {}", t.month);
    assert!(t.weekday < 7, "weekday {}", t.weekday);
    // A reading taken while this test runs lies well past 2020-01-01.
    assert!(t.epoch_seconds > 1_577_836_800, "epoch {}", t.epoch_seconds);
}

#[test]
fn parse_i8_accepts_signed_literals() {
    assert_eq!(parse_i8("0"), Some(0));
    assert_eq!(parse_i8("5"), Some(5));
    assert_eq!(parse_i8("+7"), Some(7));
    assert_eq!(parse_i8("-3"), Some(-3));
    assert_eq!(parse_i8("127"), Some(127));
    assert_eq!(parse_i8("-128"), Some(-128));
    assert_eq!(parse_i8("007"), Some(7));
}

#[test]
fn parse_i8_rejects_out_of_range_and_garbage() {
    assert_eq!(parse_i8("128"), None);
    assert_eq!(parse_i8("-129"), None);
    assert_eq!(parse_i8(""), None);
    assert_eq!(parse_i8("+"), None);
    assert_eq!(parse_i8("-"), None);
    assert_eq!(parse_i8("1.5"), None);
    assert_eq!(parse_i8("two"), None);
    assert_eq!(parse_i8("300"), None);
}

#[test]
fn fixed_offset_reading_is_well_formed() {
    let t = now_offset_clock(0).expect("offset zero is always valid");
    in_range(&t);
}

#[test]
fn offset_shifts_the_hour() {
    let utc = now_offset_clock(0).expect("reading");
    let shifted = now_offset_clock(3).expect("reading");
    // Hours differ by 3 modulo 24, give or take a midnight crossing
    // during the two calls; the epoch stays within a second or two.
    assert!((shifted.epoch_seconds - utc.epoch_seconds).abs() < 10);
    let want = (utc.hour as i32 + 3) % 24;
    let got = shifted.hour as i32;
    assert!(got == want || (got - want).rem_euclid(24) <= 1, "utc {} shifted {}", utc.hour, got);
}

#[test]
fn local_reading_is_well_formed_when_available() {
    if let Some(t) = now_local_clock() {
        in_range(&t);
    }
}

#[test]
fn current_clock_prefers_a_parsable_offset() {
    let t = current_clock(Some("0")).expect("offset zero reading");
    in_range(&t);
    let utc = now_offset_clock(0).expect("reading");
    assert!((t.epoch_seconds - utc.epoch_seconds).abs() < 10);
}

#[test]
fn current_clock_falls_back_on_an_unparsable_offset() {
    // With no parsable offset the local clock is consulted; it may be
    // unavailable in a stripped environment, but a reading it does give
    // is well-formed.
    if let Some(t) = current_clock(Some("not-a-number")) {
        in_range(&t);
    }
    if let Some(t) = current_clock(None) {
        in_range(&t);
    }
}
