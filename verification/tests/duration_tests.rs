use word_game::duration::format_item;
use word_game::duration::format_plural;
use word_game::duration::u64_to_string;
use word_game::duration::FormattedDuration;

#[test]
fn the_zero_duration_renders_as_zero_seconds() {
    assert_eq!(FormattedDuration::new(0, 0).display(), "0s");
}

#[test]
fn clock_parts_render_largest_first() {
    // one day, one hour, one minute, one second
    let d = FormattedDuration::new(90_061, 0);
    assert_eq!(d.display(), "1day1h1m1s");
}

#[test]
fn calendar_parts_pluralize() {
    let two_years = FormattedDuration::new(2 * 31_557_600, 0);
    assert_eq!(two_years.display(), "2years");
    let one_month = FormattedDuration::new(2_630_016, 0);
    assert_eq!(one_month.display(), "1month");
}

#[test]
fn subsecond_parts_render_in_order() {
    let d = FormattedDuration::new(0, 1_234_567);
    assert_eq!(d.display(), "1ms234us567ns");
}

#[test]
fn parts_break_a_duration_down() {
    let d = FormattedDuration::new(90_061, 1_234_567);
    let p = d.parts();
    assert_eq!(p.years, 0);
    assert_eq!(p.months, 0);
    assert_eq!(p.days, 1);
    assert_eq!(p.hours, 1);
    assert_eq!(p.minutes, 1);
    assert_eq!(p.seconds, 1);
    assert_eq!(p.millis, 1);
    assert_eq!(p.micros, 234);
    assert_eq!(p.nanos, 567);
}

#[test]
fn numbers_render_in_decimal() {
    assert_eq!(u64_to_string(0), "0");
    assert_eq!(u64_to_string(42), "42");
    assert_eq!(u64_to_string(9_876_543_210), "9876543210");
}

#[test]
fn zero_counts_render_as_nothing() {
    assert_eq!(format_plural(0, "year"), "");
    assert_eq!(format_item(0, "h"), "");
    assert_eq!(format_plural(1, "day"), "1day");
    assert_eq!(format_plural(3, "day"), "3days");
    assert_eq!(format_item(7, "m"), "7m");
}
