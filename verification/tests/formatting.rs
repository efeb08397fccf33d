use cargo_timings::config::{Detail, Order};
use cargo_timings::formaters::fmt_dur;
use cargo_timings::text::{chars_of, decimal_string, parse_unsigned_chars};

#[test]
fn fmt_dur_gives_tenths_of_seconds() {
    assert_eq!(fmt_dur(0), "0.0s");
    assert_eq!(fmt_dur(31_700_000_000), "31.7s");
    assert_eq!(fmt_dur(1_234_567_890_123), "1234.6s");
    assert_eq!(fmt_dur(149_000_000), "0.1s");
    assert_eq!(fmt_dur(50_900_001_525), "50.9s");
}

#[test]
fn fmt_dur_rounds_ties_to_even() {
    assert_eq!(fmt_dur(150_000_000), "0.2s");
    assert_eq!(fmt_dur(250_000_000), "0.2s");
}

#[test]
fn fmt_dur_of_long_durations() {
    assert_eq!(fmt_dur(100_000_000_000_000), "100000.0s");
    assert_eq!(fmt_dur(3_600_000_000_000), "3600.0s");
}

#[test]
fn decimal_notation() {
    assert_eq!(decimal_string(0), "0");
    assert_eq!(decimal_string(7), "7");
    assert_eq!(decimal_string(1024), "1024");
    assert_eq!(decimal_string(u64::MAX), "18446744073709551615");
}

#[test]
fn order_steps_and_names() {
    assert_eq!(Order::Ascending.next(), Order::Descending);
    assert_eq!(Order::Descending.next(), Order::Ascending);
    assert_eq!(Order::Ascending.prev(), Order::Descending);
    assert_eq!(Order::Descending.prev(), Order::Ascending);
    assert_eq!(Order::Ascending.to_str(), "Ascending");
    assert_eq!(Order::Descending.to_str(), "Descending");
    let _ = Detail::Full;
}

#[test]
fn order_toggle_next_then_prev_restores() {
    let mut o = Order::Descending;
    o.toggle_next();
    assert_eq!(o, Order::Ascending);
    o.toggle_prev();
    assert_eq!(o, Order::Descending);
    o.toggle_next();
    o.toggle_next();
    assert_eq!(o, Order::Descending);
}

#[test]
fn formatted_durations_keep_their_order() {
    let ds = [0u128, 49_999_999, 50_000_001, 31_740_000_000, 99_960_000_000, 1_234_567_890_123];
    let nums: Vec<f64> = ds.iter().map(|&d| fmt_dur(d).trim_end_matches('s').parse::<f64>().unwrap()).collect();
    for w in nums.windows(2) {
        assert!(w[0] <= w[1], "{nums:?}");
    }
}

#[test]
fn decimal_notation_reads_back() {
    for n in [0u64, 9, 10, 65_535, u64::MAX] {
        assert_eq!(parse_unsigned_chars(&chars_of(&decimal_string(n)), u64::MAX), Some(n));
    }
}
