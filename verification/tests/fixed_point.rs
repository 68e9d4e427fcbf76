use technicals::bar::Bar;
use technicals::bar::Source;
use technicals::fixed::clamp;
use technicals::fixed::clamp_series;
use technicals::fixed::div_floor;
use technicals::fixed::ema_next;
use technicals::fixed::isqrt;
use technicals::fixed::max_of;
use technicals::fixed::series_in_range;
use technicals::fixed::true_range_of;
use technicals::fixed::value_in_range;
use technicals::fixed::wilder_next;
use technicals::fixed::HUNDRED;
use technicals::fixed::SPAN_MAX;
use technicals::fixed::UNIT;
use technicals::fixed::VALUE_MAX;
use technicals::series::copied;
use technicals::series::duplicate;
use technicals::series::gains_and_losses;
use technicals::series::shifted;
use technicals::series::sum_of;
use technicals::series::true_ranges_of;
use technicals::series::wilder_average;

#[test]
fn constants_agree() {
    assert_eq!(HUNDRED, 100 * UNIT);
    assert_eq!(SPAN_MAX, 2 * VALUE_MAX);
}

#[test]
fn quotient_rounds_down_for_every_sign() {
    assert_eq!(div_floor(7, 2), 3);
    assert_eq!(div_floor(-7, 2), -4);
    assert_eq!(div_floor(7, -2), -4);
    assert_eq!(div_floor(-7, -2), 3);
    assert_eq!(div_floor(-8, 2), -4);
    assert_eq!(div_floor(0, -5), 0);
    assert_eq!(div_floor(-1, 3), -1);
}

#[test]
fn square_root_rounds_down() {
    assert_eq!(isqrt(0), 0);
    assert_eq!(isqrt(-9), 0);
    assert_eq!(isqrt(1), 1);
    assert_eq!(isqrt(15), 3);
    assert_eq!(isqrt(16), 4);
    assert_eq!(isqrt(1_000_000_000_000_000_000_000_000_000_005), 1_000_000_000_000_000);
    assert_eq!(isqrt(i128::MAX), 13_043_817_825_332_782_212);
}

#[test]
fn larger_of_two() {
    assert_eq!(max_of(3, -4), 3);
    assert_eq!(max_of(-4, 3), 3);
    assert_eq!(max_of(5, 5), 5);
}

#[test]
fn range_checks() {
    assert!(value_in_range(VALUE_MAX));
    assert!(value_in_range(-VALUE_MAX));
    assert!(!value_in_range(VALUE_MAX + 1));
    assert!(!value_in_range(-VALUE_MAX - 1));
    assert!(series_in_range(&[]));
    assert!(series_in_range(&[0, VALUE_MAX, -VALUE_MAX]));
    assert!(!series_in_range(&[0, VALUE_MAX + 1, 0]));
}

#[test]
fn clamping_to_the_admissible_range() {
    assert_eq!(clamp(0), 0);
    assert_eq!(clamp(VALUE_MAX), VALUE_MAX);
    assert_eq!(clamp(VALUE_MAX + 1), VALUE_MAX);
    assert_eq!(clamp(i64::MAX), VALUE_MAX);
    assert_eq!(clamp(-VALUE_MAX - 1), -VALUE_MAX);
    assert_eq!(clamp(i64::MIN), -VALUE_MAX);
    assert_eq!(clamp_series(&[5, i64::MAX, -7, i64::MIN]), vec![5, VALUE_MAX, -7, -VALUE_MAX]);
    assert_eq!(clamp_series(&[]), Vec::<i64>::new());
    let wild = Bar::new(i64::MIN, i64::MAX, 3, VALUE_MAX + 5, -VALUE_MAX - 5, 9);
    assert_eq!(
        wild.admitted(),
        Bar::new(-VALUE_MAX, VALUE_MAX, 3, VALUE_MAX, -VALUE_MAX, 9)
    );
    assert!(wild.admitted().is_in_range());
}

#[test]
fn true_range_takes_the_widest_distance() {
    assert_eq!(true_range_of(10 * UNIT, 8 * UNIT, 12 * UNIT), 4 * UNIT);
    assert_eq!(true_range_of(10 * UNIT, 8 * UNIT, 9 * UNIT), 2 * UNIT);
    assert_eq!(true_range_of(10 * UNIT, 8 * UNIT, 5 * UNIT), 5 * UNIT);
    // An inverted bar still has a range that is not negative.
    assert_eq!(true_range_of(8 * UNIT, 10 * UNIT, 9 * UNIT), UNIT);
}

#[test]
fn wilder_step_is_exact() {
    assert_eq!(wilder_next(10, 24, 14), 11);
    assert_eq!(wilder_next(100, 0, 3), 66);
    assert_eq!(wilder_next(7, 7, 5), 7);
    assert_eq!(wilder_next(5, 9, 1), 9);
    assert_eq!(wilder_next(-10, -3, 4), -9);
}

#[test]
fn ema_step_is_exact() {
    assert_eq!(ema_next(100, 130, 5), 110);
    assert_eq!(ema_next(100, 70, 5), 90);
    assert_eq!(ema_next(100, 99, 5), 99);
    assert_eq!(ema_next(100, 130, 1), 130);
    assert_eq!(ema_next(0, 10, 3), 5);
}

#[test]
fn sums_and_wilder_average() {
    let xs = [4, 6, 8, 10, 20];
    assert_eq!(sum_of(&xs, 0, 5), 48);
    assert_eq!(sum_of(&xs, 1, 3), 14);
    assert_eq!(sum_of(&xs, 2, 2), 0);
    // seed (4 + 6 + 8) / 3 = 6, then (6 * 2 + 10) / 3 = 7, then (7 * 2 + 20) / 3 = 11
    assert_eq!(wilder_average(&xs, 3), 11);
    assert_eq!(wilder_average(&xs, 5), 9);
}

#[test]
fn derived_series() {
    let closes = [10, 12, 11, 11, 15];
    let (up, down) = gains_and_losses(&closes);
    assert_eq!(up, vec![2, 0, 0, 4]);
    assert_eq!(down, vec![0, 1, 0, 0]);
    let (none_up, none_down) = gains_and_losses(&[]);
    assert!(none_up.is_empty() && none_down.is_empty());
    let highs = [11, 13, 12, 12, 16];
    let lows = [9, 11, 10, 10, 12];
    assert_eq!(true_ranges_of(&highs, &lows, &closes), vec![3, 2, 2, 5]);
}

#[test]
fn copies_and_shifts() {
    let xs = [1i64, 2, 3, 4];
    assert_eq!(copied(&xs, 1, 3), vec![2, 3]);
    assert_eq!(copied(&xs, 2, 2), Vec::<i64>::new());
    let all = copied(&xs, 0, 4);
    assert_eq!(duplicate(&all), vec![1, 2, 3, 4]);
    assert_eq!(shifted(&all, 1, 9), vec![2, 3, 4, 9]);
    assert_eq!(shifted(&all, 0, 9), vec![1, 2, 3, 4, 9]);
    assert_eq!(shifted(&all, 4, 9), vec![9]);
}

#[test]
fn bar_accessors() {
    let bar = Bar::new(1, 5, -4, 2, 7, 99);
    assert_eq!(bar, Bar { open: 1, high: 5, low: -4, close: 2, volume: 7, timestamp: 99 });
    assert_eq!(bar.get(Source::Close), 2);
    assert_eq!(bar.get(Source::High), 5);
    assert_eq!(bar.get(Source::Low), -4);
    assert_eq!(bar.get(Source::Volume), 7);
    assert!(bar.is_in_range());
    assert!(bar.is_ordered());
    assert_eq!(bar.typical_price(), 1);
    // (-5 - 4 + 2) / 3 rounds down to -3
    assert_eq!(Bar::new(0, -5, -4, 2, 0, 0).typical_price(), -3);
    assert!(!Bar::new(0, 1, 2, 3, 0, 0).is_ordered());
    assert!(!Bar::new(0, VALUE_MAX + 1, 0, 0, 0, 0).is_in_range());
    assert!(!Bar::new(0, 0, 0, 0, -VALUE_MAX - 1, 0).is_in_range());
}
