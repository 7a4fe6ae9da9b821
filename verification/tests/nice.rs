use locus::common::{get_spacing, linear_spacing, nice_number};
use locus::fixed::{decade_of, div_ceil, div_floor, div_round, from_int, order_of, pow10_of, SCALE};
use locus::line::{calculate_nice_range, Separation};

/// Raw value of a decimal number given in thousandths.
fn milli(n: i64) -> i64 {
    n * 1_000
}

#[test]
fn from_int_scales_by_a_million() {
    assert_eq!(from_int(0), 0);
    assert_eq!(from_int(3), 3_000_000);
    assert_eq!(from_int(-7), -7_000_000);
    assert_eq!(SCALE, 1_000_000);
}

#[test]
fn division_helpers_round_as_named() {
    assert_eq!(div_floor(7, 2), 3);
    assert_eq!(div_floor(-7, 2), -4);
    assert_eq!(div_floor(-8, 2), -4);
    assert_eq!(div_ceil(7, 2), 4);
    assert_eq!(div_ceil(-7, 2), -3);
    assert_eq!(div_ceil(8, 2), 4);
    assert_eq!(div_round(7, 2), 4);
    assert_eq!(div_round(-7, 2), -4);
    assert_eq!(div_round(5, 3), 2);
    assert_eq!(div_round(4, 3), 1);
    assert_eq!(div_round(-4, 3), -1);
    assert_eq!(div_round(0, 5), 0);
}

#[test]
fn decade_and_order_follow_the_digits() {
    assert_eq!(decade_of(1), 1);
    assert_eq!(decade_of(9), 1);
    assert_eq!(decade_of(10), 10);
    assert_eq!(decade_of(123_456), 100_000);
    assert_eq!(order_of(1), 0);
    assert_eq!(order_of(999), 2);
    assert_eq!(order_of(1_000), 3);
    assert_eq!(order_of(i64::MAX), 18);
    assert_eq!(pow10_of(0), 1);
    assert_eq!(pow10_of(6), 1_000_000);
    assert_eq!(pow10_of(18), 1_000_000_000_000_000_000);
}

#[test]
fn nice_number_rounds_to_one_two_five_ten() {
    assert_eq!(nice_number(milli(1_000), true), milli(1_000));
    assert_eq!(nice_number(milli(1_499), true), milli(1_000));
    assert_eq!(nice_number(milli(1_500), true), milli(2_000));
    assert_eq!(nice_number(milli(2_999), true), milli(2_000));
    assert_eq!(nice_number(milli(3_000), true), milli(5_000));
    assert_eq!(nice_number(milli(6_999), true), milli(5_000));
    assert_eq!(nice_number(milli(7_000), true), milli(10_000));
    assert_eq!(nice_number(milli(9_999), true), milli(10_000));
    assert_eq!(nice_number(milli(30), true), milli(50));
    assert_eq!(nice_number(milli(144), true), milli(100));
    assert_eq!(nice_number(milli(123_000), true), milli(100_000));
    assert_eq!(nice_number(1, true), 1);
}

#[test]
fn nice_number_without_rounding_takes_the_next_above() {
    assert_eq!(nice_number(milli(1_000), false), milli(1_000));
    assert_eq!(nice_number(milli(1_001), false), milli(2_000));
    assert_eq!(nice_number(milli(2_000), false), milli(2_000));
    assert_eq!(nice_number(milli(2_001), false), milli(5_000));
    assert_eq!(nice_number(milli(5_000), false), milli(5_000));
    assert_eq!(nice_number(milli(5_001), false), milli(10_000));
}

#[test]
fn nice_number_is_one_of_four_multiples_of_its_decade() {
    let mut v: i64 = 1;
    while v < 900_000_000_000_000_000 / 7 {
        let r = nice_number(v, true);
        let p = decade_of(v);
        assert!(r == p || r == 2 * p || r == 5 * p || r == 10 * p, "{v} -> {r}");
        assert!(p <= v && v < 10 * p);
        v = v * 7 + 3;
    }
}

#[test]
fn nice_range_pads_and_snaps() {
    let (lo, hi) = calculate_nice_range(from_int(0), from_int(10), milli(50), 10);
    assert_eq!(lo, from_int(-1));
    assert_eq!(hi, from_int(11));
}

#[test]
fn nice_range_of_a_single_point_is_widened_then_padded_and_snapped() {
    // 5 is widened to 4..6, padded to 3.9..6.1 and snapped to steps of 0.2
    let (lo, hi) = calculate_nice_range(from_int(5), from_int(5), milli(50), 10);
    assert_eq!(lo, milli(3_800));
    assert_eq!(hi, milli(6_200));
    // 2.5 is widened to 1.5..3.5 and snapped to steps of 2
    let (lo, hi) = calculate_nice_range(milli(2_500), milli(2_500), 0, 1);
    assert_eq!((lo, hi), (from_int(0), from_int(4)));
    // without padding and with steps of 0.2 the widened range stays
    let (lo, hi) = calculate_nice_range(from_int(5), from_int(5), 0, 10);
    assert_eq!((lo, hi), (from_int(4), from_int(6)));
}

#[test]
fn nice_range_contains_the_data_and_ends_on_steps() {
    let cases: [(i64, i64, i64, usize); 7] = [
        (milli(2_500), milli(2_500), 0, 1),
        (milli(-7_300), milli(-7_300), milli(330), 4),
        (milli(-3_700), milli(12_300), milli(100), 8),
        (milli(1), milli(2), 0, 10),
        (from_int(-1_000), from_int(-999), milli(1_000), 3),
        (0, 1, milli(50), 10),
        (from_int(17), from_int(4_200), milli(250), 0),
    ];
    for (min, max, pct, n) in cases {
        let (lo, hi) = calculate_nice_range(min, max, pct, n);
        assert!(lo <= min && max <= hi);
        let (min, max) = if min == max { (min - 1_000_000, max + 1_000_000) } else { (min, max) };
        let pad = (max - min) as i128 * pct as i128 / 1_000_000;
        let span = (max - min) as i128 + 2 * pad;
        let parts = if n < 1 { 1 } else { n as i128 };
        let rough = if span / parts < 1 { 1 } else { span / parts };
        let step = nice_number(rough as i64, true);
        assert_eq!(lo % step, 0);
        assert_eq!(hi % step, 0);
        assert!((min as i128 - pad) - (lo as i128) < step as i128);
        assert!((hi as i128) - (max as i128 + pad) < step as i128);
    }
}

#[test]
fn nice_range_step_is_never_below_one_raw_unit() {
    let (lo, hi) = calculate_nice_range(0, 3, 0, 10);
    assert_eq!((lo, hi), (0, 3));
}

#[test]
fn linear_spacing_snaps_both_ends() {
    assert_eq!(linear_spacing(from_int(0), from_int(10), 11), (from_int(0), from_int(10), from_int(1)));
    assert_eq!(
        linear_spacing(milli(300), milli(9_700), 11),
        (from_int(0), from_int(10), from_int(1))
    );
    assert_eq!(
        linear_spacing(from_int(0), from_int(10), 0),
        (from_int(0), from_int(10), from_int(10))
    );
}

#[test]
fn linear_spacing_widens_a_single_point() {
    assert_eq!(linear_spacing(from_int(5), from_int(5), 3), (from_int(4), from_int(6), from_int(1)));
    assert_eq!(linear_spacing(0, 0, 0), (from_int(-2), from_int(2), from_int(2)));
}

#[test]
fn linear_spacing_takes_bounds_in_either_order() {
    let (first, last, step) = linear_spacing(from_int(10), from_int(0), 11);
    assert_eq!(step, from_int(1));
    assert_eq!(first, from_int(0));
    assert_eq!(last, from_int(10));
    assert_eq!(linear_spacing(from_int(10), from_int(0), 6), (from_int(0), from_int(10), from_int(2)));
    assert_eq!(linear_spacing(from_int(10), from_int(0), 6), linear_spacing(from_int(0), from_int(10), 6));
    assert_eq!(linear_spacing(milli(9_700), milli(-300), 11), (from_int(-1), from_int(10), from_int(1)));
}

#[test]
fn get_spacing_prefers_the_explicit_value() {
    assert_eq!(get_spacing(from_int(10), Separation::Value(milli(2_500)), 10), milli(2_500));
    assert_eq!(get_spacing(from_int(10), Separation::Auto, 10), from_int(1));
    assert_eq!(get_spacing(from_int(10), Separation::Auto, 0), from_int(10));
    assert_eq!(get_spacing(from_int(12), Separation::Auto, 5), from_int(2));
    assert_eq!(get_spacing(0, Separation::Auto, 5), 1);
}
