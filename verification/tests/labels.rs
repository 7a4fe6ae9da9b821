use locus::fixed::from_int;
use locus::label::{decimals_for_step, format_log_label, format_scientific, format_tick};

#[test]
fn decimals_follow_the_step() {
    assert_eq!(decimals_for_step(from_int(1)), 0);
    assert_eq!(decimals_for_step(from_int(25)), 0);
    assert_eq!(decimals_for_step(500_000), 1);
    assert_eq!(decimals_for_step(100_000), 1);
    assert_eq!(decimals_for_step(250_000), 1);
    assert_eq!(decimals_for_step(10_000), 2);
    assert_eq!(decimals_for_step(2_000), 3);
    assert_eq!(decimals_for_step(1), 6);
    assert_eq!(decimals_for_step(0), 0);
    assert_eq!(decimals_for_step(-500_000), 0);
}

#[test]
fn tick_labels_drop_trailing_zeros() {
    assert_eq!(format_tick(1_500_000, 1), "1.5");
    assert_eq!(format_tick(1_500_000, 3), "1.5");
    assert_eq!(format_tick(1_000_000, 2), "1");
    assert_eq!(format_tick(120_000, 2), "0.12");
    assert_eq!(format_tick(100_000, 2), "0.1");
    assert_eq!(format_tick(10_050_000, 2), "10.05");
    assert_eq!(format_tick(1, 6), "0.000001");
    assert_eq!(format_tick(123_456_789, 6), "123.456789");
    assert_eq!(format_tick(123_456_789, 40), "123.456789");
}

#[test]
fn tick_labels_without_decimals_keep_their_zeros() {
    assert_eq!(format_tick(from_int(100), 0), "100");
    assert_eq!(format_tick(from_int(0), 0), "0");
    assert_eq!(format_tick(from_int(-20), 0), "-20");
}

#[test]
fn tick_labels_round_halves_to_even() {
    assert_eq!(format_tick(250_000, 1), "0.2");
    assert_eq!(format_tick(350_000, 1), "0.4");
    assert_eq!(format_tick(2_500_000, 0), "2");
    assert_eq!(format_tick(7_500_000, 0), "8");
    assert_eq!(format_tick(260_000, 1), "0.3");
    assert_eq!(format_tick(999_999, 0), "1");
    assert_eq!(format_tick(9_950_000, 1), "10");
}

#[test]
fn tick_labels_carry_the_sign() {
    assert_eq!(format_tick(-2_500_000, 1), "-2.5");
    assert_eq!(format_tick(-120_000, 2), "-0.12");
    assert_eq!(format_tick(i64::MIN, 6), "-9223372036854.775808");
    assert_eq!(format_tick(i64::MAX, 0), "9223372036855");
}

#[test]
fn a_value_that_rounds_to_zero_is_labelled_zero() {
    assert_eq!(format_tick(-400, 3), "0");
    assert_eq!(format_tick(400, 3), "0");
    assert_eq!(format_tick(-40_000, 1), "0");
    assert_eq!(format_tick(-1, 0), "0");
    assert_eq!(format_tick(0, 6), "0");
}

#[test]
fn log_labels_are_plain_from_a_hundredth_to_a_thousand() {
    assert_eq!(format_log_label(from_int(1)), "1");
    assert_eq!(format_log_label(from_int(10)), "10");
    assert_eq!(format_log_label(10_000), "0.01");
    assert_eq!(format_log_label(999_999_999), "999.999999");
    assert_eq!(format_log_label(15_625), "0.015625");
}

#[test]
fn log_labels_are_scientific_elsewhere() {
    assert_eq!(format_log_label(from_int(1_000)), "1e3");
    assert_eq!(format_log_label(1_000), "1e-3");
    assert_eq!(format_log_label(9_999), "1e-2");
    assert_eq!(format_log_label(1), "1e-6");
    assert_eq!(format_log_label(from_int(20_000)), "2e4");
    assert_eq!(format_log_label(0), "0e0");
    assert_eq!(format_log_label(from_int(-5)), "-5e0");
}

#[test]
fn scientific_labels_round_to_one_digit() {
    assert_eq!(format_scientific(from_int(2_500)), "2e3");
    assert_eq!(format_scientific(from_int(3_500)), "4e3");
    assert_eq!(format_scientific(from_int(2_600)), "3e3");
    assert_eq!(format_scientific(from_int(9_500)), "1e4");
    assert_eq!(format_scientific(from_int(9_499)), "9e3");
    assert_eq!(format_scientific(1_000_000), "1e0");
    assert_eq!(format_scientific(i64::MAX), "9e12");
    assert_eq!(format_scientific(i64::MIN), "-9e12");
    assert_eq!(format_scientific(-150_000), "-2e-1");
}
