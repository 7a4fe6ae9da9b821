use locus::common::log_spacing;
use locus::fixed::from_int;
use locus::line::Separation;
use locus::power::power_window;
use locus::ticks::{dedup_ticks, sort_ticks, Scale, Tick, TickSet, TickSpec};

fn linear(max_ticks: usize, separation: Separation) -> TickSpec {
    TickSpec { scale: Scale::Linear, max_ticks, separation }
}

fn log(base: i64, include_minor: bool) -> TickSpec {
    TickSpec { scale: Scale::Log { base, include_minor }, max_ticks: 10, separation: Separation::Auto }
}

fn symlog(base: i64, lin_threshold: i64, include_minor: bool, max_ticks: usize) -> TickSpec {
    TickSpec {
        scale: Scale::SymLog { base, lin_threshold, include_minor },
        max_ticks,
        separation: Separation::Auto,
    }
}

fn values(set: &TickSet) -> Vec<i64> {
    set.ticks.iter().map(|t| t.value).collect()
}

fn labels(set: &TickSet) -> Vec<String> {
    set.ticks.iter().map(|t| t.label.clone()).collect()
}

fn majors(set: &TickSet) -> Vec<bool> {
    set.ticks.iter().map(|t| t.major).collect()
}

fn tick(value: i64, label: &str, major: bool) -> Tick {
    Tick { value, label: label.to_string(), major }
}

#[test]
fn linear_ticks_step_through_the_range() {
    let set = TickSet::generate_ticks(from_int(0), from_int(10), linear(11, Separation::Auto));
    assert_eq!(set.step, Some(from_int(1)));
    assert_eq!(values(&set), (0..=10).map(from_int).collect::<Vec<i64>>());
    assert_eq!(labels(&set), vec!["0", "1", "2", "3", "4", "5", "6", "7", "8", "9", "10"]);
    assert!(set.ticks.iter().all(|t| t.major));
}

#[test]
fn linear_ticks_with_a_fractional_step_show_decimals() {
    let set = TickSet::generate_ticks(from_int(0), from_int(1), linear(6, Separation::Auto));
    assert_eq!(set.step, Some(200_000));
    assert_eq!(values(&set), vec![0, 200_000, 400_000, 600_000, 800_000, 1_000_000]);
    assert_eq!(labels(&set), vec!["0", "0.2", "0.4", "0.6", "0.8", "1"]);
}

#[test]
fn linear_ticks_cross_zero_without_a_signed_zero() {
    let set = TickSet::generate_ticks(-1_000_000, 1_000_000, linear(5, Separation::Auto));
    assert_eq!(set.step, Some(500_000));
    assert_eq!(values(&set), vec![-1_000_000, -500_000, 0, 500_000, 1_000_000]);
    assert_eq!(labels(&set), vec!["-1", "-0.5", "0", "0.5", "1"]);
}

#[test]
fn linear_ticks_differ_by_the_step_and_bracket_the_range() {
    let cases: [(i64, i64, usize); 5] = [
        (-3_700_000, 12_300_000, 8),
        (1_000, 2_000, 10),
        (from_int(-1_000), from_int(-999), 3),
        (5_000_000, 5_000_000, 4),
        (123_456, 987_654_321, 15),
    ];
    for (min, max, n) in cases {
        let set = TickSet::generate_ticks(min, max, linear(n, Separation::Auto));
        let step = set.step.unwrap();
        assert!(!set.ticks.is_empty());
        for pair in set.ticks.windows(2) {
            assert_eq!(pair[1].value - pair[0].value, step);
        }
        assert!(set.ticks.first().unwrap().value <= min);
        assert!(set.ticks.last().unwrap().value >= max);
        let turned = TickSet::generate_ticks(max, min, linear(n, Separation::Auto));
        assert_eq!(values(&turned), values(&set));
        assert_eq!(turned.step, set.step);
    }
}

#[test]
fn linear_ticks_take_bounds_in_either_order() {
    let set = TickSet::generate_ticks(from_int(10), from_int(0), linear(6, Separation::Auto));
    assert_eq!(set.step, Some(from_int(2)));
    assert_eq!(values(&set), vec![0, 2, 4, 6, 8, 10].into_iter().map(from_int).collect::<Vec<i64>>());
    assert_eq!(labels(&set), vec!["0", "2", "4", "6", "8", "10"]);
    let other = TickSet::generate_ticks(from_int(0), from_int(10), linear(6, Separation::Auto));
    assert_eq!(values(&set), values(&other));
    let set = TickSet::generate_ticks(9_700_000, -300_000, linear(11, Separation::Value(2_500_000)));
    assert_eq!(values(&set), vec![0, 2_500_000, 5_000_000, 7_500_000, 10_000_000]);
}

#[test]
fn linear_ticks_of_a_single_point_span_one_unit_on_either_side() {
    let set = TickSet::generate_ticks(from_int(5), from_int(5), linear(3, Separation::Auto));
    assert_eq!(set.step, Some(from_int(1)));
    assert_eq!(values(&set), vec![from_int(4), from_int(5), from_int(6)]);
}

#[test]
fn an_explicit_positive_separation_sets_the_step() {
    let set = TickSet::generate_ticks(
        from_int(0),
        from_int(10),
        linear(11, Separation::Value(2_500_000)),
    );
    assert_eq!(set.step, Some(2_500_000));
    assert_eq!(values(&set), vec![0, 2_500_000, 5_000_000, 7_500_000, 10_000_000]);
    assert_eq!(labels(&set), vec!["0", "2", "5", "8", "10"]);
}

#[test]
fn an_explicit_separation_may_leave_the_range_unbracketed() {
    let set =
        TickSet::generate_ticks(700_000, 2_000_000, linear(10, Separation::Value(1_000_000)));
    assert_eq!(values(&set), vec![1_000_000, 2_000_000]);
}

#[test]
fn a_separation_that_is_not_positive_is_ignored() {
    let auto = TickSet::generate_ticks(from_int(0), from_int(10), linear(11, Separation::Auto));
    for v in [0, -1_000_000] {
        let set = TickSet::generate_ticks(from_int(0), from_int(10), linear(11, Separation::Value(v)));
        assert_eq!(set.step, auto.step);
        assert_eq!(values(&set), values(&auto));
    }
}

#[test]
fn log_ticks_are_the_powers_within_the_half_open_range() {
    let set = TickSet::generate_ticks(from_int(1), from_int(1_000), log(from_int(10), false));
    assert_eq!(set.step, None);
    assert_eq!(values(&set), vec![from_int(1), from_int(10), from_int(100)]);
    assert_eq!(labels(&set), vec!["1", "10", "100"]);
    assert_eq!(majors(&set), vec![true, true, true]);
}

#[test]
fn log_ticks_are_empty_for_a_base_up_to_one() {
    for base in [from_int(1), 999_999, 0, from_int(-10)] {
        let set = TickSet::generate_ticks(from_int(1), from_int(1_000), log(base, true));
        assert_eq!(set.step, None);
        assert!(set.ticks.is_empty());
        assert!(log_spacing(from_int(1), from_int(1_000), base, true).is_none());
    }
}

#[test]
fn log_ticks_are_empty_where_the_larger_bound_is_not_positive() {
    for (min, max) in [(from_int(-5), 0), (from_int(-100), from_int(-1)), (0, 0)] {
        let set = TickSet::generate_ticks(min, max, log(from_int(10), true));
        assert!(set.ticks.is_empty());
        assert!(log_spacing(min, max, from_int(10), false).is_none());
    }
}

#[test]
fn log_ticks_with_minor_ticks_are_in_ascending_order() {
    let set = TickSet::generate_ticks(from_int(1), from_int(1_000), log(from_int(10), true));
    let mut want: Vec<i64> = Vec::new();
    for decade in [1, 10, 100] {
        for m in 1..10 {
            want.push(from_int(m * decade));
        }
    }
    assert_eq!(values(&set), want);
    for t in &set.ticks {
        let is_power = [from_int(1), from_int(10), from_int(100)].contains(&t.value);
        assert_eq!(t.major, is_power);
        assert_eq!(t.label.is_empty(), !is_power);
    }
}

#[test]
fn log_ticks_reach_below_one() {
    let set = TickSet::generate_ticks(1_000, from_int(1), log(from_int(10), false));
    assert_eq!(values(&set), vec![1_000, 10_000, 100_000]);
    assert_eq!(labels(&set), vec!["1e-3", "0.01", "0.1"]);
}

#[test]
fn log_ticks_start_at_the_smallest_positive_value_for_a_lower_bound_of_zero() {
    let set = TickSet::generate_ticks(0, from_int(1), log(from_int(10), false));
    assert_eq!(values(&set), vec![1, 10, 100, 1_000, 10_000, 100_000]);
    let set = TickSet::generate_ticks(from_int(-3), 30, log(from_int(2), false));
    assert_eq!(values(&set), vec![1, 3, 7, 15]);
}

#[test]
fn log_ticks_take_bounds_in_either_order() {
    let a = TickSet::generate_ticks(from_int(1_000), from_int(1), log(from_int(10), true));
    let b = TickSet::generate_ticks(from_int(1), from_int(1_000), log(from_int(10), true));
    assert_eq!(values(&a), values(&b));
    assert_eq!(labels(&a), labels(&b));
}

#[test]
fn log_ticks_of_base_two_have_no_minor_ticks() {
    let set = TickSet::generate_ticks(from_int(1), from_int(20), log(from_int(2), true));
    assert_eq!(values(&set), vec![from_int(1), from_int(2), from_int(4), from_int(8), from_int(16)]);
    assert!(set.ticks.iter().all(|t| t.major));
}

#[test]
fn log_ticks_of_a_fractional_base_use_its_whole_multiples() {
    // base 3.5: the only minor multiplier is 2
    let set = TickSet::generate_ticks(from_int(1), from_int(10), log(3_500_000, true));
    assert_eq!(values(&set), vec![1_000_000, 2_000_000, 3_500_000, 7_000_000]);
    assert_eq!(majors(&set), vec![true, false, true, false]);
}

#[test]
fn log_spacing_reports_the_clamped_bounds() {
    let (low, high, major, minor) = log_spacing(from_int(-2), from_int(50), from_int(10), false).unwrap();
    assert_eq!(low, 1);
    assert_eq!(high, from_int(50));
    assert_eq!(major.last(), Some(&from_int(10)));
    assert_eq!(major.first(), Some(&1));
    assert!(minor.is_none());
    let (_, _, _, minor) = log_spacing(from_int(1), from_int(50), from_int(10), true).unwrap();
    assert_eq!(
        minor.unwrap(),
        [2, 3, 4, 5, 6, 7, 8, 9, 20, 30, 40].iter().map(|m| from_int(*m)).collect::<Vec<i64>>()
    );
}

#[test]
fn power_window_spans_floor_to_ceiling() {
    let (first, window) = power_window(from_int(10), from_int(5), from_int(5_000));
    assert_eq!(first, 0);
    assert_eq!(window, vec![from_int(1), from_int(10), from_int(100), from_int(1_000)]);
    let (first, window) = power_window(from_int(10), 1_000, 500_000);
    assert_eq!(first, -3);
    assert_eq!(window, vec![1_000, 10_000, 100_000]);
    let (first, window) = power_window(from_int(2), from_int(8), from_int(8));
    assert_eq!(first, 3);
    assert!(window.is_empty());
}

#[test]
fn symlog_ticks_join_core_and_wings() {
    let set = TickSet::generate_ticks(
        from_int(-100),
        from_int(100),
        symlog(from_int(10), from_int(1), false, 5),
    );
    assert_eq!(set.step, None);
    assert_eq!(
        values(&set),
        vec![from_int(-10), from_int(-1), -500_000, 0, 500_000, from_int(1), from_int(10)]
    );
    assert_eq!(labels(&set), vec!["-10", "-1", "-0.5", "0", "0.5", "1", "10"]);
    assert_eq!(majors(&set), vec![true, true, false, true, false, true, true]);
}

#[test]
fn symlog_ticks_are_empty_for_an_invalid_scale() {
    for (base, threshold) in [(from_int(1), from_int(1)), (from_int(10), 999_999), (0, 0)] {
        let set = TickSet::generate_ticks(
            from_int(-100),
            from_int(100),
            symlog(base, threshold, true, 5),
        );
        assert!(set.ticks.is_empty());
        assert_eq!(set.step, None);
    }
}

#[test]
fn symlog_ticks_are_sign_symmetric() {
    let cases: [(i64, i64, i64, bool, usize); 4] = [
        (from_int(1_000), from_int(10), from_int(1), true, 5),
        (from_int(500), from_int(2), from_int(3), false, 3),
        (from_int(77), 2_500_000, from_int(4), true, 9),
        (from_int(100_000), from_int(10), from_int(10), true, 0),
    ];
    for (reach, base, threshold, minor, n) in cases {
        let set = TickSet::generate_ticks(-reach, reach, symlog(base, threshold, minor, n));
        let mut beyond = 0;
        for t in &set.ticks {
            if t.value > threshold {
                beyond += 1;
                let mirror = set.ticks.iter().find(|u| u.value == -t.value);
                let mirror = mirror.expect("a tick of the opposite value");
                assert_eq!(mirror.major, t.major);
                if t.label.is_empty() {
                    assert!(mirror.label.is_empty());
                } else {
                    assert_eq!(mirror.label, format!("-{}", t.label));
                }
            }
        }
        assert!(beyond > 0);
        for pair in set.ticks.windows(2) {
            assert!(pair[0].value < pair[1].value);
        }
    }
}

#[test]
fn symlog_ticks_keep_core_ticks_beyond_the_threshold() {
    // threshold 3: the core steps by 5 at a budget of three ticks
    let set = TickSet::generate_ticks(
        from_int(-20),
        from_int(20),
        symlog(from_int(2), from_int(3), false, 3),
    );
    assert_eq!(
        values(&set),
        [-16, -8, -5, -4, 0, 4, 5, 8, 16].iter().map(|v| from_int(*v)).collect::<Vec<i64>>()
    );
    assert_eq!(labels(&set), vec!["-16", "-8", "-5", "-4", "0", "4", "5", "8", "16"]);
    assert_eq!(majors(&set), vec![true, true, false, true, true, true, false, true, true]);
}

#[test]
fn symlog_ticks_of_a_range_within_the_threshold_are_the_core() {
    let set = TickSet::generate_ticks(
        -500_000,
        500_000,
        symlog(from_int(10), from_int(1), true, 5),
    );
    assert_eq!(values(&set), vec![-600_000, -400_000, -200_000, 0, 200_000, 400_000, 600_000]);
    assert_eq!(majors(&set), vec![false, false, false, true, false, false, false]);
}

#[test]
fn symlog_ticks_of_a_positive_range_have_no_negative_wing() {
    let set = TickSet::generate_ticks(
        from_int(5),
        from_int(500),
        symlog(from_int(10), from_int(1), false, 5),
    );
    assert_eq!(values(&set), vec![from_int(1), from_int(10), from_int(100)]);
}

#[test]
fn sorting_keeps_ticks_of_equal_value_in_their_order() {
    let sorted = sort_ticks(vec![
        tick(3, "c", true),
        tick(1, "a", true),
        tick(3, "d", false),
        tick(2, "b", true),
        tick(1, "e", false),
    ]);
    let got: Vec<(i64, &str)> = sorted.iter().map(|t| (t.value, t.label.as_str())).collect();
    assert_eq!(got, vec![(1, "a"), (1, "e"), (2, "b"), (3, "c"), (3, "d")]);
    assert!(sort_ticks(Vec::new()).is_empty());
}

#[test]
fn deduplication_keeps_the_first_of_equal_neighbours() {
    let kept = dedup_ticks(vec![
        tick(1, "a", true),
        tick(1, "e", false),
        tick(2, "b", true),
        tick(3, "c", true),
        tick(3, "d", false),
        tick(1, "f", false),
    ]);
    let got: Vec<(i64, &str, bool)> =
        kept.iter().map(|t| (t.value, t.label.as_str(), t.major)).collect();
    assert_eq!(got, vec![(1, "a", true), (2, "b", true), (3, "c", true), (1, "f", false)]);
}

#[test]
fn generation_is_repeatable() {
    let specs = [
        linear(7, Separation::Auto),
        log(from_int(10), true),
        symlog(from_int(10), from_int(1), true, 5),
    ];
    for spec in specs {
        let a = TickSet::generate_ticks(from_int(-40), from_int(250), spec);
        let b = TickSet::generate_ticks(from_int(-40), from_int(250), spec);
        assert_eq!(a.step, b.step);
        assert_eq!(values(&a), values(&b));
        assert_eq!(labels(&a), labels(&b));
        assert_eq!(majors(&a), majors(&b));
    }
}

#[test]
fn scale_defaults_to_linear() {
    assert_eq!(Scale::default(), Scale::Linear);
    assert_eq!(Separation::default(), Separation::Auto);
}
