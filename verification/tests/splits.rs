use mountain_snail::splits::{
    calculate_travel_time, checked_total, split_deltas, split_length, stats, time_table,
    ConfigurationError, SplitTime, Splits,
};
use mountain_snail::stats::PathStats;

fn slope_speed(delta_elevation: f64, distance: f64, adjustment: f64) -> u64 {
    let speed = 0.6_f64 * (3.5 * (delta_elevation / distance + adjustment)).exp();
    (speed * distance).round() as u64
}

#[test]
fn two_splits_follow_the_formula() {
    let splits = vec![(100, 0), (0, 50)];
    let times = calculate_travel_time(&splits, 1000, |climb: i64, length: i32| {
        slope_speed(climb as f64, length as f64, 0.08)
    })
    .unwrap();
    assert_eq!(times, vec![slope_speed(100.0, 1000.0, 0.08), slope_speed(-50.0, 1000.0, 0.08)]);
    assert_eq!(times, vec![1127, 666]);
    let table = time_table(&times);
    assert_eq!(table[1].elapsed, times[0] + times[1]);
    assert_eq!(table[1].elapsed, 1793);
}

#[test]
fn travel_time_hands_over_climb_and_length() {
    let splits = vec![(10, 3), (0, 0), (2, 9)];
    let times = calculate_travel_time(&splits, 250, |climb: i64, length: i32| {
        (climb + 100) as u64 * 1000 + length as u64
    });
    assert_eq!(times, Ok(vec![107_250, 100_250, 93_250]));
}

#[test]
fn travel_time_of_no_splits_is_empty() {
    let splits: Vec<(i32, i32)> = Vec::new();
    let times = calculate_travel_time(&splits, 1000, |_climb: i64, _length: i32| 5);
    assert_eq!(times, Ok(Vec::new()));
}

#[test]
fn deltas_are_ascent_less_descent() {
    let splits = vec![(100, 0), (0, 50), (20, 20), (i32::MAX, i32::MIN), (i32::MIN, i32::MAX)];
    assert_eq!(
        split_deltas(&splits),
        vec![100, -50, 0, 4_294_967_295, -4_294_967_295]
    );
}

#[test]
fn time_table_numbers_and_sums() {
    let table = time_table(&vec![30, 0, 12]);
    assert_eq!(
        table,
        vec![
            SplitTime { from: 0, to: 1, duration: 30, elapsed: 30 },
            SplitTime { from: 1, to: 2, duration: 0, elapsed: 30 },
            SplitTime { from: 2, to: 3, duration: 12, elapsed: 42 },
        ]
    );
}

#[test]
fn last_elapsed_is_the_sum() {
    let durations = vec![1127, 666, 901, 15, 0, 7];
    let table = time_table(&durations);
    let sum: u64 = durations.iter().sum();
    assert_eq!(table[table.len() - 1].elapsed, sum);
    assert_eq!(checked_total(&durations), Some(sum));
}

#[test]
fn time_table_of_nothing_is_empty() {
    assert!(time_table(&Vec::new()).is_empty());
    assert_eq!(checked_total(&Vec::new()), Some(0));
}

#[test]
fn total_that_outgrows_the_word_is_none() {
    assert_eq!(checked_total(&vec![u64::MAX, 1]), None);
    assert_eq!(checked_total(&vec![u64::MAX - 1, 1]), Some(u64::MAX));
    assert_eq!(checked_total(&vec![5, u64::MAX, 0]), None);
}

#[test]
fn negative_split_length_is_rejected() {
    assert_eq!(split_length(-1), Err(ConfigurationError::NegativeSplitLength));
    assert_eq!(split_length(i32::MIN), Err(ConfigurationError::NegativeSplitLength));
    assert_eq!(split_length(0), Ok(0));
    assert_eq!(split_length(1000), Ok(1000));
}

#[test]
fn splits_have_no_figures_of_their_own() {
    let splits = Splits { splits: vec![(100, 0), (0, 50)] };
    assert_eq!(stats(&splits, 1000), PathStats::default());
}

#[test]
fn formula_is_zero_on_zero_length() {
    let splits = vec![(100, 0), (0, 50), (0, 0)];
    let times = calculate_travel_time(&splits, 0, |climb: i64, length: i32| {
        slope_speed(climb as f64, length as f64, 0.175)
    });
    assert_eq!(times, Ok(vec![0, 0, 0]));
    assert_eq!(slope_speed(100.0, 0.0, 0.175), 0);
    assert_eq!(slope_speed(-50.0, 0.0, 0.175), 0);
    assert_eq!(slope_speed(0.0, 0.0, 0.175), 0);
}

#[test]
fn no_length_takes_no_time_under_any_law() {
    let splits = vec![(100, 0), (0, 50)];
    let times = calculate_travel_time(&splits, 0, |_climb: i64, _length: i32| 9);
    assert_eq!(times, Ok(vec![0, 0]));
}

#[test]
fn travel_time_rejects_a_negative_length() {
    let splits = vec![(100, 0), (0, 50)];
    let times = calculate_travel_time(&splits, -1, |_climb: i64, _length: i32| 9);
    assert_eq!(times, Err(ConfigurationError::NegativeSplitLength));
    let none = calculate_travel_time(&Vec::new(), i32::MIN, |_climb: i64, _length: i32| 9);
    assert_eq!(none, Err(ConfigurationError::NegativeSplitLength));
}

#[test]
fn formula_grows_with_adjustment_and_climb() {
    let splits = vec![(0, 50), (0, 0), (100, 0)];
    let on_path = calculate_travel_time(&splits, 1000, |climb: i64, length: i32| {
        slope_speed(climb as f64, length as f64, 0.08)
    })
    .unwrap();
    let on_alpine = calculate_travel_time(&splits, 1000, |climb: i64, length: i32| {
        slope_speed(climb as f64, length as f64, 0.28)
    })
    .unwrap();
    assert!(on_path[0] < on_path[1] && on_path[1] < on_path[2]);
    for i in 0..3 {
        assert!(on_path[i] < on_alpine[i]);
    }
    assert_eq!(on_path[1], 794);
}
