use backtester::optimizer::select_best_trial;
use backtester::range_bound_variable::{
    RangeBoundBool, RangeBoundFloat, RangeBoundInteger, RangeBoundVariables,
};
use backtester::ratio::Ratio;

fn score(num: i64, den: i64) -> Option<Ratio> {
    Some(Ratio { num, den })
}

#[test]
fn best_trial_is_the_maximum_of_the_successful_ones() {
    // Ten trials: three breached the drawdown limit (no score), seven
    // succeeded; the winner carries the maximum score among exactly
    // those seven.  Scores are millipips per trade.
    let outcomes: Vec<Option<Ratio>> = vec![
        score(5_000, 1),
        None,
        score(-2_000, 1),
        score(41_000, 2),  // 20.5 pips per trade: the maximum.
        None,
        score(9_000, 1),
        score(20_000, 1),
        None,
        score(-15_000, 1),
        score(3_000, 1),
    ];
    assert_eq!(select_best_trial(&outcomes), Some(3));
}

#[test]
fn first_of_equal_scores_wins() {
    let outcomes: Vec<Option<Ratio>> = vec![
        score(7_000, 1),
        score(14_000, 2),  // the same value: not strictly greater.
        score(7_000, 1),
    ];
    assert_eq!(select_best_trial(&outcomes), Some(0));
}

#[test]
fn zero_successful_trials_fail_the_optimization() {
    let outcomes: Vec<Option<Ratio>> = vec![None, None, None];
    assert_eq!(select_best_trial(&outcomes), None);
    let empty: Vec<Option<Ratio>> = Vec::new();
    assert_eq!(select_best_trial(&empty), None);
}

#[test]
fn a_best_score_below_the_floor_fails_the_optimization() {
    // -1000 pips per trade lies below the -999.99 pip viability floor.
    let outcomes: Vec<Option<Ratio>> = vec![score(-1_000_000, 1), score(-2_000_000, 1)];
    assert_eq!(select_best_trial(&outcomes), None);
    // -999 pips per trade is still viable.
    let viable: Vec<Option<Ratio>> = vec![score(-999_000, 1)];
    assert_eq!(select_best_trial(&viable), Some(0));
}

#[test]
fn undefined_scores_never_win() {
    // A pass with zero closed trades has an undefined score (zero
    // denominator): it counts as successful but can never become best.
    let outcomes: Vec<Option<Ratio>> = vec![score(0, 0), score(-500, 1)];
    assert_eq!(select_best_trial(&outcomes), Some(1));
    // All-undefined: successful trials exist, but the floor rejects the
    // never-improved initial score.
    let all_undefined: Vec<Option<Ratio>> = vec![score(0, 0), score(0, 0)];
    assert_eq!(select_best_trial(&all_undefined), None);
}

#[test]
fn float_draws_stay_inside_the_half_open_range() {
    // Bounds [1.0, 2.0) in 10^-5 units; every draw of 10000 must satisfy
    // lower <= v < upper.
    let mut v = RangeBoundFloat::new(100_000, 200_000).unwrap();
    for _ in 0..10_000 {
        v.randomize();
        assert!(100_000 <= v.value());
        assert!(v.value() < 200_000);
    }
}

#[test]
fn integer_draws_stay_inside_the_closed_range() {
    let mut v = RangeBoundInteger::new(-3, 4).unwrap();
    let mut seen_any = false;
    for _ in 0..10_000 {
        v.randomize();
        assert!(-3 <= v.value() && v.value() <= 4);
        seen_any = true;
    }
    assert!(seen_any);
}

#[test]
fn bad_bounds_are_refused() {
    assert!(RangeBoundFloat::new(200_000, 100_000).is_err());
    assert!(RangeBoundFloat::new(100_000, 100_000).is_err());
    assert!(RangeBoundInteger::new(5, 5).is_err());
    assert!(RangeBoundBool::new().value() == false);
}

#[test]
fn variable_set_lookups_and_duplicates() {
    let mut vars = RangeBoundVariables::new();
    vars.create_bool(b"use_stop".to_vec()).unwrap();
    vars.create_float(b"threshold".to_vec(), 0, 100_000).unwrap();
    vars.create_int(b"lookback".to_vec(), 1, 10).unwrap();
    assert!(vars.create_bool(b"use_stop".to_vec()).is_err());
    assert!(vars.create_float(b"threshold".to_vec(), 0, 1).is_err());
    assert!(vars.create_int(b"lookback".to_vec(), 0, 5).is_err());
    assert_eq!(vars.get_bool(b"use_stop").unwrap(), false);
    assert_eq!(vars.get_float(b"threshold").unwrap(), 0);
    assert_eq!(vars.get_integer(b"lookback").unwrap(), 0);
    assert!(vars.get_bool(b"missing").is_err());
    assert!(vars.get_float(b"missing").is_err());
    assert!(vars.get_integer(b"missing").is_err());
    // Randomizing keeps names and bounds and lands values inside them.
    vars.randomize();
    let f = vars.get_float(b"threshold").unwrap();
    assert!(0 <= f && f < 100_000);
    let n = vars.get_integer(b"lookback").unwrap();
    assert!(1 <= n && n <= 10);
}

#[test]
fn variable_clone_keeps_values() {
    let mut vars = RangeBoundVariables::new();
    vars.create_int(b"n".to_vec(), 1, 9).unwrap();
    vars.randomize();
    let copy = vars.clone();
    assert_eq!(copy.get_integer(b"n").unwrap(), vars.get_integer(b"n").unwrap());
}
