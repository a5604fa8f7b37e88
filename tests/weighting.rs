use performance_service::weighting::{calculate_new_pp, sort_descending};

#[test]
fn single_score_of_thousand_pp() {
    // 1000 + 416.6667 * (1 - 0.995) = 1002.083
    assert_eq!(calculate_new_pp(&vec![100_000], 1), 1002);
}

#[test]
fn empty_top_scores_give_zero() {
    assert_eq!(calculate_new_pp(&vec![], 0), 0);
}

#[test]
fn one_score_of_five_hundred_pp() {
    // 500 + 416.6667 * (1 - 0.995) = 502.083
    assert_eq!(calculate_new_pp(&vec![50_000], 1), 502);
}

#[test]
fn hundred_equal_scores_follow_geometric_series() {
    let p = 100.0_f64;
    let expected = p * (1.0 - 0.95_f64.powi(100)) / (1.0 - 0.95) + 416.6667 * (1.0 - 0.995_f64.powi(100));
    let got = calculate_new_pp(&vec![10_000; 100], 100) as f64;
    assert!((got - expected).abs() <= 1.0, "got {} expected about {}", got, expected);
}

#[test]
fn scores_are_weighted_after_sorting() {
    // 300 + 200 * 0.95 + 100 * 0.9025 = 580.25, plus 416.6667 * (1 - 0.995^3) = 6.22
    let ascending = calculate_new_pp(&vec![10_000, 20_000, 30_000], 3);
    let descending = calculate_new_pp(&vec![30_000, 20_000, 10_000], 3);
    assert_eq!(ascending, 586);
    assert_eq!(descending, 586);
}

#[test]
fn bonus_stops_growing_at_thousand_scores() {
    assert_eq!(calculate_new_pp(&vec![], 1000), calculate_new_pp(&vec![], 5000));
    // 416.6667 * (1 - 0.995^1000) = 413.86
    assert_eq!(calculate_new_pp(&vec![], 1000), 414);
}

#[test]
fn largest_scores_stay_in_range() {
    let r = calculate_new_pp(&vec![u32::MAX; 100], 1000);
    assert!(r > 0);
    // about 20 * 42949672.95 * (1 - 0.95^100)
    assert!((r as f64 - 858_993_459.0 * (1.0 - 0.95_f64.powi(100))).abs() < 1000.0);
}

#[test]
fn sort_orders_from_highest() {
    assert_eq!(sort_descending(&vec![3, 9, 1, 9, 4]), vec![9, 9, 4, 3, 1]);
    assert_eq!(sort_descending(&vec![]), Vec::<u32>::new());
}
