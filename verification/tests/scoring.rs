use nommie::scoring::{
    calculate_bonus_amount, calculate_round_points, calculate_total_score_from_rounds,
    has_exact_bid_bonus,
};

#[test]
fn test_calculate_round_points_exact_bid() {
    let tricks_won = 5;
    let bid = 5;
    let points = calculate_round_points(tricks_won, bid);
    assert_eq!(points, 15);
}

#[test]
fn test_calculate_round_points_no_bonus() {
    let tricks_won = 3;
    let bid = 5;
    let points = calculate_round_points(tricks_won, bid);
    assert_eq!(points, 3);
}

#[test]
fn test_calculate_round_points_zero_bid_exact() {
    let tricks_won = 0;
    let bid = 0;
    let points = calculate_round_points(tricks_won, bid);
    assert_eq!(points, 10);
}

#[test]
fn test_calculate_round_points_over_bid() {
    let tricks_won = 7;
    let bid = 5;
    let points = calculate_round_points(tricks_won, bid);
    assert_eq!(points, 7);
}

#[test]
fn test_calculate_round_points_under_bid() {
    let tricks_won = 2;
    let bid = 5;
    let points = calculate_round_points(tricks_won, bid);
    assert_eq!(points, 2);
}

#[test]
fn test_has_exact_bid_bonus() {
    assert!(has_exact_bid_bonus(5, 5));
    assert!(has_exact_bid_bonus(0, 0));
    assert!(!has_exact_bid_bonus(3, 5));
    assert!(!has_exact_bid_bonus(7, 5));
}

#[test]
fn test_calculate_bonus_amount() {
    assert_eq!(calculate_bonus_amount(5, 5), 10);
    assert_eq!(calculate_bonus_amount(0, 0), 10);
    assert_eq!(calculate_bonus_amount(3, 5), 0);
    assert_eq!(calculate_bonus_amount(7, 5), 0);
}

#[test]
fn test_calculate_total_score_from_rounds() {
    let round_data = vec![(5, 5), (3, 5), (7, 7), (2, 4)];
    let total_score = calculate_total_score_from_rounds(&round_data);
    assert_eq!(total_score, 37);
}

#[test]
fn test_calculate_total_score_from_rounds_empty() {
    let round_data: Vec<(i32, i32)> = vec![];
    let total_score = calculate_total_score_from_rounds(&round_data);
    assert_eq!(total_score, 0);
}

#[test]
fn test_calculate_total_score_from_rounds_single_round() {
    let round_data = vec![(6, 6)];
    let total_score = calculate_total_score_from_rounds(&round_data);
    assert_eq!(total_score, 16);
}

// Further cases.

#[test]
fn round_points_are_tricks_plus_bonus() {
    for tricks in 0..14 {
        for bid in 0..14 {
            assert_eq!(
                calculate_round_points(tricks, bid),
                tricks + calculate_bonus_amount(tricks, bid)
            );
            assert_eq!(has_exact_bid_bonus(tricks, bid), calculate_bonus_amount(tricks, bid) == 10);
        }
    }
}

#[test]
fn total_of_joined_rounds_is_sum_of_totals() {
    let a = vec![(1, 1), (4, 2)];
    let b = vec![(0, 3), (13, 13)];
    let mut ab = a.clone();
    ab.extend(b.iter().copied());
    assert_eq!(
        calculate_total_score_from_rounds(&ab),
        calculate_total_score_from_rounds(&a) + calculate_total_score_from_rounds(&b)
    );
    assert_eq!(calculate_total_score_from_rounds(&ab), 11 + 4 + 0 + 23);
}

#[test]
fn total_score_ignores_round_order() {
    let rounds = [(3, 3), (0, 2), (5, 1), (0, 0)];
    let reordered = [(0, 0), (5, 1), (3, 3), (0, 2)];
    assert_eq!(calculate_total_score_from_rounds(&rounds), 28);
    assert_eq!(calculate_total_score_from_rounds(&reordered), 28);
}
