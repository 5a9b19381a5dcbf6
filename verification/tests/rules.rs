use nommie::cards::{
    follows_suit, get_card_rank, get_card_rank_value, get_card_suit, is_trump_card, is_trump_suit,
    is_valid_card_format,
};
use nommie::comparison::compare_cards;
use std::cmp::Ordering;
use nommie::rules::{
    calculate_cards_dealt, canonical_player_index, get_dealer_index_for_round,
    get_next_dealer_index, get_next_player_index, get_next_round_number,
    get_previous_player_index, get_previous_round_number, get_round_card_counts,
    get_round_sequence, is_two_card_round, is_valid_round_number, turn_order_from_index,
    MAX_CARDS_PER_ROUND, TOTAL_ROUNDS, TWO_CARD_ROUNDS,
};

#[test]
fn test_round_sequence_length() {
    assert_eq!(get_round_sequence().len(), TOTAL_ROUNDS as usize);
}

#[test]
fn test_round_sequence_bounds() {
    let sequence = get_round_sequence();
    assert_eq!(sequence.first(), Some(&1));
    assert_eq!(sequence.last(), Some(&TOTAL_ROUNDS));
}

#[test]
fn test_round_sequence_strictly_decreasing_then_increasing() {
    let card_counts = get_round_card_counts();

    // Rounds 1-11: strictly decreasing (13 → 12 → 11 → ... → 3)
    for i in 0..10 {
        assert!(card_counts[i] > card_counts[i + 1]);
    }

    // Rounds 12-15: all 2 cards
    for count in card_counts.iter().take(15).skip(11) {
        assert_eq!(*count, 2);
    }

    // Rounds 16-26: strictly increasing (3 → 4 → ... → 13)
    for i in 15..25 {
        assert!(card_counts[i] < card_counts[i + 1]);
    }
}

#[test]
fn test_exactly_four_two_card_rounds() {
    let two_card_count = get_round_card_counts()
        .iter()
        .filter(|&&count| count == 2)
        .count();
    assert_eq!(two_card_count, TWO_CARD_ROUNDS as usize);
}

#[test]
fn test_round_sequence_starts_and_ends_with_13() {
    let card_counts = get_round_card_counts();
    assert_eq!(card_counts[0], MAX_CARDS_PER_ROUND);
    assert_eq!(card_counts[25], MAX_CARDS_PER_ROUND);
}

#[test]
fn test_turn_order_wraparound() {
    assert_eq!(get_next_player_index(0), 1);
    assert_eq!(get_next_player_index(1), 2);
    assert_eq!(get_next_player_index(2), 3);
    assert_eq!(get_next_player_index(3), 0);

    assert_eq!(get_previous_player_index(0), 3);
    assert_eq!(get_previous_player_index(1), 0);
    assert_eq!(get_previous_player_index(2), 1);
    assert_eq!(get_previous_player_index(3), 2);
}

#[test]
fn test_dealer_rotation() {
    assert_eq!(get_dealer_index_for_round(1), 0);
    assert_eq!(get_dealer_index_for_round(2), 1);
    assert_eq!(get_dealer_index_for_round(3), 2);
    assert_eq!(get_dealer_index_for_round(4), 3);
    assert_eq!(get_dealer_index_for_round(5), 0);
    assert_eq!(get_dealer_index_for_round(26), 1);
}

#[test]
fn test_canonical_player_index() {
    assert_eq!(canonical_player_index(0), 0);
    assert_eq!(canonical_player_index(1), 1);
    assert_eq!(canonical_player_index(2), 2);
    assert_eq!(canonical_player_index(3), 3);
    assert_eq!(canonical_player_index(4), 0);
    assert_eq!(canonical_player_index(7), 3);
}

#[test]
fn test_turn_order_from_index() {
    assert_eq!(turn_order_from_index(0), 0);
    assert_eq!(turn_order_from_index(1), 1);
    assert_eq!(turn_order_from_index(2), 2);
    assert_eq!(turn_order_from_index(3), 3);
}

#[test]
fn test_card_validation() {
    assert!(is_valid_card_format("AS"));
    assert!(is_valid_card_format("KH"));
    assert!(is_valid_card_format("2C"));
    assert!(is_valid_card_format("TD"));

    assert!(!is_valid_card_format("A"));
    assert!(!is_valid_card_format("ASS"));
    assert!(!is_valid_card_format("1S"));
    assert!(!is_valid_card_format("AX"));
}

#[test]
fn test_card_rank_values() {
    assert_eq!(get_card_rank_value("2"), 2);
    assert_eq!(get_card_rank_value("9"), 9);
    assert_eq!(get_card_rank_value("T"), 10);
    assert_eq!(get_card_rank_value("J"), 11);
    assert_eq!(get_card_rank_value("Q"), 12);
    assert_eq!(get_card_rank_value("K"), 13);
    assert_eq!(get_card_rank_value("A"), 14);
    assert_eq!(get_card_rank_value("X"), 0);
}

#[test]
fn test_trump_suit_checking() {
    assert!(is_trump_suit("H", &Some("H".to_string())));
    assert!(!is_trump_suit("S", &Some("H".to_string())));
    assert!(!is_trump_suit("H", &None));
}

#[test]
fn test_card_suit_and_rank_extraction() {
    assert_eq!(get_card_suit("AS"), Some("S"));
    assert_eq!(get_card_rank("AS"), Some("A"));
    assert_eq!(get_card_suit(""), None);
    assert_eq!(get_card_rank(""), None);
}

#[test]
fn test_follows_suit() {
    assert!(follows_suit("AS", "S"));
    assert!(!follows_suit("AH", "S"));
}

#[test]
fn test_is_trump_card() {
    assert!(is_trump_card("AH", &Some("H".to_string())));
    assert!(!is_trump_card("AS", &Some("H".to_string())));
    assert!(!is_trump_card("AH", &None));
}

#[test]
fn test_compare_cards() {
    assert_eq!(
        compare_cards("AS", "KS", "S", &None),
        Some(std::cmp::Ordering::Greater)
    );
    assert_eq!(
        compare_cards("KS", "AS", "S", &None),
        Some(std::cmp::Ordering::Less)
    );
    assert_eq!(
        compare_cards("AH", "AS", "S", &Some("H".to_string())),
        Some(std::cmp::Ordering::Greater)
    );
    assert_eq!(compare_cards("AS", "KH", "S", &None), None);
}

#[test]
fn test_round_number_validation() {
    assert!(is_valid_round_number(1));
    assert!(is_valid_round_number(13));
    assert!(is_valid_round_number(26));
    assert!(!is_valid_round_number(0));
    assert!(!is_valid_round_number(27));
}

#[test]
fn test_two_card_rounds() {
    assert!(!is_two_card_round(11));
    assert!(is_two_card_round(12));
    assert!(is_two_card_round(13));
    assert!(is_two_card_round(14));
    assert!(is_two_card_round(15));
    assert!(!is_two_card_round(16));
}

#[test]
fn test_next_round_number() {
    assert_eq!(get_next_round_number(1), Some(2));
    assert_eq!(get_next_round_number(25), Some(26));
    assert_eq!(get_next_round_number(26), None);
}

#[test]
fn test_previous_round_number() {
    assert_eq!(get_previous_round_number(2), Some(1));
    assert_eq!(get_previous_round_number(26), Some(25));
    assert_eq!(get_previous_round_number(1), None);
}

// Further cases.

#[test]
fn cards_dealt_follows_the_round_structure() {
    let expected = [
        13, 12, 11, 10, 9, 8, 7, 6, 5, 4, 3, 2, 2, 2, 2, 3, 4, 5, 6, 7, 8, 9, 10, 11, 12, 13,
    ];
    for (i, cards) in expected.iter().enumerate() {
        assert_eq!(calculate_cards_dealt(i as i32 + 1), *cards);
    }
    assert_eq!(get_round_card_counts(), expected.to_vec());
    assert_eq!(calculate_cards_dealt(16), 3);
    assert_eq!(calculate_cards_dealt(0), 14);
    assert_eq!(calculate_cards_dealt(27), 14);
}

#[test]
fn next_and_previous_player_undo_each_other() {
    for i in 0..4usize {
        assert_eq!(get_previous_player_index(get_next_player_index(i)), i);
        assert_eq!(get_next_player_index(get_previous_player_index(i)), i);
        let mut j = i;
        for _ in 0..4 {
            j = get_next_player_index(j);
        }
        assert_eq!(j, i);
    }
}

#[test]
fn next_and_previous_round_undo_each_other() {
    for r in 1..26 {
        let n = get_next_round_number(r).unwrap();
        assert_eq!(get_previous_round_number(n), Some(r));
    }
}

#[test]
fn dealer_passes_to_the_next_player_each_round() {
    for r in 1..26 {
        assert_eq!(
            get_dealer_index_for_round(r + 1),
            get_next_dealer_index(get_dealer_index_for_round(r))
        );
    }
}

#[test]
fn turn_order_round_trips_through_player_index() {
    for i in 0..4usize {
        assert_eq!(canonical_player_index(turn_order_from_index(i)), i);
    }
    assert_eq!(canonical_player_index(-1), usize::MAX);
}

#[test]
fn card_strings_edge_cases() {
    assert_eq!(get_card_suit("A"), None);
    assert_eq!(get_card_rank("A"), Some("A"));
    assert_eq!(get_card_suit("10S"), Some("0"));
    assert!(!is_valid_card_format("as"));
    assert!(!is_valid_card_format(""));
    assert!(!is_valid_card_format("ÄS"));
    assert_eq!(get_card_rank_value("10"), 0);
    assert_eq!(get_card_rank_value(""), 0);
    assert!(!is_trump_card("A", &Some("H".to_string())));
    assert!(!follows_suit("", "S"));
}

#[test]
fn compare_cards_more_cases() {
    let trump = Some("H".to_string());
    // Both trump: by rank.
    assert_eq!(compare_cards("2H", "KH", "S", &trump), Some(Ordering::Less));
    // Non-trump against trump.
    assert_eq!(compare_cards("AS", "2H", "S", &trump), Some(Ordering::Less));
    // Equal cards.
    assert_eq!(compare_cards("QS", "QS", "S", &None), Some(Ordering::Equal));
    // Two off-suit cards cannot be compared.
    assert_eq!(compare_cards("QD", "KC", "S", &None), None);
    // Lead suit against off-suit: cannot be compared either.
    assert_eq!(compare_cards("2S", "AD", "S", &None), None);
    // Too short to have a suit.
    assert_eq!(compare_cards("A", "KS", "S", &None), None);
    // Antisymmetry.
    for (a, b) in [("AS", "KS"), ("AH", "AS"), ("2D", "3D")] {
        let ab = compare_cards(a, b, "S", &trump);
        let ba = compare_cards(b, a, "S", &trump);
        assert_eq!(ab.map(|o| o.reverse()), ba);
    }
}

#[test]
fn card_validation_refuses_other_characters() {
    assert!(!is_valid_card_format("é"));
    assert!(!is_valid_card_format("Aé"));
    assert!(!is_valid_card_format(""));
}
