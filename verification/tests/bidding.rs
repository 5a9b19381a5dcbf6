use nommie::bidding::{
    all_bids_submitted, create_shuffled_deck, find_highest_bidder, get_next_bidding_turn,
    is_valid_bid, standard_deck_cards,
};
use uuid::Uuid;

#[test]
fn test_create_shuffled_deck() {
    let deck = create_shuffled_deck();

    assert_eq!(deck.len(), 52);

    let suits = vec!["H", "D", "C", "S"];
    let ranks = vec![
        "2", "3", "4", "5", "6", "7", "8", "9", "T", "J", "Q", "K", "A",
    ];

    for suit in &suits {
        for rank in &ranks {
            let expected_card = format!("{rank}{suit}");
            assert!(
                deck.contains(&expected_card),
                "Deck missing card: {expected_card}"
            );
        }
    }
}

#[test]
fn test_is_valid_bid() {
    assert!(is_valid_bid(0));
    assert!(is_valid_bid(7));
    assert!(is_valid_bid(13));
    assert!(!is_valid_bid(-1));
    assert!(!is_valid_bid(14));
}

#[test]
fn test_find_highest_bidder() {
    let player1 = Uuid::new_v4().as_u128();
    let player2 = Uuid::new_v4().as_u128();
    let player3 = Uuid::new_v4().as_u128();
    let player4 = Uuid::new_v4().as_u128();

    let bids = vec![(3, player1), (7, player2), (2, player3), (5, player4)];

    let (highest_bid, highest_bidder, first_bidder) = find_highest_bidder(&bids);

    assert_eq!(highest_bid, 7);
    assert_eq!(highest_bidder, Some(player2));
    assert_eq!(first_bidder, Some(player2));
}

#[test]
fn test_find_highest_bidder_with_tie() {
    let player1 = Uuid::new_v4().as_u128();
    let player2 = Uuid::new_v4().as_u128();
    let player3 = Uuid::new_v4().as_u128();
    let player4 = Uuid::new_v4().as_u128();

    let bids = vec![(5, player1), (5, player2), (3, player3), (2, player4)];

    let (highest_bid, highest_bidder, first_bidder) = find_highest_bidder(&bids);

    assert_eq!(highest_bid, 5);
    assert_eq!(highest_bidder, Some(player1));
    assert_eq!(first_bidder, Some(player1));
}

#[test]
fn test_all_bids_submitted() {
    assert!(all_bids_submitted(4, 4));
    assert!(all_bids_submitted(0, 0));
    assert!(!all_bids_submitted(3, 4));
    assert!(!all_bids_submitted(5, 4));
}

#[test]
fn test_get_next_bidding_turn() {
    assert_eq!(get_next_bidding_turn(0), 1);
    assert_eq!(get_next_bidding_turn(1), 2);
    assert_eq!(get_next_bidding_turn(2), 3);
    assert_eq!(get_next_bidding_turn(3), 0);
}

// Further cases.

#[test]
fn highest_bidder_edge_cases() {
    assert_eq!(find_highest_bidder(&[]), (-1, None, None));
    // A bid of -1 makes a first bidder but no highest bidder.
    assert_eq!(find_highest_bidder(&[(-1, 9)]), (-1, None, Some(9)));
    // Bids below -1 count for nothing.
    assert_eq!(find_highest_bidder(&[(-5, 9), (-2, 8)]), (-1, None, None));
    // A zero bid is a highest bid.
    assert_eq!(find_highest_bidder(&[(0, 1), (0, 2)]), (0, Some(1), Some(1)));
    // A later higher bid takes over.
    assert_eq!(find_highest_bidder(&[(2, 1), (4, 2), (4, 3)]), (4, Some(2), Some(2)));
}

#[test]
fn bidding_turn_wraps_and_keeps_sign() {
    assert_eq!(get_next_bidding_turn(7), 0);
    assert_eq!(get_next_bidding_turn(-3), -2);
}

#[test]
fn standard_deck_order_and_shuffle_keeps_cards() {
    let deck = standard_deck_cards();
    assert_eq!(deck.len(), 52);
    assert_eq!(deck[0], "2H");
    assert_eq!(deck[12], "AH");
    assert_eq!(deck[13], "2D");
    assert_eq!(deck[51], "AS");
    let mut shuffled = create_shuffled_deck();
    let mut sorted = deck.clone();
    shuffled.sort();
    sorted.sort();
    assert_eq!(shuffled, sorted);
    shuffled.dedup();
    assert_eq!(shuffled.len(), 52);
}

#[test]
fn shuffled_deck_leaves_the_standard_order() {
    // Every one of the 52! orders is equally likely; the standard one is
    // drawn with negligible probability.
    let shuffled = create_shuffled_deck();
    assert_ne!(shuffled, standard_deck_cards());
}
