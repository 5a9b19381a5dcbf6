use nommie::bidding::{create_shuffled_deck, standard_deck_cards};
use nommie::progress::{
    begin_round, complete_game, count_tricks_won, deal_hands, plan_next_round,
    player_total_score, position_of_player, round_ready_to_close, trick_ready_to_close, NextRound,
};
use nommie::game::{Game, GamePhase, GameState};

#[test]
fn deal_gives_consecutive_slices_of_the_deck() {
    let deck = standard_deck_cards();
    let hands = deal_hands(&deck, 4, 13).unwrap();
    assert_eq!(hands.len(), 4);
    for (p, hand) in hands.iter().enumerate() {
        assert_eq!(hand.as_slice(), &deck[p * 13..(p + 1) * 13]);
    }
    let hands = deal_hands(&deck, 4, 2).unwrap();
    assert_eq!(hands[3], vec![deck[6].clone(), deck[7].clone()]);
    assert_eq!(deal_hands(&deck, 5, 13).unwrap_err(), "Not enough cards in deck");
    assert_eq!(deal_hands(&deck[..10], 4, 3).unwrap_err(), "Not enough cards in deck");
    let empty = deal_hands(&deck, 4, 0).unwrap();
    assert!(empty.iter().all(|h| h.is_empty()));
    let negative = deal_hands(&deck, 2, -3).unwrap();
    assert_eq!(negative.len(), 2);
}

#[test]
fn dealt_hands_share_no_card() {
    let deck = create_shuffled_deck();
    let hands = deal_hands(&deck, 4, 13).unwrap();
    let mut all: Vec<String> = hands.concat();
    all.sort();
    all.dedup();
    assert_eq!(all.len(), 52);
}

#[test]
fn tricks_counted_per_player() {
    let winners = vec![Some(1), Some(2), None, Some(1), Some(9)];
    assert_eq!(count_tricks_won(&[1, 2, 3], &winners), vec![2, 1, 0]);
    assert!(round_ready_to_close(&winners, 4));
    assert!(!round_ready_to_close(&winners, 5));
    assert!(trick_ready_to_close(4));
    assert!(!trick_ready_to_close(3));
}

#[test]
fn total_score_over_rounds() {
    let rounds = vec![(Some(5), Some(5)), (None, Some(3)), (Some(0), None), (Some(2), Some(4))];
    // 15 + (no score) + 10 (0 tricks, no bid counts as 0) + 2
    assert_eq!(player_total_score(&rounds), 27);
    assert_eq!(player_total_score(&[]), 0);
}

#[test]
fn next_round_planning() {
    let players = [10u128, 11, 12, 13];
    assert_eq!(
        plan_next_round(1, Some(10), &players),
        NextRound::Round { round_number: 2, cards_dealt: 12, dealer: Some(11) }
    );
    assert_eq!(
        plan_next_round(11, Some(13), &players),
        NextRound::Round { round_number: 12, cards_dealt: 2, dealer: Some(10) }
    );
    assert_eq!(
        plan_next_round(15, None, &players),
        NextRound::Round { round_number: 16, cards_dealt: 3, dealer: Some(10) }
    );
    // An unknown dealer counts as the first player.
    assert_eq!(
        plan_next_round(3, Some(99), &players),
        NextRound::Round { round_number: 4, cards_dealt: 10, dealer: Some(11) }
    );
    assert_eq!(plan_next_round(26, Some(10), &players), NextRound::GameOver);
    assert_eq!(position_of_player(&players, 12), 2);
    assert_eq!(position_of_player(&players, 99), 0);
}

#[test]
fn game_transitions_between_rounds() {
    let game = Game { id: 3, state: GameState::Started, phase: GamePhase::Scoring, current_turn: Some(2) };
    let next = begin_round(game);
    assert_eq!(next.phase, GamePhase::Bidding);
    assert_eq!(next.current_turn, Some(0));
    let done = complete_game(game);
    assert_eq!(done.state, GameState::Completed);
    assert_eq!(done.phase, GamePhase::Bidding);
    assert_eq!(done.current_turn, Some(2));
}
