use nommie::game::{assert_phase, Game, GamePhase, GameState};
use nommie::tricks::{
    advance_trick_logic, apply_play_logic, can_follow_suit, determine_trick_winner,
    get_lead_suit_from_trick, get_next_trick_turn, is_trick_complete, validate_follow_suit_rule,
    ApplyPlayError, TrickState,
};
use uuid::Uuid;

fn new_id() -> u128 {
    Uuid::new_v4().as_u128()
}

#[test]
fn test_determine_trick_winner_highest_lead_suit() {
    let player1 = new_id();
    let player2 = new_id();
    let player3 = new_id();
    let player4 = new_id();

    let plays = vec![
        ("7H".to_string(), player1),
        ("KH".to_string(), player2),
        ("2H".to_string(), player3),
        ("9H".to_string(), player4),
    ];
    let trump_suit = None;

    let winner = determine_trick_winner(&plays, &trump_suit).unwrap();
    assert_eq!(winner, player2);
}

#[test]
fn test_determine_trick_winner_trump_beats_lead() {
    let player1 = new_id();
    let player2 = new_id();
    let player3 = new_id();
    let player4 = new_id();

    let plays = vec![
        ("AH".to_string(), player1),
        ("2S".to_string(), player2),
        ("7H".to_string(), player3),
        ("KS".to_string(), player4),
    ];
    let trump_suit = Some("S".to_string());

    let winner = determine_trick_winner(&plays, &trump_suit).unwrap();
    assert_eq!(winner, player4);
}

#[test]
fn test_determine_trick_winner_empty_plays() {
    let plays: Vec<(String, u128)> = vec![];
    let trump_suit = None;

    let result = determine_trick_winner(&plays, &trump_suit);
    assert!(result.is_err());
    assert_eq!(result.unwrap_err(), "No plays found for trick");
}

#[test]
fn test_can_follow_suit() {
    let hand = vec!["AS".to_string(), "KH".to_string(), "2C".to_string()];

    assert!(can_follow_suit(&hand, "S"));
    assert!(can_follow_suit(&hand, "H"));
    assert!(can_follow_suit(&hand, "C"));
    assert!(!can_follow_suit(&hand, "D"));
}

#[test]
fn test_get_next_trick_turn() {
    assert_eq!(get_next_trick_turn(0), 1);
    assert_eq!(get_next_trick_turn(1), 2);
    assert_eq!(get_next_trick_turn(2), 3);
    assert_eq!(get_next_trick_turn(3), 0);
}

#[test]
fn test_is_trick_complete() {
    assert!(is_trick_complete(4, 4));
    assert!(is_trick_complete(5, 4));
    assert!(!is_trick_complete(3, 4));
    assert!(!is_trick_complete(0, 4));
}

#[test]
fn test_get_lead_suit_from_trick() {
    let plays = vec![("7H".to_string(), new_id()), ("KH".to_string(), new_id())];

    let lead_suit = get_lead_suit_from_trick(&plays);
    assert_eq!(lead_suit, Some("H".to_string()));
}

#[test]
fn test_get_lead_suit_from_empty_trick() {
    let plays: Vec<(String, u128)> = vec![];
    let lead_suit = get_lead_suit_from_trick(&plays);
    assert_eq!(lead_suit, None);
}

#[test]
fn test_advance_trick_logic_trick_not_complete() {
    let plays = vec![("7H".to_string(), new_id()), ("KH".to_string(), new_id())];

    let advancement = advance_trick_logic(&plays, 4, 1, 1, 13, &None);

    assert!(!advancement.trick_complete);
    assert_eq!(advancement.next_turn, 2);
    assert!(!advancement.round_complete);
}

#[test]
fn test_advance_trick_logic_trick_complete_not_round_end() {
    let plays = vec![
        ("7H".to_string(), new_id()),
        ("KH".to_string(), new_id()),
        ("2H".to_string(), new_id()),
        ("9H".to_string(), new_id()),
    ];

    let advancement = advance_trick_logic(&plays, 4, 1, 1, 13, &None);

    assert!(advancement.trick_complete);
    assert!(!advancement.round_complete);
    assert_eq!(advancement.next_turn, -1);
}

#[test]
fn test_advance_trick_logic_round_complete() {
    let plays = vec![
        ("7H".to_string(), new_id()),
        ("KH".to_string(), new_id()),
        ("2H".to_string(), new_id()),
        ("9H".to_string(), new_id()),
    ];

    let advancement = advance_trick_logic(&plays, 4, 1, 13, 13, &None);

    assert!(advancement.trick_complete);
    assert!(advancement.round_complete);
    assert_eq!(advancement.next_turn, 0);
}

#[test]
fn test_advance_trick_logic_with_trump() {
    let player1 = new_id();
    let player2 = new_id();
    let player3 = new_id();
    let player4 = new_id();

    let plays = vec![
        ("AH".to_string(), player1),
        ("2S".to_string(), player2),
        ("7H".to_string(), player3),
        ("KS".to_string(), player4),
    ];

    let advancement = advance_trick_logic(&plays, 4, 1, 1, 13, &Some("S".to_string()));

    assert!(advancement.trick_complete);
    assert_eq!(advancement.winner_user_id, Some(player4));
    assert!(!advancement.round_complete);
}

#[test]
fn test_assert_phase() {
    let game = Game {
        id: new_id(),
        state: GameState::Started,
        phase: GamePhase::Bidding,
        current_turn: Some(0),
    };

    assert!(assert_phase(&game, GamePhase::Bidding).is_ok());
    assert!(assert_phase(&game, GamePhase::Playing).is_err());
}

// Further cases.

#[test]
fn trick_winner_edge_cases() {
    // A lead card without a suit.
    assert_eq!(
        determine_trick_winner(&[("7".to_string(), 1)], &None),
        Err("Invalid card format".to_string())
    );
    // Off-suit cards never win, whatever their rank.
    let plays = vec![("2H".to_string(), 1), ("AS".to_string(), 2), ("3H".to_string(), 3)];
    assert_eq!(determine_trick_winner(&plays, &None), Ok(3));
    // Equal cards: the earlier play wins.
    let plays = vec![("5H".to_string(), 1), ("5H".to_string(), 2)];
    assert_eq!(determine_trick_winner(&plays, &None), Ok(1));
    // Short cards later in the trick are passed over.
    let plays = vec![("5H".to_string(), 1), ("A".to_string(), 2), ("9H".to_string(), 3)];
    assert_eq!(determine_trick_winner(&plays, &None), Ok(3));
    // The lowest trump beats the highest lead card.
    let plays = vec![("AH".to_string(), 1), ("2C".to_string(), 2)];
    assert_eq!(determine_trick_winner(&plays, &Some("C".to_string())), Ok(2));
    // A trump named as a word matches no card suit.
    let plays = vec![("AH".to_string(), 1), ("2S".to_string(), 2)];
    assert_eq!(determine_trick_winner(&plays, &Some("Spades".to_string())), Ok(1));
}

#[test]
fn follow_suit_rule_cases() {
    let hand = vec!["AS".to_string(), "KH".to_string()];
    assert!(validate_follow_suit_rule("AS", "S", &hand));
    assert!(!validate_follow_suit_rule("KH", "S", &hand));
    assert!(validate_follow_suit_rule("KH", "D", &hand));
    assert!(!validate_follow_suit_rule("K", "D", &hand));
    assert!(!can_follow_suit(&[], "S"));
    assert!(!can_follow_suit(&["S".to_string()], "S"));
}

#[test]
fn apply_play_logic_cases() {
    let hand = vec!["AS".to_string(), "KH".to_string()];
    let empty = TrickState { plays: vec![] };
    let led_spades = TrickState { plays: vec![("2S".to_string(), 7)] };

    assert!(matches!(
        apply_play_logic("A", &empty, &hand),
        Err(ApplyPlayError::InvalidCardFormat)
    ));
    assert!(matches!(
        apply_play_logic("QD", &empty, &hand),
        Err(ApplyPlayError::CardNotInHand)
    ));
    assert!(matches!(
        apply_play_logic("KH", &led_spades, &hand),
        Err(ApplyPlayError::FollowSuitViolation)
    ));
    let ok = apply_play_logic("AS", &led_spades, &hand).ok().unwrap();
    assert_eq!(ok.card_to_remove, "AS");
    let ok = apply_play_logic("KH", &empty, &hand).ok().unwrap();
    assert_eq!(ok.card_to_remove, "KH");
}

#[test]
fn advance_trick_logic_winner_leads_next() {
    let plays = vec![
        ("7H".to_string(), 1),
        ("KH".to_string(), 2),
        ("2H".to_string(), 3),
        ("9H".to_string(), 4),
    ];
    let adv = advance_trick_logic(&plays, 4, 3, 2, 13, &None);
    assert_eq!(adv.winner_user_id, Some(2));
    assert_eq!(adv.next_leader_user_id, Some(2));
    let adv = advance_trick_logic(&plays, 4, 3, 13, 13, &None);
    assert_eq!(adv.winner_user_id, Some(2));
    assert_eq!(adv.next_leader_user_id, None);
    let adv = advance_trick_logic(&plays[..1], 4, 3, 1, 13, &None);
    assert_eq!(adv.next_turn, 0);
    assert_eq!(adv.winner_user_id, None);
}

#[test]
fn assert_phase_message() {
    let game = Game { id: 1, state: GameState::Started, phase: GamePhase::Bidding, current_turn: None };
    assert_eq!(
        assert_phase(&game, GamePhase::TrumpSelection),
        Err("Game is in Bidding phase, expected TrumpSelection".to_string())
    );
}
