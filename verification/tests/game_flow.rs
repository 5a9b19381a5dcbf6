use nommie::game::{
    ai_turn_order, check_mark_ready, join_turn_order, new_game, should_start_game, start_game,
    Game, GamePhase, GameState, LobbyError,
};
use nommie::play::{
    advance_after_bid, advance_after_play, advance_after_trump, check_bid, check_play,
    check_trump, find_trump_chooser, game_id_of, is_valid_trump_name, parse_game_id,
    requested_game_id, BidFacts, PlayFacts, TrumpFacts,
};
use nommie::tricks::advance_trick_logic;

fn bidding_game(turn: Option<i32>) -> Game {
    Game { id: 1, state: GameState::Started, phase: GamePhase::Bidding, current_turn: turn }
}

#[test]
fn lobby_seats_players_in_arrival_order() {
    assert_eq!(join_turn_order(GameState::Waiting, false, 1), Ok(1));
    assert_eq!(join_turn_order(GameState::Waiting, false, 3), Ok(3));
    assert_eq!(join_turn_order(GameState::Waiting, false, 4), Err(LobbyError::GameFull));
    assert_eq!(join_turn_order(GameState::Waiting, true, 2), Err(LobbyError::AlreadyInGame));
    assert_eq!(join_turn_order(GameState::Started, false, 2), Err(LobbyError::NotWaiting));
    assert_eq!(ai_turn_order(GameState::Waiting, true, 2), Ok(2));
    assert_eq!(ai_turn_order(GameState::Waiting, false, 2), Err(LobbyError::NotInGame));
    assert_eq!(ai_turn_order(GameState::Completed, true, 2), Err(LobbyError::NotWaiting));
    assert_eq!(ai_turn_order(GameState::Waiting, true, 4), Err(LobbyError::GameFull));
    assert_eq!(LobbyError::NotInGame.status(), 403);
    assert_eq!(LobbyError::GameFull.message(), "Game is full");
    assert_eq!(LobbyError::PlayerNotFound.status(), 404);
}

#[test]
fn readiness_and_start() {
    assert_eq!(check_mark_ready(GameState::Waiting, Some(false)), Ok(()));
    assert_eq!(check_mark_ready(GameState::Waiting, Some(true)), Err(LobbyError::AlreadyReady));
    assert_eq!(check_mark_ready(GameState::Waiting, None), Err(LobbyError::PlayerNotFound));
    assert_eq!(check_mark_ready(GameState::Started, Some(false)), Err(LobbyError::NotWaiting));
    assert!(should_start_game(&[true, true, true, true]));
    assert!(!should_start_game(&[true, true, false, true]));
    assert!(!should_start_game(&[true, true, true]));
    assert!(!should_start_game(&[true, true, true, true, true]));
    let game = new_game(5);
    assert_eq!(game.state, GameState::Waiting);
    assert_eq!(game.current_turn, None);
    let started = start_game(game);
    assert_eq!(started.state, GameState::Started);
    assert_eq!(started.phase, GamePhase::Bidding);
    assert_eq!(started.current_turn, Some(0));
    assert_eq!(started.id, 5);
    assert_eq!(GamePhase::TrumpSelection.as_str(), "trump_selection");
    assert_eq!(GameState::Completed.as_str(), "completed");
}

fn bid_facts(bid: i32) -> BidFacts {
    BidFacts {
        bid,
        game: Some(bidding_game(Some(2))),
        player_turn_order: Some(Some(2)),
        has_round: true,
        already_bid: false,
    }
}

#[test]
fn bid_checks_in_order() {
    assert!(check_bid(&bid_facts(5)).is_ok());
    let r = check_bid(&bid_facts(14)).unwrap_err();
    assert_eq!((r.status, r.message.as_str()), (400, "Bid must be between 0 and 13"));
    let mut f = bid_facts(3);
    f.game = None;
    assert_eq!(check_bid(&f).unwrap_err().status, 404);
    let mut f = bid_facts(3);
    f.player_turn_order = None;
    assert_eq!(check_bid(&f).unwrap_err().status, 403);
    let mut f = bid_facts(3);
    f.already_bid = true;
    assert_eq!(
        check_bid(&f).unwrap_err().message,
        "You have already submitted a bid for this round"
    );
    let mut f = bid_facts(3);
    f.player_turn_order = Some(Some(1));
    assert_eq!(check_bid(&f).unwrap_err().message, "It's not your turn to bid");
    let mut f = bid_facts(3);
    f.game = Some(Game { phase: GamePhase::Playing, ..bidding_game(Some(2)) });
    assert_eq!(check_bid(&f).unwrap_err().message, "Game is not in bidding phase");
    // No turn stored counts as turn 0; a player without a turn order never has the turn.
    let f = BidFacts { game: Some(bidding_game(None)), player_turn_order: Some(Some(0)), ..bid_facts(1) };
    assert!(check_bid(&f).is_ok());
    let f = BidFacts { player_turn_order: Some(None), ..bid_facts(1) };
    assert!(check_bid(&f).is_err());
}

#[test]
fn bidding_passes_turns_then_trump_selection() {
    let mut game = bidding_game(Some(0));
    for bids in 1..4usize {
        game = advance_after_bid(game, bids, 4);
        assert_eq!(game.current_turn, Some(bids as i32));
        assert_eq!(game.phase, GamePhase::Bidding);
    }
    game = advance_after_bid(game, 4, 4);
    assert_eq!(game.phase, GamePhase::TrumpSelection);
    assert_eq!(game.current_turn, Some(0));
    let playing = advance_after_trump(game);
    assert_eq!(playing.phase, GamePhase::Playing);
    assert_eq!(playing.current_turn, Some(0));
}

#[test]
fn trump_checks() {
    assert!(is_valid_trump_name("NoTrump"));
    assert!(!is_valid_trump_name("hearts"));
    let game = Game { phase: GamePhase::TrumpSelection, ..bidding_game(Some(0)) };
    let facts = TrumpFacts {
        game: Some(game),
        round_trump: Some(None),
        bids: vec![(3, 10, 0), (5, 11, 1), (5, 12, 2), (1, 13, 3)],
        player_id: Some(11),
    };
    assert_eq!(find_trump_chooser(&facts.bids), Some(11));
    // A tie goes to the lower turn order, whatever the order the bids come in.
    assert_eq!(find_trump_chooser(&[(5, 12, 2), (3, 10, 0), (5, 11, 1)]), Some(11));
    assert_eq!(find_trump_chooser(&[(0, 12, 3), (0, 13, 1), (0, 10, 2)]), Some(13));
    assert_eq!(find_trump_chooser(&[(2, 12, 3), (7, 13, 1)]), Some(13));
    assert_eq!(find_trump_chooser(&[]), None);
    assert!(check_trump("Hearts", &facts).is_ok());
    let r = check_trump("hearts", &facts).unwrap_err();
    assert_eq!(r.status, 400);
    let other = TrumpFacts { player_id: Some(12), ..facts };
    let r = check_trump("Clubs", &other).unwrap_err();
    assert_eq!((r.status, r.message.as_str()), (403, "Only the highest bidder can choose the trump suit"));
    let chosen = TrumpFacts { round_trump: Some(Some("Clubs".to_string())), ..other };
    assert_eq!(
        check_trump("Clubs", &chosen).unwrap_err().message,
        "Trump has already been selected for this round"
    );
}

fn play_facts() -> PlayFacts {
    PlayFacts {
        game: Some(Game { phase: GamePhase::Playing, ..bidding_game(Some(1)) }),
        player_turn_order: Some(Some(1)),
        has_round: true,
        hand: vec!["AS".to_string(), "KH".to_string()],
        has_trick: true,
        already_played: false,
        trick_cards: vec!["2S".to_string()],
    }
}

#[test]
fn play_checks() {
    assert!(check_play("AS", &play_facts()).is_ok());
    assert_eq!(
        check_play("KH", &play_facts()).unwrap_err().message,
        "You must follow suit if possible"
    );
    assert_eq!(
        check_play("QD", &play_facts()).unwrap_err().message,
        "You don't have that card in your hand"
    );
    assert_eq!(
        check_play("ZZ", &play_facts()).unwrap_err().message,
        "Invalid card format. Use format like '5S', 'AH', 'KD'"
    );
    let f = PlayFacts { trick_cards: vec![], ..play_facts() };
    assert!(check_play("KH", &f).is_ok());
    let f = PlayFacts { already_played: true, ..play_facts() };
    assert_eq!(
        check_play("AS", &f).unwrap_err().message,
        "You have already played a card in this trick"
    );
    let f = PlayFacts { player_turn_order: Some(Some(0)), ..play_facts() };
    assert_eq!(check_play("AS", &f).unwrap_err().message, "It's not your turn to play");
    let f = PlayFacts { trick_cards: vec!["X".to_string()], ..play_facts() };
    assert_eq!(check_play("AS", &f).unwrap_err().message, "Invalid first card format");
    assert_eq!(check_play("AS", &f).unwrap_err().status, 400);
}

#[test]
fn play_progress_cases() {
    let game = Game { phase: GamePhase::Playing, ..bidding_game(Some(1)) };
    // Players as (player id, turn order); plays carry the player ids.
    let players = vec![(100, Some(0)), (101, Some(1)), (102, Some(2)), (103, Some(3))];
    let partial = vec![("7H".to_string(), 101)];
    let adv = advance_trick_logic(&partial, 4, 1, 1, 13, &None);
    let p = advance_after_play(game, &adv, &players).ok().unwrap();
    assert_eq!(p.game.current_turn, Some(2));
    assert_eq!(p.trick_winner, None);
    assert!(!p.start_next_trick);

    let full = vec![
        ("7H".to_string(), 101),
        ("KH".to_string(), 102),
        ("2H".to_string(), 103),
        ("9H".to_string(), 100),
    ];
    let adv = advance_trick_logic(&full, 4, 0, 1, 13, &None);
    let p = advance_after_play(game, &adv, &players).ok().unwrap();
    assert_eq!(p.trick_winner, Some(102));
    assert!(p.start_next_trick);
    // The winner's seat leads the next trick.
    assert_eq!(p.game.current_turn, Some(2));
    assert_eq!(p.game.phase, GamePhase::Playing);

    let adv = advance_trick_logic(&full, 4, 0, 13, 13, &None);
    let p = advance_after_play(game, &adv, &players).ok().unwrap();
    assert_eq!(p.trick_winner, Some(102));
    assert_eq!(p.game.phase, GamePhase::Scoring);
    assert_eq!(p.game.current_turn, Some(0));
    assert!(!p.start_next_trick);

    let unseated = vec![(102, None)];
    let adv = advance_trick_logic(&full, 4, 0, 1, 13, &None);
    let p = advance_after_play(game, &adv, &unseated).ok().unwrap();
    assert_eq!(p.game.current_turn, Some(0));

    let strangers = vec![(7, Some(0))];
    let r = advance_after_play(game, &adv, &strangers).err().unwrap();
    assert_eq!(r.message, "Winner not found in player list");
}

#[test]
fn game_ids_are_parsed_from_requests() {
    let id = uuid::Uuid::new_v4();
    let text = id.to_string();
    assert_eq!(parse_game_id(&text).ok(), Some(id.as_u128()));
    assert_eq!(requested_game_id(Some(&text)).ok(), Some(id.as_u128()));
    assert_eq!(
        parse_game_id("67e55044-10b1-426f-9247-bb680e5fe0c8").ok(),
        Some(0x67e5504410b1426f9247bb680e5fe0c8)
    );

    let bad = parse_game_id("not-a-game").err().unwrap();
    assert_eq!((bad.status, bad.message.as_str()), (400, "Invalid game ID format"));
    let bad = requested_game_id(Some("12345")).err().unwrap();
    assert_eq!((bad.status, bad.message.as_str()), (400, "Invalid game ID format"));
    let missing = requested_game_id(None).err().unwrap();
    assert_eq!((missing.status, missing.message.as_str()), (400, "Game ID is required"));

    assert_eq!(game_id_of(Some(7)).ok(), Some(7));
    let refused = game_id_of(None).err().unwrap();
    assert_eq!((refused.status, refused.message.as_str()), (400, "Invalid game ID format"));
}
