//! The game record, its lifecycle state and phase, and the lobby: joining,
//! adding AI players, readiness, and the start of play.

use vstd::prelude::*;
use vstd::string::*;

use crate::rules::{MAX_CARDS_PER_ROUND, PLAYER_COUNT};
use crate::GameId;

verus! {

/// Where a game is in its lifecycle.
#[derive(Clone, Copy, Debug, PartialEq, Eq, Structural)]
pub enum GameState {
    Waiting,
    Started,
    Completed,
}

/// What the players of a started game are doing.
#[derive(Clone, Copy, Debug, PartialEq, Eq, Structural)]
pub enum GamePhase {
    Bidding,
    TrumpSelection,
    Playing,
    Scoring,
}

/// The stored name of a state.
pub open spec fn state_name(state: GameState) -> Seq<char> {
    match state {
        GameState::Waiting => "waiting"@,
        GameState::Started => "started"@,
        GameState::Completed => "completed"@,
    }
}

/// The stored name of a phase.
pub open spec fn phase_name(phase: GamePhase) -> Seq<char> {
    match phase {
        GamePhase::Bidding => "bidding"@,
        GamePhase::TrumpSelection => "trump_selection"@,
        GamePhase::Playing => "playing"@,
        GamePhase::Scoring => "scoring"@,
    }
}

/// The name of a phase as its variant is written.
pub open spec fn phase_variant_name(phase: GamePhase) -> Seq<char> {
    match phase {
        GamePhase::Bidding => "Bidding"@,
        GamePhase::TrumpSelection => "TrumpSelection"@,
        GamePhase::Playing => "Playing"@,
        GamePhase::Scoring => "Scoring"@,
    }
}

impl GameState {
    /// The stored name of the state ("waiting", "started", "completed").
    pub fn as_str(&self) -> (name: &'static str)
        ensures
            name@ == state_name(*self),
    {
        match self {
            GameState::Waiting => "waiting",
            GameState::Started => "started",
            GameState::Completed => "completed",
        }
    }
}

impl GamePhase {
    /// The stored name of the phase ("bidding", "trump_selection", "playing",
    /// "scoring").
    pub fn as_str(&self) -> (name: &'static str)
        ensures
            name@ == phase_name(*self),
    {
        match self {
            GamePhase::Bidding => "bidding",
            GamePhase::TrumpSelection => "trump_selection",
            GamePhase::Playing => "playing",
            GamePhase::Scoring => "scoring",
        }
    }

    /// The name of the phase as its variant is written ("Bidding", ...).
    pub fn variant_name(&self) -> (name: &'static str)
        ensures
            name@ == phase_variant_name(*self),
    {
        match self {
            GamePhase::Bidding => "Bidding",
            GamePhase::TrumpSelection => "TrumpSelection",
            GamePhase::Playing => "Playing",
            GamePhase::Scoring => "Scoring",
        }
    }
}

/// What the game logic reads of a stored game.
#[derive(Clone, Copy, Debug, PartialEq, Eq, Structural)]
pub struct Game {
    pub id: GameId,
    pub state: GameState,
    pub phase: GamePhase,
    /// The turn order value of the player to act, if any.
    pub current_turn: Option<i32>,
}

/// Check that the game is in the expected phase.
pub fn assert_phase(game: &Game, expected_phase: GamePhase) -> (checked: Result<(), String>)
    ensures
        game.phase == expected_phase ==> checked is Ok,
        game.phase != expected_phase ==> (checked matches Err(e) && e@ == "Game is in "@
            + phase_variant_name(game.phase) + " phase, expected "@ + phase_variant_name(
            expected_phase,
        )),
{
    if game.phase != expected_phase {
        let message = String::from_str("Game is in ").concat(game.phase.variant_name()).concat(
            " phase, expected ",
        ).concat(expected_phase.variant_name());
        Err(message)
    } else {
        Ok(())
    }
}

/// Why a lobby request (join, add an AI player, mark ready) is refused.
#[derive(Clone, Copy, Debug, PartialEq, Eq, Structural)]
pub enum LobbyError {
    /// The game has left the waiting state.
    NotWaiting,
    /// The user already plays in the game.
    AlreadyInGame,
    /// The user does not play in the game.
    NotInGame,
    /// The game already has four players.
    GameFull,
    /// The user has no player record in the game.
    PlayerNotFound,
    /// The player is already marked ready.
    AlreadyReady,
}

/// The message that answers a refused lobby request.
pub open spec fn lobby_message(e: LobbyError) -> Seq<char> {
    match e {
        LobbyError::NotWaiting => "Game is not in waiting state"@,
        LobbyError::AlreadyInGame => "User is already in this game"@,
        LobbyError::NotInGame => "User is not in this game"@,
        LobbyError::GameFull => "Game is full"@,
        LobbyError::PlayerNotFound => "Player not found in game"@,
        LobbyError::AlreadyReady => "Player is already ready"@,
    }
}

/// The HTTP status that answers a refused lobby request.
pub open spec fn lobby_status(e: LobbyError) -> u16 {
    match e {
        LobbyError::NotInGame => 403,
        LobbyError::PlayerNotFound => 404,
        _ => 400,
    }
}

impl LobbyError {
    /// The message that answers the refused request.
    pub fn message(&self) -> (m: &'static str)
        ensures
            m@ == lobby_message(*self),
    {
        match self {
            LobbyError::NotWaiting => "Game is not in waiting state",
            LobbyError::AlreadyInGame => "User is already in this game",
            LobbyError::NotInGame => "User is not in this game",
            LobbyError::GameFull => "Game is full",
            LobbyError::PlayerNotFound => "Player not found in game",
            LobbyError::AlreadyReady => "Player is already ready",
        }
    }

    /// The HTTP status that answers the refused request.
    pub fn status(&self) -> (code: u16)
        ensures
            code == lobby_status(*self),
    {
        match self {
            LobbyError::NotInGame => 403,
            LobbyError::PlayerNotFound => 404,
            _ => 400,
        }
    }
}

/// The outcome of a request to seat a player in a game: refused unless the
/// game is waiting; refused with `refusal` when `refused` holds; refused when
/// the game already has four players; otherwise the newcomer takes the next
/// turn order, the current player count.
pub open spec fn seating(state: GameState, refused: bool, refusal: LobbyError, player_count: int) -> Result<
    i32,
    LobbyError,
> {
    if state != GameState::Waiting {
        Err(LobbyError::NotWaiting)
    } else if refused {
        Err(refusal)
    } else if player_count >= PLAYER_COUNT {
        Err(LobbyError::GameFull)
    } else {
        Ok(player_count as i32)
    }
}

/// The turn order given to a user joining a game, or why the join is
/// refused: the game must be waiting, the user must not already play in it,
/// and it must have room.
pub fn join_turn_order(state: GameState, already_in_game: bool, player_count: usize) -> (joined:
    Result<i32, LobbyError>)
    ensures
        joined == seating(state, already_in_game, LobbyError::AlreadyInGame, player_count as int),
{
    if state != GameState::Waiting {
        return Err(LobbyError::NotWaiting);
    }
    if already_in_game {
        return Err(LobbyError::AlreadyInGame);
    }
    if player_count >= PLAYER_COUNT {
        return Err(LobbyError::GameFull);
    }
    Ok(player_count as i32)
}

/// The turn order given to an AI player added by a member of the game, or
/// why the addition is refused: the game must be waiting, the requesting
/// user must play in it, and it must have room.
pub fn ai_turn_order(state: GameState, requester_in_game: bool, player_count: usize) -> (added:
    Result<i32, LobbyError>)
    ensures
        added == seating(state, !requester_in_game, LobbyError::NotInGame, player_count as int),
{
    if state != GameState::Waiting {
        return Err(LobbyError::NotWaiting);
    }
    if !requester_in_game {
        return Err(LobbyError::NotInGame);
    }
    if player_count >= PLAYER_COUNT {
        return Err(LobbyError::GameFull);
    }
    Ok(player_count as i32)
}

/// Whether a player may be marked ready: the game must be waiting, and the
/// player (whose readiness is `readiness`, none when the user has no player
/// record in the game) must not be ready already.
pub fn check_mark_ready(state: GameState, readiness: Option<bool>) -> (checked: Result<
    (),
    LobbyError,
>)
    ensures
        state != GameState::Waiting ==> checked == Err::<(), LobbyError>(LobbyError::NotWaiting),
        state == GameState::Waiting && readiness is None ==> checked == Err::<(), LobbyError>(
            LobbyError::PlayerNotFound,
        ),
        state == GameState::Waiting && readiness == Some(true) ==> checked == Err::<
            (),
            LobbyError,
        >(LobbyError::AlreadyReady),
        state == GameState::Waiting && readiness == Some(false) ==> checked is Ok,
{
    if state != GameState::Waiting {
        return Err(LobbyError::NotWaiting);
    }
    match readiness {
        None => Err(LobbyError::PlayerNotFound),
        Some(true) => Err(LobbyError::AlreadyReady),
        Some(false) => Ok(()),
    }
}

/// A game starts once exactly four players are in it and all are ready.
pub open spec fn ready_to_start(readiness: Seq<bool>) -> bool {
    readiness.len() == PLAYER_COUNT && forall|i: int| 0 <= i < readiness.len() ==> #[trigger] readiness[i]
}

/// Whether the game should start, given the readiness of each of its players.
pub fn should_start_game(readiness: &[bool]) -> (start: bool)
    ensures
        start == ready_to_start(readiness@),
{
    if readiness.len() != PLAYER_COUNT {
        return false;
    }
    let mut i: usize = 0;
    while i < readiness.len()
        invariant
            i <= readiness@.len(),
            forall|j: int| 0 <= j < i ==> #[trigger] readiness@[j],
        decreases readiness@.len() - i,
    {
        if !readiness[i] {
            return false;
        }
        i = i + 1;
    }
    true
}

/// The round number of the first round.
pub const FIRST_ROUND_NUMBER: i32 = 1;

/// Cards dealt to each player in the first round.
pub const FIRST_ROUND_CARDS: i32 = MAX_CARDS_PER_ROUND;

/// The game as it starts: started, in the bidding phase, player 0 to act.
pub fn start_game(game: Game) -> (started: Game)
    ensures
        started == (Game {
            state: GameState::Started,
            phase: GamePhase::Bidding,
            current_turn: Some(0),
            ..game
        }),
{
    Game { state: GameState::Started, phase: GamePhase::Bidding, current_turn: Some(0), ..game }
}

/// A newly created game: waiting for players, in the bidding phase, with no
/// one to act.
pub fn new_game(id: GameId) -> (game: Game)
    ensures
        game == (Game {
            id,
            state: GameState::Waiting,
            phase: GamePhase::Bidding,
            current_turn: None,
        }),
{
    Game { id, state: GameState::Waiting, phase: GamePhase::Bidding, current_turn: None }
}

/// The turn order of the user who creates a game.
pub const CREATOR_TURN_ORDER: i32 = 0;

/// A lobby admits at most four players, seated in turn orders 0 to 3 in the
/// order they arrive: a seating that succeeds gives the newcomer the current
/// player count, which is below four, so four successive seatings from an
/// empty game give the turn orders 0, 1, 2, 3; and no seating succeeds once
/// the game has left the waiting state.
pub proof fn lemma_lobby_seating(state: GameState, refused: bool, refusal: LobbyError, player_count: int)
    requires
        player_count >= 0,
    ensures
        seating(state, refused, refusal, player_count) matches Ok(t) ==> 0 <= t < PLAYER_COUNT && t
            == player_count,
        state != GameState::Waiting ==> seating(state, refused, refusal, player_count) is Err,
        state == GameState::Waiting && !refused && player_count < PLAYER_COUNT ==> seating(
            state,
            refused,
            refusal,
            player_count,
        ) is Ok,
{
}

} // verus!
