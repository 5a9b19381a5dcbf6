//! Requests made during a round: bidding, choosing trump, and playing a card.
//! Each request is checked against what is stored, and an accepted request
//! moves the game on.

use vstd::prelude::*;
use vstd::string::*;

use crate::bidding::{valid_bid, MAX_BID, MIN_BID};
use crate::cards::{ascii_prefix, get_card_suit, is_valid_card_format, str_eq, suit_of, valid_card};
use crate::game::{Game, GamePhase};
use crate::rules::rem_toward_zero;
use crate::tricks::{hand_contains, hand_contains_card, hand_has_suit, hand_well_formed, TrickAdvancement};
use crate::{GameId, PlayerId};

verus! {

/// A refused request: the HTTP status and the message that answer it.
pub struct Refusal {
    pub status: u16,
    pub message: String,
}

/// The status and message of a refusal.
pub open spec fn refusal_view(r: Refusal) -> (u16, Seq<char>) {
    (r.status, r.message@)
}

/// The answer to a request: accepted, or refused with the given status and
/// message.
pub open spec fn answers(result: Result<(), Refusal>, expected: Option<(u16, Seq<char>)>) -> bool {
    match expected {
        None => result is Ok,
        Some(x) => result matches Err(r) && refusal_view(r) == x,
    }
}

pub(crate) fn refuse(status: u16, message: &str) -> (r: Refusal)
    ensures
        refusal_view(r) == (status, message@),
{
    Refusal { status, message: String::from_str(message) }
}

/// What `uuid::Uuid::parse_str` makes of a text: the UUID's 128 bits, or
/// none when the text is not a UUID in a form the crate accepts.
pub uninterp spec fn parsed_uuid(text: Seq<char>) -> Option<u128>;

/// Parses a UUID with `uuid::Uuid::parse_str`. The contract claims only that
/// the result is `parsed_uuid` of the text, its 128 bits when it parses;
/// which texts parse is left to the crate.
#[verifier::external_body]
fn parse_uuid(text: &str) -> (id: Option<u128>)
    ensures
        id == parsed_uuid(text@),
{
    uuid::Uuid::parse_str(text).ok().map(|u| u.as_u128())
}

/// The game id of a parsed id, or the refusal of an id that did not parse.
pub fn game_id_of(parsed: Option<u128>) -> (id: Result<GameId, Refusal>)
    ensures
        match parsed {
            Some(u) => id matches Ok(g) && g == u,
            None => id matches Err(r) && refusal_view(r) == (400u16, "Invalid game ID format"@),
        },
{
    match parsed {
        Some(u) => Ok(u),
        None => Err(refuse(400, "Invalid game ID format")),
    }
}

/// The game id written in a request, or the refusal of a malformed one.
pub fn parse_game_id(text: &str) -> (id: Result<GameId, Refusal>)
    ensures
        match parsed_uuid(text@) {
            Some(u) => id matches Ok(g) && g == u,
            None => id matches Err(r) && refusal_view(r) == (400u16, "Invalid game ID format"@),
        },
{
    game_id_of(parse_uuid(text))
}

/// The game id given as a request's query parameter: refused when the
/// parameter is missing or malformed.
pub fn requested_game_id(text: Option<&str>) -> (id: Result<GameId, Refusal>)
    ensures
        match text {
            None => id matches Err(r) && refusal_view(r) == (400u16, "Game ID is required"@),
            Some(t) => match parsed_uuid(t@) {
                Some(u) => id matches Ok(g) && g == u,
                None => id matches Err(r) && refusal_view(r) == (400u16, "Invalid game ID format"@),
            },
        },
{
    match text {
        None => Err(refuse(400, "Game ID is required")),
        Some(t) => parse_game_id(t),
    }
}

/// Whether it is the player's turn: the player's turn order (-1 when unset)
/// equals the game's current turn (0 when unset).
pub open spec fn is_players_turn(game: Game, player_turn_order: Option<i32>) -> bool {
    player_turn_order.unwrap_or(-1i32) == game.current_turn.unwrap_or(0i32)
}

/// What a bid request is checked against.
pub struct BidFacts {
    /// The bid made.
    pub bid: i32,
    /// The game, if it exists.
    pub game: Option<Game>,
    /// The bidder's turn order, if the bidder plays in the game.
    pub player_turn_order: Option<Option<i32>>,
    /// Whether the game has a current round.
    pub has_round: bool,
    /// Whether the bidder has already bid in the current round.
    pub already_bid: bool,
}

/// How a bid request is answered, in the order of the checks: the bid must
/// lie in 0..=13, the game must exist, the bidder must play in it, the game
/// must be bidding, there must be a round, the bidder must not have bid in it
/// yet, and it must be the bidder's turn.
pub open spec fn bid_refusal(f: BidFacts) -> Option<(u16, Seq<char>)> {
    if !valid_bid(f.bid as int) {
        Some((400u16, "Bid must be between 0 and 13"@))
    } else if f.game is None {
        Some((404u16, "Game not found"@))
    } else if f.player_turn_order is None {
        Some((403u16, "You are not a participant in this game"@))
    } else if f.game.unwrap().phase != GamePhase::Bidding {
        Some((400u16, "Game is not in bidding phase"@))
    } else if !f.has_round {
        Some((400u16, "No current round found"@))
    } else if f.already_bid {
        Some((400u16, "You have already submitted a bid for this round"@))
    } else if !is_players_turn(f.game.unwrap(), f.player_turn_order.unwrap()) {
        Some((400u16, "It's not your turn to bid"@))
    } else {
        None
    }
}

/// Check a bid request.
pub fn check_bid(facts: &BidFacts) -> (checked: Result<(), Refusal>)
    ensures
        answers(checked, bid_refusal(*facts)),
{
    if facts.bid < MIN_BID || facts.bid > MAX_BID {
        return Err(refuse(400, "Bid must be between 0 and 13"));
    }
    let game = match facts.game {
        Some(g) => g,
        None => return Err(refuse(404, "Game not found")),
    };
    let turn_order = match facts.player_turn_order {
        Some(t) => t,
        None => return Err(refuse(403, "You are not a participant in this game")),
    };
    if game.phase != GamePhase::Bidding {
        return Err(refuse(400, "Game is not in bidding phase"));
    }
    if !facts.has_round {
        return Err(refuse(400, "No current round found"));
    }
    if facts.already_bid {
        return Err(refuse(400, "You have already submitted a bid for this round"));
    }
    let player_turn = match turn_order {
        Some(t) => t,
        None => -1,
    };
    let current_turn = match game.current_turn {
        Some(t) => t,
        None => 0,
    };
    if player_turn != current_turn {
        return Err(refuse(400, "It's not your turn to bid"));
    }
    Ok(())
}

/// The game after an accepted bid: once every player has bid, trump
/// selection begins with turn 0; otherwise the turn passes to the next
/// player.
pub open spec fn game_after_bid(game: Game, bid_count: int, player_count: int) -> Game {
    if bid_count == player_count {
        Game { phase: GamePhase::TrumpSelection, current_turn: Some(0), ..game }
    } else {
        Game {
            current_turn: Some(rem_toward_zero(game.current_turn.unwrap_or(0i32) + 1, 4) as i32),
            ..game
        }
    }
}

/// The game after an accepted bid, given the number of bids now in the
/// round and the number of players.
pub fn advance_after_bid(game: Game, bid_count: usize, player_count: usize) -> (next: Game)
    requires
        game.current_turn.unwrap_or(0i32) < i32::MAX,
    ensures
        next == game_after_bid(game, bid_count as int, player_count as int),
{
    if bid_count == player_count {
        Game { phase: GamePhase::TrumpSelection, current_turn: Some(0), ..game }
    } else {
        let current_turn = match game.current_turn {
            Some(t) => t,
            None => 0,
        };
        Game { current_turn: Some((current_turn + 1) % 4), ..game }
    }
}

/// A trump choice that may be made.
pub open spec fn valid_trump_name(name: Seq<char>) -> bool {
    name == "Spades"@ || name == "Hearts"@ || name == "Diamonds"@ || name == "Clubs"@ || name
        == "NoTrump"@
}

/// Whether a trump choice is one of Spades, Hearts, Diamonds, Clubs, NoTrump.
pub fn is_valid_trump_name(name: &str) -> (valid: bool)
    ensures
        valid == valid_trump_name(name@),
{
    str_eq(name, "Spades") || str_eq(name, "Hearts") || str_eq(name, "Diamonds") || str_eq(
        name,
        "Clubs",
    ) || str_eq(name, "NoTrump")
}

/// What a trump request is checked against.
pub struct TrumpFacts {
    /// The game, if it exists.
    pub game: Option<Game>,
    /// The trump already chosen in the current round, if there is a round.
    pub round_trump: Option<Option<String>>,
    /// The bids of the current round as (bid, bidder's player id, bidder's
    /// turn order), in the order stored.
    pub bids: Vec<(i32, PlayerId, i32)>,
    /// The requester's player id, if the requester plays in the game.
    pub player_id: Option<PlayerId>,
}

/// Bid `a` ranks above bid `b` for choosing trump: it is higher, or equal
/// and made from a lower turn order.
pub open spec fn outbids(a: (i32, PlayerId, i32), b: (i32, PlayerId, i32)) -> bool {
    a.0 > b.0 || (a.0 == b.0 && a.2 < b.2)
}

/// Bid `w` chooses trump: no bid ranks above it, and it ranks above every
/// bid stored before it (so among bids alike in amount and turn order the
/// first stored one chooses).
pub open spec fn is_trump_chooser(bids: Seq<(i32, PlayerId, i32)>, w: int) -> bool {
    &&& 0 <= w < bids.len()
    &&& forall|j: int| 0 <= j < bids.len() ==> !outbids(#[trigger] bids[j], bids[w])
    &&& forall|j: int| 0 <= j < w ==> outbids(bids[w], #[trigger] bids[j])
}

/// The player who chooses trump: the one who made the highest bid, a tie
/// going to the bidder of the lowest turn order; none when there are no bids
/// (a missing chooser compares as the nil id 0).
pub open spec fn trump_chooser(bids: Seq<(i32, PlayerId, i32)>) -> Option<PlayerId> {
    if bids.len() > 0 {
        Some(bids[choose|w: int| is_trump_chooser(bids, w)].1)
    } else {
        None
    }
}

proof fn lemma_trump_chooser_unique(bids: Seq<(i32, PlayerId, i32)>, v: int, w: int)
    requires
        is_trump_chooser(bids, v),
        is_trump_chooser(bids, w),
    ensures
        v == w,
{
    if v < w {
        assert(outbids(bids[w], bids[v]));
        assert(!outbids(bids[w], bids[v]));
    } else if w < v {
        assert(outbids(bids[v], bids[w]));
        assert(!outbids(bids[v], bids[w]));
    }
}

/// The player who chooses trump, from the round's bids.
pub fn find_trump_chooser(bids: &[(i32, PlayerId, i32)]) -> (chooser: Option<PlayerId>)
    ensures
        chooser == trump_chooser(bids@),
        bids@.len() > 0 ==> exists|w: int| is_trump_chooser(bids@, w),
{
    if bids.len() == 0 {
        return None;
    }
    let mut best: usize = 0;
    let mut i: usize = 1;
    while i < bids.len()
        invariant
            1 <= i <= bids@.len(),
            best < i,
            forall|j: int| 0 <= j < i ==> !outbids(#[trigger] bids@[j], bids@[best as int]),
            forall|j: int| 0 <= j < best ==> outbids(bids@[best as int], #[trigger] bids@[j]),
        decreases bids@.len() - i,
    {
        let (b, _, t) = bids[i];
        let (bb, _, bt) = bids[best];
        if b > bb || (b == bb && t < bt) {
            proof {
                assert(outbids(bids@[i as int], bids@[best as int]));
            }
            best = i;
        }
        i = i + 1;
    }
    proof {
        assert(is_trump_chooser(bids@, best as int));
        lemma_trump_chooser_unique(bids@, best as int, choose|w: int| is_trump_chooser(bids@, w));
    }
    Some(bids[best].1)
}

/// The trump chooser made the highest bid, and among the bidders of the
/// highest bid sits at the lowest turn order: every bid is at most the
/// chooser's, and every bid equal to it comes from a turn order no lower.
pub proof fn lemma_trump_chooser_is_highest_bidder(bids: Seq<(i32, PlayerId, i32)>, w: int)
    requires
        is_trump_chooser(bids, w),
    ensures
        trump_chooser(bids) == Some(bids[w].1),
        forall|j: int| 0 <= j < bids.len() ==> #[trigger] bids[j].0 <= bids[w].0,
        forall|j: int| 0 <= j < bids.len() && #[trigger] bids[j].0 == bids[w].0 ==> bids[w].2 <= bids[j].2,
{
    lemma_trump_chooser_unique(bids, w, choose|v: int| is_trump_chooser(bids, v));
    assert forall|j: int| 0 <= j < bids.len() implies #[trigger] bids[j].0 <= bids[w].0 by {
        assert(!outbids(bids[j], bids[w]));
    }
    assert forall|j: int| 0 <= j < bids.len() && #[trigger] bids[j].0 == bids[w].0 implies bids[w].2 <= bids[j].2 by {
        assert(!outbids(bids[j], bids[w]));
    }
}

/// How a trump request is answered, in the order of the checks: the choice
/// must be a valid name, the game must exist and be selecting trump, there
/// must be a round whose trump is not chosen yet, the requester must play in
/// the game and must be the trump chooser (the highest bidder, ties going
/// to the lowest turn order).
pub open spec fn trump_refusal(name: Seq<char>, f: TrumpFacts) -> Option<(u16, Seq<char>)> {
    if !valid_trump_name(name) {
        Some(
            (
                400u16,
                "Invalid trump suit. Must be one of: Spades, Hearts, Diamonds, Clubs, NoTrump"@,
            ),
        )
    } else if f.game is None {
        Some((404u16, "Game not found"@))
    } else if f.game.unwrap().phase != GamePhase::TrumpSelection {
        Some((400u16, "Game is not in trump selection phase"@))
    } else if f.round_trump is None {
        Some((400u16, "No current round found"@))
    } else if f.round_trump.unwrap() is Some {
        Some((400u16, "Trump has already been selected for this round"@))
    } else if f.player_id is None {
        Some((403u16, "You are not a participant in this game"@))
    } else if f.player_id.unwrap() != trump_chooser(f.bids@).unwrap_or(0u128) {
        Some((403u16, "Only the highest bidder can choose the trump suit"@))
    } else {
        None
    }
}

/// Check a trump request.
pub fn check_trump(name: &str, facts: &TrumpFacts) -> (checked: Result<(), Refusal>)
    ensures
        answers(checked, trump_refusal(name@, *facts)),
{
    if !is_valid_trump_name(name) {
        return Err(
            refuse(
                400,
                "Invalid trump suit. Must be one of: Spades, Hearts, Diamonds, Clubs, NoTrump",
            ),
        );
    }
    let game = match facts.game {
        Some(g) => g,
        None => return Err(refuse(404, "Game not found")),
    };
    if game.phase != GamePhase::TrumpSelection {
        return Err(refuse(400, "Game is not in trump selection phase"));
    }
    match &facts.round_trump {
        None => return Err(refuse(400, "No current round found")),
        Some(Some(_)) => return Err(refuse(400, "Trump has already been selected for this round")),
        Some(None) => {},
    }
    let chooser = find_trump_chooser(facts.bids.as_slice());
    let player_id = match facts.player_id {
        Some(p) => p,
        None => return Err(refuse(403, "You are not a participant in this game")),
    };
    let chooser_id = match chooser {
        Some(c) => c,
        None => 0,
    };
    if player_id != chooser_id {
        return Err(refuse(403, "Only the highest bidder can choose the trump suit"));
    }
    Ok(())
}

/// The game once trump is chosen: play begins with turn 0.
pub fn advance_after_trump(game: Game) -> (next: Game)
    ensures
        next == (Game { phase: GamePhase::Playing, current_turn: Some(0), ..game }),
{
    Game { phase: GamePhase::Playing, current_turn: Some(0), ..game }
}

/// What a card play is checked against.
pub struct PlayFacts {
    /// The game, if it exists.
    pub game: Option<Game>,
    /// The player's turn order, if the requester plays in the game.
    pub player_turn_order: Option<Option<i32>>,
    /// Whether the game has a current round.
    pub has_round: bool,
    /// The player's hand in the current round.
    pub hand: Vec<String>,
    /// Whether the round has a current trick.
    pub has_trick: bool,
    /// Whether the player has already played in the current trick.
    pub already_played: bool,
    /// The cards played so far in the current trick, in play order.
    pub trick_cards: Vec<String>,
}

/// The play gets as far as the follow-suit check: every earlier check passes
/// and the trick already has a lead card.
pub open spec fn play_reaches_suit_check(card: Seq<char>, f: PlayFacts) -> bool {
    &&& valid_card(card)
    &&& f.game matches Some(g) && g.phase == GamePhase::Playing
    &&& f.player_turn_order matches Some(t) && is_players_turn(f.game.unwrap(), t)
    &&& f.has_round
    &&& hand_contains(f.hand@, card)
    &&& f.has_trick
    &&& !f.already_played
    &&& f.trick_cards@.len() > 0
}

/// How a card play is answered (always with status 400 when refused), in the
/// order of the checks: the card must be well formed, the game must exist and
/// be in play, the requester must play in it and have the turn, there must be
/// a round, the card must be in the hand, there must be a trick in which the
/// player has not yet played, the lead card must have a suit, and a card off
/// the lead suit is refused while the hand holds the lead suit.
pub open spec fn play_refusal(card: Seq<char>, f: PlayFacts) -> Option<(u16, Seq<char>)> {
    if !valid_card(card) {
        Some((400u16, "Invalid card format. Use format like '5S', 'AH', 'KD'"@))
    } else if f.game is None {
        Some((400u16, "Game not found"@))
    } else if f.game.unwrap().phase != GamePhase::Playing {
        Some((400u16, "Game is not in playing phase"@))
    } else if f.player_turn_order is None {
        Some((400u16, "You are not a participant in this game"@))
    } else if !is_players_turn(f.game.unwrap(), f.player_turn_order.unwrap()) {
        Some((400u16, "It's not your turn to play"@))
    } else if !f.has_round {
        Some((400u16, "No current round found"@))
    } else if !hand_contains(f.hand@, card) {
        Some((400u16, "You don't have that card in your hand"@))
    } else if !f.has_trick {
        Some((400u16, "No current trick found"@))
    } else if f.already_played {
        Some((400u16, "You have already played a card in this trick"@))
    } else if f.trick_cards@.len() > 0 && suit_of(f.trick_cards@[0]@) is None {
        Some((400u16, "Invalid first card format"@))
    } else if f.trick_cards@.len() > 0 && suit_of(card) != suit_of(f.trick_cards@[0]@)
        && hand_has_suit(f.hand@, suit_of(f.trick_cards@[0]@).unwrap()) {
        Some((400u16, "You must follow suit if possible"@))
    } else {
        None
    }
}

/// Check a card play.
pub fn check_play(card: &str, facts: &PlayFacts) -> (checked: Result<(), Refusal>)
    requires
        play_reaches_suit_check(card@, *facts) ==> ascii_prefix(facts.trick_cards@[0]@, 2),
        play_reaches_suit_check(card@, *facts) && suit_of(card@) != suit_of(
            facts.trick_cards@[0]@,
        ) ==> hand_well_formed(facts.hand@),
    ensures
        answers(checked, play_refusal(card@, *facts)),
{
    if !is_valid_card_format(card) {
        return Err(refuse(400, "Invalid card format. Use format like '5S', 'AH', 'KD'"));
    }
    let game = match facts.game {
        Some(g) => g,
        None => return Err(refuse(400, "Game not found")),
    };
    if game.phase != GamePhase::Playing {
        return Err(refuse(400, "Game is not in playing phase"));
    }
    let turn_order = match facts.player_turn_order {
        Some(t) => t,
        None => return Err(refuse(400, "You are not a participant in this game")),
    };
    let player_turn = match turn_order {
        Some(t) => t,
        None => -1,
    };
    let current_turn = match game.current_turn {
        Some(t) => t,
        None => 0,
    };
    if player_turn != current_turn {
        return Err(refuse(400, "It's not your turn to play"));
    }
    if !facts.has_round {
        return Err(refuse(400, "No current round found"));
    }
    if !hand_contains_card(facts.hand.as_slice(), card) {
        return Err(refuse(400, "You don't have that card in your hand"));
    }
    if !facts.has_trick {
        return Err(refuse(400, "No current trick found"));
    }
    if facts.already_played {
        return Err(refuse(400, "You have already played a card in this trick"));
    }
    if facts.trick_cards.len() > 0 {
        let lead_suit = match get_card_suit(facts.trick_cards[0].as_str()) {
            Some(s) => s,
            None => return Err(refuse(400, "Invalid first card format")),
        };
        let card_suit = match get_card_suit(card) {
            Some(s) => s,
            None => return Err(refuse(400, "Invalid card format")),
        };
        if !str_eq(card_suit, lead_suit) {
            if crate::tricks::can_follow_suit(facts.hand.as_slice(), lead_suit) {
                return Err(refuse(400, "You must follow suit if possible"));
            }
        }
    }
    Ok(())
}

/// How the game moves on once a play is recorded.
pub struct PlayProgress {
    /// The game after the play.
    pub game: Game,
    /// The player (game player id) to record as the trick's winner, if the
    /// trick is complete.
    pub trick_winner: Option<PlayerId>,
    /// Whether a new trick is to be started.
    pub start_next_trick: bool,
}

/// The seat (turn order) of the first player with id `id` (players given as
/// (player id, turn order)), if such a player exists.
pub open spec fn seat_of(players: Seq<(PlayerId, Option<i32>)>, id: PlayerId) -> Option<Option<i32>> {
    if exists|i: int| 0 <= i < players.len() && #[trigger] players[i].0 == id {
        Some(
            players[choose|i: int|
                0 <= i < players.len() && players[i].0 == id && forall|j: int|
                    0 <= j < i ==> #[trigger] players[j].0 != id].1,
        )
    } else {
        None
    }
}

/// Find the seat of a player.
pub fn find_seat(players: &[(PlayerId, Option<i32>)], id: PlayerId) -> (found: Option<Option<i32>>)
    ensures
        found == seat_of(players@, id),
{
    let mut i: usize = 0;
    while i < players.len()
        invariant
            i <= players@.len(),
            forall|j: int| 0 <= j < i ==> #[trigger] players@[j].0 != id,
        decreases players@.len() - i,
    {
        if players[i].0 == id {
            proof {
                let k = choose|k: int|
                    0 <= k < players@.len() && players@[k].0 == id && forall|j: int|
                        0 <= j < k ==> #[trigger] players@[j].0 != id;
                if k < i {
                } else if k > i {
                    assert(players@[i as int].0 != id);
                }
            }
            return Some(players[i].1);
        }
        i = i + 1;
    }
    None
}

/// How the game moves on after a play, given the trick advancement and the
/// players as (player id, turn order): an incomplete trick passes the turn;
/// a complete trick records its winner (the player who made the winning
/// play, refused when no such player is in the game or the trick has no
/// winner), then ends the round (scoring phase, turn 0) or starts a new
/// trick led by the winner, whose seat takes the turn (seat 0 when the
/// winner has no turn order).
pub open spec fn play_progress(
    game: Game,
    adv: TrickAdvancement,
    players: Seq<(PlayerId, Option<i32>)>,
) -> Result<(Game, Option<PlayerId>, bool), (u16, Seq<char>)> {
    if !adv.trick_complete {
        Ok((Game { current_turn: Some(adv.next_turn), ..game }, None, false))
    } else if adv.winner_user_id is None {
        Err((400u16, "Failed to determine trick winner"@))
    } else if seat_of(players, adv.winner_user_id.unwrap()) is None {
        Err((400u16, "Winner not found in player list"@))
    } else if adv.round_complete {
        Ok((Game { phase: GamePhase::Scoring, current_turn: Some(0), ..game }, adv.winner_user_id, false))
    } else {
        let seat = seat_of(players, adv.winner_user_id.unwrap()).unwrap();
        Ok((Game { current_turn: Some(seat.unwrap_or(0i32)), ..game }, adv.winner_user_id, true))
    }
}

/// Move the game on after a recorded play.
pub fn advance_after_play(game: Game, adv: &TrickAdvancement, players: &[(PlayerId, Option<i32>)]) -> (progress: Result<PlayProgress, Refusal>)
    ensures
        match play_progress(game, *adv, players@) {
            Ok((g, w, t)) => progress matches Ok(p) && p.game == g && p.trick_winner == w
                && p.start_next_trick == t,
            Err(x) => progress matches Err(r) && refusal_view(r) == x,
        },
{
    if !adv.trick_complete {
        return Ok(
            PlayProgress {
                game: Game { current_turn: Some(adv.next_turn), ..game },
                trick_winner: None,
                start_next_trick: false,
            },
        );
    }
    let winner = match adv.winner_user_id {
        Some(w) => w,
        None => return Err(refuse(400, "Failed to determine trick winner")),
    };
    let seat = match find_seat(players, winner) {
        Some(s) => s,
        None => return Err(refuse(400, "Winner not found in player list")),
    };
    if adv.round_complete {
        Ok(
            PlayProgress {
                game: Game { phase: GamePhase::Scoring, current_turn: Some(0), ..game },
                trick_winner: Some(winner),
                start_next_trick: false,
            },
        )
    } else {
        let lead = match seat {
            Some(t) => t,
            None => 0,
        };
        Ok(
            PlayProgress {
                game: Game { current_turn: Some(lead), ..game },
                trick_winner: Some(winner),
                start_next_trick: true,
            },
        )
    }
}

/// The winner of a trick leads the next one: when a play completes a trick
/// that does not end the round, the winning play's player is recorded as the
/// winner, a new trick is started, and the turn passes to the winner's seat;
/// the game's id, state and phase are kept.
pub proof fn lemma_trick_winner_leads(
    game: Game,
    adv: TrickAdvancement,
    players: Seq<(PlayerId, Option<i32>)>,
    i: int,
)
    requires
        adv.trick_complete,
        !adv.round_complete,
        adv.winner_user_id == Some(players[i].0),
        0 <= i < players.len(),
        forall|j: int| 0 <= j < i ==> #[trigger] players[j].0 != players[i].0,
        players[i].1 is Some,
    ensures
        play_progress(game, adv, players) matches Ok((g, w, t)) && g.current_turn == players[i].1
            && w == Some(players[i].0) && t && g.id == game.id && g.state == game.state
            && g.phase == game.phase,
{
    let id = players[i].0;
    assert(exists|k: int| 0 <= k < players.len() && #[trigger] players[k].0 == id);
    let k = choose|k: int|
        0 <= k < players.len() && players[k].0 == id && forall|j: int|
            0 <= j < k ==> #[trigger] players[j].0 != id;
    if k < i {
    } else if k > i {
        assert(players[i].0 != id);
    }
}

/// An accepted play is of a card in the player's hand, and it follows the
/// lead suit whenever the hand holds a card of the lead suit.
pub proof fn lemma_accepted_play_follows_suit(card: Seq<char>, f: PlayFacts)
    requires
        play_refusal(card, f) is None,
    ensures
        valid_card(card),
        hand_contains(f.hand@, card),
        f.trick_cards@.len() > 0 ==> crate::tricks::follows_suit_rule(
            card,
            suit_of(f.trick_cards@[0]@).unwrap(),
            f.hand@,
        ),
{
}

/// Bidding passes the turn one seat round the table after each bid, keeping
/// the phase, until the last player has bid; then trump selection begins at
/// turn 0. The game's id and state never change.
pub proof fn lemma_bidding_turns(game: Game, bid_count: int, player_count: int)
    requires
        game.phase == GamePhase::Bidding,
        game.current_turn matches Some(t) && 0 <= t < 4,
    ensures
        game_after_bid(game, bid_count, player_count).id == game.id,
        game_after_bid(game, bid_count, player_count).state == game.state,
        bid_count != player_count ==> game_after_bid(game, bid_count, player_count).phase
            == GamePhase::Bidding && game_after_bid(game, bid_count, player_count).current_turn
            == Some(((game.current_turn.unwrap() + 1) % 4) as i32),
        bid_count == player_count ==> game_after_bid(game, bid_count, player_count).phase
            == GamePhase::TrumpSelection && game_after_bid(game, bid_count, player_count).current_turn
            == Some(0i32),
{
}

/// Only a player of the game may delete it.
pub fn check_delete(user_in_game: bool) -> (checked: Result<(), Refusal>)
    ensures
        answers(
            checked,
            if user_in_game {
                None
            } else {
                Some((403u16, "User is not a participant in this game"@))
            },
        ),
{
    if !user_in_game {
        return Err(refuse(403, "User is not a participant in this game"));
    }
    Ok(())
}

/// A bid outside 0..=13 is refused as such, whatever else holds; a bid in
/// range, made in its turn by a seated player of a bidding game with a
/// current round in which the player has not bid yet, is accepted.
pub proof fn lemma_bid_range(f: BidFacts)
    ensures
        (f.bid < 0 || f.bid > 13) ==> bid_refusal(f) == Some((400u16, "Bid must be between 0 and 13"@)),
        bid_refusal(f) is None ==> 0 <= f.bid <= 13,
        (0 <= f.bid <= 13 && f.game is Some && f.game.unwrap().phase == GamePhase::Bidding
            && f.player_turn_order is Some && f.player_turn_order.unwrap().unwrap_or(-1i32)
            == f.game.unwrap().current_turn.unwrap_or(0i32) && f.has_round && !f.already_bid)
            ==> bid_refusal(f) is None,
{
}

/// Each of the five trump names (Spades, Hearts, Diamonds, Clubs, NoTrump)
/// is accepted from the trump chooser while the game selects trump and the
/// round's trump is not yet chosen; any other name is refused as invalid.
pub proof fn lemma_trump_names(name: Seq<char>, f: TrumpFacts)
    ensures
        !(name == "Spades"@ || name == "Hearts"@ || name == "Diamonds"@ || name == "Clubs"@ || name
            == "NoTrump"@) ==> trump_refusal(name, f) == Some(
            (
                400u16,
                "Invalid trump suit. Must be one of: Spades, Hearts, Diamonds, Clubs, NoTrump"@,
            ),
        ),
        (f.game is Some && f.game.unwrap().phase == GamePhase::TrumpSelection && f.round_trump
            == Some(None::<String>) && f.player_id is Some && trump_chooser(f.bids@) == f.player_id) ==> {
            &&& trump_refusal("Spades"@, f) is None
            &&& trump_refusal("Hearts"@, f) is None
            &&& trump_refusal("Diamonds"@, f) is None
            &&& trump_refusal("Clubs"@, f) is None
            &&& trump_refusal("NoTrump"@, f) is None
        },
{
}

/// The follow-suit rule: a play that passes the earlier checks (a
/// well-formed card from the hand, in the player's turn, of a game in play,
/// into a current trick the player has not played in) is accepted when it
/// follows the lead suit or when no card of the hand has the lead suit; it is
/// refused, with "You must follow suit if possible", only when it leaves the
/// lead suit while the hand holds that suit.
pub proof fn lemma_follow_suit(card: Seq<char>, f: PlayFacts)
    requires
        valid_card(card),
        f.game is Some,
        f.game.unwrap().phase == GamePhase::Playing,
        f.player_turn_order is Some,
        f.player_turn_order.unwrap().unwrap_or(-1i32) == f.game.unwrap().current_turn.unwrap_or(0i32),
        f.has_round,
        exists|i: int| 0 <= i < f.hand@.len() && #[trigger] f.hand@[i]@ == card,
        f.has_trick,
        !f.already_played,
        f.trick_cards@.len() > 0,
        f.trick_cards@[0]@.len() >= 2,
    ensures
        (card[1] == f.trick_cards@[0]@[1] || forall|i: int|
            0 <= i < f.hand@.len() ==> !(#[trigger] f.hand@[i]@.len() >= 2 && f.hand@[i]@[1]
                == f.trick_cards@[0]@[1])) ==> play_refusal(card, f) is None,
        (card[1] != f.trick_cards@[0]@[1] && exists|i: int|
            0 <= i < f.hand@.len() && #[trigger] f.hand@[i]@.len() >= 2 && f.hand@[i]@[1]
                == f.trick_cards@[0]@[1]) ==> play_refusal(card, f) == Some(
            (400u16, "You must follow suit if possible"@),
        ),
{
    let lead = f.trick_cards@[0]@;
    assert(hand_contains(f.hand@, card));
    assert(suit_of(lead) == Some(lead.subrange(1, 2)));
    assert(suit_of(card) == Some(card.subrange(1, 2)));
    if card[1] == lead[1] {
        assert(card.subrange(1, 2) =~= lead.subrange(1, 2));
    } else {
        assert(card.subrange(1, 2)[0] != lead.subrange(1, 2)[0]);
    }
    if hand_has_suit(f.hand@, lead.subrange(1, 2)) {
        let i = choose|i: int| 0 <= i < f.hand@.len() && suit_of(#[trigger] f.hand@[i]@) == Some(lead.subrange(1, 2));
        assert(f.hand@[i]@.len() >= 2);
        assert(f.hand@[i]@.subrange(1, 2)[0] == f.hand@[i]@[1]);
        assert(f.hand@[i]@[1] == lead[1]);
    }
    if exists|i: int|
        0 <= i < f.hand@.len() && #[trigger] f.hand@[i]@.len() >= 2 && f.hand@[i]@[1] == lead[1] {
        let i = choose|i: int|
            0 <= i < f.hand@.len() && #[trigger] f.hand@[i]@.len() >= 2 && f.hand@[i]@[1] == lead[1];
        assert(f.hand@[i]@.subrange(1, 2) =~= lead.subrange(1, 2));
        assert(suit_of(f.hand@[i]@) == Some(lead.subrange(1, 2)));
    }
}

} // verus!
