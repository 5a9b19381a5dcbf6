//! Round structure, dealer rotation and turn order.

use vstd::prelude::*;

verus! {

/// Total number of rounds in a game.
pub const TOTAL_ROUNDS: i32 = 26;

/// Number of players in a game.
pub const PLAYER_COUNT: usize = 4;

/// Number of rounds with 2 cards (rounds 12-15).
pub const TWO_CARD_ROUNDS: i32 = 4;

/// Round number where 2-card rounds start.
pub const TWO_CARD_ROUNDS_START: i32 = 12;

/// Round number where 2-card rounds end.
pub const TWO_CARD_ROUNDS_END: i32 = 15;

/// Round number where the card count starts increasing again.
pub const INCREASING_CARDS_START: i32 = 16;

/// Maximum cards dealt in a round.
pub const MAX_CARDS_PER_ROUND: i32 = 13;

/// Minimum cards dealt in a round.
pub const MIN_CARDS_PER_ROUND: i32 = 2;

/// Remainder of `a / b` with the quotient rounded toward zero, as Rust's `%`
/// computes it on signed integers (the sign follows `a`).
pub open spec fn rem_toward_zero(a: int, b: int) -> int {
    if a >= 0 {
        a % b
    } else {
        -((-a) % b)
    }
}

/// Cards dealt in round `r`: 13 down to 3 over rounds 1..=11, then four
/// rounds of 2 cards (12..=15), then 3 up to 13 over rounds 16..=26.
pub open spec fn cards_dealt_for(r: int) -> int {
    if r <= 11 {
        14 - r
    } else if r <= 15 {
        2
    } else {
        r - 13
    }
}

/// The round that follows round `r`, none after the last round.
pub open spec fn next_round_of(r: int) -> Option<int> {
    if r >= TOTAL_ROUNDS {
        None
    } else {
        Some(r + 1)
    }
}

/// The round that precedes round `r`, none before the first round.
pub open spec fn previous_round_of(r: int) -> Option<int> {
    if r <= 1 {
        None
    } else {
        Some(r - 1)
    }
}

/// The player after `i` in turn order.
pub open spec fn next_player(i: int) -> int {
    (i + 1) % (PLAYER_COUNT as int)
}

/// The player before `i` in turn order.
pub open spec fn previous_player(i: int) -> int {
    if i == 0 {
        PLAYER_COUNT - 1
    } else {
        i - 1
    }
}

/// The dealer of round `r` (player 0 deals round 1).
pub open spec fn dealer_for_round(r: int) -> int {
    rem_toward_zero(r - 1, PLAYER_COUNT as int)
}

/// The player index that a stored turn order value denotes.
pub open spec fn player_of_turn_order(t: int) -> int {
    rem_toward_zero(t, PLAYER_COUNT as int)
}

/// A round number of a game: 1..=26.
pub open spec fn valid_round(r: int) -> bool {
    1 <= r <= TOTAL_ROUNDS
}

/// Calculate the number of cards to deal for a given round number.
pub fn calculate_cards_dealt(round_number: i32) -> (cards: i32)
    requires
        round_number <= 11 ==> 14 - round_number <= i32::MAX,
    ensures
        cards == cards_dealt_for(round_number as int),
{
    if round_number <= 11 {
        14 - round_number
    } else if round_number <= 15 {
        2
    } else {
        round_number - 15 + 2
    }
}

/// The round after `current_round`, or `None` once the last round is reached.
pub fn get_next_round_number(current_round: i32) -> (next: Option<i32>)
    ensures
        next matches Some(n) ==> next_round_of(current_round as int) == Some(n as int),
        next is None <==> next_round_of(current_round as int) is None,
{
    if current_round >= TOTAL_ROUNDS {
        None
    } else {
        Some(current_round + 1)
    }
}

/// The round before `current_round`, or `None` for the first round.
pub fn get_previous_round_number(current_round: i32) -> (prev: Option<i32>)
    ensures
        prev matches Some(p) ==> previous_round_of(current_round as int) == Some(p as int),
        prev is None <==> previous_round_of(current_round as int) is None,
{
    if current_round <= 1 {
        None
    } else {
        Some(current_round - 1)
    }
}

/// Whether a round number lies in 1..=26.
pub fn is_valid_round_number(round_number: i32) -> (valid: bool)
    ensures
        valid == valid_round(round_number as int),
{
    1 <= round_number && round_number <= TOTAL_ROUNDS
}

/// Whether a round is one of the four 2-card rounds (12..=15).
pub fn is_two_card_round(round_number: i32) -> (two: bool)
    ensures
        two == (TWO_CARD_ROUNDS_START <= round_number <= TWO_CARD_ROUNDS_END),
{
    TWO_CARD_ROUNDS_START <= round_number && round_number <= TWO_CARD_ROUNDS_END
}

/// The next player index in turn order, wrapping after the last player.
pub fn get_next_player_index(current_player: usize) -> (next: usize)
    requires
        current_player < usize::MAX,
    ensures
        next == next_player(current_player as int),
{
    (current_player + 1) % PLAYER_COUNT
}

/// The previous player index in turn order, wrapping before the first player.
pub fn get_previous_player_index(current_player: usize) -> (prev: usize)
    ensures
        prev == previous_player(current_player as int),
{
    if current_player == 0 {
        PLAYER_COUNT - 1
    } else {
        current_player - 1
    }
}

/// The next dealer index, wrapping after the last player.
pub fn get_next_dealer_index(current_dealer: usize) -> (next: usize)
    requires
        current_dealer < usize::MAX,
    ensures
        next == next_player(current_dealer as int),
{
    (current_dealer + 1) % PLAYER_COUNT
}

/// The dealer index for a round: player 0 deals round 1 and the deal rotates
/// each round.
pub fn get_dealer_index_for_round(round_number: i32) -> (dealer: usize)
    requires
        round_number > i32::MIN,
    ensures
        dealer == dealer_for_round(round_number as int) as usize,
        round_number >= 1 ==> dealer == (round_number - 1) % (PLAYER_COUNT as int),
{
    ((round_number - 1) % 4i32) as usize
}

/// The 0-based player index of a stored turn order value.
pub fn canonical_player_index(turn_order: i32) -> (index: usize)
    ensures
        index == player_of_turn_order(turn_order as int) as usize,
        turn_order >= 0 ==> index == (turn_order as int) % (PLAYER_COUNT as int),
{
    (turn_order % 4i32) as usize
}

/// The stored turn order value of a 0-based player index.
pub fn turn_order_from_index(player_index: usize) -> (turn_order: i32)
    ensures
        turn_order == player_index as i32,
        player_index <= i32::MAX ==> turn_order == player_index,
{
    player_index as i32
}

/// The round numbers of a game, in order: 1..=26.
pub fn get_round_sequence() -> (rounds: Vec<i32>)
    ensures
        rounds@.len() == TOTAL_ROUNDS,
        forall|i: int| 0 <= i < rounds@.len() ==> rounds@[i] == i + 1,
{
    let mut rounds: Vec<i32> = Vec::new();
    let mut r: i32 = 1;
    while r <= TOTAL_ROUNDS
        invariant
            1 <= r <= TOTAL_ROUNDS + 1,
            rounds@.len() == r - 1,
            forall|i: int| 0 <= i < rounds@.len() ==> rounds@[i] == i + 1,
        decreases TOTAL_ROUNDS + 1 - r,
    {
        rounds.push(r);
        r = r + 1;
    }
    rounds
}

/// The cards dealt in each round of a game, in round order.
pub fn get_round_card_counts() -> (counts: Vec<i32>)
    ensures
        counts@.len() == TOTAL_ROUNDS,
        forall|i: int| 0 <= i < counts@.len() ==> counts@[i] == cards_dealt_for(i + 1),
{
    let mut counts: Vec<i32> = Vec::new();
    let mut r: i32 = 1;
    while r <= TOTAL_ROUNDS
        invariant
            1 <= r <= TOTAL_ROUNDS + 1,
            counts@.len() == r - 1,
            forall|i: int| 0 <= i < counts@.len() ==> counts@[i] == cards_dealt_for(i + 1),
        decreases TOTAL_ROUNDS + 1 - r,
    {
        counts.push(calculate_cards_dealt(r));
        r = r + 1;
    }
    counts
}

/// Every round of a game deals between 2 and 13 cards to each player, so the
/// four hands always fit in a 52-card deck.
pub proof fn lemma_cards_dealt_bounds(r: int)
    requires
        valid_round(r),
    ensures
        MIN_CARDS_PER_ROUND <= cards_dealt_for(r) <= MAX_CARDS_PER_ROUND,
        cards_dealt_for(r) * (PLAYER_COUNT as int) <= 52,
{
}

/// The deal shrinks by one card per round from 13 (round 1) to 3 (round 11),
/// stays at 2 for exactly the four rounds 12..=15, then grows by one card per
/// round back to 13 (round 26).
pub proof fn lemma_round_sequence_shape(r: int, s: int)
    requires
        valid_round(r),
        valid_round(s),
    ensures
        cards_dealt_for(1) == MAX_CARDS_PER_ROUND,
        cards_dealt_for(TOTAL_ROUNDS as int) == MAX_CARDS_PER_ROUND,
        r < s <= 11 ==> cards_dealt_for(r) > cards_dealt_for(s),
        INCREASING_CARDS_START <= r < s ==> cards_dealt_for(r) < cards_dealt_for(s),
        cards_dealt_for(r) == MIN_CARDS_PER_ROUND <==> TWO_CARD_ROUNDS_START <= r
            <= TWO_CARD_ROUNDS_END,
        TWO_CARD_ROUNDS_END - TWO_CARD_ROUNDS_START + 1 == TWO_CARD_ROUNDS,
{
}

/// Moving to the next player and back (or back and then forward) returns to
/// the same player, and four moves forward come round to the start.
pub proof fn lemma_turn_order_round_trip(i: int)
    requires
        0 <= i < PLAYER_COUNT,
    ensures
        previous_player(next_player(i)) == i,
        next_player(previous_player(i)) == i,
        0 <= next_player(i) < PLAYER_COUNT,
        0 <= previous_player(i) < PLAYER_COUNT,
        next_player(next_player(next_player(next_player(i)))) == i,
{
}

/// The deal passes to the next player each round.
pub proof fn lemma_dealer_rotates(r: int)
    requires
        r >= 1,
    ensures
        dealer_for_round(r + 1) == next_player(dealer_for_round(r)),
        0 <= dealer_for_round(r) < PLAYER_COUNT,
{
}

/// Within a game, stepping to the next round and back (or back and then
/// forward) returns to the same round, and every step stays within the game.
pub proof fn lemma_round_numbers_round_trip(r: int)
    requires
        valid_round(r),
    ensures
        next_round_of(r) matches Some(n) ==> valid_round(n) && previous_round_of(n) == Some(r),
        previous_round_of(r) matches Some(p) ==> valid_round(p) && next_round_of(p) == Some(r),
        next_round_of(r) is None <==> r == TOTAL_ROUNDS,
        previous_round_of(r) is None <==> r == 1,
{
}

/// A player index stored as a turn order reads back as the same index.
pub proof fn lemma_turn_order_index_round_trip(i: int)
    requires
        0 <= i < PLAYER_COUNT,
    ensures
        player_of_turn_order(i) == i,
{
}

} // verus!
