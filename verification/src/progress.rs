//! Moving through a round and from round to round: dealing the hands,
//! counting the tricks each player won, totalling scores, and planning the
//! next round (its cards and its dealer) or the end of the game.

use vstd::prelude::*;

use crate::bidding::DECK_SIZE;
use crate::game::{Game, GamePhase, GameState};
use crate::rules::{calculate_cards_dealt, cards_dealt_for, PLAYER_COUNT, TOTAL_ROUNDS};
use crate::scoring::{calculate_round_points, round_points};
use crate::PlayerId;

verus! {

/// The hand dealt to player `p` when each player receives `n` cards: the
/// `n` consecutive cards of the deck starting at `p * n`.
pub open spec fn dealt_hand(deck: Seq<String>, p: int, n: int) -> Seq<String> {
    if n <= 0 {
        Seq::empty()
    } else {
        deck.subrange(p * n, (p + 1) * n)
    }
}

/// How dealing `n` cards to each of `players` players from `deck` turns out:
/// refused when more than 52 cards would be needed or the deck runs short,
/// otherwise one hand per player in player order.
pub open spec fn deal_outcome(deck: Seq<String>, players: int, n: int) -> Option<Seq<Seq<String>>> {
    if n * players > DECK_SIZE {
        None
    } else if n > 0 && players > 0 && n * players > deck.len() {
        None
    } else {
        Some(Seq::new(players as nat, |p: int| dealt_hand(deck, p, n)))
    }
}

/// Deal `cards_dealt` cards to each of `player_count` players from a deck:
/// player `p` receives the cards at positions `p * cards_dealt` onwards.
/// Refused with "Not enough cards in deck" when the deal needs more than 52
/// cards or more cards than the deck holds; a refused deal deals nothing.
pub fn deal_hands(deck: &[String], player_count: usize, cards_dealt: i32) -> (hands: Result<
    Vec<Vec<String>>,
    String,
>)
    requires
        player_count <= i32::MAX,
        i32::MIN <= cards_dealt * player_count <= i32::MAX,
    ensures
        match deal_outcome(deck@, player_count as int, cards_dealt as int) {
            None => hands matches Err(e) && e@ == "Not enough cards in deck"@,
            Some(h) => hands matches Ok(v) && v@.len() == h.len() && forall|p: int|
                0 <= p < h.len() ==> #[trigger] v@[p]@ == h[p],
        },
{
    let total_cards_needed = cards_dealt * (player_count as i32);
    if total_cards_needed > (DECK_SIZE as i32) {
        return Err(String::from_str("Not enough cards in deck"));
    }
    if cards_dealt > 0 && player_count > 0 && (total_cards_needed as usize) > deck.len() {
        return Err(String::from_str("Not enough cards in deck"));
    }
    let mut hands: Vec<Vec<String>> = Vec::new();
    let mut p: usize = 0;
    while p < player_count
        invariant
            p <= player_count,
            player_count <= i32::MAX,
            total_cards_needed == cards_dealt * player_count,
            total_cards_needed <= DECK_SIZE,
            cards_dealt > 0 && player_count > 0 ==> total_cards_needed <= deck@.len(),
            hands@.len() == p,
            forall|q: int| 0 <= q < p ==> #[trigger] hands@[q]@ == dealt_hand(deck@, q, cards_dealt as int),
        decreases player_count - p,
    {
        let mut hand: Vec<String> = Vec::new();
        if cards_dealt > 0 {
            proof {
                assert((p + 1) * cards_dealt <= cards_dealt * player_count) by (nonlinear_arith)
                    requires
                        p < player_count,
                        cards_dealt > 0,
                ;
                assert((p + 1) * cards_dealt == p * cards_dealt + cards_dealt) by (nonlinear_arith);
            }
            let n = cards_dealt as usize;
            let start = p * n;
            let mut c: usize = 0;
            while c < n
                invariant
                    start + n <= deck@.len(),
                    deck@.len() == deck.len(),
                    c <= n,
                    hand@.len() == c,
                    forall|k: int| 0 <= k < c ==> #[trigger] hand@[k] == deck@[start + k],
                decreases n - c,
            {
                hand.push(deck[start + c].clone());
                c = c + 1;
            }
            proof {
                assert(hand@ =~= deck@.subrange(p * cards_dealt, (p + 1) * cards_dealt));
            }
        } else {
            proof {
                assert(hand@ =~= Seq::<String>::empty());
            }
        }
        hands.push(hand);
        p = p + 1;
    }
    Ok(hands)
}

/// Dealt hands never share a position of the deck: hand `p` and hand `q`
/// of a deal are disjoint slices, so from a deck without repeated cards no
/// card is dealt twice, and every dealt card comes from the deck.
pub proof fn lemma_dealt_hands_disjoint(deck: Seq<String>, n: int, p: int, q: int, i: int, j: int)
    requires
        n > 0,
        0 <= p,
        0 <= q,
        p != q,
        (p + 1) * n <= deck.len(),
        (q + 1) * n <= deck.len(),
        0 <= i < n,
        0 <= j < n,
        deck.no_duplicates(),
    ensures
        dealt_hand(deck, p, n)[i] != dealt_hand(deck, q, n)[j],
        deck.contains(dealt_hand(deck, p, n)[i]),
{
    assert(p * n + i != q * n + j) by (nonlinear_arith)
        requires
            p != q,
            0 <= i < n,
            0 <= j < n,
            n > 0,
    ;
    assert(0 <= p * n) by (nonlinear_arith)
        requires
            p >= 0,
            n > 0,
    ;
    assert(0 <= q * n) by (nonlinear_arith)
        requires
            q >= 0,
            n > 0,
    ;
    assert((p + 1) * n == p * n + n) by (nonlinear_arith);
    assert((q + 1) * n == q * n + n) by (nonlinear_arith);
    assert(dealt_hand(deck, p, n)[i] == deck[p * n + i]);
    assert(dealt_hand(deck, q, n)[j] == deck[q * n + j]);
}

/// The number of tricks won by `player`, given each trick's winner.
pub open spec fn tricks_won(winners: Seq<Option<PlayerId>>, player: PlayerId) -> int
    decreases winners.len(),
{
    if winners.len() == 0 {
        0
    } else {
        tricks_won(winners.drop_last(), player) + if winners.last() == Some(player) {
            1int
        } else {
            0
        }
    }
}

proof fn lemma_tricks_won_bounded(winners: Seq<Option<PlayerId>>, player: PlayerId)
    ensures
        0 <= tricks_won(winners, player) <= winners.len(),
    decreases winners.len(),
{
    if winners.len() > 0 {
        lemma_tricks_won_bounded(winners.drop_last(), player);
    }
}

/// Count the tricks each player won in a round (players listed by id, each
/// trick given by its winner, if recorded).
pub fn count_tricks_won(players: &[PlayerId], winners: &[Option<PlayerId>]) -> (counts: Vec<i32>)
    requires
        winners@.len() <= i32::MAX,
    ensures
        counts@.len() == players@.len(),
        forall|i: int| 0 <= i < players@.len() ==> #[trigger] counts@[i] == tricks_won(winners@, players@[i]),
{
    let mut counts: Vec<i32> = Vec::new();
    let mut i: usize = 0;
    while i < players.len()
        invariant
            winners@.len() <= i32::MAX,
            i <= players@.len(),
            counts@.len() == i,
            forall|k: int| 0 <= k < i ==> #[trigger] counts@[k] == tricks_won(winners@, players@[k]),
        decreases players@.len() - i,
    {
        let player = players[i];
        let mut won: i32 = 0;
        let mut t: usize = 0;
        while t < winners.len()
            invariant
                winners@.len() <= i32::MAX,
                t <= winners@.len(),
                won == tricks_won(winners@.take(t as int), player),
            decreases winners@.len() - t,
        {
            proof {
                assert(winners@.take(t + 1).drop_last() =~= winners@.take(t as int));
                lemma_tricks_won_bounded(winners@.take(t as int), player);
            }
            if winners[t] == Some(player) {
                won = won + 1;
            }
            t = t + 1;
        }
        proof {
            assert(winners@.take(winners@.len() as int) =~= winners@);
        }
        counts.push(won);
        i = i + 1;
    }
    counts
}

/// A player's total over the rounds of a game: for each round with a stored
/// score, the round's points from the tricks won and the bid (0 when the
/// player has no bid in that round).
pub open spec fn game_total(rounds: Seq<(Option<i32>, Option<i32>)>) -> int
    decreases rounds.len(),
{
    if rounds.len() == 0 {
        0
    } else {
        game_total(rounds.drop_last()) + match rounds.last().0 {
            Some(t) => round_points(t as int, rounds.last().1.unwrap_or(0i32) as int),
            None => 0,
        }
    }
}

/// Every running total, and every round's points, fit in an `i32`.
pub open spec fn game_totals_fit(rounds: Seq<(Option<i32>, Option<i32>)>) -> bool {
    &&& forall|i: int|
        0 <= i < rounds.len() && (#[trigger] rounds[i]).0 is Some ==> round_points(
            rounds[i].0.unwrap() as int,
            rounds[i].1.unwrap_or(0i32) as int,
        ) <= i32::MAX
    &&& forall|k: int|
        0 <= k <= rounds.len() ==> i32::MIN <= #[trigger] game_total(rounds.take(k)) <= i32::MAX
}

/// Total a player's score over the rounds of a game, each round given as
/// (tricks won, if a score is stored; bid, if one is stored).
pub fn player_total_score(rounds: &[(Option<i32>, Option<i32>)]) -> (total: i32)
    requires
        game_totals_fit(rounds@),
    ensures
        total == game_total(rounds@),
{
    let mut total: i32 = 0;
    let mut i: usize = 0;
    while i < rounds.len()
        invariant
            i <= rounds@.len(),
            game_totals_fit(rounds@),
            total == game_total(rounds@.take(i as int)),
        decreases rounds@.len() - i,
    {
        proof {
            assert(rounds@.take(i + 1).drop_last() =~= rounds@.take(i as int));
            assert(i32::MIN <= game_total(rounds@.take(i + 1)) <= i32::MAX);
        }
        let (tricks, bid) = rounds[i];
        match tricks {
            Some(t) => {
                let b = match bid {
                    Some(b) => b,
                    None => 0,
                };
                proof {
                    assert(rounds@[i as int].0 is Some);
                }
                let points = calculate_round_points(t, b);
                total = total + points;
            },
            None => {},
        }
        i = i + 1;
    }
    proof {
        assert(rounds@.take(rounds@.len() as int) =~= rounds@);
    }
    total
}

/// What follows a finished round.
#[derive(Clone, Copy, Debug, PartialEq, Eq, Structural)]
pub enum NextRound {
    /// The last round is over: the game is complete.
    GameOver,
    /// Another round is played.
    Round {
        round_number: i32,
        cards_dealt: i32,
        dealer: Option<PlayerId>,
    },
}

/// The position of the first player with id `id`, or 0 when there is none.
pub open spec fn position_or_first(players: Seq<PlayerId>, id: PlayerId) -> int {
    if exists|i: int| 0 <= i < players.len() && players[i] == id {
        choose|i: int|
            0 <= i < players.len() && players[i] == id && forall|j: int| 0 <= j < i ==> #[trigger] players[j] != id
    } else {
        0
    }
}

/// The dealer of the next round: the player after the current dealer in turn
/// order (counting from the first player when the current dealer is not
/// found), or the first player when the round had no dealer.
pub open spec fn next_dealer(players: Seq<PlayerId>, current: Option<PlayerId>) -> Option<PlayerId> {
    match current {
        Some(d) => Some(players[(position_or_first(players, d) + 1) % (PLAYER_COUNT as int)]),
        None => if players.len() > 0 {
            Some(players[0])
        } else {
            None
        },
    }
}

/// What follows round `current`: the game ends after round 26; otherwise the
/// next round deals its cards and passes the deal on.
pub open spec fn next_round_plan(current: int, players: Seq<PlayerId>, dealer: Option<PlayerId>) -> NextRound {
    if current + 1 > TOTAL_ROUNDS {
        NextRound::GameOver
    } else {
        NextRound::Round {
            round_number: (current + 1) as i32,
            cards_dealt: cards_dealt_for(current + 1) as i32,
            dealer: next_dealer(players, dealer),
        }
    }
}

/// Find the position of a player, or 0.
pub fn position_of_player(players: &[PlayerId], id: PlayerId) -> (pos: usize)
    ensures
        pos == position_or_first(players@, id),
        pos == 0 || pos < players@.len(),
{
    let mut i: usize = 0;
    while i < players.len()
        invariant
            i <= players@.len(),
            forall|j: int| 0 <= j < i ==> #[trigger] players@[j] != id,
        decreases players@.len() - i,
    {
        if players[i] == id {
            proof {
                let k = choose|k: int|
                    0 <= k < players@.len() && players@[k] == id && forall|j: int|
                        0 <= j < k ==> #[trigger] players@[j] != id;
                if k > i {
                    assert(players@[i as int] != id);
                }
            }
            return i;
        }
        i = i + 1;
    }
    0
}

/// Plan what follows a finished round, from the round's number and dealer
/// and the players' ids in turn order.
pub fn plan_next_round(current_round: i32, current_dealer: Option<PlayerId>, players_in_turn_order: &[PlayerId]) -> (plan: NextRound)
    requires
        current_round < i32::MAX,
        current_round + 1 <= TOTAL_ROUNDS ==> 14 - (current_round + 1) <= i32::MAX,
        current_round + 1 <= TOTAL_ROUNDS && current_dealer is Some ==> (position_or_first(
            players_in_turn_order@,
            current_dealer.unwrap(),
        ) + 1) % (PLAYER_COUNT as int) < players_in_turn_order@.len(),
    ensures
        plan == next_round_plan(current_round as int, players_in_turn_order@, current_dealer),
{
    let next_round_number = current_round + 1;
    if next_round_number > TOTAL_ROUNDS {
        return NextRound::GameOver;
    }
    let cards_dealt = calculate_cards_dealt(next_round_number);
    let dealer = match current_dealer {
        Some(d) => {
            let index = position_of_player(players_in_turn_order, d);
            let count = players_in_turn_order.len();
            assert(index == 0 || index < count);
            let next_index = (index + 1) % PLAYER_COUNT;
            Some(players_in_turn_order[next_index])
        },
        None => if players_in_turn_order.len() > 0 {
            Some(players_in_turn_order[0])
        } else {
            None
        },
    };
    NextRound::Round { round_number: next_round_number, cards_dealt, dealer }
}

/// The game once its last round is over: completed (phase reset to bidding).
pub fn complete_game(game: Game) -> (done: Game)
    ensures
        done == (Game { state: GameState::Completed, phase: GamePhase::Bidding, ..game }),
{
    Game { state: GameState::Completed, phase: GamePhase::Bidding, ..game }
}

/// The game as a new round begins: bidding, with player 0 to bid first.
pub fn begin_round(game: Game) -> (next: Game)
    ensures
        next == (Game { phase: GamePhase::Bidding, current_turn: Some(0), ..game }),
{
    Game { phase: GamePhase::Bidding, current_turn: Some(0), ..game }
}

/// Whether the current trick is full, so that the next trick can start.
pub fn trick_ready_to_close(play_count: usize) -> (ready: bool)
    ensures
        ready == (play_count == PLAYER_COUNT),
{
    play_count == PLAYER_COUNT
}

/// The number of tricks with a recorded winner.
pub open spec fn completed_tricks(winners: Seq<Option<PlayerId>>) -> int
    decreases winners.len(),
{
    if winners.len() == 0 {
        0
    } else {
        completed_tricks(winners.drop_last()) + if winners.last() is Some {
            1int
        } else {
            0
        }
    }
}

/// Whether a round is over: as many tricks have a winner as cards were
/// dealt to each player.
pub fn round_ready_to_close(winners: &[Option<PlayerId>], cards_dealt: i32) -> (ready: bool)
    ensures
        ready == (completed_tricks(winners@) == cards_dealt as usize),
{
    let mut completed: usize = 0;
    let mut t: usize = 0;
    while t < winners.len()
        invariant
            t <= winners@.len(),
            completed <= t,
            completed == completed_tricks(winners@.take(t as int)),
        decreases winners@.len() - t,
    {
        proof {
            assert(winners@.take(t + 1).drop_last() =~= winners@.take(t as int));
        }
        if winners[t].is_some() {
            completed = completed + 1;
        }
        t = t + 1;
    }
    proof {
        assert(winners@.take(winners@.len() as int) =~= winners@);
    }
    completed == cards_dealt as usize
}

/// Over a game's 26 rounds the deal passes on one seat each round: the plan
/// for every round but the last names a next round one higher, dealing as
/// the round structure says, and the plan after round 26 ends the game.
pub proof fn lemma_round_progression(current: int, players: Seq<PlayerId>, dealer: Option<PlayerId>)
    requires
        1 <= current <= TOTAL_ROUNDS,
    ensures
        current == TOTAL_ROUNDS ==> next_round_plan(current, players, dealer) == NextRound::GameOver,
        current < TOTAL_ROUNDS ==> (next_round_plan(current, players, dealer) matches NextRound::Round {
            round_number,
            cards_dealt,
            ..
        } && round_number == current + 1 && cards_dealt == cards_dealt_for(current + 1) && 2
            <= cards_dealt <= 13),
{
}

/// A player's game total adds up round by round: no rounds score 0, a round
/// without a stored score adds nothing, and a scored round adds one point per
/// trick won plus 10 when the tricks equal the bid (a missing bid counting
/// as 0).
pub proof fn lemma_game_total_step(rounds: Seq<(Option<i32>, Option<i32>)>, tricks: Option<i32>, bid: Option<i32>)
    ensures
        game_total(Seq::<(Option<i32>, Option<i32>)>::empty()) == 0,
        tricks is None ==> game_total(rounds.push((tricks, bid))) == game_total(rounds),
        tricks matches Some(t) ==> game_total(rounds.push((tricks, bid))) == game_total(rounds) + t + (
        if t == bid.unwrap_or(0i32) {
            10int
        } else {
            0int
        }),
{
    assert(rounds.push((tricks, bid)).drop_last() =~= rounds);
}

} // verus!
