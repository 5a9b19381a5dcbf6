//! What the game-state and game-summary views compute from stored records:
//! who may see a game, whose turn it is, bids and points per round, the
//! split of a round's tricks, the games list entries, and the final ranking.

use vstd::prelude::*;

use crate::game::{Game, GamePhase, GameState};
use crate::play::{answers, refuse, Refusal};
use crate::scoring::{calculate_round_points, has_exact_bid_bonus, round_points, EXACT_BID_BONUS};
use crate::{PlayerId, UserId};

verus! {

/// How a request to view a game is answered, in the order of the checks: the
/// game must exist; the state of a completed game is refused (its summary is
/// to be asked for), as is the summary of a game not completed; and the user
/// must play in the game.
pub open spec fn view_refusal(game: Option<Game>, summary: bool, user_in_game: bool) -> Option<
    (u16, Seq<char>),
> {
    if game is None {
        Some((404u16, "Game not found"@))
    } else if !summary && game.unwrap().state == GameState::Completed {
        Some((400u16, "Game is completed. Use /api/game/{id}/summary for game summary."@))
    } else if summary && game.unwrap().state != GameState::Completed {
        Some((400u16, "Game is not completed. Use /api/game/{id}/state for active games."@))
    } else if !user_in_game {
        Some((403u16, "Access denied. You are not a participant in this game."@))
    } else {
        None
    }
}

fn check_view(game: Option<Game>, summary: bool, user_in_game: bool) -> (checked: Result<(), Refusal>)
    ensures
        answers(checked, view_refusal(game, summary, user_in_game)),
{
    let game = match game {
        Some(g) => g,
        None => return Err(refuse(404, "Game not found")),
    };
    let completed = game.state == GameState::Completed;
    if !summary && completed {
        return Err(refuse(400, "Game is completed. Use /api/game/{id}/summary for game summary."));
    }
    if summary && !completed {
        return Err(refuse(400, "Game is not completed. Use /api/game/{id}/state for active games."));
    }
    if !user_in_game {
        return Err(refuse(403, "Access denied. You are not a participant in this game."));
    }
    Ok(())
}

/// Check a request for the state of an active game.
pub fn check_state_view(game: Option<Game>, user_in_game: bool) -> (checked: Result<(), Refusal>)
    ensures
        answers(checked, view_refusal(game, false, user_in_game)),
{
    check_view(game, false, user_in_game)
}

/// Check a request for the summary of a completed game.
pub fn check_summary_view(game: Option<Game>, user_in_game: bool) -> (checked: Result<(), Refusal>)
    ensures
        answers(checked, view_refusal(game, true, user_in_game)),
{
    check_view(game, true, user_in_game)
}

/// The first player whose turn order is `t`, if any.
pub open spec fn player_with_turn(players: Seq<(PlayerId, Option<i32>)>, t: i32) -> Option<PlayerId> {
    if exists|i: int| 0 <= i < players.len() && #[trigger] players[i].1 == Some(t) {
        Some(
            players[choose|i: int|
                0 <= i < players.len() && players[i].1 == Some(t) && forall|j: int|
                    0 <= j < i ==> #[trigger] players[j].1 != Some(t)].0,
        )
    } else {
        None
    }
}

/// Find the first player with the given turn order.
pub fn find_player_with_turn(players: &[(PlayerId, Option<i32>)], t: i32) -> (found: Option<PlayerId>)
    ensures
        found == player_with_turn(players@, t),
{
    let mut i: usize = 0;
    while i < players.len()
        invariant
            i <= players@.len(),
            forall|j: int| 0 <= j < i ==> #[trigger] players@[j].1 != Some(t),
        decreases players@.len() - i,
    {
        if players[i].1 == Some(t) {
            proof {
                let k = choose|k: int|
                    0 <= k < players@.len() && players@[k].1 == Some(t) && forall|j: int|
                        0 <= j < k ==> #[trigger] players@[j].1 != Some(t);
                if k > i {
                    assert(players@[i as int].1 != Some(t));
                }
            }
            return Some(players[i].0);
        }
        i = i + 1;
    }
    None
}

/// The player whose turn it is, as the game view reports it: during bidding
/// and play, the player seated at the current turn (at turn 0 when bidding
/// has no turn set); in other phases, or with no turn during play, no one.
pub open spec fn player_to_act(
    phase: GamePhase,
    current_turn: Option<i32>,
    players: Seq<(PlayerId, Option<i32>)>,
) -> Option<PlayerId> {
    if phase == GamePhase::Playing || phase == GamePhase::Bidding {
        match current_turn {
            Some(t) => player_with_turn(players, t),
            None => if phase == GamePhase::Bidding {
                player_with_turn(players, 0)
            } else {
                None
            },
        }
    } else {
        None
    }
}

/// The player whose turn it is (players given as (player id, turn order)).
pub fn current_player_turn(
    phase: GamePhase,
    current_turn: Option<i32>,
    players: &[(PlayerId, Option<i32>)],
) -> (to_act: Option<PlayerId>)
    ensures
        to_act == player_to_act(phase, current_turn, players@),
{
    if phase == GamePhase::Playing || phase == GamePhase::Bidding {
        match current_turn {
            Some(t) => find_player_with_turn(players, t),
            None => if phase == GamePhase::Bidding {
                find_player_with_turn(players, 0)
            } else {
                None
            },
        }
    } else {
        None
    }
}

/// The bid of the first entry for `player` (bids given as (player id, bid)),
/// or 0 when the player has none.
pub open spec fn bid_of(bids: Seq<(PlayerId, i32)>, player: PlayerId) -> i32 {
    if exists|i: int| 0 <= i < bids.len() && #[trigger] bids[i].0 == player {
        bids[choose|i: int|
            0 <= i < bids.len() && bids[i].0 == player && forall|j: int|
                0 <= j < i ==> #[trigger] bids[j].0 != player].1
    } else {
        0
    }
}

/// Look up a player's bid, 0 when there is none.
pub fn find_bid(bids: &[(PlayerId, i32)], player: PlayerId) -> (bid: i32)
    ensures
        bid == bid_of(bids@, player),
{
    let mut i: usize = 0;
    while i < bids.len()
        invariant
            i <= bids@.len(),
            forall|j: int| 0 <= j < i ==> #[trigger] bids@[j].0 != player,
        decreases bids@.len() - i,
    {
        if bids[i].0 == player {
            proof {
                let k = choose|k: int|
                    0 <= k < bids@.len() && bids@[k].0 == player && forall|j: int|
                        0 <= j < k ==> #[trigger] bids@[j].0 != player;
                if k > i {
                    assert(bids@[i as int].0 != player);
                }
            }
            return bids[i].1;
        }
        i = i + 1;
    }
    0
}

/// Whether a player's hand is shown in the game state: only to the player
/// (the viewing user is the player's user), and only while the game has a
/// current round.
pub fn hand_is_shown(has_round: bool, player_user: UserId, viewer: UserId) -> (shown: bool)
    ensures
        shown == (has_round && player_user == viewer),
{
    has_round && player_user == viewer
}

/// A player's result in a round of the summary: the points (tricks plus the
/// exact-bid bonus), and whether the bonus was earned, which it is for every
/// bid met exactly (a bid of 0 included).
pub fn round_result(tricks_won: i32, bid: i32) -> (result: (i32, bool))
    requires
        round_points(tricks_won as int, bid as int) <= i32::MAX,
    ensures
        result.0 == round_points(tricks_won as int, bid as int),
        result.1 == (tricks_won == bid),
        result.1 <==> result.0 == tricks_won + EXACT_BID_BONUS,
{
    let bonus = has_exact_bid_bonus(tricks_won, bid);
    (calculate_round_points(tricks_won, bid), bonus)
}

/// The position of the round's current trick: the last trick without a
/// winner; tricks with a winner are the completed ones.
pub open spec fn current_trick_position(winners: Seq<Option<PlayerId>>) -> Option<int> {
    if exists|i: int| 0 <= i < winners.len() && #[trigger] winners[i] is None {
        Some(
            choose|i: int|
                0 <= i < winners.len() && winners[i] is None && forall|j: int|
                    i < j < winners.len() ==> #[trigger] winners[j] is Some,
        )
    } else {
        None
    }
}

/// Find the round's current trick among its tricks (in trick order, each
/// given by its winner, if recorded).
pub fn find_current_trick(winners: &[Option<PlayerId>]) -> (current: Option<usize>)
    ensures
        match current_trick_position(winners@) {
            Some(i) => current == Some(i as usize),
            None => current is None,
        },
{
    let mut current: Option<usize> = None;
    let mut i: usize = 0;
    while i < winners.len()
        invariant
            i <= winners@.len(),
            match current {
                Some(c) => c < i && winners@[c as int] is None && forall|j: int|
                    c < j < i ==> #[trigger] winners@[j] is Some,
                None => forall|j: int| 0 <= j < i ==> #[trigger] winners@[j] is Some,
            },
        decreases winners@.len() - i,
    {
        if winners[i].is_none() {
            current = Some(i);
        }
        i = i + 1;
    }
    proof {
        match current {
            Some(c) => {
                let k = choose|k: int|
                    0 <= k < winners@.len() && winners@[k] is None && forall|j: int|
                        k < j < winners@.len() ==> #[trigger] winners@[j] is Some;
                if k < c {
                    assert(winners@[c as int] is Some);
                } else if k > c {
                    assert(winners@[k] is Some);
                }
            },
            None => {},
        }
    }
    current
}

/// An entry of the games list for one game, seen by `user`: the number of
/// players, whether the user plays in it, and whether the user created it
/// (sits at turn order 0). Players are given as (user id, turn order).
pub open spec fn listing(players: Seq<(UserId, Option<i32>)>, user: UserId) -> (int, bool, bool) {
    (
        players.len() as int,
        exists|i: int| 0 <= i < players.len() && #[trigger] players[i].0 == user,
        exists|i: int| 0 <= i < players.len() && #[trigger] players[i].0 == user && players[i].1 == Some(0i32),
    )
}

/// Build the games-list entry of one game for a user.
pub fn game_listing(players: &[(UserId, Option<i32>)], user: UserId) -> (entry: (usize, bool, bool))
    ensures
        (entry.0 as int, entry.1, entry.2) == listing(players@, user),
{
    let mut in_game = false;
    let mut creator = false;
    let mut i: usize = 0;
    while i < players.len()
        invariant
            i <= players@.len(),
            in_game == exists|j: int| 0 <= j < i && #[trigger] players@[j].0 == user,
            creator == exists|j: int| 0 <= j < i && #[trigger] players@[j].0 == user && players@[j].1 == Some(0i32),
        decreases players@.len() - i,
    {
        if players[i].0 == user {
            in_game = true;
            if players[i].1 == Some(0) {
                creator = true;
            }
        }
        i = i + 1;
    }
    (players.len(), in_game, creator)
}

/// Score `j` is the first occurrence of its value.
pub open spec fn first_occurrence(scores: Seq<i32>, j: int) -> bool {
    forall|k: int| 0 <= k < j ==> scores[k] != scores[j]
}

/// The number of distinct values above `s` among the first `k` scores.
pub open spec fn distinct_above(scores: Seq<i32>, s: int, k: int) -> int
    decreases k,
{
    if k <= 0 {
        0
    } else {
        distinct_above(scores, s, k - 1) + if scores[k - 1] > s && first_occurrence(scores, k - 1) {
            1int
        } else {
            0
        }
    }
}

/// A player's place in the final ranking: 1 plus the number of distinct
/// scores above the player's, so that tied players share a place and the
/// next lower score takes the next place.
pub open spec fn dense_rank(scores: Seq<i32>, i: int) -> int {
    1 + distinct_above(scores, scores[i] as int, scores.len() as int)
}

proof fn lemma_distinct_above_bounds(scores: Seq<i32>, s: int, k: int)
    requires
        0 <= k <= scores.len(),
    ensures
        0 <= distinct_above(scores, s, k) <= k,
    decreases k,
{
    if k > 0 {
        lemma_distinct_above_bounds(scores, s, k - 1);
    }
}

/// Whether score `j` is the first of its value.
fn is_first_occurrence(scores: &[i32], j: usize) -> (first: bool)
    requires
        j < scores@.len(),
    ensures
        first == first_occurrence(scores@, j as int),
{
    let mut k: usize = 0;
    while k < j
        invariant
            j < scores@.len(),
            k <= j,
            forall|m: int| 0 <= m < k ==> scores@[m] != scores@[j as int],
        decreases j - k,
    {
        if scores[k] == scores[j] {
            return false;
        }
        k = k + 1;
    }
    true
}

/// Rank the players by final score (given in any order), with ties sharing
/// a place: the result holds each player's place, in the same order.
pub fn assign_ranks(scores: &[i32]) -> (ranks: Vec<i32>)
    requires
        scores@.len() < i32::MAX,
    ensures
        ranks@.len() == scores@.len(),
        forall|i: int| 0 <= i < scores@.len() ==> #[trigger] ranks@[i] == dense_rank(scores@, i),
{
    let mut ranks: Vec<i32> = Vec::new();
    let mut i: usize = 0;
    while i < scores.len()
        invariant
            scores@.len() < i32::MAX,
            i <= scores@.len(),
            ranks@.len() == i,
            forall|m: int| 0 <= m < i ==> #[trigger] ranks@[m] == dense_rank(scores@, m),
        decreases scores@.len() - i,
    {
        let s = scores[i];
        let mut above: i32 = 0;
        let mut j: usize = 0;
        while j < scores.len()
            invariant
                scores@.len() < i32::MAX,
                j <= scores@.len(),
                above == distinct_above(scores@, s as int, j as int),
            decreases scores@.len() - j,
        {
            proof {
                lemma_distinct_above_bounds(scores@, s as int, j as int);
            }
            if scores[j] > s && is_first_occurrence(scores, j) {
                above = above + 1;
            }
            j = j + 1;
        }
        proof {
            lemma_distinct_above_bounds(scores@, s as int, scores@.len() as int);
        }
        ranks.push(above + 1);
        i = i + 1;
    }
    ranks
}

proof fn lemma_distinct_above_monotone(scores: Seq<i32>, hi: int, lo: int, k: int)
    requires
        lo < hi,
        0 <= k <= scores.len(),
    ensures
        distinct_above(scores, lo, k) >= distinct_above(scores, hi, k) + if exists|f: int|
            0 <= f < k && scores[f] == hi && first_occurrence(scores, f) {
            1int
        } else {
            0
        },
    decreases k,
{
    if k > 0 {
        lemma_distinct_above_monotone(scores, hi, lo, k - 1);
        if exists|f: int| 0 <= f < k && scores[f] == hi && first_occurrence(scores, f) {
            let f = choose|f: int| 0 <= f < k && scores[f] == hi && first_occurrence(scores, f);
            if f < k - 1 {
                assert(exists|g: int| 0 <= g < k - 1 && scores[g] == hi && first_occurrence(scores, g));
            }
        }
    }
}

proof fn lemma_first_occurrence_exists(scores: Seq<i32>, i: int)
    requires
        0 <= i < scores.len(),
    ensures
        exists|f: int| 0 <= f <= i && scores[f] == scores[i] && first_occurrence(scores, f),
    decreases i,
{
    if !first_occurrence(scores, i) {
        let k = choose|k: int| 0 <= k < i && scores[k] == scores[i];
        lemma_first_occurrence_exists(scores, k);
    }
}

proof fn lemma_distinct_above_none(scores: Seq<i32>, s: int, k: int)
    requires
        0 <= k <= scores.len(),
        forall|j: int| 0 <= j < scores.len() ==> scores[j] <= s,
    ensures
        distinct_above(scores, s, k) == 0,
    decreases k,
{
    if k > 0 {
        lemma_distinct_above_none(scores, s, k - 1);
    }
}

/// The final ranking orders players by score: a higher score always takes a
/// better (smaller) place, equal scores share a place, places run from 1 to
/// at most the number of players, and the top scorers are placed first.
pub proof fn lemma_ranking(scores: Seq<i32>, i: int, j: int)
    requires
        0 <= i < scores.len(),
        0 <= j < scores.len(),
    ensures
        scores[i] > scores[j] ==> dense_rank(scores, i) < dense_rank(scores, j),
        scores[i] == scores[j] ==> dense_rank(scores, i) == dense_rank(scores, j),
        1 <= dense_rank(scores, i) <= scores.len(),
        (forall|k: int| 0 <= k < scores.len() ==> scores[k] <= scores[i]) ==> dense_rank(scores, i) == 1,
{
    lemma_distinct_above_bounds(scores, scores[i] as int, scores.len() as int);
    if scores[i] > scores[j] {
        lemma_first_occurrence_exists(scores, i);
        lemma_distinct_above_monotone(scores, scores[i] as int, scores[j] as int, scores.len() as int);
    }
    if forall|k: int| 0 <= k < scores.len() ==> scores[k] <= scores[i] {
        lemma_distinct_above_none(scores, scores[i] as int, scores.len() as int);
    }
    if distinct_above(scores, scores[i] as int, scores.len() as int) == scores.len() {
        lemma_distinct_above_self(scores, i, scores.len() as int);
    }
}

proof fn lemma_distinct_above_self(scores: Seq<i32>, i: int, k: int)
    requires
        0 <= i < scores.len(),
        i < k <= scores.len(),
    ensures
        distinct_above(scores, scores[i] as int, k) < k,
    decreases k,
{
    if k - 1 == i {
        lemma_distinct_above_bounds(scores, scores[i] as int, k - 1);
    } else {
        lemma_distinct_above_self(scores, i, k - 1);
    }
}

/// The sort key of a player: the turn order, with -1 for a player without one.
pub open spec fn turn_key(turns: Seq<Option<i32>>, i: int) -> int {
    turns[i].unwrap_or(-1i32) as int
}

/// Player `a` is listed before player `b`: by turn order, and in their
/// original order when the turn orders are equal.
pub open spec fn listed_before(turns: Seq<Option<i32>>, a: int, b: int) -> bool {
    turn_key(turns, a) < turn_key(turns, b) || (turn_key(turns, a) == turn_key(turns, b) && a < b)
}

/// The order in which players are listed: a sequence of their positions that
/// lists each one exactly once, sorted by turn order (players without one
/// first) and keeping the original order among equal turn orders.
pub open spec fn is_turn_order_listing(turns: Seq<Option<i32>>, order: Seq<usize>) -> bool {
    &&& order.len() == turns.len()
    &&& forall|p: int| 0 <= p < order.len() ==> #[trigger] order[p] < turns.len()
    &&& forall|p: int, q: int|
        0 <= p < q < order.len() ==> listed_before(turns, #[trigger] order[p] as int, #[trigger] order[q] as int)
}

/// List the players by turn order (a stable sort): the result holds the
/// players' positions in listing order.
pub fn order_by_turn(turns: &[Option<i32>]) -> (order: Vec<usize>)
    ensures
        is_turn_order_listing(turns@, order@),
{
    let mut order: Vec<usize> = Vec::new();
    let mut i: usize = 0;
    while i < turns.len()
        invariant
            i <= turns@.len(),
            order@.len() == i,
            forall|p: int| 0 <= p < order@.len() ==> #[trigger] order@[p] < i,
            forall|p: int, q: int|
                0 <= p < q < order@.len() ==> listed_before(turns@, #[trigger] order@[p] as int, #[trigger] order@[q] as int),
        decreases turns@.len() - i,
    {
        let key = match turns[i] {
            Some(t) => t,
            None => -1,
        };
        let mut pos: usize = 0;
        while pos < order.len()
            invariant
                i < turns@.len(),
                order@.len() == i,
                pos <= order@.len(),
                forall|p: int| 0 <= p < order@.len() ==> #[trigger] order@[p] < i,
                key == turn_key(turns@, i as int),
                forall|p: int, q: int|
                    0 <= p < q < order@.len() ==> listed_before(turns@, #[trigger] order@[p] as int, #[trigger] order@[q] as int),
                forall|p: int| 0 <= p < pos ==> turn_key(turns@, #[trigger] order@[p] as int) <= key,
            ensures
                pos <= order@.len(),
                forall|p: int| 0 <= p < pos ==> turn_key(turns@, #[trigger] order@[p] as int) <= key,
                pos < order@.len() ==> turn_key(turns@, order@[pos as int] as int) > key,
            decreases order@.len() - pos,
        {
            let other = order[pos];
            let other_key = match turns[other] {
                Some(t) => t,
                None => -1,
            };
            if other_key > key {
                break;
            }
            pos = pos + 1;
        }
        proof {
            assert forall|p: int| pos <= p < order@.len() implies turn_key(turns@, #[trigger] order@[p] as int) > key by {
                if pos < order@.len() {
                    if p > pos {
                        assert(listed_before(turns@, order@[pos as int] as int, order@[p] as int));
                    }
                }
            }
        }
        let ghost before = order@;
        order.insert(pos, i);
        proof {
            assert(order@ == before.insert(pos as int, i));
            assert forall|p: int, q: int| 0 <= p < q < order@.len() implies listed_before(turns@, #[trigger] order@[p] as int, #[trigger] order@[q] as int) by {
                if q < pos {
                    assert(order@[p] == before[p]);
                    assert(order@[q] == before[q]);
                } else if q == pos {
                    assert(order@[p] == before[p]);
                } else if p < pos {
                    assert(order@[p] == before[p]);
                    assert(order@[q] == before[q - 1]);
                } else if p == pos {
                    assert(order@[q] == before[q - 1]);
                } else {
                    assert(order@[p] == before[p - 1]);
                    assert(order@[q] == before[q - 1]);
                }
            }
            assert forall|p: int| 0 <= p < order@.len() implies #[trigger] order@[p] < i + 1 by {
                if p < pos {
                    assert(order@[p] == before[p]);
                } else if p > pos {
                    assert(order@[p] == before[p - 1]);
                }
            }
        }
        i = i + 1;
    }
    order
}

/// The players' listing lists every player exactly once: it is a
/// permutation of the players' positions.
pub proof fn lemma_turn_order_listing_is_permutation(turns: Seq<Option<i32>>, order: Seq<usize>)
    requires
        is_turn_order_listing(turns, order),
    ensures
        order.no_duplicates(),
        forall|i: usize| i < turns.len() ==> #[trigger] order.contains(i),
{
    let n = turns.len() as int;
    let s = order.map_values(|x: usize| x as int);
    assert forall|p: int, q: int| 0 <= p < order.len() && 0 <= q < order.len() && p != q implies order[p] != order[q] by {
        if p < q {
            assert(listed_before(turns, order[p] as int, order[q] as int));
        } else {
            assert(listed_before(turns, order[q] as int, order[p] as int));
        }
    }
    assert forall|p: int, q: int| 0 <= p < s.len() && 0 <= q < s.len() && p != q implies s[p] != s[q] by {
        assert(order[p] != order[q]);
    }
    assert(s.no_duplicates());
    s.unique_seq_to_set();
    vstd::set_lib::lemma_int_range(0, n);
    let range = vstd::set_lib::set_int_range(0, n);
    assert forall|x: int| s.to_set().contains(x) implies range.contains(x) by {
        let p = choose|p: int| 0 <= p < s.len() && s[p] == x;
        assert(order[p] < turns.len());
    }
    assert(s.to_set().subset_of(range));
    vstd::set_lib::lemma_subset_equality(s.to_set(), range);
    assert forall|i: usize| i < turns.len() implies #[trigger] order.contains(i) by {
        assert(range.contains(i as int));
        assert(s.to_set().contains(i as int));
        let p = choose|p: int| 0 <= p < s.len() && s[p] == i as int;
        assert(order[p] == i);
    }
}

} // verus!
