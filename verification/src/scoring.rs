//! Points: one per trick won, plus a bonus of 10 when the bid is met exactly.

use vstd::prelude::*;

verus! {

/// Bonus points for winning exactly as many tricks as were bid.
pub const EXACT_BID_BONUS: i32 = 10;

/// Points for a round: the tricks won, plus the bonus for an exact bid.
pub open spec fn round_points(tricks_won: int, bid: int) -> int {
    tricks_won + if tricks_won == bid {
        EXACT_BID_BONUS as int
    } else {
        0
    }
}

/// Points over a sequence of rounds, each given as (tricks won, bid).
pub open spec fn total_points(rounds: Seq<(i32, i32)>) -> int
    decreases rounds.len(),
{
    if rounds.len() == 0 {
        0
    } else {
        total_points(rounds.drop_last()) + round_points(
            rounds.last().0 as int,
            rounds.last().1 as int,
        )
    }
}

/// The points of every round, and the running total after every round, fit
/// in an `i32`.
pub open spec fn totals_fit(rounds: Seq<(i32, i32)>) -> bool {
    &&& forall|i: int|
        0 <= i < rounds.len() ==> round_points(#[trigger] rounds[i].0 as int, rounds[i].1 as int)
            <= i32::MAX
    &&& forall|k: int|
        0 <= k <= rounds.len() ==> i32::MIN <= #[trigger] total_points(rounds.take(k))
            <= i32::MAX
}

/// Calculate points for a round based on tricks won and bid: 1 point per
/// trick won and a 10 point bonus if the bid exactly matches the tricks won.
pub fn calculate_round_points(tricks_won: i32, bid: i32) -> (points: i32)
    requires
        round_points(tricks_won as int, bid as int) <= i32::MAX,
    ensures
        points == round_points(tricks_won as int, bid as int),
{
    let base_points = tricks_won;
    let bonus = if tricks_won == bid {
        EXACT_BID_BONUS
    } else {
        0
    };
    base_points + bonus
}

/// Calculate the total score over several rounds, each given as
/// (tricks won, bid).
pub fn calculate_total_score_from_rounds(round_data: &[(i32, i32)]) -> (total: i32)
    requires
        totals_fit(round_data@),
    ensures
        total == total_points(round_data@),
{
    let mut total: i32 = 0;
    let mut i: usize = 0;
    while i < round_data.len()
        invariant
            i <= round_data@.len(),
            totals_fit(round_data@),
            total == total_points(round_data@.take(i as int)),
        decreases round_data@.len() - i,
    {
        let (tricks_won, bid) = round_data[i];
        assert(round_data@.take(i + 1).drop_last() =~= round_data@.take(i as int));
        assert(round_points(round_data@[i as int].0 as int, round_data@[i as int].1 as int)
            <= i32::MAX);
        let points = calculate_round_points(tricks_won, bid);
        assert(i32::MIN <= total_points(round_data@.take(i + 1)) <= i32::MAX);
        total = total + points;
        i = i + 1;
    }
    assert(round_data@.take(round_data@.len() as int) =~= round_data@);
    total
}

/// Whether the player met the bid exactly and so earns the bonus.
pub fn has_exact_bid_bonus(tricks_won: i32, bid: i32) -> (bonus: bool)
    ensures
        bonus == (tricks_won == bid),
{
    tricks_won == bid
}

/// The bonus earned in a round: 10 for an exact bid, otherwise 0.
pub fn calculate_bonus_amount(tricks_won: i32, bid: i32) -> (bonus: i32)
    ensures
        bonus == (if tricks_won == bid {
            EXACT_BID_BONUS
        } else {
            0
        }),
{
    if has_exact_bid_bonus(tricks_won, bid) {
        EXACT_BID_BONUS
    } else {
        0
    }
}

/// The points of a round are the tricks won plus the bonus, and the bonus is
/// paid exactly when the bid is met; a round never scores fewer points than
/// tricks won.
pub proof fn lemma_round_points_decompose(tricks_won: int, bid: int)
    ensures
        round_points(tricks_won, bid) == tricks_won + (if tricks_won == bid {
            EXACT_BID_BONUS as int
        } else {
            0
        }),
        round_points(tricks_won, bid) >= tricks_won,
        round_points(tricks_won, bid) - tricks_won == EXACT_BID_BONUS <==> tricks_won == bid,
{
}

/// The total over two stretches of rounds is the sum of their totals.
pub proof fn lemma_total_points_append(a: Seq<(i32, i32)>, b: Seq<(i32, i32)>)
    ensures
        total_points(a + b) == total_points(a) + total_points(b),
    decreases b.len(),
{
    if b.len() == 0 {
        assert(a + b =~= a);
    } else {
        lemma_total_points_append(a, b.drop_last());
        assert((a + b).drop_last() =~= a + b.drop_last());
    }
}

/// The total of a single round is that round's points, and no rounds score 0.
pub proof fn lemma_total_points_single(tricks_won: i32, bid: i32)
    ensures
        total_points(seq![(tricks_won, bid)]) == round_points(tricks_won as int, bid as int),
        total_points(Seq::<(i32, i32)>::empty()) == 0,
{
    let one = seq![(tricks_won, bid)];
    assert(one.drop_last() =~= Seq::<(i32, i32)>::empty());
    assert(total_points(one.drop_last()) == 0);
    assert(one.last() == (tricks_won, bid));
}

/// With every round's tricks and bid non-negative, the total is at least the
/// number of tricks won and at most that plus 10 per round.
pub proof fn lemma_total_points_bounds(rounds: Seq<(i32, i32)>)
    requires
        forall|i: int| 0 <= i < rounds.len() ==> #[trigger] rounds[i].0 >= 0,
    ensures
        0 <= total_points(rounds) <= total_tricks(rounds) + EXACT_BID_BONUS * rounds.len(),
        total_points(rounds) >= total_tricks(rounds),
    decreases rounds.len(),
{
    if rounds.len() > 0 {
        assert forall|i: int| 0 <= i < rounds.drop_last().len() implies #[trigger] rounds.drop_last()[i].0 >= 0 by {
            assert(rounds.drop_last()[i] == rounds[i]);
        }
        lemma_total_points_bounds(rounds.drop_last());
        assert(rounds.last() == rounds[rounds.len() - 1]);
    }
}

/// Tricks won over a sequence of rounds.
pub open spec fn total_tricks(rounds: Seq<(i32, i32)>) -> int
    decreases rounds.len(),
{
    if rounds.len() == 0 {
        0
    } else {
        total_tricks(rounds.drop_last()) + rounds.last().0
    }
}

/// Taking one round out of a stretch of rounds lowers the total by that
/// round's points.
pub proof fn lemma_total_points_remove(rounds: Seq<(i32, i32)>, i: int)
    requires
        0 <= i < rounds.len(),
    ensures
        total_points(rounds) == total_points(rounds.remove(i)) + round_points(
            rounds[i].0 as int,
            rounds[i].1 as int,
        ),
{
    let front = rounds.subrange(0, i);
    let back = rounds.subrange(i + 1, rounds.len() as int);
    let one = seq![rounds[i]];
    assert(rounds =~= front + one + back);
    assert(rounds.remove(i) =~= front + back);
    lemma_total_points_append(front + one, back);
    lemma_total_points_append(front, one);
    lemma_total_points_append(front, back);
    lemma_total_points_single(rounds[i].0, rounds[i].1);
}

/// The total does not depend on the order of the rounds: two sequences of
/// rounds holding the same rounds, each as often, have the same total.
pub proof fn lemma_total_points_reorder(a: Seq<(i32, i32)>, b: Seq<(i32, i32)>)
    requires
        a.to_multiset() == b.to_multiset(),
    ensures
        total_points(a) == total_points(b),
    decreases a.len(),
{
    broadcast use vstd::seq_lib::group_to_multiset_ensures;

    assert(a.len() == a.to_multiset().len());
    assert(b.len() == b.to_multiset().len());
    if a.len() > 0 {
        let x = a.last();
        let last = a.len() - 1;
        assert(a[last] == x);
        assert(a.contains(x));
        assert(a.to_multiset().count(x) > 0);
        assert(b.contains(x));
        let k = choose|k: int| 0 <= k < b.len() && b[k] == x;
        assert(a.remove(last) =~= a.drop_last());
        assert(a.remove(last).to_multiset() =~= a.to_multiset().remove(x));
        assert(b.remove(k).to_multiset() =~= b.to_multiset().remove(x));
        lemma_total_points_reorder(a.drop_last(), b.remove(k));
        lemma_total_points_remove(b, k);
    }
}

} // verus!
