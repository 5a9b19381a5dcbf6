//! Bids, the highest bidder, bidding turns, and the deck that is dealt.

use rand::seq::SliceRandom;
use vstd::prelude::*;
use vstd::string::*;

use crate::cards::{rank_char_value, valid_card};
use crate::rules::rem_toward_zero;
use crate::PlayerId;

verus! {

broadcast use vstd::seq_lib::group_to_multiset_ensures;

/// Lowest bid a player may make.
pub const MIN_BID: i32 = 0;

/// Highest bid a player may make.
pub const MAX_BID: i32 = 13;

/// Number of cards in the deck.
pub const DECK_SIZE: usize = 52;

/// A bid in 0..=13.
pub open spec fn valid_bid(bid: int) -> bool {
    MIN_BID <= bid <= MAX_BID
}

/// Validate a bid value (0-13).
pub fn is_valid_bid(bid: i32) -> (valid: bool)
    ensures
        valid == valid_bid(bid as int),
{
    MIN_BID <= bid && bid <= MAX_BID
}

/// The highest of the bids, and -1 when there is no bid above -1.
pub open spec fn top_bid(bids: Seq<(i32, PlayerId)>) -> int
    decreases bids.len(),
{
    if bids.len() == 0 {
        -1
    } else {
        let rest = top_bid(bids.drop_last());
        if bids.last().0 > rest {
            bids.last().0 as int
        } else {
            rest
        }
    }
}

/// Bid `i` is the first bid that reaches the top bid.
pub open spec fn is_first_top_bid(bids: Seq<(i32, PlayerId)>, i: int) -> bool {
    &&& 0 <= i < bids.len()
    &&& bids[i].0 == top_bid(bids)
    &&& forall|j: int| 0 <= j < i ==> bids[j].0 < top_bid(bids)
}

proof fn lemma_top_bid_step(bids: Seq<(i32, PlayerId)>, k: int)
    requires
        0 <= k < bids.len(),
    ensures
        bids.take(k + 1).drop_last() =~= bids.take(k),
        top_bid(bids.take(k + 1)) == if bids[k].0 > top_bid(bids.take(k)) {
            bids[k].0 as int
        } else {
            top_bid(bids.take(k))
        },
{
    assert(bids.take(k + 1).drop_last() =~= bids.take(k));
    assert(bids.take(k + 1).last() == bids[k]);
}

proof fn lemma_top_bid_bounds(bids: Seq<(i32, PlayerId)>)
    ensures
        top_bid(bids) >= -1,
        forall|i: int| 0 <= i < bids.len() ==> #[trigger] bids[i].0 <= top_bid(bids),
        top_bid(bids) > -1 ==> exists|i: int| 0 <= i < bids.len() && #[trigger] bids[i].0 == top_bid(bids),
    decreases bids.len(),
{
    if bids.len() > 0 {
        let rest = bids.drop_last();
        lemma_top_bid_bounds(rest);
        assert forall|i: int| 0 <= i < bids.len() implies #[trigger] bids[i].0 <= top_bid(bids) by {
            if i < bids.len() - 1 {
                assert(bids[i] == rest[i]);
            }
        }
        if top_bid(bids) > -1 {
            if bids.last().0 > top_bid(rest) {
                assert(bids[bids.len() - 1].0 == top_bid(bids));
            } else {
                let i = choose|i: int| 0 <= i < rest.len() && #[trigger] rest[i].0 == top_bid(rest);
                assert(bids[i] == rest[i]);
            }
        }
    }
}

/// The top bid is at least -1 and at least every bid; when some bid reaches
/// -1 there is a first bid that reaches the top bid.
pub proof fn lemma_top_bid_facts(bids: Seq<(i32, PlayerId)>)
    ensures
        top_bid(bids) >= -1,
        forall|i: int| 0 <= i < bids.len() ==> #[trigger] bids[i].0 <= top_bid(bids),
        (exists|i: int| 0 <= i < bids.len() && #[trigger] bids[i].0 >= -1) ==> exists|i: int|
            is_first_top_bid(bids, i),
{
    lemma_top_bid_bounds(bids);
    if exists|i: int| 0 <= i < bids.len() && #[trigger] bids[i].0 >= -1 {
        lemma_first_reaching(bids, top_bid(bids));
    }
}

proof fn lemma_first_reaching(bids: Seq<(i32, PlayerId)>, t: int)
    requires
        t == top_bid(bids),
        t >= -1,
        forall|i: int| 0 <= i < bids.len() ==> #[trigger] bids[i].0 <= t,
        t > -1 ==> exists|i: int| 0 <= i < bids.len() && #[trigger] bids[i].0 == t,
        t == -1 ==> exists|i: int| 0 <= i < bids.len() && #[trigger] bids[i].0 >= -1,
    ensures
        exists|i: int| is_first_top_bid(bids, i),
{
    if t == -1 {
        let k = choose|i: int| 0 <= i < bids.len() && #[trigger] bids[i].0 >= -1;
        assert(bids[k].0 == t);
        lemma_first_index_with(bids, t, k);
    } else {
        let w = choose|i: int| 0 <= i < bids.len() && #[trigger] bids[i].0 == t;
        lemma_first_index_with(bids, t, w);
    }
}

proof fn lemma_first_index_with(bids: Seq<(i32, PlayerId)>, t: int, w: int)
    requires
        0 <= w < bids.len(),
        bids[w].0 == t,
        t == top_bid(bids),
    ensures
        exists|i: int| is_first_top_bid(bids, i),
    decreases w,
{
    if forall|j: int| 0 <= j < w ==> bids[j].0 < t {
        assert(is_first_top_bid(bids, w));
    } else {
        let j = choose|j: int| 0 <= j < w && !(bids[j].0 < t);
        lemma_top_bid_bounds(bids);
        assert(bids[j].0 == t);
        lemma_first_index_with(bids, t, j);
    }
}

/// Find the highest bidder: returns (highest bid, highest bidder, first
/// bidder). Ties go to the earliest bid. The highest bid is -1 when no bid
/// exceeds -1; the highest bidder is set only by a bid above -1, the first
/// bidder by any bid of at least -1.
pub fn find_highest_bidder(bids: &[(i32, PlayerId)]) -> (result: (
    i32,
    Option<PlayerId>,
    Option<PlayerId>,
))
    ensures
        result.0 == top_bid(bids@),
        result.1 is Some <==> exists|i: int| 0 <= i < bids@.len() && #[trigger] bids@[i].0 > -1,
        result.2 is Some <==> exists|i: int| 0 <= i < bids@.len() && #[trigger] bids@[i].0 >= -1,
        result.1 matches Some(p) ==> exists|i: int|
            is_first_top_bid(bids@, i) && #[trigger] bids@[i].1 == p,
        result.2 matches Some(p) ==> exists|i: int|
            is_first_top_bid(bids@, i) && #[trigger] bids@[i].1 == p,
        result.1 is Some ==> result.2 == result.1,
{
    let mut highest_bid: i32 = -1;
    let mut highest_bidder_id: Option<PlayerId> = None;
    let mut first_bidder_id: Option<PlayerId> = None;
    let ghost mut hi: int = 0;
    let ghost mut fi: int = 0;
    let mut k: usize = 0;
    while k < bids.len()
        invariant
            k <= bids@.len(),
            highest_bid == top_bid(bids@.take(k as int)),
            highest_bidder_id is Some <==> exists|i: int|
                0 <= i < k && #[trigger] bids@[i].0 > -1,
            first_bidder_id is Some <==> exists|i: int| 0 <= i < k && #[trigger] bids@[i].0 >= -1,
            highest_bidder_id matches Some(p) ==> is_first_top_bid(bids@.take(k as int), hi)
                && bids@[hi].1 == p,
            first_bidder_id matches Some(p) ==> is_first_top_bid(bids@.take(k as int), fi)
                && bids@[fi].1 == p,
            highest_bidder_id is Some ==> first_bidder_id == highest_bidder_id && fi == hi,
            first_bidder_id is None ==> highest_bid == -1,
        decreases bids@.len() - k,
    {
        proof {
            lemma_top_bid_step(bids@, k as int);
            lemma_top_bid_bounds(bids@.take(k as int));
        }
        let (bid, player_id) = bids[k];
        let ghost before = bids@.take(k as int);
        let ghost after = bids@.take(k + 1);
        if bid > highest_bid {
            highest_bid = bid;
            highest_bidder_id = Some(player_id);
            first_bidder_id = Some(player_id);
            proof {
                hi = k as int;
                fi = k as int;
                assert forall|j: int| 0 <= j < hi implies after[j].0 < top_bid(after) by {
                    assert(after[j] == before[j]);
                }
            }
        } else if bid == highest_bid {
            if first_bidder_id.is_none() {
                first_bidder_id = Some(player_id);
                proof {
                    fi = k as int;
                    assert forall|j: int| 0 <= j < fi implies after[j].0 < top_bid(after) by {
                        assert(after[j] == before[j]);
                        assert(!(after[j].0 >= -1));
                    }
                }
            }
        }
        proof {
            if highest_bidder_id is Some && hi < k {
                assert forall|j: int| 0 <= j < hi implies after[j].0 < top_bid(after) by {
                    assert(after[j] == before[j]);
                }
                assert(after[hi] == before[hi]);
            }
            if first_bidder_id is Some && fi < k {
                assert forall|j: int| 0 <= j < fi implies after[j].0 < top_bid(after) by {
                    assert(after[j] == before[j]);
                }
                assert(after[fi] == before[fi]);
            }
            assert(bids@[k as int].0 == bid);
        }
        k = k + 1;
    }
    proof {
        assert(bids@.take(bids@.len() as int) =~= bids@);
    }
    (highest_bid, highest_bidder_id, first_bidder_id)
}

/// Whether every player has bid.
pub fn all_bids_submitted(bid_count: usize, player_count: usize) -> (all: bool)
    ensures
        all == (bid_count == player_count),
{
    bid_count == player_count
}

/// The next bidding turn (0-3) with wraparound.
pub fn get_next_bidding_turn(current_turn: i32) -> (next: i32)
    requires
        current_turn < i32::MAX,
    ensures
        next == rem_toward_zero(current_turn + 1, 4),
{
    (current_turn + 1) % 4
}

/// The rank character at position `r` of 2,3,...,9,T,J,Q,K,A.
pub open spec fn rank_char_at(r: int) -> char {
    if r == 0 {
        '2'
    } else if r == 1 {
        '3'
    } else if r == 2 {
        '4'
    } else if r == 3 {
        '5'
    } else if r == 4 {
        '6'
    } else if r == 5 {
        '7'
    } else if r == 6 {
        '8'
    } else if r == 7 {
        '9'
    } else if r == 8 {
        'T'
    } else if r == 9 {
        'J'
    } else if r == 10 {
        'Q'
    } else if r == 11 {
        'K'
    } else {
        'A'
    }
}

/// The suit character at position `s` of the deck order H, D, C, S.
pub open spec fn deck_suit_char_at(s: int) -> char {
    if s == 0 {
        'H'
    } else if s == 1 {
        'D'
    } else if s == 2 {
        'C'
    } else {
        'S'
    }
}

/// The standard deck before shuffling: for each suit in the order H, D, C, S
/// the thirteen ranks from 2 to A, each card written rank then suit.
pub open spec fn standard_deck() -> Seq<Seq<char>> {
    Seq::new(52, |i: int| seq![rank_char_at(i % 13), deck_suit_char_at(i / 13)])
}

/// The texts of a sequence of card strings.
pub open spec fn card_texts(cards: Seq<String>) -> Seq<Seq<char>> {
    cards.map_values(|c: String| c@)
}

fn rank_text(r: usize) -> (text: &'static str)
    requires
        r < 13,
    ensures
        text@ == seq![rank_char_at(r as int)],
{
    proof {
        reveal_strlit("2");
        reveal_strlit("3");
        reveal_strlit("4");
        reveal_strlit("5");
        reveal_strlit("6");
        reveal_strlit("7");
        reveal_strlit("8");
        reveal_strlit("9");
        reveal_strlit("T");
        reveal_strlit("J");
        reveal_strlit("Q");
        reveal_strlit("K");
        reveal_strlit("A");
    }
    if r == 0 {
        "2"
    } else if r == 1 {
        "3"
    } else if r == 2 {
        "4"
    } else if r == 3 {
        "5"
    } else if r == 4 {
        "6"
    } else if r == 5 {
        "7"
    } else if r == 6 {
        "8"
    } else if r == 7 {
        "9"
    } else if r == 8 {
        "T"
    } else if r == 9 {
        "J"
    } else if r == 10 {
        "Q"
    } else if r == 11 {
        "K"
    } else {
        "A"
    }
}

fn suit_text(s: usize) -> (text: &'static str)
    requires
        s < 4,
    ensures
        text@ == seq![deck_suit_char_at(s as int)],
{
    proof {
        reveal_strlit("H");
        reveal_strlit("D");
        reveal_strlit("C");
        reveal_strlit("S");
    }
    if s == 0 {
        "H"
    } else if s == 1 {
        "D"
    } else if s == 2 {
        "C"
    } else {
        "S"
    }
}

/// Shuffles the cards in place with `rand`'s `SliceRandom::shuffle`, driven
/// by the thread-local generator. The order that results is chance: the
/// contract claims only that the same cards remain, each as often as before
/// (the shuffle swaps elements and nothing else).
#[verifier::external_body]
fn shuffle_cards(deck: &mut Vec<String>)
    ensures
        card_texts(final(deck)@).to_multiset() == card_texts(old(deck)@).to_multiset(),
{
    deck.shuffle(&mut rand::thread_rng());
}

/// The 52 cards of the standard deck, in its unshuffled order.
pub fn standard_deck_cards() -> (deck: Vec<String>)
    ensures
        card_texts(deck@) == standard_deck(),
{
    let mut deck: Vec<String> = Vec::new();
    let mut s: usize = 0;
    while s < 4
        invariant
            s <= 4,
            card_texts(deck@) == standard_deck().take(13 * s as int),
        decreases 4 - s,
    {
        let mut r: usize = 0;
        while r < 13
            invariant
                s < 4,
                r <= 13,
                card_texts(deck@) == standard_deck().take(13 * s + r),
            decreases 13 - r,
        {
            let card = String::from_str(rank_text(r)).concat(suit_text(s));
            let ghost idx = 13 * s + r;
            let ghost before = deck@;
            proof {
                assert(idx % 13 == r as int);
                assert(idx / 13 == s as int);
                assert(card@ =~= seq![rank_char_at(r as int), deck_suit_char_at(s as int)]);
                assert(standard_deck()[idx] == card@);
            }
            deck.push(card);
            proof {
                assert(deck@ =~= before.push(card));
                assert(card_texts(deck@) =~= card_texts(before).push(card@));
                assert(card_texts(deck@) =~= standard_deck().take(13 * s + r + 1));
            }
            r = r + 1;
        }
        s = s + 1;
    }
    assert(standard_deck().take(52) =~= standard_deck());
    deck
}

/// Create a standard 52-card deck and shuffle it.
pub fn create_shuffled_deck() -> (deck: Vec<String>)
    ensures
        deck@.len() == DECK_SIZE,
        card_texts(deck@).to_multiset() == standard_deck().to_multiset(),
{
    let mut deck = standard_deck_cards();
    shuffle_cards(&mut deck);
    proof {
        assert(card_texts(deck@).len() == card_texts(deck@).to_multiset().len());
        assert(standard_deck().len() == standard_deck().to_multiset().len());
    }
    deck
}

/// The position in the deck's suit order of a suit character.
pub open spec fn deck_suit_index(c: char) -> int {
    if c == 'H' {
        0
    } else if c == 'D' {
        1
    } else if c == 'C' {
        2
    } else {
        3
    }
}

proof fn lemma_rank_char_at_inverse(r: int)
    requires
        0 <= r < 13,
    ensures
        rank_char_value(rank_char_at(r)) == r + 2,
{
}

proof fn lemma_standard_deck_entry(i: int)
    requires
        0 <= i < 52,
    ensures
        valid_card(standard_deck()[i]),
        rank_char_value(standard_deck()[i][0]) == i % 13 + 2,
        deck_suit_index(standard_deck()[i][1]) == i / 13,
{
    lemma_rank_char_at_inverse(i % 13);
}

/// The standard deck holds every well-formed card exactly once and nothing
/// else: 52 distinct cards, each a rank followed by a suit.
pub proof fn lemma_standard_deck()
    ensures
        standard_deck().len() == DECK_SIZE,
        standard_deck().no_duplicates(),
        forall|i: int| 0 <= i < 52 ==> valid_card(#[trigger] standard_deck()[i]),
        forall|c: Seq<char>| valid_card(c) ==> standard_deck().contains(c),
{
    let d = standard_deck();
    assert forall|i: int| 0 <= i < 52 implies valid_card(#[trigger] d[i]) by {
        lemma_standard_deck_entry(i);
    }
    assert forall|i: int, j: int| 0 <= i < 52 && 0 <= j < 52 && i != j implies d[i] != d[j] by {
        lemma_standard_deck_entry(i);
        lemma_standard_deck_entry(j);
        if d[i] == d[j] {
            assert(i % 13 == j % 13);
            assert(i / 13 == j / 13);
            assert(i == 13 * (i / 13) + i % 13);
            assert(j == 13 * (j / 13) + j % 13);
        }
    }
    assert forall|c: Seq<char>| valid_card(c) implies d.contains(c) by {
        let r = rank_char_value(c[0]) - 2;
        let s = deck_suit_index(c[1]);
        let i = 13 * s + r;
        assert(0 <= r < 13);
        assert(0 <= s < 4);
        assert(i % 13 == r);
        assert(i / 13 == s);
        lemma_standard_deck_entry(i);
        assert(d[i] =~= c);
    }
}

/// Any arrangement of the standard deck (such as a shuffled one) holds each
/// well-formed card exactly once and no other string.
pub proof fn lemma_deck_arrangement_counts(cards: Seq<Seq<char>>)
    requires
        cards.to_multiset() == standard_deck().to_multiset(),
    ensures
        cards.len() == DECK_SIZE,
        forall|c: Seq<char>| #[trigger] cards.to_multiset().count(c) == if valid_card(c) {
            1nat
        } else {
            0nat
        },
{
    lemma_standard_deck();
    standard_deck().lemma_multiset_has_no_duplicates();
    assert(cards.len() == cards.to_multiset().len());
    assert(standard_deck().len() == standard_deck().to_multiset().len());
    assert forall|c: Seq<char>| #[trigger] cards.to_multiset().count(c) == if valid_card(c) {
        1nat
    } else {
        0nat
    } by {
        if valid_card(c) {
            assert(standard_deck().contains(c));
        } else {
            if standard_deck().to_multiset().count(c) > 0 {
                let i = choose|i: int| 0 <= i < 52 && standard_deck()[i] == c;
                assert(valid_card(standard_deck()[i]));
            }
        }
    }
}

} // verus!
