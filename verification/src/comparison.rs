//! Which of two cards wins, given the lead suit and the trump suit.

use std::cmp::Ordering;
use vstd::prelude::*;

use crate::cards::{
    ascii_prefix, get_card_rank, get_card_rank_value, get_card_suit, is_trump, is_trump_suit,
    rank_of, rank_value, str_eq, suit_of, trump_view,
};

verus! {

/// How `a` stands against `b`.
pub open spec fn order_of(a: int, b: int) -> Ordering {
    if a < b {
        Ordering::Less
    } else if a == b {
        Ordering::Equal
    } else {
        Ordering::Greater
    }
}

/// The same comparison seen from the other side.
pub open spec fn flipped(o: Ordering) -> Ordering {
    match o {
        Ordering::Less => Ordering::Greater,
        Ordering::Equal => Ordering::Equal,
        Ordering::Greater => Ordering::Less,
    }
}

/// How `card1` stands against `card2`: a trump beats a non-trump; two trumps,
/// or two cards of the lead suit, go by rank; any other pair cannot be
/// compared, nor can a card string too short to have a suit.
pub open spec fn card_order(
    card1: Seq<char>,
    card2: Seq<char>,
    lead_suit: Seq<char>,
    trump: Option<Seq<char>>,
) -> Option<Ordering> {
    if suit_of(card1) is None || suit_of(card2) is None {
        None
    } else {
        let s1 = suit_of(card1).unwrap();
        let s2 = suit_of(card2).unwrap();
        let t1 = is_trump(s1, trump);
        let t2 = is_trump(s2, trump);
        if t1 && !t2 {
            Some(Ordering::Greater)
        } else if !t1 && t2 {
            Some(Ordering::Less)
        } else if (t1 && t2) || (s1 == lead_suit && s2 == lead_suit) {
            Some(
                order_of(
                    rank_value(rank_of(card1).unwrap()),
                    rank_value(rank_of(card2).unwrap()),
                ),
            )
        } else {
            None
        }
    }
}

/// Compare two cards to determine which wins: `Greater` if `card1` wins,
/// `Less` if `card2` wins, `Equal` for equal cards, and `None` when the cards
/// cannot be compared (different non-trump suits).
pub fn compare_cards(
    card1: &str,
    card2: &str,
    lead_suit: &str,
    trump_suit: &Option<String>,
) -> (order: Option<Ordering>)
    requires
        ascii_prefix(card1@, 2),
        ascii_prefix(card2@, 2),
    ensures
        order == card_order(card1@, card2@, lead_suit@, trump_view(*trump_suit)),
{
    let suit1 = match get_card_suit(card1) {
        Some(s) => s,
        None => return None,
    };
    let suit2 = match get_card_suit(card2) {
        Some(s) => s,
        None => return None,
    };
    let rank1 = match get_card_rank(card1) {
        Some(r) => r,
        None => return None,
    };
    let rank2 = match get_card_rank(card2) {
        Some(r) => r,
        None => return None,
    };
    let is_trump1 = is_trump_suit(suit1, trump_suit);
    let is_trump2 = is_trump_suit(suit2, trump_suit);
    let follows_lead1 = str_eq(suit1, lead_suit);
    let follows_lead2 = str_eq(suit2, lead_suit);

    if is_trump1 && !is_trump2 {
        return Some(Ordering::Greater);
    }
    if !is_trump1 && is_trump2 {
        return Some(Ordering::Less);
    }
    if (is_trump1 && is_trump2) || (follows_lead1 && follows_lead2) {
        let value1 = get_card_rank_value(rank1);
        let value2 = get_card_rank_value(rank2);
        if value1 < value2 {
            return Some(Ordering::Less);
        } else if value1 == value2 {
            return Some(Ordering::Equal);
        } else {
            return Some(Ordering::Greater);
        }
    }
    None
}

/// Comparing two cards the other way round gives the flipped answer: the
/// comparison is antisymmetric.
pub proof fn lemma_card_order_antisymmetric(
    card1: Seq<char>,
    card2: Seq<char>,
    lead_suit: Seq<char>,
    trump: Option<Seq<char>>,
)
    ensures
        card_order(card1, card2, lead_suit, trump) matches Some(o) ==> card_order(
            card2,
            card1,
            lead_suit,
            trump,
        ) == Some(flipped(o)),
        card_order(card1, card2, lead_suit, trump) is None ==> card_order(
            card2,
            card1,
            lead_suit,
            trump,
        ) is None,
{
}

} // verus!
