//! How AI players act: a bid, a trump choice, and a card, each drawn with
//! `rand` and, for the card, following suit whenever the hand allows it.

use vstd::prelude::*;
use vstd::string::*;

use crate::cards::{is_ascii_char, str_eq};
use crate::game::GamePhase;
use crate::play::valid_trump_name;
use crate::rules::rem_toward_zero;

verus! {

/// A random `i32`, from `rand::random` (the thread-local generator). Any
/// value may come back.
#[verifier::external_body]
fn random_i32() -> i32 {
    rand::random::<i32>()
}

/// A random `usize`, from `rand::random` (the thread-local generator). Any
/// value may come back.
#[verifier::external_body]
fn random_usize() -> usize {
    rand::random::<usize>()
}

/// The bid an AI player makes from a random draw: the draw's remainder by 14
/// (with the sign of the draw, so a negative draw gives a bid that the bid
/// check refuses).
pub fn ai_bid_from_roll(roll: i32) -> (bid: i32)
    ensures
        bid == rem_toward_zero(roll as int, 14),
        -13 <= bid <= 13,
{
    roll % 14
}

/// Draw the bid of an AI player.
pub fn choose_ai_bid() -> (bid: i32)
    ensures
        -13 <= bid <= 13,
{
    ai_bid_from_roll(random_i32())
}

/// The trump choice at position `k` of Spades, Hearts, Diamonds, Clubs,
/// NoTrump.
pub open spec fn ai_trump_at(k: int) -> Seq<char> {
    if k == 0 {
        "Spades"@
    } else if k == 1 {
        "Hearts"@
    } else if k == 2 {
        "Diamonds"@
    } else if k == 3 {
        "Clubs"@
    } else {
        "NoTrump"@
    }
}

/// The trump an AI player chooses from a random draw: the choice at the
/// draw's remainder by 5.
pub fn ai_trump_from_roll(roll: usize) -> (trump: String)
    ensures
        trump@ == ai_trump_at(roll as int % 5),
        valid_trump_name(trump@),
{
    let k = roll % 5;
    let name = if k == 0 {
        "Spades"
    } else if k == 1 {
        "Hearts"
    } else if k == 2 {
        "Diamonds"
    } else if k == 3 {
        "Clubs"
    } else {
        "NoTrump"
    };
    String::from_str(name)
}

/// Draw the trump choice of an AI player.
pub fn choose_ai_trump() -> (trump: String)
    ensures
        valid_trump_name(trump@),
{
    ai_trump_from_roll(random_usize())
}

/// The last character of a string, where it has one, is ASCII (so that the
/// final byte of the string can be cut off on its own).
pub open spec fn ascii_last(s: Seq<char>) -> bool {
    s.len() >= 1 ==> is_ascii_char(s.last())
}

/// The suit the AI reads off a card: its last character, when the card has
/// at least two characters.
pub open spec fn trailing_suit(card: Seq<char>) -> Option<Seq<char>> {
    if card.len() >= 2 {
        Some(card.subrange(card.len() - 1, card.len() as int))
    } else {
        None
    }
}

/// The suit the AI reads off the first card of a trick.
pub fn trailing_suit_of(card: &str) -> (suit: Option<String>)
    requires
        ascii_last(card@),
    ensures
        match trailing_suit(card@) {
            Some(s) => suit matches Some(t) && t@ == s,
            None => suit is None,
        },
{
    let n = card.unicode_len();
    if n >= 2 {
        Some(String::from_str(card.substring_char(n - 1, n)))
    } else {
        None
    }
}

/// The cards of a hand whose trailing suit is `suit`, in hand order.
pub open spec fn cards_of_suit(hand: Seq<String>, suit: Seq<char>) -> Seq<String> {
    hand.filter(|c: String| trailing_suit(c@) == Some(suit))
}

/// The card an AI player plays from a random draw: when a lead suit is known
/// and the hand holds cards of it, the card at the draw's remainder among
/// them; otherwise the card at the draw's remainder in the whole hand.
pub open spec fn ai_card_choice(hand: Seq<String>, lead_suit: Option<Seq<char>>, roll: int) -> String {
    match lead_suit {
        Some(l) => {
            let candidates = cards_of_suit(hand, l);
            if candidates.len() > 0 {
                candidates[roll % candidates.len() as int]
            } else {
                hand[roll % hand.len() as int]
            }
        },
        None => hand[roll % hand.len() as int],
    }
}

/// Every card of the hand ends in an ASCII character.
pub open spec fn hand_ascii_last(hand: Seq<String>) -> bool {
    forall|i: int| 0 <= i < hand.len() ==> ascii_last(#[trigger] hand[i]@)
}

/// The cards of the hand of the given trailing suit.
fn collect_cards_of_suit(hand: &[String], suit: &str) -> (cards: Vec<String>)
    requires
        hand_ascii_last(hand@),
    ensures
        cards@ == cards_of_suit(hand@, suit@),
{
    let ghost pred = |c: String| trailing_suit(c@) == Some(suit@);
    let mut cards: Vec<String> = Vec::new();
    let mut i: usize = 0;
    while i < hand.len()
        invariant
            hand_ascii_last(hand@),
            i <= hand@.len(),
            pred == (|c: String| trailing_suit(c@) == Some(suit@)),
            cards@ == hand@.take(i as int).filter(pred),
        decreases hand@.len() - i,
    {
        proof {
            reveal(Seq::filter);
            assert(hand@.take(i + 1).drop_last() =~= hand@.take(i as int));
            assert(ascii_last(hand@[i as int]@));
        }
        let card = &hand[i];
        let matches = match trailing_suit_of(card.as_str()) {
            Some(s) => str_eq(s.as_str(), suit),
            None => false,
        };
        if matches {
            cards.push(card.clone());
        }
        proof {
            assert(hand@.take(i + 1).last() == hand@[i as int]);
        }
        i = i + 1;
    }
    proof {
        assert(hand@.take(hand@.len() as int) =~= hand@);
    }
    cards
}

/// The card an AI player plays, from a random draw.
pub fn ai_card_from_roll(hand: &[String], lead_suit: Option<&str>, roll: usize) -> (card: String)
    requires
        lead_suit is Some ==> hand_ascii_last(hand@),
        (lead_suit is None || cards_of_suit(hand@, lead_suit.unwrap()@).len() == 0) ==> hand@.len() > 0,
    ensures
        card == ai_card_choice(
            hand@,
            match lead_suit {
                Some(l) => Some(l@),
                None => None,
            },
            roll as int,
        ),
{
    match lead_suit {
        Some(lead) => {
            let candidates = collect_cards_of_suit(hand, lead);
            if candidates.len() > 0 {
                candidates[roll % candidates.len()].clone()
            } else {
                hand[roll % hand.len()].clone()
            }
        },
        None => hand[roll % hand.len()].clone(),
    }
}

/// Draw the card an AI player plays: it comes from the hand, and it is of
/// the lead suit whenever the hand holds a card of the lead suit.
pub fn choose_ai_card(hand: &[String], lead_suit: Option<&str>) -> (card: String)
    requires
        lead_suit is Some ==> hand_ascii_last(hand@),
        (lead_suit is None || cards_of_suit(hand@, lead_suit.unwrap()@).len() == 0) ==> hand@.len() > 0,
    ensures
        hand@.contains(card),
        lead_suit matches Some(l) ==> (cards_of_suit(hand@, l@).len() > 0 ==> trailing_suit(card@)
            == Some(l@)),
{
    let roll = random_usize();
    let card = ai_card_from_roll(hand, lead_suit, roll);
    proof {
        lemma_ai_card_follows_suit(
            hand@,
            match lead_suit {
                Some(l) => Some(l@),
                None => None,
            },
            roll as int,
        );
    }
    card
}

/// An AI player's card always comes from its hand, and it follows the lead
/// suit whenever the hand holds a card of that suit.
pub proof fn lemma_ai_card_follows_suit(hand: Seq<String>, lead_suit: Option<Seq<char>>, roll: int)
    requires
        roll >= 0,
        (lead_suit is None || cards_of_suit(hand, lead_suit.unwrap()).len() == 0) ==> hand.len() > 0,
    ensures
        hand.contains(ai_card_choice(hand, lead_suit, roll)),
        lead_suit matches Some(l) ==> (cards_of_suit(hand, l).len() > 0 ==> trailing_suit(
            ai_card_choice(hand, lead_suit, roll)@,
        ) == Some(l)),
{
    broadcast use vstd::seq_lib::group_filter_ensures;

    match lead_suit {
        Some(l) => {
            let pred = |c: String| trailing_suit(c@) == Some(l);
            let candidates = hand.filter(pred);
            if candidates.len() > 0 {
                let k = roll % candidates.len() as int;
                assert(pred(candidates[k]));
                lemma_filter_subset(hand, pred, k);
            } else {
                assert(hand[roll % hand.len() as int] == hand[roll % hand.len() as int]);
            }
        },
        None => {
            assert(hand[roll % hand.len() as int] == hand[roll % hand.len() as int]);
        },
    }
}

proof fn lemma_filter_subset(s: Seq<String>, pred: spec_fn(String) -> bool, k: int)
    requires
        0 <= k < s.filter(pred).len(),
    ensures
        s.contains(s.filter(pred)[k]),
    decreases s.len(),
{
    reveal(Seq::filter);
    if s.len() > 0 {
        let rest = s.drop_last();
        if pred(s.last()) && k == s.filter(pred).len() - 1 {
            assert(s[s.len() - 1] == s.last());
        } else {
            lemma_filter_subset(rest, pred, k);
            let j = choose|j: int| 0 <= j < rest.len() && rest[j] == s.filter(pred)[k];
            assert(s[j] == rest[j]);
        }
    }
}

/// Whether the AI player to act has already acted in the current phase: bid
/// in this round while bidding, trump chosen while selecting trump, played
/// in this trick while playing; never in the scoring phase.
pub fn ai_has_acted(phase: GamePhase, has_bid: bool, trump_chosen: bool, has_played: bool) -> (acted: bool)
    ensures
        acted == match phase {
            GamePhase::Bidding => has_bid,
            GamePhase::TrumpSelection => trump_chosen,
            GamePhase::Playing => has_played,
            GamePhase::Scoring => false,
        },
{
    match phase {
        GamePhase::Bidding => has_bid,
        GamePhase::TrumpSelection => trump_chosen,
        GamePhase::Playing => has_played,
        GamePhase::Scoring => false,
    }
}

} // verus!
