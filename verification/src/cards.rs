//! Card strings: a rank character followed by a suit character ("AS", "TD").

use vstd::prelude::*;
use vstd::string::*;

verus! {

/// The comparison value of a rank character (2..=9 by face, T=10, J=11,
/// Q=12, K=13, A=14), or 0 for a character that names no rank.
pub open spec fn rank_char_value(c: char) -> int {
    if c == '2' {
        2
    } else if c == '3' {
        3
    } else if c == '4' {
        4
    } else if c == '5' {
        5
    } else if c == '6' {
        6
    } else if c == '7' {
        7
    } else if c == '8' {
        8
    } else if c == '9' {
        9
    } else if c == 'T' {
        10
    } else if c == 'J' {
        11
    } else if c == 'Q' {
        12
    } else if c == 'K' {
        13
    } else if c == 'A' {
        14
    } else {
        0
    }
}

/// A suit character: spades, hearts, diamonds or clubs.
pub open spec fn is_suit_char(c: char) -> bool {
    c == 'S' || c == 'H' || c == 'D' || c == 'C'
}

/// The comparison value of a rank string: that of its only character, or 0
/// for a string that is not exactly one rank character.
pub open spec fn rank_value(rank: Seq<char>) -> int {
    if rank.len() == 1 {
        rank_char_value(rank[0])
    } else {
        0
    }
}

/// A well-formed card: exactly one rank character and one suit character.
pub open spec fn valid_card(card: Seq<char>) -> bool {
    &&& card.len() == 2
    &&& rank_char_value(card[0]) != 0
    &&& is_suit_char(card[1])
}

/// An ASCII character (encoded in a single byte).
pub open spec fn is_ascii_char(c: char) -> bool {
    (c as u32) < 128
}

/// The first `n` characters of `s` (those that exist) are ASCII, so that the
/// byte offsets 0..=n of `s` fall on character boundaries.
pub open spec fn ascii_prefix(s: Seq<char>, n: int) -> bool {
    forall|i: int| 0 <= i < n && i < s.len() ==> is_ascii_char(#[trigger] s[i])
}

/// The suit part of a card string: its second character, if it has one.
pub open spec fn suit_of(card: Seq<char>) -> Option<Seq<char>> {
    if card.len() >= 2 {
        Some(card.subrange(1, 2))
    } else {
        None
    }
}

/// The rank part of a card string: its first character, if it has one.
pub open spec fn rank_of(card: Seq<char>) -> Option<Seq<char>> {
    if card.len() >= 1 {
        Some(card.subrange(0, 1))
    } else {
        None
    }
}

/// Whether `suit` is the trump suit of a round (no suit is trump when the
/// round has none).
pub open spec fn is_trump(suit: Seq<char>, trump: Option<Seq<char>>) -> bool {
    trump matches Some(t) && suit == t
}

/// The trump suit of a round, as characters.
pub open spec fn trump_view(trump_suit: Option<String>) -> Option<Seq<char>> {
    match trump_suit {
        Some(t) => Some(t@),
        None => None,
    }
}

/// Whether two strings hold the same characters.
pub fn str_eq(a: &str, b: &str) -> (same: bool)
    ensures
        same == (a@ == b@),
{
    let n = a.unicode_len();
    if n != b.unicode_len() {
        return false;
    }
    let mut i: usize = 0;
    while i < n
        invariant
            n == a@.len(),
            n == b@.len(),
            i <= n,
            forall|j: int| 0 <= j < i ==> a@[j] == b@[j],
        decreases n - i,
    {
        if a.get_char(i) != b.get_char(i) {
            return false;
        }
        i = i + 1;
    }
    assert(a@ =~= b@);
    true
}

/// The comparison value of a single rank character.
pub fn rank_char_value_of(c: char) -> (value: i32)
    ensures
        value == rank_char_value(c),
{
    match c {
        '2' => 2,
        '3' => 3,
        '4' => 4,
        '5' => 5,
        '6' => 6,
        '7' => 7,
        '8' => 8,
        '9' => 9,
        'T' => 10,
        'J' => 11,
        'Q' => 12,
        'K' => 13,
        'A' => 14,
        _ => 0,
    }
}

/// Whether a character names a suit.
pub fn suit_char_is_valid(c: char) -> (valid: bool)
    ensures
        valid == is_suit_char(c),
{
    c == 'S' || c == 'H' || c == 'D' || c == 'C'
}

/// Validate card format (e.g., "AS", "KH", "2C"): a rank followed by a suit.
pub fn is_valid_card_format(card: &str) -> (valid: bool)
    ensures
        valid == valid_card(card@),
{
    if card.unicode_len() != 2 {
        return false;
    }
    rank_char_value_of(card.get_char(0)) != 0 && suit_char_is_valid(card.get_char(1))
}

/// Get the card rank value for comparison (2=2, 3=3, ..., A=14), 0 for a
/// string that is not a rank.
pub fn get_card_rank_value(rank: &str) -> (value: i32)
    ensures
        value == rank_value(rank@),
{
    if rank.unicode_len() != 1 {
        return 0;
    }
    rank_char_value_of(rank.get_char(0))
}

/// Whether `suit` is the trump suit.
pub fn is_trump_suit(suit: &str, trump_suit: &Option<String>) -> (trump: bool)
    ensures
        trump == is_trump(suit@, trump_view(*trump_suit)),
{
    match trump_suit {
        Some(t) => str_eq(suit, t.as_str()),
        None => false,
    }
}

/// The suit of a card: its second character.
pub fn get_card_suit(card: &str) -> (suit: Option<&str>)
    requires
        ascii_prefix(card@, 2),
    ensures
        suit matches Some(s) ==> suit_of(card@) == Some(s@),
        suit is None <==> suit_of(card@) is None,
{
    if card.unicode_len() >= 2 {
        Some(card.substring_char(1, 2))
    } else {
        None
    }
}

/// The rank of a card: its first character.
pub fn get_card_rank(card: &str) -> (rank: Option<&str>)
    requires
        ascii_prefix(card@, 1),
    ensures
        rank matches Some(r) ==> rank_of(card@) == Some(r@),
        rank is None <==> rank_of(card@) is None,
{
    if card.unicode_len() >= 1 {
        Some(card.substring_char(0, 1))
    } else {
        None
    }
}

/// Whether a card is of the lead suit.
pub fn follows_suit(card: &str, lead_suit: &str) -> (follows: bool)
    requires
        ascii_prefix(card@, 2),
    ensures
        follows == (suit_of(card@) == Some(lead_suit@)),
{
    match get_card_suit(card) {
        Some(s) => str_eq(s, lead_suit),
        None => false,
    }
}

/// Whether a card is of the trump suit.
pub fn is_trump_card(card: &str, trump_suit: &Option<String>) -> (trump: bool)
    requires
        ascii_prefix(card@, 2),
    ensures
        trump == (suit_of(card@) matches Some(s) && is_trump(s, trump_view(*trump_suit))),
{
    match get_card_suit(card) {
        Some(s) => is_trump_suit(s, trump_suit),
        None => false,
    }
}

/// Ranks count by face: 2 through 9 are worth their number, then T = 10,
/// J = 11, Q = 12, K = 13, A = 14, so each rank beats every rank below it in
/// the order 2 3 4 5 6 7 8 9 T J Q K A; every other character is worth 0.
pub proof fn lemma_rank_face_order(c: char)
    ensures
        rank_char_value('2') == 2,
        rank_char_value('3') == 3,
        rank_char_value('4') == 4,
        rank_char_value('5') == 5,
        rank_char_value('6') == 6,
        rank_char_value('7') == 7,
        rank_char_value('8') == 8,
        rank_char_value('9') == 9,
        rank_char_value('T') == 10,
        rank_char_value('J') == 11,
        rank_char_value('Q') == 12,
        rank_char_value('K') == 13,
        rank_char_value('A') == 14,
        !(c == '2' || c == '3' || c == '4' || c == '5' || c == '6' || c == '7' || c == '8' || c
            == '9' || c == 'T' || c == 'J' || c == 'Q' || c == 'K' || c == 'A') ==> rank_char_value(c)
            == 0,
        0 <= rank_char_value(c) <= 14,
{
}

} // verus!
