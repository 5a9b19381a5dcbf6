//! Trick taking: who wins a trick, the follow-suit rule, and how a trick
//! advances the turn.

use vstd::prelude::*;
use vstd::string::*;
use vstd::utf8::{encode_scalar, encode_utf8};

use crate::cards::{
    ascii_prefix, is_ascii_char, get_card_rank_value, get_card_suit, is_trump, is_trump_suit, rank_of, rank_value,
    str_eq, suit_of, trump_view,
};
use crate::rules::rem_toward_zero;
use crate::PlayerId;

verus! {

/// Every card string of the plays has ASCII first and second characters (so
/// that the rank and the suit can be cut out of it).
pub open spec fn plays_well_formed(plays: Seq<(String, PlayerId)>) -> bool {
    forall|i: int| 0 <= i < plays.len() ==> ascii_prefix(#[trigger] plays[i].0@, 2)
}

/// Every card string of the hand has ASCII first and second characters.
pub open spec fn hand_well_formed(hand: Seq<String>) -> bool {
    forall|i: int| 0 <= i < hand.len() ==> ascii_prefix(#[trigger] hand[i]@, 2)
}

/// How strongly a card contends for a trick: a trump ranks above every card
/// of the lead suit, which ranks above every other card; within the trumps
/// and within the lead suit the rank decides; cards of neither kind cannot
/// win, whatever their rank.
pub open spec fn trick_strength(
    card: Seq<char>,
    lead_suit: Seq<char>,
    trump: Option<Seq<char>>,
) -> int {
    let suit = suit_of(card).unwrap();
    let rank = rank_value(rank_of(card).unwrap());
    if is_trump(suit, trump) {
        200 + rank
    } else if suit == lead_suit {
        100 + rank
    } else {
        0
    }
}

/// Play `w` wins the trick: its card has a suit, and it is the first play of
/// greatest strength among the plays whose card has a suit (the others are
/// passed over).
pub open spec fn is_trick_winner(
    plays: Seq<(String, PlayerId)>,
    trump: Option<Seq<char>>,
    w: int,
) -> bool {
    let lead = suit_of(plays[0].0@).unwrap();
    &&& plays.len() > 0 && suit_of(plays[0].0@) is Some
    &&& 0 <= w < plays.len()
    &&& suit_of(plays[w].0@) is Some
    &&& forall|j: int|
        0 <= j < plays.len() && suit_of(#[trigger] plays[j].0@) is Some ==> trick_strength(
            plays[j].0@,
            lead,
            trump,
        ) <= trick_strength(plays[w].0@, lead, trump)
    &&& forall|j: int|
        0 <= j < w && suit_of(#[trigger] plays[j].0@) is Some ==> trick_strength(
            plays[j].0@,
            lead,
            trump,
        ) < trick_strength(plays[w].0@, lead, trump)
}

/// The index of the winning play of a trick (meaningful when the trick has
/// a lead card with a suit).
pub open spec fn trick_winner_index(plays: Seq<(String, PlayerId)>, trump: Option<Seq<char>>) -> int {
    choose|w: int| is_trick_winner(plays, trump, w)
}

/// The player who wins a trick; none for an empty trick or one whose lead
/// card has no suit.
pub open spec fn trick_winner_of(
    plays: Seq<(String, PlayerId)>,
    trump: Option<Seq<char>>,
) -> Option<PlayerId> {
    if plays.len() == 0 || suit_of(plays[0].0@) is None {
        None
    } else {
        Some(plays[trick_winner_index(plays, trump)].1)
    }
}

/// A trick has at most one winning play.
pub proof fn lemma_trick_winner_unique(
    plays: Seq<(String, PlayerId)>,
    trump: Option<Seq<char>>,
    w1: int,
    w2: int,
)
    requires
        is_trick_winner(plays, trump, w1),
        is_trick_winner(plays, trump, w2),
    ensures
        w1 == w2,
{
    let lead = suit_of(plays[0].0@).unwrap();
    if w1 < w2 {
        assert(suit_of(plays[w1].0@) is Some);
        assert(trick_strength(plays[w1].0@, lead, trump) < trick_strength(plays[w2].0@, lead, trump));
    } else if w2 < w1 {
        assert(suit_of(plays[w2].0@) is Some);
        assert(trick_strength(plays[w2].0@, lead, trump) < trick_strength(plays[w1].0@, lead, trump));
    }
}

/// Determine the winner of a trick from its plays (card, player) in play
/// order and the trump suit: trump beats non-trump, a card of the lead suit
/// beats any other non-trump card, and within the trumps or within the lead
/// suit the highest rank wins; on equal strength the earlier play wins.
pub fn determine_trick_winner(
    plays: &[(String, PlayerId)],
    trump_suit: &Option<String>,
) -> (winner: Result<PlayerId, String>)
    requires
        plays_well_formed(plays@),
    ensures
        plays@.len() == 0 ==> (winner matches Err(e) && e@ == "No plays found for trick"@),
        plays@.len() > 0 && suit_of(plays@[0].0@) is None ==> (winner matches Err(e) && e@
            == "Invalid card format"@),
        trick_winner_of(plays@, trump_view(*trump_suit)) matches Some(p) ==> winner == Ok::<
            PlayerId,
            String,
        >(p),
        plays@.len() > 0 && suit_of(plays@[0].0@) is Some ==> is_trick_winner(
            plays@,
            trump_view(*trump_suit),
            trick_winner_index(plays@, trump_view(*trump_suit)),
        ),
{
    if plays.len() == 0 {
        return Err(String::from_str("No plays found for trick"));
    }
    let lead_card = plays[0].0.as_str();
    proof {
        assert(ascii_prefix(plays@[0].0@, 2));
    }
    let lead_suit = match get_card_suit(lead_card) {
        Some(s) => s,
        None => {
            return Err(String::from_str("Invalid card format"));
        },
    };
    let ghost lead = lead_suit@;
    let ghost trump = trump_view(*trump_suit);

    let mut winner_index: usize = 0;
    let mut winning_rank = get_card_rank_value(lead_card.substring_char(0, 1));
    let mut winning_is_trump = is_trump_suit(lead_suit, trump_suit);
    let mut winning_follows_lead = true;
    proof {
        assert(lead_card@.subrange(0, 1) == rank_of(lead_card@).unwrap());
    }

    let mut i: usize = 1;
    while i < plays.len()
        invariant
            plays_well_formed(plays@),
            plays@.len() >= 1,
            lead_card@ == plays@[0].0@,
            suit_of(lead_card@) == Some(lead),
            lead_suit@ == lead,
            trump == trump_view(*trump_suit),
            1 <= i <= plays@.len(),
            winner_index < i,
            suit_of(plays@[winner_index as int].0@) is Some,
            winning_rank == rank_value(rank_of(plays@[winner_index as int].0@).unwrap()),
            winning_is_trump == is_trump(suit_of(plays@[winner_index as int].0@).unwrap(), trump),
            winning_follows_lead == (suit_of(plays@[winner_index as int].0@).unwrap() == lead),
            winning_is_trump || winning_follows_lead,
            forall|j: int|
                0 <= j < i && suit_of(#[trigger] plays@[j].0@) is Some ==> trick_strength(
                    plays@[j].0@,
                    lead,
                    trump,
                ) <= trick_strength(plays@[winner_index as int].0@, lead, trump),
            forall|j: int|
                0 <= j < winner_index && suit_of(#[trigger] plays@[j].0@) is Some
                    ==> trick_strength(plays@[j].0@, lead, trump) < trick_strength(
                    plays@[winner_index as int].0@,
                    lead,
                    trump,
                ),
        decreases plays@.len() - i,
    {
        let card = plays[i].0.as_str();
        proof {
            assert(ascii_prefix(plays@[i as int].0@, 2));
        }
        let suit = match get_card_suit(card) {
            Some(s) => s,
            None => {
                i = i + 1;
                continue;
            },
        };
        let rank = card.substring_char(0, 1);
        proof {
            assert(card@.subrange(0, 1) == rank_of(card@).unwrap());
        }
        let card_rank = get_card_rank_value(rank);
        let is_trump_card = is_trump_suit(suit, trump_suit);
        let follows_lead = str_eq(suit, lead_suit);

        let should_win = if is_trump_card && !winning_is_trump {
            true
        } else if !is_trump_card && winning_is_trump {
            false
        } else if is_trump_card && winning_is_trump {
            card_rank > winning_rank
        } else if follows_lead && winning_follows_lead {
            card_rank > winning_rank
        } else if follows_lead && !winning_follows_lead {
            true
        } else {
            false
        };

        let ghost old_w = winner_index as int;
        proof {
            assert(card@ == plays@[i as int].0@);
            assert(suit@ == suit_of(plays@[i as int].0@).unwrap());

            let sw = trick_strength(plays@[old_w].0@, lead, trump);
            let si = trick_strength(plays@[i as int].0@, lead, trump);
            assert(should_win ==> si > sw);
            assert(!should_win ==> si <= sw);
        }
        if should_win {
            winner_index = i;
            winning_rank = card_rank;
            winning_is_trump = is_trump_card;
            winning_follows_lead = follows_lead;
        }
        i = i + 1;
    }
    proof {
        assert(is_trick_winner(plays@, trump, winner_index as int));
        lemma_trick_winner_unique(
            plays@,
            trump,
            winner_index as int,
            trick_winner_index(plays@, trump),
        );
    }
    Ok(plays[winner_index].1)
}

/// The winner of a trick holds a trump whenever any play is a trump, and
/// otherwise holds a card of the lead suit at least as high as every other
/// card of the lead suit; the lead card is a contender, so the winner is never
/// a card of a third suit.
pub proof fn lemma_trick_winner_card(plays: Seq<(String, PlayerId)>, trump: Option<Seq<char>>, w: int)
    requires
        is_trick_winner(plays, trump, w),
    ensures
        ({
            let lead = suit_of(plays[0].0@).unwrap();
            let win_suit = suit_of(plays[w].0@).unwrap();
            &&& is_trump(win_suit, trump) || win_suit == lead
            &&& (exists|j: int|
                0 <= j < plays.len() && suit_of(#[trigger] plays[j].0@) is Some && is_trump(
                    suit_of(plays[j].0@).unwrap(),
                    trump,
                )) ==> is_trump(win_suit, trump)
            &&& forall|j: int|
                0 <= j < plays.len() && suit_of(#[trigger] plays[j].0@) == Some(lead) && !is_trump(
                    win_suit,
                    trump,
                ) ==> rank_value(rank_of(plays[j].0@).unwrap()) <= rank_value(
                    rank_of(plays[w].0@).unwrap(),
                )
        }),
{
    let lead = suit_of(plays[0].0@).unwrap();
    assert(suit_of(plays[0].0@) is Some);
    assert(trick_strength(plays[0].0@, lead, trump) <= trick_strength(plays[w].0@, lead, trump));
}

/// Some play of the trick is a trump.
pub open spec fn trump_played(plays: Seq<(String, PlayerId)>, trump: Option<Seq<char>>) -> bool {
    exists|j: int|
        0 <= j < plays.len() && suit_of(#[trigger] plays[j].0@) is Some && is_trump(
            suit_of(plays[j].0@).unwrap(),
            trump,
        )
}

/// Play `j` contends for the trick: its card has a suit, and that suit is
/// the trump when a trump was played, the lead suit otherwise.
pub open spec fn contends(plays: Seq<(String, PlayerId)>, trump: Option<Seq<char>>, j: int) -> bool {
    &&& suit_of(plays[j].0@) is Some
    &&& if trump_played(plays, trump) {
        is_trump(suit_of(plays[j].0@).unwrap(), trump)
    } else {
        suit_of(plays[j].0@) == suit_of(plays[0].0@)
    }
}

/// The rank value of the card of play `j`.
pub open spec fn play_rank(plays: Seq<(String, PlayerId)>, j: int) -> int {
    rank_value(rank_of(plays[j].0@).unwrap())
}

/// The rule of the trick: when a trump was played, the winner is the first
/// trump of the highest rank; otherwise it is the first card of the lead suit
/// of the highest rank. Cards without a suit take no part.
pub proof fn lemma_trick_winner_rule(plays: Seq<(String, PlayerId)>, trump: Option<Seq<char>>, w: int)
    requires
        is_trick_winner(plays, trump, w),
    ensures
        contends(plays, trump, w),
        forall|j: int|
            0 <= j < plays.len() && contends(plays, trump, j) ==> #[trigger] play_rank(plays, j)
                <= play_rank(plays, w),
        forall|j: int|
            0 <= j < w && contends(plays, trump, j) ==> #[trigger] play_rank(plays, j) < play_rank(
                plays,
                w,
            ),
{
    let lead = suit_of(plays[0].0@).unwrap();
    assert forall|j: int| 0 <= j < plays.len() implies 0 <= #[trigger] play_rank(plays, j) <= 14 by {
    }
    if trump_played(plays, trump) {
        let t = choose|j: int|
            0 <= j < plays.len() && suit_of(#[trigger] plays[j].0@) is Some && is_trump(
                suit_of(plays[j].0@).unwrap(),
                trump,
            );
        assert(0 <= play_rank(plays, t));
        assert(trick_strength(plays[t].0@, lead, trump) <= trick_strength(plays[w].0@, lead, trump));
        assert(0 <= play_rank(plays, w) <= 14);
    } else {
        assert(suit_of(plays[0].0@) is Some);
        assert(0 <= play_rank(plays, 0));
        assert(trick_strength(plays[0].0@, lead, trump) <= trick_strength(plays[w].0@, lead, trump));
        assert(0 <= play_rank(plays, w) <= 14);
        assert(!is_trump(suit_of(plays[w].0@).unwrap(), trump));
    }
    assert forall|j: int|
        0 <= j < plays.len() && contends(plays, trump, j) implies #[trigger] play_rank(plays, j)
            <= play_rank(plays, w) by {
        assert(suit_of(plays[j].0@) is Some);
        assert(0 <= play_rank(plays, j) <= 14);
        assert(trick_strength(plays[j].0@, lead, trump) <= trick_strength(plays[w].0@, lead, trump));
    }
    assert forall|j: int|
        0 <= j < w && contends(plays, trump, j) implies #[trigger] play_rank(plays, j) < play_rank(
            plays,
            w,
        ) by {
        assert(suit_of(plays[j].0@) is Some);
        assert(0 <= play_rank(plays, j) <= 14);
        assert(trick_strength(plays[j].0@, lead, trump) < trick_strength(plays[w].0@, lead, trump));
    }
}

/// Whether some card of the hand is of the given suit.
pub open spec fn hand_has_suit(hand: Seq<String>, suit: Seq<char>) -> bool {
    exists|i: int| 0 <= i < hand.len() && suit_of(#[trigger] hand[i]@) == Some(suit)
}

/// Check if a player can follow suit: some card in the hand is of the lead suit.
pub fn can_follow_suit(player_hand: &[String], lead_suit: &str) -> (can: bool)
    requires
        hand_well_formed(player_hand@),
    ensures
        can == hand_has_suit(player_hand@, lead_suit@),
{
    let mut i: usize = 0;
    while i < player_hand.len()
        invariant
            hand_well_formed(player_hand@),
            i <= player_hand@.len(),
            forall|j: int| 0 <= j < i ==> suit_of(#[trigger] player_hand@[j]@) != Some(lead_suit@),
        decreases player_hand@.len() - i,
    {
        let card = player_hand[i].as_str();
        proof {
            assert(ascii_prefix(player_hand@[i as int]@, 2));
        }
        match get_card_suit(card) {
            Some(s) => {
                if str_eq(s, lead_suit) {
                    return true;
                }
            },
            None => {},
        }
        i = i + 1;
    }
    false
}

/// The next player's turn (0-3) with wraparound.
pub fn get_next_trick_turn(current_turn: i32) -> (next: i32)
    requires
        current_turn < i32::MAX,
    ensures
        next == rem_toward_zero(current_turn + 1, 4),
{
    (current_turn + 1) % 4
}

/// Check if a trick is complete: every player has played.
pub fn is_trick_complete(play_count: usize, player_count: usize) -> (complete: bool)
    ensures
        complete == (play_count >= player_count),
{
    play_count >= player_count
}

/// The lead suit of a trick: the suit of the first card played.
pub fn get_lead_suit_from_trick(plays: &[(String, PlayerId)]) -> (lead: Option<String>)
    requires
        plays@.len() > 0 ==> ascii_prefix(plays@[0].0@, 2),
    ensures
        plays@.len() == 0 ==> lead is None,
        plays@.len() > 0 ==> (lead matches Some(s) ==> suit_of(plays@[0].0@) == Some(s@)),
        plays@.len() > 0 ==> (lead is None <==> suit_of(plays@[0].0@) is None),
{
    if plays.len() == 0 {
        return None;
    }
    match get_card_suit(plays[0].0.as_str()) {
        Some(s) => Some(String::from_str(s)),
        None => None,
    }
}

/// Whether a card may be played: a card of the lead suit always may, any
/// other card only when the hand holds no card of the lead suit; a card
/// string with no suit may not.
pub open spec fn follows_suit_rule(card: Seq<char>, lead_suit: Seq<char>, hand: Seq<String>) -> bool {
    match suit_of(card) {
        Some(s) => s == lead_suit || !hand_has_suit(hand, lead_suit),
        None => false,
    }
}

/// Validate that a card play follows the follow-suit rule.
pub fn validate_follow_suit_rule(card: &str, lead_suit: &str, player_hand: &[String]) -> (valid: bool)
    requires
        ascii_prefix(card@, 2),
        hand_well_formed(player_hand@),
    ensures
        valid == follows_suit_rule(card@, lead_suit@, player_hand@),
{
    let card_suit = match get_card_suit(card) {
        Some(s) => s,
        None => return false,
    };
    if str_eq(card_suit, lead_suit) {
        return true;
    }
    !can_follow_suit(player_hand, lead_suit)
}

/// The cards played so far in a trick, in play order, with their players.
pub struct TrickState {
    pub plays: Vec<(String, PlayerId)>,
}

/// The card that a valid play removes from the player's hand.
pub struct ApplyPlayOutcome {
    pub card_to_remove: String,
}

/// Why a play was rejected.
#[derive(Debug, PartialEq, Eq, Structural)]
pub enum ApplyPlayError {
    InvalidCardFormat,
    CardNotInHand,
    FollowSuitViolation,
}

/// Whether some card of the hand is exactly the given card.
pub open spec fn hand_contains(hand: Seq<String>, card: Seq<char>) -> bool {
    exists|i: int| 0 <= i < hand.len() && #[trigger] hand[i]@ == card
}

/// Whether the hand holds the card.
pub fn hand_contains_card(player_hand: &[String], card: &str) -> (found: bool)
    ensures
        found == hand_contains(player_hand@, card@),
{
    let mut i: usize = 0;
    while i < player_hand.len()
        invariant
            i <= player_hand@.len(),
            forall|j: int| 0 <= j < i ==> #[trigger] player_hand@[j]@ != card@,
        decreases player_hand@.len() - i,
    {
        if str_eq(player_hand[i].as_str(), card) {
            return true;
        }
        i = i + 1;
    }
    false
}

/// An ASCII first character is encoded in one byte, so a string whose first
/// two characters (where present) are ASCII has at least two bytes exactly
/// when it has at least two characters.
pub proof fn lemma_ascii_prefix_byte_len(s: Seq<char>)
    requires
        ascii_prefix(s, 2),
    ensures
        encode_utf8(s).len() >= 2 <==> s.len() >= 2,
{
    if s.len() >= 1 {
        assert(is_ascii_char(s[0]));
        assert(encode_scalar(s[0] as u32).len() == 1);
        let rest = s.drop_first();
        if rest.len() >= 1 {
            assert(encode_utf8(rest) == encode_scalar(rest[0] as u32) + encode_utf8(rest.drop_first()));
            assert(encode_scalar(rest[0] as u32).len() >= 1);
        } else {
            assert(encode_utf8(rest).len() == 0);
        }
    }
}

/// The outcome of applying a play to a trick: a card string shorter than two
/// bytes (in UTF-8) is malformed; a card not in the hand cannot be played; after the
/// first play, a card off the lead suit is refused while the hand holds the
/// lead suit; otherwise the card leaves the hand.
pub open spec fn apply_play_outcome(
    card: &str,
    plays: Seq<(String, PlayerId)>,
    hand: Seq<String>,
) -> Result<Seq<char>, ApplyPlayError> {
    if card.len() < 2 {
        Err(ApplyPlayError::InvalidCardFormat)
    } else if !hand_contains(hand, card@) {
        Err(ApplyPlayError::CardNotInHand)
    } else if plays.len() > 0 && suit_of(card@).unwrap() != suit_of(plays[0].0@).unwrap()
        && hand_has_suit(hand, suit_of(plays[0].0@).unwrap()) {
        Err(ApplyPlayError::FollowSuitViolation)
    } else {
        Ok(card@)
    }
}

/// Apply a single play to the current trick state (validation only): checks
/// the card format, that the card is in the hand, and the follow-suit rule,
/// and returns the card to remove from the hand.
pub fn apply_play_logic(
    card: &str,
    current_trick: &TrickState,
    player_hand: &[String],
) -> (outcome: Result<ApplyPlayOutcome, ApplyPlayError>)
    requires
        current_trick.plays@.len() > 0 ==> suit_of(current_trick.plays@[0].0@) is Some
            && ascii_prefix(current_trick.plays@[0].0@, 2),
        current_trick.plays@.len() > 0 && card.len() >= 2 && hand_contains(
            player_hand@,
            card@,
        ) ==> ascii_prefix(card@, 2),
        current_trick.plays@.len() > 0 && card.len() >= 2 && hand_contains(
            player_hand@,
            card@,
        ) && suit_of(card@) != suit_of(current_trick.plays@[0].0@) ==> hand_well_formed(
            player_hand@,
        ),
    ensures
        match apply_play_outcome(card, current_trick.plays@, player_hand@) {
            Ok(c) => outcome matches Ok(o) && o.card_to_remove@ == c,
            Err(e) => outcome matches Err(f) && f == e,
        },
{
    if card.len() < 2 {
        return Err(ApplyPlayError::InvalidCardFormat);
    }
    if !hand_contains_card(player_hand, card) {
        return Err(ApplyPlayError::CardNotInHand);
    }
    if current_trick.plays.len() > 0 {
        let lead_suit = match get_lead_suit_from_trick(current_trick.plays.as_slice()) {
            Some(s) => s,
            None => {
                return Err(ApplyPlayError::InvalidCardFormat);
            },
        };
        proof {
            lemma_ascii_prefix_byte_len(card@);
        }
        let card_suit = card.substring_char(1, 2);
        if !str_eq(card_suit, lead_suit.as_str()) && can_follow_suit(
            player_hand,
            lead_suit.as_str(),
        ) {
            return Err(ApplyPlayError::FollowSuitViolation);
        }
    }
    Ok(ApplyPlayOutcome { card_to_remove: String::from_str(card) })
}

/// What happens after a card is played: whether the trick is complete, who
/// won it, who leads next, whether the round is over, and the next turn.
pub struct TrickAdvancement {
    /// Whether the trick is complete (all players have played).
    pub trick_complete: bool,
    /// The winner of the trick (if complete): the player id stored with the
    /// winning play.
    pub winner_user_id: Option<PlayerId>,
    /// The next player to lead (if the trick is complete and the round goes on).
    pub next_leader_user_id: Option<PlayerId>,
    /// Whether the round is complete and should advance to scoring.
    pub round_complete: bool,
    /// The next turn index; -1 when the caller must map the trick winner to
    /// a turn.
    pub next_turn: i32,
}

/// Determine trick advancement after a card play: an incomplete trick passes
/// the turn on; a complete trick is won, and either ends the round (the last
/// trick: turn back to 0) or is led next by its winner (turn -1, for the
/// caller to map).
pub fn advance_trick_logic(
    trick_plays: &[(String, PlayerId)],
    player_count: usize,
    current_turn: i32,
    trick_number: i32,
    cards_per_player: i32,
    trump_suit: &Option<String>,
) -> (adv: TrickAdvancement)
    requires
        trick_plays@.len() >= player_count ==> plays_well_formed(trick_plays@),
        trick_plays@.len() < player_count ==> current_turn < i32::MAX,
    ensures
        adv.trick_complete == (trick_plays@.len() >= player_count),
        !adv.trick_complete ==> {
            &&& adv.winner_user_id is None
            &&& adv.next_leader_user_id is None
            &&& !adv.round_complete
            &&& adv.next_turn == rem_toward_zero(current_turn + 1, 4)
        },
        adv.trick_complete ==> {
            &&& adv.winner_user_id == trick_winner_of(trick_plays@, trump_view(*trump_suit))
            &&& adv.round_complete == (trick_number == cards_per_player)
            &&& adv.round_complete ==> adv.next_leader_user_id is None && adv.next_turn == 0
            &&& !adv.round_complete ==> adv.next_leader_user_id == adv.winner_user_id
                && adv.next_turn == -1
        },
{
    let trick_complete = is_trick_complete(trick_plays.len(), player_count);
    if trick_complete {
        let winner_user_id = match determine_trick_winner(trick_plays, trump_suit) {
            Ok(w) => Some(w),
            Err(_) => None,
        };
        let round_complete = trick_number == cards_per_player;
        if round_complete {
            TrickAdvancement {
                trick_complete: true,
                winner_user_id,
                next_leader_user_id: None,
                round_complete: true,
                next_turn: 0,
            }
        } else {
            TrickAdvancement {
                trick_complete: true,
                winner_user_id,
                next_leader_user_id: winner_user_id,
                round_complete: false,
                next_turn: -1,
            }
        }
    } else {
        let next_turn = get_next_trick_turn(current_turn);
        TrickAdvancement {
            trick_complete: false,
            winner_user_id: None,
            next_leader_user_id: None,
            round_complete: false,
            next_turn,
        }
    }
}

} // verus!
