//! Cards as numbers: a card is `suit * 13 + rank`, below `DECK_SIZE`.
use vstd::prelude::*;

verus! {

pub type Card = u8;

pub type Suit = u8;

pub const DECK_SIZE: u8 = 52;

pub const RANK_COUNT: u8 = 13;

pub const SUIT_COUNT: u8 = 4;

/// The rank of the eights, which are wild.
pub const WILD_RANK: u8 = 7;

pub open spec fn suit_of(card: Card) -> Suit {
    (card / RANK_COUNT) as Suit
}

pub open spec fn rank_of(card: Card) -> u8 {
    (card % RANK_COUNT) as u8
}

pub open spec fn is_wild_spec(card: Card) -> bool {
    rank_of(card) == WILD_RANK
}

pub fn get_suit(card: Card) -> (r: Suit)
    ensures
        r == suit_of(card),
{
    card / RANK_COUNT
}

pub fn get_rank(card: Card) -> (r: u8)
    ensures
        r == rank_of(card),
{
    card % RANK_COUNT
}

/// An eight may be played on anything.
pub fn is_wild(card: Card) -> (r: bool)
    ensures
        r == is_wild_spec(card),
{
    get_rank(card) == WILD_RANK
}

/// The card `n` places after `card` in deck order, wrapping round.
pub fn nth_next_card(card: Card, n: u8) -> (r: Card)
    ensures
        r == (card as int + n as int) % (DECK_SIZE as int),
        r < DECK_SIZE,
{
    ((card as u16 + n as u16) % (DECK_SIZE as u16)) as u8
}

/// How many cards of `hand` have suit `suit`.
pub open spec fn suit_count(hand: Seq<Card>, suit: Suit) -> nat
    decreases hand.len(),
{
    if hand.len() == 0 {
        0
    } else {
        suit_count(hand.drop_last(), suit) + if suit_of(hand.last()) == suit { 1nat } else { 0nat }
    }
}

proof fn lemma_suit_count_bound(hand: Seq<Card>, suit: Suit)
    ensures
        suit_count(hand, suit) <= hand.len(),
    decreases hand.len(),
{
    if hand.len() > 0 {
        lemma_suit_count_bound(hand.drop_last(), suit);
    }
}

/// The suit that most cards of a non-empty hand have; of several such, the
/// one that comes first.
pub open spec fn is_most_common_suit(hand: Seq<Card>, suit: Suit) -> bool {
    &&& suit < SUIT_COUNT
    &&& forall|s: Suit| s < SUIT_COUNT ==> suit_count(hand, s) <= suit_count(hand, suit)
    &&& forall|s: Suit| s < suit ==> suit_count(hand, s) < suit_count(hand, suit)
}

fn count_suit(hand: &Vec<Card>, suit: Suit) -> (r: usize)
    ensures
        r == suit_count(hand@, suit),
{
    let mut count: usize = 0;
    let mut i: usize = 0;
    while i < hand.len()
        invariant
            i <= hand.len(),
            count == suit_count(hand@.subrange(0, i as int), suit),
        decreases hand.len() - i,
    {
        proof {
            let next = hand@.subrange(0, i as int + 1);
            assert(next.drop_last() =~= hand@.subrange(0, i as int));
            lemma_suit_count_bound(hand@.subrange(0, i as int), suit);
        }
        if get_suit(hand[i]) == suit {
            count = count + 1;
        }
        i = i + 1;
    }
    assert(hand@.subrange(0, hand.len() as int) =~= hand@);
    count
}

/// The suit of which `hand` holds the most cards, ties going to the first
/// suit; `None` for an empty hand.
pub fn most_common_suit(hand: &Vec<Card>) -> (r: Option<Suit>)
    ensures
        hand@.len() == 0 <==> r is None,
        r matches Some(s) ==> is_most_common_suit(hand@, s),
{
    if hand.len() == 0 {
        return None;
    }
    let mut best: Suit = 0;
    let mut best_count: usize = count_suit(hand, 0);
    let mut suit: Suit = 1;
    while suit < SUIT_COUNT
        invariant
            1 <= suit <= SUIT_COUNT,
            best < suit,
            best_count == suit_count(hand@, best),
            forall|s: Suit| s < suit ==> suit_count(hand@, s) <= suit_count(hand@, best),
            forall|s: Suit| s < best ==> suit_count(hand@, s) < suit_count(hand@, best),
        decreases SUIT_COUNT - suit,
    {
        let count = count_suit(hand, suit);
        if count > best_count {
            best = suit;
            best_count = count;
        }
        suit = suit + 1;
    }
    Some(best)
}

} // verus!
