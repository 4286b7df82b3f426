//! The turn engine: the table, whose turn it is, and the per-frame update.
use vstd::prelude::*;
use vstd::multiset::Multiset;
use rand::rngs::StdRng;
use crate::anim::{Action, CardAnimation, PlayerID, PositionedCard, approach};
use crate::cards::{Card, DECK_SIZE, Suit, SUIT_COUNT, get_suit, is_wild, is_wild_spec, suit_of};
use crate::cards::{is_most_common_suit, most_common_suit};
use crate::choice::{Choice, Chosen, choose_can_play_graph, choose_play_again, choose_suit, choose_suit_spec};
use crate::dialogs::{do_bool_choice, do_can_play_graph_choice, do_suit_choice, do_unit_choice};
use crate::graph::{change_views, committed};
use crate::render::{Draw, Framebuffer, Text};
use crate::graph::CanPlayGraph;
use crate::rng::{derive_seed, pick_index, rng_from_seed, shuffle_cards};
use crate::input::{
    BUTTON_A, BUTTON_B, BUTTON_DOWN, BUTTON_LEFT, BUTTON_RIGHT, BUTTON_SELECT, BUTTON_START, BUTTON_UP, Button, Input, SFX,
    Speaker,
};
use crate::ui::UIContext;

verus! {

pub const SCREEN_WIDTH: u8 = 128;

pub const SCREEN_HEIGHT: u8 = 128;

pub const SPRITE_SIZE: u8 = 8;

pub const FONT_SIZE: u8 = 8;

pub const CARD_WIDTH: u8 = 20;

pub const CARD_HEIGHT: u8 = 30;

pub const DECK_X: u8 = 40;

pub const DECK_Y: u8 = 49;

pub const DISCARD_X: u8 = 68;

pub const DISCARD_Y: u8 = 49;

/// How many simulated players sit at the table; the human player's index.
pub const CPU_COUNT: u8 = 3;

/// How many cards each player is dealt.
pub const HAND_SIZE: u8 = 8;

/// How a hand is laid out: left to right between `min` and `max` at height
/// `y`, or top to bottom between `min` and `max` at `x`.
#[derive(Clone, Copy, Debug, PartialEq, Eq, Structural)]
pub enum Spread {
    LTR { min: u8, max: u8, y: u8 },
    TTB { min: u8, max: u8, x: u8 },
}

impl Spread {
    /// The span is wide enough for one card.
    pub open spec fn wf(self) -> bool {
        match self {
            Spread::LTR { min, max, .. } => min + CARD_WIDTH <= max,
            Spread::TTB { min, max, .. } => min + CARD_HEIGHT <= max,
        }
    }
}

pub struct Hand {
    pub cards: Vec<Card>,
    pub spread: Spread,
}

impl Hand {
    pub fn new(spread: Spread) -> (r: Hand)
        ensures
            r.cards@ == Seq::<Card>::empty(),
            r.spread == spread,
    {
        Hand { cards: Vec::new(), spread }
    }

    pub fn len(&self) -> (r: usize)
        ensures
            r == self.cards@.len(),
    {
        self.cards.len()
    }
}

#[derive(Clone, Copy, Debug, PartialEq, Eq, Structural)]
pub enum LogHeading {
    Up,
    Down,
}

/// An entry of the event log.
#[derive(Clone, Copy, Debug, PartialEq, Eq, Structural)]
pub enum Event {
    Played { player: PlayerID, card: Card },
    Drew(PlayerID),
    DeclaredSuit { player: PlayerID, suit: Suit },
}

pub open spec fn cards_valid(cards: Seq<Card>) -> bool {
    forall|i: int| 0 <= i < cards.len() ==> #[trigger] cards[i] < DECK_SIZE
}

pub open spec fn animation_wf(a: CardAnimation) -> bool {
    &&& a.card.card < DECK_SIZE
    &&& match a.completion_action {
        Action::MoveToDiscard => true,
        Action::SelectWild(p) => p <= CPU_COUNT && is_wild_spec(a.card.card),
        Action::MoveToHand(p) => p <= CPU_COUNT,
    }
}

/// The cards in flight, oldest first.
pub open spec fn anim_cards(anims: Seq<CardAnimation>) -> Seq<Card> {
    Seq::new(anims.len(), |i: int| anims[i].card.card)
}

/// Every card of the deck once.
pub open spec fn full_deck() -> Multiset<Card> {
    Seq::new(DECK_SIZE as nat, |i: int| i as Card).to_multiset()
}

pub open spec fn animations_wf(anims: Seq<CardAnimation>) -> bool {
    forall|i: int| 0 <= i < anims.len() ==> #[trigger] animation_wf(anims[i])
}

pub struct GameState {
    pub deck: Vec<Card>,
    pub discard: Vec<Card>,
    /// The simulated players' hands; player `i` holds `cpu_hands[i]`.
    pub cpu_hands: Vec<Hand>,
    /// The human player's hand; the human is player `CPU_COUNT`.
    pub hand: Hand,
    /// The card of `hand` under the cursor.
    pub hand_index: usize,
    pub current_player: PlayerID,
    /// Cards in flight, oldest first.
    pub card_animations: Vec<CardAnimation>,
    pub can_play_graph: CanPlayGraph,
    pub choice: Choice,
    pub context: UIContext,
    pub event_log: Vec<Event>,
    pub log_top_index: usize,
    pub log_height: u8,
    pub log_heading: LogHeading,
    /// The suit declared for the wild card on top of the discard pile.
    pub top_wild_declared_as: Option<Suit>,
    pub winners: Vec<PlayerID>,
    pub rng: StdRng,
}

impl GameState {
    pub open spec fn hand_of(&self, player: PlayerID) -> Seq<Card> {
        if player < self.cpu_hands@.len() {
            self.cpu_hands@[player as int].cards@
        } else {
            self.hand.cards@
        }
    }

    pub open spec fn spread_of(&self, player: PlayerID) -> Spread {
        if player < self.cpu_hands@.len() {
            self.cpu_hands@[player as int].spread
        } else {
            self.hand.spread
        }
    }

    pub open spec fn wf(&self) -> bool {
        &&& self.wf_parts()
        &&& self.total_cards() == DECK_SIZE
        &&& self.table() == full_deck()
    }

    /// The cards the players hold.
    pub open spec fn held(&self) -> Multiset<Card> {
        self.hand_of(0).to_multiset().add(self.hand_of(1).to_multiset()).add(self.hand_of(2).to_multiset()).add(
            self.hand_of(3).to_multiset(),
        )
    }

    /// Every card on the table, wherever it is: in the deck, on the discard
    /// pile, in a hand or in flight.
    pub open spec fn table(&self) -> Multiset<Card> {
        self.deck@.to_multiset().add(self.discard@.to_multiset()).add(self.held()).add(
            anim_cards(self.card_animations@).to_multiset(),
        )
    }

    /// Everything of `wf` but the count of cards, which is off by one while
    /// a card is between two places.
    pub open spec fn wf_parts(&self) -> bool {
        &&& self.can_play_graph.wf()
        &&& self.choice.wf()
        &&& self.cpu_hands@.len() == CPU_COUNT
        &&& forall|p: PlayerID| p <= CPU_COUNT ==> #[trigger] cards_valid(self.hand_of(p))
        &&& forall|p: PlayerID| p <= CPU_COUNT ==> #[trigger] self.spread_of(p).wf()
        &&& cards_valid(self.deck@)
        &&& cards_valid(self.discard@)
        &&& animations_wf(self.card_animations@)
        &&& self.current_player <= CPU_COUNT
        &&& self.top_wild_declared_as matches Some(s) ==> s < SUIT_COUNT
    }

    /// How many cards the players hold in all.
    pub open spec fn held_cards(&self) -> int {
        (self.hand_of(0).len() + self.hand_of(1).len() + self.hand_of(2).len() + self.hand_of(3).len()) as int
    }

    /// How many cards are on the table: each card is in exactly one place.
    pub open spec fn total_cards(&self) -> int {
        self.deck@.len() + self.discard@.len() + self.held_cards() + self.card_animations@.len() as int
    }

    /// `other` is `self` with the hand of `player` replaced by `cards`.
    pub open spec fn with_hand(&self, player: PlayerID, cards: Seq<Card>, other: GameState) -> bool {
        &&& other.cpu_hands@.len() == self.cpu_hands@.len()
        &&& other.hand_of(player) == cards
        &&& forall|q: PlayerID| q != player && q <= CPU_COUNT ==> #[trigger] other.hand_of(q) == self.hand_of(q)
        &&& forall|q: PlayerID| q <= CPU_COUNT ==> #[trigger] other.spread_of(q) == self.spread_of(q)
        &&& other == (GameState { cpu_hands: other.cpu_hands, hand: other.hand, ..*self })
    }

    /// The player may play `card` on the discard pile.
    pub open spec fn can_play_spec(&self, card: Card) -> bool {
        if self.discard@.len() == 0 {
            true
        } else {
            let top = self.discard@.last();
            is_wild_spec(card) || if is_wild_spec(top) {
                self.top_wild_declared_as == Some(suit_of(card))
            } else {
                self.can_play_graph@[card as int][top as int]
            }
        }
    }
}

/// `player` is a simulated player.
pub fn is_cpu_player(state: &GameState, player: PlayerID) -> (r: bool)
    ensures
        r == (player < state.cpu_hands@.len()),
{
    (player as usize) < state.cpu_hands.len()
}

pub fn get_hand(state: &GameState, player: PlayerID) -> (r: &Hand)
    ensures
        r.cards@ == state.hand_of(player),
        r.spread == state.spread_of(player),
{
    if (player as usize) < state.cpu_hands.len() {
        &state.cpu_hands[player as usize]
    } else {
        &state.hand
    }
}

/// `card` may be played now: a wild card always; on a wild card, a card of
/// the declared suit; otherwise as the playability graph says.
pub fn can_play(state: &GameState, card: &Card) -> (r: bool)
    requires
        state.wf(),
        *card < DECK_SIZE,
    ensures
        r == state.can_play_spec(*card),
{
    let card = *card;
    if state.discard.len() == 0 {
        return true;
    }
    let top = state.discard[state.discard.len() - 1];
    proof {
        assert(state.discard@[state.discard@.len() - 1] < DECK_SIZE);
    }
    is_wild(card) || if is_wild(top) {
        match state.top_wild_declared_as {
            Some(suit) => suit == get_suit(card),
            None => false,
        }
    } else {
        state.can_play_graph.is_playable_on(card, top)
    }
}

/// The indices of the cards of `player`'s hand that may be played now.
fn playable_indices(state: &GameState, player: PlayerID) -> (r: Vec<usize>)
    requires
        state.wf(),
        player <= CPU_COUNT,
    ensures
        forall|j: int| 0 <= j < r@.len() ==> #[trigger] r@[j] < state.hand_of(player).len()
            && state.can_play_spec(state.hand_of(player)[r@[j] as int]),
        (exists|i: int| 0 <= i < state.hand_of(player).len() && state.can_play_spec(
            #[trigger] state.hand_of(player)[i],
        )) ==> r@.len() > 0,
{
    let hand = get_hand(state, player);
    let mut r: Vec<usize> = Vec::new();
    let mut i: usize = 0;
    while i < hand.cards.len()
        invariant
            hand.cards@ == state.hand_of(player),
            cards_valid(hand.cards@),
            state.wf(),
            i <= hand.cards@.len(),
            forall|j: int| 0 <= j < r@.len() ==> #[trigger] r@[j] < i
                && state.can_play_spec(hand.cards@[r@[j] as int]),
            r@.len() == 0 ==> forall|k: int| 0 <= k < i ==> !state.can_play_spec(
                #[trigger] hand.cards@[k],
            ),
        decreases hand.cards@.len() - i,
    {
        assert(hand.cards@[i as int] < DECK_SIZE);
        if can_play(state, &hand.cards[i]) {
            r.push(i);
        }
        i = i + 1;
    }
    r
}

/// Picks, uniformly at random, a card that `player` may play, by its index
/// in the hand; `None` where no card of the hand may be played.
pub fn cpu_would_play(state: &mut GameState, player: PlayerID) -> (r: Option<usize>)
    requires
        old(state).wf(),
        player <= CPU_COUNT,
    ensures
        *final(state) == (GameState { rng: final(state).rng, ..*old(state) }),
        r is None <==> forall|i: int| 0 <= i < old(state).hand_of(player).len()
            ==> !old(state).can_play_spec(#[trigger] old(state).hand_of(player)[i]),
        r matches Some(i) ==> i < old(state).hand_of(player).len()
            && old(state).can_play_spec(old(state).hand_of(player)[i as int]),
{
    let playable = playable_indices(state, player);
    if playable.len() == 0 {
        None
    } else {
        let k = pick_index(&mut state.rng, playable.len());
        Some(playable[k])
    }
}

/// A permutation of valid cards holds valid cards only.
proof fn lemma_valid_of_permutation(a: Seq<Card>, b: Seq<Card>)
    requires
        cards_valid(a),
        a.to_multiset() == b.to_multiset(),
    ensures
        cards_valid(b),
{
    assert forall|i: int| 0 <= i < b.len() implies #[trigger] b[i] < DECK_SIZE by {
        vstd::seq_lib::to_multiset_contains(b, b[i]);
        vstd::seq_lib::to_multiset_contains(a, b[i]);
        assert(b.contains(b[i]));
        let j = choose|j: int| 0 <= j < a.len() && a[j] == b[i];
    }
}

proof fn lemma_valid_subrange(a: Seq<Card>, lo: int, hi: int)
    requires
        cards_valid(a),
        0 <= lo <= hi <= a.len(),
    ensures
        cards_valid(a.subrange(lo, hi)),
{
    assert forall|i: int| 0 <= i < hi - lo implies #[trigger] a.subrange(lo, hi)[i] < DECK_SIZE by {
        assert(a.subrange(lo, hi)[i] == a[lo + i]);
    }
}

/// The size of a card along the direction of `spread`.
pub open spec fn extent(spread: Spread) -> int {
    match spread {
        Spread::LTR { .. } => CARD_WIDTH as int,
        Spread::TTB { .. } => CARD_HEIGHT as int,
    }
}

/// The room that `spread` leaves for offsets, after one whole card.
pub open spec fn span(spread: Spread) -> int {
    match spread {
        Spread::LTR { min, max, .. } => max - min - CARD_WIDTH,
        Spread::TTB { min, max, .. } => max - min - CARD_HEIGHT,
    }
}

/// The distance between neighbouring cards of a hand of `len` cards: the
/// span shared out evenly, but never more than a whole card.
pub open spec fn card_offset_spec(spread: Spread, len: int) -> int {
    if len <= 1 {
        extent(spread)
    } else if span(spread) / (len - 1) < extent(spread) {
        span(spread) / (len - 1)
    } else {
        extent(spread)
    }
}

/// Where card `index` of a hand of `len` cards is drawn.
pub open spec fn card_position_spec(spread: Spread, len: int, index: int) -> (u8, u8) {
    match spread {
        Spread::LTR { min, y, .. } => ((min + card_offset_spec(spread, len) * index) as u8, y),
        Spread::TTB { min, x, .. } => (x, (min + card_offset_spec(spread, len) * index) as u8),
    }
}

pub fn get_card_offset(spread: Spread, len: usize) -> (r: u8)
    requires
        spread.wf(),
    ensures
        r == card_offset_spec(spread, len as int),
{
    let (span, extent): (u8, u8) = match spread {
        Spread::LTR { min, max, .. } => (max - min - CARD_WIDTH, CARD_WIDTH),
        Spread::TTB { min, max, .. } => (max - min - CARD_HEIGHT, CARD_HEIGHT),
    };
    if len <= 1 {
        extent
    } else {
        let shared = (span as usize) / (len - 1);
        if shared < extent as usize {
            shared as u8
        } else {
            extent
        }
    }
}

/// Where card `index` of a hand of `len` cards laid out by `spread` is drawn.
pub fn get_card_position(spread: Spread, len: usize, index: usize) -> (r: (u8, u8))
    requires
        spread.wf(),
        index < len,
    ensures
        r == card_position_spec(spread, len as int, index as int),
        0 <= card_offset_spec(spread, len as int) * index <= span(spread),
{
    let offset = get_card_offset(spread, len);
    proof {
        let o = offset as int;
        let s = span(spread);
        let l = len as int;
        let i = index as int;
        if l > 1 {
            let q = s / (l - 1);
            vstd::arithmetic::mul::lemma_mul_inequality(i, l - 1, o);
            vstd::arithmetic::mul::lemma_mul_inequality(o, q, l - 1);
            vstd::arithmetic::div_mod::lemma_fundamental_div_mod(s, l - 1);
            vstd::arithmetic::div_mod::lemma_mod_pos_bound(s, l - 1);
            vstd::arithmetic::mul::lemma_mul_is_commutative(i, o);
            vstd::arithmetic::mul::lemma_mul_is_commutative(q, l - 1);
            vstd::arithmetic::mul::lemma_mul_is_commutative(l - 1, o);
            assert(o * i <= s);
        }
        vstd::arithmetic::mul::lemma_mul_nonnegative(o, i);
    }
    let along = (offset as usize) * index;
    match spread {
        Spread::LTR { min, y, .. } => ((min as usize + along) as u8, y),
        Spread::TTB { min, x, .. } => (x, (min as usize + along) as u8),
    }
}

/// Adds `card` to the end of `player`'s hand.
fn hand_push(state: &mut GameState, player: PlayerID, card: Card)
    requires
        old(state).cpu_hands@.len() == CPU_COUNT,
        player <= CPU_COUNT,
    ensures
        old(state).with_hand(player, old(state).hand_of(player).push(card), *final(state)),
{
    if (player as usize) < state.cpu_hands.len() {
        state.cpu_hands[player as usize].cards.push(card);
    } else {
        state.hand.cards.push(card);
    }
}

/// Takes card `index` out of `player`'s hand.
fn hand_remove(state: &mut GameState, player: PlayerID, index: usize) -> (r: Card)
    requires
        old(state).cpu_hands@.len() == CPU_COUNT,
        player <= CPU_COUNT,
        index < old(state).hand_of(player).len(),
    ensures
        r == old(state).hand_of(player)[index as int],
        old(state).with_hand(player, old(state).hand_of(player).remove(index as int), *final(state)),
{
    if (player as usize) < state.cpu_hands.len() {
        state.cpu_hands[player as usize].cards.remove(index)
    } else {
        state.hand.cards.remove(index)
    }
}

/// States with the same hands agree on what `wf` says of hands.
proof fn lemma_same_hands(s: GameState, t: GameState)
    requires
        s.wf_parts(),
        t.cpu_hands == s.cpu_hands,
        t.hand == s.hand,
    ensures
        t.cpu_hands@.len() == CPU_COUNT,
        forall|p: PlayerID| p <= CPU_COUNT ==> #[trigger] cards_valid(t.hand_of(p)),
        forall|p: PlayerID| p <= CPU_COUNT ==> #[trigger] t.spread_of(p).wf(),
        forall|p: PlayerID| #[trigger] t.hand_of(p) == s.hand_of(p),
        t.held_cards() == s.held_cards(),
        t.held() == s.held(),
{
    assert forall|p: PlayerID| p <= CPU_COUNT implies #[trigger] cards_valid(t.hand_of(p)) by {
        assert(cards_valid(s.hand_of(p)));
        assert(t.hand_of(p) == s.hand_of(p));
    }
    assert forall|p: PlayerID| p <= CPU_COUNT implies #[trigger] t.spread_of(p).wf() by {
        assert(s.spread_of(p).wf());
        assert(t.spread_of(p) == s.spread_of(p));
    }
}

/// Replacing a hand keeps the state well formed when the new hand holds
/// valid cards and the count of cards on the table is kept.
proof fn lemma_with_hand_wf(s: GameState, player: PlayerID, cards: Seq<Card>, t: GameState)
    requires
        s.wf_parts(),
        player <= CPU_COUNT,
        s.with_hand(player, cards, t),
        cards_valid(cards),
    ensures
        t.held_cards() == s.held_cards() - s.hand_of(player).len() + cards.len(),
        t.held().add(s.hand_of(player).to_multiset()) == s.held().add(cards.to_multiset()),
        t.can_play_graph.wf(),
        t.choice.wf(),
        t.cpu_hands@.len() == CPU_COUNT,
        forall|p: PlayerID| p <= CPU_COUNT ==> #[trigger] cards_valid(t.hand_of(p)),
        forall|p: PlayerID| p <= CPU_COUNT ==> #[trigger] t.spread_of(p).wf(),
{
    assert forall|p: PlayerID| p <= CPU_COUNT implies #[trigger] cards_valid(t.hand_of(p)) by {
        if p != player {
            assert(cards_valid(s.hand_of(p)));
        }
    }
    assert forall|p: PlayerID| p <= CPU_COUNT implies #[trigger] t.spread_of(p).wf() by {
        assert(s.spread_of(p).wf());
    }
    assert(t.hand_of(0) == if player == 0 { cards } else { s.hand_of(0) });
    assert(t.hand_of(1) == if player == 1 { cards } else { s.hand_of(1) });
    assert(t.hand_of(2) == if player == 2 { cards } else { s.hand_of(2) });
    assert(t.hand_of(3) == if player == 3 { cards } else { s.hand_of(3) });
    broadcast use vstd::multiset::group_multiset_axioms;
    assert(t.held().add(s.hand_of(player).to_multiset()) =~= s.held().add(cards.to_multiset()));
}

/// Takes the last `n` cards off the deck, keeping their order.
fn deal(deck: &mut Vec<Card>, n: usize) -> (r: Vec<Card>)
    requires
        n <= old(deck)@.len(),
        cards_valid(old(deck)@),
    ensures
        r@ == old(deck)@.subrange(old(deck)@.len() - n, old(deck)@.len() as int),
        final(deck)@ == old(deck)@.subrange(0, old(deck)@.len() - n),
        cards_valid(r@),
        cards_valid(final(deck)@),
        old(deck)@.to_multiset() == final(deck)@.to_multiset().add(r@.to_multiset()),
{
    let at = deck.len() - n;
    proof {
        let d = deck@;
        assert(d =~= d.subrange(0, at as int) + d.subrange(at as int, d.len() as int));
        vstd::seq_lib::lemma_multiset_commutative(d.subrange(0, at as int), d.subrange(at as int, d.len() as int));
    }
    proof {
        lemma_valid_subrange(deck@, at as int, deck@.len() as int);
        lemma_valid_subrange(deck@, 0, at as int);
    }
    deck.split_off(at)
}

impl GameState {
    /// A fresh deal from a deck shuffled by a generator seeded with `seed`:
    /// each player holds `HAND_SIZE` cards, one card is face up on the
    /// discard pile, and the first simulated player is to play.
    pub fn new(seed: u64) -> (r: GameState)
        ensures
            r.wf(),
            forall|p: PlayerID| p <= CPU_COUNT ==> #[trigger] r.hand_of(p).len() == HAND_SIZE,
            r.discard@.len() == 1,
            r.deck@.len() == DECK_SIZE - (CPU_COUNT + 1) * HAND_SIZE - 1,
            r.card_animations@.len() == 0,
            r.choice is NoChoice,
            r.current_player == 0,
            r.hand_index == 0,
            r.winners@.len() == 0,
            r.event_log@.len() == 0,
            r.log_height == 0,
            r.log_heading == LogHeading::Up,
            r.context == (UIContext { hot: 0, active: 0, next_hot: 0 }),
            is_wild_spec(r.discard@[0]) ==> r.top_wild_declared_as == Some(suit_of(r.discard@[0])),
            !is_wild_spec(r.discard@[0]) ==> r.top_wild_declared_as is None,
    {
        let mut rng = rng_from_seed(seed);
        let mut deck: Vec<Card> = Vec::new();
        let mut c: u8 = 0;
        while c < DECK_SIZE
            invariant
                c <= DECK_SIZE,
                deck@.len() == c,
                cards_valid(deck@),
                forall|k: int| 0 <= k < c ==> #[trigger] deck@[k] == k as Card,
            decreases DECK_SIZE - c,
        {
            deck.push(c);
            c = c + 1;
        }
        let ghost ordered = deck@;
        assert(ordered =~= Seq::new(DECK_SIZE as nat, |i: int| i as Card));
        shuffle_cards(&mut rng, &mut deck);
        proof {
            lemma_valid_of_permutation(ordered, deck@);
        }
        let ghost d0 = deck@;
        let cards0 = deal(&mut deck, HAND_SIZE as usize);
        let cards1 = deal(&mut deck, HAND_SIZE as usize);
        let cards2 = deal(&mut deck, HAND_SIZE as usize);
        let cards3 = deal(&mut deck, HAND_SIZE as usize);
        let discard = deal(&mut deck, 1);
        let mut cpu_hands: Vec<Hand> = Vec::new();
        cpu_hands.push(Hand { cards: cards0, spread: Spread::TTB { min: 32, max: 94, x: 0 } });
        cpu_hands.push(Hand { cards: cards1, spread: Spread::LTR { min: 24, max: 104, y: 0 } });
        cpu_hands.push(Hand { cards: cards2, spread: Spread::TTB { min: 32, max: 94, x: 108 } });
        let hand = Hand { cards: cards3, spread: Spread::LTR { min: 8, max: 120, y: 97 } };
        let top = discard[0];
        let top_wild_declared_as = if is_wild(top) {
            Some(get_suit(top))
        } else {
            None
        };
        let r = GameState {
            deck,
            discard,
            cpu_hands,
            hand,
            hand_index: 0,
            current_player: 0,
            card_animations: Vec::new(),
            can_play_graph: CanPlayGraph::new(),
            choice: Choice::NoChoice,
            context: UIContext::new(),
            event_log: Vec::new(),
            log_top_index: 0,
            log_height: 0,
            log_heading: LogHeading::Up,
            top_wild_declared_as,
            winners: Vec::new(),
            rng,
        };
        proof {
            assert(r.hand_of(0) == r.cpu_hands@[0].cards@);
            assert(r.hand_of(1) == r.cpu_hands@[1].cards@);
            assert(r.hand_of(2) == r.cpu_hands@[2].cards@);
            assert(r.hand_of(3) == r.hand.cards@);
            assert(r.discard@[0] < DECK_SIZE);
            broadcast use vstd::multiset::group_multiset_axioms;
            assert(anim_cards(r.card_animations@) =~= Seq::<Card>::empty());
            vstd::seq_lib::to_multiset_len(anim_cards(r.card_animations@));
            vstd::multiset::lemma_multiset_empty_len(anim_cards(r.card_animations@).to_multiset());
            assert(d0.to_multiset() == full_deck());
            assert(r.table() =~= full_deck());
            assert forall|p: PlayerID| p <= CPU_COUNT implies #[trigger] r.spread_of(p).wf() by {
                if p == 0 {
                    assert(r.spread_of(0) == r.cpu_hands@[0].spread);
                } else if p == 1 {
                    assert(r.spread_of(1) == r.cpu_hands@[1].spread);
                } else if p == 2 {
                    assert(r.spread_of(2) == r.cpu_hands@[2].spread);
                }
            }
            assert forall|p: PlayerID| p <= CPU_COUNT implies #[trigger] cards_valid(r.hand_of(p)) by {
                if p == 0 {
                } else if p == 1 {
                } else if p == 2 {
                }
            }
        }
        r
    }

    /// Deals afresh, with a generator reseeded from the current one.
    pub fn reset(&mut self)
        ensures
            final(self).wf(),
            forall|p: PlayerID| p <= CPU_COUNT ==> #[trigger] final(self).hand_of(p).len() == HAND_SIZE,
            final(self).discard@.len() == 1,
            final(self).log_height == 0,
            final(self).card_animations@.len() == 0,
            final(self).choice is NoChoice,
            final(self).current_player == 0,
            final(self).winners@.len() == 0,
    {
        let seed = derive_seed(&mut self.rng);
        *self = GameState::new(seed);
    }
}

/// Puts `card` on the discard pile; a card that is not wild ends the
/// declared suit of the card under it.
pub fn move_to_discard(state: &mut GameState, card: Card)
    requires
        old(state).wf_parts(),
        card < DECK_SIZE,
    ensures
        final(state).wf_parts(),
        final(state).discard@ == old(state).discard@.push(card),
        final(state).top_wild_declared_as == if is_wild_spec(card) {
            old(state).top_wild_declared_as
        } else {
            None
        },
        *final(state) == (GameState {
            discard: final(state).discard,
            top_wild_declared_as: final(state).top_wild_declared_as,
            ..*old(state)
        }),
        final(state).total_cards() == old(state).total_cards() + 1,
        final(state).table() == old(state).table().insert(card),
{
    if !is_wild(card) {
        state.top_wild_declared_as = None;
    }
    state.discard.push(card);
    proof {
        broadcast use vstd::multiset::group_multiset_axioms;
        vstd::seq_lib::to_multiset_build(old(state).discard@, card);
        lemma_same_hands(*old(state), *state);
        assert(state.table() =~= old(state).table().insert(card));
        assert forall|i: int| 0 <= i < state.discard@.len() implies #[trigger] state.discard@[i] < DECK_SIZE by {
            if i < old(state).discard@.len() {
                assert(old(state).discard@[i] < DECK_SIZE);
            }
        }
    }
}

/// Records in the event log the suit that `player` declared, if any.
fn log_wild_selection(state: &mut GameState, player: PlayerID)
    ensures
        final(state).event_log@ == match old(state).top_wild_declared_as {
            Some(suit) => old(state).event_log@.push(Event::DeclaredSuit { player, suit }),
            None => old(state).event_log@,
        },
        *final(state) == (GameState { event_log: final(state).event_log, ..*old(state) }),
{
    if let Some(suit) = state.top_wild_declared_as {
        state.event_log.push(Event::DeclaredSuit { player, suit });
    }
}

/// The animation that takes card `card_index` of `player`'s hand to the
/// discard pile, from where the card lay; a wild card first waits for its
/// suit. The card leaves the hand now. `None` where there is no such card.
pub fn get_discard_animation(state: &mut GameState, player: PlayerID, card_index: usize) -> (r: Option<
    CardAnimation,
>)
    requires
        old(state).wf(),
        player <= CPU_COUNT,
    ensures
        final(state).wf_parts(),
        card_index >= old(state).hand_of(player).len() ==> r is None && *final(state) == *old(state),
        card_index < old(state).hand_of(player).len() ==> {
            let card = old(state).hand_of(player)[card_index as int];
            let len = old(state).hand_of(player).len() as int;
            let (x, y) = card_position_spec(old(state).spread_of(player), len, card_index as int);
            &&& r == Some(CardAnimation {
                card: PositionedCard { card, x, y },
                x: DISCARD_X,
                y: DISCARD_Y,
                completion_action: if is_wild_spec(card) {
                    Action::SelectWild(player)
                } else {
                    Action::MoveToDiscard
                },
            })
            &&& final(state).event_log@ == old(state).event_log@.push(Event::Played { player, card })
            &&& old(state).with_hand(
                player,
                old(state).hand_of(player).remove(card_index as int),
                GameState { event_log: old(state).event_log, ..*final(state) },
            )
            &&& final(state).total_cards() + 1 == old(state).total_cards()
            &&& final(state).table().insert(card) == old(state).table()
            &&& animation_wf(r.unwrap())
        },
{
    let len = get_hand(state, player).len();
    if card_index >= len {
        return None;
    }
    let spread = get_hand(state, player).spread;
    proof {
        assert(old(state).spread_of(player).wf());
        assert(cards_valid(old(state).hand_of(player)));
    }
    let (x, y) = get_card_position(spread, len, card_index);
    let card = hand_remove(state, player, card_index);
    let ghost removed = *state;
    proof {
        assert(card < DECK_SIZE);
        let cards = old(state).hand_of(player).remove(card_index as int);
        assert forall|i: int| 0 <= i < cards.len() implies #[trigger] cards[i] < DECK_SIZE by {
            if i < card_index {
                assert(cards[i] == old(state).hand_of(player)[i]);
            } else {
                assert(cards[i] == old(state).hand_of(player)[i + 1]);
            }
        }
        lemma_with_hand_wf(*old(state), player, cards, removed);
        broadcast use vstd::multiset::group_multiset_axioms;
        vstd::seq_lib::to_multiset_remove(old(state).hand_of(player), card_index as int);
        assert(old(state).hand_of(player)[card_index as int] == card);
        assert(old(state).hand_of(player).contains(card));
        vstd::seq_lib::to_multiset_contains(old(state).hand_of(player), card);
        assert(removed.held().insert(card) =~= old(state).held());
        assert(removed.table().insert(card) =~= old(state).table());
    }
    state.event_log.push(Event::Played { player, card });
    let completion_action = if is_wild(card) {
        Action::SelectWild(player)
    } else {
        Action::MoveToDiscard
    };
    proof {
        lemma_same_hands(removed, *state);
        assert(state.table() == removed.table());
    }
    Some(CardAnimation::new(PositionedCard { card, x, y }, DISCARD_X, DISCARD_Y, completion_action))
}

/// Takes the top card of the deck. An empty deck is first refilled from
/// the discard pile, all but its top card, and shuffled. `None` where no
/// card is left to draw.
fn draw_card(state: &mut GameState) -> (r: Option<Card>)
    requires
        old(state).wf_parts(),
    ensures
        final(state).wf_parts(),
        *final(state) == (GameState {
            deck: final(state).deck,
            discard: final(state).discard,
            rng: final(state).rng,
            ..*old(state)
        }),
        r is None <==> old(state).deck@.len() == 0 && old(state).discard@.len() <= 1,
        r is None ==> final(state).deck@ == old(state).deck@ && final(state).discard@ == old(state).discard@,
        old(state).deck@.len() > 0 ==> r == Some(old(state).deck@.last())
            && final(state).deck@ == old(state).deck@.drop_last()
            && final(state).discard@ == old(state).discard@,
        old(state).deck@.len() == 0 && old(state).discard@.len() > 1 ==> (r matches Some(card) && {
            &&& final(state).discard@ == seq![old(state).discard@.last()]
            &&& final(state).deck@.push(card).to_multiset() == old(state).discard@.drop_last().to_multiset()
        }),
        r matches Some(card) ==> card < DECK_SIZE && final(state).total_cards() + 1 == old(state).total_cards()
            && final(state).table().insert(card) == old(state).table(),
        r is None ==> final(state).table() == old(state).table(),
{
    proof {
        lemma_same_hands(*old(state), *old(state));
    }
    if state.deck.len() > 0 {
        let card = state.deck.pop();
        proof {
            assert(old(state).deck@.last() < DECK_SIZE);
            lemma_valid_subrange(old(state).deck@, 0, old(state).deck@.len() - 1);
            assert(state.deck@ =~= old(state).deck@.subrange(0, old(state).deck@.len() - 1));
            lemma_same_hands(*old(state), *state);
            broadcast use vstd::multiset::group_multiset_axioms;
            assert(state.deck@.push(old(state).deck@.last()) =~= old(state).deck@);
            vstd::seq_lib::to_multiset_build(state.deck@, old(state).deck@.last());
            assert(state.table().insert(old(state).deck@.last()) =~= old(state).table());
        }
        return card;
    }
    if state.discard.len() <= 1 {
        return None;
    }
    let top = state.discard.pop();
    let mut rest: Vec<Card> = Vec::new();
    std::mem::swap(&mut rest, &mut state.discard);
    let ghost under = rest@;
    proof {
        assert(under =~= old(state).discard@.drop_last());
        lemma_valid_subrange(old(state).discard@, 0, old(state).discard@.len() - 1);
        assert(under =~= old(state).discard@.subrange(0, old(state).discard@.len() - 1));
    }
    state.deck = rest;
    shuffle_cards(&mut state.rng, &mut state.deck);
    proof {
        lemma_valid_of_permutation(under, state.deck@);
    }
    match top {
        Some(t) => {
            state.discard.push(t);
        },
        None => {},
    }
    let ghost shuffled = state.deck@;
    let card = state.deck.pop();
    proof {
        assert(shuffled.len() > 0);
        assert(shuffled =~= state.deck@.push(shuffled.last()));
        assert(shuffled.last() < DECK_SIZE);
        lemma_valid_subrange(shuffled, 0, shuffled.len() - 1);
        assert(state.deck@ =~= shuffled.subrange(0, shuffled.len() - 1));
        assert(state.discard@ =~= seq![old(state).discard@.last()]);
        assert(old(state).discard@.last() < DECK_SIZE);
        lemma_same_hands(*old(state), *state);
        broadcast use vstd::multiset::group_multiset_axioms;
        let top = old(state).discard@.last();
        vstd::seq_lib::to_multiset_build(state.deck@, shuffled.last());
        vstd::seq_lib::to_multiset_build(under, top);
        assert(under.push(top) =~= old(state).discard@);
        vstd::seq_lib::to_multiset_build(Seq::<Card>::empty(), top);
        assert(Seq::<Card>::empty().push(top) =~= state.discard@);
        vstd::seq_lib::to_multiset_len(Seq::<Card>::empty());
        vstd::multiset::lemma_multiset_empty_len(Seq::<Card>::empty().to_multiset());
        vstd::seq_lib::to_multiset_len(old(state).deck@);
        vstd::multiset::lemma_multiset_empty_len(old(state).deck@.to_multiset());
        assert(state.table().insert(shuffled.last()) =~= old(state).table());
    }
    card
}

/// The animation that takes a drawn card from the deck to the end of
/// `player`'s hand. The card leaves the deck now. `None` where no card is
/// left to draw.
pub fn get_draw_animation(state: &mut GameState, player: PlayerID) -> (r: Option<CardAnimation>)
    requires
        old(state).wf(),
        player <= CPU_COUNT,
    ensures
        final(state).wf_parts(),
        *final(state) == (GameState {
            deck: final(state).deck,
            discard: final(state).discard,
            rng: final(state).rng,
            event_log: final(state).event_log,
            ..*old(state)
        }),
        r is None <==> old(state).deck@.len() == 0 && old(state).discard@.len() <= 1,
        r is None ==> final(state).total_cards() == old(state).total_cards(),
        r matches Some(a) ==> {
            let len = old(state).hand_of(player).len() as int;
            let (x, y) = card_position_spec(old(state).spread_of(player), len + 1, len);
            &&& a.card.x == DECK_X && a.card.y == DECK_Y
            &&& a.x == x && a.y == y
            &&& a.completion_action == Action::MoveToHand(player)
            &&& animation_wf(a)
            &&& final(state).event_log@ == old(state).event_log@.push(Event::Drew(player))
            &&& final(state).total_cards() + 1 == old(state).total_cards()
            &&& final(state).table().insert(a.card.card) == old(state).table()
            &&& old(state).deck@.len() > 0 ==> a.card.card == old(state).deck@.last()
        },
        r is None ==> final(state).table() == old(state).table() && final(state).deck@ == old(state).deck@
            && final(state).discard@ == old(state).discard@ && final(state).event_log == old(state).event_log,
        old(state).discard@.len() > 0 ==> final(state).discard@.len() > 0 && final(state).discard@.last()
            == old(state).discard@.last(),
{
    let hand = get_hand(state, player);
    let spread = hand.spread;
    let len = hand.len();
    proof {
        assert(old(state).spread_of(player).wf());
        assert(old(state).held_cards() <= DECK_SIZE);
    }
    let card = match draw_card(state) {
        Some(card) => card,
        None => return None,
    };
    let (x, y) = get_card_position(spread, len + 1, len);
    let ghost drawn = *state;
    state.event_log.push(Event::Drew(player));
    proof {
        lemma_same_hands(drawn, *state);
        assert(state.table() == drawn.table());
    }
    Some(CardAnimation::new(PositionedCard { card, x: DECK_X, y: DECK_Y }, x, y, Action::MoveToHand(player)))
}

/// Adds the animation, if any, to the cards in flight.
pub fn push_if(vec: &mut Vec<CardAnimation>, op: Option<CardAnimation>)
    ensures
        final(vec)@ == match op {
            Some(t) => old(vec)@.push(t),
            None => old(vec)@,
        },
{
    if let Some(t) = op {
        vec.push(t);
    }
}

/// The animation after one step toward its target.
pub open spec fn stepped(a: CardAnimation) -> CardAnimation {
    CardAnimation {
        card: PositionedCard { x: approach(a.card.x, a.x), y: approach(a.card.y, a.y), ..a.card },
        ..a
    }
}

/// The animation reaches its target on this step.
pub open spec fn completes(a: CardAnimation) -> bool {
    stepped(a).is_complete_spec()
}

pub open spec fn lands_in_hand(a: CardAnimation, player: PlayerID) -> bool {
    completes(a) && a.completion_action == Action::MoveToHand(player)
}

pub open spec fn lands_on_discard(a: CardAnimation) -> bool {
    completes(a) && a.completion_action == Action::MoveToDiscard
}

/// The cards that reach `player`'s hand on this step, in the order they
/// arrive: the newest animation completes first.
pub open spec fn arrivals(anims: Seq<CardAnimation>, player: PlayerID) -> Seq<Card>
    decreases anims.len(),
{
    if anims.len() == 0 {
        Seq::empty()
    } else {
        arrivals(anims.drop_first(), player) + if lands_in_hand(anims[0], player) {
            seq![anims[0].card.card]
        } else {
            Seq::empty()
        }
    }
}

/// The cards that reach the discard pile on this step without waiting for
/// a suit, in the order they arrive.
pub open spec fn discards(anims: Seq<CardAnimation>) -> Seq<Card>
    decreases anims.len(),
{
    if anims.len() == 0 {
        Seq::empty()
    } else {
        discards(anims.drop_first()) + if lands_on_discard(anims[0]) {
            seq![anims[0].card.card]
        } else {
            Seq::empty()
        }
    }
}

/// The animations still in flight after this step, oldest first.
pub open spec fn survivors(anims: Seq<CardAnimation>) -> Seq<CardAnimation>
    decreases anims.len(),
{
    if anims.len() == 0 {
        Seq::empty()
    } else {
        (if completes(anims[0]) {
            Seq::empty()
        } else {
            seq![stepped(anims[0])]
        }) + survivors(anims.drop_first())
    }
}

/// `b` starts with `a`.
pub open spec fn begins_with(a: Seq<Card>, b: Seq<Card>) -> bool {
    &&& a.len() <= b.len()
    &&& forall|i: int| 0 <= i < a.len() ==> #[trigger] b[i] == a[i]
}

/// `b` is an animation of `anims` that reached its target on this step and
/// still waits for the human player to choose a suit, unchanged.
pub open spec fn requeued_from(anims: Seq<CardAnimation>, b: CardAnimation) -> bool {
    exists|j: int|
        0 <= j < anims.len() && #[trigger] anims[j] == b && completes(b) && (b.completion_action matches Action::SelectWild(
            p,
        ) && p >= CPU_COUNT)
}

/// Some animation waits for a suit to be declared.
pub open spec fn has_wild(anims: Seq<CardAnimation>) -> bool {
    exists|i: int| 0 <= i < anims.len() && is_select_wild(#[trigger] anims[i])
}

pub open spec fn is_select_wild(a: CardAnimation) -> bool {
    a.completion_action is SelectWild
}

/// Carries out what a completed animation of `card` does. Returns the
/// animation again, back at `last`, where it still waits for the human
/// player to choose a suit.
#[verifier::spinoff_prover]
#[verifier::rlimit(50)]
fn complete_animation(state: &mut GameState, a: CardAnimation, last: PositionedCard) -> (r: Option<CardAnimation>)
    requires
        old(state).wf_parts(),
        animation_wf(a),
    ensures
        r is None ==> final(state).table() == old(state).table().insert(a.card.card),
        r is Some ==> final(state).table() == old(state).table(),
        final(state).log_height == old(state).log_height,
        final(state).log_heading == old(state).log_heading,
        final(state).wf_parts(),
        final(state).deck == old(state).deck,
        final(state).card_animations == old(state).card_animations,
        a.completion_action is MoveToDiscard ==> {
                &&& r is None
                &&& *final(state) == (GameState {
                    discard: final(state).discard,
                    top_wild_declared_as: final(state).top_wild_declared_as,
                    ..*old(state)
                })
                &&& final(state).discard@ == old(state).discard@.push(a.card.card)
                &&& final(state).total_cards() == old(state).total_cards() + 1
        },
        a.completion_action matches Action::MoveToHand(p) ==> {
                &&& r is None
                &&& old(state).with_hand(p, old(state).hand_of(p).push(a.card.card), *final(state))
                &&& final(state).total_cards() == old(state).total_cards() + 1
        },
        a.completion_action matches Action::SelectWild(p) ==> {
                &&& *final(state) == (GameState {
                    discard: final(state).discard,
                    top_wild_declared_as: final(state).top_wild_declared_as,
                    event_log: final(state).event_log,
                    choice: final(state).choice,
                    ..*old(state)
                })
                &&& r is None ==> final(state).discard@ == old(state).discard@.push(a.card.card)
                    && final(state).total_cards() == old(state).total_cards() + 1
                    && final(state).event_log@ == match final(state).top_wild_declared_as {
                        Some(suit) => old(state).event_log@.push(Event::DeclaredSuit { player: p, suit }),
                        None => old(state).event_log@,
                    }
                &&& r matches Some(b) ==> b == (CardAnimation { card: last, ..a })
                    && final(state).discard == old(state).discard
                    && final(state).total_cards() == old(state).total_cards()
                    && final(state).top_wild_declared_as == old(state).top_wild_declared_as
                    && final(state).event_log == old(state).event_log
                &&& p < CPU_COUNT ==> {
                    &&& r is None
                    &&& final(state).choice == old(state).choice
                    &&& old(state).hand_of(p).len() == 0 ==> final(state).top_wild_declared_as is None
                    &&& old(state).hand_of(p).len() > 0 ==> (final(state).top_wild_declared_as matches Some(s)
                        && is_most_common_suit(old(state).hand_of(p), s))
                }
                &&& p >= CPU_COUNT ==> {
                    let (next, answer) = choose_suit_spec(old(state).choice);
                    &&& final(state).choice == next
                    &&& answer is None <==> r is Some
                    &&& answer is Some ==> final(state).top_wild_declared_as == answer
                }
            },
{
    let card = a.card.card;
    match a.completion_action {
        Action::MoveToDiscard => {
            move_to_discard(state, card);
            None
        },
        Action::MoveToHand(p) => {
            proof {
                assert(cards_valid(old(state).hand_of(p)));
            }
            hand_push(state, p, card);
            proof {
                let cards = old(state).hand_of(p).push(card);
                assert forall|i: int| 0 <= i < cards.len() implies #[trigger] cards[i] < DECK_SIZE by {
                    if i < old(state).hand_of(p).len() {
                        assert(cards[i] == old(state).hand_of(p)[i]);
                    }
                }
                lemma_with_hand_wf(*old(state), p, cards, *state);
                broadcast use vstd::multiset::group_multiset_axioms;
                vstd::seq_lib::to_multiset_build(old(state).hand_of(p), card);
                assert(state.held() =~= old(state).held().insert(card));
                assert(state.table() =~= old(state).table().insert(card));
            }
            None
        },
        Action::SelectWild(p) => {
            if is_cpu_player(state, p) {
                proof {
                    assert(old(state).hand_of(p) == state.cpu_hands@[p as int].cards@);
                }
                let suit = most_common_suit(&state.cpu_hands[p as usize].cards);
                state.top_wild_declared_as = suit;
                log_wild_selection(state, p);
                proof {
                    lemma_same_hands(*old(state), *state);
                }
                move_to_discard(state, card);
                None
            } else {
                let ghost before = *state;
                match choose_suit(&mut state.choice) {
                    Some(suit) => {
                        state.top_wild_declared_as = Some(suit);
                        log_wild_selection(state, p);
                        proof {
                            lemma_same_hands(*old(state), *state);
                        }
                        move_to_discard(state, card);
                        None
                    },
                    None => {
                        proof {
                            lemma_same_hands(*old(state), *state);
                        }
                        Some(CardAnimation { card: last, ..a })
                    },
                }
            }
        },
    }
}

/// Moves every card in flight one step, newest first, and carries out what
/// each animation that reaches its target does. The animations still in
/// flight keep their order; one that waits for a suit goes to the back.
pub fn advance_card_animations(state: &mut GameState)
    requires
        old(state).wf(),
    ensures
        final(state).log_height == old(state).log_height,
        final(state).log_heading == old(state).log_heading,
        final(state).wf(),
        final(state).deck == old(state).deck,
        forall|p: PlayerID| p <= CPU_COUNT ==> #[trigger] final(state).hand_of(p) == old(state).hand_of(p)
            + arrivals(old(state).card_animations@, p),
        *final(state) == (GameState {
            discard: final(state).discard,
            top_wild_declared_as: final(state).top_wild_declared_as,
            event_log: final(state).event_log,
            choice: final(state).choice,
            cpu_hands: final(state).cpu_hands,
            hand: final(state).hand,
            card_animations: final(state).card_animations,
            ..*old(state)
        }),
        begins_with(old(state).discard@, final(state).discard@),
        final(state).card_animations@.subrange(0, survivors(old(state).card_animations@).len() as int)
            == survivors(old(state).card_animations@),
        forall|k: int|
            survivors(old(state).card_animations@).len() <= k < final(state).card_animations@.len()
                ==> requeued_from(old(state).card_animations@, #[trigger] final(state).card_animations@[k]),
        final(state).choice == old(state).choice || final(state).choice is NoChoice || final(state).choice is OfSuit,
        !has_wild(old(state).card_animations@) ==> {
            &&& final(state).discard@ == old(state).discard@ + discards(old(state).card_animations@)
            &&& final(state).card_animations@ == survivors(old(state).card_animations@)
            &&& final(state).choice == old(state).choice
        },
{
    let mut pending: Vec<CardAnimation> = Vec::new();
    std::mem::swap(&mut pending, &mut state.card_animations);
    let ghost anims = pending@;
    let ghost n = anims.len() as int;
    let mut kept: Vec<CardAnimation> = Vec::new();
    let mut requeued: Vec<CardAnimation> = Vec::new();
    let mut i: usize = pending.len();
    proof {
        lemma_same_hands(*old(state), *state);
        assert forall|p: PlayerID| p <= CPU_COUNT implies #[trigger] state.hand_of(p) == old(state).hand_of(p)
            + arrivals(anims.subrange(n, n), p) by {
            assert(arrivals(anims.subrange(n, n), p) =~= Seq::<Card>::empty());
            assert(state.hand_of(p) + Seq::<Card>::empty() =~= state.hand_of(p));
        }
        assert(discards(anims.subrange(n, n)) =~= Seq::<Card>::empty());
        assert(state.discard@ + Seq::<Card>::empty() =~= state.discard@);
        assert(survivors(anims.subrange(n, n)) =~= Seq::<CardAnimation>::empty());
        broadcast use vstd::multiset::group_multiset_axioms;
        assert(anims.subrange(0, n) =~= anims);
        assert(anim_cards(state.card_animations@) =~= Seq::<Card>::empty());
        assert(anim_cards(kept@) =~= Seq::<Card>::empty());
        assert(anim_cards(requeued@) =~= Seq::<Card>::empty());
        vstd::seq_lib::to_multiset_len(Seq::<Card>::empty());
        vstd::multiset::lemma_multiset_empty_len(Seq::<Card>::empty().to_multiset());
        assert(state.table().add(anim_cards(anims.subrange(0, n)).to_multiset()).add(
            anim_cards(kept@).to_multiset(),
        ).add(anim_cards(requeued@).to_multiset()) =~= old(state).table());
    }
    while i > 0
        invariant
            pending@ == anims,
            anims == old(state).card_animations@,
            n == anims.len(),
            animations_wf(anims),
            0 <= i <= n,
            state.wf_parts(),
            state.card_animations@.len() == 0,
            state.deck == old(state).deck,
            state.log_height == old(state).log_height,
            state.log_heading == old(state).log_heading,
            state.total_cards() + i + kept@.len() + requeued@.len() == DECK_SIZE,
            state.table().add(anim_cards(anims.subrange(0, i as int)).to_multiset()).add(
                anim_cards(kept@).to_multiset(),
            ).add(anim_cards(requeued@).to_multiset()) == full_deck(),
            animations_wf(kept@),
            animations_wf(requeued@),
            forall|p: PlayerID| p <= CPU_COUNT ==> #[trigger] state.hand_of(p) == old(state).hand_of(p)
                + arrivals(anims.subrange(i as int, n), p),
            !has_wild(anims) ==> {
                &&& state.discard@ == old(state).discard@ + discards(anims.subrange(i as int, n))
                &&& requeued@.len() == 0
                &&& state.choice == old(state).choice
            },
            kept@ == survivors(anims.subrange(i as int, n)),
            forall|k: int| 0 <= k < requeued@.len() ==> requeued_from(anims, #[trigger] requeued@[k]),
            begins_with(old(state).discard@, state.discard@),
            state.choice == old(state).choice || state.choice is NoChoice || state.choice is OfSuit,
            *state == (GameState {
                discard: state.discard,
                top_wild_declared_as: state.top_wild_declared_as,
                event_log: state.event_log,
                choice: state.choice,
                cpu_hands: state.cpu_hands,
                hand: state.hand,
                card_animations: state.card_animations,
                ..*old(state)
            }),
        decreases i,
    {
        i = i - 1;
        let ghost sub = anims.subrange(i as int, n);
        let ghost rest = anims.subrange(i as int + 1, n);
        proof {
            assert(sub.drop_first() =~= rest);
            assert(sub[0] == anims[i as int]);
            assert(animation_wf(anims[i as int]));
        }
        let mut a = pending[i];
        let last = a.card;
        a.approach_target();
        assert(a == stepped(anims[i as int]));
        let ghost before = *state;
        let ghost kept_before = kept@;
        let ghost requeued_before = requeued@;
        let ghost c = anims[i as int].card.card;
        proof {
            broadcast use vstd::multiset::group_multiset_axioms;
            assert(anim_cards(anims.subrange(0, i as int + 1)) =~= anim_cards(anims.subrange(0, i as int)).push(c));
            vstd::seq_lib::to_multiset_build(anim_cards(anims.subrange(0, i as int)), c);
        }
        if a.is_complete() {
            match complete_animation(state, a, last) {
                Some(b) => {
                    requeued.push(b);
                },
                None => {},
            }
            proof {
                assert forall|p: PlayerID| p <= CPU_COUNT implies #[trigger] state.hand_of(p) == old(state).hand_of(p)
                    + arrivals(sub, p) by {
                    assert(before.hand_of(p) == old(state).hand_of(p) + arrivals(rest, p));
                    if lands_in_hand(anims[i as int], p) {
                        assert(state.hand_of(p) == before.hand_of(p).push(a.card.card));
                        assert(arrivals(sub, p) == arrivals(rest, p) + seq![a.card.card]);
                        assert(old(state).hand_of(p) + arrivals(rest, p) + seq![a.card.card]
                            =~= (old(state).hand_of(p) + arrivals(rest, p)).push(a.card.card));
                    } else {
                        assert(state.hand_of(p) == before.hand_of(p));
                        assert(arrivals(sub, p) == arrivals(rest, p) + Seq::<Card>::empty());
                        assert(arrivals(rest, p) + Seq::<Card>::empty() =~= arrivals(rest, p));
                    }
                }
                assert(survivors(sub) =~= survivors(rest));
                if requeued@.len() > requeued_before.len() {
                    assert(requeued@.last() == anims[i as int]);
                    assert(requeued_from(anims, anims[i as int]));
                    assert forall|k: int| 0 <= k < requeued@.len() implies requeued_from(anims, #[trigger] requeued@[k]) by {
                        if k < requeued_before.len() {
                            assert(requeued@[k] == requeued_before[k]);
                        }
                    }
                }
                if !has_wild(anims) {
                    assert(!is_select_wild(anims[i as int]));
                    if lands_on_discard(anims[i as int]) {
                        assert(discards(sub) == discards(rest) + seq![a.card.card]);
                        assert(old(state).discard@ + discards(rest) + seq![a.card.card]
                            =~= (old(state).discard@ + discards(rest)).push(a.card.card));
                    } else {
                        assert(discards(sub) == discards(rest) + Seq::<Card>::empty());
                        assert(discards(rest) + Seq::<Card>::empty() =~= discards(rest));
                        assert(state.discard == before.discard);
                    }
                }
                assert forall|k: int| 0 <= k < requeued@.len() implies #[trigger] animation_wf(requeued@[k]) by {
                    if k < requeued@.len() - 1 {
                    }
                }
                broadcast use vstd::multiset::group_multiset_axioms;
                if requeued@.len() > requeued_before.len() {
                    assert(anim_cards(requeued@) =~= anim_cards(requeued_before).push(c));
                    vstd::seq_lib::to_multiset_build(anim_cards(requeued_before), c);
                    assert(state.table() == before.table());
                } else {
                    assert(requeued@ == requeued_before);
                    assert(state.table() == before.table().insert(c));
                }
                assert(state.table().add(anim_cards(anims.subrange(0, i as int)).to_multiset()).add(
                    anim_cards(kept@).to_multiset(),
                ).add(anim_cards(requeued@).to_multiset()) =~= full_deck());
            }
        } else {
            kept.insert(0, a);
            proof {
                assert forall|p: PlayerID| p <= CPU_COUNT implies #[trigger] state.hand_of(p) == old(state).hand_of(p)
                    + arrivals(sub, p) by {
                    assert(arrivals(sub, p) == arrivals(rest, p) + Seq::<Card>::empty());
                    assert(arrivals(rest, p) + Seq::<Card>::empty() =~= arrivals(rest, p));
                }
                assert(discards(sub) == discards(rest) + Seq::<Card>::empty());
                assert(discards(rest) + Seq::<Card>::empty() =~= discards(rest));
                assert(survivors(sub) == seq![a] + survivors(rest));
                assert(kept@ =~= seq![a] + kept_before);
                assert forall|k: int| 0 <= k < kept@.len() implies #[trigger] animation_wf(kept@[k]) by {
                    if k > 0 {
                        assert(kept@[k] == kept_before[k - 1]);
                    }
                }
                broadcast use vstd::multiset::group_multiset_axioms;
                assert(anim_cards(kept@) =~= anim_cards(kept_before).insert(0, c));
                vstd::seq_lib::to_multiset_insert(anim_cards(kept_before), 0, c);
                assert(state.table().add(anim_cards(anims.subrange(0, i as int)).to_multiset()).add(
                    anim_cards(kept@).to_multiset(),
                ).add(anim_cards(requeued@).to_multiset()) =~= full_deck());
            }
        }
    }
    let ghost kept_final = kept@;
    let ghost requeued_final = requeued@;
    let ghost looped = *state;
    kept.append(&mut requeued);
    state.card_animations = kept;
    proof {
        assert(anims.subrange(0, n) =~= anims);
        lemma_same_hands(looped, *state);
        assert forall|k: int| 0 <= k < state.card_animations@.len() implies #[trigger] animation_wf(
            state.card_animations@[k],
        ) by {
            if k < kept_final.len() {
                assert(state.card_animations@[k] == kept_final[k]);
            }
        }
        if !has_wild(anims) {
            assert(state.card_animations@ =~= kept_final);
        }
        assert(state.card_animations@.subrange(0, kept_final.len() as int) =~= kept_final);
        assert forall|k: int| kept_final.len() <= k < state.card_animations@.len() implies requeued_from(
            anims,
            #[trigger] state.card_animations@[k],
        ) by {
            assert(state.card_animations@[k] == requeued_final[k - kept_final.len()]);
        }
        broadcast use vstd::multiset::group_multiset_axioms;
        let req = requeued_final;
        assert(state.card_animations@ =~= kept_final + requeued_final);
        assert(anim_cards(state.card_animations@) =~= anim_cards(kept_final) + anim_cards(req));
        vstd::seq_lib::lemma_multiset_commutative(anim_cards(kept_final), anim_cards(req));
        assert(anims.subrange(0, 0) =~= Seq::<CardAnimation>::empty());
        assert(anim_cards(anims.subrange(0, 0)) =~= Seq::<Card>::empty());
        vstd::seq_lib::to_multiset_len(Seq::<Card>::empty());
        vstd::multiset::lemma_multiset_empty_len(Seq::<Card>::empty().to_multiset());
        assert(anim_cards(looped.card_animations@) =~= Seq::<Card>::empty());
        assert(state.held() == looped.held());
        assert(state.table() =~= looped.table().add(anim_cards(kept_final).to_multiset()).add(
            anim_cards(req).to_multiset(),
        ));
        assert(state.table() =~= full_deck());
    }
}

pub open spec fn pressed(input: Input, bits: u8) -> bool {
    input.pressed_spec(Button(bits))
}

/// Where the hand cursor goes: right stops at the last card, left at the first.
pub open spec fn cursor_after(index: usize, len: int, input: Input) -> usize {
    if pressed(input, BUTTON_RIGHT) {
        if index < len - 1 { (index + 1) as usize } else { index }
    } else if pressed(input, BUTTON_LEFT) {
        if index > 0 { (index - 1) as usize } else { 0 }
    } else {
        index
    }
}

/// Moves the hand cursor on left or right, with a slide sound. Returns
/// whether the input was such a move.
pub fn move_cursor(state: &mut GameState, input: Input, speaker: &mut Speaker) -> (r: bool)
    ensures
        r == (pressed(input, BUTTON_RIGHT) || pressed(input, BUTTON_LEFT)),
        *final(state) == (GameState {
            hand_index: cursor_after(old(state).hand_index, old(state).hand.cards@.len() as int, input),
            ..*old(state)
        }),
        final(speaker)@ == if r { old(speaker)@.push(SFX::CardSlide) } else { old(speaker)@ },
{
    if input.pressed_this_frame(Button(BUTTON_RIGHT)) {
        if state.hand_index < state.hand.len().saturating_sub(1) {
            state.hand_index = state.hand_index + 1;
        }
        speaker.request_sfx(SFX::CardSlide);
        true
    } else if input.pressed_this_frame(Button(BUTTON_LEFT)) {
        state.hand_index = state.hand_index.saturating_sub(1);
        speaker.request_sfx(SFX::CardSlide);
        true
    } else {
        false
    }
}

/// The players below `n` whose hands are empty, in order.
pub open spec fn empty_handed(state: GameState, n: nat) -> Seq<PlayerID>
    decreases n,
{
    if n == 0 {
        Seq::empty()
    } else {
        let p = (n - 1) as PlayerID;
        empty_handed(state, (n - 1) as nat) + if state.hand_of(p).len() == 0 {
            seq![p]
        } else {
            Seq::empty()
        }
    }
}

fn find_winners(state: &GameState) -> (r: Vec<PlayerID>)
    ensures
        r@ == empty_handed(*state, CPU_COUNT as nat + 1),
{
    let mut r: Vec<PlayerID> = Vec::new();
    let mut p: u8 = 0;
    while p <= CPU_COUNT
        invariant
            p <= CPU_COUNT + 1,
            r@ == empty_handed(*state, p as nat),
        decreases CPU_COUNT + 1 - p,
    {
        if get_hand(state, p).len() == 0 {
            r.push(p);
        }
        p = p + 1;
    }
    r
}

/// Puts the animation, if any, in flight; it holds the one card that is
/// off the table.
fn push_animation(state: &mut GameState, animation: Option<CardAnimation>)
    requires
        old(state).wf_parts(),
        animation matches Some(a) ==> animation_wf(a) && old(state).total_cards() + 1 == DECK_SIZE
            && old(state).table().insert(a.card.card) == full_deck(),
        animation is None ==> old(state).total_cards() == DECK_SIZE && old(state).table() == full_deck(),
    ensures
        final(state).wf(),
        final(state).card_animations@ == match animation {
            Some(a) => old(state).card_animations@.push(a),
            None => old(state).card_animations@,
        },
        *final(state) == (GameState { card_animations: final(state).card_animations, ..*old(state) }),
{
    push_if(&mut state.card_animations, animation);
    proof {
        lemma_same_hands(*old(state), *state);
        broadcast use vstd::multiset::group_multiset_axioms;
        if let Some(a) = animation {
            assert(anim_cards(state.card_animations@) =~= anim_cards(old(state).card_animations@).push(a.card.card));
            vstd::seq_lib::to_multiset_build(anim_cards(old(state).card_animations@), a.card.card);
            assert(state.table() =~= old(state).table().insert(a.card.card));
        }
        assert forall|k: int| 0 <= k < state.card_animations@.len() implies #[trigger] animation_wf(
            state.card_animations@[k],
        ) by {
            if k < old(state).card_animations@.len() {
                assert(state.card_animations@[k] == old(state).card_animations@[k]);
            }
        }
    }
}

/// What a turn leaves alone.
pub open spec fn turn_frame(s: GameState, t: GameState) -> bool {
    &&& t.wf()
    &&& t.log_height == s.log_height
    &&& t.log_heading == s.log_heading
    &&& t.log_top_index == s.log_top_index
    &&& t.choice == s.choice
    &&& t.can_play_graph == s.can_play_graph
    &&& t.context == s.context
}

/// How a card played by `player` travels: a wild card waits for its suit.
pub open spec fn discard_action(card: Card, player: PlayerID) -> Action {
    if is_wild_spec(card) {
        Action::SelectWild(player)
    } else {
        Action::MoveToDiscard
    }
}

/// `t` has one animation more than `s`, the last.
pub open spec fn one_more_animation(s: GameState, t: GameState) -> bool {
    t.card_animations@.len() == s.card_animations@.len() + 1 && t.card_animations@.drop_last() == s.card_animations@
}

/// A draw by `player` from `s` to `t`: an animation to the player's hand
/// where a card is left to draw, nothing otherwise.
pub open spec fn draw_effect(s: GameState, t: GameState, player: PlayerID) -> bool {
    let can_draw = !(s.deck@.len() == 0 && s.discard@.len() <= 1);
    &&& t.hand_of(player) == s.hand_of(player)
    &&& can_draw ==> one_more_animation(s, t) && t.card_animations@.last().completion_action == Action::MoveToHand(
        player,
    )
    &&& !can_draw ==> t.card_animations@ == s.card_animations@ && t.deck@ == s.deck@ && t.discard@ == s.discard@
}

/// A play of card `i` of `player`'s hand from `s` to `t`: the card leaves
/// the hand for the discard pile, which it has not reached yet.
pub open spec fn play_effect(s: GameState, t: GameState, player: PlayerID, i: int) -> bool {
    let hand = s.hand_of(player);
    &&& t.hand_of(player) == hand.remove(i)
    &&& one_more_animation(s, t)
    &&& t.card_animations@.last().card.card == hand[i]
    &&& t.card_animations@.last().x == DISCARD_X
    &&& t.card_animations@.last().y == DISCARD_Y
    &&& t.card_animations@.last().completion_action == discard_action(hand[i], player)
    &&& t.deck == s.deck
    &&& t.discard == s.discard
}

/// A simulated player's turn from `s` to `t`: a random playable card is
/// played, or else a card is drawn; play passes to the next player.
pub open spec fn cpu_turn_effect(s: GameState, t: GameState, player: PlayerID) -> bool {
    let hand = s.hand_of(player);
    let playable = exists|i: int| 0 <= i < hand.len() && s.can_play_spec(#[trigger] hand[i]);
    &&& t.current_player == player + 1
    &&& playable ==> exists|i: int| 0 <= i < hand.len() && s.can_play_spec(#[trigger] hand[i]) && play_effect(s, t, player, i)
    &&& !playable ==> draw_effect(s, t, player)
}

/// The human player's turn from `s` to `t`: left and right move the
/// cursor; the primary button plays the card under it where that is
/// allowed, and does nothing otherwise; the secondary button draws. After a
/// play or a draw, play passes to the first player.
pub open spec fn human_turn_effect(s: GameState, t: GameState, input: Input) -> bool {
    let p = CPU_COUNT;
    let hand = s.hand_of(p);
    let unchanged = t.card_animations == s.card_animations && t.hand_of(p) == hand && t.deck == s.deck && t.discard
        == s.discard;
    if pressed(input, BUTTON_RIGHT) || pressed(input, BUTTON_LEFT) {
        &&& unchanged
        &&& t.current_player == p
        &&& t.hand_index == cursor_after(s.hand_index, hand.len() as int, input)
    } else if pressed(input, BUTTON_A) {
        let i = s.hand_index;
        if i < hand.len() && s.can_play_spec(hand[i as int]) {
            t.current_player == 0 && play_effect(s, t, p, i as int)
        } else {
            unchanged && t.current_player == p
        }
    } else if pressed(input, BUTTON_B) {
        t.current_player == 0 && draw_effect(s, t, p)
    } else {
        unchanged && t.current_player == p
    }
}

/// A simulated player's turn: it plays a random playable card, or else
/// draws; then play passes to the next player.
fn cpu_turn(state: &mut GameState, player: PlayerID)
    requires
        old(state).wf(),
        player == old(state).current_player,
        player < CPU_COUNT,
    ensures
        turn_frame(*old(state), *final(state)),
        final(state).winners == old(state).winners,
        cpu_turn_effect(*old(state), *final(state), player),
{
    let ghost hand = old(state).hand_of(player);
    match cpu_would_play(state, player) {
        Some(index) => {
            proof {
                lemma_same_hands(*old(state), *state);
                assert(state.wf());
            }
            let ghost picked = *state;
            let animation = get_discard_animation(state, player, index);
            let ghost removed = *state;
            push_animation(state, animation);
            proof {
                lemma_same_hands(removed, *state);
                assert(state.card_animations@.drop_last() =~= old(state).card_animations@);
                assert(play_effect(*old(state), *state, player, index as int));
            }
        },
        None => {
            proof {
                lemma_same_hands(*old(state), *state);
                assert(state.wf());
            }
            let animation = get_draw_animation(state, player);
            let ghost drawn = *state;
            push_animation(state, animation);
            proof {
                lemma_same_hands(*old(state), *state);
                lemma_same_hands(drawn, *state);
                if animation is Some {
                    assert(state.card_animations@.drop_last() =~= old(state).card_animations@);
                }
                assert(draw_effect(*old(state), *state, player));
            }
        },
    }
    let ghost played = *state;
    state.current_player = player + 1;
    proof {
        lemma_same_hands(played, *state);
        assert(state.hand_of(player) == played.hand_of(player));
    }
}

/// The human player's turn: left and right move the cursor; the primary
/// button plays the card under it where that is allowed, the secondary
/// button draws. After a play or a draw, play passes to the first player.
fn human_turn(state: &mut GameState, input: Input, speaker: &mut Speaker)
    requires
        old(state).wf(),
        old(state).current_player == CPU_COUNT,
    ensures
        crate::input::appended(old(speaker)@, final(speaker)@),
        turn_frame(*old(state), *final(state)),
        final(state).winners == old(state).winners,
        human_turn_effect(*old(state), *final(state), input),
{
    let player = CPU_COUNT;
    if move_cursor(state, input, speaker) {
        proof {
            lemma_same_hands(*old(state), *state);
        }
    } else if input.pressed_this_frame(Button(BUTTON_A)) {
        let index = state.hand_index;
        let can_play_it = if index < state.hand.len() {
            proof {
                assert(cards_valid(state.hand_of(CPU_COUNT)));
                assert(state.hand.cards@[index as int] < DECK_SIZE);
            }
            can_play(state, &state.hand.cards[index])
        } else {
            false
        };
        if can_play_it {
            let animation = get_discard_animation(state, player, index);
            let ghost removed = *state;
            push_animation(state, animation);
            let ghost played = *state;
            state.current_player = 0;
            proof {
                lemma_same_hands(removed, played);
                lemma_same_hands(played, *state);
                assert(old(state).hand_of(CPU_COUNT) == old(state).hand.cards@);
                assert(state.card_animations@.drop_last() =~= old(state).card_animations@);
                assert(play_effect(*old(state), *state, player, index as int));
            }
        } else {
            proof {
                lemma_same_hands(*old(state), *state);
            }
        }
    } else if input.pressed_this_frame(Button(BUTTON_B)) {
        let animation = get_draw_animation(state, player);
        let ghost drawn0 = *state;
        push_animation(state, animation);
        let ghost drawn = *state;
        state.current_player = 0;
        proof {
            lemma_same_hands(*old(state), drawn);
            lemma_same_hands(drawn, *state);
            lemma_same_hands(*old(state), drawn0);
            if animation is Some {
                assert(state.card_animations@.drop_last() =~= old(state).card_animations@);
            }
            assert(draw_effect(*old(state), *state, player));
        }
    } else {
        proof {
            lemma_same_hands(*old(state), *state);
        }
    }
}

/// Every player whose hand is empty is a winner.
fn record_winners(state: &mut GameState)
    requires
        old(state).wf(),
    ensures
        final(state).wf(),
        ({
            let w = empty_handed(*old(state), CPU_COUNT as nat + 1);
            final(state).winners@ == if w.len() > 0 { w } else { old(state).winners@ }
        }),
        *final(state) == (GameState { winners: final(state).winners, ..*old(state) }),
{
    let winners = find_winners(state);
    if winners.len() > 0 {
        state.winners = winners;
    }
    proof {
        lemma_same_hands(*old(state), *state);
    }
}

/// The player to move takes a turn (see `cpu_turn` and `human_turn`); then
/// every player with an empty hand is a winner.
pub fn take_turn(state: &mut GameState, input: Input, speaker: &mut Speaker)
    requires
        old(state).wf(),
    ensures
        crate::input::appended(old(speaker)@, final(speaker)@),
        turn_frame(*old(state), *final(state)),
        ({
            let t = GameState { winners: old(state).winners, ..*final(state) };
            if old(state).current_player < CPU_COUNT {
                cpu_turn_effect(*old(state), t, old(state).current_player)
            } else {
                human_turn_effect(*old(state), t, input)
            }
        }),
        ({
            let w = empty_handed(
                GameState { winners: old(state).winners, ..*final(state) },
                CPU_COUNT as nat + 1,
            );
            final(state).winners@ == if w.len() > 0 { w } else { old(state).winners@ }
        }),
{
    let player = state.current_player;
    if is_cpu_player(state, player) {
        cpu_turn(state, player);
    } else {
        human_turn(state, input, speaker);
    }
    let ghost turned = *state;
    record_winners(state);
    proof {
        assert(GameState { winners: old(state).winners, ..*state } == turned);
    }
}

/// The height of the event-log panel after one frame of sliding.
pub open spec fn slid_log_height(height: u8, heading: LogHeading) -> u8 {
    match heading {
        LogHeading::Up => if height >= SPRITE_SIZE { (height - SPRITE_SIZE) as u8 } else { 0 },
        LogHeading::Down => if height <= SCREEN_HEIGHT - SPRITE_SIZE { (height + SPRITE_SIZE) as u8 } else { height },
    }
}

/// Where the log's top line goes: up one line, or down one while the log
/// has lines below.
pub open spec fn log_scrolled(top: usize, lines: int, input: Input) -> usize {
    if pressed(input, BUTTON_UP) {
        if top > 0 { (top - 1) as usize } else { 0 }
    } else if pressed(input, BUTTON_DOWN) {
        if top < lines { (top + 1) as usize } else { top }
    } else {
        top
    }
}

/// The game logic of one frame, by priority: the event-log panel slides;
/// while it is open only its scrolling runs; else, while a dialog waits for
/// the player, nothing runs here; else cards in flight move (and the hand
/// cursor with them); else, until someone has won, a player takes a turn.
pub fn update(state: &mut GameState, input: Input, speaker: &mut Speaker)
    requires
        old(state).wf(),
    ensures
        crate::input::appended(old(speaker)@, final(speaker)@),
        final(state).wf(),
        final(state).log_height == slid_log_height(old(state).log_height, old(state).log_heading),
        final(state).log_heading == if pressed(input, BUTTON_START) {
            match old(state).log_heading {
                LogHeading::Up => LogHeading::Down,
                LogHeading::Down => LogHeading::Up,
            }
        } else {
            old(state).log_heading
        },
        final(state).log_height > 0 || !old(state).choice.is_idle_spec() ==> {
            &&& final(state).card_animations == old(state).card_animations
            &&& final(state).cpu_hands == old(state).cpu_hands
            &&& final(state).hand == old(state).hand
            &&& final(state).deck == old(state).deck
            &&& final(state).discard == old(state).discard
            &&& final(state).choice == old(state).choice
            &&& final(state).current_player == old(state).current_player
            &&& final(state).can_play_graph == old(state).can_play_graph
            &&& final(state).winners == old(state).winners
        },
        final(state).log_height == 0 && old(state).choice.is_idle_spec() && old(state).card_animations@.len() > 0
            ==> forall|p: PlayerID| p <= CPU_COUNT ==> #[trigger] final(state).hand_of(p) == old(state).hand_of(p)
            + arrivals(old(state).card_animations@, p),
        final(state).log_height == 0 && old(state).choice.is_idle_spec() && old(state).card_animations@.len() == 0
            && old(state).winners@.len() > 0 ==> {
            &&& final(state).card_animations == old(state).card_animations
            &&& final(state).cpu_hands == old(state).cpu_hands
            &&& final(state).hand == old(state).hand
            &&& final(state).current_player == old(state).current_player
        },
        final(state).log_height == 0 && old(state).choice.is_idle_spec() && old(state).card_animations@.len() == 0
            && old(state).winners@.len() == 0 ==> if old(state).current_player < CPU_COUNT {
            cpu_turn_effect(*old(state), *final(state), old(state).current_player)
        } else {
            human_turn_effect(*old(state), *final(state), input)
        },
        final(state).log_top_index == if final(state).log_height > 0 {
            log_scrolled(old(state).log_top_index, old(state).event_log@.len() as int, input)
        } else {
            old(state).log_top_index
        },
        final(state).can_play_graph == old(state).can_play_graph,
        final(state).context == old(state).context,
        final(state).choice == old(state).choice || final(state).choice is NoChoice || final(state).choice is OfSuit,
{
    match state.log_heading {
        LogHeading::Up => {
            state.log_height = state.log_height.saturating_sub(SPRITE_SIZE);
        },
        LogHeading::Down => {
            if state.log_height <= SCREEN_HEIGHT - SPRITE_SIZE {
                state.log_height = state.log_height + SPRITE_SIZE;
            }
        },
    }
    if input.pressed_this_frame(Button(BUTTON_START)) {
        state.log_heading = match state.log_heading {
            LogHeading::Up => LogHeading::Down,
            LogHeading::Down => LogHeading::Up,
        };
    }
    proof {
        lemma_same_hands(*old(state), *state);
    }
    if state.log_height > 0 {
        if input.pressed_this_frame(Button(BUTTON_UP)) {
            state.log_top_index = state.log_top_index.saturating_sub(1);
        } else if input.pressed_this_frame(Button(BUTTON_DOWN)) {
            if state.log_top_index < state.event_log.len() {
                state.log_top_index = state.log_top_index + 1;
            }
        }
        proof {
            lemma_same_hands(*old(state), *state);
        }
    } else if state.choice.is_idle() {
        if state.card_animations.len() == 0 {
            if state.winners.len() == 0 {
                take_turn(state, input, speaker);
            }
        } else {
            advance_card_animations(state);
            let ghost advanced = *state;
            move_cursor(state, input, speaker);
            proof {
                lemma_same_hands(advanced, *state);
            }
        }
    }
}

/// Draws a hand, each card where its spread puts it, face up or down.
pub fn draw_hand(framebuffer: &mut Framebuffer, hand: &Hand, face_up: bool)
    requires
        hand.spread.wf(),
    ensures
        crate::render::extends(old(framebuffer).commands@, final(framebuffer).commands@),
        final(framebuffer).commands@.len() == old(framebuffer).commands@.len() + hand.cards@.len(),
        forall|i: int| 0 <= i < hand.cards@.len() ==> {
            let (x, y) = #[trigger] card_position_spec(hand.spread, hand.cards@.len() as int, i);
            final(framebuffer).commands@[old(framebuffer).commands@.len() + i] == if face_up {
                Draw::Card { card: hand.cards@[i], x, y }
            } else {
                Draw::CardBack { x, y }
            }
        },
{
    let ghost fb0 = framebuffer.commands@;
    let len = hand.cards.len();
    let ghost start = framebuffer.commands@.len();
    let mut i: usize = 0;
    while i < len
        invariant
            crate::render::extends(fb0, framebuffer.commands@),
            i <= len,
            len == hand.cards@.len(),
            hand.spread.wf(),
            framebuffer.commands@.len() == start + i,
            forall|k: int| 0 <= k < i ==> {
                let (x, y) = #[trigger] card_position_spec(hand.spread, len as int, k);
                framebuffer.commands@[start + k] == if face_up {
                    Draw::Card { card: hand.cards@[k], x, y }
                } else {
                    Draw::CardBack { x, y }
                }
            },
        decreases len - i,
    {
        let (x, y) = get_card_position(hand.spread, len, i);
        if face_up {
            framebuffer.push(Draw::Card { card: hand.cards[i], x, y });
        } else {
            framebuffer.push(Draw::CardBack { x, y });
        }
        i = i + 1;
    }
}

/// Draws the human player's hand face up, the card under the cursor
/// highlighted and drawn last, over its neighbours.
pub fn draw_hand_with_cursor(framebuffer: &mut Framebuffer, hand: &Hand, index: usize)
    requires
        hand.spread.wf(),
    ensures
        crate::render::extends(old(framebuffer).commands@, final(framebuffer).commands@),
        final(framebuffer).commands@.len() == old(framebuffer).commands@.len() + hand.cards@.len(),
        index < hand.cards@.len() ==> {
            let (x, y) = card_position_spec(hand.spread, hand.cards@.len() as int, index as int);
            final(framebuffer).commands@.last() == Draw::HighlightedCard { card: hand.cards@[index as int], x, y }
        },
        forall|i: int| 0 <= i < hand.cards@.len() && i != index ==> {
            let (x, y) = #[trigger] card_position_spec(hand.spread, hand.cards@.len() as int, i);
            final(framebuffer).commands@[old(framebuffer).commands@.len() + if i < index { i } else { i - 1 }]
                == Draw::Card { card: hand.cards@[i], x, y }
        },
{
    let ghost fb0 = framebuffer.commands@;
    let len = hand.cards.len();
    let ghost start = framebuffer.commands@.len();
    let mut selected: Option<Draw> = None;
    let mut i: usize = 0;
    while i < len
        invariant
            crate::render::extends(fb0, framebuffer.commands@),
            i <= len,
            len == hand.cards@.len(),
            hand.spread.wf(),
            framebuffer.commands@.len() + (if selected is Some { 1int } else { 0int }) == start + i,
            selected is Some <==> index < i,
            selected matches Some(d) ==> {
                let (x, y) = card_position_spec(hand.spread, len as int, index as int);
                d == Draw::HighlightedCard { card: hand.cards@[index as int], x, y }
            },
            forall|k: int| 0 <= k < i && k != index ==> {
                let (x, y) = #[trigger] card_position_spec(hand.spread, len as int, k);
                framebuffer.commands@[start + if k < index { k } else { k - 1 }] == Draw::Card { card: hand.cards@[k], x, y }
            },
        decreases len - i,
    {
        let (x, y) = get_card_position(hand.spread, len, i);
        if i == index {
            selected = Some(Draw::HighlightedCard { card: hand.cards[i], x, y });
        } else {
            framebuffer.push(Draw::Card { card: hand.cards[i], x, y });
        }
        i = i + 1;
    }
    if let Some(d) = selected {
        framebuffer.push(d);
    }
}

/// Line `j` of the open log panel, whose first line is entry `top`.
pub open spec fn log_line(top: usize, j: int) -> Draw {
    Draw::Text { text: Text::LogLine((top + j) as usize), x: SPRITE_SIZE, y: (SPRITE_SIZE + FONT_SIZE * j) as u8 }
}

/// Draws the open event-log panel and the lines that fit in it, from the
/// scroll position on, one line per font height.
pub fn draw_event_log(framebuffer: &mut Framebuffer, state: &GameState)
    ensures
        crate::render::extends(old(framebuffer).commands@, final(framebuffer).commands@),
        final(framebuffer).commands@.len() > old(framebuffer).commands@.len(),
        final(framebuffer).commands@[old(framebuffer).commands@.len() as int] == Draw::LogPanel(state.log_height),
        ({
            let start = old(framebuffer).commands@.len() as int;
            let shown = final(framebuffer).commands@.len() - start - 1;
            &&& state.log_top_index + shown <= state.event_log@.len() || shown == 0
            &&& forall|j: int| 0 <= j < shown ==> #[trigger] final(framebuffer).commands@[start + 1 + j] == log_line(
                state.log_top_index,
                j,
            )
            &&& shown > 0 ==> SPRITE_SIZE + FONT_SIZE * (shown - 1) < state.log_height
        }),
{
    let ghost fb0 = framebuffer.commands@;
    let ghost start = framebuffer.commands@.len();
    framebuffer.push(Draw::LogPanel(state.log_height));
    let mut y: usize = SPRITE_SIZE as usize;
    let mut line = state.log_top_index;
    while line < state.event_log.len() && y < state.log_height as usize
        invariant
            crate::render::extends(fb0, framebuffer.commands@),
            framebuffer.commands@.len() > start,
            framebuffer.commands@[start as int] == Draw::LogPanel(state.log_height),
            line >= state.log_top_index,
            framebuffer.commands@.len() - start - 1 == line - state.log_top_index,
            line > state.log_top_index ==> line <= state.event_log@.len(),
            y == SPRITE_SIZE + FONT_SIZE * (line - state.log_top_index),
            forall|j: int| 0 <= j < line - state.log_top_index ==> #[trigger] framebuffer.commands@[start + 1 + j]
                == log_line(state.log_top_index, j),
            line > state.log_top_index ==> SPRITE_SIZE + FONT_SIZE * (line - state.log_top_index - 1) < state.log_height,
        decreases state.event_log@.len() - line,
    {
        framebuffer.push(Draw::Text { text: Text::LogLine(line), x: SPRITE_SIZE, y: y as u8 });
        line = line + 1;
        y = y + FONT_SIZE as usize;
    }
}

/// Commits the changes that the rule editor handed back, if any.
pub fn commit_rule_edits(state: &mut GameState)
    requires
        old(state).wf(),
    ensures
        final(state).wf(),
        old(state).choice matches Choice::Already(Chosen::CanPlayGraph(changes)) ==> {
            &&& final(state).can_play_graph@ == committed(old(state).can_play_graph@, change_views(changes@))
            &&& final(state).choice is NoChoice
        },
        !(old(state).choice matches Choice::Already(Chosen::CanPlayGraph(_))) ==> *final(state) == *old(state),
        *final(state) == (GameState {
            can_play_graph: final(state).can_play_graph,
            choice: final(state).choice,
            ..*old(state)
        }),
        final(state).cpu_hands == old(state).cpu_hands,
        final(state).hand == old(state).hand,
        final(state).card_animations == old(state).card_animations,
{
    let ready = match &state.choice {
        Choice::Already(Chosen::CanPlayGraph(_)) => true,
        _ => false,
    };
    if ready {
        let changes = choose_can_play_graph(&mut state.choice);
        state.can_play_graph.apply_changes(&changes);
        proof {
            lemma_same_hands(*old(state), *state);
        }
    }
}

/// Draws the table: the hands, the deck, the declared suit, the top of
/// the discard pile and the cards in flight, after clearing the screen.
pub fn draw_table(framebuffer: &mut Framebuffer, state: &GameState)
    requires
        state.wf(),
    ensures
        crate::render::extends(old(framebuffer).commands@, final(framebuffer).commands@),
        final(framebuffer).commands@.len() > old(framebuffer).commands@.len(),
        final(framebuffer).commands@[old(framebuffer).commands@.len() as int] == Draw::Clear,
{
    let ghost fb0 = framebuffer.commands@;
    framebuffer.push(Draw::Clear);
    let ghost start = framebuffer.commands@;
    let mut p: usize = 0;
    while p < state.cpu_hands.len()
        invariant
            crate::render::extends(fb0, framebuffer.commands@),
            state.wf(),
            crate::render::extends(start, framebuffer.commands@),
            start.len() == fb0.len() + 1,
            start[fb0.len() as int] == Draw::Clear,
        decreases state.cpu_hands@.len() - p,
    {
        proof {
            assert(state.spread_of(p as PlayerID).wf());
        }
        draw_hand(framebuffer, &state.cpu_hands[p], false);
        p = p + 1;
    }
    framebuffer.push(Draw::CardBack { x: DECK_X, y: DECK_Y });
    if let Some(suit) = state.top_wild_declared_as {
        framebuffer.push(Draw::SuitMark { suit, x: DECK_X + CARD_WIDTH + 2, y: DECK_Y + (CARD_HEIGHT - FONT_SIZE) / 2 });
    }
    if state.discard.len() > 0 {
        framebuffer.push(Draw::Card { card: state.discard[state.discard.len() - 1], x: DISCARD_X, y: DISCARD_Y });
    }
    proof {
        assert(state.spread_of(CPU_COUNT).wf());
    }
    draw_hand_with_cursor(framebuffer, &state.hand, state.hand_index);
    let mut k: usize = 0;
    while k < state.card_animations.len()
        invariant
            crate::render::extends(fb0, framebuffer.commands@),
            crate::render::extends(start, framebuffer.commands@),
            start.len() == fb0.len() + 1,
            start[fb0.len() as int] == Draw::Clear,
        decreases state.card_animations@.len() - k,
    {
        let a = state.card_animations[k];
        match a.completion_action {
            Action::MoveToHand(_) => framebuffer.push(Draw::CardBack { x: a.card.x, y: a.card.y }),
            _ => framebuffer.push(Draw::Card { card: a.card.card, x: a.card.x, y: a.card.y }),
        }
        k = k + 1;
    }
}

/// What one frame does to the game, as `update_and_render` runs it from `s`
/// to `t` on `input`.
pub open spec fn frame_effect(s: GameState, t: GameState, input: Input) -> bool {
    let asked_again = s.choice matches Choice::Already(Chosen::Unit);
    &&& t.wf()
    &&& t.log_height == slid_log_height(s.log_height, s.log_heading)
    &&& s.log_height > 0 && t.log_height > 0 ==> {
        &&& t.card_animations == s.card_animations
        &&& t.cpu_hands == s.cpu_hands
        &&& t.hand == s.hand
        &&& t.deck == s.deck
        &&& t.discard == s.discard
        &&& t.choice == s.choice
        &&& t.current_player == s.current_player
        &&& t.can_play_graph == s.can_play_graph
    }
    &&& s.log_height == 0 ==> (s.choice matches Choice::Already(Chosen::CanPlayGraph(changes)) ==> t.can_play_graph@
        == committed(s.can_play_graph@, change_views(changes@)))
    &&& !(s.log_height == 0 && (s.choice matches Choice::Already(Chosen::CanPlayGraph(_)))) && !asked_again
        ==> t.can_play_graph == s.can_play_graph
    &&& t.log_height == 0 && s.choice.is_idle_spec() && !asked_again && s.card_animations@.len() > 0 ==> forall|
        p: PlayerID,
    | p <= CPU_COUNT ==> #[trigger] t.hand_of(p) == s.hand_of(p) + arrivals(s.card_animations@, p)
    &&& t.log_height == 0 && s.choice is NoChoice && s.card_animations@.len() == 0 && s.winners@.len() == 0 ==> if s.current_player
        < CPU_COUNT {
        cpu_turn_effect(s, t, s.current_player)
    } else {
        human_turn_effect(s, t, input)
    }
}

/// One frame: the widget context starts its frame, finished rule edits are
/// committed, the game logic runs (see `update`), the player's Select opens
/// the rule editor, and the table is drawn. Once someone has won and no card
/// is in flight, the player is asked whether to play again, and accepting
/// deals afresh. Last, the open log panel is drawn, or else the dialog of
/// the choice that waits for the player runs. While the log panel is open,
/// nothing but the panel moves.
#[verifier::spinoff_prover]
#[verifier::rlimit(100)]
pub fn update_and_render(framebuffer: &mut Framebuffer, state: &mut GameState, input: Input, speaker: &mut Speaker)
    requires
        old(state).wf(),
    ensures
        crate::input::appended(old(speaker)@, final(speaker)@),
        crate::render::extends(old(framebuffer).commands@, final(framebuffer).commands@),
        frame_effect(*old(state), *final(state), input),
        final(framebuffer).commands@.len() > old(framebuffer).commands@.len(),
        final(framebuffer).commands@[old(framebuffer).commands@.len() as int] == Draw::Clear,
{
    let ghost fb0 = framebuffer.commands@;
    state.context.frame_init();
    proof {
        lemma_same_hands(*old(state), *state);
    }
    let ghost s1 = *state;
    if state.log_height == 0 {
        commit_rule_edits(state);
    }
    let ghost s2 = *state;
    update(state, input, speaker);
    let ghost s3 = *state;
    let editor_wanted = state.log_height == 0 && input.pressed_this_frame(Button(BUTTON_SELECT)) && match state.choice {
        Choice::NoChoice => true,
        _ => false,
    };
    if editor_wanted {
        let ghost before = *state;
        let _ = choose_can_play_graph(&mut state.choice);
        proof {
            lemma_same_hands(before, *state);
        }
    }
    let ghost s4 = *state;
    draw_table(framebuffer, state);
    let ghost s5 = *state;
    assert(s5 == s4);
    if state.log_height == 0 && state.winners.len() > 0 && state.card_animations.len() == 0 {
        let asks = match state.choice {
            Choice::NoChoice => true,
            Choice::OfUnit => true,
            Choice::Already(Chosen::Unit) => true,
            _ => false,
        };
        if asks {
            let ghost before = *state;
            let again = choose_play_again(&mut state.choice);
            proof {
                lemma_same_hands(before, *state);
            }
            if again.is_some() {
                state.reset();
            }
        }
    }
    let ghost s6 = *state;
    proof {
        assert(s1 == GameState { context: s1.context, ..*old(state) });
        assert(s2.choice == s1.choice || s2.choice is NoChoice);
        assert(s2.log_height == s1.log_height && s2.log_heading == s1.log_heading);
        assert(s3.log_height == slid_log_height(old(state).log_height, old(state).log_heading));
        assert(s6.log_height == s5.log_height);
        assert(s4.choice == s3.choice || s4.choice is OfCanPlayGraph);
        assert(s4 == GameState { choice: s4.choice, ..s3 });
        if !(old(state).choice matches Choice::Already(Chosen::Unit)) {
            assert(!(s5.choice matches Choice::Already(Chosen::Unit)));
            assert(s6 == GameState { choice: s6.choice, ..s5 });
        }
    }
    if state.log_height > 0 {
        draw_event_log(framebuffer, state);
    } else {
        let ghost before = *state;
        match state.choice {
            Choice::OfCanPlayGraph(_) => do_can_play_graph_choice(framebuffer, state, input, speaker),
            Choice::OfSuit => do_suit_choice(framebuffer, state, input, speaker),
            Choice::OfBool => do_bool_choice(framebuffer, state, input, speaker),
            Choice::OfUnit => do_unit_choice(framebuffer, state, input, speaker),
            _ => {},
        }
        proof {
            lemma_same_hands(before, *state);
        }
    }
    proof {
        assert(*state == GameState { choice: state.choice, context: state.context, ..s6 });
        lemma_same_hands(s6, *state);
    }
}

/// The game with what it hands to the platform each frame: the draw
/// commands, the sounds, and the buttons held.
pub struct BartogState {
    pub game_state: GameState,
    pub framebuffer: Framebuffer,
    pub input: Input,
    pub speaker: Speaker,
}

impl BartogState {
    pub fn new(seed: u64) -> (r: BartogState)
        ensures
            r.game_state.wf(),
            r.framebuffer.commands@.len() == 0,
            r.speaker@.len() == 0,
    {
        BartogState {
            game_state: GameState::new(seed),
            framebuffer: Framebuffer::new(),
            input: Input { gamepad: Button(0), previous_gamepad: Button(0) },
            speaker: Speaker::new(),
        }
    }

    /// Runs one frame (see `frame_effect`) on an emptied draw list and
    /// sound queue, which the frame only appends to, so that both hold this
    /// frame's requests alone; afterwards the buttons held now count as held
    /// the frame before.
    pub fn frame(&mut self)
        requires
            old(self).game_state.wf(),
        ensures
            final(self).game_state.wf(),
            frame_effect(old(self).game_state, final(self).game_state, old(self).input),
            final(self).framebuffer.commands@.len() > 0,
            final(self).framebuffer.commands@[0] == Draw::Clear,
            final(self).input.previous_gamepad == old(self).input.gamepad,
            final(self).input.gamepad == old(self).input.gamepad,
    {
        self.framebuffer.clear();
        self.speaker.clear();
        update_and_render(&mut self.framebuffer, &mut self.game_state, self.input, &mut self.speaker);
        self.input.previous_gamepad = self.input.gamepad;
    }

    /// The button goes down. Where it was already held (a key repeat), it
    /// counts as not held the frame before, so that it is pressed again.
    pub fn press(&mut self, button: Button)
        ensures
            final(self).input.gamepad.0 == old(self).input.gamepad.0 | button.0,
            final(self).input.previous_gamepad.0 == if old(self).input.previous_gamepad.contains_spec(button) {
                old(self).input.previous_gamepad.0 & !button.0
            } else {
                old(self).input.previous_gamepad.0
            },
            final(self).game_state == old(self).game_state,
    {
        if self.input.previous_gamepad.contains(button) {
            self.input.previous_gamepad.remove(button);
        }
        self.input.gamepad.insert(button);
    }

    pub fn release(&mut self, button: Button)
        ensures
            final(self).input.gamepad.0 == old(self).input.gamepad.0 & !button.0,
            final(self).input.previous_gamepad == old(self).input.previous_gamepad,
            final(self).game_state == old(self).game_state,
    {
        self.input.gamepad.remove(button);
    }

    pub fn get_frame_buffer(&self) -> (r: &[Draw])
        ensures
            r@ == self.framebuffer.commands@,
    {
        self.framebuffer.commands.as_slice()
    }
}

} // verus!
