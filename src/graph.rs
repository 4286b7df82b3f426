//! The playability graph: for each card, the cards it may be played on.
use vstd::prelude::*;
use crate::cards::{Card, DECK_SIZE, rank_of, suit_of};

verus! {

/// A set of cards, one flag per card of the deck.
pub struct CardFlags {
    flags: Vec<bool>,
}

impl View for CardFlags {
    type V = Seq<bool>;

    closed spec fn view(&self) -> Seq<bool> {
        self.flags@
    }
}

/// The playing rule before any edit: same suit or same rank.
pub open spec fn default_rule(card: Card, top: Card) -> bool {
    suit_of(card) == suit_of(top) || rank_of(card) == rank_of(top)
}

/// `flags` with the flag of `card` flipped.
pub open spec fn toggled(flags: Seq<bool>, card: Card) -> Seq<bool> {
    flags.update(card as int, !flags[card as int])
}

impl CardFlags {
    pub open spec fn wf(&self) -> bool {
        self@.len() == DECK_SIZE
    }

    /// The empty set.
    pub fn new() -> (r: CardFlags)
        ensures
            r.wf(),
            forall|c: int| 0 <= c < DECK_SIZE ==> !r@[c],
    {
        let mut flags: Vec<bool> = Vec::new();
        let mut i: u8 = 0;
        while i < DECK_SIZE
            invariant
                i <= DECK_SIZE,
                flags@.len() == i,
                forall|c: int| 0 <= c < i ==> !flags@[c],
            decreases DECK_SIZE - i,
        {
            flags.push(false);
            i = i + 1;
        }
        CardFlags { flags }
    }

    /// The cards that `card` may be played on under the default rule.
    pub fn default_for(card: Card) -> (r: CardFlags)
        ensures
            r.wf(),
            forall|c: Card| c < DECK_SIZE ==> r@[c as int] == default_rule(card, c),
    {
        let mut flags: Vec<bool> = Vec::new();
        let mut i: u8 = 0;
        while i < DECK_SIZE
            invariant
                i <= DECK_SIZE,
                flags@.len() == i,
                forall|c: Card| c < i ==> flags@[c as int] == default_rule(card, c),
            decreases DECK_SIZE - i,
        {
            let same_suit = crate::cards::get_suit(card) == crate::cards::get_suit(i);
            let same_rank = crate::cards::get_rank(card) == crate::cards::get_rank(i);
            flags.push(same_suit || same_rank);
            i = i + 1;
        }
        CardFlags { flags }
    }

    pub fn has_card(&self, card: Card) -> (r: bool)
        requires
            self.wf(),
            card < DECK_SIZE,
        ensures
            r == self@[card as int],
    {
        self.flags[card as usize]
    }

    /// Adds `card` if it is absent, removes it if it is present.
    pub fn toggle_card(&mut self, card: Card)
        requires
            old(self).wf(),
            card < DECK_SIZE,
        ensures
            final(self)@ == toggled(old(self)@, card),
    {
        let flag = self.flags[card as usize];
        self.flags.set(card as usize, !flag);
    }

    pub fn copy(&self) -> (r: CardFlags)
        ensures
            r@ == self@,
    {
        CardFlags { flags: self.flags.clone() }
    }
}

/// An edit of the graph: `card` may be played on exactly `edges`.
pub struct Change {
    pub edges: CardFlags,
    pub card: Card,
}

impl Change {
    pub open spec fn wf(&self) -> bool {
        self.edges.wf() && self.card < DECK_SIZE
    }

    pub fn new(edges: CardFlags, card: Card) -> (r: Change)
        ensures
            r.edges@ == edges@,
            r.card == card,
    {
        Change { edges, card }
    }

    pub fn card(&self) -> (r: Card)
        ensures
            r == self.card,
    {
        self.card
    }

    pub fn edges(&self) -> (r: CardFlags)
        ensures
            r@ == self.edges@,
    {
        self.edges.copy()
    }

    pub fn copy(&self) -> (r: Change)
        ensures
            r.edges@ == self.edges@,
            r.card == self.card,
    {
        Change { edges: self.edges.copy(), card: self.card }
    }
}

pub open spec fn changes_wf(changes: Seq<Change>) -> bool {
    forall|i: int| 0 <= i < changes.len() ==> #[trigger] changes[i].wf()
}

/// A change as plain values: the edges and the card they are for.
pub type ChangeView = (Seq<bool>, Card);

pub open spec fn change_views(changes: Seq<Change>) -> Seq<ChangeView> {
    Seq::new(changes.len(), |i: int| (changes[i].edges@, changes[i].card))
}

pub open spec fn change_ok(change: ChangeView) -> bool {
    change.0.len() == DECK_SIZE && change.1 < DECK_SIZE
}

pub open spec fn change_views_wf(changes: Seq<ChangeView>) -> bool {
    forall|i: int| 0 <= i < changes.len() ==> #[trigger] change_ok(changes[i])
}

/// The graph after applying `changes` in order: each sets the edges of its card.
pub open spec fn committed(graph: Seq<Seq<bool>>, changes: Seq<ChangeView>) -> Seq<Seq<bool>>
    decreases changes.len(),
{
    if changes.len() == 0 {
        graph
    } else {
        let last = changes.last();
        committed(graph, changes.drop_last()).update(last.1 as int, last.0)
    }
}

/// The edges that the last change of `card` in `changes` gives it, or else
/// those of the graph.
pub open spec fn latest_edges(graph: Seq<Seq<bool>>, changes: Seq<ChangeView>, card: Card) -> Seq<bool>
    decreases changes.len(),
{
    if changes.len() == 0 {
        graph[card as int]
    } else if changes.last().1 == card {
        changes.last().0
    } else {
        latest_edges(graph, changes.drop_last(), card)
    }
}

proof fn lemma_change_views_prefix_wf(changes: Seq<ChangeView>)
    requires
        change_views_wf(changes),
        changes.len() > 0,
    ensures
        change_views_wf(changes.drop_last()),
        changes.last().0.len() == DECK_SIZE && changes.last().1 < DECK_SIZE,
{
    let prefix = changes.drop_last();
    assert forall|i: int| 0 <= i < prefix.len() implies #[trigger] change_ok(prefix[i]) by {
        assert(prefix[i] == changes[i]);
    }
    assert(change_ok(changes[changes.len() - 1]));
}

pub proof fn lemma_committed_len(graph: Seq<Seq<bool>>, changes: Seq<ChangeView>)
    requires
        change_views_wf(changes),
        graph.len() == DECK_SIZE,
    ensures
        committed(graph, changes).len() == graph.len(),
    decreases changes.len(),
{
    if changes.len() > 0 {
        lemma_change_views_prefix_wf(changes);
        lemma_committed_len(graph, changes.drop_last());
    }
}

/// What `committed` gives a card is what the last change of it gives, or
/// else what the graph gave it.
pub proof fn lemma_committed_is_latest(graph: Seq<Seq<bool>>, changes: Seq<ChangeView>, card: Card)
    requires
        change_views_wf(changes),
        graph.len() == DECK_SIZE,
        card < DECK_SIZE,
    ensures
        committed(graph, changes)[card as int] == latest_edges(graph, changes, card),
    decreases changes.len(),
{
    if changes.len() > 0 {
        lemma_change_views_prefix_wf(changes);
        lemma_committed_len(graph, changes.drop_last());
        lemma_committed_is_latest(graph, changes.drop_last(), card);
    }
}

/// For each card, the set of cards it may legally be placed on.
pub struct CanPlayGraph {
    edges: Vec<CardFlags>,
}

impl View for CanPlayGraph {
    type V = Seq<Seq<bool>>;

    closed spec fn view(&self) -> Seq<Seq<bool>> {
        Seq::new(self.edges@.len(), |i: int| self.edges@[i]@)
    }
}

impl CanPlayGraph {
    pub open spec fn wf(&self) -> bool {
        &&& self@.len() == DECK_SIZE
        &&& forall|c: int| 0 <= c < DECK_SIZE ==> #[trigger] self@[c].len() == DECK_SIZE
    }

    /// The graph of the default rule: same suit or same rank.
    pub fn new() -> (r: CanPlayGraph)
        ensures
            r.wf(),
            forall|a: Card, b: Card|
                a < DECK_SIZE && b < DECK_SIZE ==> r@[a as int][b as int] == default_rule(a, b),
    {
        let mut edges: Vec<CardFlags> = Vec::new();
        let mut i: u8 = 0;
        while i < DECK_SIZE
            invariant
                i <= DECK_SIZE,
                edges@.len() == i,
                forall|a: int| 0 <= a < i ==> #[trigger] edges@[a].wf(),
                forall|a: Card, b: Card|
                    a < i && b < DECK_SIZE ==> edges@[a as int]@[b as int] == default_rule(a, b),
            decreases DECK_SIZE - i,
        {
            edges.push(CardFlags::default_for(i));
            i = i + 1;
        }
        let r = CanPlayGraph { edges };
        assert forall|c: int| 0 <= c < DECK_SIZE implies #[trigger] r@[c].len() == DECK_SIZE by {
            assert(r@[c] == r.edges@[c]@);
            assert(r.edges@[c].wf());
        }
        r
    }

    /// The cards that `card` may be played on.
    pub fn get_edges(&self, card: Card) -> (r: CardFlags)
        requires
            self.wf(),
            card < DECK_SIZE,
        ensures
            r@ == self@[card as int],
    {
        self.edges[card as usize].copy()
    }

    /// `card` may be played on `top`.
    pub fn is_playable_on(&self, card: Card, top: Card) -> (r: bool)
        requires
            self.wf(),
            card < DECK_SIZE,
            top < DECK_SIZE,
        ensures
            r == self@[card as int][top as int],
    {
        assert(self@[card as int] == self.edges@[card as int]@);
        self.edges[card as usize].has_card(top)
    }

    /// Applies every change, in order.
    pub fn apply_changes(&mut self, changes: &Vec<Change>)
        requires
            old(self).wf(),
            changes_wf(changes@),
        ensures
            final(self).wf(),
            final(self)@ == committed(old(self)@, change_views(changes@)),
    {
        let mut i: usize = 0;
        while i < changes.len()
            invariant
                i <= changes@.len(),
                changes_wf(changes@),
                self.wf(),
                self@ == committed(old(self)@, change_views(changes@.subrange(0, i as int))),
            decreases changes@.len() - i,
        {
            let change = &changes[i];
            let ghost before = self@;
            assert(change.wf());
            let edges = change.edges.copy();
            self.edges.set(change.card as usize, edges);
            proof {
                let prefix = changes@.subrange(0, i as int + 1);
                assert(change_views(prefix).drop_last() =~= change_views(changes@.subrange(0, i as int)));
                assert(self@ =~= before.update(change.card as int, change.edges@));
            }
            i = i + 1;
        }
        assert(changes@.subrange(0, changes@.len() as int) =~= changes@);
    }
}

} // verus!
