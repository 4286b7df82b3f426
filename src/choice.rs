//! The choice protocol: game logic asks for a value, a dialog produces it,
//! and the asker reads it exactly once.
use vstd::prelude::*;
use crate::cards::{Card, DECK_SIZE, SUIT_COUNT, Suit};
use crate::graph::{CardFlags, Change, ChangeView, change_views, changes_wf, latest_edges, toggled};

verus! {

/// Which screen of the rule editor is showing.
#[derive(Clone, Copy, Debug, PartialEq, Eq, Structural)]
pub enum Layer {
    /// Picking the card whose rule to change.
    Card,
    /// Picking the cards that card may be played on.
    Edges,
}

/// An editing session of the playability graph, kept apart from the graph
/// until it is committed.
pub struct ChoiceState {
    /// The edits confirmed so far, oldest first.
    pub changes: Vec<Change>,
    /// The card being edited, or offered first in the card list.
    pub card: Card,
    /// The edges of `card` as edited on the edge screen.
    pub edges: CardFlags,
    /// The first card shown on the edge screen.
    pub scroll_card: Card,
    pub layer: Layer,
    /// The player has asked to commit the changes.
    pub done: bool,
}

/// An editing session as plain values.
pub struct SessionView {
    pub changes: Seq<ChangeView>,
    pub card: Card,
    pub edges: Seq<bool>,
    pub scroll_card: Card,
    pub layer: Layer,
    pub done: bool,
}

impl View for ChoiceState {
    type V = SessionView;

    open spec fn view(&self) -> SessionView {
        SessionView {
            changes: change_views(self.changes@),
            card: self.card,
            edges: self.edges@,
            scroll_card: self.scroll_card,
            layer: self.layer,
            done: self.done,
        }
    }
}

/// A session that has changed nothing yet.
pub open spec fn fresh_session() -> SessionView {
    SessionView {
        changes: Seq::empty(),
        card: 0,
        edges: Seq::new(DECK_SIZE as nat, |i: int| false),
        scroll_card: 0,
        layer: Layer::Card,
        done: false,
    }
}

/// The player picks `card` to edit: its edges as the session has them so
/// far, or as the graph has them, are loaded for editing.
pub open spec fn pick_card(s: SessionView, graph: Seq<Seq<bool>>, card: Card) -> SessionView {
    SessionView { card, layer: Layer::Edges, edges: latest_edges(graph, s.changes, card), ..s }
}

/// The player ticks or unticks `card` among the edited edges.
pub open spec fn toggle_edge(s: SessionView, card: Card) -> SessionView {
    SessionView { edges: toggled(s.edges, card), ..s }
}

/// The player confirms the edited edges: they become a pending change.
pub open spec fn confirm_edges(s: SessionView) -> SessionView {
    SessionView { changes: s.changes.push((s.edges, s.card)), layer: Layer::Card, ..s }
}

/// The player leaves the edge screen without keeping the edit.
pub open spec fn cancel_edges(s: SessionView) -> SessionView {
    SessionView { layer: Layer::Card, ..s }
}

impl ChoiceState {
    pub open spec fn wf(&self) -> bool {
        &&& changes_wf(self.changes@)
        &&& self.card < DECK_SIZE
        &&& self.edges.wf()
        &&& self.scroll_card < DECK_SIZE
    }

    /// A session that has changed nothing yet.
    pub open spec fn is_fresh(&self) -> bool {
        self@ == fresh_session()
    }

    pub fn new() -> (r: ChoiceState)
        ensures
            r.is_fresh(),
            r.wf(),
    {
        let r = ChoiceState {
            changes: Vec::new(),
            card: 0,
            edges: CardFlags::new(),
            scroll_card: 0,
            layer: Layer::Card,
            done: false,
        };
        assert(r@.changes =~= fresh_session().changes);
        assert(r@.edges =~= fresh_session().edges);
        r
    }
}

/// A value that a dialog has produced and nobody has read yet.
pub enum Chosen {
    Unit,
    Bool(bool),
    Suit(Suit),
    CanPlayGraph(Vec<Change>),
}

/// The single slot through which game logic waits for the player.
pub enum Choice {
    NoChoice,
    OfUnit,
    OfBool,
    OfSuit,
    OfCanPlayGraph(ChoiceState),
    Already(Chosen),
}

impl Choice {
    pub open spec fn wf(&self) -> bool {
        match self {
            Choice::OfCanPlayGraph(s) => s.wf(),
            Choice::Already(Chosen::CanPlayGraph(changes)) => changes_wf(changes@),
            Choice::Already(Chosen::Suit(suit)) => *suit < SUIT_COUNT,
            _ => true,
        }
    }

    /// No dialog waits for the player: nothing was asked, or the answer is in.
    pub open spec fn is_idle_spec(&self) -> bool {
        self is NoChoice || self is Already
    }

    pub fn is_idle(&self) -> (r: bool)
        ensures
            r == self.is_idle_spec(),
    {
        match self {
            Choice::NoChoice => true,
            Choice::Already(_) => true,
            _ => false,
        }
    }
}

/// What asking for a suit does to the slot, and what it returns. Asking while
/// another kind is pending is a logic error: the slot is reset.
pub open spec fn choose_suit_spec(c: Choice) -> (Choice, Option<Suit>) {
    match c {
        Choice::NoChoice => (Choice::OfSuit, None),
        Choice::OfSuit => (Choice::OfSuit, None),
        Choice::Already(Chosen::Suit(suit)) => (Choice::NoChoice, Some(suit)),
        _ => (Choice::NoChoice, None),
    }
}

/// What asking whether to play again does to the slot, and what it returns.
pub open spec fn choose_play_again_spec(c: Choice) -> (Choice, Option<()>) {
    match c {
        Choice::NoChoice => (Choice::OfUnit, None),
        Choice::OfUnit => (Choice::OfUnit, None),
        Choice::Already(Chosen::Unit) => (Choice::NoChoice, Some(())),
        _ => (Choice::NoChoice, None),
    }
}

/// Asks the player whether to play again; `Some` once they have accepted.
pub fn choose_play_again(choice: &mut Choice) -> (r: Option<()>)
    ensures
        *final(choice) == choose_play_again_spec(*old(choice)).0,
        r == choose_play_again_spec(*old(choice)).1,
{
    let (next, r) = match choice {
        Choice::NoChoice => (Choice::OfUnit, None),
        Choice::OfUnit => (Choice::OfUnit, None),
        Choice::Already(Chosen::Unit) => (Choice::NoChoice, Some(())),
        _ => (Choice::NoChoice, None),
    };
    *choice = next;
    r
}

/// Asks the player for a suit; `Some` once they have chosen one.
pub fn choose_suit(choice: &mut Choice) -> (r: Option<Suit>)
    ensures
        *final(choice) == choose_suit_spec(*old(choice)).0,
        r == choose_suit_spec(*old(choice)).1,
{
    let (next, r) = match choice {
        Choice::NoChoice => (Choice::OfSuit, None),
        Choice::OfSuit => (Choice::OfSuit, None),
        Choice::Already(Chosen::Suit(suit)) => (Choice::NoChoice, Some(*suit)),
        _ => (Choice::NoChoice, None),
    };
    *choice = next;
    r
}

/// Asks the player to edit the playability graph. Returns the changes once
/// they have finished, and nothing before: on the first call the slot starts
/// a fresh editing session, and while it lasts the slot is left as it is.
pub fn choose_can_play_graph(choice: &mut Choice) -> (r: Vec<Change>)
    requires
        old(choice).wf(),
    ensures
        final(choice).wf(),
        *old(choice) is NoChoice ==> (*final(choice) matches Choice::OfCanPlayGraph(s) && s.is_fresh())
            && r@.len() == 0,
        *old(choice) is OfCanPlayGraph ==> *final(choice) == *old(choice) && r@.len() == 0,
        *old(choice) matches Choice::Already(Chosen::CanPlayGraph(changes)) ==> *final(choice) is NoChoice
            && r@ == changes@,
        !(*old(choice) is NoChoice || *old(choice) is OfCanPlayGraph || *old(choice) matches Choice::Already(
            Chosen::CanPlayGraph(_),
        )) ==> *final(choice) is NoChoice && r@.len() == 0,
        changes_wf(r@),
{
    match choice {
        Choice::NoChoice => {
            *choice = Choice::OfCanPlayGraph(ChoiceState::new());
            Vec::new()
        },
        Choice::OfCanPlayGraph(_) => Vec::new(),
        Choice::Already(Chosen::CanPlayGraph(_)) => {
            let mut taken = Choice::NoChoice;
            std::mem::swap(choice, &mut taken);
            match taken {
                Choice::Already(Chosen::CanPlayGraph(changes)) => changes,
                _ => Vec::new(),
            }
        },
        _ => {
            *choice = Choice::NoChoice;
            Vec::new()
        },
    }
}

} // verus!
