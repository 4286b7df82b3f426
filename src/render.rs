//! The render sink: declarative draw commands, appended in drawing order.
use vstd::prelude::*;
use crate::anim::PlayerID;
use crate::cards::{Card, Suit};
use crate::ui::Look;

verus! {

/// The caption of a button.
#[derive(Clone, Copy, Debug, PartialEq, Eq, Structural)]
pub enum Label {
    Yes,
    No,
    Confirm,
    Reset,
    Cancel,
    Done,
    Suit(Suit),
    Card(Card),
}

/// A line of text in a dialog or on the table.
#[derive(Clone, Copy, Debug, PartialEq, Eq, Structural)]
pub enum Text {
    /// Who has won.
    Winners,
    PlayAgain,
    CloseWindow,
    ChooseSuit,
    ChooseCardToChange,
    /// Asks which cards the given card may be played on.
    ChooseEdges(Card),
    /// The number of pending changes.
    ChangeCount(usize),
    /// An entry of the event log, by its index.
    LogLine(usize),
}

#[derive(Clone, Copy, Debug, PartialEq, Eq, Structural)]
pub enum Draw {
    /// Fill the screen with the table colour.
    Clear,
    /// A window over the whole screen, under a dialog.
    Window,
    /// The event log panel, this many pixels tall.
    LogPanel(u8),
    Card { card: Card, x: u8, y: u8 },
    CardBack { x: u8, y: u8 },
    HighlightedCard { card: Card, x: u8, y: u8 },
    /// The suit declared for a wild card on the discard pile.
    SuitMark { suit: Suit, x: u8, y: u8 },
    Text { text: Text, x: u8, y: u8 },
    Button { x: u8, y: u8, w: u8, h: u8, label: Label, look: Look },
    Checkbox { x: u8, y: u8, card: Card, checked: bool, look: Look },
    /// The name of a player, for the event log.
    Player(PlayerID),
}

/// `b` holds the commands of `a` in order, and maybe more after them.
pub open spec fn extends(a: Seq<Draw>, b: Seq<Draw>) -> bool {
    &&& a.len() <= b.len()
    &&& forall|i: int| 0 <= i < a.len() ==> #[trigger] b[i] == a[i]
}

/// The draw commands of one frame.
pub struct Framebuffer {
    pub commands: Vec<Draw>,
}

impl Framebuffer {
    pub fn new() -> (r: Framebuffer)
        ensures
            r.commands@ == Seq::<Draw>::empty(),
    {
        Framebuffer { commands: Vec::new() }
    }

    pub fn push(&mut self, draw: Draw)
        ensures
            final(self).commands@ == old(self).commands@.push(draw),
    {
        self.commands.push(draw);
    }

    pub fn clear(&mut self)
        ensures
            final(self).commands@ == Seq::<Draw>::empty(),
    {
        self.commands.clear();
    }
}

} // verus!
