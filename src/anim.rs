//! Cards in flight between deck, hands and discard pile.
use vstd::prelude::*;
use crate::cards::Card;

verus! {

/// Index of a player: simulated players come first, the human player last.
pub type PlayerID = u8;

/// How far a card in flight moves along each axis per frame.
pub const ANIMATION_STEP: u8 = 6;

#[derive(Clone, Copy, Debug, PartialEq, Eq, Structural)]
pub struct PositionedCard {
    pub card: Card,
    pub x: u8,
    pub y: u8,
}

/// What happens when a card in flight reaches its target.
#[derive(Clone, Copy, Debug, PartialEq, Eq, Structural)]
pub enum Action {
    MoveToDiscard,
    SelectWild(PlayerID),
    MoveToHand(PlayerID),
}

#[derive(Clone, Copy, Debug, PartialEq, Eq, Structural)]
pub struct CardAnimation {
    pub card: PositionedCard,
    pub x: u8,
    pub y: u8,
    pub completion_action: Action,
}

/// `current` moved by at most `ANIMATION_STEP` toward `target`, never past it.
pub open spec fn approach(current: u8, target: u8) -> u8 {
    if current < target {
        if target - current <= ANIMATION_STEP { target } else { (current + ANIMATION_STEP) as u8 }
    } else {
        if current - target <= ANIMATION_STEP { target } else { (current - ANIMATION_STEP) as u8 }
    }
}

/// How far a coordinate still has to go.
pub open spec fn distance(current: u8, target: u8) -> int {
    if current < target { target - current } else { current - target }
}

fn approach_coordinate(current: u8, target: u8) -> (r: u8)
    ensures
        r == approach(current, target),
{
    if current < target {
        if target - current <= ANIMATION_STEP { target } else { current + ANIMATION_STEP }
    } else {
        if current - target <= ANIMATION_STEP { target } else { current - ANIMATION_STEP }
    }
}

impl CardAnimation {
    pub open spec fn is_complete_spec(&self) -> bool {
        self.card.x == self.x && self.card.y == self.y
    }

    pub fn new(card: PositionedCard, x: u8, y: u8, completion_action: Action) -> (r: CardAnimation)
        ensures
            r == (CardAnimation { card, x, y, completion_action }),
    {
        CardAnimation { card, x, y, completion_action }
    }

    /// Moves the card one step toward its target.
    pub fn approach_target(&mut self)
        ensures
            final(self).card.x == approach(old(self).card.x, old(self).x),
            final(self).card.y == approach(old(self).card.y, old(self).y),
            final(self).card.card == old(self).card.card,
            final(self).x == old(self).x,
            final(self).y == old(self).y,
            final(self).completion_action == old(self).completion_action,
    {
        self.card.x = approach_coordinate(self.card.x, self.x);
        self.card.y = approach_coordinate(self.card.y, self.y);
    }

    pub fn is_complete(&self) -> (r: bool)
        ensures
            r == self.is_complete_spec(),
    {
        self.card.x == self.x && self.card.y == self.y
    }
}

/// A step toward the target strictly shortens the way left, unless the card
/// is already there; so every animation completes.
pub proof fn lemma_approach_progress(current: u8, target: u8)
    ensures
        current == target ==> approach(current, target) == target,
        current != target ==> distance(approach(current, target), target) < distance(current, target),
        distance(current, target) <= ANIMATION_STEP ==> approach(current, target) == target,
{
}

} // verus!
