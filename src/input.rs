//! Held buttons, their edges between frames, and sound-effect requests.
use vstd::prelude::*;

verus! {

/// Bit of the primary action button.
pub const BUTTON_A: u8 = 1;

/// Bit of the secondary action button.
pub const BUTTON_B: u8 = 2;

pub const BUTTON_SELECT: u8 = 4;

pub const BUTTON_START: u8 = 8;

pub const BUTTON_UP: u8 = 16;

pub const BUTTON_DOWN: u8 = 32;

pub const BUTTON_LEFT: u8 = 64;

pub const BUTTON_RIGHT: u8 = 128;

/// A set of logical buttons, one bit each.
#[derive(Copy, Clone, Default, Debug, PartialEq, Eq, Structural)]
pub struct Button(pub u8);

impl Button {
    /// Every button of `other` is in `self`.
    pub open spec fn contains_spec(self, other: Button) -> bool {
        self.0 & other.0 == other.0
    }

    pub fn contains(&self, other: Button) -> (r: bool)
        ensures
            r == self.contains_spec(other),
    {
        self.0 & other.0 == other.0
    }

    pub fn insert(&mut self, other: Button)
        ensures
            final(self).0 == old(self).0 | other.0,
    {
        self.0 = self.0 | other.0;
    }

    pub fn remove(&mut self, other: Button)
        ensures
            final(self).0 == old(self).0 & !other.0,
    {
        self.0 = self.0 & !other.0;
    }
}

/// The buttons held this frame and those held the frame before.
#[derive(Clone, Copy, Default, Debug)]
pub struct Input {
    pub gamepad: Button,
    pub previous_gamepad: Button,
}

impl Input {
    pub open spec fn pressed_spec(self, buttons: Button) -> bool {
        !self.previous_gamepad.contains_spec(buttons) && self.gamepad.contains_spec(buttons)
    }

    pub open spec fn released_spec(self, buttons: Button) -> bool {
        self.previous_gamepad.contains_spec(buttons) && !self.gamepad.contains_spec(buttons)
    }

    /// The buttons are held now and were not all held the frame before.
    pub fn pressed_this_frame(&self, buttons: Button) -> (r: bool)
        ensures
            r == self.pressed_spec(buttons),
    {
        !self.previous_gamepad.contains(buttons) && self.gamepad.contains(buttons)
    }

    /// The buttons were held the frame before and are not all held now.
    pub fn released_this_frame(&self, buttons: Button) -> (r: bool)
        ensures
            r == self.released_spec(buttons),
    {
        self.previous_gamepad.contains(buttons) && !self.gamepad.contains(buttons)
    }
}

/// A sound effect that the core asks the audio collaborator to play.
#[derive(Clone, Copy, Debug, PartialEq, Eq, Structural)]
pub enum SFX {
    CardPlace,
    CardSlide,
    ButtonPress,
}

/// `b` holds the requests of `a` in order, and maybe more after them.
pub open spec fn appended(a: Seq<SFX>, b: Seq<SFX>) -> bool {
    &&& a.len() <= b.len()
    &&& forall|i: int| 0 <= i < a.len() ==> #[trigger] b[i] == a[i]
}

/// The sound-effect requests of one frame, in the order they were made.
pub struct Speaker {
    requests: Vec<SFX>,
}

impl View for Speaker {
    type V = Seq<SFX>;

    closed spec fn view(&self) -> Seq<SFX> {
        self.requests@
    }
}

impl Default for Speaker {
    fn default() -> (r: Speaker)
        ensures
            r@ == Seq::<SFX>::empty(),
    {
        Speaker { requests: Vec::with_capacity(8) }
    }
}

impl Speaker {
    pub fn new() -> (r: Speaker)
        ensures
            r@ == Seq::<SFX>::empty(),
    {
        Speaker { requests: Vec::new() }
    }

    pub fn clear(&mut self)
        ensures
            final(self)@ == Seq::<SFX>::empty(),
    {
        self.requests.clear();
    }

    pub fn request_sfx(&mut self, sfx: SFX)
        ensures
            final(self)@ == old(self)@.push(sfx),
    {
        self.requests.push(sfx);
    }

    pub fn slice(&self) -> (r: &[SFX])
        ensures
            r@ == self@,
    {
        self.requests.as_slice()
    }
}

} // verus!
