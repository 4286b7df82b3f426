//! Screen-space values for draw commands, each held to the screen's bounds.
use vstd::prelude::*;
use crate::sprite;
use crate::unscaled;

verus! {

pub type Inner = unscaled::Inner;

pub const WIDTH: Inner = 480;

pub const HEIGHT: Inner = 320;

/// The largest value of a horizontal position and of either extent.
pub const MAX_INNER: Inner = 479;

/// The largest value of a vertical position: the bottom row of the screen.
pub const MAX_Y_INNER: Inner = 319;

/// `v`, or `MAX_INNER` where `v` is not below it.
pub open spec fn clip(v: int) -> int {
    if v < MAX_INNER { v } else { MAX_INNER as int }
}

/// `v`, or `MAX_Y_INNER` where `v` is not below it.
pub open spec fn clip_y(v: int) -> int {
    if v < MAX_Y_INNER { v } else { MAX_Y_INNER as int }
}

/// A horizontal position on screen.
#[derive(Clone, Copy, Debug, Default, PartialEq, Eq, Structural)]
pub struct X(pub unscaled::X);

/// A vertical position on screen.
#[derive(Clone, Copy, Debug, Default, PartialEq, Eq, Structural)]
pub struct Y(pub unscaled::Y);

/// A horizontal extent on screen.
#[derive(Clone, Copy, Debug, Default, PartialEq, Eq, Structural)]
pub struct W(pub unscaled::W);

/// A vertical extent on screen.
#[derive(Clone, Copy, Debug, Default, PartialEq, Eq, Structural)]
pub struct H(pub unscaled::H);

impl X {
    pub open spec fn inner(self) -> int {
        self.0.0 as int
    }

    /// The value lies on the screen, as `clipped` makes it.
    pub open spec fn wf(self) -> bool {
        self.inner() <= MAX_INNER
    }

    pub fn get(self) -> (r: unscaled::X)
        ensures
            r == self.0,
    {
        self.0
    }

    pub fn clipped(x: unscaled::X) -> (r: X)
        ensures
            r.wf(),
            r.inner() == clip(x.0 as int),
    {
        if x.0 < MAX_INNER {
            X(x)
        } else {
            X(unscaled::X(MAX_INNER))
        }
    }

    pub fn clipped_inner(x: Inner) -> (r: X)
        ensures
            r.wf(),
            r.inner() == clip(x as int),
    {
        X::clipped(unscaled::X(x))
    }
}

impl Y {
    pub open spec fn inner(self) -> int {
        self.0.0 as int
    }

    /// The value lies on the screen, as `clipped` makes it.
    pub open spec fn wf(self) -> bool {
        self.inner() <= MAX_Y_INNER
    }

    pub fn get(self) -> (r: unscaled::Y)
        ensures
            r == self.0,
    {
        self.0
    }

    pub fn clipped(y: unscaled::Y) -> (r: Y)
        ensures
            r.wf(),
            r.inner() == clip_y(y.0 as int),
    {
        if y.0 < MAX_Y_INNER {
            Y(y)
        } else {
            Y(unscaled::Y(MAX_Y_INNER))
        }
    }

    pub fn clipped_inner(y: Inner) -> (r: Y)
        ensures
            r.wf(),
            r.inner() == clip_y(y as int),
    {
        Y::clipped(unscaled::Y(y))
    }
}

impl W {
    pub open spec fn inner(self) -> int {
        self.0.0 as int
    }

    /// The value lies on the screen, as `clipped` makes it.
    pub open spec fn wf(self) -> bool {
        self.inner() <= MAX_INNER
    }

    pub fn get(self) -> (r: unscaled::W)
        ensures
            r == self.0,
    {
        self.0
    }

    pub fn clipped(w: unscaled::W) -> (r: W)
        ensures
            r.wf(),
            r.inner() == clip(w.0 as int),
    {
        if w.0 < MAX_INNER {
            W(w)
        } else {
            W(unscaled::W(MAX_INNER))
        }
    }

    pub fn clipped_inner(w: Inner) -> (r: W)
        ensures
            r.wf(),
            r.inner() == clip(w as int),
    {
        W::clipped(unscaled::W(w))
    }
}

impl H {
    pub open spec fn inner(self) -> int {
        self.0.0 as int
    }

    /// The value lies on the screen, as `clipped` makes it.
    pub open spec fn wf(self) -> bool {
        self.inner() <= MAX_INNER
    }

    pub fn get(self) -> (r: unscaled::H)
        ensures
            r == self.0,
    {
        self.0
    }

    pub fn clipped(h: unscaled::H) -> (r: H)
        ensures
            r.wf(),
            r.inner() == clip(h.0 as int),
    {
        if h.0 < MAX_INNER {
            H(h)
        } else {
            H(unscaled::H(MAX_INNER))
        }
    }

    pub fn clipped_inner(h: Inner) -> (r: H)
        ensures
            r.wf(),
            r.inner() == clip(h as int),
    {
        H::clipped(unscaled::H(h))
    }
}

pub fn w_to_usize(w: W) -> (r: usize)
    ensures
        r == w.inner(),
{
    w.0.0 as usize
}

pub fn h_to_usize(h: H) -> (r: usize)
    ensures
        r == h.inner(),
{
    h.0.0 as usize
}

pub fn w_const_add(a: W, b: W) -> (r: W)
    requires
        a.inner() + b.inner() <= Inner::MAX,
    ensures
        r.wf(),
        r.inner() == clip(a.inner() + b.inner()),
{
    W::clipped_inner(a.0.0 + b.0.0)
}

pub fn w_const_sub(a: W, b: W) -> (r: W)
    requires
        a.inner() >= b.inner(),
    ensures
        r.wf(),
        r.inner() == clip(a.inner() - b.inner()),
{
    W::clipped_inner(a.0.0 - b.0.0)
}

pub fn w_const_mul(a: W, b: Inner) -> (r: W)
    requires
        a.inner() * b <= Inner::MAX,
    ensures
        r.wf(),
        r.inner() == clip(a.inner() * b),
{
    W::clipped_inner(a.0.0 * b)
}

pub fn w_const_div(a: W, b: Inner) -> (r: W)
    requires
        b != 0,
    ensures
        r.wf(),
        r.inner() == clip(a.inner() / b as int),
{
    W::clipped_inner(a.0.0 / b)
}

pub fn h_const_add(a: H, b: H) -> (r: H)
    requires
        a.inner() + b.inner() <= Inner::MAX,
    ensures
        r.wf(),
        r.inner() == clip(a.inner() + b.inner()),
{
    H::clipped_inner(a.0.0 + b.0.0)
}

pub fn h_const_sub(a: H, b: H) -> (r: H)
    requires
        a.inner() >= b.inner(),
    ensures
        r.wf(),
        r.inner() == clip(a.inner() - b.inner()),
{
    H::clipped_inner(a.0.0 - b.0.0)
}

pub fn h_const_mul(a: H, b: Inner) -> (r: H)
    requires
        a.inner() * b <= Inner::MAX,
    ensures
        r.wf(),
        r.inner() == clip(a.inner() * b),
{
    H::clipped_inner(a.0.0 * b)
}

pub fn h_const_div(a: H, b: Inner) -> (r: H)
    requires
        b != 0,
    ensures
        r.wf(),
        r.inner() == clip(a.inner() / b as int),
{
    H::clipped_inner(a.0.0 / b)
}

/// A rectangle on screen, given by its inclusive corners.
#[derive(Clone, Copy, Debug, Default, PartialEq, Eq, Structural)]
pub struct Rect {
    pub x_min: X,
    pub y_min: Y,
    pub x_max: X,
    pub y_max: Y,
}

impl Rect {
    /// The screen rectangle covering `u`, clipped to the screen.
    pub open spec fn from_unscaled_spec(u: unscaled::Rect) -> Rect {
        Rect {
            x_min: X(unscaled::X(clip(u.x.0 as int) as u16)),
            y_min: Y(unscaled::Y(clip_y(u.y.0 as int) as u16)),
            x_max: X(unscaled::X(clip(u.x.0 + u.w.0 - 1) as u16)),
            y_max: Y(unscaled::Y(clip_y(u.y.0 + u.h.0 - 1) as u16)),
        }
    }

    /// The pixel rectangle whose inclusive corners are those of `self`.
    pub open spec fn unscaled_spec(self) -> unscaled::Rect {
        unscaled::Rect {
            x: self.x_min.0,
            y: self.y_min.0,
            w: unscaled::W((self.x_max.inner() - self.x_min.inner() + 1) as u16),
            h: unscaled::H((self.y_max.inner() - self.y_min.inner() + 1) as u16),
        }
    }

    /// Every corner lies on screen, and the maximum corner is not above or
    /// left of the minimum one.
    pub open spec fn wf(self) -> bool {
        &&& self.x_min.inner() <= self.x_max.inner() <= MAX_INNER
        &&& self.y_min.inner() <= self.y_max.inner() <= MAX_Y_INNER
    }

    pub fn from_unscaled(u: unscaled::Rect) -> (r: Rect)
        requires
            1 <= u.x.0 + u.w.0 <= Inner::MAX,
            1 <= u.y.0 + u.h.0 <= Inner::MAX,
        ensures
            r == Rect::from_unscaled_spec(u),
    {
        Rect {
            x_min: X::clipped(u.x),
            y_min: Y::clipped(u.y),
            x_max: X::clipped_inner(u.x.0 + u.w.0 - 1),
            y_max: Y::clipped_inner(u.y.0 + u.h.0 - 1),
        }
    }

    pub fn unscaled(self) -> (r: unscaled::Rect)
        requires
            self.x_min.inner() <= self.x_max.inner() < Inner::MAX,
            self.y_min.inner() <= self.y_max.inner() < Inner::MAX,
        ensures
            r == self.unscaled_spec(),
    {
        let Rect { x_min, y_min, x_max, y_max } = self;
        unscaled::Rect {
            x: x_min.get(),
            y: y_min.get(),
            w: unscaled::W(x_max.0.0 - x_min.0.0 + 1),
            h: unscaled::H(y_max.0.0 - y_min.0.0 + 1),
        }
    }
}

/// A request to draw part of the sprite sheet into a rectangle of the screen.
#[derive(Clone, Copy, Debug, Default)]
pub struct Command {
    pub rect: Rect,
    pub sprite_xy: sprite::XY,
    pub colour_override: u32,
}

} // verus!
