//! Positions within the sprite sheet.
use vstd::prelude::*;
use crate::unscaled::{H, W};

verus! {

pub type Inner = u16;

/// A horizontal position in the sprite sheet.
#[derive(Clone, Copy, Debug, Default, PartialEq, Eq, Structural)]
pub struct X(pub Inner);

/// A vertical position in the sprite sheet.
#[derive(Clone, Copy, Debug, Default, PartialEq, Eq, Structural)]
pub struct Y(pub Inner);

pub fn x_const_add_w(x: X, w: W) -> (r: X)
    requires
        x.0 + w.0 <= Inner::MAX,
    ensures
        r.0 == x.0 + w.0,
{
    X(x.0 + w.0)
}

pub fn y_const_add_h(y: Y, h: H) -> (r: Y)
    requires
        y.0 + h.0 <= Inner::MAX,
    ensures
        r.0 == y.0 + h.0,
{
    Y(y.0 + h.0)
}

/// A point in the sprite sheet.
#[derive(Clone, Copy, Debug, Default, PartialEq, Eq, Structural)]
pub struct XY {
    pub x: X,
    pub y: Y,
}

} // verus!
