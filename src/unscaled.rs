//! Pixel-space coordinates and extents. Values are in pixels.
use vstd::prelude::*;

verus! {

pub type Inner = u16;

pub type XInner = Inner;

pub type YInner = Inner;

pub type WInner = Inner;

pub type HInner = Inner;

/// Widens a byte to the pixel coordinate type.
pub fn inner_from_u8(byte: u8) -> (r: Inner)
    ensures
        r == byte as Inner,
{
    byte as Inner
}

/// A horizontal position.
#[derive(Copy, Clone, Default, Debug, PartialEq, Eq, Structural, PartialOrd, Ord)]
pub struct X(pub XInner);

/// A vertical position.
#[derive(Copy, Clone, Default, Debug, PartialEq, Eq, Structural, PartialOrd, Ord)]
pub struct Y(pub YInner);

/// A horizontal extent.
#[derive(Copy, Clone, Default, Debug, PartialEq, Eq, Structural, PartialOrd, Ord)]
pub struct W(pub WInner);

/// A vertical extent.
#[derive(Copy, Clone, Default, Debug, PartialEq, Eq, Structural, PartialOrd, Ord)]
pub struct H(pub HInner);

/// `a - b`, or zero where `b` is the larger.
pub open spec fn saturating_sub_spec(a: int, b: int) -> int {
    if a >= b { a - b } else { 0 }
}

/// `a + b`, or the largest pixel value where the sum does not fit.
pub open spec fn saturating_add_spec(a: int, b: int) -> int {
    if a + b <= Inner::MAX { a + b } else { Inner::MAX as int }
}

impl X {
    pub fn get(self) -> (r: XInner)
        ensures
            r == self.0,
    {
        self.0
    }

    pub fn saturating_add(self, w: W) -> (r: X)
        ensures
            r.0 == saturating_add_spec(self.0 as int, w.0 as int),
    {
        X(self.0.saturating_add(w.0))
    }

    pub fn saturating_sub(self, w: W) -> (r: X)
        ensures
            r.0 == saturating_sub_spec(self.0 as int, w.0 as int),
    {
        X(self.0.saturating_sub(w.0))
    }

    /// The distance from `x` to `self`, or zero where `x` lies to the right.
    pub fn saturating_point_sub(self, x: X) -> (r: W)
        ensures
            r.0 == saturating_sub_spec(self.0 as int, x.0 as int),
    {
        W(self.0.saturating_sub(x.0))
    }
}

impl Y {
    pub fn get(self) -> (r: YInner)
        ensures
            r == self.0,
    {
        self.0
    }

    pub fn saturating_add(self, h: H) -> (r: Y)
        ensures
            r.0 == saturating_add_spec(self.0 as int, h.0 as int),
    {
        Y(self.0.saturating_add(h.0))
    }

    pub fn saturating_sub(self, h: H) -> (r: Y)
        ensures
            r.0 == saturating_sub_spec(self.0 as int, h.0 as int),
    {
        Y(self.0.saturating_sub(h.0))
    }

    /// The distance from `y` to `self`, or zero where `y` lies below.
    pub fn saturating_point_sub(self, y: Y) -> (r: H)
        ensures
            r.0 == saturating_sub_spec(self.0 as int, y.0 as int),
    {
        H(self.0.saturating_sub(y.0))
    }
}

impl W {
    pub fn get(self) -> (r: WInner)
        ensures
            r == self.0,
    {
        self.0
    }

    pub fn saturating_sub(self, other: W) -> (r: W)
        ensures
            r.0 == saturating_sub_spec(self.0 as int, other.0 as int),
    {
        W(self.0.saturating_sub(other.0))
    }
}

impl H {
    pub fn get(self) -> (r: HInner)
        ensures
            r == self.0,
    {
        self.0
    }

    pub fn saturating_sub(self, other: H) -> (r: H)
        ensures
            r.0 == saturating_sub_spec(self.0 as int, other.0 as int),
    {
        H(self.0.saturating_sub(other.0))
    }
}

pub fn w_to_usize(w: W) -> (r: usize)
    ensures
        r == w.0,
{
    w.0 as usize
}

pub fn h_to_usize(h: H) -> (r: usize)
    ensures
        r == h.0,
{
    h.0 as usize
}

pub fn w_const_add(a: W, b: W) -> (r: W)
    requires
        a.0 + b.0 <= Inner::MAX,
    ensures
        r.0 == a.0 + b.0,
{
    W(a.0 + b.0)
}

pub fn w_const_sub(a: W, b: W) -> (r: W)
    requires
        a.0 >= b.0,
    ensures
        r.0 == a.0 - b.0,
{
    W(a.0 - b.0)
}

pub fn w_const_mul(a: W, b: Inner) -> (r: W)
    requires
        a.0 * b <= Inner::MAX,
    ensures
        r.0 == a.0 * b,
{
    W(a.0 * b)
}

pub fn w_const_div(a: W, b: Inner) -> (r: W)
    requires
        b != 0,
    ensures
        r.0 == a.0 / b,
{
    W(a.0 / b)
}

pub fn h_const_add(a: H, b: H) -> (r: H)
    requires
        a.0 + b.0 <= Inner::MAX,
    ensures
        r.0 == a.0 + b.0,
{
    H(a.0 + b.0)
}

pub fn h_const_sub(a: H, b: H) -> (r: H)
    requires
        a.0 >= b.0,
    ensures
        r.0 == a.0 - b.0,
{
    H(a.0 - b.0)
}

pub fn h_const_mul(a: H, b: Inner) -> (r: H)
    requires
        a.0 * b <= Inner::MAX,
    ensures
        r.0 == a.0 * b,
{
    H(a.0 * b)
}

pub fn h_const_div(a: H, b: Inner) -> (r: H)
    requires
        b != 0,
    ensures
        r.0 == a.0 / b,
{
    H(a.0 / b)
}

pub fn x_const_add_w(x: X, w: W) -> (r: X)
    requires
        x.0 + w.0 <= Inner::MAX,
    ensures
        r.0 == x.0 + w.0,
{
    X(x.0 + w.0)
}

pub fn y_const_add_h(y: Y, h: H) -> (r: Y)
    requires
        y.0 + h.0 <= Inner::MAX,
    ensures
        r.0 == y.0 + h.0,
{
    Y(y.0 + h.0)
}

/// A point.
#[derive(Clone, Copy, Default, Debug, PartialEq, Eq, Structural)]
pub struct XY {
    pub x: X,
    pub y: Y,
}

/// A size.
#[derive(Clone, Copy, Debug, PartialEq, Eq, Structural)]
pub struct WH {
    pub w: W,
    pub h: H,
}

/// An axis-aligned rectangle given by its top-left corner and its size.
#[derive(Clone, Copy, Debug, PartialEq, Eq, Structural)]
pub struct Rect {
    pub x: X,
    pub y: Y,
    pub w: W,
    pub h: H,
}

impl Rect {
    pub fn xy(self) -> (r: XY)
        ensures
            r.x == self.x,
            r.y == self.y,
    {
        XY { x: self.x, y: self.y }
    }

    pub fn wh(self) -> (r: WH)
        ensures
            r.w == self.w,
            r.h == self.h,
    {
        WH { w: self.w, h: self.h }
    }

    pub fn xy_wh(xy: XY, wh: WH) -> (r: Rect)
        ensures
            r.x == xy.x,
            r.y == xy.y,
            r.w == wh.w,
            r.h == wh.h,
    {
        Rect { x: xy.x, y: xy.y, w: wh.w, h: wh.h }
    }
}

} // verus!
