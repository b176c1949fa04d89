//! Points and rectangles of the virtual desktop.

use vstd::prelude::*;

verus! {

/// A point in virtual desktop coordinates.
#[derive(Clone, Copy, Debug, PartialEq, Eq, Structural)]
pub struct ScreenPoint {
    pub x: i32,
    pub y: i32,
}

impl ScreenPoint {
    pub fn new(x: i32, y: i32) -> (point: ScreenPoint)
        ensures
            point == (ScreenPoint { x, y }),
    {
        ScreenPoint { x, y }
    }
}

/// A rectangle in virtual desktop coordinates; the right and bottom edges are
/// exclusive.
#[derive(Clone, Copy, Debug, PartialEq, Eq, Structural)]
pub struct ScreenRect {
    pub left: i32,
    pub top: i32,
    pub right: i32,
    pub bottom: i32,
}

impl ScreenRect {
    pub fn new(left: i32, top: i32, right: i32, bottom: i32) -> (rect: ScreenRect)
        ensures
            rect == (ScreenRect { left, top, right, bottom }),
    {
        ScreenRect { left, top, right, bottom }
    }

    /// The rectangle covers at least one pixel.
    pub open spec fn nonempty(self) -> bool {
        self.left < self.right && self.top < self.bottom
    }

    /// The pixel at `(x, y)` lies in the rectangle.
    pub open spec fn covers(self, x: int, y: int) -> bool {
        self.left <= x < self.right && self.top <= y < self.bottom
    }

    /// `inner` lies within the edges of this rectangle.
    pub open spec fn encloses(self, inner: ScreenRect) -> bool {
        self.left <= inner.left && self.top <= inner.top && inner.right <= self.right
            && inner.bottom <= self.bottom
    }
}

/// The nearest `i32` to `value`.
pub open spec fn clamp_i32(value: int) -> int {
    if value < i32::MIN {
        i32::MIN as int
    } else if value > i32::MAX {
        i32::MAX as int
    } else {
        value
    }
}

pub open spec fn min_int(a: int, b: int) -> int {
    if a <= b {
        a
    } else {
        b
    }
}

pub open spec fn max_int(a: int, b: int) -> int {
    if a >= b {
        a
    } else {
        b
    }
}

pub fn saturating_add_i32(a: i32, b: i32) -> (sum: i32)
    ensures
        sum == clamp_i32(a + b),
{
    let wide: i64 = a as i64 + b as i64;
    if wide < i32::MIN as i64 {
        i32::MIN
    } else if wide > i32::MAX as i64 {
        i32::MAX
    } else {
        wide as i32
    }
}

pub fn saturating_sub_i32(a: i32, b: i32) -> (difference: i32)
    ensures
        difference == clamp_i32(a - b),
{
    let wide: i64 = a as i64 - b as i64;
    if wide < i32::MIN as i64 {
        i32::MIN
    } else if wide > i32::MAX as i64 {
        i32::MAX
    } else {
        wide as i32
    }
}

pub fn min_i32(a: i32, b: i32) -> (least: i32)
    ensures
        least == min_int(a as int, b as int),
{
    if a <= b {
        a
    } else {
        b
    }
}

pub fn max_i32(a: i32, b: i32) -> (greatest: i32)
    ensures
        greatest == max_int(a as int, b as int),
{
    if a >= b {
        a
    } else {
        b
    }
}

/// Clamping keeps what fits, moves what does not to the nearer end, and keeps
/// the order.
pub proof fn lemma_clamping_moves_to_the_nearer_end(a: int, b: int)
    ensures
        -2147483648 <= a <= 2147483647 ==> clamp_i32(a) == a,
        a > 2147483647 ==> clamp_i32(a) == 2147483647,
        a < -2147483648 ==> clamp_i32(a) == -2147483648,
        a <= b ==> clamp_i32(a) <= clamp_i32(b),
        min_int(a, b) <= a && min_int(a, b) <= b && (min_int(a, b) == a || min_int(a, b) == b),
        max_int(a, b) >= a && max_int(a, b) >= b && (max_int(a, b) == a || max_int(a, b) == b),
{
}

/// A rectangle holds its left and top edge and not its right and bottom one.
pub proof fn lemma_what_a_rectangle_covers(rect: ScreenRect, x: int, y: int)
    ensures
        rect.nonempty() ==> rect.covers(rect.left as int, rect.top as int),
        rect.nonempty() <==> exists|a: int, b: int| rect.covers(a, b),
        !rect.covers(rect.right as int, y),
        !rect.covers(x, rect.bottom as int),
{
    if rect.nonempty() {
        assert(rect.covers(rect.left as int, rect.top as int));
    }
}

} // verus!
