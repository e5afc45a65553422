//! Lengths, two-dimensional sizes and padding boxes.

use vstd::prelude::*;

verus! {

/// A length in ten-thousandths of a point.
pub type Size = i64;

/// The largest length of a box, a space or a padding.
pub const LENGTH_LIMIT: i64 = 1_000_000_000_000;

/// The largest absolute coordinate that an action of an added layout may hold.
pub const COORD_LIMIT: i64 = 1_000_000_000_000_000;

/// Whether a length is one that a box, a space or a padding can have.
pub open spec fn valid_length(v: int) -> bool {
    0 <= v <= LENGTH_LIMIT
}

/// A size or a position in two dimensions.
#[derive(Debug, Copy, Clone, PartialEq, Eq, Structural)]
pub struct Size2D {
    pub x: Size,
    pub y: Size,
}

/// The amount of padding on each side of a box.
#[derive(Debug, Copy, Clone, PartialEq, Eq, Structural)]
pub struct SizeBox {
    pub left: Size,
    pub top: Size,
    pub right: Size,
    pub bottom: Size,
}

impl Size2D {
    /// Both components are valid lengths.
    pub open spec fn valid_extent(self) -> bool {
        valid_length(self.x as int) && valid_length(self.y as int)
    }

    /// Both components lie within `[-bound, bound]`.
    pub open spec fn within(self, bound: int) -> bool {
        -bound <= self.x <= bound && -bound <= self.y <= bound
    }

    /// Create a size from its two components.
    pub fn new(x: Size, y: Size) -> (r: Size2D)
        ensures
            r.x == x,
            r.y == y,
    {
        Size2D { x, y }
    }

    /// The size with both components zero.
    pub fn zero() -> (r: Size2D)
        ensures
            r.x == 0,
            r.y == 0,
    {
        Size2D { x: 0, y: 0 }
    }

    /// A size with the given horizontal component and a zero vertical one.
    pub fn with_x(x: Size) -> (r: Size2D)
        ensures
            r.x == x,
            r.y == 0,
    {
        Size2D { x, y: 0 }
    }

    /// A size with the given vertical component and a zero horizontal one.
    pub fn with_y(y: Size) -> (r: Size2D)
        ensures
            r.x == 0,
            r.y == y,
    {
        Size2D { x: 0, y }
    }

    /// Whether `other` fits into this size on both axes (bounds inclusive).
    pub fn fits(&self, other: Size2D) -> (r: bool)
        ensures
            r == (other.x <= self.x && other.y <= self.y),
    {
        other.x <= self.x && other.y <= self.y
    }

    /// The size with the padding taken off on every side.
    pub fn unpadded(&self, padding: SizeBox) -> (r: Size2D)
        requires
            self.valid_extent(),
            padding.valid(),
        ensures
            r.x == self.x - padding.left - padding.right,
            r.y == self.y - padding.top - padding.bottom,
    {
        Size2D { x: self.x - padding.left - padding.right, y: self.y - padding.top - padding.bottom }
    }

    /// The size with the padding added on every side.
    pub fn padded(&self, padding: SizeBox) -> (r: Size2D)
        requires
            self.within(4 * LENGTH_LIMIT),
            padding.valid(),
        ensures
            r.x == self.x + padding.left + padding.right,
            r.y == self.y + padding.top + padding.bottom,
    {
        Size2D { x: self.x + padding.left + padding.right, y: self.y + padding.top + padding.bottom }
    }
}

impl SizeBox {
    /// Every side is a valid length.
    pub open spec fn valid(self) -> bool {
        valid_length(self.left as int) && valid_length(self.top as int)
            && valid_length(self.right as int) && valid_length(self.bottom as int)
    }

    /// Create a padding box from its four sides.
    pub fn new(left: Size, top: Size, right: Size, bottom: Size) -> (r: SizeBox)
        ensures
            r == (SizeBox { left, top, right, bottom }),
    {
        SizeBox { left, top, right, bottom }
    }

    /// The padding box with no padding on any side.
    pub fn zero() -> (r: SizeBox)
        ensures
            r == (SizeBox { left: 0, top: 0, right: 0, bottom: 0 }),
    {
        SizeBox { left: 0, top: 0, right: 0, bottom: 0 }
    }
}

} // verus!
