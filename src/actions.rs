//! Positioned drawing actions and their translation into a parent box.

use vstd::prelude::*;
use crate::geom::{valid_length, Size, Size2D};

verus! {

/// A positioned drawing action inside a box.
#[derive(Debug, Copy, Clone, PartialEq, Eq, Structural)]
pub enum LayoutAction {
    /// Move to an absolute position.
    MoveAbsolute(Size2D),
    /// Select the font with the given index at the given size.
    SetFont(usize, Size),
    /// Draw the outline of a box at a position with a size.
    DebugBox(Size2D, Size2D),
}

impl LayoutAction {
    /// Every coordinate and size that the action holds lies within `[-bound, bound]`.
    pub open spec fn within(self, bound: int) -> bool {
        match self {
            LayoutAction::MoveAbsolute(p) => p.within(bound),
            LayoutAction::SetFont(_, s) => valid_length(s as int),
            LayoutAction::DebugBox(p, s) => p.within(bound) && s.within(bound),
        }
    }

    /// The action moved by `by`: positions shift, sizes and fonts stay.
    pub open spec fn spec_translated(self, by: Size2D) -> LayoutAction {
        match self {
            LayoutAction::MoveAbsolute(p) => LayoutAction::MoveAbsolute(
                Size2D { x: (p.x + by.x) as i64, y: (p.y + by.y) as i64 },
            ),
            LayoutAction::SetFont(i, s) => LayoutAction::SetFont(i, s),
            LayoutAction::DebugBox(p, s) => LayoutAction::DebugBox(
                Size2D { x: (p.x + by.x) as i64, y: (p.y + by.y) as i64 },
                s,
            ),
        }
    }

    /// Move the action by `by`.
    pub fn translated(&self, by: Size2D) -> (r: LayoutAction)
        requires
            self.within(2 * crate::geom::COORD_LIMIT),
            by.within(2 * crate::geom::COORD_LIMIT),
        ensures
            r == self.spec_translated(by),
    {
        match *self {
            LayoutAction::MoveAbsolute(p) => LayoutAction::MoveAbsolute(
                Size2D::new(p.x + by.x, p.y + by.y),
            ),
            LayoutAction::SetFont(i, s) => LayoutAction::SetFont(i, s),
            LayoutAction::DebugBox(p, s) => LayoutAction::DebugBox(
                Size2D::new(p.x + by.x, p.y + by.y),
                s,
            ),
        }
    }
}

} // verus!
