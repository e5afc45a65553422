//! Axes and alignments, the remapping between generalized and physical
//! coordinates, layout spaces, finished layouts and layout errors.

use vstd::prelude::*;
use smallvec::SmallVec;
use crate::actions::LayoutAction;
use crate::geom::{Size, Size2D, SizeBox, COORD_LIMIT};

verus! {

/// A direction in which content flows.
#[derive(Debug, Copy, Clone, PartialEq, Eq, Structural)]
pub enum Axis {
    LeftToRight,
    RightToLeft,
    TopToBottom,
    BottomToTop,
}

/// Where content is aligned along an axis, relative to its direction.
#[derive(Debug, Copy, Clone, PartialEq, Eq, Structural)]
pub enum Alignment {
    Origin,
    Center,
    End,
}

impl Axis {
    /// Whether the axis runs horizontally.
    pub open spec fn spec_is_horizontal(self) -> bool {
        self is LeftToRight || self is RightToLeft
    }

    /// Whether the axis points towards increasing coordinates.
    pub open spec fn spec_is_positive(self) -> bool {
        self is LeftToRight || self is TopToBottom
    }

    /// Whether this is a horizontal axis.
    pub fn is_horizontal(&self) -> (r: bool)
        ensures
            r == self.spec_is_horizontal(),
    {
        match self {
            Axis::LeftToRight | Axis::RightToLeft => true,
            Axis::TopToBottom | Axis::BottomToTop => false,
        }
    }

    /// Whether this axis points into the positive coordinate direction.
    pub fn is_positive(&self) -> (r: bool)
        ensures
            r == self.spec_is_positive(),
    {
        match self {
            Axis::LeftToRight | Axis::TopToBottom => true,
            Axis::RightToLeft | Axis::BottomToTop => false,
        }
    }
}

/// An axis together with the alignment of content along it.
#[derive(Debug, Copy, Clone, PartialEq, Eq, Structural)]
pub struct AlignedAxis {
    pub axis: Axis,
    pub alignment: Alignment,
}

/// Half a length, rounded towards zero.
pub open spec fn half(line: int) -> int {
    if line >= 0 {
        line / 2
    } else {
        -((-line) / 2)
    }
}

/// Whether aligned content sits at the start of the line (offset zero).
pub open spec fn anchors_at_start(positive: bool, alignment: Alignment) -> bool {
    (positive && alignment is Origin) || (!positive && alignment is End)
}

impl AlignedAxis {
    /// The offset along a line of the given length at which aligned content
    /// has its origin.
    pub open spec fn spec_anchor(self, line: int) -> int {
        if anchors_at_start(self.axis.spec_is_positive(), self.alignment) {
            0
        } else if self.alignment is Center {
            half(line)
        } else {
            line
        }
    }

    /// Pair an axis with an alignment.
    pub fn new(axis: Axis, alignment: Alignment) -> (r: AlignedAxis)
        ensures
            r == (AlignedAxis { axis, alignment }),
    {
        AlignedAxis { axis, alignment }
    }

    /// The pair of axis and alignment.
    pub fn pair(&self) -> (r: (Axis, Alignment))
        ensures
            r == (self.axis, self.alignment),
    {
        (self.axis, self.alignment)
    }

    /// The position of the anchor specified by this axis on the given line.
    pub fn anchor(&self, line: Size) -> (r: Size)
        ensures
            r == self.spec_anchor(line as int),
    {
        match (self.axis.is_positive(), self.alignment) {
            (true, Alignment::Origin) | (false, Alignment::End) => 0,
            (_, Alignment::Center) => line / 2,
            (true, Alignment::End) | (false, Alignment::Origin) => line,
        }
    }
}

/// The primary and the secondary axis along which content is laid out.
#[derive(Debug, Copy, Clone, PartialEq, Eq, Structural)]
pub struct LayoutAxes {
    pub primary: AlignedAxis,
    pub secondary: AlignedAxis,
}

impl LayoutAxes {
    /// The generalized anchor of an area: the primary anchor of its width and
    /// the secondary anchor of its height.
    pub open spec fn spec_anchor(self, area: Size2D) -> Size2D {
        Size2D {
            x: self.primary.spec_anchor(area.x as int) as i64,
            y: self.secondary.spec_anchor(area.y as int) as i64,
        }
    }

    /// The position of the anchor specified by the two aligned axes
    /// in the given generalized space.
    pub fn anchor(&self, area: Size2D) -> (r: Size2D)
        ensures
            r == self.spec_anchor(area),
    {
        Size2D::new(self.primary.anchor(area.x), self.secondary.anchor(area.y))
    }
}

/// The physical size whose generalized form is `s`, and the generalized size
/// of the physical size `s`: the two components trade places exactly when the
/// primary axis is vertical.
pub open spec fn swap_unless_horizontal(s: Size2D, axes: LayoutAxes) -> Size2D {
    if axes.primary.axis.spec_is_horizontal() {
        s
    } else {
        Size2D { x: s.y, y: s.x }
    }
}

/// A physical size in generalized coordinates (primary, secondary).
pub open spec fn generalize(s: Size2D, axes: LayoutAxes) -> Size2D {
    swap_unless_horizontal(s, axes)
}

/// A generalized size in physical coordinates (x, y).
pub open spec fn specialize(s: Size2D, axes: LayoutAxes) -> Size2D {
    swap_unless_horizontal(s, axes)
}

impl Size2D {
    /// Map a physical size into generalized coordinates.
    pub fn generalized(&self, axes: LayoutAxes) -> (r: Size2D)
        ensures
            r == generalize(*self, axes),
    {
        if axes.primary.axis.is_horizontal() {
            *self
        } else {
            Size2D::new(self.y, self.x)
        }
    }

    /// Map a generalized size back into physical coordinates.
    pub fn specialized(&self, axes: LayoutAxes) -> (r: Size2D)
        ensures
            r == specialize(*self, axes),
    {
        if axes.primary.axis.is_horizontal() {
            *self
        } else {
            Size2D::new(self.y, self.x)
        }
    }
}

/// Specializing a generalized size gives back the physical size, whatever
/// the axes are.
pub proof fn lemma_specialize_generalize(axes: LayoutAxes, size: Size2D)
    ensures
        specialize(generalize(size, axes), axes) == size,
        generalize(specialize(size, axes), axes) == size,
{
}

/// The anchor of a line is its start, its middle or its end, and for a
/// line of non-negative length it never lies outside the line.
pub proof fn lemma_anchor_within_line(aligned: AlignedAxis, line: int)
    requires
        line >= 0,
    ensures
        aligned.spec_anchor(line) == 0 || aligned.spec_anchor(line) == line / 2
            || aligned.spec_anchor(line) == line,
        0 <= aligned.spec_anchor(line) <= line,
{
}

/// One candidate region to lay content out in.
#[derive(Debug, Copy, Clone, PartialEq, Eq, Structural)]
pub struct LayoutSpace {
    /// The maximum size of the box to lay out in.
    pub dimensions: Size2D,
    /// Padding that is kept free on each side.
    pub padding: SizeBox,
    /// Whether the finished box hugs its content or keeps the dimensions.
    pub shrink_to_fit: bool,
}

impl LayoutSpace {
    /// The dimensions and the padding are valid lengths.
    pub open spec fn valid(self) -> bool {
        self.dimensions.valid_extent() && self.padding.valid()
    }

    /// The dimensions minus the padding.
    pub open spec fn spec_usable(self) -> Size2D {
        Size2D {
            x: (self.dimensions.x - self.padding.left - self.padding.right) as i64,
            y: (self.dimensions.y - self.padding.top - self.padding.bottom) as i64,
        }
    }

    /// The offset of the padded content origin.
    pub open spec fn spec_start(self) -> Size2D {
        Size2D { x: self.padding.left, y: self.padding.top }
    }

    /// The actually usable area (dimensions minus padding).
    pub fn usable(&self) -> (r: Size2D)
        requires
            self.valid(),
        ensures
            r == self.spec_usable(),
    {
        self.dimensions.unpadded(self.padding)
    }

    /// The offset from the origin to the start of content, that is,
    /// `(padding.left, padding.top)`.
    pub fn start(&self) -> (r: Size2D)
        ensures
            r == self.spec_start(),
    {
        Size2D::new(self.padding.left, self.padding.top)
    }

    /// A layout space without padding whose dimensions are the usable area.
    pub fn usable_space(&self, shrink_to_fit: bool) -> (r: LayoutSpace)
        requires
            self.valid(),
        ensures
            r.dimensions == self.spec_usable(),
            r.padding == (SizeBox { left: 0, top: 0, right: 0, bottom: 0 }),
            r.shrink_to_fit == shrink_to_fit,
    {
        LayoutSpace { dimensions: self.usable(), padding: SizeBox::zero(), shrink_to_fit }
    }
}

/// A small, mostly inline sequence of layout spaces.
///
/// The spaces are held in a `SmallVec`, which Verus sees only through the
/// functions below.
#[verifier::external_body]
#[derive(Debug)]
pub struct LayoutSpaces {
    spaces: SmallVec<[LayoutSpace; 2]>,
}

/// The spaces that a sequence of layout spaces holds, in order.
pub uninterp spec fn spaces_of(v: LayoutSpaces) -> Seq<LayoutSpace>;

impl LayoutSpaces {
    /// Relies on `SmallVec::from_vec`: the vector's elements, in order.
    #[verifier::external_body]
    pub fn from_vec(spaces: Vec<LayoutSpace>) -> (r: LayoutSpaces)
        ensures
            spaces_of(r) == spaces@,
    {
        LayoutSpaces { spaces: SmallVec::from_vec(spaces) }
    }

    /// Relies on `SmallVec::len`: the number of elements stored.
    #[verifier::external_body]
    pub fn len(&self) -> (r: usize)
        ensures
            r == spaces_of(*self).len(),
    {
        self.spaces.len()
    }

    /// Relies on `SmallVec`'s `Index<usize>`: the element at that position.
    #[verifier::external_body]
    pub fn get(&self, i: usize) -> (r: LayoutSpace)
        requires
            i < spaces_of(*self).len(),
        ensures
            r == spaces_of(*self)[i as int],
    {
        self.spaces[i]
    }

    /// Relies on `SmallVec::clone`: a copy of the same elements in order.
    #[verifier::external_body]
    pub fn duplicate(&self) -> (r: LayoutSpaces)
        ensures
            spaces_of(r) == spaces_of(*self),
    {
        LayoutSpaces { spaces: self.spaces.clone() }
    }
}

impl Clone for LayoutSpaces {
    /// A copy holding the same spaces in the same order.
    fn clone(&self) -> (r: LayoutSpaces)
        ensures
            spaces_of(r) == spaces_of(*self),
    {
        self.duplicate()
    }
}

/// One finished box: its size and the actions that draw its content.
#[derive(Debug, Clone)]
pub struct Layout {
    /// The size of the box.
    pub dimensions: Size2D,
    /// The actions composing this layout.
    pub actions: Vec<LayoutAction>,
    /// Whether to debug-render this box.
    pub debug_render: bool,
}

impl Layout {
    /// The layout can be placed into a stack: its size is a valid extent and
    /// its actions stay within the coordinate limit.
    pub open spec fn placeable(self) -> bool {
        &&& self.dimensions.valid_extent()
        &&& forall|i: int| 0 <= i < self.actions@.len() ==> (#[trigger] self.actions@[i]).within(
            COORD_LIMIT as int,
        )
    }

    /// Create an empty layout with the specified dimensions.
    pub fn empty(width: Size, height: Size) -> (r: Layout)
        ensures
            r.dimensions == (Size2D { x: width, y: height }),
            r.actions@ == Seq::<LayoutAction>::empty(),
            r.debug_render,
    {
        Layout { dimensions: Size2D::new(width, height), actions: vec![], debug_render: true }
    }
}

/// An ordered collection of finished boxes.
#[derive(Debug, Clone)]
pub struct MultiLayout {
    pub layouts: Vec<Layout>,
}

impl MultiLayout {
    /// Create an empty multi-layout.
    pub fn new() -> (r: MultiLayout)
        ensures
            r.layouts@ == Seq::<Layout>::empty(),
    {
        MultiLayout { layouts: vec![] }
    }

    /// Extract the single sublayout of a multi-layout that holds exactly one.
    pub fn into_single(self) -> (r: Layout)
        requires
            self.layouts@.len() == 1,
        ensures
            r == self.layouts@[0],
    {
        let mut layouts = self.layouts;
        layouts.pop().unwrap()
    }

    /// Add a sublayout at the end.
    pub fn add(&mut self, layout: Layout)
        ensures
            final(self).layouts@ == old(self).layouts@.push(layout),
    {
        self.layouts.push(layout);
    }

    /// The count of sublayouts.
    pub fn count(&self) -> (r: usize)
        ensures
            r == self.layouts@.len(),
    {
        self.layouts.len()
    }

    /// Whether this layout contains any sublayouts.
    pub fn is_empty(&self) -> (r: bool)
        ensures
            r == (self.layouts@.len() == 0),
    {
        self.layouts.len() == 0
    }
}

/// Why a layout could not be produced.
#[derive(Debug, Clone)]
pub enum LayoutError {
    /// There is not enough space to add an item.
    NotEnoughSpace(&'static str),
    /// There was no suitable font for the given character.
    NoSuitableFont(char),
    /// An error occurred while gathering font data; its description.
    Font(String),
}

/// The result type for layouting.
pub type LayoutResult<T> = Result<T, LayoutError>;

} // verus!
