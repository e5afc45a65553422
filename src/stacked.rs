//! The stack layouter: places boxes one after another along the secondary
//! axis and moves on to the next space when the active one is full.

use vstd::prelude::*;
use crate::actions::LayoutAction;
use crate::geom::{valid_length, Size, Size2D, COORD_LIMIT, LENGTH_LIMIT};
use crate::layout::{
    generalize, specialize, spaces_of, Alignment, Layout, LayoutAxes, LayoutError, LayoutResult,
    LayoutSpace, LayoutSpaces, MultiLayout,
};

verus! {

/// The context for stack layouting: the candidate spaces, in order, and the
/// axes to flow on.
#[derive(Debug, Clone)]
pub struct StackContext {
    pub spaces: LayoutSpaces,
    pub axes: LayoutAxes,
}

/// Lays out boxes stack-like: each box gets its own line along the
/// secondary axis.
#[derive(Debug, Clone)]
pub struct StackLayouter {
    ctx: StackContext,
    layouts: MultiLayout,
    /// Offset on the secondary axis, anchor of the layout and the layout itself.
    boxes: Vec<(Size, Size2D, Layout)>,
    usable: Size2D,
    dimensions: Size2D,
    active_space: usize,
    include_empty: bool,
}

/// The generalized size that a stack starts from in a space of the given
/// usable generalized size: the full width unless content aligns at the origin.
pub open spec fn start_dimensions_of(usable: Size2D, axes: LayoutAxes) -> Size2D {
    Size2D { x: if axes.primary.alignment is Origin { 0 } else { usable.x }, y: 0 }
}

/// The combined generalized size of stacked content `dims` and a box `other`
/// below it.
pub open spec fn combined(dims: Size2D, other: Size2D) -> Size2D {
    Size2D { x: if dims.x >= other.x { dims.x } else { other.x }, y: (dims.y + other.y) as i64 }
}

/// Whether a generalized size fits into another one (bounds inclusive).
pub open spec fn fits_into(outer: Size2D, inner: Size2D) -> bool {
    inner.x <= outer.x && inner.y <= outer.y
}

/// The actions that place `layout` at `position`: its outline, if it is
/// debug-rendered, then its own actions moved by `position`.
pub open spec fn placed(position: Size2D, layout: Layout) -> Seq<LayoutAction> {
    let outline = if layout.debug_render {
        seq![LayoutAction::DebugBox(position, layout.dimensions)]
    } else {
        Seq::<LayoutAction>::empty()
    };
    outline + layout.actions@.map_values(|a: LayoutAction| a.spec_translated(position))
}

impl StackLayouter {
    /// The context the layouter was made with.
    pub closed spec fn spec_ctx(&self) -> StackContext {
        self.ctx
    }

    /// The layouts finished so far.
    pub closed spec fn spec_layouts(&self) -> Seq<Layout> {
        self.layouts.layouts@
    }

    /// The boxes of the active space that are not finished yet.
    pub closed spec fn spec_boxes(&self) -> Seq<(Size, Size2D, Layout)> {
        self.boxes@
    }

    /// The usable generalized size of the active space.
    pub closed spec fn spec_usable(&self) -> Size2D {
        self.usable
    }

    /// The generalized size of the content so far: the widest extent on the
    /// primary axis and the cursor on the secondary axis.
    pub closed spec fn spec_dimensions(&self) -> Size2D {
        self.dimensions
    }

    /// The index of the active space.
    pub closed spec fn spec_active(&self) -> int {
        self.active_space as int
    }

    /// Whether finishing emits the active space's box even when it is empty.
    pub closed spec fn spec_include_empty(&self) -> bool {
        self.include_empty
    }

    /// The number of candidate spaces.
    pub open spec fn space_count(&self) -> int {
        spaces_of(self.spec_ctx().spaces).len() as int
    }

    /// The candidate space with index `i`.
    pub open spec fn space(&self, i: int) -> LayoutSpace {
        spaces_of(self.spec_ctx().spaces)[i]
    }

    /// The usable size of the space with index `i`, generalized.
    pub open spec fn usable_of(&self, i: int) -> Size2D {
        generalize(self.space(i).spec_usable(), self.spec_ctx().axes)
    }

    /// The state of a layouter that has just entered space `i`.
    pub open spec fn fresh_in(&self, i: int) -> bool {
        &&& self.spec_active() == i
        &&& self.spec_usable() == self.usable_of(i)
        &&& self.spec_dimensions() == start_dimensions_of(self.usable_of(i), self.spec_ctx().axes)
        &&& self.spec_boxes().len() == 0
    }

    /// The layouter's state is consistent.
    pub open spec fn wf(&self) -> bool {
        &&& self.space_count() >= 1
        &&& forall|i: int|
            0 <= i < self.space_count() ==> (#[trigger] spaces_of(self.spec_ctx().spaces)[i]).valid()
        &&& 0 <= self.spec_active() < self.space_count()
        &&& self.spec_usable() == self.usable_of(self.spec_active())
        &&& -2 * LENGTH_LIMIT <= self.spec_dimensions().x <= LENGTH_LIMIT
        &&& valid_length(self.spec_dimensions().y as int)
        &&& forall|i: int|
            0 <= i < self.spec_boxes().len() ==> {
                let b = #[trigger] self.spec_boxes()[i];
                &&& valid_length(b.0 as int)
                &&& b.1.valid_extent()
                &&& b.2.placeable()
            }
    }

    /// Whether a box of generalized size `size` fits below the content of
    /// the active space.
    pub open spec fn fits_now(&self, size: Size2D) -> bool {
        fits_into(self.spec_usable(), combined(self.spec_dimensions(), size))
    }

    /// Whether a box of generalized size `size` fits into space `i` when it
    /// is the first box there.
    pub open spec fn fits_fresh(&self, i: int, size: Size2D) -> bool {
        let u = self.usable_of(i);
        fits_into(u, combined(start_dimensions_of(u, self.spec_ctx().axes), size))
    }

    /// The physical position at which a pending box with the given secondary
    /// offset and anchor is placed in the active space.
    pub open spec fn box_position(&self, offset: Size, anchor: Size2D) -> Size2D {
        let axes = self.spec_ctx().axes;
        let area = axes.spec_anchor(self.spec_usable());
        let step = if axes.secondary.axis.spec_is_positive() { offset as int } else { -offset };
        let general = Size2D { x: (area.x - anchor.x) as i64, y: (area.y - anchor.y + step) as i64 };
        let physical = specialize(general, axes);
        let start = self.space(self.spec_active()).spec_start();
        Size2D { x: (physical.x + start.x) as i64, y: (physical.y + start.y) as i64 }
    }

    /// The actions of the pending boxes `boxes`, each placed in turn.
    pub open spec fn stacked_actions(&self, boxes: Seq<(Size, Size2D, Layout)>) -> Seq<LayoutAction>
        decreases boxes.len(),
    {
        if boxes.len() == 0 {
            Seq::empty()
        } else {
            let b = boxes.last();
            self.stacked_actions(boxes.drop_last()) + placed(self.box_position(b.0, b.1), b.2)
        }
    }

    /// The size of a finished box in space `i` whose content has the
    /// generalized size `dims`: that accumulated size where the space
    /// shrinks to fit, else the space's fixed dimensions.
    pub open spec fn finished_size(&self, i: int, dims: Size2D) -> Size2D {
        let space = self.space(i);
        if space.shrink_to_fit {
            dims
        } else {
            space.dimensions
        }
    }

    /// `l` is the box that finishing the active space yields.
    pub open spec fn is_finished(&self, l: Layout) -> bool {
        &&& l.dimensions == self.finished_size(self.spec_active(), self.spec_dimensions())
        &&& l.actions@ == self.stacked_actions(self.spec_boxes())
        &&& l.debug_render
    }

    /// `l` is the box that finishing space `i` yields when nothing was put there.
    pub open spec fn is_empty_finished(&self, i: int, l: Layout) -> bool {
        let u = self.usable_of(i);
        &&& l.dimensions == self.finished_size(i, start_dimensions_of(u, self.spec_ctx().axes))
        &&& l.actions@.len() == 0
        &&& l.debug_render
    }

    /// `new` was reached from `self` by finishing the active space and
    /// moving on, space by space, to space `k`: the finished layouts grew by
    /// the active space's box and one empty box for each space skipped.
    pub open spec fn skipped_to(&self, new: &StackLayouter, k: int) -> bool {
        let n = self.spec_layouts().len();
        let a = self.spec_active();
        &&& new.spec_layouts().len() == n + (k - a)
        &&& new.spec_layouts().subrange(0, n as int) == self.spec_layouts()
        &&& self.is_finished(new.spec_layouts()[n as int])
        &&& forall|m: int|
            1 <= m < k - a ==> #[trigger] self.is_empty_finished(a + m, new.spec_layouts()[n + m])
    }

    /// What adding `layout` does, where `ok` says whether it succeeded.
    ///
    /// The box goes below the content of the active space where it fits
    /// there; otherwise into the first later space where it fits, after the
    /// active space and every space in between have been finished. It fails
    /// exactly when no such space exists.
    pub open spec fn added(&self, new: &StackLayouter, layout: Layout, ok: bool) -> bool {
        let axes = self.spec_ctx().axes;
        let size = generalize(layout.dimensions, axes);
        let a = self.spec_active();
        &&& new.wf()
        &&& new.spec_ctx() == self.spec_ctx()
        &&& ok == (self.fits_now(size) || exists|k: int|
            a < k < self.space_count() && #[trigger] self.fits_fresh(k, size))
        &&& self.fits_now(size) ==> {
            &&& new.spec_active() == a
            &&& new.spec_usable() == self.spec_usable()
            &&& new.spec_layouts() == self.spec_layouts()
            &&& new.spec_boxes() == self.spec_boxes().push(
                (self.spec_dimensions().y, axes.spec_anchor(size), layout),
            )
            &&& new.spec_dimensions() == combined(self.spec_dimensions(), size)
            &&& new.spec_include_empty() == self.spec_include_empty()
        }
        &&& (!self.fits_now(size) && ok) ==> {
            let k = new.spec_active();
            &&& a < k < self.space_count()
            &&& self.fits_fresh(k, size)
            &&& forall|m: int| a < m < k ==> !#[trigger] self.fits_fresh(m, size)
            &&& self.skipped_to(new, k)
            &&& new.spec_usable() == self.usable_of(k)
            &&& new.spec_boxes() == seq![(0i64, axes.spec_anchor(size), layout)]
            &&& new.spec_dimensions() == combined(
                start_dimensions_of(self.usable_of(k), axes),
                size,
            )
            &&& new.spec_include_empty()
        }
        &&& !ok ==> {
            &&& new.spec_active() == self.space_count() - 1
            &&& a == self.space_count() - 1 ==> *new == *self
            &&& a < self.space_count() - 1 ==> {
                &&& self.skipped_to(new, self.space_count() - 1)
                &&& new.fresh_in(self.space_count() - 1)
                &&& new.spec_include_empty()
            }
        }
    }
}

impl StackLayouter {
    /// Create a stack layouter that starts in the first space of `ctx`.
    pub fn new(ctx: StackContext) -> (r: StackLayouter)
        requires
            spaces_of(ctx.spaces).len() >= 1,
            forall|i: int| 0 <= i < spaces_of(ctx.spaces).len() ==> (#[trigger] spaces_of(
                ctx.spaces,
            )[i]).valid(),
        ensures
            r.wf(),
            r.spec_ctx() == ctx,
            r.fresh_in(0),
            r.spec_layouts().len() == 0,
            r.spec_include_empty(),
    {
        assert(spaces_of(ctx.spaces)[0].valid());
        let usable = ctx.spaces.get(0).usable().generalized(ctx.axes);
        let dimensions = start_dimensions(usable, ctx.axes);
        StackLayouter {
            ctx,
            layouts: MultiLayout::new(),
            boxes: vec![],
            usable,
            dimensions,
            active_space: 0,
            include_empty: true,
        }
    }

    /// This layouter's context.
    pub fn ctx(&self) -> (r: StackContext)
        ensures
            spaces_of(r.spaces) == spaces_of(self.spec_ctx().spaces),
            r.axes == self.spec_ctx().axes,
    {
        StackContext { spaces: self.ctx.spaces.duplicate(), axes: self.ctx.axes }
    }

    /// The combined size of the content so far with a box of size `other`.
    fn size_with(&self, other: Size2D) -> (r: Size2D)
        requires
            self.wf(),
            other.valid_extent(),
        ensures
            r == combined(self.spec_dimensions(), other),
    {
        Size2D {
            x: if self.dimensions.x >= other.x { self.dimensions.x } else { other.x },
            y: self.dimensions.y + other.y,
        }
    }

    /// Finish the box of the active space and add it to the finished layouts.
    pub fn finish_layout(&mut self) -> (r: LayoutResult<()>)
        requires
            old(self).wf(),
        ensures
            r is Ok,
            final(self).wf(),
            final(self).spec_layouts().len() == old(self).spec_layouts().len() + 1,
            final(self).spec_layouts().drop_last() == old(self).spec_layouts(),
            old(self).is_finished(final(self).spec_layouts().last()),
            final(self).spec_boxes().len() == 0,
            final(self).spec_ctx() == old(self).spec_ctx(),
            final(self).spec_active() == old(self).spec_active(),
            final(self).spec_usable() == old(self).spec_usable(),
            final(self).spec_dimensions() == old(self).spec_dimensions(),
            final(self).spec_include_empty() == old(self).spec_include_empty(),
    {
        let ghost pre = *self;
        let mut actions: Vec<LayoutAction> = Vec::new();
        let space = self.ctx.spaces.get(self.active_space);
        let anchor = self.ctx.axes.anchor(self.usable);
        let positive = self.ctx.axes.secondary.axis.is_positive();
        let start = space.start();
        let mut i: usize = 0;
        while i < self.boxes.len()
            invariant
                *self == pre,
                pre.wf(),
                space == pre.space(pre.spec_active()),
                anchor == pre.spec_ctx().axes.spec_anchor(pre.spec_usable()),
                positive == pre.spec_ctx().axes.secondary.axis.spec_is_positive(),
                start == space.spec_start(),
                i <= self.boxes@.len(),
                actions@ == pre.stacked_actions(self.boxes@.take(i as int)),
            decreases self.boxes@.len() - i,
        {
            let b = &self.boxes[i];
            proof {
                let bb = pre.spec_boxes()[i as int];
                assert(valid_length(bb.0 as int) && bb.1.valid_extent() && bb.2.placeable());
            }
            let step: Size = if positive { b.0 } else { -b.0 };
            let general = Size2D::new(anchor.x - b.1.x, anchor.y - b.1.y + step);
            let physical = general.specialized(self.ctx.axes);
            let position = Size2D::new(physical.x + start.x, physical.y + start.y);
            assert(position == pre.box_position(b.0, b.1));
            place_layout(&mut actions, position, &b.2);
            i = i + 1;
            proof {
                assert(self.boxes@.take(i as int).drop_last() =~= self.boxes@.take(i - 1));
            }
        }
        proof {
            assert(self.boxes@.take(i as int) =~= self.boxes@);
        }
        let dimensions = if space.shrink_to_fit {
            self.dimensions
        } else {
            space.dimensions
        };
        self.boxes = Vec::new();
        self.layouts.add(Layout { dimensions, actions, debug_render: true });
        proof {
            assert(self.spec_layouts().drop_last() =~= pre.spec_layouts());
        }
        Ok(())
    }

    /// Move on to the next space, or stay in the last one, with no content.
    ///
    /// Where `include_empty` is true, the box of the new space is emitted on
    /// finishing even if nothing is added to it.
    pub fn start_new_space(&mut self, include_empty: bool)
        requires
            old(self).wf(),
        ensures
            final(self).wf(),
            final(self).spec_ctx() == old(self).spec_ctx(),
            final(self).spec_layouts() == old(self).spec_layouts(),
            final(self).spec_usable() == final(self).usable_of(final(self).spec_active()),
            final(self).spec_active() == if old(self).spec_active() + 1 < old(self).space_count() {
                old(self).spec_active() + 1
            } else {
                old(self).spec_active()
            },
            final(self).spec_dimensions() == start_dimensions_of(
                final(self).spec_usable(),
                old(self).spec_ctx().axes,
            ),
            final(self).spec_boxes() == old(self).spec_boxes(),
            final(self).spec_include_empty() == include_empty,
    {
        let n = self.ctx.spaces.len();
        if self.active_space + 1 < n {
            self.active_space = self.active_space + 1;
        }
        assert(spaces_of(self.ctx.spaces)[self.active_space as int].valid());
        self.usable = self.ctx.spaces.get(self.active_space).usable().generalized(self.ctx.axes);
        self.dimensions = start_dimensions(self.usable, self.ctx.axes);
        self.include_empty = include_empty;
        assert(-2 * LENGTH_LIMIT <= self.dimensions.x <= LENGTH_LIMIT);
        assert(self.usable == self.usable_of(self.active_space as int));
        assert(forall|i: int|
            0 <= i < self.spec_boxes().len() ==> old(self).spec_boxes()[i]
                == #[trigger] self.spec_boxes()[i]);
    }

    /// Add a sublayout below the content so far, moving on to later spaces
    /// while it does not fit.
    pub fn add(&mut self, layout: Layout) -> (r: LayoutResult<()>)
        requires
            old(self).wf(),
            layout.placeable(),
        ensures
            old(self).added(final(self), layout, r is Ok),
            r is Err ==> r == Err::<(), LayoutError>(
                LayoutError::NotEnoughSpace("box is too large for stack spaces"),
            ),
    {
        let ghost pre = *self;
        let size = layout.dimensions.generalized(self.ctx.axes);
        let n = self.ctx.spaces.len();
        let mut new_dimensions = self.size_with(size);
        while !self.usable.fits(new_dimensions)
            invariant
                pre == *old(self),
                pre.wf(),
                self.wf(),
                self.spec_ctx() == pre.spec_ctx(),
                n == pre.space_count(),
                size == generalize(layout.dimensions, pre.spec_ctx().axes),
                size.valid_extent(),
                new_dimensions == combined(self.spec_dimensions(), size),
                pre.spec_active() <= self.spec_active() < n,
                self.spec_active() == pre.spec_active() ==> *self == pre,
                self.spec_active() > pre.spec_active() ==> {
                    &&& !pre.fits_now(size)
                    &&& self.fresh_in(self.spec_active())
                    &&& self.spec_include_empty()
                    &&& pre.skipped_to(self, self.spec_active())
                    &&& forall|m: int|
                        pre.spec_active() < m < self.spec_active() ==> !#[trigger] pre.fits_fresh(
                            m,
                            size,
                        )
                },
            decreases n - self.spec_active(),
        {
            if self.active_space == n - 1 {
                proof {
                    assert forall|k: int|
                        pre.spec_active() < k < pre.space_count() implies !#[trigger] pre.fits_fresh(
                        k,
                        size,
                    ) by {
                        if k == self.spec_active() {
                            assert(self.usable_of(k) == pre.usable_of(k));
                        }
                    }
                    assert(!pre.fits_now(size));
                    assert(!(exists|k: int|
                        pre.spec_active() < k < pre.space_count() && #[trigger] pre.fits_fresh(k, size)));
                    assert(self.spec_active() == pre.space_count() - 1);
                    assert(self.wf());
                    assert(pre.spec_active() < pre.space_count() - 1 ==> pre.skipped_to(self, pre.space_count() - 1));
                    assert(pre.added(self, layout, false));
                }
                return Err(LayoutError::NotEnoughSpace("box is too large for stack spaces"));
            }
            let ghost before = *self;
            let ghost old_fit = !fits_into(before.spec_usable(), new_dimensions);
            self.finish_layout();
            self.start_new_space(true);
            new_dimensions = self.size_with(size);
            proof {
                let k = self.spec_active();
                assert(k == before.spec_active() + 1);
                if before.spec_active() == pre.spec_active() {
                    assert(self.spec_layouts().subrange(0, pre.spec_layouts().len() as int)
                        =~= pre.spec_layouts());
                } else {
                    let n0 = pre.spec_layouts().len();
                    let a = pre.spec_active();
                    assert(before.usable_of(before.spec_active()) == pre.usable_of(before.spec_active()));
                    assert(!pre.fits_fresh(before.spec_active(), size));
                    assert(before.stacked_actions(before.spec_boxes()) =~= Seq::<LayoutAction>::empty());
                    assert(pre.is_empty_finished(before.spec_active(), self.spec_layouts().last()));
                    assert(self.spec_layouts().subrange(0, n0 as int) =~= pre.spec_layouts()) by {
                        assert(self.spec_layouts().drop_last() == before.spec_layouts());
                        assert(before.spec_layouts().subrange(0, n0 as int) == pre.spec_layouts());
                    }
                    assert forall|m: int| 1 <= m < k - a implies #[trigger] pre.is_empty_finished(
                        a + m,
                        self.spec_layouts()[n0 + m],
                    ) by {
                        if m < k - a - 1 {
                            assert(self.spec_layouts()[n0 + m] == before.spec_layouts()[n0 + m]);
                        }
                    }
                    assert(self.spec_layouts()[n0 as int] == before.spec_layouts()[n0 as int]);
                }
            }
        }
        let offset = self.dimensions.y;
        let anchor = self.ctx.axes.anchor(size);
        proof {
            crate::layout::lemma_anchor_within_line(pre.spec_ctx().axes.primary, size.x as int);
            crate::layout::lemma_anchor_within_line(pre.spec_ctx().axes.secondary, size.y as int);
            if self.spec_active() > pre.spec_active() {
                let k = self.spec_active();
                assert(self.usable_of(k) == pre.usable_of(k));
            }
        }
        let ghost mid = *self;
        let ghost placed_layout = layout;
        self.boxes.push((offset, anchor, layout));
        self.dimensions = new_dimensions;
        proof {
            assert(fits_into(mid.spec_usable(), new_dimensions));
            assert forall|i: int| 0 <= i < self.spec_boxes().len() implies {
                let b = #[trigger] self.spec_boxes()[i];
                &&& valid_length(b.0 as int)
                &&& b.1.valid_extent()
                &&& b.2.placeable()
            } by {
                if i < mid.spec_boxes().len() {
                    assert(self.spec_boxes()[i] == mid.spec_boxes()[i]);
                }
            }
            assert(self.wf());
            if self.spec_active() > pre.spec_active() {
                let k = self.spec_active();
                assert(self.spec_boxes() =~= seq![(0i64, anchor, placed_layout)]);
                assert(pre.fits_fresh(k, size));
                assert(pre.added(self, placed_layout, true));
            } else {
                assert(pre.fits_now(size));
                assert(pre.added(self, placed_layout, true));
            }
        }
        Ok(())
    }

    /// Add every sublayout of `layouts`, in order, stopping at the first
    /// that fits into no remaining space.
    pub fn add_many(&mut self, layouts: MultiLayout) -> (r: LayoutResult<()>)
        requires
            old(self).wf(),
            forall|i: int| 0 <= i < layouts.layouts@.len() ==> (#[trigger] layouts.layouts@[i]).placeable(),
        ensures
            final(self).wf(),
            r is Ok ==> exists|states: Seq<StackLayouter>| #[trigger] added_in_turn(states, layouts.layouts@, *old(self), *final(self)),
            r is Err ==> exists|states: Seq<StackLayouter>, i: int| 0 <= i < layouts.layouts@.len()
                && #[trigger] added_in_turn(states, layouts.layouts@.take(i), *old(self), states.last())
                && states.last().added(final(self), layouts.layouts@[i], false),
            r is Err ==> r == Err::<(), LayoutError>(
                LayoutError::NotEnoughSpace("box is too large for stack spaces"),
            ),
    {
        let ghost pre = *self;
        let ghost items = layouts.layouts@;
        let ghost mut states: Seq<StackLayouter> = seq![*self];
        let mut rest = layouts.layouts;
        let ghost mut i: int = 0;
        proof {
            assert(items.take(0) =~= Seq::<Layout>::empty());
        }
        while rest.len() > 0
            invariant
                pre == *old(self),
                items == layouts.layouts@,
                self.wf(),
                0 <= i <= items.len(),
                rest@ == items.skip(i),
                forall|j: int| 0 <= j < items.len() ==> (#[trigger] items[j]).placeable(),
                added_in_turn(states, items.take(i), pre, *self),
            decreases rest@.len(),
        {
            let layout = rest.remove(0);
            assert(layout == items[i]);
            assert(rest@ =~= items.skip(i + 1));
            let ghost before = *self;
            let res = self.add(layout);
            if res.is_err() {
                proof {
                    assert(states.last() == before);
                    assert(added_in_turn(states, items.take(i), pre, states.last()));
                    assert(states.last().added(self, items[i], false));
                }
                return res;
            }
            proof {
                let next = states.push(*self);
                assert(items.take(i + 1).drop_last() =~= items.take(i));
                assert(added_in_turn(next, items.take(i + 1), pre, *self)) by {
                    assert forall|j: int| 0 <= j < next.len() - 1 implies #[trigger] next[j].added(&next[j + 1], items.take(i + 1)[j], true) by {
                        if j < next.len() - 2 {
                            assert(next[j] == states[j] && next[j + 1] == states[j + 1]);
                            assert(items.take(i + 1)[j] == items.take(i)[j]);
                        }
                    }
                }
                states = next;
                i = i + 1;
            }
        }
        proof {
            assert(items.take(i) =~= items);
        }
        Ok(())
    }

    /// Add a gap of `space` on the secondary axis after the last box. Where
    /// the gap does not fit, the active space is finished and the next one
    /// started instead, without forcing its box to be emitted.
    pub fn add_space(&mut self, space: Size) -> (r: LayoutResult<()>)
        requires
            old(self).wf(),
            valid_length(space as int),
        ensures
            r is Ok,
            final(self).wf(),
            final(self).spec_ctx() == old(self).spec_ctx(),
            old(self).spec_dimensions().y + space > old(self).spec_usable().y ==> {
                &&& final(self).spec_layouts().len() == old(self).spec_layouts().len() + 1
                &&& final(self).spec_layouts().drop_last() == old(self).spec_layouts()
                &&& old(self).is_finished(final(self).spec_layouts().last())
                &&& final(self).fresh_in(
                    if old(self).spec_active() + 1 < old(self).space_count() {
                        old(self).spec_active() + 1
                    } else {
                        old(self).spec_active()
                    },
                )
                &&& !final(self).spec_include_empty()
            },
            old(self).spec_dimensions().y + space <= old(self).spec_usable().y ==> {
                &&& final(self).spec_layouts() == old(self).spec_layouts()
                &&& final(self).spec_boxes() == old(self).spec_boxes()
                &&& final(self).spec_active() == old(self).spec_active()
                &&& final(self).spec_usable() == old(self).spec_usable()
                &&& final(self).spec_dimensions() == (Size2D {
                    x: old(self).spec_dimensions().x,
                    y: (old(self).spec_dimensions().y + space) as i64,
                })
                &&& final(self).spec_include_empty() == old(self).spec_include_empty()
            },
    {
        if self.dimensions.y + space > self.usable.y {
            let _ = self.finish_layout();
            self.start_new_space(false);
        } else {
            let ghost before = *self;
            self.dimensions.y = self.dimensions.y + space;
            assert(forall|i: int|
                0 <= i < self.spec_boxes().len() ==> before.spec_boxes()[i]
                    == #[trigger] self.spec_boxes()[i]);
        }
        Ok(())
    }

    /// Finish the layouting and hand out every finished box.
    ///
    /// The box of the active space is finished first where it holds boxes or
    /// is to be emitted even when empty. The layouter keeps no finished boxes
    /// afterwards.
    pub fn finish(&mut self) -> (r: LayoutResult<MultiLayout>)
        requires
            old(self).wf(),
        ensures
            final(self).wf(),
            final(self).spec_layouts().len() == 0,
            final(self).spec_boxes().len() == 0,
            final(self).spec_ctx() == old(self).spec_ctx(),
            final(self).spec_active() == old(self).spec_active(),
            final(self).spec_usable() == old(self).spec_usable(),
            final(self).spec_dimensions() == old(self).spec_dimensions(),
            final(self).spec_include_empty() == old(self).spec_include_empty(),
            r is Ok,
            old(self).spec_include_empty() || old(self).spec_boxes().len() > 0 ==> {
                let out = r->Ok_0.layouts@;
                &&& out.len() == old(self).spec_layouts().len() + 1
                &&& out.drop_last() == old(self).spec_layouts()
                &&& old(self).is_finished(out.last())
            },
            !old(self).spec_include_empty() && old(self).spec_boxes().len() == 0
                ==> r->Ok_0.layouts@ == old(self).spec_layouts(),
            !old(self).spec_include_empty() && old(self).spec_boxes().len() == 0
                && old(self).spec_layouts().len() == 0 ==> r->Ok_0.layouts@.len() == 0,
    {
        if self.include_empty || self.boxes.len() > 0 {
            let _ = self.finish_layout();
        }
        let mut out = MultiLayout::new();
        std::mem::swap(&mut out, &mut self.layouts);
        Ok(out)
    }

    /// The remaining space for new boxes in the active space, in physical
    /// coordinates.
    pub fn remaining(&self) -> (r: Size2D)
        requires
            self.wf(),
        ensures
            r == specialize(
                Size2D {
                    x: self.spec_usable().x,
                    y: (self.spec_usable().y - self.spec_dimensions().y) as i64,
                },
                self.spec_ctx().axes,
            ),
    {
        Size2D::new(self.usable.x, self.usable.y - self.dimensions.y).specialized(self.ctx.axes)
    }
}

/// A box that exactly fills the rest of the active space on the secondary
/// axis, and fits on the primary one, is accepted there: fitting is inclusive.
pub proof fn lemma_exact_fit_accepted(s: StackLayouter, new: StackLayouter, layout: Layout, ok: bool)
    requires
        s.wf(),
        s.added(&new, layout, ok),
        combined(s.spec_dimensions(), generalize(layout.dimensions, s.spec_ctx().axes)).x
            <= s.spec_usable().x,
        s.spec_dimensions().y + generalize(layout.dimensions, s.spec_ctx().axes).y
            == s.spec_usable().y,
    ensures
        ok,
        new.spec_active() == s.spec_active(),
        new.spec_layouts() == s.spec_layouts(),
        new.spec_boxes() == s.spec_boxes().push(
            (
                s.spec_dimensions().y,
                s.spec_ctx().axes.spec_anchor(generalize(layout.dimensions, s.spec_ctx().axes)),
                layout,
            ),
        ),
{
}

/// A box one unit longer than the rest of the active space on the secondary
/// axis is not placed there: it goes on to a later space, or is refused.
pub proof fn lemma_one_beyond_moves_on(s: StackLayouter, new: StackLayouter, layout: Layout, ok: bool)
    requires
        s.wf(),
        s.added(&new, layout, ok),
        s.spec_dimensions().y + generalize(layout.dimensions, s.spec_ctx().axes).y
            == s.spec_usable().y + 1,
    ensures
        (ok && new.spec_active() > s.spec_active()) || !ok,
{
}

/// A box whose generalized size exceeds the usable size of the active
/// space and of every later one is refused, also when there is one space only.
pub proof fn lemma_too_large_refused(s: StackLayouter, new: StackLayouter, layout: Layout, ok: bool)
    requires
        s.wf(),
        layout.placeable(),
        s.added(&new, layout, ok),
        forall|k: int|
            s.spec_active() <= k < s.space_count() ==> !fits_into(
                #[trigger] s.usable_of(k),
                generalize(layout.dimensions, s.spec_ctx().axes),
            ),
    ensures
        !ok,
{
    let size = generalize(layout.dimensions, s.spec_ctx().axes);
    assert(!fits_into(s.usable_of(s.spec_active()), size));
    assert(!s.fits_now(size));
    assert forall|k: int| s.spec_active() < k < s.space_count() implies !#[trigger] s.fits_fresh(
        k,
        size,
    ) by {
        assert(!fits_into(s.usable_of(k), size));
    }
}

/// A box of zero secondary extent that fits on the primary axis never moves
/// the stack on to another space, and still takes a place of its own: its
/// actions follow those of the boxes before it.
pub proof fn lemma_zero_extent_kept(s: StackLayouter, new: StackLayouter, layout: Layout, ok: bool)
    requires
        s.wf(),
        s.added(&new, layout, ok),
        fits_into(s.spec_usable(), s.spec_dimensions()),
        generalize(layout.dimensions, s.spec_ctx().axes).y == 0,
        generalize(layout.dimensions, s.spec_ctx().axes).x <= s.spec_usable().x,
    ensures
        ok,
        new.spec_active() == s.spec_active(),
        new.spec_boxes().len() == s.spec_boxes().len() + 1,
        new.spec_boxes().last().2 == layout,
        new.stacked_actions(new.spec_boxes()) == new.stacked_actions(s.spec_boxes()) + placed(
            new.box_position(new.spec_boxes().last().0, new.spec_boxes().last().1),
            layout,
        ),
{
    assert(new.spec_boxes().drop_last() =~= s.spec_boxes());
}

/// `states` runs from `first` to `last`, each state reached from the one
/// before by adding the next of `items` successfully.
pub open spec fn added_in_turn(
    states: Seq<StackLayouter>,
    items: Seq<Layout>,
    first: StackLayouter,
    last: StackLayouter,
) -> bool {
    &&& states.len() == items.len() + 1
    &&& states[0] == first
    &&& states.last() == last
    &&& forall|j: int| 0 <= j < items.len() ==> #[trigger] states[j].added(&states[j + 1], items[j], true)
}

/// The generalized size that a stack starts from in a space of the given
/// usable generalized size.
fn start_dimensions(usable: Size2D, axes: LayoutAxes) -> (r: Size2D)
    ensures
        r == start_dimensions_of(usable, axes),
{
    Size2D::with_x(
        match axes.primary.alignment {
            Alignment::Origin => 0,
            Alignment::Center | Alignment::End => usable.x,
        },
    )
}

/// Append to `actions` the actions that place `layout` at `position`.
pub fn place_layout(actions: &mut Vec<LayoutAction>, position: Size2D, layout: &Layout)
    requires
        layout.placeable(),
        position.within(8 * LENGTH_LIMIT),
    ensures
        final(actions)@ == old(actions)@ + placed(position, *layout),
{
    if layout.debug_render {
        actions.push(LayoutAction::DebugBox(position, layout.dimensions));
    }
    let ghost base = actions@;
    let mut j: usize = 0;
    while j < layout.actions.len()
        invariant
            layout.placeable(),
            position.within(8 * LENGTH_LIMIT),
            j <= layout.actions@.len(),
            actions@ == base + layout.actions@.take(j as int).map_values(
                |a: LayoutAction| a.spec_translated(position),
            ),
        decreases layout.actions@.len() - j,
    {
        let moved = layout.actions[j].translated(position);
        proof {
            assert(layout.actions@[j as int].within(COORD_LIMIT as int));
        }
        actions.push(moved);
        j = j + 1;
        proof {
            assert(layout.actions@.take(j as int) =~= layout.actions@.take(j - 1).push(
                layout.actions@[j - 1],
            ));
            assert(layout.actions@.take(j as int).map_values(
                |a: LayoutAction| a.spec_translated(position),
            ) =~= layout.actions@.take(j - 1).map_values(
                |a: LayoutAction| a.spec_translated(position),
            ).push(layout.actions@[j - 1].spec_translated(position)));
        }
    }
    proof {
        assert(layout.actions@.take(j as int) =~= layout.actions@);
    }
}

} // verus!
