use typst_layout::{
    AlignedAxis, Alignment, Axis, Layout, LayoutAction, LayoutAxes, LayoutError, LayoutSpace,
    LayoutSpaces, MultiLayout, Size, Size2D, SizeBox, StackContext, StackLayouter,
};

const PT: Size = 10000;

fn space(w: Size, h: Size) -> LayoutSpace {
    LayoutSpace {
        dimensions: Size2D::new(w * PT, h * PT),
        padding: SizeBox::zero(),
        shrink_to_fit: true,
    }
}

fn down_axes() -> LayoutAxes {
    LayoutAxes {
        primary: AlignedAxis::new(Axis::LeftToRight, Alignment::Origin),
        secondary: AlignedAxis::new(Axis::TopToBottom, Alignment::Origin),
    }
}

fn stack(spaces: Vec<LayoutSpace>, axes: LayoutAxes) -> StackLayouter {
    StackLayouter::new(StackContext { spaces: LayoutSpaces::from_vec(spaces), axes })
}

fn boxed(w: Size, h: Size) -> Layout {
    Layout::empty(w, h)
}

fn debug_positions(layout: &Layout) -> Vec<Size2D> {
    let mut out = vec![];
    for a in &layout.actions {
        if let LayoutAction::DebugBox(p, _) = a {
            out.push(*p);
        }
    }
    out
}

#[test]
fn anchor_is_start_middle_or_end() {
    let line: Size = 7 * PT + 1;
    let cases = [
        (Axis::LeftToRight, Alignment::Origin, 0),
        (Axis::LeftToRight, Alignment::Center, line / 2),
        (Axis::LeftToRight, Alignment::End, line),
        (Axis::RightToLeft, Alignment::Origin, line),
        (Axis::RightToLeft, Alignment::Center, line / 2),
        (Axis::RightToLeft, Alignment::End, 0),
        (Axis::TopToBottom, Alignment::End, line),
        (Axis::BottomToTop, Alignment::Origin, line),
    ];
    for (axis, alignment, expected) in cases {
        let a = AlignedAxis::new(axis, alignment);
        let r = a.anchor(line);
        assert_eq!(r, expected);
        assert!(0 <= r && r <= line);
    }
    assert_eq!(AlignedAxis::new(Axis::LeftToRight, Alignment::Center).anchor(0), 0);
}

#[test]
fn axis_directions() {
    assert!(Axis::LeftToRight.is_horizontal() && Axis::LeftToRight.is_positive());
    assert!(Axis::RightToLeft.is_horizontal() && !Axis::RightToLeft.is_positive());
    assert!(!Axis::TopToBottom.is_horizontal() && Axis::TopToBottom.is_positive());
    assert!(!Axis::BottomToTop.is_horizontal() && !Axis::BottomToTop.is_positive());
    let a = AlignedAxis::new(Axis::BottomToTop, Alignment::End);
    assert_eq!(a.pair(), (Axis::BottomToTop, Alignment::End));
}

#[test]
fn generalize_specialize_round_trip() {
    let vertical = LayoutAxes {
        primary: AlignedAxis::new(Axis::TopToBottom, Alignment::Origin),
        secondary: AlignedAxis::new(Axis::RightToLeft, Alignment::Center),
    };
    let size = Size2D::new(3 * PT, 7 * PT);
    let g = size.generalized(vertical);
    assert_eq!(g, Size2D::new(7 * PT, 3 * PT));
    assert_eq!(g.specialized(vertical), size);
    assert_eq!(size.generalized(down_axes()), size);
    assert_eq!(size.generalized(down_axes()).specialized(down_axes()), size);
}

#[test]
fn layout_axes_anchor_combines_both() {
    let axes = LayoutAxes {
        primary: AlignedAxis::new(Axis::LeftToRight, Alignment::Center),
        secondary: AlignedAxis::new(Axis::BottomToTop, Alignment::Origin),
    };
    assert_eq!(axes.anchor(Size2D::new(10, 20)), Size2D::new(5, 20));
}

#[test]
fn space_usable_and_start() {
    let s = LayoutSpace {
        dimensions: Size2D::new(100, 50),
        padding: SizeBox::new(1, 2, 3, 4),
        shrink_to_fit: false,
    };
    assert_eq!(s.usable(), Size2D::new(96, 44));
    assert_eq!(s.start(), Size2D::new(1, 2));
    let inner = s.usable_space(true);
    assert_eq!(inner.dimensions, Size2D::new(96, 44));
    assert_eq!(inner.padding, SizeBox::zero());
    assert!(inner.shrink_to_fit);
}

#[test]
fn spaces_hold_their_elements() {
    let spaces = LayoutSpaces::from_vec(vec![space(1, 2), space(3, 4)]);
    assert_eq!(spaces.len(), 2);
    assert_eq!(spaces.get(1), space(3, 4));
    let copy = spaces.clone();
    assert_eq!(copy.get(0), space(1, 2));
}

#[test]
fn multi_layout_basics() {
    let mut m = MultiLayout::new();
    assert!(m.is_empty());
    m.add(boxed(PT, 2 * PT));
    assert_eq!(m.count(), 1);
    assert!(!m.is_empty());
    let single = m.into_single();
    assert_eq!(single.dimensions, Size2D::new(PT, 2 * PT));
    assert!(single.actions.is_empty());
    assert!(single.debug_render);
}

#[test]
fn exact_fit_is_accepted() {
    let mut s = stack(vec![space(50, 10), space(50, 10)], down_axes());
    assert!(s.add(boxed(5 * PT, 4 * PT)).is_ok());
    assert!(s.add(boxed(5 * PT, 6 * PT)).is_ok());
    assert_eq!(s.remaining(), Size2D::new(50 * PT, 0));
    let done = s.finish().ok().unwrap();
    assert_eq!(done.count(), 1);
    assert_eq!(done.layouts[0].actions.len(), 2);
}

#[test]
fn one_unit_beyond_moves_on() {
    let mut s = stack(vec![space(50, 10), space(50, 10)], down_axes());
    assert!(s.add(boxed(5 * PT, 4 * PT)).is_ok());
    assert!(s.add(boxed(5 * PT, 6 * PT + 1)).is_ok());
    let done = s.finish().ok().unwrap();
    assert_eq!(done.count(), 2);
    assert_eq!(done.layouts[0].actions.len(), 1);
    assert_eq!(done.layouts[1].actions.len(), 1);

    let mut single = stack(vec![space(50, 10)], down_axes());
    assert!(single.add(boxed(5 * PT, 4 * PT)).is_ok());
    assert!(matches!(
        single.add(boxed(5 * PT, 6 * PT + 1)),
        Err(LayoutError::NotEnoughSpace(_))
    ));
}

#[test]
fn finish_without_pending_adds_nothing() {
    let mut s = stack(vec![space(50, 10)], down_axes());
    assert!(s.add(boxed(5 * PT, 6 * PT)).is_ok());
    assert!(s.add_space(5 * PT).is_ok());
    let first = s.finish().ok().unwrap();
    assert_eq!(first.count(), 1);
    let second = s.finish().ok().unwrap();
    assert!(second.is_empty());
}

#[test]
fn overflow_packs_greedily() {
    let mut s = stack(vec![space(100, 10), space(100, 20)], down_axes());
    for _ in 0..3 {
        assert!(s.add(boxed(5 * PT, 6 * PT)).is_ok());
    }
    let done = s.finish().ok().unwrap();
    assert_eq!(done.count(), 2);
    assert_eq!(debug_positions(&done.layouts[0]), vec![Size2D::new(0, 0)]);
    assert_eq!(
        debug_positions(&done.layouts[1]),
        vec![Size2D::new(0, 0), Size2D::new(0, 6 * PT)]
    );
    assert_eq!(done.layouts[0].dimensions, Size2D::new(5 * PT, 6 * PT));
    assert_eq!(done.layouts[1].dimensions, Size2D::new(5 * PT, 12 * PT));
}

#[test]
fn too_large_box_is_refused() {
    let mut s = stack(vec![space(10, 10)], down_axes());
    let r = s.add(boxed(5 * PT, 11 * PT));
    assert!(matches!(r, Err(LayoutError::NotEnoughSpace(_))));

    let mut wide = stack(vec![space(10, 10), space(10, 20)], down_axes());
    assert!(matches!(wide.add(boxed(11 * PT, PT)), Err(LayoutError::NotEnoughSpace(_))));
}

#[test]
fn zero_extent_boxes_keep_their_place() {
    let mut s = stack(vec![space(10, 10)], down_axes());
    assert!(s.add(boxed(5 * PT, 0)).is_ok());
    assert!(s.add(boxed(5 * PT, 0)).is_ok());
    assert!(s.add(boxed(5 * PT, 10 * PT)).is_ok());
    assert!(s.add(boxed(0, 0)).is_ok());
    let done = s.finish().ok().unwrap();
    assert_eq!(done.count(), 1);
    assert_eq!(
        debug_positions(&done.layouts[0]),
        vec![Size2D::new(0, 0), Size2D::new(0, 0), Size2D::new(0, 0), Size2D::new(0, 10 * PT)]
    );
}

#[test]
fn shrunk_size_stays_generalized() {
    let axes = LayoutAxes {
        primary: AlignedAxis::new(Axis::TopToBottom, Alignment::Origin),
        secondary: AlignedAxis::new(Axis::LeftToRight, Alignment::Origin),
    };
    let mut s = stack(vec![space(30, 20)], axes);
    assert!(s.add(boxed(4 * PT, 5 * PT)).is_ok());
    assert!(s.add(boxed(3 * PT, 2 * PT)).is_ok());
    let done = s.finish().ok().unwrap();
    assert_eq!(done.layouts[0].dimensions, Size2D::new(5 * PT, 7 * PT));
}

#[test]
fn finish_twice_keeps_the_context() {
    let mut s = stack(vec![space(50, 10)], down_axes());
    assert!(s.add(boxed(5 * PT, 6 * PT)).is_ok());
    assert!(s.add_space(5 * PT).is_ok());
    let copy = s.clone();
    assert_eq!(s.finish().ok().unwrap().count(), 1);
    assert!(s.finish().ok().unwrap().is_empty());
    assert!(s.finish().ok().unwrap().is_empty());
    assert_eq!(s.ctx().axes, copy.ctx().axes);
    assert_eq!(s.ctx().spaces.get(0), space(50, 10));
}

#[test]
fn add_many_reports_not_enough_space() {
    let mut m = MultiLayout::new();
    m.add(boxed(PT, 40 * PT));
    let mut s = stack(vec![space(10, 10)], down_axes());
    match s.add_many(m) {
        Err(LayoutError::NotEnoughSpace(msg)) => {
            assert_eq!(msg, "box is too large for stack spaces")
        }
        _ => panic!("expected not enough space"),
    }
}

#[test]
fn backward_secondary_axis_and_centering() {
    let axes = LayoutAxes {
        primary: AlignedAxis::new(Axis::LeftToRight, Alignment::Center),
        secondary: AlignedAxis::new(Axis::BottomToTop, Alignment::Origin),
    };
    let mut s = stack(vec![space(100, 50)], axes);
    assert!(s.add(boxed(10 * PT, 5 * PT)).is_ok());
    assert!(s.add(boxed(10 * PT, 5 * PT)).is_ok());
    let done = s.finish().ok().unwrap();
    assert_eq!(
        debug_positions(&done.layouts[0]),
        vec![Size2D::new(45 * PT, 45 * PT), Size2D::new(45 * PT, 40 * PT)]
    );
    assert_eq!(done.layouts[0].dimensions, Size2D::new(100 * PT, 10 * PT));
}

#[test]
fn padding_offsets_positions_and_size() {
    let padded = LayoutSpace {
        dimensions: Size2D::new(20 * PT, 20 * PT),
        padding: SizeBox::new(PT, 2 * PT, 3 * PT, 4 * PT),
        shrink_to_fit: true,
    };
    let mut s = stack(vec![padded], down_axes());
    assert!(s.add(boxed(5 * PT, 5 * PT)).is_ok());
    let done = s.finish().ok().unwrap();
    assert_eq!(debug_positions(&done.layouts[0]), vec![Size2D::new(PT, 2 * PT)]);
    assert_eq!(done.layouts[0].dimensions, Size2D::new(5 * PT, 5 * PT));

    let fixed = LayoutSpace { shrink_to_fit: false, ..padded };
    let mut f = stack(vec![fixed], down_axes());
    assert!(f.add(boxed(5 * PT, 5 * PT)).is_ok());
    let done = f.finish().ok().unwrap();
    assert_eq!(done.layouts[0].dimensions, Size2D::new(20 * PT, 20 * PT));
}

#[test]
fn nested_actions_are_translated() {
    let mut inner = boxed(4 * PT, 4 * PT);
    inner.actions.push(LayoutAction::MoveAbsolute(Size2D::new(PT, PT)));
    inner.actions.push(LayoutAction::SetFont(3, 12 * PT));
    let mut s = stack(vec![space(50, 50)], down_axes());
    assert!(s.add(boxed(2 * PT, 3 * PT)).is_ok());
    assert!(s.add(inner).is_ok());
    let done = s.finish().ok().unwrap();
    let actions = &done.layouts[0].actions;
    assert_eq!(actions.len(), 4);
    assert_eq!(actions[2], LayoutAction::MoveAbsolute(Size2D::new(PT, 4 * PT)));
    assert_eq!(actions[3], LayoutAction::SetFont(3, 12 * PT));
}

#[test]
fn add_space_moves_the_cursor_or_the_space() {
    let mut s = stack(vec![space(50, 10), space(50, 10)], down_axes());
    assert!(s.add(boxed(5 * PT, 2 * PT)).is_ok());
    assert!(s.add_space(3 * PT).is_ok());
    assert_eq!(s.remaining(), Size2D::new(50 * PT, 5 * PT));
    assert!(s.add(boxed(5 * PT, PT)).is_ok());
    let done = s.finish().ok().unwrap();
    assert_eq!(
        debug_positions(&done.layouts[0]),
        vec![Size2D::new(0, 0), Size2D::new(0, 5 * PT)]
    );

    let mut t = stack(vec![space(50, 10), space(50, 10)], down_axes());
    assert!(t.add(boxed(5 * PT, 8 * PT)).is_ok());
    assert!(t.add_space(3 * PT).is_ok());
    assert_eq!(t.remaining(), Size2D::new(50 * PT, 10 * PT));
    let done = t.finish().ok().unwrap();
    assert_eq!(done.count(), 1);
}

#[test]
fn add_many_stops_at_first_refusal() {
    let mut m = MultiLayout::new();
    m.add(boxed(PT, 4 * PT));
    m.add(boxed(PT, 4 * PT));
    m.add(boxed(PT, 40 * PT));
    m.add(boxed(PT, 1 * PT));
    let mut s = stack(vec![space(10, 10)], down_axes());
    assert!(matches!(s.add_many(m), Err(LayoutError::NotEnoughSpace(_))));
    let done = s.finish().ok().unwrap();
    assert_eq!(done.layouts[0].actions.len(), 2);
}

#[test]
fn remaining_is_physical() {
    let axes = LayoutAxes {
        primary: AlignedAxis::new(Axis::TopToBottom, Alignment::Origin),
        secondary: AlignedAxis::new(Axis::LeftToRight, Alignment::Origin),
    };
    let mut s = stack(vec![space(30, 20)], axes);
    assert!(s.add(boxed(4 * PT, 5 * PT)).is_ok());
    assert_eq!(s.remaining(), Size2D::new(26 * PT, 20 * PT));
    assert_eq!(s.ctx().axes, axes);
    assert_eq!(s.ctx().spaces.len(), 1);
}

#[test]
fn serialize_layout_exactly() {
    let mut l = Layout::empty(15000, 20000);
    l.actions.push(LayoutAction::MoveAbsolute(Size2D::new(1234, -5)));
    l.actions.push(LayoutAction::SetFont(2, 110000));
    l.actions.push(LayoutAction::DebugBox(Size2D::new(0, 123456789), Size2D::new(10, 0)));
    let mut a = vec![];
    l.serialize(&mut a);
    let text = String::from_utf8(a.clone()).unwrap();
    assert_eq!(
        text,
        "1.5000 2.0000\n3\nm 0.1234 -0.0005\nf 2 11.0000\nb 0.0000 12345.6789 0.0010 0.0000\n"
    );
    let mut b = vec![];
    l.serialize(&mut b);
    assert_eq!(a, b);
}

#[test]
fn serialize_multi_layout() {
    let mut m = MultiLayout::new();
    m.add(Layout::empty(10000, 0));
    m.add(Layout::empty(0, -25000));
    let mut out = vec![];
    m.serialize(&mut out);
    assert_eq!(
        String::from_utf8(out).unwrap(),
        "2\n1.0000 0.0000\n0\n0.0000 -2.5000\n0\n"
    );
}
