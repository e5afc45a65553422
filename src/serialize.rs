//! The textual dump of finished layouts: sizes to four decimal places, an
//! action count, then one line per action.

use vstd::prelude::*;
use crate::actions::LayoutAction;
use crate::geom::Size2D;
use crate::layout::{Layout, MultiLayout};

verus! {

/// The decimal digits of `n`, without leading zeros.
pub open spec fn decimal(n: nat) -> Seq<u8>
    decreases n,
{
    if n < 10 {
        seq![(48 + n) as u8]
    } else {
        decimal(n / 10).push((48 + n % 10) as u8)
    }
}

/// The absolute value of `v`.
pub open spec fn magnitude(v: int) -> nat {
    if v < 0 {
        (-v) as nat
    } else {
        v as nat
    }
}

/// A length in ten-thousandths of a point, written in points with exactly
/// four decimal digits.
pub open spec fn fixed4(v: int) -> Seq<u8> {
    let m = magnitude(v);
    let f = m % 10000;
    let sign = if v < 0 {
        seq![45u8]
    } else {
        Seq::<u8>::empty()
    };
    sign + decimal(m / 10000) + seq![
        46u8,
        (48 + f / 1000) as u8,
        (48 + f / 100 % 10) as u8,
        (48 + f / 10 % 10) as u8,
        (48 + f % 10) as u8,
    ]
}

/// The two components of a size, separated by a space.
pub open spec fn pair_text(s: Size2D) -> Seq<u8> {
    fixed4(s.x as int) + seq![32u8] + fixed4(s.y as int)
}

/// One action as text: `m x y`, `f index size` or `b x y width height`.
pub open spec fn action_text(a: LayoutAction) -> Seq<u8> {
    match a {
        LayoutAction::MoveAbsolute(p) => seq![109u8, 32u8] + pair_text(p),
        LayoutAction::SetFont(i, s) => seq![102u8, 32u8] + decimal(i as nat) + seq![32u8] + fixed4(
            s as int,
        ),
        LayoutAction::DebugBox(p, s) => seq![98u8, 32u8] + pair_text(p) + seq![32u8] + pair_text(s),
    }
}

/// The actions of `actions`, one per line.
pub open spec fn actions_text(actions: Seq<LayoutAction>) -> Seq<u8>
    decreases actions.len(),
{
    if actions.len() == 0 {
        Seq::empty()
    } else {
        actions_text(actions.drop_last()) + action_text(actions.last()) + seq![10u8]
    }
}

/// A layout as text: its size, the number of actions, then the actions.
pub open spec fn layout_text(l: Layout) -> Seq<u8> {
    pair_text(l.dimensions) + seq![10u8] + decimal(l.actions@.len()) + seq![10u8] + actions_text(
        l.actions@,
    )
}

/// The layouts of `layouts`, one after another.
pub open spec fn layouts_text(layouts: Seq<Layout>) -> Seq<u8>
    decreases layouts.len(),
{
    if layouts.len() == 0 {
        Seq::empty()
    } else {
        layouts_text(layouts.drop_last()) + layout_text(layouts.last())
    }
}

/// A multi-layout as text: the number of layouts, then each layout.
pub open spec fn multi_layout_text(m: MultiLayout) -> Seq<u8> {
    decimal(m.layouts@.len()) + seq![10u8] + layouts_text(m.layouts@)
}

/// Append the decimal digits of `n`.
fn write_decimal(out: &mut Vec<u8>, n: u64)
    ensures
        final(out)@ == old(out)@ + decimal(n as nat),
    decreases n,
{
    if n >= 10 {
        write_decimal(out, n / 10);
    }
    out.push((48 + n % 10) as u8);
    proof {
        if n < 10 {
            assert(old(out)@ + decimal(n as nat) =~= old(out)@.push((48 + n) as u8));
        } else {
            assert(old(out)@ + decimal(n as nat) =~= (old(out)@ + decimal((n / 10) as nat)).push(
                (48 + n % 10) as u8,
            ));
        }
    }
}

/// Append a length in points with four decimal digits.
fn write_fixed4(out: &mut Vec<u8>, v: i64)
    ensures
        final(out)@ == old(out)@ + fixed4(v as int),
{
    if v < 0 {
        out.push(45u8);
    }
    let m: u64 = if v < 0 { (0i128 - v as i128) as u64 } else { v as u64 };
    assert(m == magnitude(v as int));
    write_decimal(out, m / 10000);
    let f: u64 = m % 10000;
    out.push(46u8);
    out.push((48 + f / 1000) as u8);
    out.push((48 + f / 100 % 10) as u8);
    out.push((48 + f / 10 % 10) as u8);
    out.push((48 + f % 10) as u8);
    assert(final(out)@ =~= old(out)@ + fixed4(v as int));
}

/// Append the two components of a size.
fn write_pair(out: &mut Vec<u8>, s: Size2D)
    ensures
        final(out)@ == old(out)@ + pair_text(s),
{
    write_fixed4(out, s.x);
    out.push(32u8);
    write_fixed4(out, s.y);
    assert(final(out)@ =~= old(out)@ + pair_text(s));
}

impl LayoutAction {
    /// Append this action as one line of text, without the line break.
    pub fn serialize(&self, out: &mut Vec<u8>)
        ensures
            final(out)@ == old(out)@ + action_text(*self),
    {
        match *self {
            LayoutAction::MoveAbsolute(p) => {
                out.push(109u8);
                out.push(32u8);
                write_pair(out, p);
            },
            LayoutAction::SetFont(i, s) => {
                out.push(102u8);
                out.push(32u8);
                write_decimal(out, i as u64);
                out.push(32u8);
                write_fixed4(out, s);
            },
            LayoutAction::DebugBox(p, s) => {
                out.push(98u8);
                out.push(32u8);
                write_pair(out, p);
                out.push(32u8);
                write_pair(out, s);
            },
        }
        assert(final(out)@ =~= old(out)@ + action_text(*self));
    }
}

impl Layout {
    /// Append this layout as text: its size, the number of its actions and
    /// one line per action.
    pub fn serialize(&self, f: &mut Vec<u8>)
        ensures
            final(f)@ == old(f)@ + layout_text(*self),
    {
        write_pair(f, self.dimensions);
        f.push(10u8);
        write_decimal(f, self.actions.len() as u64);
        f.push(10u8);
        let ghost head = f@;
        let mut i: usize = 0;
        while i < self.actions.len()
            invariant
                i <= self.actions@.len(),
                f@ == head + actions_text(self.actions@.take(i as int)),
            decreases self.actions@.len() - i,
        {
            self.actions[i].serialize(f);
            f.push(10u8);
            i = i + 1;
            proof {
                assert(self.actions@.take(i as int).drop_last() =~= self.actions@.take(i - 1));
                assert(f@ =~= head + actions_text(self.actions@.take(i as int)));
            }
        }
        proof {
            assert(self.actions@.take(i as int) =~= self.actions@);
            assert(f@ =~= old(f)@ + layout_text(*self));
        }
    }
}

impl MultiLayout {
    /// Append this collection as text: the number of layouts, then each one.
    pub fn serialize(&self, f: &mut Vec<u8>)
        ensures
            final(f)@ == old(f)@ + multi_layout_text(*self),
    {
        write_decimal(f, self.layouts.len() as u64);
        f.push(10u8);
        let ghost head = f@;
        let mut i: usize = 0;
        while i < self.layouts.len()
            invariant
                i <= self.layouts@.len(),
                f@ == head + layouts_text(self.layouts@.take(i as int)),
            decreases self.layouts@.len() - i,
        {
            self.layouts[i].serialize(f);
            i = i + 1;
            proof {
                assert(self.layouts@.take(i as int).drop_last() =~= self.layouts@.take(i - 1));
                assert(f@ =~= head + layouts_text(self.layouts@.take(i as int)));
            }
        }
        proof {
            assert(self.layouts@.take(i as int) =~= self.layouts@);
            assert(f@ =~= old(f)@ + multi_layout_text(*self));
        }
    }
}

/// Serializing depends on nothing but the layout's size and actions: equal
/// layouts give the same bytes. Each length ends in a point and exactly four
/// decimal digits.
pub proof fn lemma_serialize_deterministic(a: Layout, b: Layout, v: int)
    requires
        a.dimensions == b.dimensions,
        a.actions@ == b.actions@,
    ensures
        layout_text(a) == layout_text(b),
        fixed4(v).len() >= 6,
        fixed4(v)[fixed4(v).len() - 5] == 46u8,
        forall|i: int|
            fixed4(v).len() - 4 <= i < fixed4(v).len() ==> 48u8 <= #[trigger] fixed4(v)[i] <= 57u8,
{
    lemma_decimal_nonempty(magnitude(v) / 10000);
}

/// Every number has at least one digit.
proof fn lemma_decimal_nonempty(n: nat)
    ensures
        decimal(n).len() >= 1,
    decreases n,
{
    if n >= 10 {
        lemma_decimal_nonempty(n / 10);
    }
}

} // verus!
