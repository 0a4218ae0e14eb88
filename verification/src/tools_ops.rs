//! What Layout Tools decides around rearranging a live tab: whether there is
//! anything to do, how to undo a failed rebuild, and what to tell the user.
//!
//! The caller makes the Herdr calls. Panes are parked in a holding tab and
//! moved back in plan order, so the processes inside them keep running.
use vstd::prelude::*;

use crate::arrange::Arrangement;
use crate::layout::{emit, first_leaf, leaves, string_views, Plan, Shape, Tree};
use crate::model::Outcome;
use crate::text::{decimal, owned, push_decimal, push_str, same_text};

verus! {

/// The toast after Equalize: a tab without splits has nothing to level.
pub fn equalize_outcome(has_splits: bool, panes: usize) -> (r: Outcome)
    ensures
        !has_splits ==> r.message@ == "This tab has only one pane."@ && r.detail is None,
        has_splits ==> r.message@ == "Equalized the layout"@
            && (r.detail matches Some(d) && d@ == decimal(panes as nat) + " panes"@),
{
    if !has_splits {
        return Outcome::new("This tab has only one pane.");
    }
    let mut detail = crate::text::decimal_string(panes);
    push_str(&mut detail, " panes");
    Outcome::new("Equalized the layout").with_detail(detail.as_str())
}

pub open spec fn title_of(a: Arrangement) -> Seq<char> {
    crate::tools_ui::arrangement_title(a)
}

/// The toast when a tab has too few panes for an arrangement.
pub fn too_few_outcome(arrangement: Arrangement) -> (r: Outcome)
    ensures
        r.message@ == title_of(arrangement) + " needs at least two panes in the tab."@,
        r.detail is None,
{
    let mut msg = owned(arrangement.title());
    push_str(&mut msg, " needs at least two panes in the tab.");
    Outcome::new(msg.as_str())
}

/// The toast after an arrangement: its name, the pane count, and what it
/// looks like.
pub fn arranged_outcome(arrangement: Arrangement, count: usize) -> (r: Outcome)
    ensures
        r.message@ == "Arranged as "@ + title_of(arrangement),
        r.detail matches Some(d) && d@ == decimal(count as nat) + " panes · "@
            + crate::tools_ui::arrangement_note(arrangement, false),
{
    let mut msg = owned("Arranged as ");
    push_str(&mut msg, arrangement.title());
    let mut detail = crate::text::decimal_string(count);
    push_str(&mut detail, " panes · ");
    push_str(&mut detail, arrangement.description());
    Outcome::new(msg.as_str()).with_detail(detail.as_str())
}

/// Whether an `f32` bit pattern is a NaN: every exponent bit set and a
/// fraction that is not zero.
pub open spec fn is_nan_bits(x: u32) -> bool {
    x & 0x7f80_0000u32 == 0x7f80_0000u32 && x & 0x007f_ffffu32 != 0
}

/// Whether two `f32` bit patterns are equal as numbers, as `==` on `f32`
/// compares them: `+0.0` equals `-0.0`, and a NaN equals nothing, itself
/// included.
pub open spec fn same_share(a: u32, b: u32) -> bool {
    (a & 0x7fff_ffffu32 == 0 && b & 0x7fff_ffffu32 == 0) || (a == b && !is_nan_bits(a))
}

/// Whether two trees are the same, pane for pane and split for split, each
/// split's share compared as a number.
pub open spec fn same_tree(a: Tree, b: Tree) -> bool
    decreases a,
{
    match a {
        Tree::Leaf(x) => b matches Tree::Leaf(y) && x == y,
        Tree::Node(s1, r1, f1, g1) => match b {
            Tree::Node(s2, r2, f2, g2) => s1 == s2 && same_share(r1, r2) && same_tree(*f1, *f2)
                && same_tree(*g1, *g2),
            Tree::Leaf(_) => false,
        },
    }
}

fn share_equal(a: u32, b: u32) -> (r: bool)
    ensures
        r == same_share(a, b),
{
    ((a & 0x7fff_ffffu32) == 0 && (b & 0x7fff_ffffu32) == 0)
        || (a == b && !((a & 0x7f80_0000u32) == 0x7f80_0000u32 && (a & 0x007f_ffffu32) != 0))
}

/// Whether two trees are the same, pane for pane and split for split,
/// including each split's recorded share.
pub fn same_shape(a: &Shape, b: &Shape) -> (r: bool)
    ensures
        r == same_tree(a@, b@),
    decreases a,
{
    match (a, b) {
        (Shape::Pane(x), Shape::Pane(y)) => same_text(x.as_str(), y.as_str()),
        (
            Shape::Split { side: s1, ratio: r1, first: f1, second: g1 },
            Shape::Split { side: s2, ratio: r2, first: f2, second: g2 },
        ) => {
            if *s1 != *s2 || !share_equal(*r1, *r2) {
                return false;
            }
            if !same_shape(f1, f2) {
                return false;
            }
            same_shape(g1, g2)
        },
        _ => false,
    }
}

/// Whether the tab already has the shape a plan would build, so nothing
/// needs to move.
pub fn already_arranged(current: Option<&Shape>, plan: &Plan) -> (r: bool)
    ensures
        r == (current matches Some(c) && same_tree(c@, crate::layout::replay(Tree::Leaf(plan.anchor@), plan.steps()))),
{
    match current {
        Some(c) => {
            let target = plan.simulate();
            same_shape(c, &target)
        },
        None => false,
    }
}

/// The plan that rebuilds a tab as it was, for putting the panes back
/// after a failed rearrangement. A tab of fewer than two panes has none.
pub fn rebuild_plan_from(current: Option<&Shape>) -> (r: Option<Plan>)
    ensures
        match current {
            Some(c) => if leaves(c@).len() < 2 {
                r is None
            } else {
                r matches Some(p) && p.anchor@ == first_leaf(c@) && p.steps() == emit(c@)
            },
            None => r is None,
        },
{
    match current {
        Some(c) => {
            let ids = c.pane_ids();
            if ids.len() < 2 {
                proof {
                    assert(string_views(ids@).len() == ids@.len());
                }
                None
            } else {
                Some(Plan::from_shape(c))
            }
        },
        None => None,
    }
}

/// The error after a failed rebuild, saying whether the panes went back.
pub open spec fn restore_message_of(cause: Seq<char>, plan_known: bool, failed: bool) -> Seq<char> {
    if !plan_known {
        cause + "\nThe layout could not be restored automatically."@
    } else if failed {
        cause + "\nSome panes could not be put back. Check the tab list."@
    } else {
        cause + "\nThe previous layout was restored."@
    }
}

pub fn restore_message(cause: &str, plan_known: bool, failed: bool) -> (r: String)
    ensures
        r@ == restore_message_of(cause@, plan_known, failed),
{
    let mut out = owned(cause);
    if !plan_known {
        push_str(&mut out, "\nThe layout could not be restored automatically.");
    } else if failed {
        push_str(&mut out, "\nSome panes could not be put back. Check the tab list.");
    } else {
        push_str(&mut out, "\nThe previous layout was restored.");
    }
    out
}

/// Which panes leave for the holding tab: every one the plan places, in
/// plan order; the anchor stays so the tab stays open.
pub fn parked(plan: &Plan) -> (r: Vec<String>)
    ensures
        string_views(r@) == crate::layout::plan_panes(plan.anchor@, plan.steps()).drop_first(),
{
    let all = plan.pane_ids();
    let mut out: Vec<String> = Vec::new();
    let mut i: usize = 1;
    proof {
        assert(string_views(all@).len() >= 1) by {
            assert(crate::layout::plan_panes(plan.anchor@, plan.steps()).len() >= 1);
        }
        assert(string_views(out@) =~= string_views(all@).subrange(1, 1));
    }
    while i < all.len()
        invariant
            1 <= i <= all@.len(),
            string_views(all@) == crate::layout::plan_panes(plan.anchor@, plan.steps()),
            string_views(out@) == string_views(all@).subrange(1, i as int),
        decreases all@.len() - i,
    {
        let ghost before = out@;
        out.push(all[i].clone());
        proof {
            assert(string_views(out@) =~= string_views(before).push(all@[i as int]@));
            assert(string_views(all@).subrange(1, i + 1) =~= string_views(all@).subrange(1, i as int).push(all@[i as int]@));
        }
        i = i + 1;
    }
    proof {
        assert(string_views(all@).subrange(1, all@.len() as int) =~= string_views(all@).drop_first());
    }
    out
}

} // verus!
