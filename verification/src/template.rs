//! Saved layouts: the shape of a tab with the panes taken out.
//!
//! A template is the split tree, the direction of each split and how the
//! space is divided. Applying one puts a tab's current panes into its slots,
//! in their existing order. Pane ids are never stored: a saved layout
//! describes a shape, not the terminals that happened to be in it.
use vstd::prelude::*;

use crate::layout::{
    emit, first_leaf, replay, side_named, skeleton, signature_of, string_views, LayoutNode, Placement, Plan,
    Side, Step, Tree,
};
use crate::text::{owned, push_decimal, push_str};

verus! {

/// One node of a saved layout. `ratio` is the bits of the `f32` share the
/// first branch keeps.
#[derive(Debug, PartialEq)]
pub enum Template {
    /// A slot a pane goes into.
    Slot,
    Split { side: String, ratio: u32, first: Box<Template>, second: Box<Template> },
}

/// The saved layouts in the order the store keeps them: by name, each name
/// once.
pub open spec fn in_name_order(saved: Seq<(String, Template)>) -> bool {
    forall|i: int, j: int| 0 <= i < j < saved.len() ==> crate::gather::text_lt(saved[i].0@, saved[j].0@)
}

/// How many panes a layout holds.
pub open spec fn slots_of(t: Template) -> nat
    decreases t,
{
    match t {
        Template::Slot => 1,
        Template::Split { first, second, .. } => slots_of(*first) + slots_of(*second),
    }
}

/// The side a split puts its second branch on; Right when unreadable.
pub open spec fn split_side(side: Seq<char>) -> Side {
    match side_named(side) {
        Some(s) => s,
        None => Side::Right,
    }
}

pub open spec fn side_of(t: Template) -> Side {
    match t {
        Template::Slot => Side::Right,
        Template::Split { side, .. } => split_side(side@),
    }
}

/// The tree a layout makes with `panes` in its slots, left to right, top to
/// bottom.
pub open spec fn fill(t: Template, panes: Seq<Seq<char>>) -> Tree
    decreases t,
{
    match t {
        Template::Slot => Tree::Leaf(panes[0]),
        Template::Split { side, ratio, first, second } => {
            let k = slots_of(*first) as int;
            Tree::Node(
                split_side(side@),
                ratio,
                Box::new(fill(*first, panes.take(k))),
                Box::new(fill(*second, panes.skip(k))),
            )
        },
    }
}

/// The placements that fill a layout, parent first, so every anchor exists
/// by the time it is used and a branch's head spans its side.
pub open spec fn template_steps(t: Template, panes: Seq<Seq<char>>) -> Seq<Step>
    decreases t,
{
    match t {
        Template::Slot => seq![],
        Template::Split { side, first, second, .. } => {
            let k = slots_of(*first) as int;
            seq![Step { pane: panes[k], anchor: panes[0], side: split_side(side@) }]
                + template_steps(*first, panes.take(k))
                + template_steps(*second, panes.skip(k))
        },
    }
}

/// The shape an exported layout has, without its pane ids.
pub open spec fn template_of(n: LayoutNode) -> Template
    decreases n,
{
    match n {
        LayoutNode::Pane { .. } => Template::Slot,
        LayoutNode::Split { direction, ratio, first, second } => Template::Split {
            side: direction,
            ratio,
            first: Box::new(template_of(*first)),
            second: Box::new(template_of(*second)),
        },
    }
}

/// Every split, parent first, with the branch choices that reach it
/// (`false` = first) and its ratio.
pub open spec fn ratios_of(t: Template, path: Seq<bool>) -> Seq<(Seq<bool>, u32)>
    decreases t,
{
    match t {
        Template::Slot => seq![],
        Template::Split { ratio, first, second, .. } => seq![(path, ratio)]
            + ratios_of(*first, path.push(false))
            + ratios_of(*second, path.push(true)),
    }
}

pub open spec fn ratio_views(v: Seq<(Vec<bool>, u32)>) -> Seq<(Seq<bool>, u32)> {
    v.map_values(|p: (Vec<bool>, u32)| (p.0@, p.1))
}

pub open spec fn describe_of(t: Template) -> Seq<char> {
    let n = slots_of(t);
    let shape = match t {
        Template::Slot => "single"@,
        Template::Split { .. } => if side_of(t) == Side::Right || side_of(t) == Side::Left {
            "vertical split"@
        } else {
            "horizontal split"@
        },
    };
    crate::text::decimal(n) + (if n == 1 { " pane · "@ } else { " panes · "@ }) + shape
}

pub open spec fn mismatch_message(slots: nat, panes: nat) -> Seq<char> {
    "This layout holds "@ + crate::text::decimal(slots) + (if slots == 1 { " pane"@ } else { " panes"@ })
        + ", but the tab has "@ + crate::text::decimal(panes) + "."@
}

impl Template {
    /// Read the shape of a tab, discarding which panes were in it.
    pub fn from_layout(node: &LayoutNode) -> (r: Template)
        ensures
            r == template_of(*node),
        decreases node,
    {
        match node {
            LayoutNode::Pane { .. } => Template::Slot,
            LayoutNode::Split { direction, ratio, first, second } => Template::Split {
                side: direction.clone(),
                ratio: *ratio,
                first: Box::new(Template::from_layout(first)),
                second: Box::new(Template::from_layout(second)),
            },
        }
    }

    /// How many panes this layout holds.
    pub fn slots(&self) -> (r: usize)
        requires
            slots_of(*self) <= usize::MAX,
        ensures
            r == slots_of(*self),
        decreases self,
    {
        match self {
            Template::Slot => 1,
            Template::Split { first, second, .. } => first.slots() + second.slots(),
        }
    }

    /// The side the root split puts its second branch on.
    pub fn side(&self) -> (r: Side)
        ensures
            r == side_of(*self),
    {
        match self {
            Template::Slot => Side::Right,
            Template::Split { side, .. } => match Side::parse(side.as_str()) {
                Some(s) => s,
                None => Side::Right,
            },
        }
    }

    /// The build order for `panes`, filling slots left to right, top to
    /// bottom. A tab with a different number of panes is refused with both
    /// numbers.
    pub fn plan(&self, panes: &[String]) -> (r: Result<Plan, String>)
        requires
            slots_of(*self) <= usize::MAX,
        ensures
            panes@.len() != slots_of(*self) ==> r is Err && r->Err_0@ == mismatch_message(slots_of(*self), panes@.len()),
            panes@.len() == slots_of(*self) ==> (r matches Ok(p) && p.anchor@ == string_views(panes@)[0]
                && p.steps() == template_steps(*self, string_views(panes@))),
    {
        let slots = self.slots();
        if panes.len() != slots {
            let mut msg = owned("This layout holds ");
            push_decimal(&mut msg, slots);
            push_str(&mut msg, if slots == 1 { " pane" } else { " panes" });
            push_str(&mut msg, ", but the tab has ");
            push_decimal(&mut msg, panes.len());
            push_str(&mut msg, ".");
            return Err(msg);
        }
        proof {
            lemma_slots_positive(*self);
        }
        let mut placements: Vec<Placement> = Vec::new();
        self.emit(panes, &mut placements);
        proof {
            assert(crate::layout::steps_of(placements@) =~= template_steps(*self, string_views(panes@)));
        }
        Ok(Plan { anchor: panes[0].clone(), placements })
    }

    /// Walk parent-first, so every anchor exists by the time it is used.
    fn emit(&self, panes: &[String], out: &mut Vec<Placement>)
        requires
            panes@.len() == slots_of(*self),
        ensures
            crate::layout::steps_of(final(out)@) == crate::layout::steps_of(old(out)@)
                + template_steps(*self, string_views(panes@)),
        decreases self,
    {
        match self {
            Template::Slot => {
                proof {
                    assert(crate::layout::steps_of(out@) =~= crate::layout::steps_of(old(out)@)
                        + template_steps(*self, string_views(panes@)));
                }
            },
            Template::Split { side, first, second, .. } => {
                proof {
                    lemma_slots_positive(**first);
                    lemma_slots_positive(**second);
                }
                let total = panes.len();
                assert(slots_of(**first) <= total);
                let cut = first.slots();
                let left = slice_of(panes, 0, cut);
                let right = slice_of(panes, cut, panes.len());
                let s = match Side::parse(side.as_str()) {
                    Some(s) => s,
                    None => Side::Right,
                };
                out.push(Placement { pane_id: panes[cut].clone(), anchor: panes[0].clone(), side: s });
                let ghost p = string_views(panes@);
                proof {
                    assert(string_views(left@) =~= p.take(cut as int));
                    assert(string_views(right@) =~= p.skip(cut as int));
                }
                first.emit(left.as_slice(), out);
                second.emit(right.as_slice(), out);
                proof {
                    assert(crate::layout::steps_of(out@) =~= crate::layout::steps_of(old(out)@)
                        + template_steps(*self, p));
                }
            },
        }
    }

    /// Every split's path from the root, paired with its ratio, so the
    /// proportions can be restored after the panes are in place.
    pub fn ratios(&self) -> (r: Vec<(Vec<bool>, u32)>)
        ensures
            ratio_views(r@) == ratios_of(*self, seq![]),
    {
        let mut out: Vec<(Vec<bool>, u32)> = Vec::new();
        self.walk(Vec::new(), &mut out);
        proof {
            assert(ratio_views(out@) =~= Seq::<(Seq<bool>, u32)>::empty() + ratios_of(*self, seq![]));
        }
        out
    }

    fn walk(&self, path: Vec<bool>, out: &mut Vec<(Vec<bool>, u32)>)
        ensures
            ratio_views(final(out)@) == ratio_views(old(out)@) + ratios_of(*self, path@),
        decreases self,
    {
        match self {
            Template::Slot => {
                proof {
                    assert(ratio_views(out@) =~= ratio_views(old(out)@) + ratios_of(*self, path@));
                }
            },
            Template::Split { ratio, first, second, .. } => {
                let ghost prev = out@;
                out.push((copy_path(&path), *ratio));
                proof {
                    assert(ratio_views(out@) =~= ratio_views(prev).push((path@, *ratio)));
                }
                let mut left = copy_path(&path);
                left.push(false);
                let mut right = copy_path(&path);
                right.push(true);
                first.walk(left, out);
                second.walk(right, out);
                proof {
                    assert(ratio_views(out@) =~= ratio_views(old(out)@) + ratios_of(*self, path@));
                }
            },
        }
    }

    /// A compact description for the picker, e.g. `4 panes · vertical split`.
    pub fn describe(&self) -> (r: String)
        requires
            slots_of(*self) <= usize::MAX,
        ensures
            r@ == describe_of(*self),
    {
        let n = self.slots();
        let mut out = crate::text::decimal_string(n);
        push_str(&mut out, if n == 1 { " pane · " } else { " panes · " });
        match self {
            Template::Slot => push_str(&mut out, "single"),
            Template::Split { .. } => {
                let s = self.side();
                if s == Side::Right || s == Side::Left {
                    push_str(&mut out, "vertical split");
                } else {
                    push_str(&mut out, "horizontal split");
                }
            },
        }
        out
    }
}

fn copy_path(v: &Vec<bool>) -> (r: Vec<bool>)
    ensures
        r@ == v@,
{
    let mut out: Vec<bool> = Vec::new();
    let mut i: usize = 0;
    while i < v.len()
        invariant
            i <= v@.len(),
            out@ == v@.take(i as int),
        decreases v@.len() - i,
    {
        out.push(v[i]);
        proof {
            assert(out@ =~= v@.take(i + 1));
        }
        i = i + 1;
    }
    proof {
        assert(v@.take(v@.len() as int) =~= v@);
    }
    out
}

fn slice_of(v: &[String], from: usize, to: usize) -> (r: Vec<String>)
    requires
        from <= to <= v@.len(),
    ensures
        r@ == v@.subrange(from as int, to as int),
{
    let mut out: Vec<String> = Vec::new();
    let mut i: usize = from;
    while i < to
        invariant
            from <= i <= to,
            to <= v@.len(),
            out@ == v@.subrange(from as int, i as int),
        decreases to - i,
    {
        out.push(v[i].clone());
        proof {
            assert(out@ =~= v@.subrange(from as int, i + 1));
        }
        i = i + 1;
    }
    out
}

proof fn lemma_slots_positive(t: Template)
    ensures
        slots_of(t) >= 1,
    decreases t,
{
    if let Template::Split { first, second, .. } = t {
        lemma_slots_positive(*first);
        lemma_slots_positive(*second);
    }
}

proof fn lemma_fill_first(t: Template, p: Seq<Seq<char>>)
    requires
        p.len() == slots_of(t),
    ensures
        first_leaf(fill(t, p)) == p[0],
    decreases t,
{
    lemma_slots_positive(t);
    if let Template::Split { first, second, .. } = t {
        let k = slots_of(*first) as int;
        lemma_slots_positive(*first);
        lemma_fill_first(*first, p.take(k));
    }
}

/// Filling a layout's slots and rebuilding the tree from its placements are
/// the same steps.
proof fn lemma_steps_are_emit(t: Template, p: Seq<Seq<char>>)
    requires
        p.len() == slots_of(t),
    ensures
        template_steps(t, p) == emit(fill(t, p)),
    decreases t,
{
    if let Template::Split { first, second, .. } = t {
        let k = slots_of(*first) as int;
        lemma_slots_positive(*first);
        lemma_slots_positive(*second);
        lemma_steps_are_emit(*first, p.take(k));
        lemma_steps_are_emit(*second, p.skip(k));
        lemma_fill_first(*first, p.take(k));
        lemma_fill_first(*second, p.skip(k));
        assert(p.skip(k)[0] == p[k]);
        assert(p.take(k)[0] == p[0]);
    }
}

/// Applying a saved layout to distinct panes rebuilds its shape: replaying
/// the plan from its first pane gives the layout with those panes in its
/// slots, every split even.
pub proof fn lemma_template_rebuilds_shape(t: Template, p: Seq<Seq<char>>)
    requires
        p.len() == slots_of(t),
        crate::layout::distinct_leaves(fill(t, p)),
    ensures
        replay(Tree::Leaf(p[0]), template_steps(t, p)) == skeleton(fill(t, p)),
        signature_of(replay(Tree::Leaf(p[0]), template_steps(t, p))) == signature_of(fill(t, p)),
{
    lemma_steps_are_emit(t, p);
    lemma_fill_first(t, p);
    crate::layout::lemma_plan_rebuilds_shape(fill(t, p));
}

} // verus!
