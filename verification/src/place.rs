//! Remembering where a pane was, and putting it back.
//!
//! Both Gather and Undo need a description of a pane's place that survives
//! the pane being moved, and a way to replay it. A tab that emptied out while
//! its panes were away is recreated under the original name, in the
//! original slot: Herdr closes a tab the moment its last pane leaves, so
//! "the tab is gone" is a normal outcome, not a failure.
use vstd::prelude::*;

use crate::label::opt_view;
use crate::layout::{
    emit, first_leaf, side_name, side_named, side_split, side_swaps, string_views, Plan, Shape,
    Side, Tree,
};
use crate::model::{Direction, Pane, Tab};
use crate::text::{all_digits, decimal, push_decimal, push_str, trim};

verus! {

/// Where one pane was.
#[derive(Debug, Clone)]
pub struct Origin {
    pub pane_id: String,
    pub workspace_id: String,
    pub tab_id: String,
    /// Label of the original tab, so it can be recreated under its own name.
    pub tab_label: Option<String>,
    /// 0-based slot of the original tab.
    pub tab_index: usize,
    /// Pane it sat next to, and on which side. Absent when it was alone in
    /// its tab, which is also what tells the restore the tab must be rebuilt.
    pub anchor: Option<String>,
    pub side: Option<String>,
    /// Position among the panes taken from the same tab, so they are put
    /// back in an order where each one's anchor already exists.
    pub order: usize,
    pub focused: bool,
}

fn copy_opt(o: &Option<String>) -> (r: Option<String>)
    ensures
        r == *o,
{
    match o {
        Some(s) => Some(s.clone()),
        None => None,
    }
}

/// An exact copy of a list of strings.
pub fn copy_strings(v: &[String]) -> (r: Vec<String>)
    ensures
        r@ == v@,
{
    let mut out: Vec<String> = Vec::new();
    let mut i: usize = 0;
    while i < v.len()
        invariant
            i <= v@.len(),
            out@ == v@.take(i as int),
        decreases v@.len() - i,
    {
        out.push(v[i].clone());
        proof {
            assert(v@.take(i + 1) =~= v@.take(i as int).push(v@[i as int]));
        }
        i = i + 1;
    }
    proof {
        assert(v@.take(v@.len() as int) =~= v@);
    }
    out
}

/// The side an origin records, Right when it records none or garbage.
pub open spec fn origin_side(o: Origin) -> Side {
    match o.side {
        Some(s) => match side_named(s@) {
            Some(side) => side,
            None => Side::Right,
        },
        None => Side::Right,
    }
}

impl Origin {
    /// An exact copy.
    pub fn duplicate(&self) -> (r: Origin)
        ensures
            r == *self,
    {
        Origin {
            pane_id: self.pane_id.clone(),
            workspace_id: self.workspace_id.clone(),
            tab_id: self.tab_id.clone(),
            tab_label: copy_opt(&self.tab_label),
            tab_index: self.tab_index,
            anchor: copy_opt(&self.anchor),
            side: copy_opt(&self.side),
            order: self.order,
            focused: self.focused,
        }
    }

    /// The recorded side, falling back to Right rather than failing.
    pub fn side(&self) -> (r: Side)
        ensures
            r == origin_side(*self),
    {
        match &self.side {
            Some(s) => match Side::parse(s.as_str()) {
                Some(side) => side,
                None => Side::Right,
            },
            None => Side::Right,
        }
    }
}

// ---------------------------------------------------------------------------
// Describing a place
// ---------------------------------------------------------------------------

/// The side on the far side of a split from its neighbour.
pub fn opposite(side: Side) -> (r: Side)
    ensures
        r == crate::layout::opposite_side(side),
{
    side.opposite()
}

/// Where the first pane of a split sits, described against the pane next
/// to it: the pane the second half starts with, on the far side.
pub open spec fn beside_tree(t: Tree, id: Seq<char>) -> Option<(Seq<char>, Side)>
    decreases t,
{
    match t {
        Tree::Leaf(_) => None,
        Tree::Node(side, _, a, b) => {
            if *a == Tree::Leaf(id) {
                Some((first_leaf(*b), crate::layout::opposite_side(side)))
            } else {
                match beside_tree(*a, id) {
                    Some(x) => Some(x),
                    None => beside_tree(*b, id),
                }
            }
        },
    }
}

/// The pane a split's second half starts with.
pub fn leading_pane(shape: &Shape) -> (r: Option<String>)
    ensures
        r is Some && r->0@ == first_leaf(shape@),
{
    Some(crate::text::owned(shape.first_pane()))
}

/// Where a tab's first pane sat, described against the pane next to it.
///
/// `Plan::from_shape` starts from that pane, so the plan says nothing about
/// where it was; reading the relationship the other way round puts it on the
/// far side of its split from its neighbour.
pub fn beside(shape: &Shape, pane_id: &str) -> (r: Option<(String, Side)>)
    ensures
        match r {
            Some((n, s)) => beside_tree(shape@, pane_id@) == Some((n@, s)),
            None => beside_tree(shape@, pane_id@) is None,
        },
    decreases shape,
{
    match shape {
        Shape::Pane(_) => None,
        Shape::Split { side, first, second, .. } => {
            let first_is_it = match &**first {
                Shape::Pane(id) => crate::text::same_text(id.as_str(), pane_id),
                _ => false,
            };
            if first_is_it {
                proof {
                    assert(first@ == Tree::Leaf(pane_id@));
                }
                return match leading_pane(second) {
                    Some(n) => Some((n, opposite(*side))),
                    None => None,
                };
            }
            proof {
                if first@ == Tree::Leaf(pane_id@) {
                    assert(**first matches Shape::Pane(_));
                }
            }
            match beside(first, pane_id) {
                Some(x) => Some(x),
                None => beside(second, pane_id),
            }
        },
    }
}

/// A tab label worth recreating a tab under: anything but a bare number.
pub open spec fn kept_label(label: Option<String>) -> Option<Seq<char>> {
    match label {
        Some(l) => if all_digits(trim(l@)) {
            None
        } else {
            Some(l@)
        },
        None => None,
    }
}

/// Index of the first tab with this id, or 0.
pub open spec fn tab_slot(tabs: Seq<Tab>, id: Seq<char>, i: int) -> int
    decreases tabs.len() - i,
{
    if i < 0 || i >= tabs.len() {
        0
    } else if tabs[i].tab_id@ == id {
        i
    } else {
        tab_slot(tabs, id, i + 1)
    }
}

/// Index of the first placement of `id` in `steps`.
pub open spec fn step_index(steps: Seq<crate::layout::Step>, id: Seq<char>, i: int) -> Option<int>
    decreases steps.len() - i,
{
    if i < 0 || i >= steps.len() {
        None
    } else if steps[i].pane == id {
        Some(i)
    } else {
        step_index(steps, id, i + 1)
    }
}

/// The anchor, side and rebuild position of pane `id` in tree `t`.
pub open spec fn place_in(t: Tree, id: Seq<char>) -> (Option<Seq<char>>, Option<Seq<char>>, nat) {
    match step_index(emit(t), id, 0) {
        Some(k) => (Some(emit(t)[k].anchor), Some(side_name(emit(t)[k].side)), k as nat),
        None => match beside_tree(t, id) {
            Some((n, s)) => (Some(n), Some(side_name(s)), 0),
            None => (None, None, 0),
        },
    }
}

fn slot_of(tabs: &[Tab], id: &String) -> (r: usize)
    ensures
        r == tab_slot(tabs@, id@, 0),
{
    let mut i: usize = 0;
    while i < tabs.len()
        invariant
            i <= tabs@.len(),
            tab_slot(tabs@, id@, i as int) == tab_slot(tabs@, id@, 0),
        decreases tabs@.len() - i,
    {
        if tabs[i].tab_id == *id {
            return i;
        }
        i = i + 1;
    }
    0
}

fn placement_of(plan: &Plan, id: &String) -> (r: Option<usize>)
    ensures
        match r {
            Some(k) => k < plan.placements@.len() && step_index(plan.steps(), id@, 0) == Some(k as int),
            None => step_index(plan.steps(), id@, 0) is None,
        },
{
    let mut k: usize = 0;
    while k < plan.placements.len()
        invariant
            k <= plan.placements@.len(),
            step_index(plan.steps(), id@, k as int) == step_index(plan.steps(), id@, 0),
        decreases plan.placements@.len() - k,
    {
        if plan.placements[k].pane_id == *id {
            return Some(k);
        }
        k = k + 1;
    }
    None
}

fn group_of(groups: &Vec<(String, Vec<Origin>)>, id: &String) -> (r: Option<usize>)
    ensures
        match r {
            Some(k) => k < groups@.len() && group_index(groups_view(groups@), id@, 0) == Some(k as int),
            None => group_index(groups_view(groups@), id@, 0) is None,
        },
{
    let mut k: usize = 0;
    while k < groups.len()
        invariant
            k <= groups@.len(),
            group_index(groups_view(groups@), id@, k as int) == group_index(groups_view(groups@), id@, 0),
        decreases groups@.len() - k,
    {
        if groups[k].0 == *id {
            return Some(k);
        }
        k = k + 1;
    }
    None
}

/// Describe where a pane is now, in enough detail to put it back.
///
/// `tab` is the pane's tab, `tabs` its workspace's tabs in bar order, and
/// `shape` the tab's split tree when Herdr reported one.
pub fn origin_of(pane: &Pane, tab: &Tab, tabs: &[Tab], shape: Option<&Shape>) -> (r: Origin)
    ensures
        r.pane_id == pane.pane_id,
        r.workspace_id == pane.workspace_id,
        r.tab_id == pane.tab_id,
        opt_view(r.tab_label) == kept_label(tab.label),
        r.tab_index == tab_slot(tabs@, pane.tab_id@, 0),
        r.focused == pane.focused,
        (opt_view(r.anchor), opt_view(r.side), r.order as nat) == (match shape {
            Some(s) => place_in(s@, pane.pane_id@),
            None => (None, None, 0),
        }),
{
    let tab_index = slot_of(tabs, &pane.tab_id);
    let (anchor, side, order) = match shape {
        Some(shape) => {
            let plan = Plan::from_shape(shape);
            match placement_of(&plan, &pane.pane_id) {
                Some(index) => {
                    let p = &plan.placements[index];
                    (
                        Some(p.anchor.clone()),
                        Some(crate::text::owned(p.side.as_str())),
                        index,
                    )
                },
                None => {
                    match beside(shape, pane.pane_id.as_str()) {
                        Some((n, s)) => (Some(n), Some(crate::text::owned(s.as_str())), 0),
                        None => (None, None, 0),
                    }
                },
            }
        },
        None => (None, None, 0),
    };
    let tab_label = match &tab.label {
        Some(l) => {
            let t = crate::text::trimmed(l.as_str());
            if crate::text::only_digits(t.as_str()) {
                None
            } else {
                Some(l.clone())
            }
        },
        None => None,
    };
    Origin {
        pane_id: pane.pane_id.clone(),
        workspace_id: pane.workspace_id.clone(),
        tab_id: pane.tab_id.clone(),
        tab_label,
        tab_index,
        anchor,
        side,
        order,
        focused: pane.focused,
    }
}

// ---------------------------------------------------------------------------
// Putting panes back
// ---------------------------------------------------------------------------

/// What a restore actually did.
#[derive(Debug, Clone, Copy, PartialEq, Eq, Structural)]
pub struct Restored {
    /// Panes that went back into a tab that was still open.
    pub into_original: usize,
    /// Tabs that had to be recreated under their original name and slot.
    pub recreated_tabs: usize,
    /// Panes that went into one of those recreated tabs.
    pub into_recreated: usize,
    /// Panes that no longer exist: closed while they were away.
    pub gone: usize,
}

impl Default for Restored {
    fn default() -> (r: Self)
        ensures
            r == (Restored { into_original: 0, recreated_tabs: 0, into_recreated: 0, gone: 0 }),
    {
        Restored { into_original: 0, recreated_tabs: 0, into_recreated: 0, gone: 0 }
    }
}

pub open spec fn noun(n: nat, one: Seq<char>, many: Seq<char>) -> Seq<char> {
    if n == 1 {
        one
    } else {
        many
    }
}

/// The sentence a restore reports.
pub open spec fn restored_detail(r: Restored, expected: nat) -> Seq<char> {
    let placed = (r.into_original + r.into_recreated) as nat;
    let a = decimal(placed) + " "@ + noun(placed, "pane"@, "panes"@) + " back in place"@;
    let b = if r.recreated_tabs > 0 {
        a + " · "@ + decimal(r.recreated_tabs as nat) + " "@ + noun(r.recreated_tabs as nat, "tab"@, "tabs"@)
            + " rebuilt under "@ + noun(r.recreated_tabs as nat, "its"@, "their"@) + " original name"@
            + noun(r.recreated_tabs as nat, ""@, "s"@)
    } else {
        a
    };
    let c = if r.gone > 0 {
        b + " · "@ + decimal(r.gone as nat) + " "@ + noun(r.gone as nat, "pane"@, "panes"@) + " closed since"@
    } else {
        b
    };
    let accounted = placed + r.gone;
    let unaccounted: nat = if expected > accounted { (expected - accounted) as nat } else { 0 };
    if unaccounted > 0 {
        c + " · "@ + decimal(unaccounted) + " could not be moved"@
    } else {
        c
    }
}

fn push_noun(s: &mut String, n: usize, one: &str, many: &str)
    ensures
        final(s)@ == old(s)@ + noun(n as nat, one@, many@),
{
    if n == 1 {
        push_str(s, one);
    } else {
        push_str(s, many);
    }
}

impl Restored {
    pub fn total(self) -> (r: usize)
        requires
            self.into_original + self.into_recreated <= usize::MAX,
        ensures
            r == self.into_original + self.into_recreated,
    {
        self.into_original + self.into_recreated
    }

    /// A sentence describing the outcome, for the user.
    pub fn detail(self, expected: usize) -> (r: String)
        requires
            self.into_original + self.into_recreated + self.gone <= usize::MAX,
        ensures
            r@ == restored_detail(self, expected as nat),
    {
        let placed = self.total();
        let mut detail = String::new();
        push_decimal(&mut detail, placed);
        push_str(&mut detail, " ");
        push_noun(&mut detail, placed, "pane", "panes");
        push_str(&mut detail, " back in place");
        if self.recreated_tabs > 0 {
            push_str(&mut detail, " · ");
            push_decimal(&mut detail, self.recreated_tabs);
            push_str(&mut detail, " ");
            push_noun(&mut detail, self.recreated_tabs, "tab", "tabs");
            push_str(&mut detail, " rebuilt under ");
            push_noun(&mut detail, self.recreated_tabs, "its", "their");
            push_str(&mut detail, " original name");
            push_noun(&mut detail, self.recreated_tabs, "", "s");
        }
        if self.gone > 0 {
            push_str(&mut detail, " · ");
            push_decimal(&mut detail, self.gone);
            push_str(&mut detail, " ");
            push_noun(&mut detail, self.gone, "pane", "panes");
            push_str(&mut detail, " closed since");
        }
        let accounted = placed + self.gone;
        let unaccounted = if expected > accounted {
            expected - accounted
        } else {
            0
        };
        if unaccounted > 0 {
            push_str(&mut detail, " · ");
            push_decimal(&mut detail, unaccounted);
            push_str(&mut detail, " could not be moved");
        }
        detail
    }
}

/// What to do with one recorded pane during a restore.
#[derive(Debug, Clone, PartialEq, Eq)]
pub enum RestoreMove {
    /// The pane closed while it was away; skip it.
    Gone,
    /// Move it into `tab`, splitting `anchor` (or the tab's focused pane)
    /// in `split`, then swap the two when the side is Left or Up.
    Into { tab: String, anchor: Option<String>, split: Direction, swap: bool },
    /// Its tab is gone: recreate the tab around it, named and slotted as before.
    Recreate { label: Option<String>, index: usize },
}

/// The move that puts `origin` back, given where its group is landing
/// (`None` until the group's tab exists) and what still exists.
pub open spec fn restore_move_spec(
    origin: Origin,
    destination: Option<Seq<char>>,
    pane_exists: bool,
    anchor_exists: bool,
) -> (bool, Option<Seq<char>>, Option<Seq<char>>, Option<Direction>, bool, usize) {
    // (gone, tab, anchor, split, swap, index)
    if !pane_exists {
        (true, None, None, None, false, 0)
    } else {
        match destination {
            Some(t) => {
                let anchor = if origin.anchor is Some && anchor_exists {
                    opt_view(origin.anchor)
                } else {
                    None
                };
                (false, Some(t), anchor, Some(side_split(origin_side(origin))), side_swaps(
                    origin_side(origin),
                ) && anchor is Some, 0)
            },
            None => (false, None, opt_view(origin.tab_label), None, false, origin.tab_index),
        }
    }
}

pub open spec fn move_view(m: RestoreMove) -> (bool, Option<Seq<char>>, Option<Seq<char>>, Option<
    Direction,
>, bool, usize) {
    match m {
        RestoreMove::Gone => (true, None, None, None, false, 0),
        RestoreMove::Into { tab, anchor, split, swap } => (false, Some(tab@), opt_view(anchor), Some(split), swap, 0),
        RestoreMove::Recreate { label, index } => (false, None, opt_view(label), None, false, index),
    }
}

/// **Law.** Putting a recorded pane back keeps where it was. A pane that
/// has closed is skipped. One whose group has a tab to land in goes into that
/// tab, beside its recorded neighbour while that neighbour exists, split the
/// way it sat: side by side (a Right split) when it was recorded left or right
/// of the neighbour, stacked (a Down split) when above or below, and swapped
/// with the neighbour afterwards exactly when it sat on the left or above of
/// one it is placed against. One whose tab has gone recreates the tab under
/// the recorded name, at the recorded slot.
pub proof fn lemma_restore_keeps_place(
    origin: Origin,
    destination: Option<Seq<char>>,
    pane_exists: bool,
    anchor_exists: bool,
)
    ensures
        ({
            let (gone, tab, anchor, split, swap, index) = restore_move_spec(origin, destination, pane_exists, anchor_exists);
            let side = origin_side(origin);
            &&& gone <==> !pane_exists
            &&& pane_exists && destination is Some ==> {
                &&& tab == destination
                &&& anchor == (if origin.anchor is Some && anchor_exists { opt_view(origin.anchor) } else { None })
                &&& (split == Some(Direction::Right) <==> (side == Side::Left || side == Side::Right))
                &&& (split == Some(Direction::Down) <==> (side == Side::Up || side == Side::Down))
                &&& (swap <==> ((side == Side::Left || side == Side::Up) && anchor is Some))
            }
            &&& pane_exists && destination is None ==> {
                &&& tab is None
                &&& anchor == opt_view(origin.tab_label)
                &&& index == origin.tab_index
            }
        }),
{
}

/// Decide how one recorded pane goes back.
///
/// A pane closed since the record was written cannot be put back, and trying
/// would abort the restore for everything after it. An anchor that has gone
/// too is dropped, letting Herdr choose where to split.
pub fn restore_move(origin: &Origin, destination: Option<&str>, pane_exists: bool, anchor_exists: bool) -> (r: RestoreMove)
    ensures
        move_view(r) == restore_move_spec(
            *origin,
            match destination {
                Some(d) => Some(d@),
                None => None,
            },
            pane_exists,
            anchor_exists,
        ),
        !pane_exists ==> r is Gone,
        pane_exists && destination is Some ==> (r matches RestoreMove::Into { tab, anchor, split, swap }
            && tab@ == destination->0@
            && opt_view(anchor) == (if origin.anchor is Some && anchor_exists { opt_view(origin.anchor) } else { None })
            && (split == Direction::Right <==> (origin_side(*origin) == Side::Left || origin_side(*origin) == Side::Right))
            && (split == Direction::Down <==> (origin_side(*origin) == Side::Up || origin_side(*origin) == Side::Down))
            && (swap <==> ((origin_side(*origin) == Side::Left || origin_side(*origin) == Side::Up) && anchor is Some))),
        pane_exists && destination is None ==> (r matches RestoreMove::Recreate { label, index }
            && label == origin.tab_label && index == origin.tab_index),
{
    proof {
        lemma_restore_keeps_place(
            *origin,
            match destination {
                Some(d) => Some(d@),
                None => None,
            },
            pane_exists,
            anchor_exists,
        );
    }
    if !pane_exists {
        return RestoreMove::Gone;
    }
    match destination {
        Some(target) => {
            let anchor = if origin.anchor.is_some() && anchor_exists {
                copy_opt(&origin.anchor)
            } else {
                None
            };
            let side = origin.side();
            let swap = side.needs_swap() && anchor.is_some();
            RestoreMove::Into { tab: crate::text::owned(target), anchor, split: side.split(), swap }
        },
        None => RestoreMove::Recreate { label: copy_opt(&origin.tab_label), index: origin.tab_index },
    }
}

impl Restored {
    /// Count a pane that went back: into its own tab when that tab was
    /// still open, otherwise into the one recreated for it.
    pub fn landed(&mut self, tab_alive: bool)
        requires
            old(self).into_original < usize::MAX,
            old(self).into_recreated < usize::MAX,
        ensures
            tab_alive ==> *final(self) == (Restored { into_original: (old(self).into_original + 1) as usize, ..*old(self) }),
            !tab_alive ==> *final(self) == (Restored { into_recreated: (old(self).into_recreated + 1) as usize, ..*old(self) }),
    {
        if tab_alive {
            self.into_original = self.into_original + 1;
        } else {
            self.into_recreated = self.into_recreated + 1;
        }
    }

    /// Count a tab recreated around the pane that opened it.
    pub fn rebuilt(&mut self)
        requires
            old(self).recreated_tabs < usize::MAX,
            old(self).into_recreated < usize::MAX,
        ensures
            *final(self) == (Restored {
                recreated_tabs: (old(self).recreated_tabs + 1) as usize,
                into_recreated: (old(self).into_recreated + 1) as usize,
                ..*old(self)
            }),
    {
        self.recreated_tabs = self.recreated_tabs + 1;
        self.into_recreated = self.into_recreated + 1;
    }

    /// Count a pane closed while it was away.
    pub fn lost(&mut self)
        requires
            old(self).gone < usize::MAX,
        ensures
            *final(self) == (Restored { gone: (old(self).gone + 1) as usize, ..*old(self) }),
    {
        self.gone = self.gone + 1;
    }
}

// ---------------------------------------------------------------------------
// Grouping
// ---------------------------------------------------------------------------

/// Index of the group for tab `id`, if any.
pub open spec fn group_index(g: Seq<(Seq<char>, Seq<Origin>)>, id: Seq<char>, i: int) -> Option<int>
    decreases g.len() - i,
{
    if i < 0 || i >= g.len() {
        None
    } else if g[i].0 == id {
        Some(i)
    } else {
        group_index(g, id, i + 1)
    }
}

/// Origins grouped by tab, groups in order of first appearance, each group
/// in record order.
pub open spec fn grouped(o: Seq<Origin>) -> Seq<(Seq<char>, Seq<Origin>)>
    decreases o.len(),
{
    if o.len() == 0 {
        Seq::empty()
    } else {
        let g = grouped(o.drop_last());
        let x = o.last();
        match group_index(g, x.tab_id@, 0) {
            Some(k) => g.update(k, (g[k].0, g[k].1.push(x))),
            None => g.push((x.tab_id@, seq![x])),
        }
    }
}

/// Where a stable insertion by `order` puts `x`.
pub open spec fn order_slot(s: Seq<Origin>, x: Origin, i: int) -> int
    decreases s.len() - i,
{
    if i < 0 || i >= s.len() {
        s.len() as int
    } else if x.order < s[i].order {
        i
    } else {
        order_slot(s, x, i + 1)
    }
}

/// Stable sort by `order`.
pub open spec fn by_order(s: Seq<Origin>) -> Seq<Origin>
    decreases s.len(),
{
    if s.len() == 0 {
        s
    } else {
        let t = by_order(s.drop_last());
        t.insert(order_slot(t, s.last(), 0), s.last())
    }
}

/// Origins grouped by the tab they came from, each group in restore order.
pub open spec fn by_original_tab_spec(o: Seq<Origin>) -> Seq<(Seq<char>, Seq<Origin>)> {
    grouped(o).map_values(|g: (Seq<char>, Seq<Origin>)| (g.0, by_order(g.1)))
}

pub open spec fn groups_view(v: Seq<(String, Vec<Origin>)>) -> Seq<(Seq<char>, Seq<Origin>)> {
    v.map_values(|g: (String, Vec<Origin>)| (g.0@, g.1@))
}

fn sort_by_order(v: Vec<Origin>) -> (r: Vec<Origin>)
    ensures
        r@ == by_order(v@),
{
    let mut out: Vec<Origin> = Vec::new();
    let mut i: usize = 0;
    while i < v.len()
        invariant
            i <= v@.len(),
            out@ == by_order(v@.take(i as int)),
        decreases v@.len() - i,
    {
        let ghost t = out@;
        let mut at: usize = 0;
        while at < out.len() && !(v[i].order < out[at].order)
            invariant
                i < v@.len(),
                out@ == t,
                at <= t.len(),
                order_slot(t, v@[i as int], at as int) == order_slot(t, v@[i as int], 0),
            decreases t.len() - at,
        {
            at = at + 1;
        }
        proof {
            assert(order_slot(t, v@[i as int], at as int) == at);
            assert(v@.take(i + 1).drop_last() =~= v@.take(i as int));
            assert(v@.take(i + 1).last() == v@[i as int]);
        }
        out.insert(at, v[i].duplicate());
        i = i + 1;
    }
    proof {
        assert(v@.take(v@.len() as int) =~= v@);
    }
    out
}

/// Origins grouped by the tab they came from, each group in the order the
/// panes have to be put back so that every anchor exists by the time it is
/// used.
pub fn by_original_tab(origins: &[Origin]) -> (r: Vec<(String, Vec<Origin>)>)
    ensures
        groups_view(r@) == by_original_tab_spec(origins@),
{
    let mut groups: Vec<(String, Vec<Origin>)> = Vec::new();
    let mut i: usize = 0;
    while i < origins.len()
        invariant
            i <= origins@.len(),
            groups_view(groups@) == grouped(origins@.take(i as int)),
        decreases origins@.len() - i,
    {
        let ghost g = groups_view(groups@);
        let x = &origins[i];
        let found = group_of(&groups, &x.tab_id);
        proof {
            assert(origins@.take(i + 1).drop_last() =~= origins@.take(i as int));
            assert(origins@.take(i + 1).last() == origins@[i as int]);
        }
        match found {
            Some(k) => {
                let (tab, mut panes) = groups.remove(k);
                panes.push(x.duplicate());
                groups.insert(k, (tab, panes));
                proof {
                    assert(groups_view(groups@) =~= g.update(k as int, (g[k as int].0, g[k as int].1.push(*x))));
                }
            },
            None => {
                let mut panes: Vec<Origin> = Vec::new();
                panes.push(x.duplicate());
                groups.push((x.tab_id.clone(), panes));
                proof {
                    assert(groups_view(groups@) =~= g.push((x.tab_id@, seq![*x])));
                }
            },
        }
        i = i + 1;
    }
    proof {
        assert(origins@.take(origins@.len() as int) =~= origins@);
    }
    let ghost unsorted = groups_view(groups@);
    let mut out: Vec<(String, Vec<Origin>)> = Vec::new();
    let mut rest = groups;
    proof {
        assert(unsorted.skip(0) =~= unsorted);
        assert(groups_view(out@) =~= unsorted.take(0).map_values(
            |g: (Seq<char>, Seq<Origin>)| (g.0, by_order(g.1)),
        ));
    }
    while rest.len() > 0
        invariant
            out@.len() + rest@.len() == unsorted.len(),
            groups_view(out@) == unsorted.take(out@.len() as int).map_values(
                |g: (Seq<char>, Seq<Origin>)| (g.0, by_order(g.1)),
            ),
            groups_view(rest@) == unsorted.skip(out@.len() as int),
        decreases rest@.len(),
    {
        let ghost before_rest = rest@;
        let ghost before_out = out@;
        let ghost m = out@.len();
        let (tab, panes) = rest.remove(0);
        proof {
            assert(groups_view(before_rest) == unsorted.skip(m as int));
            assert(unsorted.skip(m as int)[0] == unsorted[m as int]);
            assert(groups_view(before_rest)[0] == unsorted[m as int]);
            assert(rest@ =~= before_rest.subrange(1, before_rest.len() as int));
            assert(groups_view(rest@) =~= groups_view(before_rest).subrange(1, before_rest.len() as int));
            assert(groups_view(rest@) =~= unsorted.skip((m + 1) as int));
        }
        let sorted = sort_by_order(panes);
        out.push((tab, sorted));
        proof {
            assert(unsorted.take((m + 1) as int) =~= unsorted.take(m as int).push(unsorted[m as int]));
            assert(tab@ == unsorted[m as int].0);
            assert(panes@ == unsorted[m as int].1);
            assert(groups_view(out@) =~= groups_view(before_out).push((tab@, sorted@)));
            assert(unsorted.take((m + 1) as int).map_values(
                |g: (Seq<char>, Seq<Origin>)| (g.0, by_order(g.1)),
            ) =~= unsorted.take(m as int).map_values(
                |g: (Seq<char>, Seq<Origin>)| (g.0, by_order(g.1)),
            ).push((unsorted[m as int].0, by_order(unsorted[m as int].1))));
            assert(groups_view(out@) =~= unsorted.take(out@.len() as int).map_values(
                |g: (Seq<char>, Seq<Origin>)| (g.0, by_order(g.1)),
            ));
        }
    }
    proof {
        assert(unsorted.take(out@.len() as int) =~= unsorted);
    }
    out
}

} // verus!
