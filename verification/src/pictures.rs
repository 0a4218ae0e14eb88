//! The Pane Manager's pictures of what each operation would leave behind.
//!
//! One place per operation, built from the same tree operations the move
//! itself performs, so the picture and the operation cannot drift apart.
use vstd::prelude::*;

use crate::label::{compact_of, opt_view};
use crate::layout::{emit, first_leaf, replay, split_tree, string_views, Plan, Shape, Side, Step, Tree};
use crate::model::Pane;
use crate::pm_config::{resolved_side, Config};
use crate::preview::{pane_number, short_id, short_pane_id, tab_number, tab_number_of, ARRIVING, ELSEWHERE};
use crate::state::{anchor_index, entry_from, layout_of, Snapshot, TabEntry};
use crate::term::{label_views, panel_is, unreadable_panel, Panel, Row};
use crate::text::{decimal, owned, push_char, push_decimal, push_str, same_text};

verus! {

/// Each pane paired with Herdr's short name for it, to write in its box.
pub open spec fn pane_labels(panes: Seq<Pane>) -> Seq<(Seq<char>, Seq<char>)> {
    panes.map_values(|p: Pane| (p.pane_id@, short_id(p.pane_id@)))
}

pub fn labels_of(panes: &Vec<Pane>) -> (r: Vec<(String, String)>)
    ensures
        label_views(r@) == pane_labels(panes@),
{
    let mut out: Vec<(String, String)> = Vec::new();
    let mut i: usize = 0;
    while i < panes.len()
        invariant
            i <= panes@.len(),
            label_views(out@) == pane_labels(panes@.take(i as int)),
        decreases panes@.len() - i,
    {
        let ghost before = out@;
        out.push((panes[i].pane_id.clone(), pane_number(&panes[i])));
        proof {
            assert(label_views(out@) =~= label_views(before).push((panes@[i as int].pane_id@, short_id(panes@[i as int].pane_id@))));
            assert(pane_labels(panes@.take(i + 1)) =~= pane_labels(panes@.take(i as int)).push(
                (panes@[i as int].pane_id@, short_id(panes@[i as int].pane_id@)),
            ));
        }
        i = i + 1;
    }
    proof {
        assert(panes@.take(panes@.len() as int) =~= panes@);
    }
    out
}

fn one(id: &str) -> (r: Vec<String>)
    ensures
        string_views(r@) == seq![id@],
{
    let v = vec![owned(id)];
    proof {
        assert(string_views(v@) =~= seq![id@]);
    }
    v
}

/// The tab the reader is in, as the snapshot has it.
pub open spec fn source_entry(s: Snapshot) -> Option<TabEntry> {
    match entry_from(s.entries(), s.source.tab_id@, 0) {
        Some(k) => Some(s.entries()[k].1),
        None => None,
    }
}

pub open spec fn here_name_of(s: Snapshot) -> Seq<char> {
    match source_entry(s) {
        Some(e) => tab_number_of(e),
        None => "この Tab"@,
    }
}

/// The name of the tab the reader is in.
pub fn here_name(snapshot: &Snapshot) -> (r: String)
    ensures
        r@ == here_name_of(*snapshot),
{
    match snapshot.source_tab() {
        Some(t) => tab_number(t),
        None => owned("この Tab"),
    }
}

/// The source tab as it is now, the pane about to move filled in.
pub fn here_now(snapshot: &Snapshot) -> (r: Panel)
    ensures
        match source_entry(*snapshot) {
            Some(e) => match layout_of(e) {
                Some(t) => panel_is(r, here_name_of(*snapshot), t, seq![snapshot.source.pane_id@], pane_labels(e.panes@)),
                None => unreadable_panel(r, here_name_of(*snapshot)),
            },
            None => unreadable_panel(r, here_name_of(*snapshot)),
        },
{
    let caption = here_name(snapshot);
    let tab = match snapshot.source_tab() {
        Some(t) => t,
        None => return Panel::unreadable(caption.as_str()),
    };
    let shape = match tab.layout() {
        Some(s) => s,
        None => return Panel::unreadable(caption.as_str()),
    };
    let labels = labels_of(&tab.panes);
    Panel::new(caption.as_str(), shape).marking(one(snapshot.source.pane_id.as_str())).labeling(labels)
}

/// The side a move lands on without asking: the configured one, else Right.
pub open spec fn configured_side(c: Config) -> Side {
    match resolved_side(c.default_move_direction) {
        Some(s) => s,
        None => Side::Right,
    }
}

/// A destination not chosen yet: one pane, with the moved one arriving on
/// the configured side.
pub fn arriving_panel(caption: &str, config: &Config) -> (r: Panel)
    ensures
        panel_is(r, caption@, split_tree(Tree::Leaf(ELSEWHERE@), ELSEWHERE@, ARRIVING@, configured_side(*config)),
            seq![ARRIVING@], seq![]),
{
    let mut shape = Shape::pane(ELSEWHERE);
    let side = config.quick_side();
    shape.split(ELSEWHERE, ARRIVING, side);
    let r = Panel::new(caption, shape).marking(one(ARRIVING));
    proof {
        assert(label_views(r.labels@) =~= Seq::<(Seq<char>, Seq<char>)>::empty());
    }
    r
}

pub open spec fn pair_view(a: Option<(Shape, Vec<String>)>) -> Option<(Tree, Seq<Seq<char>>)> {
    match a {
        Some(x) => Some((x.0@, string_views(x.1@))),
        None => None,
    }
}

/// A tab with a pane `id` arriving beside its split anchor on `arriving`,
/// or as it is when nothing arrives. Nothing when the tab has no pane or
/// its arrangement is unknown.
pub open spec fn preview_of(e: TabEntry, arriving: Option<Side>, id: Seq<char>) -> Option<(Tree, Seq<Seq<char>>)> {
    match anchor_index(e.panes@) {
        Some(a) => match layout_of(e) {
            Some(t) => match arriving {
                Some(side) => Some((split_tree(t, e.panes@[a].pane_id@, id, side), seq![id])),
                None => Some((t, seq![])),
            },
            None => None,
        },
        None => None,
    }
}

pub fn tab_preview_of(tab: &TabEntry, arriving: Option<Side>, id: &str) -> (r: Option<(Shape, Vec<String>)>)
    ensures
        pair_view(r) == preview_of(*tab, arriving, id@),
{
    let anchor = match tab.split_anchor() {
        Some(p) => p.pane_id.clone(),
        None => return None,
    };
    let mut shape = match tab.layout() {
        Some(s) => s,
        None => return None,
    };
    match arriving {
        Some(side) => {
            shape.split(anchor.as_str(), id, side);
            Some((shape, one(id)))
        },
        None => {
            let none: Vec<String> = Vec::new();
            proof {
                assert(string_views(none@) =~= Seq::<Seq<char>>::empty());
            }
            Some((shape, none))
        },
    }
}

/// The same, with the stand-in for a pane not named yet.
pub fn tab_preview(tab: &TabEntry, arriving: Option<Side>) -> (r: Option<(Shape, Vec<String>)>)
    ensures
        pair_view(r) == preview_of(*tab, arriving, ARRIVING@),
{
    tab_preview_of(tab, arriving, ARRIVING)
}

/// The destination tab, captioned as the tab bar names it, with the moved
/// pane arriving on `arriving` and every pane named in its box.
pub open spec fn destination_is(r: Seq<Panel>, e: TabEntry, arriving: Option<Side>, source: Option<Pane>) -> bool {
    let id = match source {
        Some(p) => p.pane_id@,
        None => ARRIVING@,
    };
    &&& r.len() == 1
    &&& match preview_of(e, arriving, id) {
        Some(x) => panel_is(r[0], tab_number_of(e), x.0, x.1, pane_labels(e.panes@) + match source {
            Some(p) => seq![(p.pane_id@, short_id(p.pane_id@))],
            None => seq![],
        }),
        None => unreadable_panel(r[0], tab_number_of(e)),
    }
}

pub fn destination_panels(tab: &TabEntry, arriving: Option<Side>, source: Option<&Pane>) -> (r: Vec<Panel>)
    ensures
        destination_is(r@, *tab, arriving, match source { Some(p) => Some(*p), None => None }),
{
    let id = match source {
        Some(p) => p.pane_id.as_str(),
        None => ARRIVING,
    };
    let caption = tab_number(tab);
    let (shape, marked) = match tab_preview_of(tab, arriving, id) {
        Some(x) => x,
        None => return vec![Panel::unreadable(caption.as_str())],
    };
    let mut labels = labels_of(&tab.panes);
    match source {
        Some(p) => {
            let ghost before = labels@;
            labels.push((p.pane_id.clone(), pane_number(p)));
            proof {
                assert(label_views(labels@) =~= label_views(before).push((p.pane_id@, short_id(p.pane_id@))));
            }
        },
        None => {
            proof {
                assert(label_views(labels@) =~= label_views(labels@) + Seq::<(Seq<char>, Seq<char>)>::empty());
            }
        },
    }
    vec![Panel::new(caption.as_str(), shape).marking(marked).labeling(labels)]
}

/// The destination as it would look with the reader's pane in it, on the
/// configured side.
pub fn real_destination(tab: &TabEntry, snapshot: &Snapshot, config: &Config) -> (r: Panel)
    ensures
        destination_is(seq![r], *tab, Some(configured_side(*config)), Some(snapshot.source)),
{
    let side = config.quick_side();
    let mut panels = destination_panels(tab, Some(side), Some(&snapshot.source));
    let ghost all = panels@;
    match panels.pop() {
        Some(p) => {
            proof {
                assert(all =~= seq![p]);
            }
            p
        },
        None => {
            proof {
                assert(false);
            }
            arriving_panel("", config)
        },
    }
}

/// The destination with `arriving` split in beside `target`: the tab a
/// "Split next to…" row would produce.
pub fn split_beside(tab: &TabEntry, target: &str, arriving: &Pane, side: Side) -> (r: Vec<Panel>)
    ensures
        r@.len() == 1,
        match layout_of(*tab) {
            Some(t) => panel_is(r@[0], tab_number_of(*tab), split_tree(t, target@, arriving.pane_id@, side),
                seq![arriving.pane_id@], pane_labels(tab.panes@).push((arriving.pane_id@, short_id(arriving.pane_id@)))),
            None => unreadable_panel(r@[0], tab_number_of(*tab)),
        },
{
    let caption = tab_number(tab);
    let mut shape = match tab.layout() {
        Some(s) => s,
        None => return vec![Panel::unreadable(caption.as_str())],
    };
    shape.split(target, arriving.pane_id.as_str(), side);
    let mut labels = labels_of(&tab.panes);
    let ghost before = labels@;
    labels.push((arriving.pane_id.clone(), pane_number(arriving)));
    proof {
        assert(label_views(labels@) =~= label_views(before).push((arriving.pane_id@, short_id(arriving.pane_id@))));
    }
    vec![Panel::new(caption.as_str(), shape).marking(one(arriving.pane_id.as_str())).labeling(labels)]
}

/// The tab with the stand-in pane added on `side` of `target`.
pub fn placement_preview(shape: &Shape, target: &str, side: Side) -> (r: (Shape, Vec<String>))
    ensures
        r.0@ == split_tree(shape@, target@, ARRIVING@, side),
        string_views(r.1@) == seq![ARRIVING@],
{
    (shape.splitted(target, ARRIVING, side), one(ARRIVING))
}

/// One legend line: Herdr's short name, the pane's compact name, and the
/// agent running in it.
pub open spec fn pane_line_of(p: Pane) -> Seq<char> {
    short_id(p.pane_id@) + ": "@ + compact_of(p) + match p.display_agent {
        Some(a) => " | "@ + a@,
        None => match p.agent {
            Some(a) => " | "@ + a@,
            None => seq![],
        },
    }
}

pub fn pane_line(pane: &Pane) -> (r: String)
    ensures
        r@ == pane_line_of(*pane),
{
    let mut line = pane_number(pane);
    push_char(&mut line, ':');
    push_char(&mut line, ' ');
    let compact = crate::label::pane_compact(pane);
    push_str(&mut line, compact.as_str());
    let agent = match &pane.display_agent {
        Some(a) => Some(a),
        None => match &pane.agent {
            Some(a) => Some(a),
            None => None,
        },
    };
    match agent {
        Some(a) => {
            push_str(&mut line, " | ");
            push_str(&mut line, a.as_str());
        },
        None => {},
    }
    proof {
        assert(": "@ =~= seq![':', ' ']) by {
            reveal_strlit(": ");
        }
        if agent is None {
            assert(line@ =~= line@ + Seq::<char>::empty());
        }
    }
    line
}

/// What is running in a tab: the first four panes' lines, and how many
/// more there are.
pub open spec fn tab_contents_of(panes: Seq<Pane>) -> Seq<char> {
    let shown = if panes.len() < 4 { panes } else { panes.take(4) };
    crate::ops::joined(shown.map_values(|p: Pane| pane_line_of(p)), " · "@)
        + if panes.len() > shown.len() { " +"@ + decimal((panes.len() - shown.len()) as nat) } else { seq![] }
}

pub fn tab_contents(tab: &TabEntry) -> (r: String)
    ensures
        r@ == tab_contents_of(tab.panes@),
{
    let n = if tab.panes.len() < 4 { tab.panes.len() } else { 4 };
    let ghost shown = if tab.panes@.len() < 4 { tab.panes@ } else { tab.panes@.take(4) };
    let ghost lines = shown.map_values(|p: Pane| pane_line_of(p));
    let mut out = String::new();
    let mut i: usize = 0;
    proof {
        assert(shown.len() == n);
    }
    while i < n
        invariant
            n == shown.len(),
            n <= tab.panes@.len(),
            shown == (if tab.panes@.len() < 4 { tab.panes@ } else { tab.panes@.take(4) }),
            lines == shown.map_values(|p: Pane| pane_line_of(p)),
            i <= n,
            out@ == crate::ops::joined(lines.take(i as int), " · "@),
        decreases n - i,
    {
        proof {
            assert(lines.take(i + 1).drop_last() =~= lines.take(i as int));
            assert(lines.take(i + 1).last() == pane_line_of(tab.panes@[i as int]));
        }
        if i > 0 {
            push_str(&mut out, " · ");
        } else {
            proof {
                assert(out@ =~= Seq::<char>::empty());
            }
        }
        let line = pane_line(&tab.panes[i]);
        push_str(&mut out, line.as_str());
        proof {
            if i == 0 {
                assert(out@ =~= lines.take(1)[0]);
            }
        }
        i = i + 1;
    }
    proof {
        assert(lines.take(n as int) =~= lines);
    }
    if tab.panes.len() > n {
        push_str(&mut out, " +");
        push_decimal(&mut out, tab.panes.len() - n);
    } else {
        proof {
            assert(out@ =~= out@ + Seq::<char>::empty());
        }
    }
    out
}

// ---------------------------------------------------------------------------
// Folding a tab into another
// ---------------------------------------------------------------------------

/// The order the folded panes arrive in: the source tab's own build order
/// when its arrangement is known, else as listed.
pub open spec fn fold_order(moving: Seq<Seq<char>>, source: Option<Tree>) -> Seq<Seq<char>> {
    match source {
        Some(t) => crate::layout::plan_panes(first_leaf(t), emit(t)),
        None => moving,
    }
}

/// The splits a Fold makes in the destination: the first pane beside the
/// anchor on `side`, then the three-pane column or the source tab's own
/// splits; with neither, a chain along `side`.
pub open spec fn fold_steps(existing: nat, moving: Seq<Seq<char>>, source: Option<Tree>, anchor: Seq<char>, side: Side) -> Seq<Step> {
    let order = fold_order(moving, source);
    let placed: Option<Seq<Step>> = match crate::ops::three_pane_column_spec(existing, order) {
        Some(ps) => Some(ps),
        None => match source {
            Some(t) => Some(emit(t)),
            None => None,
        },
    };
    match placed {
        Some(ps) => (if order.len() > 0 { seq![Step { pane: order[0], anchor, side }] } else { seq![] }) + ps,
        None => crate::arrange::chain_steps(seq![anchor] + moving, side),
    }
}

/// The destination with every folded pane added: its caption, its tree
/// (`None` when it cannot be read), what it fills and what it names.
pub open spec fn fold_picture(
    e: TabEntry,
    moving: Seq<Seq<char>>,
    labels: Seq<(Seq<char>, Seq<char>)>,
    source: Option<Tree>,
    c: Config,
) -> (Option<Tree>, Seq<Seq<char>>, Seq<(Seq<char>, Seq<char>)>) {
    match anchor_index(e.panes@) {
        None => (
            Some(split_tree(Tree::Leaf(ELSEWHERE@), ELSEWHERE@, ARRIVING@, configured_side(c))),
            seq![ARRIVING@],
            seq![],
        ),
        Some(a) => match layout_of(e) {
            None => (None, seq![], seq![]),
            Some(t) => (
                Some(replay(t, fold_steps(e.panes@.len(), moving, source, e.panes@[a].pane_id@, configured_side(c)))),
                moving,
                pane_labels(e.panes@) + labels,
            ),
        },
    }
}

/// A panel drawing `tree` (or saying it cannot be read), filling `marked`
/// and naming `labels`, on one sheet.
pub open spec fn drawn_as(
    r: Panel,
    caption: Seq<char>,
    tree: Option<Tree>,
    marked: Seq<Seq<char>>,
    labels: Seq<(Seq<char>, Seq<char>)>,
) -> bool {
    &&& r.caption@ == caption
    &&& crate::state::shape_view(r.shape) == tree
    &&& r.unreadable == (tree is None)
    &&& string_views(r.marked@) == marked
    &&& label_views(r.labels@) == labels
    &&& !r.stacked
    &&& r.behind is None
}

pub open spec fn folded_is(
    r: Panel,
    e: TabEntry,
    moving: Seq<Seq<char>>,
    labels: Seq<(Seq<char>, Seq<char>)>,
    source: Option<Tree>,
    c: Config,
) -> bool {
    let f = fold_picture(e, moving, labels, source, c);
    drawn_as(r, tab_number_of(e), f.0, f.1, f.2)
}

fn replay_onto(shape: &mut Shape, steps: &Vec<crate::layout::Placement>)
    ensures
        final(shape)@ == replay(old(shape)@, crate::layout::steps_of(steps@)),
{
    let ghost start = shape@;
    let ghost all = crate::layout::steps_of(steps@);
    let mut i: usize = 0;
    proof {
        assert(all.subrange(0, 0) =~= Seq::<Step>::empty());
    }
    while i < steps.len()
        invariant
            i <= steps@.len(),
            all == crate::layout::steps_of(steps@),
            shape@ == replay(start, all.subrange(0, i as int)),
        decreases steps@.len() - i,
    {
        let p = &steps[i];
        shape.split(p.anchor.as_str(), p.pane_id.as_str(), p.side);
        proof {
            assert(all.subrange(0, i + 1) =~= all.subrange(0, i as int).push(all[i as int]));
            crate::layout::lemma_replay_push(start, all.subrange(0, i as int), all[i as int]);
        }
        i = i + 1;
    }
    proof {
        assert(all.subrange(0, steps@.len() as int) =~= all);
    }
}

fn chain_onto(shape: &mut Shape, anchor: &String, panes: &[String], side: Side)
    ensures
        final(shape)@ == replay(old(shape)@, crate::arrange::chain_steps(seq![anchor@] + string_views(panes@), side)),
{
    let ghost start = shape@;
    let ghost p = seq![anchor@] + string_views(panes@);
    let ghost all = crate::arrange::chain_steps(p, side);
    let mut at = anchor.clone();
    let mut i: usize = 0;
    proof {
        assert(all.subrange(0, 0) =~= Seq::<Step>::empty());
    }
    while i < panes.len()
        invariant
            i <= panes@.len(),
            p == seq![anchor@] + string_views(panes@),
            all == crate::arrange::chain_steps(p, side),
            all.len() == panes@.len(),
            at@ == p[i as int],
            shape@ == replay(start, all.subrange(0, i as int)),
        decreases panes@.len() - i,
    {
        shape.split(at.as_str(), panes[i].as_str(), side);
        proof {
            assert(all[i as int] == Step { pane: p[i + 1], anchor: p[i as int], side });
            assert(all.subrange(0, i + 1) =~= all.subrange(0, i as int).push(all[i as int]));
            crate::layout::lemma_replay_push(start, all.subrange(0, i as int), all[i as int]);
        }
        at = panes[i].clone();
        i = i + 1;
    }
    proof {
        assert(all.subrange(0, panes@.len() as int) =~= all);
    }
}

/// The destination tab with every folded pane in it. `moving` are the
/// source tab's panes, `labels` their names, `source_shape` its arrangement
/// when known.
pub fn folded_into(
    tab: &TabEntry,
    moving: &[String],
    labels: &[(String, String)],
    source_shape: Option<&Shape>,
    config: &Config,
) -> (r: Panel)
    ensures
        folded_is(r, *tab, string_views(moving@), label_views(labels@), match source_shape {
            Some(s) => Some(s@),
            None => None,
        }, *config),
{
    let side = config.quick_side();
    let caption = tab_number(tab);
    let anchor = match tab.split_anchor() {
        Some(p) => p.pane_id.clone(),
        None => return arriving_panel(caption.as_str(), config),
    };
    let mut shape = match tab.layout() {
        Some(s) => s,
        None => {
            let r = Panel::unreadable(caption.as_str());
            proof {
                assert(string_views(r.marked@) =~= Seq::<Seq<char>>::empty());
                assert(label_views(r.labels@) =~= Seq::<(Seq<char>, Seq<char>)>::empty());
            }
            return r;
        },
    };
    let plan: Option<Plan> = match source_shape {
        Some(s) => Some(Plan::from_shape(s)),
        None => None,
    };
    let order: Vec<String> = match &plan {
        Some(p) => p.pane_ids(),
        None => crate::place::copy_strings(moving),
    };
    let placed: Option<Vec<crate::layout::Placement>> = match crate::ops::three_pane_column(tab.panes.len(), &order) {
        Some(ps) => Some(ps),
        None => match &plan {
            Some(p) => Some(copy_placements(&p.placements)),
            None => None,
        },
    };
    match placed {
        Some(ps) => {
            if order.len() > 0 {
                let ghost before = shape@;
                shape.split(anchor.as_str(), order[0].as_str(), side);
                proof {
                    let st = Step { pane: order@[0]@, anchor: anchor@, side };
                    assert(seq![st].drop_first() =~= Seq::<Step>::empty());
                    reveal_with_fuel(replay, 2);
                    assert(replay(before, seq![st]) == shape@);
                }
                let ghost mid = shape@;
                replay_onto(&mut shape, &ps);
                proof {
                    let st = Step { pane: order@[0]@, anchor: anchor@, side };
                    assert((seq![st] + crate::layout::steps_of(ps@)).drop_first() =~= crate::layout::steps_of(ps@));
                }
            } else {
                replay_onto(&mut shape, &ps);
                proof {
                    assert(Seq::<Step>::empty() + crate::layout::steps_of(ps@) =~= crate::layout::steps_of(ps@));
                }
            }
        },
        None => {
            chain_onto(&mut shape, &anchor, moving, side);
        },
    }
    let mut all = labels_of(&tab.panes);
    let mut k: usize = 0;
    let ghost start = all@;
    while k < labels.len()
        invariant
            k <= labels@.len(),
            label_views(all@) == label_views(start) + label_views(labels@.take(k as int)),
        decreases labels@.len() - k,
    {
        let ghost before = all@;
        all.push((labels[k].0.clone(), labels[k].1.clone()));
        proof {
            assert(label_views(all@) =~= label_views(before).push((labels@[k as int].0@, labels@[k as int].1@)));
            assert(label_views(labels@.take(k + 1)) =~= label_views(labels@.take(k as int)).push(
                (labels@[k as int].0@, labels@[k as int].1@),
            ));
        }
        k = k + 1;
    }
    proof {
        assert(labels@.take(labels@.len() as int) =~= labels@);
    }
    Panel::new(caption.as_str(), shape).marking(crate::place::copy_strings(moving)).labeling(all)
}

fn copy_placements(v: &Vec<crate::layout::Placement>) -> (r: Vec<crate::layout::Placement>)
    ensures
        crate::layout::steps_of(r@) == crate::layout::steps_of(v@),
{
    let mut out: Vec<crate::layout::Placement> = Vec::new();
    let mut i: usize = 0;
    while i < v.len()
        invariant
            i <= v@.len(),
            crate::layout::steps_of(out@) == crate::layout::steps_of(v@.take(i as int)),
        decreases v@.len() - i,
    {
        let ghost before = out@;
        out.push(v[i].duplicate());
        proof {
            assert(crate::layout::steps_of(out@) =~= crate::layout::steps_of(before).push(crate::layout::step_of(v@[i as int])));
            assert(crate::layout::steps_of(v@.take(i + 1)) =~= crate::layout::steps_of(v@.take(i as int)).push(
                crate::layout::step_of(v@[i as int]),
            ));
        }
        i = i + 1;
    }
    proof {
        assert(v@.take(v@.len() as int) =~= v@);
    }
    out
}

// ---------------------------------------------------------------------------
// Swapping two panes
// ---------------------------------------------------------------------------

/// The tab holding `pane`, as the snapshot has it.
pub open spec fn entry_of(s: Snapshot, tab_id: Seq<char>) -> Option<TabEntry> {
    match entry_from(s.entries(), tab_id, 0) {
        Some(k) => Some(s.entries()[k].1),
        None => None,
    }
}

/// Each pane's box named by its short name, except `who`, which is named
/// `name`.
pub open spec fn renamed(panes: Seq<Pane>, who: Seq<char>, name: Seq<char>) -> Seq<(Seq<char>, Seq<char>)> {
    panes.map_values(|p: Pane| (p.pane_id@, if p.pane_id@ == who { name } else { short_id(p.pane_id@) }))
}

/// Within one tab the two panes trade names; the target's box is named last.
pub open spec fn traded(panes: Seq<Pane>, src: Seq<char>, tgt: Seq<char>) -> Seq<(Seq<char>, Seq<char>)> {
    panes.map_values(|p: Pane| (p.pane_id@, if p.pane_id@ == tgt {
        short_id(src)
    } else if p.pane_id@ == src {
        short_id(tgt)
    } else {
        short_id(p.pane_id@)
    }))
}

/// What a Swap leaves behind. In one tab the shape is unchanged and only
/// the names move, with the target's box (where the reader's pane lands)
/// filled; across tabs both are redrawn, the reader's pane filled where it
/// arrives.
pub open spec fn swap_is(r: Seq<Panel>, s: Snapshot, t: Pane) -> bool {
    let src = s.source.pane_id@;
    let tgt = t.pane_id@;
    match source_entry(s) {
        None => r.len() == 0,
        Some(here) => match entry_of(s, t.tab_id@) {
            None => r.len() == 0,
            Some(there) => if here.tab.tab_id@ == there.tab.tab_id@ {
                &&& r.len() == 1
                &&& match layout_of(here) {
                    Some(tr) => panel_is(r[0], tab_number_of(here), tr, seq![tgt], traded(here.panes@, src, tgt)),
                    None => unreadable_panel(r[0], tab_number_of(here)),
                }
            } else {
                &&& r.len() == 2
                &&& match (layout_of(here), layout_of(there)) {
                    (Some(a), Some(b)) => {
                        &&& panel_is(r[0], tab_number_of(here), a, seq![], renamed(here.panes@, src, short_id(tgt)))
                        &&& panel_is(r[1], tab_number_of(there), b, seq![tgt], renamed(there.panes@, tgt, short_id(src)))
                    },
                    _ => unreadable_panel(r[0], tab_number_of(here)) && unreadable_panel(r[1], tab_number_of(there)),
                }
            },
        },
    }
}

fn renamed_labels(panes: &Vec<Pane>, who: &str, name: &str) -> (r: Vec<(String, String)>)
    ensures
        label_views(r@) == renamed(panes@, who@, name@),
{
    let mut out: Vec<(String, String)> = Vec::new();
    let mut i: usize = 0;
    while i < panes.len()
        invariant
            i <= panes@.len(),
            label_views(out@) == renamed(panes@.take(i as int), who@, name@),
        decreases panes@.len() - i,
    {
        let p = &panes[i];
        let n = if same_text(p.pane_id.as_str(), who) { owned(name) } else { pane_number(p) };
        let ghost before = out@;
        out.push((p.pane_id.clone(), n));
        proof {
            assert(label_views(out@) =~= label_views(before).push((p.pane_id@, n@)));
            assert(renamed(panes@.take(i + 1), who@, name@) =~= renamed(panes@.take(i as int), who@, name@).push(
                (p.pane_id@, n@),
            ));
        }
        i = i + 1;
    }
    proof {
        assert(panes@.take(panes@.len() as int) =~= panes@);
    }
    out
}

fn traded_labels(panes: &Vec<Pane>, src: &str, tgt: &str) -> (r: Vec<(String, String)>)
    ensures
        label_views(r@) == traded(panes@, src@, tgt@),
{
    let mut out: Vec<(String, String)> = Vec::new();
    let mut i: usize = 0;
    while i < panes.len()
        invariant
            i <= panes@.len(),
            label_views(out@) == traded(panes@.take(i as int), src@, tgt@),
        decreases panes@.len() - i,
    {
        let p = &panes[i];
        let n = if same_text(p.pane_id.as_str(), tgt) {
            short_pane_id(src)
        } else if same_text(p.pane_id.as_str(), src) {
            short_pane_id(tgt)
        } else {
            pane_number(p)
        };
        let ghost before = out@;
        out.push((p.pane_id.clone(), n));
        proof {
            assert(label_views(out@) =~= label_views(before).push((p.pane_id@, n@)));
            assert(traded(panes@.take(i + 1), src@, tgt@) =~= traded(panes@.take(i as int), src@, tgt@).push(
                (p.pane_id@, n@),
            ));
        }
        i = i + 1;
    }
    proof {
        assert(panes@.take(panes@.len() as int) =~= panes@);
    }
    out
}

pub fn swap_panels(snapshot: &Snapshot, target: &Pane) -> (r: Vec<Panel>)
    ensures
        swap_is(r@, *snapshot, *target),
{
    let source = &snapshot.source;
    let here = match snapshot.source_tab() {
        Some(t) => t,
        None => return Vec::new(),
    };
    let there = match snapshot.tab(target.tab_id.as_str()) {
        Some(t) => t,
        None => return Vec::new(),
    };
    if same_text(here.tab.tab_id.as_str(), there.tab.tab_id.as_str()) {
        let caption = tab_number(here);
        let shape = match here.layout() {
            Some(s) => s,
            None => return vec![Panel::unreadable(caption.as_str())],
        };
        let labels = traded_labels(&here.panes, source.pane_id.as_str(), target.pane_id.as_str());
        return vec![Panel::new(caption.as_str(), shape).marking(one(target.pane_id.as_str())).labeling(labels)];
    }
    let left_caption = tab_number(here);
    let right_caption = tab_number(there);
    let left = here.layout();
    let right = there.layout();
    match (left, right) {
        (Some(a), Some(b)) => {
            let target_name = pane_number(target);
            let source_name = pane_number(source);
            let none: Vec<String> = Vec::new();
            proof {
                assert(string_views(none@) =~= Seq::<Seq<char>>::empty());
            }
            let first = Panel::new(left_caption.as_str(), a).marking(none).labeling(
                renamed_labels(&here.panes, source.pane_id.as_str(), target_name.as_str()),
            );
            let second = Panel::new(right_caption.as_str(), b).marking(one(target.pane_id.as_str())).labeling(
                renamed_labels(&there.panes, target.pane_id.as_str(), source_name.as_str()),
            );
            vec![first, second]
        },
        _ => vec![Panel::unreadable(left_caption.as_str()), Panel::unreadable(right_caption.as_str())],
    }
}

// ---------------------------------------------------------------------------
// The legend under a picture
// ---------------------------------------------------------------------------

/// Every pane id the panels write a name for, panel by panel.
pub open spec fn label_ids(panels: Seq<Panel>) -> Seq<Seq<char>>
    decreases panels.len(),
{
    if panels.len() == 0 {
        seq![]
    } else {
        label_ids(panels.drop_last()) + label_views(panels.last().labels@).map_values(|l: (Seq<char>, Seq<char>)| l.0)
    }
}

/// Every pane id the panels fill, panel by panel.
pub open spec fn marked_ids(panels: Seq<Panel>) -> Seq<Seq<char>>
    decreases panels.len(),
{
    if panels.len() == 0 {
        seq![]
    } else {
        marked_ids(panels.drop_last()) + string_views(panels.last().marked@)
    }
}

/// The ids in order of first appearance.
pub open spec fn first_seen(ids: Seq<Seq<char>>) -> Seq<Seq<char>>
    decreases ids.len(),
{
    if ids.len() == 0 {
        seq![]
    } else {
        let rest = first_seen(ids.drop_last());
        if rest.contains(ids.last()) { rest } else { rest.push(ids.last()) }
    }
}

/// The panes the snapshot knows among `ids`, in order.
pub open spec fn found_panes(s: Snapshot, ids: Seq<Seq<char>>) -> Seq<Pane>
    decreases ids.len(),
{
    if ids.len() == 0 {
        seq![]
    } else {
        let rest = found_panes(s, ids.drop_last());
        match crate::state::pane_from(s.entries(), ids.last(), 0) {
            Some(k) => rest.push(s.entries()[k.0].1.panes@[k.1]),
            None => rest,
        }
    }
}

/// The lines under a picture: the filled box's short name after the fill
/// itself, then one line for each of the first four panes named in it.
pub open spec fn legend_of(panels: Seq<Panel>, s: Snapshot) -> Seq<Seq<char>> {
    let found = found_panes(s, first_seen(label_ids(panels)));
    let shown = if found.len() < 4 { found } else { found.take(4) };
    let lines = shown.map_values(|p: Pane| pane_line_of(p));
    let filled = found_panes(s, marked_ids(panels));
    if filled.len() > 0 {
        seq![seq![crate::term::HIGHLIGHT, ' '] + short_id(filled[0].pane_id@)] + lines
    } else {
        lines
    }
}

fn all_label_ids(panels: &Vec<Panel>) -> (r: Vec<String>)
    ensures
        string_views(r@) == label_ids(panels@),
{
    let mut out: Vec<String> = Vec::new();
    let mut i: usize = 0;
    while i < panels.len()
        invariant
            i <= panels@.len(),
            string_views(out@) == label_ids(panels@.take(i as int)),
        decreases panels@.len() - i,
    {
        let labels = &panels[i].labels;
        let ghost base = string_views(out@);
        let ghost ids = label_views(labels@).map_values(|l: (Seq<char>, Seq<char>)| l.0);
        let mut j: usize = 0;
        proof {
            assert(base + ids.take(0) =~= base);
        }
        while j < labels.len()
            invariant
                j <= labels@.len(),
                ids == label_views(labels@).map_values(|l: (Seq<char>, Seq<char>)| l.0),
                ids.len() == labels@.len(),
                string_views(out@) == base + ids.take(j as int),
            decreases labels@.len() - j,
        {
            let ghost before = out@;
            out.push(labels[j].0.clone());
            proof {
                assert(string_views(out@) =~= string_views(before).push(labels@[j as int].0@));
                assert(base + ids.take(j + 1) =~= (base + ids.take(j as int)).push(ids[j as int]));
            }
            j = j + 1;
        }
        proof {
            assert(ids.take(labels@.len() as int) =~= ids);
            assert(panels@.take(i + 1).drop_last() =~= panels@.take(i as int));
            assert(panels@.take(i + 1).last() == panels@[i as int]);
        }
        i = i + 1;
    }
    proof {
        assert(panels@.take(panels@.len() as int) =~= panels@);
    }
    out
}

fn all_marked_ids(panels: &Vec<Panel>) -> (r: Vec<String>)
    ensures
        string_views(r@) == marked_ids(panels@),
{
    let mut out: Vec<String> = Vec::new();
    let mut i: usize = 0;
    while i < panels.len()
        invariant
            i <= panels@.len(),
            string_views(out@) == marked_ids(panels@.take(i as int)),
        decreases panels@.len() - i,
    {
        let marked = &panels[i].marked;
        let ghost base = string_views(out@);
        let mut j: usize = 0;
        proof {
            assert(base + string_views(marked@).take(0) =~= base);
        }
        while j < marked.len()
            invariant
                j <= marked@.len(),
                string_views(out@) == base + string_views(marked@).take(j as int),
            decreases marked@.len() - j,
        {
            let ghost before = out@;
            out.push(marked[j].clone());
            proof {
                assert(string_views(out@) =~= string_views(before).push(marked@[j as int]@));
                assert(base + string_views(marked@).take(j + 1) =~= (base + string_views(marked@).take(j as int)).push(
                    marked@[j as int]@,
                ));
            }
            j = j + 1;
        }
        proof {
            assert(string_views(marked@).take(marked@.len() as int) =~= string_views(marked@));
            assert(panels@.take(i + 1).drop_last() =~= panels@.take(i as int));
            assert(panels@.take(i + 1).last() == panels@[i as int]);
        }
        i = i + 1;
    }
    proof {
        assert(panels@.take(panels@.len() as int) =~= panels@);
    }
    out
}

fn contains_id(v: &Vec<String>, x: &String) -> (r: bool)
    ensures
        r == string_views(v@).contains(x@),
{
    let mut i: usize = 0;
    while i < v.len()
        invariant
            i <= v@.len(),
            forall|k: int| 0 <= k < i ==> v@[k]@ != x@,
        decreases v@.len() - i,
    {
        if same_text(v[i].as_str(), x.as_str()) {
            proof {
                assert(string_views(v@)[i as int] == x@);
            }
            return true;
        }
        i = i + 1;
    }
    proof {
        if string_views(v@).contains(x@) {
            let k = choose|k: int| 0 <= k < string_views(v@).len() && string_views(v@)[k] == x@;
            assert(v@[k]@ == x@);
        }
    }
    false
}

fn first_seen_of(ids: &Vec<String>) -> (r: Vec<String>)
    ensures
        string_views(r@) == first_seen(string_views(ids@)),
{
    let mut out: Vec<String> = Vec::new();
    let mut i: usize = 0;
    while i < ids.len()
        invariant
            i <= ids@.len(),
            string_views(out@) == first_seen(string_views(ids@).take(i as int)),
        decreases ids@.len() - i,
    {
        proof {
            assert(string_views(ids@).take(i + 1).drop_last() =~= string_views(ids@).take(i as int));
            assert(string_views(ids@).take(i + 1).last() == ids@[i as int]@);
        }
        if !contains_id(&out, &ids[i]) {
            let ghost before = out@;
            out.push(ids[i].clone());
            proof {
                assert(string_views(out@) =~= string_views(before).push(ids@[i as int]@));
            }
        }
        i = i + 1;
    }
    proof {
        assert(string_views(ids@).take(ids@.len() as int) =~= string_views(ids@));
    }
    out
}

fn found_of<'a>(snapshot: &'a Snapshot, ids: &Vec<String>) -> (r: Vec<&'a Pane>)
    ensures
        derefs(r@) == found_panes(*snapshot, string_views(ids@)),
{
    let mut out: Vec<&Pane> = Vec::new();
    let mut i: usize = 0;
    while i < ids.len()
        invariant
            i <= ids@.len(),
            derefs(out@) == found_panes(*snapshot, string_views(ids@).take(i as int)),
        decreases ids@.len() - i,
    {
        proof {
            assert(string_views(ids@).take(i + 1).drop_last() =~= string_views(ids@).take(i as int));
            assert(string_views(ids@).take(i + 1).last() == ids@[i as int]@);
        }
        match snapshot.pane(ids[i].as_str()) {
            Some(p) => {
                let ghost before = out@;
                out.push(p);
                proof {
                    assert(derefs(out@) =~= derefs(before).push(*p));
                }
            },
            None => {},
        }
        i = i + 1;
    }
    proof {
        assert(string_views(ids@).take(ids@.len() as int) =~= string_views(ids@));
    }
    out
}

/// References to panes, read as the panes themselves.
pub open spec fn derefs(v: Seq<&Pane>) -> Seq<Pane> {
    v.map_values(|p: &Pane| *p)
}

/// Name every pane the picture mentions, under the picture.
pub fn legend(panels: &Vec<Panel>, snapshot: &Snapshot) -> (r: Vec<String>)
    ensures
        string_views(r@) == legend_of(panels@, *snapshot),
{
    let ids = all_label_ids(panels);
    let seen = first_seen_of(&ids);
    let found = found_of(snapshot, &seen);
    let n = if found.len() < 4 { found.len() } else { 4 };
    let ghost fv = derefs(found@);
    let ghost shown = if fv.len() < 4 { fv } else { fv.take(4) };
    let mut lines: Vec<String> = Vec::new();
    let mut i: usize = 0;
    while i < n
        invariant
            n == shown.len(),
            n <= found@.len(),
            fv == derefs(found@),
            shown == (if fv.len() < 4 { fv } else { fv.take(4) }),
            i <= n,
            string_views(lines@) == shown.take(i as int).map_values(|p: Pane| pane_line_of(p)),
        decreases n - i,
    {
        let ghost before = lines@;
        lines.push(pane_line(found[i]));
        proof {
            assert(string_views(lines@) =~= string_views(before).push(pane_line_of(shown[i as int])));
            assert(shown.take(i + 1).map_values(|p: Pane| pane_line_of(p)) =~= shown.take(i as int).map_values(
                |p: Pane| pane_line_of(p),
            ).push(pane_line_of(shown[i as int])));
        }
        i = i + 1;
    }
    proof {
        assert(shown.take(n as int) =~= shown);
    }
    let marked = all_marked_ids(panels);
    let filled = found_of(snapshot, &marked);
    if filled.len() > 0 {
        let mut first = String::new();
        push_char(&mut first, crate::term::HIGHLIGHT);
        push_char(&mut first, ' ');
        let name = pane_number(filled[0]);
        proof {
            assert(derefs(filled@)[0] == *filled@[0]);
        }
        push_str(&mut first, name.as_str());
        let ghost rest = lines@;
        proof {
            assert(first@ =~= seq![crate::term::HIGHLIGHT, ' '] + short_id(derefs(filled@)[0].pane_id@));
        }
        lines.insert(0, first);
        proof {
            assert(string_views(lines@) =~= seq![first@] + string_views(rest));
        }
    }
    lines
}

/// A row whose picture comes with the names of what is in it.
pub fn illustrated(row: Row, panels: Vec<Panel>, snapshot: &Snapshot) -> (r: Row)
    ensures
        r.kind == row.kind,
        r.primary == row.primary,
        r.hotkey == row.hotkey,
        r.secondary == row.secondary,
        r.preview is Some <==> panels@.len() > 0,
        r.preview matches Some(p) ==> p.panels == panels && string_views(p.legend@) == legend_of(panels@, *snapshot),
        r.detail == row.detail,
        r.glyph == row.glyph,
        r.glyph_color == row.glyph_color,
        r.trailing == row.trailing,
{
    let lines = legend(&panels, snapshot);
    row.panels(panels).legend(lines)
}

// ---------------------------------------------------------------------------
// Counting what a Gather would take
// ---------------------------------------------------------------------------

/// Every pane of the snapshot's own workspace, tab by tab.
pub open spec fn tab_panes(tabs: Seq<TabEntry>) -> Seq<Pane>
    decreases tabs.len(),
{
    if tabs.len() == 0 {
        seq![]
    } else {
        tab_panes(tabs.drop_last()) + tabs.last().panes@
    }
}

/// A pane the Gather picture counts: it runs an agent of a wanted kind.
/// Its state does not matter: an agent waiting for its user reports idle,
/// and leaving those out made the count flicker as agents worked.
pub open spec fn gatherable(p: Pane, g: crate::pm_config::GatherConfig) -> bool {
    &&& p.agent is Some
    &&& kind_ok(g.agents@, p.agent->0@)
}

/// Whether the agent filter lets `kind` through: no filter, or one entry
/// matching it ignoring ASCII case.
pub open spec fn kind_ok(kinds: Seq<String>, kind: Seq<char>) -> bool {
    kinds.len() == 0 || exists|i: int| 0 <= i < kinds.len() && crate::text::eq_ignore_ascii_case(#[trigger] kinds[i]@, kind)
}

/// Gather's order for panes: more urgent status first, then by pane id.
pub open spec fn pane_before(a: Pane, b: Pane) -> bool {
    let pa = crate::model::status_priority(a.agent_status);
    let pb = crate::model::status_priority(b.agent_status);
    if pa != pb { pa < pb } else { crate::gather::text_lt(a.pane_id@, b.pane_id@) }
}

pub open spec fn pane_insert_at(s: Seq<Pane>, x: Pane, i: int) -> int
    decreases s.len() - i,
{
    if i < 0 || i >= s.len() {
        s.len() as int
    } else if pane_before(x, s[i]) {
        i
    } else {
        pane_insert_at(s, x, i + 1)
    }
}

/// Stable sort by [`pane_before`].
pub open spec fn panes_sorted(s: Seq<Pane>) -> Seq<Pane>
    decreases s.len(),
{
    if s.len() == 0 {
        s
    } else {
        let t = panes_sorted(s.drop_last());
        t.insert(pane_insert_at(t, s.last(), 0), s.last())
    }
}

pub open spec fn gatherable_upto(panes: Seq<Pane>, g: crate::pm_config::GatherConfig, n: int) -> Seq<Pane>
    decreases n,
{
    if n <= 0 {
        seq![]
    } else if gatherable(panes[n - 1], g) {
        gatherable_upto(panes, g, n - 1).push(panes[n - 1])
    } else {
        gatherable_upto(panes, g, n - 1)
    }
}

/// What a Gather would take from the panes on screen, by short name, most
/// urgent first.
pub open spec fn gatherable_names(s: Snapshot, c: Config) -> Seq<Seq<char>> {
    let all = tab_panes(s.tabs@);
    panes_sorted(gatherable_upto(all, c.gather, all.len() as int)).map_values(|p: Pane| short_id(p.pane_id@))
}

fn kind_wanted(kind: &String, g: &crate::pm_config::GatherConfig) -> (r: bool)
    ensures
        r == kind_ok(g.agents@, kind@),
{
    if g.agents.len() == 0 {
        return true;
    }
    let mut i: usize = 0;
    while i < g.agents.len()
        invariant
            i <= g.agents@.len(),
            g.agents@.len() > 0,
            forall|k: int| 0 <= k < i ==> !crate::text::eq_ignore_ascii_case(#[trigger] g.agents@[k]@, kind@),
        decreases g.agents@.len() - i,
    {
        if crate::text::same_ignoring_ascii_case(g.agents[i].as_str(), kind.as_str()) {
            return true;
        }
        i = i + 1;
    }
    false
}

fn before_pane(a: &Pane, b: &Pane) -> (r: bool)
    ensures
        r == pane_before(*a, *b),
{
    let pa = a.agent_status.priority();
    let pb = b.agent_status.priority();
    if pa != pb {
        pa < pb
    } else {
        crate::gather::text_less(a.pane_id.as_str(), b.pane_id.as_str())
    }
}

fn flat_panes(tabs: &Vec<TabEntry>) -> (r: Vec<&Pane>)
    ensures
        derefs(r@) == tab_panes(tabs@),
{
    let mut out: Vec<&Pane> = Vec::new();
    let mut i: usize = 0;
    while i < tabs.len()
        invariant
            i <= tabs@.len(),
            derefs(out@) == tab_panes(tabs@.take(i as int)),
        decreases tabs@.len() - i,
    {
        let panes = &tabs[i].panes;
        let ghost base = derefs(out@);
        let mut j: usize = 0;
        proof {
            assert(base + panes@.take(0) =~= base);
        }
        while j < panes.len()
            invariant
                j <= panes@.len(),
                derefs(out@) == base + panes@.take(j as int),
            decreases panes@.len() - j,
        {
            let ghost before = out@;
            out.push(&panes[j]);
            proof {
                assert(derefs(out@) =~= derefs(before).push(panes@[j as int]));
                assert(base + panes@.take(j + 1) =~= (base + panes@.take(j as int)).push(panes@[j as int]));
            }
            j = j + 1;
        }
        proof {
            assert(panes@.take(panes@.len() as int) =~= panes@);
            assert(tabs@.take(i + 1).drop_last() =~= tabs@.take(i as int));
            assert(tabs@.take(i + 1).last() == tabs@[i as int]);
        }
        i = i + 1;
    }
    proof {
        assert(tabs@.take(tabs@.len() as int) =~= tabs@);
    }
    out
}

/// How many agents a Gather would take, counted from the panes on screen,
/// named as the boxes will be, most urgent first.
pub fn gatherable_here(snapshot: &Snapshot, config: &Config) -> (r: Vec<String>)
    ensures
        string_views(r@) == gatherable_names(*snapshot, *config),
{
    let all = flat_panes(&snapshot.tabs);
    let mut chosen: Vec<&Pane> = Vec::new();
    let mut i: usize = 0;
    while i < all.len()
        invariant
            i <= all@.len(),
            derefs(all@) == tab_panes(snapshot.tabs@),
            derefs(chosen@) == panes_sorted(gatherable_upto(derefs(all@), config.gather, i as int)),
        decreases all@.len() - i,
    {
        let p = all[i];
        proof {
            assert(derefs(all@)[i as int] == *p);
        }
        let wanted = match &p.agent {
            Some(kind) => {
                let k = kind_wanted(kind, &config.gather);
                proof {
                    assert(p.agent->0 == *kind);
                }
                k
            },
            None => false,
        };
        proof {
            assert(wanted == gatherable(*p, config.gather));
        }
        if wanted {
            let ghost t = derefs(chosen@);
            let ghost raw = chosen@;
            let mut at: usize = 0;
            while at < chosen.len() && !before_pane(p, chosen[at])
                invariant
                    i < all@.len(),
                    *p == derefs(all@)[i as int],
                    chosen@ == raw,
                    t == derefs(raw),
                    at <= t.len(),
                    pane_insert_at(t, *p, at as int) == pane_insert_at(t, *p, 0),
                decreases t.len() - at,
            {
                proof {
                    assert(t[at as int] == *chosen@[at as int]);
                }
                at = at + 1;
            }
            proof {
                if at < t.len() {
                    assert(t[at as int] == *chosen@[at as int]);
                }
                assert(pane_insert_at(t, *p, at as int) == at);
                let w = gatherable_upto(derefs(all@), config.gather, i + 1);
                assert(w == gatherable_upto(derefs(all@), config.gather, i as int).push(derefs(all@)[i as int]));
                assert(w.drop_last() =~= gatherable_upto(derefs(all@), config.gather, i as int));
            }
            chosen.insert(at, p);
            proof {
                assert(derefs(chosen@) =~= t.insert(at as int, *p));
            }
        }
        i = i + 1;
    }
    let ghost sorted = derefs(chosen@);
    let mut out: Vec<String> = Vec::new();
    let mut k: usize = 0;
    while k < chosen.len()
        invariant
            k <= chosen@.len(),
            sorted == derefs(chosen@),
            string_views(out@) == sorted.take(k as int).map_values(|p: Pane| short_id(p.pane_id@)),
        decreases chosen@.len() - k,
    {
        let ghost before = out@;
        proof {
            assert(sorted[k as int] == *chosen@[k as int]);
        }
        out.push(pane_number(chosen[k]));
        proof {
            assert(string_views(out@) =~= string_views(before).push(short_id(sorted[k as int].pane_id@)));
            assert(sorted.take(k + 1).map_values(|p: Pane| short_id(p.pane_id@)) =~= sorted.take(k as int).map_values(
                |p: Pane| short_id(p.pane_id@),
            ).push(short_id(sorted[k as int].pane_id@)));
        }
        k = k + 1;
    }
    proof {
        assert(sorted.take(sorted.len() as int) =~= sorted);
    }
    out
}

// ---------------------------------------------------------------------------
// The picture for each operation
// ---------------------------------------------------------------------------

/// The pane a Swap trades with when none was picked: the next one in the
/// reader's tab.
pub open spec fn next_pane_of(s: Snapshot) -> Option<Pane> {
    match entry_from(s.entries(), s.source.tab_id@, 0) {
        Some(t) => match crate::state::pane_index_from(s.entries()[t].1.panes@, s.source.pane_id@, 0) {
            Some(here) => match crate::state::next_pane_from(s.entries()[t].1.panes@, here, s.source.pane_id@, 1) {
                Some(k) => Some(s.entries()[t].1.panes@[k]),
                None => None,
            },
            None => None,
        },
        None => None,
    }
}

pub open spec fn here_now_is(r: Panel, s: Snapshot) -> bool {
    match source_entry(s) {
        Some(e) => match layout_of(e) {
            Some(t) => panel_is(r, here_name_of(s), t, seq![s.source.pane_id@], pane_labels(e.panes@)),
            None => unreadable_panel(r, here_name_of(s)),
        },
        None => unreadable_panel(r, here_name_of(s)),
    }
}

/// The tab a pane is cut out into: named as it will be, the pane alone in
/// it, the tab it leaves as the sheet behind.
pub open spec fn new_tab_panel_is(r: Panel, s: Snapshot, c: Config) -> bool {
    let name = if !c.auto_name_new_tab { None } else { crate::label::new_tab_label_of(s.source) };
    let src = s.source.pane_id@;
    &&& r.caption@ == (match name {
        Some(l) => l,
        None => "新しい Tab"@,
    })
    &&& r.shape matches Some(t) && t@ == Tree::Leaf(src)
    &&& !r.unreadable
    &&& string_views(r.marked@) == seq![src]
    &&& label_views(r.labels@) == seq![(src, short_id(src))]
    &&& r.stacked
    &&& r.behind matches Some(b) && b@ == here_name_of(s)
}

/// What a Fold draws on the left: the reader's tab, the reader's own pane
/// filled.
pub open spec fn fold_source_is(r: Panel, s: Snapshot, here: TabEntry) -> bool {
    panel_is(
        r,
        tab_number_of(here),
        match here.shape {
            Some(t) => t@,
            None => Tree::Leaf(s.source.pane_id@),
        },
        seq![s.source.pane_id@],
        pane_labels(here.panes@),
    )
}

/// What each operation of the menu would leave behind.
pub open spec fn operation_preview_is(r: Seq<Panel>, choice: crate::manager::Choice, s: Snapshot, c: Config) -> bool {
    match choice {
        crate::manager::Choice::Move => {
            &&& r.len() == 2
            &&& here_now_is(r[0], s)
            &&& match crate::state::next_tab_of(s) {
                Some(t) => destination_is(seq![r[1]], t, Some(configured_side(c)), Some(s.source)),
                None => new_tab_panel_is(r[1], s, c),
            }
        },
        crate::manager::Choice::Extract => r.len() == 2 && here_now_is(r[0], s) && new_tab_panel_is(r[1], s, c),
        crate::manager::Choice::Swap => match next_pane_of(s) {
            Some(p) => swap_is(r, s, p),
            None => r.len() == 0,
        },
        crate::manager::Choice::Merge => match source_entry(s) {
            None => r.len() == 0,
            Some(here) => {
                &&& r.len() >= 1
                &&& fold_source_is(r[0], s, here)
                &&& match crate::state::next_tab_of(s) {
                    Some(t) => {
                        let f = fold_picture(
                            t,
                            crate::ops::pane_ids_of(here.panes@),
                            pane_labels(here.panes@),
                            crate::state::shape_view(here.shape),
                            c,
                        );
                        r.len() == 2 && drawn_as(r[1], tab_number_of(t), f.0, seq![s.source.pane_id@], f.2)
                    },
                    None => r.len() == 1,
                }
            },
        },
        _ => r.len() == 0,
    }
}

fn new_tab_panel(snapshot: &Snapshot, config: &Config) -> (r: Panel)
    ensures
        new_tab_panel_is(r, *snapshot, *config),
{
    let source = &snapshot.source;
    let caption = match config.new_tab_label(source, None) {
        Some(l) => l,
        None => owned("新しい Tab"),
    };
    let mut labels: Vec<(String, String)> = Vec::new();
    labels.push((source.pane_id.clone(), pane_number(source)));
    proof {
        assert(label_views(labels@) =~= seq![(source.pane_id@, short_id(source.pane_id@))]);
    }
    let here = here_name(snapshot);
    Panel::new(caption.as_str(), Shape::pane(source.pane_id.as_str()))
        .marking(one(source.pane_id.as_str()))
        .labeling(labels)
        .behind(here.as_str())
}

pub fn ids_of(panes: &Vec<Pane>) -> (r: Vec<String>)
    ensures
        string_views(r@) == crate::ops::pane_ids_of(panes@),
{
    let mut out: Vec<String> = Vec::new();
    let mut i: usize = 0;
    while i < panes.len()
        invariant
            i <= panes@.len(),
            string_views(out@) == crate::ops::pane_ids_of(panes@.take(i as int)),
        decreases panes@.len() - i,
    {
        let ghost before = out@;
        out.push(panes[i].pane_id.clone());
        proof {
            assert(string_views(out@) =~= string_views(before).push(panes@[i as int].pane_id@));
            assert(crate::ops::pane_ids_of(panes@.take(i + 1)) =~= crate::ops::pane_ids_of(panes@.take(i as int)).push(
                panes@[i as int].pane_id@,
            ));
        }
        i = i + 1;
    }
    proof {
        assert(panes@.take(panes@.len() as int) =~= panes@);
    }
    out
}

/// The pictures for each operation in the menu: what the session looks
/// like afterwards. A pane crossing between tabs is drawn as a pair.
pub fn operation_preview(choice: &crate::manager::Choice, snapshot: &Snapshot, config: &Config) -> (r: Vec<Panel>)
    ensures
        operation_preview_is(r@, *choice, *snapshot, *config),
{
    match choice {
        crate::manager::Choice::Move => {
            let left = here_now(snapshot);
            let right = match snapshot.next_tab() {
                Some(tab) => real_destination(tab, snapshot, config),
                None => new_tab_panel(snapshot, config),
            };
            vec![left, right]
        },
        crate::manager::Choice::Extract => vec![here_now(snapshot), new_tab_panel(snapshot, config)],
        crate::manager::Choice::Swap => match snapshot.next_pane_here() {
            Some(partner) => swap_panels(snapshot, partner),
            None => Vec::new(),
        },
        crate::manager::Choice::Merge => {
            let here = match snapshot.source_tab() {
                Some(t) => t,
                None => return Vec::new(),
            };
            let moving = ids_of(&here.panes);
            let labels = labels_of(&here.panes);
            let shape = match &here.shape {
                Some(s) => s.duplicate(),
                None => Shape::pane(snapshot.source.pane_id.as_str()),
            };
            let caption = tab_number(here);
            let left = Panel::new(caption.as_str(), shape).marking(one(snapshot.source.pane_id.as_str())).labeling(
                labels_of(&here.panes),
            );
            match snapshot.next_tab() {
                Some(tab) => {
                    let source_shape = match &here.shape {
                        Some(s) => Some(s),
                        None => None,
                    };
                    let right = folded_into(tab, moving.as_slice(), labels.as_slice(), source_shape, config).marking(
                        one(snapshot.source.pane_id.as_str()),
                    );
                    vec![left, right]
                },
                None => vec![left],
            }
        },
        _ => Vec::new(),
    }
}

} // verus!
