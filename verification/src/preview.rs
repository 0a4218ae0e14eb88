//! The pictures: what each Pane Manager operation would leave behind, drawn.
//!
//! One place per operation, built from the same planners the operations use,
//! so a picture cannot drift away from what the operation really does.
use vstd::prelude::*;

use crate::gather::{gather_steps, plan as gather_plan, Session};
use crate::layout::{replay, string_views, Shape, Tree};
use crate::term::label_views;
use crate::model::Pane;
use crate::navigator::colon_from;
use crate::pm_config::Config;
use crate::state::TabEntry;
use crate::term::Panel;
use crate::text::{decimal, decimal_string, owned, push_decimal, push_str, trim};
use crate::undo::Record;

verus! {

/// Stand-in id for the pane being placed. Starts with a control character so
/// it cannot collide with a real pane id.
pub const ARRIVING: &'static str = "\u{1}arriving";

/// Stand-in id for a pane that is already in the destination.
pub const ELSEWHERE: &'static str = "\u{1}elsewhere";

/// The stand-in ids of a Gather tab of `n` panes (at least one).
pub open spec fn slot_ids(n: nat) -> Seq<Seq<char>> {
    Seq::new(if n == 0 { 1nat } else { n }, |i: int| ARRIVING@ + decimal(i as nat))
}

/// The shape of one Gather tab holding `panes` agents, with its stand-in
/// ids. Built from the real Gather planner.
pub fn gathered_shape(panes: usize) -> (r: Option<(Shape, Vec<String>)>)
    ensures
        r is Some,
        string_views((r->0).1@) == slot_ids(panes as nat),
        (r->0).0@ == replay(Tree::Leaf(slot_ids(panes as nat)[0]), gather_steps(slot_ids(panes as nat))),
{
    let n = if panes == 0 { 1 } else { panes };
    let mut ids: Vec<String> = Vec::new();
    let mut i: usize = 0;
    while i < n
        invariant
            n == if panes == 0 { 1 } else { panes },
            i <= n,
            string_views(ids@) == slot_ids(panes as nat).take(i as int),
        decreases n - i,
    {
        let mut id = owned(ARRIVING);
        push_decimal(&mut id, i);
        let ghost prev = ids@;
        ids.push(id);
        proof {
            assert(string_views(ids@) =~= string_views(prev).push(ARRIVING@ + decimal(i as nat)));
            assert(slot_ids(panes as nat).take(i + 1) =~= slot_ids(panes as nat).take(i as int).push(ARRIVING@ + decimal(i as nat)));
        }
        i = i + 1;
    }
    proof {
        assert(slot_ids(panes as nat).take(n as int) =~= slot_ids(panes as nat));
    }
    match gather_plan(ids.as_slice()) {
        Some(plan) => Some((plan.simulate(), ids)),
        None => None,
    }
}

/// How many tabs `panes` agents fill at `per_tab` a tab.
pub open spec fn tabs_for(panes: nat, per_tab: nat) -> nat {
    if per_tab == 0 {
        panes
    } else if panes % per_tab == 0 {
        panes / per_tab
    } else {
        panes / per_tab + 1
    }
}

fn tabs_needed(panes: usize, per_tab: usize) -> (r: usize)
    requires
        per_tab > 0,
    ensures
        r == tabs_for(panes as nat, per_tab as nat),
{
    if panes % per_tab == 0 {
        panes / per_tab
    } else {
        proof {
            vstd::arithmetic::div_mod::lemma_mod_bound(panes as int, per_tab as int);
            vstd::arithmetic::div_mod::lemma_small_mod(0, per_tab as nat);
            if per_tab == 1 {
                vstd::arithmetic::div_mod::lemma_mod_bound(panes as int, 1);
            }
            vstd::arithmetic::div_mod::lemma_div_decreases(panes as int, per_tab as int);
        }
        panes / per_tab + 1
    }
}

/// The configured Gather tab size, as the layout uses it.
pub open spec fn per_tab_of(config: Config) -> nat {
    let m = config.gather.max_panes_per_tab;
    if 2 <= m <= 4 { m as nat } else { 4 }
}

pub open spec fn caption_of(panes: nat, per_tab: nat, label: Seq<char>) -> Seq<char> {
    let tabs = tabs_for(panes, per_tab);
    if tabs > 1 {
        label + " ×"@ + decimal(tabs)
    } else {
        label
    }
}

/// The caption of a Gather picture: the tab's name, with how many tabs it
/// takes when that is more than one.
pub fn gather_caption(panes: usize, config: &Config, label: &str) -> (r: String)
    ensures
        r@ == caption_of(panes as nat, per_tab_of(*config), label@),
{
    let per_tab = config.gather.per_tab().get();
    let tabs = tabs_needed(panes, per_tab);
    if tabs > 1 {
        let mut out = owned(label);
        push_str(&mut out, " ×");
        push_decimal(&mut out, tabs);
        out
    } else {
        owned(label)
    }
}


/// The boxes paired with the names going into them, as far as both go.
pub open spec fn zipped(slots: Seq<Seq<char>>, names: Seq<Seq<char>>) -> Seq<(Seq<char>, Seq<char>)> {
    Seq::new(if slots.len() < names.len() { slots.len() } else { names.len() }, |i: int| (slots[i], names[i]))
}

/// Put the agents' own pane names into the boxes, in priority order. Boxes
/// past the last known name stay blank.
pub fn named(slots: &Vec<String>, names: &[String]) -> (r: Vec<(String, String)>)
    ensures
        label_views(r@) == zipped(string_views(slots@), string_views(names@)),
{
    let n = if slots.len() < names.len() { slots.len() } else { names.len() };
    let mut out: Vec<(String, String)> = Vec::new();
    let mut i: usize = 0;
    while i < n
        invariant
            n == if slots@.len() < names@.len() { slots@.len() } else { names@.len() },
            i <= n,
            label_views(out@) == zipped(string_views(slots@), string_views(names@)).take(i as int),
        decreases n - i,
    {
        let ghost prev = out@;
        out.push((slots[i].clone(), names[i].clone()));
        proof {
            assert(label_views(out@) =~= label_views(prev).push((slots@[i as int]@, names@[i as int]@)));
            assert(zipped(string_views(slots@), string_views(names@)).take(i + 1)
                =~= zipped(string_views(slots@), string_views(names@)).take(i as int).push((slots@[i as int]@, names@[i as int]@)));
        }
        i = i + 1;
    }
    proof {
        assert(zipped(string_views(slots@), string_views(names@)).take(n as int) =~= zipped(string_views(slots@), string_views(names@)));
    }
    out
}

/// The Gather tab drawn for `n` panes: its shape.
pub open spec fn gather_tree(n: nat) -> Tree {
    replay(Tree::Leaf(slot_ids(n)[0]), gather_steps(slot_ids(n)))
}

/// The picture of one Gather tab of `size` panes: captioned with the tab's
/// name, drawn by the Gather planner, nothing filled, the names written in.
pub open spec fn size_panels_are(r: Seq<Panel>, size: nat, names: Seq<Seq<char>>, config: Config) -> bool {
    &&& r.len() == 1
    &&& r[0].caption == config.gather.tab_label
    &&& r[0].shape is Some && r[0].shape->0@ == gather_tree(size)
    &&& r[0].marked@.len() == 0
    &&& label_views(r[0].labels@) == zipped(slot_ids(size), names)
    &&& !r[0].stacked
}

/// One Gather tab drawn at an explicit size, for the rows that choose it.
/// Nothing is filled: the reader's own pane is not one of the agents.
pub fn gather_size_panels(size: usize, names: &[String], config: &Config) -> (r: Vec<Panel>)
    ensures
        size_panels_are(r@, size as nat, string_views(names@), *config),
{
    let (shape, ids) = match gathered_shape(size) {
        Some(x) => x,
        None => return Vec::new(),
    };
    let labels = named(&ids, names);
    let mut panel = Panel::new(config.gather.tab_label.as_str(), shape).labeling(labels);
    panel.caption = config.gather.tab_label.clone();
    vec![panel]
}

/// How many panes a Gather picture draws: the gathered count, else the
/// agents on screen, else a full tab.
pub open spec fn drawn_count(panes: nat, names: nat, per_tab: nat) -> nat {
    if panes == 0 {
        if names == 0 { per_tab } else { names }
    } else {
        panes
    }
}

/// The Gather picture for `panes` agents (or, uncounted, the named ones).
pub open spec fn gather_panels_are(r: Seq<Panel>, panes: nat, names: Seq<Seq<char>>, config: Config) -> bool {
    let per_tab = per_tab_of(config);
    let count = drawn_count(panes, names.len(), per_tab);
    let shown = if count < per_tab { count } else { per_tab };
    &&& r.len() == 1
    &&& r[0].caption@ == caption_of(count, per_tab, config.gather.tab_label@)
    &&& r[0].shape is Some && r[0].shape->0@ == gather_tree(shown)
    &&& r[0].marked@.len() == 0
    &&& label_views(r[0].labels@) == zipped(slot_ids(shown), names)
    &&& r[0].stacked == (tabs_for(count, per_tab) > 1)
    &&& (tabs_for(count, per_tab) > 1 ==> r[0].behind == Some(config.gather.tab_label))
}

/// The Gather picture: one tab, the first of as many as the agents fill,
/// named with the agents that land in it. More than one tab's worth draws a
/// second sheet behind, named too. Nothing is filled.
pub fn gather_panels(panes: usize, names: &[String], config: &Config) -> (r: Vec<Panel>)
    ensures
        gather_panels_are(r@, panes as nat, string_views(names@), *config),
{
    let per_tab = config.gather.per_tab().get();
    let count = if panes == 0 {
        if names.len() == 0 { per_tab } else { names.len() }
    } else {
        panes
    };
    let shown = if count < per_tab { count } else { per_tab };
    let (shape, ids) = match gathered_shape(shown) {
        Some(x) => x,
        None => return Vec::new(),
    };
    let tabs = tabs_needed(count, per_tab);
    let caption = gather_caption(count, config, config.gather.tab_label.as_str());
    let panel = Panel::new(caption.as_str(), shape).labeling(named(&ids, names));
    if tabs > 1 {
        let mut p = panel.behind(config.gather.tab_label.as_str());
        p.behind = Some(config.gather.tab_label.clone());
        vec![p]
    } else {
        vec![panel]
    }
}

/// Herdr's own short name for a pane: `w2N:p5` reads as `p5`.
pub open spec fn short_id(id: Seq<char>) -> Seq<char> {
    match colon_from(id, 0) {
        Some(c) => id.skip(c + 1),
        None => id,
    }
}

/// Herdr's own short name for a pane: `w2N:p5` reads as `p5`.
pub fn short_pane_id(pane_id: &str) -> (r: String)
    ensures
        r@ == short_id(pane_id@),
{
    let cs = crate::text::chars_of(pane_id);
    let mut i: usize = 0;
    while i < cs.len()
        invariant
            cs@ == pane_id@,
            i <= cs@.len(),
            colon_from(pane_id@, 0) == colon_from(pane_id@, i as int),
        decreases cs@.len() - i,
    {
        if cs[i] == ':' {
            let r = crate::text::string_of_range(&cs, i + 1, cs.len());
            proof {
                assert(cs@.subrange(i + 1, cs@.len() as int) =~= pane_id@.skip(i + 1));
            }
            return r;
        }
        i = i + 1;
    }
    owned(pane_id)
}

/// Herdr's own name for a pane, used inside diagrams: unique, and ASCII, so
/// its width in columns is its length.
pub fn pane_number(pane: &Pane) -> (r: String)
    ensures
        r@ == short_id(pane.pane_id@),
{
    short_pane_id(pane.pane_id.as_str())
}

/// What the tab bar calls a tab: its name, or its position when it has none.
pub open spec fn tab_number_of(e: TabEntry) -> Seq<char> {
    match e.tab.label {
        Some(l) => if trim(l@).len() > 0 { trim(l@) } else { decimal(e.position as nat) },
        None => decimal(e.position as nat),
    }
}

/// What the tab bar calls a tab: its name, or its position when it has none.
pub fn tab_number(tab: &TabEntry) -> (r: String)
    ensures
        r@ == tab_number_of(*tab),
{
    match &tab.tab.label {
        Some(l) => {
            let t = crate::text::trimmed(l.as_str());
            if crate::text::chars_of(t.as_str()).len() > 0 {
                t
            } else {
                decimal_string(tab.position)
            }
        },
        None => decimal_string(tab.position),
    }
}

/// Consecutive repeats collapsed to one, as `Vec::dedup` does.
pub open spec fn deduped(s: Seq<Seq<char>>) -> Seq<Seq<char>>
    decreases s.len(),
{
    if s.len() <= 1 {
        s
    } else if s.last() == s[s.len() - 2] {
        deduped(s.drop_last())
    } else {
        deduped(s.drop_last()).push(s.last())
    }
}

pub open spec fn home_labels(o: Seq<crate::place::Origin>) -> Seq<Seq<char>>
    decreases o.len(),
{
    if o.len() == 0 {
        seq![]
    } else {
        match o.last().tab_label {
            Some(l) => home_labels(o.drop_last()).push(l@),
            None => home_labels(o.drop_last()),
        }
    }
}

/// The caption naming the tabs panes go back to: up to two names, then a
/// count of the rest.
pub open spec fn homes_caption(homes: Seq<Seq<char>>) -> Seq<char> {
    if homes.len() == 0 {
        "元の Tab"@
    } else if homes.len() == 1 {
        homes[0]
    } else if homes.len() == 2 {
        homes[0] + " · "@ + homes[1]
    } else {
        homes[0] + " · "@ + homes[1] + " +"@ + decimal((homes.len() - 2) as nat)
    }
}

fn homes_of(origins: &Vec<crate::place::Origin>) -> (r: Vec<String>)
    ensures
        string_views(r@) == deduped(home_labels(origins@)),
{
    let mut raw: Vec<String> = Vec::new();
    let mut i: usize = 0;
    while i < origins.len()
        invariant
            i <= origins@.len(),
            string_views(raw@) == home_labels(origins@.take(i as int)),
        decreases origins@.len() - i,
    {
        proof {
            assert(origins@.take(i + 1).drop_last() =~= origins@.take(i as int));
        }
        match &origins[i].tab_label {
            Some(l) => {
                let ghost prev = raw@;
                raw.push(l.clone());
                proof {
                    assert(string_views(raw@) =~= string_views(prev).push(l@));
                }
            },
            None => {},
        }
        i = i + 1;
    }
    proof {
        assert(origins@.take(origins@.len() as int) =~= origins@);
    }
    let ghost all = string_views(raw@);
    let mut out: Vec<String> = Vec::new();
    let mut k: usize = 0;
    while k < raw.len()
        invariant
            k <= raw@.len(),
            all == string_views(raw@),
            string_views(out@) == deduped(all.take(k as int)),
            k > 0 ==> out@.len() > 0 && out@.last()@ == all[k - 1],
        decreases raw@.len() - k,
    {
        proof {
            assert(all.take(k + 1).drop_last() =~= all.take(k as int));
            lemma_deduped_last(all.take(k as int));
        }
        if k == 0 || !crate::text::same_text(raw[k].as_str(), raw[k - 1].as_str()) {
            let ghost prev = out@;
            out.push(raw[k].clone());
            proof {
                assert(string_views(out@) =~= string_views(prev).push(all[k as int]));
                if k == 0 {
                    assert(all.take(1) =~= seq![all[0]]);
                    assert(deduped(all.take(1)) == all.take(1));
                }
            }
        }
        k = k + 1;
    }
    proof {
        assert(all.take(all.len() as int) =~= all);
    }
    out
}

proof fn lemma_deduped_last(s: Seq<Seq<char>>)
    ensures
        s.len() > 0 ==> deduped(s).len() > 0 && deduped(s).last() == s.last(),
    decreases s.len(),
{
    if s.len() > 1 {
        lemma_deduped_last(s.drop_last());
    }
}

fn caption_for_homes(homes: &Vec<String>) -> (r: String)
    ensures
        r@ == homes_caption(string_views(homes@)),
{
    let n = homes.len();
    if n == 0 {
        owned("元の Tab")
    } else if n == 1 {
        homes[0].clone()
    } else {
        let mut out = homes[0].clone();
        push_str(&mut out, " · ");
        push_str(&mut out, homes[1].as_str());
        if n > 2 {
            push_str(&mut out, " +");
            push_decimal(&mut out, n - 2);
        }
        out
    }
}

pub open spec fn origin_pane_ids(o: Seq<crate::place::Origin>) -> Seq<Seq<char>> {
    o.map_values(|x: crate::place::Origin| x.pane_id@)
}

/// The picture of an undo: nothing for a record without origins, else the
/// returning panes in one tab, captioned with the tabs they return to.
pub open spec fn undo_panels_are(r: Seq<Panel>, record: Record, active: Seq<char>) -> bool {
    &&& record.origins@.len() == 0 ==> r.len() == 0
    &&& record.origins@.len() > 0 ==> {
        let ids = origin_pane_ids(record.origins@);
        &&& r.len() == 1
        &&& r[0].caption@ == homes_caption(deduped(home_labels(record.origins@)))
        &&& r[0].shape is Some && r[0].shape->0@ == replay(Tree::Leaf(ids[0]), gather_steps(ids))
        &&& string_views(r[0].marked@) == ids.filter(|id: Seq<char>| id == active)
        &&& label_views(r[0].labels@) == ids.map_values(|id: Seq<char>| (id, short_id(id)))
    }
}

/// Where undoing would put the panes back: the returning panes in one tab,
/// captioned with the tabs they return to, and filled only where the reader's
/// own pane is among them. A Swap keeps no origins, so it draws nothing.
pub fn undo_panels(record: &Record, active: &str) -> (r: Vec<Panel>)
    ensures
        undo_panels_are(r@, *record, active@),
{
    if record.origins.len() == 0 {
        return Vec::new();
    }
    let ghost ids = origin_pane_ids(record.origins@);
    let mut panes: Vec<String> = Vec::new();
    let mut labels: Vec<(String, String)> = Vec::new();
    let mut marked: Vec<String> = Vec::new();
    let mut i: usize = 0;
    while i < record.origins.len()
        invariant
            i <= record.origins@.len(),
            ids == origin_pane_ids(record.origins@),
            string_views(panes@) == ids.take(i as int),
            label_views(labels@) == ids.take(i as int).map_values(|id: Seq<char>| (id, short_id(id))),
            string_views(marked@) == ids.take(i as int).filter(|id: Seq<char>| id == active@),
        decreases record.origins@.len() - i,
    {
        let id = &record.origins[i].pane_id;
        proof {
            assert(ids.take(i + 1).drop_last() =~= ids.take(i as int));
            assert(ids.take(i + 1).last() == id@);
            reveal(Seq::filter);
        }
        let ghost p0 = panes@;
        panes.push(id.clone());
        let ghost l0 = labels@;
        labels.push((id.clone(), short_pane_id(id.as_str())));
        proof {
            assert(string_views(panes@) =~= string_views(p0).push(id@));
            assert(ids.take(i + 1) =~= ids.take(i as int).push(id@));
            assert(label_views(labels@) =~= label_views(l0).push((id@, short_id(id@))));
            assert(ids.take(i + 1).map_values(|id: Seq<char>| (id, short_id(id)))
                =~= ids.take(i as int).map_values(|id: Seq<char>| (id, short_id(id))).push((id@, short_id(id@))));
        }
        if crate::text::same_text(id.as_str(), active) {
            let ghost m0 = marked@;
            marked.push(id.clone());
            proof {
                assert(string_views(marked@) =~= string_views(m0).push(id@));
            }
        }
        i = i + 1;
    }
    proof {
        assert(ids.take(ids.len() as int) =~= ids);
    }
    let shape = match gather_plan(panes.as_slice()) {
        Some(plan) => plan.simulate(),
        None => return Vec::new(),
    };
    let homes = homes_of(&record.origins);
    let caption = caption_for_homes(&homes);
    vec![Panel::new(caption.as_str(), shape).marking(marked).labeling(labels)]
}

/// The picture of a Restore: the gathered tab, then the tabs its panes go
/// back to; nothing without a recorded Gather.
pub open spec fn restore_panels_are(r: Seq<Panel>, panes: nat, config: Config, session: Option<Session>) -> bool {
    &&& session is None ==> r.len() == 0
    &&& session matches Some(s) ==> {
        let per_tab = per_tab_of(config);
        let shown = if panes < per_tab { panes } else { per_tab };
        let ids = origin_pane_ids(s.origins@);
        &&& r.len() == if ids.len() > 0 { 2nat } else { 1nat }
        &&& r[0].caption@ == caption_of(panes, per_tab, config.gather.tab_label@)
        &&& r[0].shape is Some && r[0].shape->0@ == gather_tree(shown)
        &&& label_views(r[0].labels@) == zipped(slot_ids(shown), ids.map_values(|id: Seq<char>| short_id(id)))
        &&& ids.len() > 0 ==> {
            &&& r[1].caption@ == homes_caption(deduped(home_labels(s.origins@)))
            &&& r[1].shape is Some && r[1].shape->0@ == replay(Tree::Leaf(ids[0]), gather_steps(ids))
            &&& label_views(r[1].labels@) == ids.map_values(|id: Seq<char>| (id, short_id(id)))
        }
    }
}

/// The Restore picture: the gathered tab on the left, named with the panes
/// it holds, then the tabs they go back to. `session` is the recorded
/// Gather, when there is one.
pub fn restore_panels(panes: usize, config: &Config, session: Option<&Session>) -> (r: Vec<Panel>)
    ensures
        restore_panels_are(r@, panes as nat, *config, match session { Some(s) => Some(*s), None => None }),
{
    let per_tab = config.gather.per_tab().get();
    let shown = if panes < per_tab { panes } else { per_tab };
    let (shape, slots) = match gathered_shape(shown) {
        Some(x) => x,
        None => return Vec::new(),
    };
    let session = match session {
        Some(s) => s,
        None => return Vec::new(),
    };
    let ghost ids = origin_pane_ids(session.origins@);
    let mut returning: Vec<String> = Vec::new();
    let mut names: Vec<String> = Vec::new();
    let mut labels: Vec<(String, String)> = Vec::new();
    let mut i: usize = 0;
    while i < session.origins.len()
        invariant
            i <= session.origins@.len(),
            ids == origin_pane_ids(session.origins@),
            string_views(returning@) == ids.take(i as int),
            string_views(names@) == ids.take(i as int).map_values(|id: Seq<char>| short_id(id)),
            label_views(labels@) == ids.take(i as int).map_values(|id: Seq<char>| (id, short_id(id))),
        decreases session.origins@.len() - i,
    {
        let id = &session.origins[i].pane_id;
        let short = short_pane_id(id.as_str());
        let ghost r0 = returning@;
        let ghost n0 = names@;
        let ghost l0 = labels@;
        returning.push(id.clone());
        names.push(short.clone());
        labels.push((id.clone(), short));
        proof {
            assert(ids.take(i + 1) =~= ids.take(i as int).push(id@));
            assert(string_views(returning@) =~= string_views(r0).push(id@));
            assert(string_views(names@) =~= string_views(n0).push(short_id(id@)));
            assert(label_views(labels@) =~= label_views(l0).push((id@, short_id(id@))));
            assert(ids.take(i + 1).map_values(|id: Seq<char>| short_id(id))
                =~= ids.take(i as int).map_values(|id: Seq<char>| short_id(id)).push(short_id(id@)));
            assert(ids.take(i + 1).map_values(|id: Seq<char>| (id, short_id(id)))
                =~= ids.take(i as int).map_values(|id: Seq<char>| (id, short_id(id))).push((id@, short_id(id@))));
        }
        i = i + 1;
    }
    proof {
        assert(ids.take(ids.len() as int) =~= ids);
    }
    let caption = gather_caption(panes, config, config.gather.tab_label.as_str());
    let mut panels: Vec<Panel> = vec![Panel::new(caption.as_str(), shape).labeling(named(&slots, names.as_slice()))];
    match gather_plan(returning.as_slice()) {
        Some(plan) => {
            let homes = homes_of(&session.origins);
            let back = caption_for_homes(&homes);
            panels.push(Panel::new(back.as_str(), plan.simulate()).labeling(labels));
        },
        None => {},
    }
    panels
}

} // verus!
