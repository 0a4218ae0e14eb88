//! The Layout Tools menu: its rows, and the before-and-after pictures drawn
//! beside them.
//!
//! The caller reads the tab, its panes and the saved layouts, runs the menu,
//! and carries out the choice.
use vstd::prelude::*;

use crate::arrange::{arranged, main_pick, others_of, Arrangement};
use crate::label::primary_of;
use crate::layout::{replay, string_views, Plan, Shape, Step, Tree};
use crate::model::Pane;
use crate::state::pane_index_from;
use crate::template::{slots_of, template_steps, Template};
use crate::term::{label_views, panel_is, Panel, Row, HIGHLIGHT};
use crate::text::{chars_of, decimal, decimal_string, owned, push_char, push_decimal, push_str, same_text};

verus! {

/// One pane of the tab, as the pictures name it: its id, its number in
/// layout order, and its name.
#[derive(Debug, Clone)]
pub struct PreviewPane {
    pub id: String,
    pub number: String,
    pub label: String,
}

/// The name a pane goes by in the legend: its own headline when Herdr
/// reports the pane (or it is the pane in play), else `Pane N`.
pub open spec fn preview_label(panes: Seq<Pane>, source: Pane, id: Seq<char>, number: nat) -> Seq<char> {
    match pane_index_from(panes, id, 0) {
        Some(k) => primary_of(panes[k]),
        None => if source.pane_id@ == id { primary_of(source) } else { "Pane "@ + decimal(number) },
    }
}

fn find_pane<'a>(panes: &'a [Pane], id: &str) -> (r: Option<&'a Pane>)
    ensures
        match pane_index_from(panes@, id@, 0) {
            Some(k) => r == Some(&panes@[k]),
            None => r is None,
        },
{
    let mut i: usize = 0;
    while i < panes.len()
        invariant
            i <= panes@.len(),
            pane_index_from(panes@, id@, 0) == pane_index_from(panes@, id@, i as int),
        decreases panes@.len() - i,
    {
        if same_text(panes[i].pane_id.as_str(), id) {
            return Some(&panes[i]);
        }
        i = i + 1;
    }
    None
}

/// The tab's panes, numbered from 1 in layout order and named. `panes` is
/// what Herdr reports for the workspace; `source` is the pane in play.
pub fn preview_panes(pane_ids: &[String], panes: &[Pane], source: &Pane) -> (r: Vec<PreviewPane>)
    requires
        pane_ids@.len() < usize::MAX,
    ensures
        r@.len() == pane_ids@.len(),
        forall|k: int| 0 <= k < r@.len() ==> {
            &&& (#[trigger] r@[k]).id@ == pane_ids@[k]@
            &&& r@[k].number@ == decimal((k + 1) as nat)
            &&& r@[k].label@ == preview_label(panes@, *source, pane_ids@[k]@, (k + 1) as nat)
        },
{
    let mut out: Vec<PreviewPane> = Vec::new();
    let mut i: usize = 0;
    while i < pane_ids.len()
        invariant
            i <= pane_ids@.len() < usize::MAX,
            out@.len() == i,
            forall|k: int| 0 <= k < i ==> {
                &&& (#[trigger] out@[k]).id@ == pane_ids@[k]@
                &&& out@[k].number@ == decimal((k + 1) as nat)
                &&& out@[k].label@ == preview_label(panes@, *source, pane_ids@[k]@, (k + 1) as nat)
            },
        decreases pane_ids@.len() - i,
    {
        let id = &pane_ids[i];
        let number = decimal_string(i + 1);
        let label = match find_pane(panes, id.as_str()) {
            Some(p) => crate::label::pane_primary(p),
            None => if same_text(source.pane_id.as_str(), id.as_str()) {
                crate::label::pane_primary(source)
            } else {
                let mut l = owned("Pane ");
                push_decimal(&mut l, i + 1);
                l
            },
        };
        out.push(PreviewPane { id: id.clone(), number, label });
        i = i + 1;
    }
    out
}

/// What is really visible before and after toggling Zoom. A zoomed tab
/// shows only the pane in play, so that is its "before"; unzoomed, the
/// whole tree is. The pane in play is the one filled afterwards.
pub fn zoom_previews(full: Option<&Shape>, current_pane: &str, zoomed: bool) -> (r: (Option<Shape>, Option<(Shape, Vec<String>)>))
    ensures
        zoomed ==> {
            &&& r.0 matches Some(s) && s@ == Tree::Leaf(current_pane@)
            &&& match full {
                Some(f) => r.1 matches Some(a) && a.0@ == f@ && string_views(a.1@) == seq![current_pane@],
                None => r.1 is None,
            }
        },
        !zoomed ==> {
            &&& match full {
                Some(f) => r.0 matches Some(s) && s@ == f@,
                None => r.0 is None,
            }
            &&& r.1 matches Some(a) && a.0@ == Tree::Leaf(current_pane@) && string_views(a.1@) == seq![current_pane@]
        },
{
    let marked = vec![owned(current_pane)];
    proof {
        assert(string_views(marked@) =~= seq![current_pane@]);
    }
    if zoomed {
        let after = match full {
            Some(f) => Some((f.duplicate(), marked)),
            None => None,
        };
        (Some(Shape::pane(current_pane)), after)
    } else {
        let before = match full {
            Some(f) => Some(f.duplicate()),
            None => None,
        };
        (before, Some((Shape::pane(current_pane), marked)))
    }
}

/// Each pane's id paired with its number, for writing into the boxes.
pub open spec fn number_labels(panes: Seq<PreviewPane>) -> Seq<(Seq<char>, Seq<char>)> {
    panes.map_values(|p: PreviewPane| (p.id@, p.number@))
}


fn numbers(panes: &[PreviewPane]) -> (r: Vec<(String, String)>)
    ensures
        label_views(r@) == number_labels(panes@),
{
    let mut out: Vec<(String, String)> = Vec::new();
    let mut i: usize = 0;
    while i < panes.len()
        invariant
            i <= panes@.len(),
            label_views(out@) == number_labels(panes@).take(i as int),
        decreases panes@.len() - i,
    {
        let ghost before = out@;
        out.push((panes[i].id.clone(), panes[i].number.clone()));
        proof {
            assert(label_views(out@) =~= label_views(before).push((panes@[i as int].id@, panes@[i as int].number@)));
            assert(number_labels(panes@).take(i + 1) =~= number_labels(panes@).take(i as int).push(
                (panes@[i as int].id@, panes@[i as int].number@),
            ));
        }
        i = i + 1;
    }
    proof {
        assert(number_labels(panes@).take(panes@.len() as int) =~= number_labels(panes@));
    }
    out
}

/// The before-and-after pair for one tab changing shape: the current tree,
/// captioned `現在` with the pane in play filled, then the result. Nothing is
/// drawn unless both sides exist.
pub open spec fn transition_is(
    current: Option<Tree>,
    after: Option<(Tree, Seq<Seq<char>>)>,
    panes: Seq<PreviewPane>,
    current_pane: Seq<char>,
    caption: Seq<char>,
    r: Seq<Panel>,
) -> bool {
    match (current, after) {
        (Some(c), Some(a)) => {
            &&& r.len() == 2
            &&& panel_is(r[0], "現在"@, c, seq![current_pane], number_labels(panes))
            &&& panel_is(r[1], caption, a.0, a.1, number_labels(panes))
        },
        _ => r.len() == 0,
    }
}

pub open spec fn tree_of_opt(s: Option<&Shape>) -> Option<Tree> {
    match s {
        Some(x) => Some(x@),
        None => None,
    }
}

pub open spec fn after_view(a: Option<(Shape, Vec<String>)>) -> Option<(Tree, Seq<Seq<char>>)> {
    match a {
        Some(x) => Some((x.0@, string_views(x.1@))),
        None => None,
    }
}

/// Draw one tab before and after an operation, numbered the same way on
/// both sides.
pub fn transition_panels(
    current: Option<&Shape>,
    after: Option<(Shape, Vec<String>)>,
    panes: &[PreviewPane],
    current_pane: &str,
    after_caption: &str,
) -> (r: Vec<Panel>)
    ensures
        transition_is(tree_of_opt(current), after_view(after), panes@, current_pane@, after_caption@, r@),
{
    let current = match current {
        Some(c) => c,
        None => return Vec::new(),
    };
    let (after, marked) = match after {
        Some(a) => a,
        None => return Vec::new(),
    };
    let labels = numbers(panes);
    let labels2 = numbers(panes);
    let mine = vec![owned(current_pane)];
    proof {
        assert(string_views(mine@) =~= seq![current_pane@]);
    }
    let first = Panel::new("現在", current.duplicate()).marking(mine).labeling(labels);
    let second = Panel::new(after_caption, after).marking(marked).labeling(labels2);
    proof {
        reveal_strlit("現在");
    }
    vec![first, second]
}

/// A single unchanged picture, for Save: it only writes a file, so a second
/// identical panel would suggest the tab changes.
pub fn current_panel(current: Option<&Shape>, panes: &[PreviewPane], current_pane: &str, caption: &str) -> (r: Vec<Panel>)
    ensures
        match current {
            Some(c) => r@.len() == 1 && panel_is(r@[0], caption@, c@, seq![current_pane@], number_labels(panes@)),
            None => r@.len() == 0,
        },
{
    let current = match current {
        Some(c) => c,
        None => return Vec::new(),
    };
    let mine = vec![owned(current_pane)];
    proof {
        assert(string_views(mine@) =~= seq![current_pane@]);
    }
    vec![Panel::new(caption, current.duplicate()).marking(mine).labeling(numbers(panes))]
}

/// A name cut to twelve characters, with `…` when something was cut.
pub open spec fn short_label_of(label: Seq<char>) -> Seq<char> {
    if label.len() > 12 {
        label.take(12).push('…')
    } else {
        label
    }
}

pub fn short_label(label: &str) -> (r: String)
    ensures
        r@ == short_label_of(label@),
{
    let cs = chars_of(label);
    if cs.len() > 12 {
        let mut out = crate::text::string_of_range(&cs, 0, 12);
        push_char(&mut out, '…');
        proof {
            assert(cs@.subrange(0, 12) =~= label@.take(12));
        }
        out
    } else {
        owned(label)
    }
}

/// One legend line: the pane in play marked with the fill, then its number
/// and short name.
pub open spec fn legend_line(p: PreviewPane, current_pane: Seq<char>) -> Seq<char> {
    (if p.id@ == current_pane { seq![HIGHLIGHT, ' '] } else { "  "@ }) + p.number@ + ": "@ + short_label_of(p.label@)
}

pub fn legend_lines(panes: &[PreviewPane], current_pane: &str) -> (r: Vec<String>)
    ensures
        string_views(r@) == panes@.map_values(|p: PreviewPane| legend_line(p, current_pane@)),
{
    let mut out: Vec<String> = Vec::new();
    let mut i: usize = 0;
    while i < panes.len()
        invariant
            i <= panes@.len(),
            string_views(out@) == panes@.take(i as int).map_values(|p: PreviewPane| legend_line(p, current_pane@)),
        decreases panes@.len() - i,
    {
        let p = &panes[i];
        let mut line = String::new();
        if same_text(p.id.as_str(), current_pane) {
            push_char(&mut line, HIGHLIGHT);
            push_char(&mut line, ' ');
        } else {
            push_str(&mut line, "  ");
        }
        push_str(&mut line, p.number.as_str());
        push_str(&mut line, ": ");
        let short = short_label(p.label.as_str());
        push_str(&mut line, short.as_str());
        let ghost before = out@;
        proof {
            reveal_strlit("  ");
            reveal_strlit(": ");
            if p.id@ == current_pane@ {
                assert(line@ =~= legend_line(*p, current_pane@));
            } else {
                assert(line@ =~= legend_line(*p, current_pane@));
            }
        }
        out.push(line);
        proof {
            assert(string_views(out@) =~= string_views(before).push(legend_line(panes@[i as int], current_pane@)));
            assert(panes@.take(i + 1).map_values(|p: PreviewPane| legend_line(p, current_pane@))
                =~= panes@.take(i as int).map_values(|p: PreviewPane| legend_line(p, current_pane@)).push(
                legend_line(panes@[i as int], current_pane@),
            ));
        }
        i = i + 1;
    }
    proof {
        assert(panes@.take(panes@.len() as int) =~= panes@);
    }
    out
}

/// A row with its pictures and the legend naming every pane in them.
pub fn illustrated(row: Row, panels: Vec<Panel>, panes: &[PreviewPane], current_pane: &str) -> (r: Row)
    ensures
        r.kind == row.kind,
        r.primary == row.primary,
        r.hotkey == row.hotkey,
        r.secondary == row.secondary,
        r.preview is Some <==> panels@.len() > 0,
        r.preview matches Some(p) ==> p.panels == panels
            && string_views(p.legend@) == panes@.map_values(|x: PreviewPane| legend_line(x, current_pane@)),
{
    let legend = legend_lines(panes, current_pane);
    row.panels(panels).legend(legend)
}

/// Whether the Main arrangements can be planned for these panes: some pane
/// other than the main one is there to stack.
pub open spec fn arrangeable(ids: Seq<Seq<char>>, current_pane: Seq<char>) -> bool {
    ids.len() < 2 || others_of(ids, main_pick(ids, Some(current_pane))).len() > 0
}

/// The tree an arrangement would build, with the pane in play filled.
pub open spec fn arrangement_after(a: Arrangement, ids: Seq<Seq<char>>, current_pane: Seq<char>) -> Option<(Tree, Seq<Seq<char>>)> {
    if ids.len() < 2 {
        None
    } else {
        let p = arranged(a, ids, Some(current_pane));
        Some((replay(Tree::Leaf(p.0), p.1), seq![current_pane]))
    }
}

/// Diagram the target arrangement, built by the same planner the operation
/// runs.
pub fn arrangement_preview(arrangement: Arrangement, panes: &[String], current_pane: &str) -> (r: Option<(Shape, Vec<String>)>)
    requires
        arrangeable(string_views(panes@), current_pane@),
    ensures
        after_view(r) == arrangement_after(arrangement, string_views(panes@), current_pane@),
{
    match arrangement.plan(panes, Some(current_pane)) {
        Some(plan) => {
            let marked = vec![owned(current_pane)];
            proof {
                assert(string_views(marked@) =~= seq![current_pane@]);
            }
            Some((plan.simulate(), marked))
        },
        None => None,
    }
}

/// A saved layout filled with this tab's panes, when the counts agree.
pub open spec fn saved_after(t: Template, ids: Seq<Seq<char>>, current_pane: Seq<char>) -> Option<(Tree, Seq<Seq<char>>)> {
    if ids.len() != slots_of(t) {
        None
    } else {
        Some((replay(Tree::Leaf(ids[0]), template_steps(t, ids)), seq![current_pane]))
    }
}

/// Diagram a saved layout with this tab's panes in its slots. A layout for
/// another number of panes has no picture.
pub fn saved_preview(layout: &Template, panes: &[String], current_pane: &str) -> (r: Option<(Shape, Vec<String>)>)
    requires
        slots_of(*layout) <= usize::MAX,
    ensures
        after_view(r) == saved_after(*layout, string_views(panes@), current_pane@),
{
    match layout.plan(panes) {
        Ok(plan) => {
            let marked = vec![owned(current_pane)];
            proof {
                assert(string_views(marked@) =~= seq![current_pane@]);
            }
            Some((plan.simulate(), marked))
        },
        Err(_) => None,
    }
}

/// What a saved layout's row says: its description, and the pane count it
/// needs when this tab has another.
pub open spec fn saved_note_of(t: Template, panes: nat) -> Seq<char> {
    if slots_of(t) == panes {
        crate::template::describe_of(t)
    } else {
        crate::template::describe_of(t) + " — needs "@ + decimal(panes) + " here"@
    }
}

pub fn saved_note(layout: &Template, panes: usize) -> (r: String)
    requires
        slots_of(*layout) <= usize::MAX,
    ensures
        r@ == saved_note_of(*layout, panes as nat),
{
    let mut note = layout.describe();
    if layout.slots() != panes {
        push_str(&mut note, " — needs ");
        push_decimal(&mut note, panes);
        push_str(&mut note, " here");
    }
    note
}

/// The menu's subtitle: the tab's name and how many panes it has.
pub open spec fn tools_subtitle_of(label: Option<Seq<char>>, panes: nat) -> Seq<char> {
    (match label {
        Some(l) => l,
        None => "this tab"@,
    }) + " · "@ + decimal(panes) + " pane"@ + (if panes == 1 { seq![] } else { "s"@ })
}

pub fn tools_subtitle(label: Option<&str>, panes: usize) -> (r: String)
    ensures
        r@ == tools_subtitle_of(match label { Some(l) => Some(l@), None => None }, panes as nat),
{
    let mut out = match label {
        Some(l) => owned(l),
        None => owned("this tab"),
    };
    push_str(&mut out, " · ");
    push_decimal(&mut out, panes);
    push_str(&mut out, " pane");
    if panes != 1 {
        push_str(&mut out, "s");
    } else {
        proof {
            assert(out@ =~= out@ + Seq::<char>::empty());
        }
    }
    out
}

/// The name to save under, from the naming picker: a chosen existing name,
/// else what was typed (trimmed). Nothing when that is empty.
pub open spec fn chosen_name(chosen: Seq<char>, query: Seq<char>) -> Option<Seq<char>> {
    let name = if chosen.len() == 0 { crate::text::trim(query) } else { chosen };
    if name.len() == 0 { None } else { Some(name) }
}

pub fn name_from_picker(chosen: &str, query: &str) -> (r: Option<String>)
    ensures
        crate::label::opt_view(r) == chosen_name(chosen@, query@),
{
    let name = if chosen.unicode_len() == 0 { crate::text::trimmed(query) } else { owned(chosen) };
    if name.as_str().unicode_len() == 0 {
        None
    } else {
        Some(name)
    }
}

/// What the Layout Tools menu can do.
#[derive(Debug, Clone)]
pub enum Choice {
    Equalize,
    Zoom,
    Arrange(Arrangement),
    Apply(String),
    Save,
    Forget,
    Cancel,
}

/// The arrangements in the order the menu lists them.
pub open spec fn arrangement_at(j: int) -> Arrangement {
    seq![
        Arrangement::Grid,
        Arrangement::Columns,
        Arrangement::Rows,
        Arrangement::MainLeft,
        Arrangement::MainRight,
        Arrangement::MainTop,
    ][j]
}

pub open spec fn saved_values(saved: Seq<(String, Template)>, n: nat) -> Seq<Option<Choice>> {
    saved.map_values(|e: (String, Template)| if slots_of(e.1) == n { Some(Choice::Apply(e.0)) } else { None })
}

/// The value behind each row of the menu, decoration as `None`: Equalize
/// and Zoom, the arrangements under a heading, the saved layouts under
/// theirs (one that needs another pane count is only a note), Save, Delete
/// when there is something to delete, then Cancel.
pub open spec fn tools_values(saved: Seq<(String, Template)>, n: nat, warned: bool) -> Seq<Option<Choice>> {
    seq![Some(Choice::Equalize), Some(Choice::Zoom), None, None]
        + Seq::new(6, |j: int| Some(Choice::Arrange(arrangement_at(j))))
        + (if warned { seq![None] } else { seq![] })
        + (if saved.len() > 0 { seq![None, None] + saved_values(saved, n) } else { seq![] })
        + seq![None, Some(Choice::Save)]
        + (if saved.len() > 0 { seq![Some(Choice::Forget)] } else { seq![] })
        + seq![None, Some(Choice::Cancel)]
}

/// Where the saved layouts' own rows start.
pub open spec fn saved_base(warned: bool) -> int {
    if warned { 13 } else { 12 }
}

/// A selectable row with this text.
pub open spec fn item_row(r: Row, primary: Seq<char>, hotkey: Option<Seq<char>>, secondary: Option<Seq<char>>) -> bool {
    &&& r.kind == crate::term::RowKind::Item
    &&& r.primary@ == primary
    &&& crate::label::opt_view(r.hotkey) == hotkey
    &&& crate::label::opt_view(r.secondary) == secondary
}

/// The row's pictures are the before-and-after pair, with the legend.
pub open spec fn pictured(
    r: Row,
    current: Option<Tree>,
    after: Option<(Tree, Seq<Seq<char>>)>,
    panes: Seq<PreviewPane>,
    pane: Seq<char>,
    caption: Seq<char>,
) -> bool {
    match r.preview {
        Some(p) => transition_is(current, after, panes, pane, caption, p.panels@) && p.panels@.len() > 0
            && string_views(p.legend@) == panes.map_values(|x: PreviewPane| legend_line(x, pane)),
        None => transition_is(current, after, panes, pane, caption, seq![]),
    }
}

/// The zoom pair as values.
pub open spec fn zoom_before(full: Option<Tree>, pane: Seq<char>, zoomed: bool) -> Option<Tree> {
    if zoomed { Some(Tree::Leaf(pane)) } else { full }
}

pub open spec fn zoom_after(full: Option<Tree>, pane: Seq<char>, zoomed: bool) -> Option<(Tree, Seq<Seq<char>>)> {
    if zoomed {
        match full {
            Some(f) => Some((f, seq![pane])),
            None => None,
        }
    } else {
        Some((Tree::Leaf(pane), seq![pane]))
    }
}

pub open spec fn arrangement_note(a: Arrangement, applied: bool) -> Seq<char> {
    if applied {
        "current"@
    } else {
        match a {
            Arrangement::Columns => "すべての Pane を横一列に"@,
            Arrangement::Rows => "すべての Pane を縦一列に"@,
            Arrangement::Grid => "だいたい正方形の格子に"@,
            Arrangement::MainLeft => "現在の Pane を左、残りを右へ積む"@,
            Arrangement::MainRight => "現在の Pane を右、残りを左へ積む"@,
            Arrangement::MainTop => "現在の Pane を上、残りを下へ並べる"@,
        }
    }
}

pub open spec fn arrangement_title(a: Arrangement) -> Seq<char> {
    match a {
        Arrangement::Columns => "Columns"@,
        Arrangement::Rows => "Rows"@,
        Arrangement::Grid => "Grid"@,
        Arrangement::MainLeft => "Main Left"@,
        Arrangement::MainRight => "Main Right"@,
        Arrangement::MainTop => "Main Top"@,
    }
}

pub open spec fn arrangement_key(a: Arrangement) -> Seq<char> {
    match a {
        Arrangement::Columns => "c"@,
        Arrangement::Rows => "r"@,
        Arrangement::Grid => "g"@,
        Arrangement::MainLeft => "h"@,
        Arrangement::MainRight => "l"@,
        Arrangement::MainTop => "t"@,
    }
}

/// The rows before the saved layouts: Equalize, Zoom, and the six
/// arrangements, each with its pictures.
pub open spec fn head_rows(
    rows: Seq<Row>,
    ids: Seq<Seq<char>>,
    panes: Seq<PreviewPane>,
    pane: Seq<char>,
    compact: Seq<char>,
    current: Option<Tree>,
    zoomed: bool,
    equalized: Option<Tree>,
    applied: Seq<bool>,
) -> bool {
    &&& rows.len() >= 10
    &&& item_row(rows[0], "Equalize"@, Some("e"@), Some("すべての Pane を同じ大きさに"@))
    &&& pictured(rows[0], current, match equalized { Some(e) => Some((e, seq![pane])), None => None }, panes, pane, "均等化後"@)
    &&& item_row(rows[1], "Zoom current pane"@, Some("z"@), Some(if zoomed { "分割表示へ戻す"@ } else { compact }))
    &&& pictured(rows[1], zoom_before(current, pane, zoomed), zoom_after(current, pane, zoomed), panes, pane, "実行後"@)
    &&& rows[2].kind == crate::term::RowKind::Separator
    &&& rows[3].kind == crate::term::RowKind::Header && rows[3].primary@ == "Arrange"@
    &&& forall|j: int| 0 <= j < 6 ==> {
        &&& item_row(#[trigger] rows[4 + j], arrangement_title(arrangement_at(j)), Some(arrangement_key(arrangement_at(j))),
            Some(arrangement_note(arrangement_at(j), applied[j])))
        &&& pictured(rows[4 + j], current, arrangement_after(arrangement_at(j), ids, pane), panes, pane, "実行後"@)
    }
}

pub fn picture_row(row: Row, current: Option<&Shape>, after: Option<(Shape, Vec<String>)>, panes: &[PreviewPane], pane: &str, caption: &str) -> (r: Row)
    ensures
        r.kind == row.kind,
        r.primary == row.primary,
        r.hotkey == row.hotkey,
        r.secondary == row.secondary,
        pictured(r, tree_of_opt(current), after_view(after), panes@, pane@, caption@),
{
    let panels = transition_panels(current, after, panes, pane, caption);
    let ghost before = panels@;
    let r = illustrated(row, panels, panes, pane);
    proof {
        if r.preview is None {
            assert(before =~= Seq::<Panel>::empty());
        }
    }
    r
}

fn marked_one(pane: &str) -> (r: Vec<String>)
    ensures
        string_views(r@) == seq![pane@],
{
    let v = vec![owned(pane)];
    proof {
        assert(string_views(v@) =~= seq![pane@]);
    }
    v
}

/// The menu's first rows: Equalize and Zoom, then the arrangements.
fn head_menu(
    tab_label: Option<&str>,
    pane_ids: &[String],
    panes: &[PreviewPane],
    source_id: &str,
    compact: &str,
    current: Option<&Shape>,
    zoomed: bool,
    equalized: Option<Shape>,
    applied: &[bool],
) -> (r: crate::menu::Menu<Choice>)
    requires
        arrangeable(string_views(pane_ids@), source_id@),
        applied@.len() == 6,
    ensures
        r.wf(),
        r.filter is None,
        r.screen.title@ == "Layout Tools"@,
        r.screen.subtitle matches Some(t) && t@ == tools_subtitle_of(
            match tab_label { Some(l) => Some(l@), None => None },
            pane_ids@.len(),
        ),
        r.values@ == tools_values(seq![], 0, false).take(10),
        r.screen.rows@.len() == 10,
        head_rows(
            r.screen.rows@,
            string_views(pane_ids@),
            panes@,
            source_id@,
            compact@,
            tree_of_opt(current),
            zoomed,
            match equalized { Some(e) => Some(e@), None => None },
            applied@,
        ),
{
    let subtitle = tools_subtitle(tab_label, pane_ids.len());
    let mut menu: crate::menu::Menu<Choice> = crate::menu::Menu::new("Layout Tools").subtitle(subtitle.as_str());
    let eq_after = match equalized {
        Some(e) => Some((e, marked_one(source_id))),
        None => None,
    };
    let row = picture_row(
        Row::item("Equalize").hotkey("e").secondary("すべての Pane を同じ大きさに"),
        current,
        eq_after,
        panes,
        source_id,
        "均等化後",
    );
    menu.item(row, Choice::Equalize);

    let (zoom_now, zoom_then) = zoom_previews(current, source_id, zoomed);
    let zoom_note = if zoomed { owned("分割表示へ戻す") } else { owned(compact) };
    let row = picture_row(
        Row::item("Zoom current pane").hotkey("z").secondary(zoom_note.as_str()),
        match &zoom_now {
            Some(s) => Some(s),
            None => None,
        },
        zoom_then,
        panes,
        source_id,
        "実行後",
    );
    menu.item(row, Choice::Zoom);
    menu.row(Row::separator());
    menu.row(Row::header("Arrange"));

    let all = Arrangement::all();
    let mut j: usize = 0;
    while j < 6
        invariant
            0 <= j <= 6,
            all@ == seq![
                Arrangement::Grid,
                Arrangement::Columns,
                Arrangement::Rows,
                Arrangement::MainLeft,
                Arrangement::MainRight,
                Arrangement::MainTop,
            ],
            applied@.len() == 6,
            arrangeable(string_views(pane_ids@), source_id@),
            menu.wf(),
            menu.filter is None,
            menu.screen.title@ == "Layout Tools"@,
            menu.screen.subtitle matches Some(t) && t@ == tools_subtitle_of(
                match tab_label { Some(l) => Some(l@), None => None },
                pane_ids@.len(),
            ),
            menu.values@ == tools_values(seq![], 0, false).take(4 + j),
            menu.screen.rows@.len() == 4 + j,
            item_row(menu.screen.rows@[0], "Equalize"@, Some("e"@), Some("すべての Pane を同じ大きさに"@)),
            pictured(menu.screen.rows@[0], tree_of_opt(current),
                match equalized { Some(e) => Some((e@, seq![source_id@])), None => None }, panes@, source_id@, "均等化後"@),
            item_row(menu.screen.rows@[1], "Zoom current pane"@, Some("z"@), Some(if zoomed { "分割表示へ戻す"@ } else { compact@ })),
            pictured(menu.screen.rows@[1], zoom_before(tree_of_opt(current), source_id@, zoomed),
                zoom_after(tree_of_opt(current), source_id@, zoomed), panes@, source_id@, "実行後"@),
            menu.screen.rows@[2].kind == crate::term::RowKind::Separator,
            menu.screen.rows@[3].kind == crate::term::RowKind::Header && menu.screen.rows@[3].primary@ == "Arrange"@,
            forall|k: int| 0 <= k < j ==> {
                &&& item_row(#[trigger] menu.screen.rows@[4 + k], arrangement_title(arrangement_at(k)),
                    Some(arrangement_key(arrangement_at(k))), Some(arrangement_note(arrangement_at(k), applied@[k])))
                &&& pictured(menu.screen.rows@[4 + k], tree_of_opt(current),
                    arrangement_after(arrangement_at(k), string_views(pane_ids@), source_id@), panes@, source_id@, "実行後"@)
            },
        decreases 6 - j,
    {
        let a = all[j];
        let note = if applied[j] { "current" } else { a.description() };
        let after = arrangement_preview(a, pane_ids, source_id);
        let row = picture_row(Row::item(a.title()).hotkey(a.hotkey()).secondary(note), current, after, panes, source_id, "実行後");
        let ghost before = menu.values@;
        menu.item(row, Choice::Arrange(a));
        proof {
            assert(tools_values(seq![], 0, false).take(4 + j + 1) =~= tools_values(seq![], 0, false).take(4 + j).push(
                Some(Choice::Arrange(arrangement_at(j as int))),
            ));
            assert(a == arrangement_at(j as int));
        }
        j = j + 1;
    }
    proof {
        reveal_strlit("Equalize");
    }
    menu
}

proof fn lemma_head_kept(
    a: Seq<Row>,
    b: Seq<Row>,
    ids: Seq<Seq<char>>,
    panes: Seq<PreviewPane>,
    pane: Seq<char>,
    compact: Seq<char>,
    current: Option<Tree>,
    zoomed: bool,
    equalized: Option<Tree>,
    applied: Seq<bool>,
)
    requires
        head_rows(a, ids, panes, pane, compact, current, zoomed, equalized, applied),
        b.len() >= 10,
        forall|i: int| 0 <= i < 10 ==> b[i] == a[i],
    ensures
        head_rows(b, ids, panes, pane, compact, current, zoomed, equalized, applied),
{
    assert(b[0] == a[0] && b[1] == a[1] && b[2] == a[2] && b[3] == a[3]);
    assert forall|j: int| 0 <= j < 6 implies {
        &&& item_row(#[trigger] b[4 + j], arrangement_title(arrangement_at(j)), Some(arrangement_key(arrangement_at(j))),
            Some(arrangement_note(arrangement_at(j), applied[j])))
        &&& pictured(b[4 + j], current, arrangement_after(arrangement_at(j), ids, pane), panes, pane, "実行後"@)
    } by {
        assert(b[4 + j] == a[4 + j]);
    }
}

pub open spec fn shape_opt_tree(o: Option<Shape>) -> Option<Tree> {
    match o {
        Some(e) => Some(e@),
        None => None,
    }
}

/// Where the Save row sits.
pub open spec fn save_index(saved: nat, warned: bool) -> int {
    10 + (if warned { 1int } else { 0int }) + (if saved > 0 { 2 + saved as int } else { 0int }) + 1
}

/// The Save row draws the tab as it is, once, captioned `保存する形`.
pub open spec fn save_pictured(r: Row, current: Option<Tree>, panes: Seq<PreviewPane>, pane: Seq<char>) -> bool {
    match current {
        Some(c) => r.preview matches Some(p) && p.panels@.len() == 1
            && panel_is(p.panels@[0], "保存する形"@, c, seq![pane], number_labels(panes))
            && string_views(p.legend@) == panes.map_values(|x: PreviewPane| legend_line(x, pane)),
        None => r.preview is None,
    }
}

/// A saved layout's row: pickable, with its picture, when it fits this
/// tab's pane count; otherwise only a note saying what it needs.
pub open spec fn saved_row(r: Row, e: (String, Template), ids: Seq<Seq<char>>, current: Option<Tree>, panes: Seq<PreviewPane>, pane: Seq<char>) -> bool {
    if slots_of(e.1) == ids.len() {
        &&& item_row(r, e.0@, None, Some(saved_note_of(e.1, ids.len())))
        &&& pictured(r, current, saved_after(e.1, ids, pane), panes, pane, "実行後"@)
    } else {
        &&& r.kind == crate::term::RowKind::Note
        &&& r.primary@ == e.0@
        &&& crate::label::opt_view(r.secondary) == Some(saved_note_of(e.1, ids.len()))
    }
}

/// The whole Layout Tools menu. `panes` names the tab's panes,
/// `equalized` is the tab with every split levelled, `applied` says which
/// arrangements the tab is already in (in menu order), and `saved` holds
/// the saved layouts by name.
pub fn tools_menu(
    tab_label: Option<&str>,
    pane_ids: &[String],
    panes: &[PreviewPane],
    source_id: &str,
    compact: &str,
    current: Option<&Shape>,
    zoomed: bool,
    equalized: Option<Shape>,
    applied: &[bool],
    saved: &[(String, Template)],
    saved_warning: Option<&str>,
) -> (r: crate::menu::Menu<Choice>)
    requires
        arrangeable(string_views(pane_ids@), source_id@),
        applied@.len() == 6,
        forall|k: int| 0 <= k < saved@.len() ==> slots_of((#[trigger] saved@[k]).1) <= usize::MAX,
        crate::template::in_name_order(saved@),
    ensures
        r.wf(),
        r.screen.title@ == "Layout Tools"@,
        r.screen.subtitle matches Some(t) && t@ == tools_subtitle_of(
            match tab_label { Some(l) => Some(l@), None => None },
            pane_ids@.len(),
        ),
        r.screen.no_preview@ == "この操作は Pane の配置を変えません"@,
        r.values@ == tools_values(saved@, pane_ids@.len(), saved_warning is Some),
        head_rows(
            r.screen.rows@,
            string_views(pane_ids@),
            panes@,
            source_id@,
            compact@,
            tree_of_opt(current),
            zoomed,
            match equalized { Some(e) => Some(e@), None => None },
            applied@,
        ),
        saved_warning matches Some(w) ==> r.screen.rows@[10].kind == crate::term::RowKind::Note
            && r.screen.rows@[10].primary@ == w@,
        forall|k: int| 0 <= k < saved@.len() ==> saved_row(
            #[trigger] r.screen.rows@[saved_base(saved_warning is Some) + k],
            saved@[k],
            string_views(pane_ids@),
            tree_of_opt(current),
            panes@,
            source_id@,
        ),
        item_row(r.screen.rows@[save_index(saved@.len(), saved_warning is Some)], "Save this layout"@, Some("s"@),
            Some("今の形に名前を付けて覚える"@)),
        save_pictured(r.screen.rows@[save_index(saved@.len(), saved_warning is Some)], tree_of_opt(current), panes@, source_id@),
        saved@.len() > 0 ==> item_row(r.screen.rows@[save_index(saved@.len(), saved_warning is Some) + 1],
            "Delete a saved layout"@, Some("d"@), None),
        item_row(r.screen.rows@.last(), "Cancel"@, Some("q"@), None),
{
    let ghost eq_tree = shape_opt_tree(equalized);
    let mut menu = head_menu(tab_label, pane_ids, panes, source_id, compact, current, zoomed, equalized, applied);
    let ghost head = menu.screen.rows@;
    let ghost n = pane_ids@.len();
    let ghost warned = saved_warning is Some;
    let ghost want = tools_values(saved@, n, warned);
    proof {
        assert(tools_values(seq![], 0, false).take(10) =~= want.take(10));
    }
    match saved_warning {
        Some(w) => {
            menu.row(Row::note(w));
            proof {
                assert(want.take(11) =~= want.take(10).push(None));
            }
        },
        None => {},
    }
    let base: usize = if saved_warning.is_some() { 11 } else { 10 };
    if saved.len() > 0 {
        menu.row(Row::separator());
        menu.row(Row::header("Saved"));
        proof {
            assert(want.take(base + 2) =~= want.take(base as int).push(None).push(None));
        }
        let mut k: usize = 0;
        while k < saved.len()
            invariant
                k <= saved@.len(),
                saved@.len() > 0,
                forall|i: int| 0 <= i < saved@.len() ==> slots_of((#[trigger] saved@[i]).1) <= usize::MAX,
                base == if warned { 11int } else { 10int },
                warned == (saved_warning is Some),
                n == pane_ids@.len(),
                want == tools_values(saved@, n, warned),
                menu.wf(),
                menu.screen.title@ == "Layout Tools"@,
                menu.screen.subtitle matches Some(t) && t@ == tools_subtitle_of(
                    match tab_label { Some(l) => Some(l@), None => None },
                    pane_ids@.len(),
                ),
                menu.values@ == want.take(base + 2 + k),
                menu.screen.rows@.len() == base + 2 + k,
                forall|i: int| 0 <= i < 10 ==> menu.screen.rows@[i] == head[i],
                saved_warning matches Some(w) ==> menu.screen.rows@[10].kind == crate::term::RowKind::Note
                    && menu.screen.rows@[10].primary@ == w@,
                forall|i: int| 0 <= i < k ==> saved_row(
                    #[trigger] menu.screen.rows@[saved_base(warned) + i],
                    saved@[i],
                    string_views(pane_ids@),
                    tree_of_opt(current),
                    panes@,
                    source_id@,
                ),
            decreases saved@.len() - k,
        {
            let (name, layout) = (&saved[k].0, &saved[k].1);
            let note = saved_note(layout, pane_ids.len());
            if layout.slots() != pane_ids.len() {
                menu.row(Row::note(name.as_str()).secondary(note.as_str()));
            } else {
                let after = saved_preview(layout, pane_ids, source_id);
                let row = picture_row(Row::item(name.as_str()).secondary(note.as_str()), current, after, panes, source_id, "実行後");
                menu.item(row, Choice::Apply(name.clone()));
            }
            proof {
                assert(want.take(base + 2 + k + 1) =~= want.take(base + 2 + k).push(saved_values(saved@, n)[k as int]));
            }
            k = k + 1;
        }
    }
    let ghost mid: int = base + if saved@.len() > 0 { 2 + saved@.len() as int } else { 0int };
    proof {
        assert(menu.values@ == want.take(mid));
    }
    menu.row(Row::separator());
    let save_row = Row::item("Save this layout").hotkey("s").secondary("今の形に名前を付けて覚える");
    let panels = current_panel(current, panes, source_id, "保存する形");
    let save_row = illustrated(save_row, panels, panes, source_id);
    menu.item(save_row, Choice::Save);
    proof {
        assert(want.take(mid + 2) =~= want.take(mid).push(None).push(Some(Choice::Save)));
    }
    if saved.len() > 0 {
        menu.item(Row::item("Delete a saved layout").hotkey("d"), Choice::Forget);
        proof {
            assert(want.take(mid + 3) =~= want.take(mid + 2).push(Some(Choice::Forget)));
        }
    }
    menu.row(Row::separator());
    menu.item(Row::item("Cancel").hotkey("q"), Choice::Cancel);
    proof {
        assert(menu.values@ =~= want);
    }
    menu.screen.no_preview = owned("この操作は Pane の配置を変えません");
    proof {
        lemma_head_kept(head, menu.screen.rows@, string_views(pane_ids@), panes@, source_id@, compact@,
            tree_of_opt(current), zoomed, eq_tree, applied@);
    }
    menu
}

} // verus!
