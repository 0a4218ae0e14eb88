//! The Pane Manager's pickers below the landing screen: where a pane or a
//! tab goes, which pane to trade with, which pane to split, and which side
//! and share of the space. Each is built here and run by the caller.
use vstd::prelude::*;

use crate::label::{compact_of, detail_of, pane_compact, pane_detail, tab_display, tab_display_of};
use crate::landing::{legended, pictured_by};
use crate::layout::{side_name, string_views, Ratio, Shape, Side};
use crate::manager::{capitalize, group_name, source_line, source_line_of, workspace_name};
use crate::menu::Menu;
use crate::model::{status_glyph, AgentStatus, Pane, Workspace};
use crate::pictures::{illustrated, legend_of, placement_preview, real_destination, split_beside};
use crate::pm_config::Config;
use crate::state::{pair_views, Snapshot, TabEntry};
use crate::term::{Color, Panel, Row, RowKind};
use crate::text::{decimal, decimal_string, owned, push_str};

verus! {

// ---------------------------------------------------------------------------
// Pane rows
// ---------------------------------------------------------------------------

/// The colour of an agent state glyph.
pub open spec fn status_color_of(s: AgentStatus) -> Color {
    match s {
        AgentStatus::Working => Color::Green,
        AgentStatus::Blocked => Color::Yellow,
        AgentStatus::Done => Color::Cyan,
        AgentStatus::Idle | AgentStatus::Unknown => Color::DarkGrey,
    }
}

pub fn status_color(status: AgentStatus) -> (r: Color)
    ensures
        r == status_color_of(status),
{
    match status {
        AgentStatus::Working => Color::Green,
        AgentStatus::Blocked => Color::Yellow,
        AgentStatus::Done => Color::Cyan,
        AgentStatus::Idle | AgentStatus::Unknown => Color::DarkGrey,
    }
}

/// The standard row for a pane: its name; with `show_state`, the state
/// glyph in its colour and the state's name; with `show_title`, what it is
/// doing on a third line.
pub open spec fn pane_row_is(r: Row, p: Pane, show_state: bool, show_title: bool) -> bool {
    &&& r.kind == RowKind::Item
    &&& r.primary@ == compact_of(p)
    &&& r.hotkey is None
    &&& r.preview is None
    &&& if show_state {
        &&& r.glyph == Some(status_glyph(p.agent_status))
        &&& r.glyph_color == status_color_of(p.agent_status)
        &&& r.secondary matches Some(s) && s@ == p.agent_status.label_spec()
    } else {
        r.glyph is None && r.secondary is None
    }
    &&& if show_title {
        crate::label::opt_view(r.detail) == detail_of(p)
    } else {
        r.detail is None
    }
}

/// The row a pane gets in every picker that lists panes.
pub fn pane_row(pane: &Pane, show_state: bool, show_title: bool) -> (r: Row)
    ensures
        pane_row_is(r, *pane, show_state, show_title),
{
    let name = pane_compact(pane);
    let mut row = Row::item(name.as_str());
    if show_state {
        row = row.glyph(pane.agent_status.glyph(), status_color(pane.agent_status)).secondary(
            pane.agent_status.label(),
        );
    }
    if show_title {
        row = row.detail(pane_detail(pane));
    }
    row
}

/// The Pane Manager's row for a pane: the standard row as the settings
/// ask, with the pane's id as its second line when ids are shown.
pub open spec fn manager_pane_row_is(r: Row, p: Pane, c: Config) -> bool {
    &&& r.kind == RowKind::Item
    &&& r.primary@ == compact_of(p)
    &&& if c.show_ids {
        r.secondary matches Some(s) && s@ == p.pane_id@
    } else if c.show_agent_state {
        r.secondary matches Some(s) && s@ == p.agent_status.label_spec()
    } else {
        r.secondary is None
    }
}

fn manager_pane_row(pane: &Pane, config: &Config) -> (r: Row)
    ensures
        manager_pane_row_is(r, *pane, *config),
        r.hotkey is None,
        r.preview is None,
{
    let row = pane_row(pane, config.show_agent_state, config.show_terminal_title);
    if config.show_ids {
        row.secondary(pane.pane_id.as_str())
    } else {
        row
    }
}

// ---------------------------------------------------------------------------
// Destination lists
// ---------------------------------------------------------------------------

/// What a destination list hands back.
#[derive(Debug, Clone, PartialEq, Eq)]
pub enum Pick {
    Tab(String),
    NewTab,
    NewWorkspace,
}

/// A workspace's name, or `Workspace` when it has none.
pub open spec fn workspace_name_of(w: Workspace) -> Seq<char> {
    match w.label {
        Some(l) => l@,
        None => "Workspace"@,
    }
}

/// The tab rows' values, with the separator and header that open every
/// workspace after the first.
pub open spec fn tab_values(ds: Seq<(Workspace, TabEntry)>) -> Seq<Option<Pick>>
    decreases ds.len(),
{
    if ds.len() == 0 {
        seq![]
    } else {
        tab_values(ds.drop_last()) + (if ds.len() >= 2 && ds[ds.len() - 2].0.workspace_id@
            != ds.last().0.workspace_id@ {
            seq![None, None]
        } else {
            seq![]
        }) + seq![Some(Pick::Tab(ds.last().1.tab.tab_id))]
    }
}

/// A destination list's values: a note when there is nothing to offer, the
/// tabs, and the two rows that create a tab or a workspace.
pub open spec fn destination_values(ds: Seq<(Workspace, TabEntry)>, offer_new: bool) -> Seq<Option<Pick>> {
    (if ds.len() == 0 && !offer_new { seq![None] } else { seq![] }) + tab_values(ds) + (if offer_new {
        seq![None, Some(Pick::NewTab), Some(Pick::NewWorkspace)]
    } else {
        seq![]
    })
}

/// Where the `i`-th tab's row stands.
pub open spec fn tab_row_at(ds: Seq<(Workspace, TabEntry)>, i: int) -> int {
    tab_values(ds.take(i + 1)).len() - 1
}

/// A tab's row: its name, what runs in it, its number as a key when it is
/// in the reader's own workspace, and the picture it was given.
#[verifier::opaque]
pub open spec fn tab_row_is(r: Row, e: (Workspace, TabEntry), panels: Seq<Panel>, s: Snapshot) -> bool {
    &&& r.kind == RowKind::Item
    &&& r.primary@ == tab_display_of(e.1.tab, e.1.position as nat)
    &&& crate::label::opt_view(r.detail) == Some(crate::pictures::tab_contents_of(e.1.panes@))
    &&& crate::label::opt_view(r.hotkey) == if e.0.workspace_id@ == s.workspace.workspace_id@ && e.1.position <= 9 {
        Some(decimal(e.1.position as nat))
    } else {
        None
    }
    &&& r.preview is Some <==> panels.len() > 0
    &&& r.preview matches Some(p) ==> p.panels@ == panels && string_views(p.legend@) == legend_of(panels, s)
}

fn tab_row(workspace: &Workspace, tab: &TabEntry, panels: Vec<Panel>, snapshot: &Snapshot) -> (r: Row)
    ensures
        tab_row_is(r, (*workspace, *tab), panels@, *snapshot),
{
    proof {
        reveal(tab_row_is);
    }
    let name = tab_display(&tab.tab, tab.position);
    let contents = crate::pictures::tab_contents(tab);
    let row = illustrated(Row::item(name.as_str()).detail(Some(contents)), panels, snapshot);
    if crate::text::same_text(workspace.workspace_id.as_str(), snapshot.workspace.workspace_id.as_str())
        && tab.position <= 9 {
        let key = decimal_string(tab.position);
        row.hotkey(key.as_str())
    } else {
        row
    }
}

proof fn lemma_tab_values_grow(ds: Seq<(Workspace, TabEntry)>, i: int)
    requires
        0 <= i < ds.len(),
    ensures
        ds.take(i + 1).drop_last() == ds.take(i),
        ds.take(i + 1).last() == ds[i],
        i >= 1 ==> ds.take(i + 1)[i - 1] == ds[i - 1],
{
    assert(ds.take(i + 1).drop_last() =~= ds.take(i));
}

proof fn lemma_tab_values_len(ds: Seq<(Workspace, TabEntry)>, j: int, k: int)
    requires
        0 <= j <= k <= ds.len(),
    ensures
        tab_values(ds.take(j)).len() <= tab_values(ds.take(k)).len(),
    decreases k - j,
{
    if j < k {
        lemma_tab_values_len(ds, j, k - 1);
        assert(ds.take(k).drop_last() =~= ds.take(k - 1));
    }
}

/// A filterable list of tabs grouped by workspace, each drawn with the
/// picture in `panels` at the same place, optionally offering to create a
/// tab or a workspace named by what was typed.
pub fn destination_menu(
    title: &str,
    subtitle: &str,
    destinations: &Vec<(&Workspace, &TabEntry)>,
    panels: Vec<Vec<Panel>>,
    snapshot: &Snapshot,
    offer_new: bool,
) -> (r: Menu<Pick>)
    requires
        panels@.len() == destinations@.len(),
    ensures
        r.wf(),
        r.filter matches Some(q) && q@.len() == 0,
        r.screen.title@ == title@,
        r.screen.subtitle matches Some(t) && t@ == subtitle@,
        r.values@ == destination_values(pair_views(destinations@), offer_new),
        ({
            let ds = pair_views(destinations@);
            let base: int = if ds.len() == 0 && !offer_new { 1 } else { 0 };
            &&& (ds.len() == 0 && !offer_new) ==> r.screen.rows@[0].kind == RowKind::Note
                && r.screen.rows@[0].primary@ == "このセッションに他の Tab がありません。"@
            &&& forall|i: int| 0 <= i < ds.len() ==> tab_row_is(
                #[trigger] r.screen.rows@[tab_row_at(ds, i)],
                ds[i],
                panels@[i]@,
                *snapshot,
            )
            &&& forall|i: int| 1 <= i < ds.len() && ds[i - 1].0.workspace_id@ != ds[i].0.workspace_id@ ==> {
                &&& (#[trigger] r.screen.rows@[tab_row_at(ds, i) - 1]).kind == RowKind::Header
                &&& r.screen.rows@[tab_row_at(ds, i) - 1].primary@ == workspace_name_of(ds[i].0)
            }
            &&& offer_new ==> {
                let n = r.screen.rows@.len() as int;
                &&& r.screen.rows@[n - 2].primary@ == "+ New Tab {query}"@
                &&& crate::label::opt_view(r.screen.rows@[n - 2].hotkey) == Some("n"@)
                &&& r.screen.rows@[n - 1].primary@ == "+ New Workspace {query}"@
                &&& crate::label::opt_view(r.screen.rows@[n - 1].hotkey) == Some("w"@)
                &&& r.pinned@[n - 2] && r.pinned@[n - 1]
            }
        }),
{
    let ghost ds = pair_views(destinations@);
    let mut menu: Menu<Pick> = Menu::new(title).subtitle(subtitle).filterable();
    let ghost base: int = if ds.len() == 0 && !offer_new { 1 } else { 0 };
    if destinations.len() == 0 && !offer_new {
        menu.row(Row::note("このセッションに他の Tab がありません。"));
    }
    let ghost head = if ds.len() == 0 && !offer_new { seq![None] } else { Seq::<Option<Pick>>::empty() };
    proof {
        assert(menu.values@ =~= head + tab_values(ds.take(0)));
    }
    let mut panels = panels;
    let ghost all_panels = panels@;
    let mut i: usize = 0;
    while i < destinations.len()
        invariant
            ds == pair_views(destinations@),
            all_panels.len() == ds.len(),
            panels@ == all_panels.skip(i as int),
            i <= ds.len(),
            base == if ds.len() == 0 && !offer_new { 1int } else { 0int },
            head.len() == base,
            head == if ds.len() == 0 && !offer_new { seq![None] } else { Seq::<Option<Pick>>::empty() },
            menu.wf(),
            menu.filter matches Some(q) && q@.len() == 0,
            menu.screen.title@ == title@,
            menu.screen.subtitle matches Some(t) && t@ == subtitle@,
            menu.values@ == head + tab_values(ds.take(i as int)),
            (ds.len() == 0 && !offer_new) ==> menu.screen.rows@[0].kind == RowKind::Note
                && menu.screen.rows@[0].primary@ == "このセッションに他の Tab がありません。"@,
            forall|j: int| 0 <= j < i ==> tab_row_is(
                #[trigger] menu.screen.rows@[base + tab_row_at(ds, j)],
                ds[j],
                all_panels[j]@,
                *snapshot,
            ),
            forall|j: int| 1 <= j < i && ds[j - 1].0.workspace_id@ != ds[j].0.workspace_id@ ==> {
                &&& (#[trigger] menu.screen.rows@[base + tab_row_at(ds, j) - 1]).kind == RowKind::Header
                &&& menu.screen.rows@[base + tab_row_at(ds, j) - 1].primary@ == workspace_name_of(ds[j].0)
            },
        decreases ds.len() - i,
    {
        let (workspace, tab) = destinations[i];
        let ghost old_rows = menu.screen.rows@;
        proof {
            assert(old_rows.len() == base + tab_values(ds.take(i as int)).len());
            lemma_tab_values_grow(ds, i as int);
            assert(ds[i as int] == (*workspace, *tab));
            assert(panels@[0] == all_panels[i as int]);
        }
        if i > 0 && !crate::text::same_text(
            destinations[i - 1].0.workspace_id.as_str(),
            workspace.workspace_id.as_str(),
        ) {
            proof {
                assert(ds[i - 1] == (*destinations@[i - 1].0, *destinations@[i - 1].1));
            }
            menu.row(Row::separator());
            let name = workspace_name(workspace);
            menu.row(Row::header(name.as_str()));
        }
        let pictures = panels.remove(0);
        let row = tab_row(workspace, tab, pictures, snapshot);
        let name = workspace_name(workspace);
        menu.item_matching(row, Pick::Tab(tab.tab.tab_id.clone()), name.as_str());
        proof {
            assert(forall|k: int| 0 <= k < old_rows.len() ==> menu.screen.rows@[k] == old_rows[k]);
            assert(panels@ =~= all_panels.skip(i + 1));
            if i > 0 {
                assert(ds[i - 1] == (*destinations@[i - 1].0, *destinations@[i - 1].1));
            }
            assert(menu.values@ =~= head + tab_values(ds.take(i + 1)));
            assert(tab_row_at(ds, i as int) == tab_values(ds.take(i + 1)).len() - 1);
            assert forall|j: int| 0 <= j < i implies base + tab_row_at(ds, j) < old_rows.len() by {
                lemma_tab_values_len(ds, j + 1, i as int);
            }
        }
        i = i + 1;
    }
    proof {
        assert(ds.take(ds.len() as int) =~= ds);
        assert forall|j: int| 0 <= j < ds.len() implies base + tab_row_at(ds, j) < menu.screen.rows@.len() by {
            lemma_tab_values_len(ds, j + 1, ds.len() as int);
        }
    }
    let ghost rows_before = menu.screen.rows@;
    if offer_new {
        menu.row(Row::separator());
        menu.item_pinned(Row::item("+ New Tab {query}").hotkey("n"), Pick::NewTab);
        menu.item_pinned(Row::item("+ New Workspace {query}").hotkey("w"), Pick::NewWorkspace);
    }
    proof {
        assert(menu.values@ =~= destination_values(ds, offer_new));
        assert(forall|k: int| 0 <= k < rows_before.len() ==> menu.screen.rows@[k] == rows_before[k]);
        if ds.len() > 0 {
            assert(base == 0);
        }
    }
    menu
}


/// The Move picker's second line: the pane, and whether the placement
/// step is coming.
pub open spec fn move_subtitle_of(s: Snapshot, c: Config, forced_detail: bool, modified_enter: bool) -> Seq<char> {
    source_line_of(s, c) + " を、選んだ Tab へ移します"@ + if forced_detail {
        " · 位置を指定します"@
    } else if modified_enter {
        " · Shift+Enter で位置を指定"@
    } else {
        seq![]
    }
}

/// A Move destination's row: the tab, drawn with the reader's pane arrived
/// on the configured side.
pub open spec fn move_row_is(r: Row, e: (Workspace, TabEntry), s: Snapshot, c: Config) -> bool {
    &&& r.preview matches Some(p) && p.panels@.len() == 1
    &&& tab_row_is(r, e, r.preview->0.panels@, s)
    &&& crate::pictures::destination_is(r.preview->0.panels@, e.1, Some(crate::pictures::configured_side(c)), Some(s.source))
}

/// The Move picker: every other tab, and the two rows that make a new tab
/// or workspace for the pane.
pub fn move_menu(snapshot: &Snapshot, config: &Config, forced_detail: bool, modified_enter: bool) -> (r: Menu<Pick>)
    ensures
        r.wf(),
        r.filter matches Some(q) && q@.len() == 0,
        r.screen.title@ == "Move to…"@,
        r.screen.subtitle matches Some(t) && t@ == move_subtitle_of(*snapshot, *config, forced_detail, modified_enter),
        r.values@ == destination_values(
            crate::state::entries_except(snapshot.entries(), snapshot.source.tab_id@),
            true,
        ),
        ({
            let ds = crate::state::entries_except(snapshot.entries(), snapshot.source.tab_id@);
            forall|i: int| 0 <= i < ds.len() ==> move_row_is(
                #[trigger] r.screen.rows@[tab_row_at(ds, i)],
                ds[i],
                *snapshot,
                *config,
            )
        }),
{
    let mut subtitle = source_line(snapshot, config);
    push_str(&mut subtitle, " を、選んだ Tab へ移します");
    if forced_detail {
        push_str(&mut subtitle, " · 位置を指定します");
    } else if modified_enter {
        push_str(&mut subtitle, " · Shift+Enter で位置を指定");
    }
    let destinations = snapshot.move_destinations();
    let ghost ds = pair_views(destinations@);
    let mut panels: Vec<Vec<Panel>> = Vec::new();
    let mut i: usize = 0;
    while i < destinations.len()
        invariant
            ds == pair_views(destinations@),
            i <= ds.len(),
            panels@.len() == i,
            forall|j: int| 0 <= j < i ==> (#[trigger] panels@[j])@.len() == 1
                && crate::pictures::destination_is(panels@[j]@, ds[j].1, Some(crate::pictures::configured_side(*config)), Some(snapshot.source)),
        decreases ds.len() - i,
    {
        let tab = destinations[i].1;
        proof {
            assert(ds[i as int].1 == *tab);
        }
        let p = real_destination(tab, snapshot, config);
        let ghost before = panels@;
        panels.push(vec![p]);
        proof {
            assert(panels@[i as int]@ =~= seq![p]);
        }
        i = i + 1;
    }
    let ghost all = panels@;
    let menu = destination_menu("Move to…", subtitle.as_str(), &destinations, panels, snapshot, true);
    proof {
        reveal(tab_row_is);
        assert forall|i: int| 0 <= i < ds.len() implies move_row_is(
            #[trigger] menu.screen.rows@[tab_row_at(ds, i)],
            ds[i],
            *snapshot,
            *config,
        ) by {
            assert(tab_row_is(menu.screen.rows@[tab_row_at(ds, i)], ds[i], all[i]@, *snapshot));
        }
    }
    menu
}

/// The Fold picker's second line.
pub open spec fn fold_subtitle_of(e: TabEntry) -> Seq<char> {
    tab_display_of(e.tab, e.position as nat) + " の "@ + decimal(e.panes@.len()) + " Pane を、選んだ Tab へまとめて移します"@
}

/// A Fold destination's row: the tab with every pane of the folded one in
/// it, arranged as the Fold will arrange them, the reader's pane filled.
pub open spec fn fold_row_is(r: Row, e: (Workspace, TabEntry), here: TabEntry, s: Snapshot, c: Config) -> bool {
    &&& r.preview matches Some(p) && p.panels@.len() == 1
    &&& tab_row_is(r, e, r.preview->0.panels@, s)
    &&& fold_panel_is(r.preview->0.panels@[0], e.1, here, s, c)
}

/// The picture of a Fold into `e`: the panes of `here` arranged as the
/// Fold will arrange them, with the reader's pane filled.
pub open spec fn fold_panel_is(p: Panel, e: TabEntry, here: TabEntry, s: Snapshot, c: Config) -> bool {
    let f = crate::pictures::fold_picture(
        e,
        crate::ops::pane_ids_of(here.panes@),
        crate::pictures::pane_labels(here.panes@),
        crate::state::shape_view(here.shape),
        c,
    );
    crate::pictures::drawn_as(p, crate::preview::tab_number_of(e), f.0, seq![s.source.pane_id@], f.2)
}

/// The Fold picker: every tab but the one being folded, none created.
/// `inherited` is the tab the launcher or an earlier menu named.
pub fn fold_menu(snapshot: &Snapshot, config: &Config, inherited: Option<&str>) -> (r: Result<Menu<Pick>, String>)
    ensures
        ({
            let id = crate::context::source_tab_spec(
                None,
                match inherited { Some(t) => Some(t@), None => None },
                snapshot.source,
            );
            match crate::state::entry_from(snapshot.entries(), id, 0) {
                None => r matches Err(e) && e@ == "Source tab no longer exists."@,
                Some(k) => {
                    let here = snapshot.entries()[k].1;
                    let ds = crate::state::entries_except(snapshot.entries(), id);
                    &&& r matches Ok(m) && {
                        &&& m.wf()
                        &&& m.screen.title@ == "Fold into…"@
                        &&& m.screen.subtitle matches Some(t) && t@ == fold_subtitle_of(here)
                        &&& m.values@ == destination_values(ds, false)
                        &&& forall|i: int| 0 <= i < ds.len() ==> fold_row_is(
                            #[trigger] m.screen.rows@[tab_row_at(ds, i)],
                            ds[i],
                            here,
                            *snapshot,
                            *config,
                        )
                    }
                },
            }
        }),
{
    let source_tab_id = crate::context::resolve_source_tab(None, inherited, &snapshot.source);
    let here = match snapshot.tab(source_tab_id.as_str()) {
        Some(t) => t,
        None => return Err(owned("Source tab no longer exists.")),
    };
    let mut subtitle = tab_display(&here.tab, here.position);
    push_str(&mut subtitle, " の ");
    let count = decimal_string(here.panes.len());
    push_str(&mut subtitle, count.as_str());
    push_str(&mut subtitle, " Pane を、選んだ Tab へまとめて移します");
    let destinations = snapshot.merge_destinations(source_tab_id.as_str());
    let ghost ds = pair_views(destinations@);
    let moving = crate::pictures::ids_of(&here.panes);
    let labels = crate::pictures::labels_of(&here.panes);
    let mut panels: Vec<Vec<Panel>> = Vec::new();
    let mut i: usize = 0;
    while i < destinations.len()
        invariant
            ds == pair_views(destinations@),
            i <= ds.len(),
            panels@.len() == i,
            string_views(moving@) == crate::ops::pane_ids_of(here.panes@),
            crate::term::label_views(labels@) == crate::pictures::pane_labels(here.panes@),
            forall|j: int| 0 <= j < i ==> (#[trigger] panels@[j])@.len() == 1 && fold_panel_is(
                panels@[j]@[0],
                ds[j].1,
                *here,
                *snapshot,
                *config,
            ),
        decreases ds.len() - i,
    {
        let tab = destinations[i].1;
        proof {
            assert(ds[i as int].1 == *tab);
        }
        let folded = crate::pictures::folded_into(tab, moving.as_slice(), labels.as_slice(), here.shape.as_ref(), config);
        let p = folded.marking(vec![snapshot.source.pane_id.clone()]);
        proof {
            assert(string_views(p.marked@) =~= seq![snapshot.source.pane_id@]);
            assert(fold_panel_is(p, *tab, *here, *snapshot, *config));
        }
        panels.push(vec![p]);
        proof {
            assert(panels@[i as int]@ =~= seq![p]);
        }
        i = i + 1;
    }
    let ghost all = panels@;
    let menu = destination_menu("Fold into…", subtitle.as_str(), &destinations, panels, snapshot, false);
    proof {
        reveal(tab_row_is);
        assert forall|i: int| 0 <= i < ds.len() implies fold_row_is(
            #[trigger] menu.screen.rows@[tab_row_at(ds, i)],
            ds[i],
            *here,
            *snapshot,
            *config,
        ) by {
            assert(tab_row_is(menu.screen.rows@[tab_row_at(ds, i)], ds[i], all[i]@, *snapshot));
        }
    }
    Ok(menu)
}


// ---------------------------------------------------------------------------
// Swap
// ---------------------------------------------------------------------------

/// A group header: the tab, qualified by its workspace when that is not the
/// reader's own.
pub open spec fn group_of(w: Workspace, t: TabEntry, s: Snapshot) -> Seq<char> {
    if w.workspace_id@ == s.workspace.workspace_id@ {
        tab_display_of(t.tab, t.position as nat)
    } else {
        workspace_name_of(w) + " · "@ + tab_display_of(t.tab, t.position as nat)
    }
}

/// The pane rows' values, each tab's panes opened by the tab's header (and a
/// separator before every header but the first).
pub open spec fn swap_values(cs: Seq<(Workspace, TabEntry, Pane)>) -> Seq<Option<String>>
    decreases cs.len(),
{
    if cs.len() == 0 {
        seq![]
    } else {
        swap_values(cs.drop_last()) + (if cs.len() == 1 {
            seq![None]
        } else if cs[cs.len() - 2].1.tab.tab_id@ != cs.last().1.tab.tab_id@ {
            seq![None, None]
        } else {
            seq![]
        }) + seq![Some(cs.last().2.pane_id)]
    }
}

/// Where the `i`-th candidate's row stands, below the note an empty list
/// shows.
pub open spec fn swap_row_at(cs: Seq<(Workspace, TabEntry, Pane)>, i: int) -> int {
    swap_values(cs.take(i + 1)).len() - 1
}

/// A candidate's row: the pane as the settings show panes, numbered among
/// the first nine, with the picture of the trade.
#[verifier::opaque]
pub open spec fn swap_row_is(r: Row, c: (Workspace, TabEntry, Pane), i: int, s: Snapshot, config: Config) -> bool {
    &&& manager_pane_row_is(r, c.2, config)
    &&& crate::label::opt_view(r.hotkey) == if i < 9 { Some(decimal((i + 1) as nat)) } else { None }
    &&& pictured_by(r, |v: Seq<Panel>| crate::pictures::swap_is(v, s, c.2))
    &&& legended(r, s)
}

fn swap_row(pane: &Pane, index: usize, snapshot: &Snapshot, config: &Config) -> (r: Row)
    requires
        index < usize::MAX,
    ensures
        forall|w: Workspace, t: TabEntry| swap_row_is(r, (w, t, *pane), index as int, *snapshot, *config),
{
    proof {
        reveal(swap_row_is);
    }
    let row = illustrated(manager_pane_row(pane, config), crate::pictures::swap_panels(snapshot, pane), snapshot);
    if index < 9 {
        let key = decimal_string(index + 1);
        row.hotkey(key.as_str())
    } else {
        row
    }
}

proof fn lemma_swap_values_len(cs: Seq<(Workspace, TabEntry, Pane)>, j: int, k: int)
    requires
        0 <= j <= k <= cs.len(),
    ensures
        swap_values(cs.take(j)).len() <= swap_values(cs.take(k)).len(),
    decreases k - j,
{
    if j < k {
        lemma_swap_values_len(cs, j, k - 1);
        assert(cs.take(k).drop_last() =~= cs.take(k - 1));
    }
}

/// The Swap picker: every other pane of the session, grouped by tab.
pub fn swap_menu(snapshot: &Snapshot, config: &Config) -> (r: Menu<String>)
    ensures
        r.wf(),
        r.filter matches Some(q) && q@.len() == 0,
        r.screen.title@ == "Swap with…"@,
        r.screen.subtitle matches Some(t) && t@ == source_line_of(*snapshot, *config)
            + " を、選んだ Pane と位置ごと入れ替えます"@,
        ({
            let cs = crate::state::candidates(snapshot.entries(), snapshot.source.pane_id@);
            &&& r.values@ == (if cs.len() == 0 { seq![None] } else { seq![] }) + swap_values(cs)
            &&& cs.len() == 0 ==> r.screen.rows@[0].kind == RowKind::Note
                && r.screen.rows@[0].primary@ == "このセッションに他の Pane がありません。"@
            &&& forall|i: int| 0 <= i < cs.len() ==> swap_row_is(
                #[trigger] r.screen.rows@[swap_row_at(cs, i)],
                cs[i],
                i,
                *snapshot,
                *config,
            )
            &&& forall|i: int| 0 <= i < cs.len() && (i == 0 || cs[i - 1].1.tab.tab_id@ != cs[i].1.tab.tab_id@) ==> {
                &&& (#[trigger] r.screen.rows@[swap_row_at(cs, i) - 1]).kind == RowKind::Header
                &&& r.screen.rows@[swap_row_at(cs, i) - 1].primary@ == group_of(cs[i].0, cs[i].1, *snapshot)
            }
        }),
{
    let mut subtitle = source_line(snapshot, config);
    push_str(&mut subtitle, " を、選んだ Pane と位置ごと入れ替えます");
    let mut menu: Menu<String> = Menu::new("Swap with…").subtitle(subtitle.as_str()).filterable();
    let candidates = snapshot.swap_candidates();
    let ghost cs = crate::state::triple_views(candidates@);
    if candidates.len() == 0 {
        menu.row(Row::note("このセッションに他の Pane がありません。"));
    }
    let ghost head = if cs.len() == 0 { seq![None] } else { Seq::<Option<String>>::empty() };
    proof {
        assert(menu.values@ =~= head + swap_values(cs.take(0)));
    }
    let mut i: usize = 0;
    while i < candidates.len()
        invariant
            cs == crate::state::triple_views(candidates@),
            i <= cs.len(),
            head == if cs.len() == 0 { seq![None] } else { Seq::<Option<String>>::empty() },
            menu.wf(),
            menu.filter matches Some(q) && q@.len() == 0,
            menu.screen.title@ == "Swap with…"@,
            menu.screen.subtitle matches Some(t) && t@ == subtitle@,
            menu.values@ == head + swap_values(cs.take(i as int)),
            cs.len() == 0 ==> menu.screen.rows@[0].kind == RowKind::Note
                && menu.screen.rows@[0].primary@ == "このセッションに他の Pane がありません。"@,
            forall|j: int| 0 <= j < i ==> swap_row_is(
                #[trigger] menu.screen.rows@[swap_row_at(cs, j)],
                cs[j],
                j,
                *snapshot,
                *config,
            ),
            forall|j: int| 0 <= j < i && (j == 0 || cs[j - 1].1.tab.tab_id@ != cs[j].1.tab.tab_id@) ==> {
                &&& (#[trigger] menu.screen.rows@[swap_row_at(cs, j) - 1]).kind == RowKind::Header
                &&& menu.screen.rows@[swap_row_at(cs, j) - 1].primary@ == group_of(cs[j].0, cs[j].1, *snapshot)
            },
        decreases cs.len() - i,
    {
        let (workspace, tab, pane) = candidates[i];
        let ghost old_rows = menu.screen.rows@;
        proof {
            assert(cs[i as int] == (*workspace, *tab, *pane));
            assert(old_rows.len() == head.len() + swap_values(cs.take(i as int)).len());
            assert(cs.take(i + 1).drop_last() =~= cs.take(i as int));
            assert(cs.take(i + 1).last() == cs[i as int]);
            if i > 0 {
                assert(cs.take(i + 1)[i - 1] == cs[i - 1]);
                assert(cs[i - 1] == (*candidates@[i - 1].0, *candidates@[i - 1].1, *candidates@[i - 1].2));
            }
        }
        let group = group_name(workspace, tab, snapshot);
        let opens = i == 0 || !crate::text::same_text(candidates[i - 1].1.tab.tab_id.as_str(), tab.tab.tab_id.as_str());
        if opens {
            if i > 0 {
                menu.row(Row::separator());
            }
            menu.row(Row::header(group.as_str()));
        }
        let row = swap_row(pane, i, snapshot, config);
        menu.item_matching(row, pane.pane_id.clone(), group.as_str());
        proof {
            assert(forall|k: int| 0 <= k < old_rows.len() ==> menu.screen.rows@[k] == old_rows[k]);
            assert(menu.values@ =~= head + swap_values(cs.take(i + 1)));
            assert forall|j: int| 0 <= j < i implies swap_row_at(cs, j) < old_rows.len() by {
                lemma_swap_values_len(cs, j + 1, i as int);
            }
            assert(swap_row_is(menu.screen.rows@[swap_row_at(cs, i as int)], cs[i as int], i as int, *snapshot, *config));
        }
        i = i + 1;
    }
    proof {
        assert(cs.take(cs.len() as int) =~= cs);
    }
    menu
}

// ---------------------------------------------------------------------------
// Which pane to split, which side, how much space
// ---------------------------------------------------------------------------

/// The values of "Split next to…": Auto, then each pane of the tab.
pub open spec fn split_values(panes: Seq<Pane>) -> Seq<Option<Option<String>>> {
    seq![Some(None), None] + panes.map_values(|p: Pane| Some(Some(p.pane_id)))
}

/// The picture of the reader's pane split in beside `target`.
pub open spec fn split_pictured(r: Row, t: TabEntry, target: Seq<char>, s: Snapshot, c: Config) -> bool {
    &&& r.preview matches Some(p) && p.panels@.len() == 1
    &&& match crate::state::layout_of(t) {
        Some(tree) => crate::term::panel_is(
            r.preview->0.panels@[0],
            crate::preview::tab_number_of(t),
            crate::layout::split_tree(tree, target, s.source.pane_id@, crate::pictures::configured_side(c)),
            seq![s.source.pane_id@],
            crate::pictures::pane_labels(t.panes@).push((s.source.pane_id@, crate::preview::short_id(s.source.pane_id@))),
        ),
        None => crate::term::unreadable_panel(r.preview->0.panels@[0], crate::preview::tab_number_of(t)),
    }
    &&& legended(r, s)
}

/// The "Split next to…" picker for the tab `tab_id`: Auto, which splits
/// the pane Herdr would, then every pane of the tab, each drawn split.
pub fn split_menu(snapshot: &Snapshot, tab_id: &str, config: &Config) -> (r: Result<Menu<Option<String>>, String>)
    ensures
        match crate::state::entry_from(snapshot.entries(), tab_id@, 0) {
            None => r matches Err(e) && e@ == "Destination tab no longer exists."@,
            Some(k) => {
                let t = snapshot.entries()[k].1;
                r matches Ok(m) && {
                    &&& m.wf()
                    &&& m.screen.title@ == "Split next to…"@
                    &&& m.screen.subtitle matches Some(st) && st@ == tab_display_of(t.tab, t.position as nat)
                        + " の、どの Pane の隣に置くかを選びます"@
                    &&& m.values@ == split_values(t.panes@)
                    &&& crate::tools_ui::item_row(m.screen.rows@[0], "Auto"@, Some("a"@), Some(
                        "その Tab のフォーカス中の Pane を使う"@,
                    ))
                    &&& match crate::state::anchor_index(t.panes@) {
                        Some(a) => split_pictured(m.screen.rows@[0], t, t.panes@[a].pane_id@, *snapshot, *config),
                        None => m.screen.rows@[0].preview is None,
                    }
                    &&& forall|k: int| 2 <= k < t.panes@.len() + 2 ==> {
                        &&& manager_pane_row_is(#[trigger] m.screen.rows@[k], t.panes@[k - 2], *config)
                        &&& crate::label::opt_view(m.screen.rows@[k].hotkey) == if k - 2 < 9 {
                            Some(decimal((k - 1) as nat))
                        } else {
                            None
                        }
                        &&& split_pictured(m.screen.rows@[k], t, t.panes@[k - 2].pane_id@, *snapshot, *config)
                    }
                }
            },
        },
{
    let tab = match snapshot.tab(tab_id) {
        Some(t) => t,
        None => return Err(owned("Destination tab no longer exists.")),
    };
    let mut subtitle = tab_display(&tab.tab, tab.position);
    push_str(&mut subtitle, " の、どの Pane の隣に置くかを選びます");
    let mut menu: Menu<Option<String>> = Menu::new("Split next to…").subtitle(subtitle.as_str());
    let side = config.quick_side();
    let automatic = match tab.split_anchor() {
        Some(p) => split_beside(tab, p.pane_id.as_str(), &snapshot.source, side),
        None => Vec::new(),
    };
    let auto = illustrated(
        Row::item("Auto").hotkey("a").secondary("その Tab のフォーカス中の Pane を使う"),
        automatic,
        snapshot,
    );
    menu.item(auto, None);
    menu.row(Row::separator());
    let ghost ps = tab.panes@;
    proof {
        assert(menu.values@ =~= split_values(ps.take(0)));
    }
    let mut i: usize = 0;
    while i < tab.panes.len()
        invariant
            ps == tab.panes@,
            side == crate::pictures::configured_side(*config),
            i <= ps.len(),
            menu.wf(),
            menu.screen.title@ == "Split next to…"@,
            menu.screen.subtitle matches Some(st) && st@ == subtitle@,
            menu.values@ == split_values(ps.take(i as int)),
            crate::tools_ui::item_row(menu.screen.rows@[0], "Auto"@, Some("a"@), Some(
                "その Tab のフォーカス中の Pane を使う"@,
            )),
            match crate::state::anchor_index(ps) {
                Some(a) => split_pictured(menu.screen.rows@[0], *tab, ps[a].pane_id@, *snapshot, *config),
                None => menu.screen.rows@[0].preview is None,
            },
            forall|k: int| 2 <= k < i + 2 ==> {
                &&& manager_pane_row_is(#[trigger] menu.screen.rows@[k], ps[k - 2], *config)
                &&& crate::label::opt_view(menu.screen.rows@[k].hotkey) == if k - 2 < 9 {
                    Some(decimal((k - 1) as nat))
                } else {
                    None
                }
                &&& split_pictured(menu.screen.rows@[k], *tab, ps[k - 2].pane_id@, *snapshot, *config)
            },
        decreases ps.len() - i,
    {
        let pane = &tab.panes[i];
        let pictures = split_beside(tab, pane.pane_id.as_str(), &snapshot.source, side);
        let row = illustrated(manager_pane_row(pane, config), pictures, snapshot);
        let row = if i < 9 {
            let key = decimal_string(i + 1);
            row.hotkey(key.as_str())
        } else {
            row
        };
        proof {
            assert(menu.screen.rows@.len() == i + 2);
            assert(manager_pane_row_is(row, ps[i as int], *config));
            assert(split_pictured(row, *tab, ps[i as int].pane_id@, *snapshot, *config));
        }
        menu.item(row, Some(pane.pane_id.clone()));
        proof {
            assert(ps.take(i + 1) =~= ps.take(i as int).push(ps[i as int]));
            assert(menu.values@ =~= split_values(ps.take(i + 1)));
        }
        i = i + 1;
    }
    proof {
        assert(ps.take(ps.len() as int) =~= ps);
    }
    Ok(menu)
}

/// The row's picture: the tab with the stand-in pane landed on `side` of
/// `target`, and filled.
pub open spec fn side_pictured(r: Row, shape: crate::layout::Tree, target: Seq<char>, side: Side) -> bool {
    &&& r.preview matches Some(p) && p.panels@.len() == 1
    &&& r.preview->0.panels@[0].shape matches Some(after)
        && after@ == crate::layout::split_tree(shape, target, crate::preview::ARRIVING@, side)
    &&& string_views(r.preview->0.panels@[0].marked@) == seq![crate::preview::ARRIVING@]
}

/// `t` with its first character upper-cased.
pub open spec fn capitalized(t: Seq<char>) -> Seq<char> {
    if t.len() == 0 {
        seq![]
    } else {
        crate::text::uppercase_of(t[0]) + t.drop_first()
    }
}

/// The key that picks a side: the direction key of its arrow.
pub open spec fn side_key_of(s: Side) -> char {
    match s {
        Side::Left => 'h',
        Side::Right => 'l',
        Side::Up => 'k',
        Side::Down => 'j',
    }
}

/// The side picker: the four sides in the order Herdr lists them, each
/// under its own direction key, drawn landing beside `preview`'s target
/// when there is one.
pub fn side_menu(context: &str, preview: Option<(&Shape, &str)>) -> (r: Menu<Side>)
    ensures
        r.wf(),
        r.screen.title@ == "Which side?"@,
        r.screen.subtitle matches Some(t) && t@ == context@ + " の、どちら側に置きますか"@,
        r.values@ == seq![Some(Side::Right), Some(Side::Down), Some(Side::Left), Some(Side::Up)],
        forall|i: int| 0 <= i < 4 ==> {
            let side = r.values@[i]->0;
            &&& (#[trigger] r.screen.rows@[i]).kind == RowKind::Item
            &&& r.screen.rows@[i].primary@ == capitalized(side_name(side))
            &&& crate::label::opt_view(r.screen.rows@[i].hotkey) == Some(seq![side_key_of(side)])
            &&& match preview {
                Some((shape, target)) => side_pictured(r.screen.rows@[i], shape@, target@, side),
                None => r.screen.rows@[i].preview is None,
            }
        },
{
    let mut subtitle = owned(context);
    push_str(&mut subtitle, " の、どちら側に置きますか");
    let mut menu: Menu<Side> = Menu::new("Which side?").subtitle(subtitle.as_str());
    let sides = Side::all();
    let mut i: usize = 0;
    while i < 4
        invariant
            sides@ == seq![Side::Right, Side::Down, Side::Left, Side::Up],
            i <= 4,
            menu.wf(),
            menu.screen.title@ == "Which side?"@,
            menu.screen.subtitle matches Some(t) && t@ == subtitle@,
            menu.values@ == seq![Some(Side::Right), Some(Side::Down), Some(Side::Left), Some(Side::Up)].take(i as int),
            forall|j: int| 0 <= j < i ==> {
                let side = sides@[j];
                &&& (#[trigger] menu.screen.rows@[j]).kind == RowKind::Item
                &&& menu.screen.rows@[j].primary@ == capitalized(side_name(side))
                &&& crate::label::opt_view(menu.screen.rows@[j].hotkey) == Some(seq![side_key_of(side)])
                &&& match preview {
                    Some((shape, target)) => side_pictured(menu.screen.rows@[j], shape@, target@, side),
                    None => menu.screen.rows@[j].preview is None,
                }
            },
        decreases 4 - i,
    {
        let side = sides[i];
        let name = capitalize(side.as_str());
        let mut key = String::new();
        crate::text::push_char(&mut key, side.hotkey());
        let mut row = Row::item(name.as_str()).hotkey(key.as_str());
        match preview {
            Some((shape, target)) => {
                let (after, marked) = placement_preview(shape, target, side);
                row = row.preview(after, marked);
            },
            None => {},
        }
        proof {
            assert(menu.screen.rows@.len() == i);
            assert(row.kind == RowKind::Item);
            assert(row.primary@ == capitalized(side_name(side)));
            assert(crate::label::opt_view(row.hotkey) == Some(seq![side_key_of(side)]));
        }
        menu.item(row, side);
        proof {
            assert(seq![Some(Side::Right), Some(Side::Down), Some(Side::Left), Some(Side::Up)].take(i + 1)
                =~= seq![Some(Side::Right), Some(Side::Down), Some(Side::Left), Some(Side::Up)].take(i as int).push(Some(side)));
        }
        i = i + 1;
    }
    proof {
        assert(seq![Some(Side::Right), Some(Side::Down), Some(Side::Left), Some(Side::Up)].take(4)
            =~= seq![Some(Side::Right), Some(Side::Down), Some(Side::Left), Some(Side::Up)]);
    }
    menu
}

/// The share picker: the three ratios, numbered.
pub fn ratio_menu(context: &str) -> (r: Menu<Ratio>)
    ensures
        r.wf(),
        r.screen.title@ == "How much space?"@,
        r.screen.subtitle matches Some(t) && t@ == context@ + " の空間を、どう分けますか"@,
        r.values@ == seq![
            Some(Ratio(crate::layout::EVEN)),
            Some(Ratio(crate::layout::SIXTY_FORTY)),
            Some(Ratio(crate::layout::FORTY_SIXTY)),
        ],
        forall|i: int| 0 <= i < 3 ==> crate::tools_ui::item_row(
            #[trigger] r.screen.rows@[i],
            crate::layout::ratio_label((r.values@[i]->0).0),
            Some(decimal((i + 1) as nat)),
            Some("元からある Pane : 置く Pane"@),
        ),
{
    let mut subtitle = owned(context);
    push_str(&mut subtitle, " の空間を、どう分けますか");
    let mut menu: Menu<Ratio> = Menu::new("How much space?").subtitle(subtitle.as_str());
    let ratios = Ratio::all();
    let ghost want = seq![
        Some(Ratio(crate::layout::EVEN)),
        Some(Ratio(crate::layout::SIXTY_FORTY)),
        Some(Ratio(crate::layout::FORTY_SIXTY)),
    ];
    let mut i: usize = 0;
    while i < 3
        invariant
            ratios@ == seq![Ratio(crate::layout::EVEN), Ratio(crate::layout::SIXTY_FORTY), Ratio(crate::layout::FORTY_SIXTY)],
            want == seq![
                Some(Ratio(crate::layout::EVEN)),
                Some(Ratio(crate::layout::SIXTY_FORTY)),
                Some(Ratio(crate::layout::FORTY_SIXTY)),
            ],
            i <= 3,
            menu.wf(),
            menu.screen.title@ == "How much space?"@,
            menu.screen.subtitle matches Some(t) && t@ == subtitle@,
            menu.values@ == want.take(i as int),
            forall|j: int| 0 <= j < i ==> crate::tools_ui::item_row(
                #[trigger] menu.screen.rows@[j],
                crate::layout::ratio_label((want[j]->0).0),
                Some(decimal((j + 1) as nat)),
                Some("元からある Pane : 置く Pane"@),
            ),
        decreases 3 - i,
    {
        let ratio = ratios[i];
        let key = decimal_string(i + 1);
        menu.item(Row::item(ratio.label()).hotkey(key.as_str()).secondary("元からある Pane : 置く Pane"), ratio);
        proof {
            assert(want.take(i + 1) =~= want.take(i as int).push(Some(ratio)));
        }
        i = i + 1;
    }
    proof {
        assert(want.take(3) =~= want);
    }
    menu
}

/// A yes-or-no question.
pub fn confirm_menu(question: &str) -> (r: Menu<bool>)
    ensures
        r.wf(),
        r.screen.title@ == question@,
        r.values@ == seq![Some(true), Some(false)],
        crate::tools_ui::item_row(r.screen.rows@[0], "Yes"@, Some("y"@), None),
        crate::tools_ui::item_row(r.screen.rows@[1], "No"@, Some("n"@), None),
{
    let mut menu: Menu<bool> = Menu::new(question);
    menu.item(Row::item("Yes").hotkey("y"), true);
    menu.item(Row::item("No").hotkey("n"), false);
    proof {
        assert(menu.values@ =~= seq![Some(true), Some(false)]);
    }
    menu
}


// ---------------------------------------------------------------------------
// What a pick leads to
// ---------------------------------------------------------------------------

/// What follows a pick on the Move list.
#[derive(Debug)]
pub enum MoveStep {
    /// Ask which pane of this tab to split and then where: the reader asked
    /// to say where.
    Detailed(String),
    /// Ask which pane of this tab to split, then the placement: Advanced
    /// Move is on.
    ChooseTarget(String),
    /// Ask the placement, splitting the pane Herdr would.
    Place(String),
    /// Run this: the pane leaves for a tab or workspace made for it.
    Run(crate::ops::Request),
}

/// The label a new tab or workspace gets from what was typed: the text
/// itself when any remains after trimming, else the automatic name.
pub open spec fn typed_label(s: Snapshot, c: Config, query: Seq<char>) -> Option<Seq<char>> {
    if crate::text::trim(query).len() > 0 {
        Some(crate::text::trim(query))
    } else if !c.auto_name_new_tab {
        None
    } else {
        crate::label::new_tab_label_of(s.source)
    }
}

/// An Extract request for the reader's pane.
pub open spec fn extract_request_is(r: crate::ops::Request, s: Snapshot, workspace: bool, label: Option<Seq<char>>) -> bool {
    &&& r.verb == crate::ops::Verb::Extract
    &&& r.source_pane@ == s.source.pane_id@
    &&& r.source_tab is None
    &&& if workspace {
        r.destination matches crate::ops::Destination::NewWorkspace { label: l } && crate::label::opt_view(l) == label
    } else {
        r.destination matches crate::ops::Destination::NewTab { label: l } && crate::label::opt_view(l) == label
    }
    &&& r.placement.side == Side::Right && r.placement.ratio == crate::layout::EVEN
    &&& !r.preserve_layout
}

/// Decide what a Move pick leads to. `shift` is whether the pick was made
/// with Shift held, which flips `forced_detail`, the intent carried in from
/// the screen that opened the list; `query` is what had been typed.
pub fn after_move_pick(
    pick: &Pick,
    shift: bool,
    forced_detail: bool,
    query: &str,
    snapshot: &Snapshot,
    config: &Config,
) -> (r: MoveStep)
    ensures
        match pick {
            Pick::Tab(id) => if forced_detail != shift {
                r matches MoveStep::Detailed(t) && t == id
            } else if config.advanced_move {
                r matches MoveStep::ChooseTarget(t) && t == id
            } else {
                r matches MoveStep::Place(t) && t == id
            },
            Pick::NewTab => r matches MoveStep::Run(q) && extract_request_is(
                q, *snapshot, false, typed_label(*snapshot, *config, query@),
            ),
            Pick::NewWorkspace => r matches MoveStep::Run(q) && extract_request_is(
                q, *snapshot, true, typed_label(*snapshot, *config, query@),
            ),
        },
{
    match pick {
        Pick::Tab(id) => {
            if forced_detail != shift {
                MoveStep::Detailed(id.clone())
            } else if config.advanced_move {
                MoveStep::ChooseTarget(id.clone())
            } else {
                MoveStep::Place(id.clone())
            }
        },
        _ => {
            let typed = crate::text::trimmed(query);
            let label = config.new_tab_label(&snapshot.source, crate::manager::non_empty(typed.as_str()));
            let destination = match pick {
                Pick::NewWorkspace => crate::ops::Destination::NewWorkspace { label },
                _ => crate::ops::Destination::NewTab { label },
            };
            MoveStep::Run(
                crate::ops::Request {
                    verb: crate::ops::Verb::Extract,
                    source_pane: snapshot.source.pane_id.clone(),
                    source_tab: None,
                    destination,
                    placement: crate::ops::Placement::default(),
                    preserve_layout: false,
                },
            )
        },
    }
}

/// The tab a placement is drawn on and the pane split in it: the named
/// target, else the pane Herdr would split; a tab of one pane, whose shape
/// is not stored, is that pane alone.
pub open spec fn placement_target_of(s: Snapshot, tab_id: Seq<char>, target: Option<Seq<char>>) -> Option<(crate::layout::Tree, Seq<char>)> {
    let tab = match crate::state::entry_from(s.entries(), tab_id, 0) {
        Some(k) => Some(s.entries()[k].1),
        None => None,
    };
    let anchor = match target {
        Some(t) => Some(t),
        None => match tab {
            Some(t) => match crate::state::anchor_index(t.panes@) {
                Some(a) => Some(t.panes@[a].pane_id@),
                None => None,
            },
            None => None,
        },
    };
    match anchor {
        None => None,
        Some(a) => match tab {
            Some(t) => match t.shape {
                Some(shape) => Some((shape@, a)),
                None => Some((crate::layout::Tree::Leaf(a), a)),
            },
            None => Some((crate::layout::Tree::Leaf(a), a)),
        },
    }
}

/// What the placement step draws on for a Move into `tab_id`.
pub fn placement_target(snapshot: &Snapshot, tab_id: &str, target_pane: Option<&str>) -> (r: Option<(Shape, String)>)
    ensures
        match r {
            Some((shape, anchor)) => placement_target_of(
                *snapshot, tab_id@, match target_pane { Some(t) => Some(t@), None => None },
            ) == Some((shape@, anchor@)),
            None => placement_target_of(
                *snapshot, tab_id@, match target_pane { Some(t) => Some(t@), None => None },
            ) is None,
        },
{
    let tab = snapshot.tab(tab_id);
    let anchor: Option<String> = match target_pane {
        Some(t) => Some(owned(t)),
        None => match tab {
            Some(t) => match t.split_anchor() {
                Some(p) => Some(p.pane_id.clone()),
                None => None,
            },
            None => None,
        },
    };
    match anchor {
        None => None,
        Some(a) => {
            let shape = match tab {
                Some(t) => match &t.shape {
                    Some(shape) => shape.duplicate(),
                    None => Shape::pane(a.as_str()),
                },
                None => Shape::pane(a.as_str()),
            };
            Some((shape, a))
        },
    }
}

/// A Move of the reader's pane into `tab_id`, splitting `target_pane` or,
/// without one, the pane Herdr picks.
pub fn move_into(snapshot: &Snapshot, tab_id: &str, target_pane: Option<String>, placement: crate::ops::Placement) -> (r: crate::ops::Request)
    ensures
        r.verb == crate::ops::Verb::Move,
        r.source_pane@ == snapshot.source.pane_id@,
        r.source_tab is None,
        r.destination matches crate::ops::Destination::Tab { tab_id: t, target_pane: p } && t@ == tab_id@ && p == target_pane,
        r.placement == placement,
        !r.preserve_layout,
{
    crate::ops::Request {
        verb: crate::ops::Verb::Move,
        source_pane: snapshot.source.pane_id.clone(),
        source_tab: None,
        destination: crate::ops::Destination::Tab { tab_id: owned(tab_id), target_pane },
        placement,
        preserve_layout: false,
    }
}

/// A Fold of the tab `source_tab` into `destination`, keeping the folded
/// tab's own arrangement when the settings say so.
pub fn fold_into(
    snapshot: &Snapshot,
    config: &Config,
    source_tab: String,
    destination: String,
    placement: crate::ops::Placement,
) -> (r: crate::ops::Request)
    ensures
        r.verb == crate::ops::Verb::Merge,
        r.source_pane@ == snapshot.source.pane_id@,
        r.source_tab == Some(source_tab),
        r.destination matches crate::ops::Destination::Tab { tab_id: t, target_pane: p } && t == destination && p is None,
        r.placement == placement,
        r.preserve_layout == config.preserve_merge_layout,
{
    crate::ops::Request {
        verb: crate::ops::Verb::Merge,
        source_pane: snapshot.source.pane_id.clone(),
        source_tab: Some(source_tab),
        destination: crate::ops::Destination::Tab { tab_id: destination, target_pane: None },
        placement,
        preserve_layout: config.preserve_merge_layout,
    }
}

/// A Swap of the reader's pane with `target`.
pub fn swap_with(snapshot: &Snapshot, target: String) -> (r: crate::ops::Request)
    ensures
        r.verb == crate::ops::Verb::Swap,
        r.source_pane@ == snapshot.source.pane_id@,
        r.source_tab is None,
        r.destination matches crate::ops::Destination::Pane { pane_id: p } && p == target,
        r.placement.side == Side::Right && r.placement.ratio == crate::layout::EVEN,
        !r.preserve_layout,
{
    crate::ops::Request {
        verb: crate::ops::Verb::Swap,
        source_pane: snapshot.source.pane_id.clone(),
        source_tab: None,
        destination: crate::ops::Destination::Pane { pane_id: target },
        placement: crate::ops::Placement::default(),
        preserve_layout: false,
    }
}

} // verus!
