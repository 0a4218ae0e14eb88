//! The Navigator's list: the session as a map, grouped under workspace and
//! tab headers, for whichever scope is chosen.
use vstd::prelude::*;

use crate::label::{compact_of, detail_of, tab_display, tab_display_of};
use crate::manager::workspace_name;
use crate::menu::Menu;
use crate::model::{status_glyph, Pane, Tab, Workspace};
use crate::navigator::Scope;
use crate::pickers::{pane_row, status_color, status_color_of, workspace_name_of};
use crate::term::{Row, RowKind};
use crate::text::{decimal, decimal_string, owned, push_str, same_text};

verus! {

/// One line of the list, as it reads.
pub enum Line {
    Header(Seq<char>),
    Separator,
    Note(Seq<char>),
    Workspace(Workspace),
    /// A tab, with its 1-based number in its workspace.
    Tab(Tab, nat),
    /// A pane, and whether it is the one the Navigator was opened from.
    Pane(Pane, bool),
}

/// How a tab's pane count reads.
pub open spec fn pane_count_of(n: u32) -> Seq<char> {
    decimal(n as nat) + if n == 1 { " pane"@ } else { " panes"@ }
}

/// The row and its value say what `line` says.
pub open spec fn shows(r: Row, value: Option<String>, line: Line) -> bool {
    match line {
        Line::Header(t) => r.kind == RowKind::Header && r.primary@ == t && value is None,
        Line::Separator => r.kind == RowKind::Separator && value is None,
        Line::Note(t) => r.kind == RowKind::Note && r.primary@ == t && value is None,
        Line::Workspace(w) => {
            &&& value matches Some(v) && v@ == w.workspace_id@
            &&& r.kind == RowKind::Item
            &&& r.primary@ == workspace_name_of(w)
            &&& r.glyph == Some(status_glyph(w.agent_status))
            &&& r.glyph_color == status_color_of(w.agent_status)
            &&& crate::label::opt_view(r.secondary) == if w.focused { Some("current"@) } else { None }
        },
        Line::Tab(t, position) => {
            &&& value matches Some(v) && v@ == t.tab_id@
            &&& r.kind == RowKind::Item
            &&& r.primary@ == tab_display_of(t, position)
            &&& r.glyph == Some(status_glyph(t.agent_status))
            &&& r.glyph_color == status_color_of(t.agent_status)
            &&& crate::label::opt_view(r.secondary) == Some(pane_count_of(t.pane_count))
        },
        Line::Pane(p, current) => {
            &&& value matches Some(v) && v@ == p.pane_id@
            &&& r.kind == RowKind::Item
            &&& r.primary@ == compact_of(p)
            &&& r.glyph == Some(status_glyph(p.agent_status))
            &&& r.glyph_color == status_color_of(p.agent_status)
            &&& crate::label::opt_view(r.detail) == detail_of(p)
            &&& crate::label::opt_view(r.secondary) == if current {
                Some("current"@)
            } else {
                Some(p.agent_status.label_spec())
            }
        },
    }
}

/// The lines for the tabs of one workspace: a header, the tabs, a
/// separator; nothing for a workspace without tabs.
pub open spec fn tab_lines(w: Workspace, ts: Seq<Tab>) -> Seq<Line> {
    if ts.len() == 0 {
        seq![]
    } else {
        seq![Line::Header(workspace_name_of(w))] + Seq::new(ts.len(), |j: int| Line::Tab(ts[j], (j + 1) as nat))
            + seq![Line::Separator]
    }
}

/// The panes of `ps` in tab `t`, only those running an agent when
/// `agents_only`.
pub open spec fn in_tab(ps: Seq<Pane>, t: Tab, agents_only: bool) -> Seq<Pane>
    decreases ps.len(),
{
    if ps.len() == 0 {
        seq![]
    } else {
        let p = ps.last();
        in_tab(ps.drop_last(), t, agents_only) + if p.tab_id@ == t.tab_id@ && (!agents_only || p.agent is Some) {
            seq![p]
        } else {
            seq![]
        }
    }
}

/// One tab's group of panes: a header naming workspace and tab, the panes,
/// a separator; nothing when no pane qualifies.
pub open spec fn pane_group(
    w: Workspace,
    t: Tab,
    position: nat,
    ps: Seq<Pane>,
    agents_only: bool,
    current: Option<Seq<char>>,
) -> Seq<Line> {
    let xs = in_tab(ps, t, agents_only);
    if xs.len() == 0 {
        seq![]
    } else {
        seq![Line::Header(workspace_name_of(w) + " · "@ + tab_display_of(t, position))] + xs.map_values(
            |p: Pane| Line::Pane(p, current == Some(p.pane_id@)),
        ) + seq![Line::Separator]
    }
}

/// The groups of the first `j` tabs of one workspace.
pub open spec fn pane_lines(
    w: Workspace,
    ts: Seq<Tab>,
    ps: Seq<Pane>,
    agents_only: bool,
    current: Option<Seq<char>>,
    j: nat,
) -> Seq<Line>
    decreases j,
{
    if j == 0 || j > ts.len() {
        seq![]
    } else {
        pane_lines(w, ts, ps, agents_only, current, (j - 1) as nat) + pane_group(
            w,
            ts[j - 1],
            j,
            ps,
            agents_only,
            current,
        )
    }
}

/// The lines of the first `k` workspaces, for a scope.
pub open spec fn body_of(
    scope: Scope,
    ws: Seq<Workspace>,
    tabs: Seq<Seq<Tab>>,
    panes: Seq<Seq<Pane>>,
    current: Option<Seq<char>>,
    k: nat,
) -> Seq<Line>
    decreases k,
{
    if k == 0 || k > ws.len() {
        seq![]
    } else {
        body_of(scope, ws, tabs, panes, current, (k - 1) as nat) + match scope {
            Scope::Workspaces => seq![Line::Workspace(ws[k - 1])],
            Scope::Tabs => tab_lines(ws[k - 1], tabs[k - 1]),
            _ => pane_lines(
                ws[k - 1],
                tabs[k - 1],
                panes[k - 1],
                scope == Scope::Agents,
                current,
                tabs[k - 1].len(),
            ),
        }
    }
}

pub open spec fn is_entry(l: Line) -> bool {
    match l {
        Line::Workspace(_) | Line::Tab(_, _) | Line::Pane(_, _) => true,
        _ => false,
    }
}

/// The whole list: the body, and a note in place of an empty one.
pub open spec fn lines_of(
    scope: Scope,
    ws: Seq<Workspace>,
    tabs: Seq<Seq<Tab>>,
    panes: Seq<Seq<Pane>>,
    current: Option<Seq<char>>,
) -> Seq<Line> {
    let body = body_of(scope, ws, tabs, panes, current, ws.len());
    if exists|i: int| 0 <= i < body.len() && is_entry(#[trigger] body[i]) {
        body
    } else {
        body.push(
            Line::Note(
                if scope == Scope::Agents {
                    "No agent is running in any pane."@
                } else {
                    "Nothing to show."@
                },
            ),
        )
    }
}

/// The menu shows `lines`, one row each.
pub open spec fn lists(m: Menu<String>, lines: Seq<Line>) -> bool {
    &&& m.screen.rows@.len() == lines.len()
    &&& forall|i: int| 0 <= i < lines.len() ==> shows(#[trigger] m.screen.rows@[i], m.values@[i], lines[i])
}

fn push_line(menu: &mut Menu<String>, row: Row, value: Option<String>, extra: &str, Ghost(lines): Ghost<Seq<Line>>, Ghost(line): Ghost<Line>)
    requires
        old(menu).wf(),
        lists(*old(menu), lines),
        shows(row, value, line),
    ensures
        final(menu).wf(),
        lists(*final(menu), lines.push(line)),
        final(menu).screen.title == old(menu).screen.title,
        final(menu).screen.subtitle == old(menu).screen.subtitle,
        final(menu).screen.footer == old(menu).screen.footer,
        final(menu).filter == old(menu).filter,
        final(menu).numbered == old(menu).numbered,
{
    match value {
        Some(v) => {
            let ghost vv = v;
            menu.item_matching(row, v, extra);
            proof {
                assert(menu.values@.last() == Some(vv));
            }
        },
        None => {
            menu.row(row);
        },
    }
    proof {
        assert forall|i: int| 0 <= i < lines.push(line).len() implies shows(
            #[trigger] menu.screen.rows@[i],
            menu.values@[i],
            lines.push(line)[i],
        ) by {
            if i < lines.len() {
                assert(menu.screen.rows@[i] == old(menu).screen.rows@[i]);
                assert(menu.values@[i] == old(menu).values@[i]);
            }
        }
    }
}

fn pane_line(pane: &Pane, current: Option<&str>) -> (r: Row)
    ensures
        shows(r, Some(pane.pane_id), Line::Pane(*pane, match current { Some(c) => Some(c@) == Some(pane.pane_id@), None => false })),
{
    let row = pane_row(pane, true, true);
    let here = match current {
        Some(c) => same_text(c, pane.pane_id.as_str()),
        None => false,
    };
    if here {
        row.secondary("current")
    } else {
        row
    }
}

/// The Navigator's list for `scope`. `workspaces` are the session's
/// workspaces, `tabs` and `panes` what each of them holds, in the same
/// order; `current` is the pane the Navigator was opened from.
pub fn list_menu(
    scope: Scope,
    workspaces: &[Workspace],
    tabs: &[Vec<Tab>],
    panes: &[Vec<Pane>],
    current: Option<&str>,
) -> (r: Menu<String>)
    requires
        tabs@.len() == workspaces@.len(),
        panes@.len() == workspaces@.len(),
        forall|k: int| 0 <= k < tabs@.len() ==> (#[trigger] tabs@[k])@.len() < usize::MAX,
    ensures
        r.wf(),
        r.numbered,
        r.filter matches Some(q) && q@.len() == 0,
        r.screen.title@ == crate::navigator::scope_title(scope),
        r.screen.subtitle matches Some(t) && t@ == "Type to filter · Tab changes what is listed"@,
        r.screen.footer matches Some(f) && f@ == "type to filter · 1-9 jump · ↑↓ move · Enter jump · Tab scope · Esc cancel"@,
        lists(
            r,
            lines_of(
                scope,
                workspaces@,
                tabs@.map_values(|v: Vec<Tab>| v@),
                panes@.map_values(|v: Vec<Pane>| v@),
                match current { Some(c) => Some(c@), None => None },
            ),
        ),
{
    let ghost ts = tabs@.map_values(|v: Vec<Tab>| v@);
    let ghost ps = panes@.map_values(|v: Vec<Pane>| v@);
    let ghost cur = match current { Some(c) => Some(c@), None => None };
    let mut menu: Menu<String> = Menu::new(scope.title())
        .subtitle("Type to filter · Tab changes what is listed")
        .footer("type to filter · 1-9 jump · ↑↓ move · Enter jump · Tab scope · Esc cancel")
        .filterable()
        .numbered();
    let mut k: usize = 0;
    while k < workspaces.len()
        invariant
            tabs@.len() == workspaces@.len(),
            panes@.len() == workspaces@.len(),
            forall|k: int| 0 <= k < tabs@.len() ==> (#[trigger] tabs@[k])@.len() < usize::MAX,
            ts == tabs@.map_values(|v: Vec<Tab>| v@),
            ps == panes@.map_values(|v: Vec<Pane>| v@),
            cur == match current { Some(c) => Some(c@), None => None },
            k <= workspaces@.len(),
            menu.wf(),
            menu.numbered,
            menu.filter matches Some(q) && q@.len() == 0,
            menu.screen.title@ == crate::navigator::scope_title(scope),
            menu.screen.subtitle matches Some(t) && t@ == "Type to filter · Tab changes what is listed"@,
            menu.screen.footer matches Some(f) && f@ == "type to filter · 1-9 jump · ↑↓ move · Enter jump · Tab scope · Esc cancel"@,
            lists(menu, body_of(scope, workspaces@, ts, ps, cur, k as nat)),
        decreases workspaces@.len() - k,
    {
        let workspace = &workspaces[k];
        let name = workspace_name(workspace);
        let ghost before = body_of(scope, workspaces@, ts, ps, cur, k as nat);
        proof {
            assert(ts[k as int] == tabs@[k as int]@);
            assert(ps[k as int] == panes@[k as int]@);
        }
        match scope {
            Scope::Workspaces => {
                let row = Row::item(name.as_str()).glyph(
                    workspace.agent_status.glyph(),
                    status_color(workspace.agent_status),
                );
                let row = if workspace.focused { row.secondary("current") } else { row };
                push_line(&mut menu, row, Some(workspace.workspace_id.clone()), "", Ghost(before), Ghost(Line::Workspace(*workspace)));
                proof {
                    assert(before.push(Line::Workspace(*workspace)) =~= body_of(scope, workspaces@, ts, ps, cur, (k + 1) as nat));
                }
            },
            Scope::Tabs => {
                let list = &tabs[k];
                if list.len() > 0 {
                    push_line(&mut menu, Row::header(name.as_str()), None, "", Ghost(before), Ghost(Line::Header(workspace_name_of(*workspace))));
                    let ghost head = before.push(Line::Header(workspace_name_of(*workspace)));
                    let mut j: usize = 0;
                    while j < list.len()
                        invariant
                            list@ == ts[k as int],
                            list@.len() < usize::MAX,
                            j <= list@.len(),
                            menu.wf(),
                            menu.numbered,
                            menu.filter matches Some(q) && q@.len() == 0,
                            menu.screen.title@ == crate::navigator::scope_title(scope),
                            menu.screen.subtitle matches Some(t) && t@ == "Type to filter · Tab changes what is listed"@,
                            menu.screen.footer matches Some(f) && f@ == "type to filter · 1-9 jump · ↑↓ move · Enter jump · Tab scope · Esc cancel"@,
                            lists(menu, head + Seq::new(j as nat, |i: int| Line::Tab(list@[i], (i + 1) as nat))),
                        decreases list@.len() - j,
                    {
                        let tab = &list[j];
                        let mut count = decimal_string(tab.pane_count as usize);
                        push_str(&mut count, if tab.pane_count == 1 { " pane" } else { " panes" });
                        let label = tab_display(tab, j + 1);
                        let row = Row::item(label.as_str()).glyph(tab.agent_status.glyph(), status_color(tab.agent_status)).secondary(
                            count.as_str(),
                        );
                        let ghost sofar = head + Seq::new(j as nat, |i: int| Line::Tab(list@[i], (i + 1) as nat));
                        push_line(&mut menu, row, Some(tab.tab_id.clone()), name.as_str(), Ghost(sofar), Ghost(Line::Tab(*tab, (j + 1) as nat)));
                        proof {
                            assert(sofar.push(Line::Tab(*tab, (j + 1) as nat)) =~= head + Seq::new((j + 1) as nat, |i: int| Line::Tab(list@[i], (i + 1) as nat)));
                        }
                        j = j + 1;
                    }
                    let ghost full = head + Seq::new(list@.len(), |i: int| Line::Tab(list@[i], (i + 1) as nat));
                    push_line(&mut menu, Row::separator(), None, "", Ghost(full), Ghost(Line::Separator));
                    proof {
                        assert(full.push(Line::Separator) =~= body_of(scope, workspaces@, ts, ps, cur, (k + 1) as nat));
                    }
                } else {
                    proof {
                        assert(before =~= body_of(scope, workspaces@, ts, ps, cur, (k + 1) as nat));
                    }
                }
            },
            Scope::Panes | Scope::Agents => {
                let agents_only = match scope {
                    Scope::Agents => true,
                    _ => false,
                };
                let list = &tabs[k];
                let in_ws = &panes[k];
                let mut j: usize = 0;
                while j < list.len()
                    invariant
                        list@ == ts[k as int],
                        in_ws@ == ps[k as int],
                        name@ == workspace_name_of(*workspace),
                        list@.len() < usize::MAX,
                        agents_only == (scope == Scope::Agents),
                        scope == Scope::Panes || scope == Scope::Agents,
                        cur == match current { Some(c) => Some(c@), None => None },
                        j <= list@.len(),
                        menu.wf(),
                        menu.numbered,
                        menu.filter matches Some(q) && q@.len() == 0,
                        menu.screen.title@ == crate::navigator::scope_title(scope),
                        menu.screen.subtitle matches Some(t) && t@ == "Type to filter · Tab changes what is listed"@,
                        menu.screen.footer matches Some(f) && f@ == "type to filter · 1-9 jump · ↑↓ move · Enter jump · Tab scope · Esc cancel"@,
                        lists(menu, before + pane_lines(*workspace, list@, in_ws@, agents_only, cur, j as nat)),
                    decreases list@.len() - j,
                {
                    let tab = &list[j];
                    let ghost start = before + pane_lines(*workspace, list@, in_ws@, agents_only, cur, j as nat);
                    // Which panes of this workspace belong in the group.
                    let mut chosen: Vec<&Pane> = Vec::new();
                    let mut i: usize = 0;
                    while i < in_ws.len()
                        invariant
                            i <= in_ws@.len(),
                            chosen@.map_values(|p: &Pane| *p) == in_tab(in_ws@.take(i as int), *tab, agents_only),
                        decreases in_ws@.len() - i,
                    {
                        let p = &in_ws[i];
                        proof {
                            assert(in_ws@.take(i + 1).drop_last() =~= in_ws@.take(i as int));
                            assert(in_ws@.take(i + 1).last() == *p);
                        }
                        let ghost c0 = chosen@;
                        if same_text(p.tab_id.as_str(), tab.tab_id.as_str()) && (!agents_only || p.agent.is_some()) {
                            chosen.push(p);
                            proof {
                                assert(chosen@.map_values(|q: &Pane| *q) =~= c0.map_values(|q: &Pane| *q).push(*p));
                            }
                        }
                        i = i + 1;
                    }
                    proof {
                        assert(in_ws@.take(in_ws@.len() as int) =~= in_ws@);
                    }
                    let ghost xs = in_tab(in_ws@, *tab, agents_only);
                    if chosen.len() > 0 {
                        let mut header = name.clone();
                        push_str(&mut header, " · ");
                        let tab_name = tab_display(tab, j + 1);
                        push_str(&mut header, tab_name.as_str());
                        let ghost hl = Line::Header(workspace_name_of(*workspace) + " · "@ + tab_display_of(*tab, (j + 1) as nat));
                        push_line(&mut menu, Row::header(header.as_str()), None, "", Ghost(start), Ghost(hl));
                        let mut extra = name.clone();
                        push_str(&mut extra, " ");
                        push_str(&mut extra, tab_name.as_str());
                        let ghost head = start.push(hl);
                        let mut m: usize = 0;
                        while m < chosen.len()
                            invariant
                                chosen@.map_values(|p: &Pane| *p) == xs,
                                m <= xs.len(),
                                cur == match current { Some(c) => Some(c@), None => None },
                                menu.wf(),
                                menu.numbered,
                                menu.filter matches Some(q) && q@.len() == 0,
                                menu.screen.title@ == crate::navigator::scope_title(scope),
                                menu.screen.subtitle matches Some(t) && t@ == "Type to filter · Tab changes what is listed"@,
                                menu.screen.footer matches Some(f) && f@ == "type to filter · 1-9 jump · ↑↓ move · Enter jump · Tab scope · Esc cancel"@,
                                lists(menu, head + xs.take(m as int).map_values(|p: Pane| Line::Pane(p, cur == Some(p.pane_id@)))),
                            decreases xs.len() - m,
                        {
                            let p = chosen[m];
                            proof {
                                assert(xs[m as int] == *p);
                            }
                            let row = pane_line(p, current);
                            let ghost sofar = head + xs.take(m as int).map_values(|p: Pane| Line::Pane(p, cur == Some(p.pane_id@)));
                            push_line(&mut menu, row, Some(p.pane_id.clone()), extra.as_str(), Ghost(sofar), Ghost(Line::Pane(*p, cur == Some(p.pane_id@))));
                            proof {
                                assert(xs.take(m + 1) =~= xs.take(m as int).push(*p));
                                assert(sofar.push(Line::Pane(*p, cur == Some(p.pane_id@))) =~= head + xs.take(m + 1).map_values(
                                    |p: Pane| Line::Pane(p, cur == Some(p.pane_id@)),
                                ));
                            }
                            m = m + 1;
                        }
                        let ghost full = head + xs.map_values(|p: Pane| Line::Pane(p, cur == Some(p.pane_id@)));
                        proof {
                            assert(xs.take(xs.len() as int) =~= xs);
                        }
                        push_line(&mut menu, Row::separator(), None, "", Ghost(full), Ghost(Line::Separator));
                        proof {
                            assert(full.push(Line::Separator) =~= before + pane_lines(*workspace, list@, in_ws@, agents_only, cur, (j + 1) as nat));
                        }
                    } else {
                        proof {
                            assert(start =~= before + pane_lines(*workspace, list@, in_ws@, agents_only, cur, (j + 1) as nat));
                        }
                    }
                    j = j + 1;
                }
                proof {
                    assert(before + pane_lines(*workspace, list@, in_ws@, agents_only, cur, list@.len()) =~= body_of(
                        scope,
                        workspaces@,
                        ts,
                        ps,
                        cur,
                        (k + 1) as nat,
                    ));
                }
            },
        }
        k = k + 1;
    }
    let ghost body = body_of(scope, workspaces@, ts, ps, cur, workspaces@.len());
    if menu.is_empty() {
        let text = match scope {
            Scope::Agents => "No agent is running in any pane.",
            _ => "Nothing to show.",
        };
        proof {
            assert forall|i: int| 0 <= i < body.len() implies !is_entry(#[trigger] body[i]) by {
                assert(shows(menu.screen.rows@[i], menu.values@[i], body[i]));
            }
        }
        let note = Row::note(text);
        push_line(&mut menu, note, None, "", Ghost(body), Ghost(Line::Note(text@)));
    } else {
        proof {
            let i = choose|i: int| 0 <= i < menu.values@.len() && !(menu.values@[i] is None);
            assert(shows(menu.screen.rows@[i], menu.values@[i], body[i]));
            assert(is_entry(body[i]));
        }
    }
    menu
}

} // verus!
