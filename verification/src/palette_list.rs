//! The command palette's list: the actions the chosen facet shows, grouped
//! under their plugin's name when every plugin is shown.
use vstd::prelude::*;

use crate::label::{compact_of, pane_compact};
use crate::menu::Menu;
use crate::model::{Pane, PluginAction};
use crate::palette::{chips, key, name_of, named, Facet};
use crate::term::{Row, RowKind};
use crate::text::{owned, push_str};

verus! {

/// One line of the palette, as it reads.
pub enum Line {
    Header(Seq<char>),
    Separator,
    Note(Seq<char>),
    Action(PluginAction),
}

/// The facet shows the action.
pub open spec fn shown(f: Option<Seq<char>>, a: PluginAction) -> bool {
    match f {
        None => true,
        Some(id) => a.plugin_id@ == id,
    }
}

/// The plugin of the last action among the first `n` that the facet shows.
pub open spec fn last_plugin(actions: Seq<PluginAction>, f: Option<Seq<char>>, n: int) -> Option<Seq<char>>
    decreases n,
{
    if n <= 0 || n > actions.len() {
        None
    } else if shown(f, actions[n - 1]) {
        Some(actions[n - 1].plugin_id@)
    } else {
        last_plugin(actions, f, n - 1)
    }
}

/// The lines for the first `n` actions: those the facet shows, each
/// plugin's run opened by its name (after a separator, but for the first)
/// when every plugin is shown.
pub open spec fn body_of(actions: Seq<PluginAction>, names: Seq<(String, String)>, f: Option<Seq<char>>, n: int) -> Seq<Line>
    decreases n,
{
    if n <= 0 || n > actions.len() {
        seq![]
    } else {
        let prev = body_of(actions, names, f, n - 1);
        let a = actions[n - 1];
        let before = last_plugin(actions, f, n - 1);
        if !shown(f, a) {
            prev
        } else if f is None && before != Some(a.plugin_id@) {
            prev + (if before is Some { seq![Line::Separator] } else { seq![] }) + seq![
                Line::Header(named(names, a.plugin_id@)),
                Line::Action(a),
            ]
        } else {
            prev.push(Line::Action(a))
        }
    }
}

/// The whole list: the body, or a note saying there is nothing to run.
pub open spec fn lines_of(actions: Seq<PluginAction>, names: Seq<(String, String)>, f: Option<Seq<char>>) -> Seq<Line> {
    let body = body_of(actions, names, f, actions.len() as int);
    if exists|i: int| 0 <= i < body.len() && (#[trigger] body[i]) is Action {
        body
    } else {
        body.push(Line::Note("No other plugin exposes an action. Install one with `herdr plugin link`."@))
    }
}

/// The row and its value say what `line` says: an action runs as its
/// plugin and id, under its title, with its description underneath.
pub open spec fn shows(r: Row, value: Option<(String, String)>, line: Line) -> bool {
    match line {
        Line::Header(t) => r.kind == RowKind::Header && r.primary@ == t && value is None,
        Line::Separator => r.kind == RowKind::Separator && value is None,
        Line::Note(t) => r.kind == RowKind::Note && r.primary@ == t && value is None,
        Line::Action(a) => {
            &&& value matches Some(v) && v.0@ == a.plugin_id@ && v.1@ == a.action_id@
            &&& r.kind == RowKind::Item
            &&& r.primary@ == a.title@
            &&& crate::label::opt_view(r.detail) == crate::label::opt_view(a.description)
        },
    }
}

pub open spec fn lists(m: Menu<(String, String)>, lines: Seq<Line>) -> bool {
    &&& m.screen.rows@.len() == lines.len()
    &&& forall|i: int| 0 <= i < lines.len() ==> shows(#[trigger] m.screen.rows@[i], m.values@[i], lines[i])
}

fn push_line(
    menu: &mut Menu<(String, String)>,
    row: Row,
    value: Option<(String, String)>,
    extra: &str,
    Ghost(lines): Ghost<Seq<Line>>,
    Ghost(line): Ghost<Line>,
)
    requires
        old(menu).wf(),
        lists(*old(menu), lines),
        shows(row, value, line),
    ensures
        final(menu).wf(),
        lists(*final(menu), lines.push(line)),
        final(menu).screen.title == old(menu).screen.title,
        final(menu).screen.subtitle == old(menu).screen.subtitle,
        final(menu).screen.tabs == old(menu).screen.tabs,
        final(menu).filter == old(menu).filter,
        final(menu).numbered == old(menu).numbered,
{
    match value {
        Some(v) => {
            menu.item_matching(row, v, extra);
        },
        None => {
            menu.row(row);
        },
    }
    proof {
        assert forall|i: int| 0 <= i < lines.push(line).len() implies shows(
            #[trigger] menu.screen.rows@[i],
            menu.values@[i],
            lines.push(line)[i],
        ) by {
            if i < lines.len() {
                assert(menu.screen.rows@[i] == old(menu).screen.rows@[i]);
                assert(menu.values@[i] == old(menu).values@[i]);
            }
        }
    }
}

/// The palette for `facet`: its actions, the facet chips when there is
/// more than one facet, and what the palette was opened on.
pub fn palette_menu(
    actions: &[PluginAction],
    names: &[(String, String)],
    facets: &[Facet],
    facet: &Facet,
    source: Option<&Pane>,
) -> (r: Menu<(String, String)>)
    ensures
        r.wf(),
        r.numbered,
        r.filter matches Some(q) && q@.len() == 0,
        r.screen.title@ == "Command Palette"@,
        r.screen.subtitle matches Some(t) && t@ == match source {
            Some(p) => "on "@ + compact_of(*p),
            None => "Type to filter"@,
        },
        facets@.len() > 1 ==> r.screen.tabs@.len() == facets@.len() + 1,
        facets@.len() <= 1 ==> r.screen.tabs@.len() == 0,
        lists(r, lines_of(actions@, names@, key(*facet))),
{
    let subtitle = match source {
        Some(p) => {
            let mut s = owned("on ");
            let name = pane_compact(p);
            push_str(&mut s, name.as_str());
            s
        },
        None => owned("Type to filter"),
    };
    let mut menu: Menu<(String, String)> = Menu::new("Command Palette").subtitle(subtitle.as_str()).filterable().numbered();
    if facets.len() > 1 {
        menu.screen.tabs = chips(facet, facets, names);
    }
    let ghost f = key(*facet);
    let all = match facet {
        Facet::All => true,
        Facet::Only(_) => false,
    };
    let mut current: Option<String> = None;
    let mut i: usize = 0;
    while i < actions.len()
        invariant
            i <= actions@.len(),
            f == key(*facet),
            all == (f is None),
            crate::label::opt_view(current) == last_plugin(actions@, f, i as int),
            menu.wf(),
            menu.numbered,
            menu.filter matches Some(q) && q@.len() == 0,
            menu.screen.title@ == "Command Palette"@,
            menu.screen.subtitle matches Some(t) && t@ == subtitle@,
            facets@.len() > 1 ==> menu.screen.tabs@.len() == facets@.len() + 1,
            facets@.len() <= 1 ==> menu.screen.tabs@.len() == 0,
            lists(menu, body_of(actions@, names@, f, i as int)),
        decreases actions@.len() - i,
    {
        let action = &actions[i];
        let ghost before = body_of(actions@, names@, f, i as int);
        if facet.holds(action) {
            let name = name_of(names, action.plugin_id.as_str());
            let opens = match &current {
                Some(c) => !crate::text::same_text(c.as_str(), action.plugin_id.as_str()),
                None => true,
            };
            let ghost mut lines = before;
            if all && opens {
                if current.is_some() {
                    push_line(&mut menu, Row::separator(), None, "", Ghost(lines), Ghost(Line::Separator));
                    proof {
                        lines = lines.push(Line::Separator);
                    }
                }
                push_line(&mut menu, Row::header(name.as_str()), None, "", Ghost(lines), Ghost(Line::Header(name@)));
                proof {
                    lines = lines.push(Line::Header(name@));
                }
            }
            let row = Row::item(action.title.as_str()).detail(
                match &action.description {
                    Some(d) => Some(d.clone()),
                    None => None,
                },
            );
            let mut extra = name.clone();
            push_str(&mut extra, " ");
            push_str(&mut extra, action.action_id.as_str());
            push_line(
                &mut menu,
                row,
                Some((action.plugin_id.clone(), action.action_id.clone())),
                extra.as_str(),
                Ghost(lines),
                Ghost(Line::Action(*action)),
            );
            proof {
                assert(lines.push(Line::Action(*action)) =~= body_of(actions@, names@, f, i + 1));
            }
            current = Some(action.plugin_id.clone());
        } else {
            proof {
                assert(before =~= body_of(actions@, names@, f, i + 1));
            }
        }
        i = i + 1;
    }
    let ghost body = body_of(actions@, names@, f, actions@.len() as int);
    if menu.is_empty() {
        proof {
            assert forall|i: int| 0 <= i < body.len() implies !((#[trigger] body[i]) is Action) by {
                assert(shows(menu.screen.rows@[i], menu.values@[i], body[i]));
            }
        }
        push_line(
            &mut menu,
            Row::note("No other plugin exposes an action. Install one with `herdr plugin link`."),
            None,
            "",
            Ghost(body),
            Ghost(Line::Note("No other plugin exposes an action. Install one with `herdr plugin link`."@)),
        );
    } else {
        proof {
            let i = choose|i: int| 0 <= i < menu.values@.len() && !(menu.values@[i] is None);
            assert(shows(menu.screen.rows@[i], menu.values@[i], body[i]));
        }
    }
    menu
}

} // verus!
