//! The Pane Manager's landing screen: one row per operation, each saying
//! what its key will do before it is pressed, with a picture of the result.
use vstd::prelude::*;

use crate::gather::{Scope, Session};
use crate::label::{opt_view, pane_compact, compact_of, tab_name, tab_name_of};
use crate::layout::string_views;
use crate::manager::{footer_of, manager_footer, source_line, source_line_of, Choice};
use crate::menu::Menu;
use crate::model::Pane;
use crate::pictures::{illustrated, legend_of, operation_preview, operation_preview_is, swap_is, swap_panels};
use crate::pm_config::{Config, DefaultAction};
use crate::preview::{
    gather_panels, gather_panels_are, per_tab_of, restore_panels, restore_panels_are, undo_panels, undo_panels_are,
};
use crate::state::{next_tab_of, Snapshot};
use crate::term::{Panel, Row, RowKind};
use crate::text::{decimal, owned, push_decimal, push_str};
use crate::undo::{describe_spec, Record};

verus! {

/// A row name that promises a next screen carries an ellipsis, but only
/// when the plain key really opens one.
pub open spec fn more_of(name: Seq<char>, config: Config) -> Seq<char> {
    if config.default_action == DefaultAction::Detailed {
        name + "…"@
    } else {
        name
    }
}

fn more(name: &str, config: &Config) -> (r: String)
    ensures
        r@ == more_of(name@, *config),
{
    let mut out = owned(name);
    if config.default_action == DefaultAction::Detailed {
        push_str(&mut out, "…");
    }
    out
}

/// The name a row uses for the tab a Move or Fold goes to by default:
/// its own name, or plain `Tab`; none when there is no other tab.
pub open spec fn next_name_of(s: Snapshot) -> Option<Seq<char>> {
    match next_tab_of(s) {
        Some(t) => Some(
            match tab_name_of(t.tab) {
                Some(n) => n,
                None => "Tab"@,
            },
        ),
        None => None,
    }
}

/// `name verb` when the row has a default target, else the sentence that
/// says a picker comes next.
pub open spec fn target_of(name: Option<Seq<char>>, verb: Seq<char>, pick: Seq<char>) -> Seq<char> {
    match name {
        Some(n) => n + " "@ + verb,
        None => pick,
    }
}

fn target(name: &Option<String>, verb: &str, pick: &str) -> (r: String)
    ensures
        r@ == target_of(opt_view(*name), verb@, pick@),
{
    match name {
        Some(n) => {
            let mut out = n.clone();
            push_str(&mut out, " ");
            push_str(&mut out, verb);
            out
        },
        None => owned(pick),
    }
}

/// What the Gather row says it will do.
pub open spec fn gather_note_of(config: Config) -> Seq<char> {
    let scope = match crate::gather::scope_named(config.gather.scope@) {
        Some(Scope::AllWorkspaces) => "全 Workspace"@,
        _ => "この Workspace"@,
    };
    scope + " の Agent を更新が新しい順に最大 "@ + decimal(per_tab_of(config)) + " Pane、1つの Tab へ集める"@
}

/// Whether the Gather row can draw the agents it would take: the list is
/// the real one, or the scope is the workspace on screen.
pub open spec fn gather_known(config: Config, exact: bool) -> bool {
    exact || match crate::gather::scope_named(config.gather.scope@) {
        Some(Scope::AllWorkspaces) => false,
        _ => true,
    }
}

/// A row carries a picture exactly when its panels are non-empty, and the
/// panels it carries (none, when it carries no picture) meet `ok`.
pub open spec fn pictured_by(r: Row, ok: spec_fn(Seq<Panel>) -> bool) -> bool {
    match r.preview {
        Some(p) => p.panels@.len() > 0 && ok(p.panels@),
        None => ok(seq![]),
    }
}

/// A picture that names the panes drawn in it.
pub open spec fn legended(r: Row, s: Snapshot) -> bool {
    r.preview matches Some(p) ==> string_views(p.legend@) == legend_of(p.panels@, s)
}

/// The Gather row: its note, and the agents it would take drawn when they
/// are known and there are any.
#[verifier::opaque]
pub open spec fn gather_row_is(r: Row, config: Config, ready: Seq<Seq<char>>, exact: bool) -> bool {
    &&& crate::tools_ui::item_row(r, "Gather Active Agents"@, Some("g"@), Some(gather_note_of(config)))
    &&& if gather_known(config, exact) && ready.len() > 0 {
        pictured_by(r, |v: Seq<Panel>| gather_panels_are(v, 0, ready, config))
    } else {
        r.preview is None
    }
}

/// The Gather row of the landing screen.
pub fn gather_offer(config: &Config, ready: &[String], exact: bool) -> (r: Row)
    ensures
        gather_row_is(r, *config, string_views(ready@), exact),
{
    proof {
        reveal(gather_row_is);
    }
    let known = exact || config.gather.scope() == Scope::CurrentWorkspace;
    let limit = config.gather.per_tab().get();
    let mut note = owned(match config.gather.scope() {
        Scope::CurrentWorkspace => "この Workspace",
        Scope::AllWorkspaces => "全 Workspace",
    });
    push_str(&mut note, " の Agent を更新が新しい順に最大 ");
    push_decimal(&mut note, limit);
    push_str(&mut note, " Pane、1つの Tab へ集める");
    let panels = if known && ready.len() > 0 {
        gather_panels(0, ready, config)
    } else {
        Vec::new()
    };
    Row::item("Gather Active Agents").hotkey("g").secondary(note.as_str()).panels(panels)
}

/// The values of the landing screen's rows, top to bottom: the four
/// operations (Fold only with another tab to fold into), Undo when there is
/// something to take back, Gather and, after a Gather, Restore, then Cancel,
/// and last the settings warning when there is one.
pub open spec fn landing_values(has_next: bool, has_undo: bool, gathered: bool, warned: bool) -> Seq<Option<Choice>> {
    seq![Some(Choice::Move), Some(Choice::Swap), Some(Choice::Extract)]
        + (if has_next { seq![Some(Choice::Merge)] } else { seq![] })
        + (if has_undo { seq![None, Some(Choice::Undo)] } else { seq![] })
        + seq![None, Some(Choice::Gather)]
        + (if gathered { seq![Some(Choice::Restore)] } else { seq![] })
        + seq![None, Some(Choice::Cancel)]
        + (if warned { seq![None, None] } else { seq![] })
}

pub open spec fn undo_at(has_next: bool) -> int {
    if has_next { 5 } else { 4 }
}

pub open spec fn gather_at(has_next: bool, has_undo: bool) -> int {
    (if has_next { 4int } else { 3int }) + (if has_undo { 2int } else { 0int }) + 1
}

pub open spec fn cancel_at(has_next: bool, has_undo: bool, gathered: bool) -> int {
    gather_at(has_next, has_undo) + (if gathered { 1int } else { 0int }) + 2
}

/// The record offers an undo.
pub open spec fn undo_offered(undo: Option<Record>) -> bool {
    undo matches Some(r) && (r.origins@.len() > 0 || r.swap is Some)
}

/// The Move row, named for where the pane goes by default.
#[verifier::opaque]
pub open spec fn move_row_is(r: Row, s: Snapshot, c: Config) -> bool {
    &&& crate::tools_ui::item_row(r, more_of("Move to"@, c), Some("m"@), Some(target_of(
        next_name_of(s), "へ現在の Pane を移す"@, "新しい Tab へ現在の Pane を移す"@,
    )))
    &&& pictured_by(r, |v: Seq<Panel>| operation_preview_is(v, Choice::Move, s, c))
    &&& legended(r, s)
}

/// The Swap row, named for the pane it trades with.
#[verifier::opaque]
pub open spec fn swap_row_is(r: Row, s: Snapshot, c: Config, partner: Option<Pane>) -> bool {
    &&& crate::tools_ui::item_row(r, more_of("Swap with"@, c), Some("s"@), Some(target_of(
        match partner { Some(p) => Some(compact_of(p)), None => None }, "と入れ替える"@, "入れ替える相手を選ぶ"@,
    )))
    &&& pictured_by(r, |v: Seq<Panel>| match partner {
        Some(p) => swap_is(v, s, p),
        None => v.len() == 0,
    })
    &&& legended(r, s)
}

/// The Extract row.
#[verifier::opaque]
pub open spec fn extract_row_is(r: Row, s: Snapshot, c: Config) -> bool {
    &&& crate::tools_ui::item_row(r, more_of("Extract"@, c), Some("e"@), Some("現在の Pane を新しい Tab へ切り出す"@))
    &&& pictured_by(r, |v: Seq<Panel>| operation_preview_is(v, Choice::Extract, s, c))
    &&& legended(r, s)
}

/// The Fold row, naming the tab it folds into.
#[verifier::opaque]
pub open spec fn fold_row_is(r: Row, s: Snapshot, c: Config, name: Seq<char>) -> bool {
    &&& crate::tools_ui::item_row(r, more_of("Fold into"@, c), Some("f"@), Some(name + " へこの Tab 全体を畳む"@))
    &&& pictured_by(r, |v: Seq<Panel>| operation_preview_is(v, Choice::Merge, s, c))
    &&& legended(r, s)
}

/// The Undo row: what it takes back, and where the panes return.
#[verifier::opaque]
pub open spec fn undo_row_is(r: Row, record: Record, s: Snapshot) -> bool {
    &&& crate::tools_ui::item_row(r, "Undo"@, Some("u"@), Some(describe_spec(record.verb@, record.subject@) + " を取り消す"@))
    &&& pictured_by(r, |v: Seq<Panel>| undo_panels_are(v, record, s.source.pane_id@))
}

/// The Restore row, named for what it reverses.
#[verifier::opaque]
pub open spec fn restore_row_is(r: Row, session: Session, c: Config) -> bool {
    &&& crate::tools_ui::item_row(r, "Restore Gathered Agents"@, Some("r"@), Some(
        "Gather した "@ + decimal(session.origins@.len()) + " 個を元の Tab へ"@,
    ))
    &&& pictured_by(r, |v: Seq<Panel>| restore_panels_are(v, session.origins@.len(), c, Some(session)))
}

/// The Move row: named for where the pane goes by default, with the
/// before-and-after pair.
fn move_row(snapshot: &Snapshot, config: &Config, next_name: &Option<String>) -> (r: Row)
    requires
        opt_view(*next_name) == next_name_of(*snapshot),
    ensures
        move_row_is(r, *snapshot, *config),
{
    proof {
        reveal(move_row_is);
    }
    let name = more("Move to", config);
    let line = target(next_name, "へ現在の Pane を移す", "新しい Tab へ現在の Pane を移す");
    let pictures = operation_preview(&Choice::Move, snapshot, config);
    illustrated(Row::item(name.as_str()).hotkey("m").secondary(line.as_str()), pictures, snapshot)
}

/// The Swap row: named for the pane it trades with, drawn when there is one.
fn swap_row(snapshot: &Snapshot, config: &Config, partner: Option<&Pane>) -> (r: Row)
    ensures
        swap_row_is(r, *snapshot, *config, match partner { Some(p) => Some(*p), None => None }),
{
    proof {
        reveal(swap_row_is);
    }
    let next_pane: Option<String> = match partner {
        Some(p) => Some(pane_compact(p)),
        None => None,
    };
    let name = more("Swap with", config);
    let line = target(&next_pane, "と入れ替える", "入れ替える相手を選ぶ");
    let pictures = match partner {
        Some(p) => swap_panels(snapshot, p),
        None => Vec::new(),
    };
    illustrated(Row::item(name.as_str()).hotkey("s").secondary(line.as_str()), pictures, snapshot)
}

/// The Extract row.
fn extract_row(snapshot: &Snapshot, config: &Config) -> (r: Row)
    ensures
        extract_row_is(r, *snapshot, *config),
{
    proof {
        reveal(extract_row_is);
    }
    let name = more("Extract", config);
    let pictures = operation_preview(&Choice::Extract, snapshot, config);
    illustrated(
        Row::item(name.as_str()).hotkey("e").secondary("現在の Pane を新しい Tab へ切り出す"),
        pictures,
        snapshot,
    )
}

/// The Fold row, for when there is a tab to fold into.
fn fold_row(snapshot: &Snapshot, config: &Config, next_name: &String) -> (r: Row)
    ensures
        fold_row_is(r, *snapshot, *config, next_name@),
{
    proof {
        reveal(fold_row_is);
    }
    let name = more("Fold into", config);
    let mut line = next_name.clone();
    push_str(&mut line, " へこの Tab 全体を畳む");
    let pictures = operation_preview(&Choice::Merge, snapshot, config);
    illustrated(Row::item(name.as_str()).hotkey("f").secondary(line.as_str()), pictures, snapshot)
}

/// The Undo row: what it takes back, and where the panes return.
fn undo_row(record: &Record, snapshot: &Snapshot) -> (r: Row)
    ensures
        undo_row_is(r, *record, *snapshot),
{
    proof {
        reveal(undo_row_is);
    }
    let mut line = record.describe();
    push_str(&mut line, " を取り消す");
    let pictures = undo_panels(record, snapshot.source.pane_id.as_str());
    Row::item("Undo").hotkey("u").secondary(line.as_str()).panels(pictures)
}

/// The Restore row, named for what it reverses: a Gather and only that.
fn restore_row(session: &Session, config: &Config) -> (r: Row)
    ensures
        restore_row_is(r, *session, *config),
{
    proof {
        reveal(restore_row_is);
    }
    let collecting = session.origins.len();
    let mut line = owned("Gather した ");
    push_decimal(&mut line, collecting);
    push_str(&mut line, " 個を元の Tab へ");
    let pictures = restore_panels(collecting, config, Some(session));
    Row::item("Restore Gathered Agents").hotkey("r").secondary(line.as_str()).panels(pictures)
}

/// The landing screen, built but not run. `partner` is the pane Swap
/// trades with by default, `ready` the agents a Gather would take (`exact`
/// when that list is the real one), `undo` the record of the last
/// operation and `gathered` the recorded Gather, when there are.
pub fn manager_menu(
    snapshot: &Snapshot,
    config: &Config,
    config_warning: Option<&str>,
    modified_enter: bool,
    partner: Option<&Pane>,
    ready: &[String],
    exact: bool,
    undo: Option<&Record>,
    gathered: Option<&Session>,
) -> (r: Menu<Choice>)
    ensures
        r.wf(),
        r.screen.title@ == "Pane Manager"@,
        r.screen.subtitle matches Some(t) && t@ == source_line_of(*snapshot, *config),
        r.screen.footer matches Some(f) && f@ == footer_of(modified_enter, *config),
        r.screen.no_preview@ == "この操作は Pane の配置を変えません"@,
        r.values@ == landing_values(
            next_tab_of(*snapshot) is Some,
            undo_offered(match undo { Some(u) => Some(*u), None => None }),
            gathered is Some,
            config_warning is Some,
        ),
        move_row_is(r.screen.rows@[0], *snapshot, *config),
        swap_row_is(r.screen.rows@[1], *snapshot, *config, match partner { Some(p) => Some(*p), None => None }),
        extract_row_is(r.screen.rows@[2], *snapshot, *config),
        next_name_of(*snapshot) matches Some(n) ==> fold_row_is(r.screen.rows@[3], *snapshot, *config, n),
        undo matches Some(u) ==> undo_offered(Some(*u)) ==> {
            let k = undo_at(next_tab_of(*snapshot) is Some);
            &&& r.screen.rows@[k - 1].kind == RowKind::Separator
            &&& undo_row_is(r.screen.rows@[k], *u, *snapshot)
        },
        ({
            let g = gather_at(next_tab_of(*snapshot) is Some, undo_offered(match undo { Some(u) => Some(*u), None => None }));
            &&& r.screen.rows@[g - 1].kind == RowKind::Separator
            &&& gather_row_is(r.screen.rows@[g], *config, string_views(ready@), exact)
            &&& gathered matches Some(s) ==> restore_row_is(r.screen.rows@[g + 1], *s, *config)
        }),
        ({
            let c = cancel_at(
                next_tab_of(*snapshot) is Some,
                undo_offered(match undo { Some(u) => Some(*u), None => None }),
                gathered is Some,
            );
            &&& r.screen.rows@[c - 1].kind == RowKind::Separator
            &&& crate::tools_ui::item_row(r.screen.rows@[c], "Cancel"@, Some("q"@), None)
            &&& config_warning matches Some(w) ==> {
                &&& r.screen.rows@[c + 1].kind == RowKind::Separator
                &&& r.screen.rows@[c + 2].kind == RowKind::Note
                &&& r.screen.rows@[c + 2].primary@ == "config: "@ + w@
            }
        }),
{
    let subtitle = source_line(snapshot, config);
    let footer = manager_footer(modified_enter, config);
    let mut menu: Menu<Choice> = Menu::new("Pane Manager").subtitle(subtitle.as_str()).footer(footer.as_str());

    let next_name: Option<String> = match snapshot.next_tab() {
        Some(t) => Some(
            match tab_name(&t.tab) {
                Some(n) => n,
                None => owned("Tab"),
            },
        ),
        None => None,
    };
    let ghost has_next = next_tab_of(*snapshot) is Some;
    let ghost has_undo = undo_offered(match undo { Some(u) => Some(*u), None => None });
    let ghost want = landing_values(has_next, has_undo, gathered is Some, config_warning is Some);
    proof {
        assert(opt_view(next_name) == next_name_of(*snapshot));
        assert(has_next == (next_name is Some));
    }

    menu.item(move_row(snapshot, config, &next_name), Choice::Move);
    menu.item(swap_row(snapshot, config, partner), Choice::Swap);
    menu.item(extract_row(snapshot, config), Choice::Extract);
    match &next_name {
        Some(n) => menu.item(fold_row(snapshot, config, n), Choice::Merge),
        None => {},
    }
    let ghost head = seq![Some(Choice::Move), Some(Choice::Swap), Some(Choice::Extract)]
        + (if has_next { seq![Some(Choice::Merge)] } else { seq![] });
    proof {
        assert(menu.values@ =~= head);
    }

    match undo {
        Some(record) => {
            if record.offered() {
                menu.row(Row::separator());
                menu.item(undo_row(record, snapshot), Choice::Undo);
            }
        },
        None => {},
    }
    let ghost head2 = head + (if has_undo { seq![None, Some(Choice::Undo)] } else { seq![] });
    proof {
        assert(menu.values@ =~= head2);
    }

    menu.row(Row::separator());
    menu.item(gather_offer(config, ready, exact), Choice::Gather);
    match gathered {
        Some(session) => menu.item(restore_row(session, config), Choice::Restore),
        None => {},
    }
    let ghost head3 = head2 + seq![None, Some(Choice::Gather)]
        + (if gathered is Some { seq![Some(Choice::Restore)] } else { seq![] });
    proof {
        assert(menu.values@ =~= head3);
    }

    menu.row(Row::separator());
    menu.item(Row::item("Cancel").hotkey("q"), Choice::Cancel);
    match config_warning {
        Some(warning) => {
            menu.row(Row::separator());
            let mut text = owned("config: ");
            push_str(&mut text, warning);
            menu.row(Row::note(text.as_str()));
        },
        None => {},
    }
    proof {
        assert(menu.values@ =~= want);
    }
    menu.screen.no_preview = owned("この操作は Pane の配置を変えません");
    menu
}

} // verus!
