//! The Pane Manager overlay's decisions: what a picked row does, and the
//! lines that describe the screen.
//!
//! Screens are drawn and keys read by the caller; from the row picked and
//! the session as it stands, this module says which operation runs.
use vstd::prelude::*;

use crate::label::{compact_of, pane_compact, tab_display, tab_display_of};
use crate::model::{Pane, Workspace};
use crate::ops::{Destination, Placement, Request, Verb};
use crate::pm_config::{resolved_side, setting_bits, Config, DefaultAction};
use crate::state::{entry_from, next_tab_of, tab_at_of, Snapshot, TabEntry};
use crate::text::{owned, push_str};

verus! {

/// What the overlay dispatched to.
#[derive(Debug, Clone, Copy, PartialEq, Eq, Structural)]
pub enum Choice {
    Move,
    Swap,
    Extract,
    Merge,
    QuickMove(usize),
    /// The same tab, but stopping to ask side, size and which pane to split.
    DetailedMove(usize),
    Gather,
    Restore,
    Undo,
    Cancel,
}

/// What picking a row leads to.
#[derive(Debug)]
pub enum Action {
    /// Close the overlay.
    Close,
    /// Reverse the last operation.
    Undo,
    /// Gather with the configured size and scope, straight away.
    GatherNow,
    /// Open the Gather picker to choose a size or scope.
    GatherFlow,
    /// Put gathered agents back.
    Restore,
    /// Run this request now.
    Run(Request),
    /// Open the Move destination picker, asking placement when `detailed`.
    MoveFlow(bool),
    /// Open the Swap picker.
    SwapFlow,
    /// Open the Fold picker.
    MergeFlow,
    /// Ask where in the tab at this Quick Move slot, then move there.
    DetailedMove(usize),
    /// Refuse, with this sentence.
    Refuse(String),
}

/// Whether the placement step runs for a pick: the setting, flipped by
/// Shift.
pub open spec fn detailed_pick(config: Config, shift_held: bool) -> bool {
    (config.default_action == DefaultAction::Detailed) != shift_held
}

pub open spec fn quick_of(config: Config) -> Placement {
    Placement {
        side: match resolved_side(config.default_move_direction) {
            Some(s) => s,
            None => crate::layout::Side::Right,
        },
        ratio: setting_bits(config.default_split_ratio),
    }
}

/// A request for a tab Move: to `tab`, splitting whatever Herdr chooses.
pub open spec fn is_move_to(r: Request, s: Snapshot, tab_id: Seq<char>, config: Config) -> bool {
    &&& r.verb == Verb::Move
    &&& r.source_pane == s.source.pane_id
    &&& r.source_tab is None
    &&& r.destination matches Destination::Tab { tab_id: t, target_pane } && t@ == tab_id && target_pane is None
    &&& r.placement == quick_of(config)
    &&& !r.preserve_layout
}

/// A request cutting the source pane out into a new tab named as the
/// settings say.
pub open spec fn is_extract(r: Request, s: Snapshot, config: Config) -> bool {
    &&& r.verb == Verb::Extract
    &&& r.source_pane == s.source.pane_id
    &&& r.source_tab is None
    &&& r.destination matches Destination::NewTab { label } && crate::label::opt_view(label) == (
        if !config.auto_name_new_tab { None } else { crate::label::new_tab_label_of(s.source) })
    &&& r.placement == Placement { side: crate::layout::Side::Right, ratio: crate::layout::EVEN }
    &&& !r.preserve_layout
}

fn move_to(snapshot: &Snapshot, tab_id: &String, config: &Config) -> (r: Request)
    ensures
        is_move_to(r, *snapshot, tab_id@, *config),
{
    Request {
        verb: Verb::Move,
        source_pane: snapshot.source.pane_id.clone(),
        source_tab: None,
        destination: Destination::Tab { tab_id: tab_id.clone(), target_pane: None },
        placement: config.quick_placement(),
        preserve_layout: false,
    }
}

fn extract(snapshot: &Snapshot, config: &Config) -> (r: Request)
    ensures
        is_extract(r, *snapshot, *config),
{
    Request {
        verb: Verb::Extract,
        source_pane: snapshot.source.pane_id.clone(),
        source_tab: None,
        destination: Destination::NewTab { label: config.new_tab_label(&snapshot.source, None) },
        placement: Placement::default(),
        preserve_layout: false,
    }
}

/// The sentence for a Quick Move slot that holds no tab.
pub open spec fn no_tab_message(position: nat) -> Seq<char> {
    "This workspace has no tab "@ + crate::text::decimal(position) + "."@
}

pub fn no_tab(position: usize) -> (r: String)
    ensures
        r@ == no_tab_message(position as nat),
{
    let mut out = owned("This workspace has no tab ");
    crate::text::push_decimal(&mut out, position);
    push_str(&mut out, ".");
    out
}

/// Act on the row the reader picked.
///
/// Shift means "that, but let me say where": a Quick Move row becomes a
/// detailed one, and the operation rows open their pickers rather than
/// acting on the default target the row names. `partner` is the pane the
/// Swap row named.
pub fn decide(choice: Choice, shift_held: bool, snapshot: &Snapshot, config: &Config, partner: Option<&str>) -> (r: Action)
    ensures
        ({
            let detailed = detailed_pick(*config, shift_held);
            match choice {
                Choice::Cancel => r is Close,
                Choice::Undo => r is Undo,
                Choice::Gather => if shift_held { r is GatherFlow } else { r is GatherNow },
                Choice::Restore => r is Restore,
                Choice::Move => if detailed {
                    r == Action::MoveFlow(true)
                } else {
                    match next_tab_of(*snapshot) {
                        Some(t) => r matches Action::Run(req) && is_move_to(req, *snapshot, t.tab.tab_id@, *config),
                        None => r matches Action::Run(req) && is_extract(req, *snapshot, *config),
                    }
                },
                Choice::Swap => match (detailed, partner) {
                    (false, Some(p)) => r matches Action::Run(req) && {
                        &&& req.verb == Verb::Swap
                        &&& req.source_pane == snapshot.source.pane_id
                        &&& req.source_tab is None
                        &&& req.destination matches Destination::Pane { pane_id } && pane_id@ == p@
                        &&& req.placement == quick_of(*config)
                        &&& !req.preserve_layout
                    },
                    _ => r is SwapFlow,
                },
                Choice::Merge => if detailed {
                    r is MergeFlow
                } else {
                    match next_tab_of(*snapshot) {
                        Some(t) => r matches Action::Run(req) && {
                            &&& req.verb == Verb::Merge
                            &&& req.source_pane == snapshot.source.pane_id
                            &&& req.source_tab == Some(snapshot.source.tab_id)
                            &&& req.destination matches Destination::Tab { tab_id, target_pane }
                                && tab_id@ == t.tab.tab_id@ && target_pane is None
                            &&& req.placement == quick_of(*config)
                            &&& req.preserve_layout == config.preserve_merge_layout
                        },
                        None => r is MergeFlow,
                    }
                },
                Choice::Extract => r matches Action::Run(req) && is_extract(req, *snapshot, *config),
                Choice::DetailedMove(p) => r == Action::DetailedMove(p),
                Choice::QuickMove(p) => if detailed {
                    r == Action::DetailedMove(p)
                } else {
                    match tab_at_of(*snapshot, p as nat) {
                        Some(t) => r matches Action::Run(req) && is_move_to(req, *snapshot, t.tab.tab_id@, *config),
                        None => r matches Action::Refuse(m) && m@ == no_tab_message(p as nat),
                    }
                },
            }
        }),
{
    let detailed = config.default_action.detailed(shift_held);
    match choice {
        Choice::Cancel => Action::Close,
        Choice::Undo => Action::Undo,
        Choice::Gather => if shift_held { Action::GatherFlow } else { Action::GatherNow },
        Choice::Restore => Action::Restore,
        Choice::Move => {
            if detailed {
                return Action::MoveFlow(true);
            }
            match snapshot.next_tab() {
                Some(tab) => Action::Run(move_to(snapshot, &tab.tab.tab_id, config)),
                None => Action::Run(extract(snapshot, config)),
            }
        },
        Choice::Swap => {
            match (detailed, partner) {
                (false, Some(p)) => Action::Run(Request {
                    verb: Verb::Swap,
                    source_pane: snapshot.source.pane_id.clone(),
                    source_tab: None,
                    destination: Destination::Pane { pane_id: owned(p) },
                    placement: config.quick_placement(),
                    preserve_layout: false,
                }),
                _ => Action::SwapFlow,
            }
        },
        Choice::Merge => {
            if detailed {
                return Action::MergeFlow;
            }
            match snapshot.next_tab() {
                Some(tab) => Action::Run(Request {
                    verb: Verb::Merge,
                    source_pane: snapshot.source.pane_id.clone(),
                    source_tab: Some(snapshot.source.tab_id.clone()),
                    destination: Destination::Tab { tab_id: tab.tab.tab_id.clone(), target_pane: None },
                    placement: config.quick_placement(),
                    preserve_layout: config.preserve_merge_layout,
                }),
                None => Action::MergeFlow,
            }
        },
        Choice::Extract => Action::Run(extract(snapshot, config)),
        Choice::DetailedMove(p) => Action::DetailedMove(p),
        Choice::QuickMove(p) => {
            if detailed {
                return Action::DetailedMove(p);
            }
            match snapshot.tab_at(p) {
                Some(tab) => Action::Run(move_to(snapshot, &tab.tab.tab_id, config)),
                None => Action::Refuse(no_tab(p)),
            }
        },
    }
}

/// The key line, worded for whichever way round the settings have it, and
/// promising Shift+Enter only when the terminal reports it.
pub open spec fn footer_of(modified_enter: bool, config: Config) -> Seq<char> {
    let plain = if config.default_action == DefaultAction::Quick { "すぐ移動"@ } else { "位置を指定"@ };
    let shifted = if config.default_action == DefaultAction::Quick { "位置を指定"@ } else { "すぐ移動"@ };
    let shift_key = if modified_enter { "Shift+Enter / Shift+英字"@ } else { "Shift+英字"@ };
    "英字・Enter "@ + plain + "  ·  "@ + shift_key + " "@ + shifted + "  ·  Esc 閉じる（先の画面では戻る）"@
}

pub fn manager_footer(modified_enter: bool, config: &Config) -> (r: String)
    ensures
        r@ == footer_of(modified_enter, *config),
{
    let quick = config.default_action == DefaultAction::Quick;
    let mut out = owned("英字・Enter ");
    push_str(&mut out, if quick { "すぐ移動" } else { "位置を指定" });
    push_str(&mut out, "  ·  ");
    push_str(&mut out, if modified_enter { "Shift+Enter / Shift+英字" } else { "Shift+英字" });
    push_str(&mut out, " ");
    push_str(&mut out, if quick { "位置を指定" } else { "すぐ移動" });
    push_str(&mut out, "  ·  Esc 閉じる（先の画面では戻る）");
    out
}

/// One line naming the pane an operation acts on, with its tab, and its id
/// when ids are shown.
pub open spec fn source_line_of(s: Snapshot, config: Config) -> Seq<char> {
    compact_of(s.source)
        + (match entry_from(s.entries(), s.source.tab_id@, 0) {
            Some(k) => "  ("@ + tab_display_of(s.entries()[k].1.tab, s.entries()[k].1.position as nat) + ")"@,
            None => seq![],
        })
        + (if config.show_ids { "  ["@ + s.source.pane_id@ + "]"@ } else { seq![] })
}

pub fn source_line(snapshot: &Snapshot, config: &Config) -> (r: String)
    ensures
        r@ == source_line_of(*snapshot, *config),
{
    let mut line = pane_compact(&snapshot.source);
    match snapshot.source_tab() {
        Some(tab) => {
            push_str(&mut line, "  (");
            let name = tab_display(&tab.tab, tab.position);
            push_str(&mut line, name.as_str());
            push_str(&mut line, ")");
        },
        None => {},
    }
    if config.show_ids {
        push_str(&mut line, "  [");
        push_str(&mut line, snapshot.source.pane_id.as_str());
        push_str(&mut line, "]");
    }
    line
}

/// A workspace's name, or `Workspace` when it has none.
pub fn workspace_name(workspace: &Workspace) -> (r: String)
    ensures
        r@ == match workspace.label {
            Some(l) => l@,
            None => "Workspace"@,
        },
{
    match &workspace.label {
        Some(l) => l.clone(),
        None => owned("Workspace"),
    }
}

/// Group header for a tab, qualified by workspace only when it is not the
/// reader's own.
pub fn group_name(workspace: &Workspace, tab: &TabEntry, snapshot: &Snapshot) -> (r: String)
    ensures
        r@ == if workspace.workspace_id@ == snapshot.workspace.workspace_id@ {
            tab_display_of(tab.tab, tab.position as nat)
        } else {
            (match workspace.label {
                Some(l) => l@,
                None => "Workspace"@,
            }) + " · "@ + tab_display_of(tab.tab, tab.position as nat)
        },
{
    let tab_name = tab_display(&tab.tab, tab.position);
    if crate::text::same_text(workspace.workspace_id.as_str(), snapshot.workspace.workspace_id.as_str()) {
        tab_name
    } else {
        let mut out = workspace_name(workspace);
        push_str(&mut out, " · ");
        push_str(&mut out, tab_name.as_str());
        out
    }
}

/// `text` when it holds anything.
pub fn non_empty(text: &str) -> (r: Option<&str>)
    ensures
        r == if text@.len() > 0 { Some(text) } else { None::<&str> },
{
    if text.unicode_len() > 0 {
        Some(text)
    } else {
        None
    }
}

/// The first character upper-cased, the rest as it is.
pub fn capitalize(text: &str) -> (r: String)
    ensures
        r@ == if text@.len() == 0 { seq![] } else { crate::text::uppercase_of(text@[0]) + text@.drop_first() },
{
    let cs = crate::text::chars_of(text);
    if cs.len() == 0 {
        return String::new();
    }
    let mut out = crate::text::char_to_uppercase(cs[0]);
    let rest = crate::text::string_of_range(&cs, 1, cs.len());
    push_str(&mut out, rest.as_str());
    proof {
        assert(cs@.subrange(1, cs@.len() as int) =~= text@.drop_first());
    }
    out
}

} // verus!
