//! Turning a request into a validated plan, the order of the moves that carry
//! it out, and the checks that say whether it really happened.
//!
//! Every pane operation goes through here: refresh the snapshot, build the
//! plan (the stage that says no), apply it, then verify against state read
//! afterwards. Reading and moving are the caller's; what to move where, and
//! what to say about it, is decided in this module.
use vstd::prelude::*;

use crate::label::{compact_of, opt_view, pane_compact, tab_display, tab_display_of};
use crate::layout::{string_views, steps_of, Plan as LayoutPlan, Side, Step, EVEN};
use crate::layout::Placement as Arrangement;
use crate::model::{Outcome, Pane};
use crate::state::{entry_from, pane_from, Snapshot, TabEntry};
use crate::text::{concat, owned, push_str};

verus! {

/// Which of the four core operations was asked for.
#[derive(Debug, Clone, Copy, PartialEq, Eq, Structural)]
pub enum Verb {
    Move,
    Swap,
    Extract,
    Merge,
}

pub open spec fn verb_label(v: Verb) -> Seq<char> {
    match v {
        Verb::Move => "Move"@,
        Verb::Swap => "Swap"@,
        Verb::Extract => "Extract"@,
        Verb::Merge => "Fold"@,
    }
}

impl Verb {
    /// How the operation is named to the user. Merge is named for the menu
    /// entry it comes from.
    pub fn label(self) -> (r: &'static str)
        ensures
            r@ == verb_label(self),
    {
        match self {
            Verb::Move => "Move",
            Verb::Swap => "Swap",
            Verb::Extract => "Extract",
            Verb::Merge => "Fold",
        }
    }
}

/// Where a pane or a tab's contents should end up.
#[derive(Debug, PartialEq, Eq)]
pub enum Destination {
    /// An existing tab, optionally splitting a named pane inside it.
    Tab { tab_id: String, target_pane: Option<String> },
    /// A tab that does not exist yet.
    NewTab { label: Option<String> },
    /// A workspace that does not exist yet.
    NewWorkspace { label: Option<String> },
    /// Another pane, for Swap.
    Pane { pane_id: String },
}

fn copy_opt(o: &Option<String>) -> (r: Option<String>)
    ensures
        r == *o,
{
    match o {
        Some(s) => Some(s.clone()),
        None => None,
    }
}

impl Destination {
    pub fn duplicate(&self) -> (r: Destination)
        ensures
            r == *self,
    {
        match self {
            Destination::Tab { tab_id, target_pane } => Destination::Tab {
                tab_id: tab_id.clone(),
                target_pane: copy_opt(target_pane),
            },
            Destination::NewTab { label } => Destination::NewTab { label: copy_opt(label) },
            Destination::NewWorkspace { label } => Destination::NewWorkspace { label: copy_opt(label) },
            Destination::Pane { pane_id } => Destination::Pane { pane_id: pane_id.clone() },
        }
    }
}

/// Placement options shared by every operation that puts a pane somewhere:
/// the side, and the split ratio as the bits of the `f32` Herdr takes.
#[derive(Debug, Clone, Copy, PartialEq, Eq, Structural)]
pub struct Placement {
    pub side: Side,
    pub ratio: u32,
}

impl Default for Placement {
    fn default() -> (r: Self)
        ensures
            r.side == Side::Right,
            r.ratio == EVEN,
    {
        Placement { side: Side::Right, ratio: EVEN }
    }
}

/// What the user asked for, before validation.
#[derive(Debug)]
pub struct Request {
    pub verb: Verb,
    /// Pane to act on. For Merge this only identifies the workspace.
    pub source_pane: String,
    /// Tab to act on, for Merge.
    pub source_tab: Option<String>,
    pub destination: Destination,
    pub placement: Placement,
    /// Keep the source tab's own split structure when merging.
    pub preserve_layout: bool,
}

/// A validated plan: every id in here existed a moment ago.
#[derive(Debug)]
pub struct Plan {
    pub verb: Verb,
    pub destination: Destination,
    pub placement: Placement,
    /// Panes being moved, in the order they must be placed.
    pub panes: Vec<String>,
    /// How the moved panes relate once the first has landed. Empty for a
    /// single pane, or when the source layout is not being kept.
    pub internal: Vec<Arrangement>,
    /// Tab the panes came from.
    pub source_tab: String,
    /// Pane the operation is swapping with, for Swap.
    pub swap_with: Option<Pane>,
    /// Human-readable name of the destination, for messages.
    pub destination_name: String,
    /// Human-readable name of what is being moved, for messages.
    pub subject_name: String,
}

// ---------------------------------------------------------------------------
// What a plan is, as mathematics
// ---------------------------------------------------------------------------

pub open spec fn found_pane(s: Snapshot, id: Seq<char>) -> Option<Pane> {
    match pane_from(s.entries(), id, 0) {
        Some(k) => Some(s.entries()[k.0].1.panes@[k.1]),
        None => None,
    }
}

pub open spec fn found_tab(s: Snapshot, id: Seq<char>) -> Option<TabEntry> {
    match entry_from(s.entries(), id, 0) {
        Some(k) => Some(s.entries()[k].1),
        None => None,
    }
}

/// The pane a request acts on: the named pane as it is now, or the
/// snapshot's own source when the name is not found.
pub open spec fn acting(s: Snapshot, req: Request) -> Pane {
    match found_pane(s, req.source_pane@) {
        Some(p) => p,
        None => s.source,
    }
}

pub open spec fn quoted(text: Seq<char>) -> Seq<char> {
    "\""@ + text + "\""@
}

pub open spec fn tab_name(e: TabEntry) -> Seq<char> {
    tab_display_of(e.tab, e.position as nat)
}

pub open spec fn move_refusal(s: Snapshot, req: Request, src: Pane) -> Option<Seq<char>> {
    match req.destination {
        Destination::Tab { tab_id, target_pane } => match found_tab(s, tab_id@) {
            None => Some("Destination tab no longer exists."@),
            Some(e) => if e.tab.tab_id@ == src.tab_id@ {
                Some(quoted(compact_of(src)) + " is already in "@ + tab_name(e) + "."@)
            } else {
                match target_pane {
                    Some(t) => match found_pane(s, t@) {
                        None => Some("Destination pane no longer exists."@),
                        Some(p) => if p.tab_id@ != tab_id@ {
                            Some("The pane you chose to split is no longer in that tab."@)
                        } else {
                            None
                        },
                    },
                    None => None,
                }
            },
        },
        Destination::NewTab { .. } => None,
        Destination::NewWorkspace { .. } => None,
        Destination::Pane { .. } => Some("Move needs a tab, not a pane."@),
    }
}

pub open spec fn extract_refusal(req: Request) -> Option<Seq<char>> {
    match req.destination {
        Destination::NewTab { .. } => None,
        Destination::NewWorkspace { .. } => None,
        _ => Some("Extract creates a new tab or workspace."@),
    }
}

pub open spec fn swap_refusal(s: Snapshot, req: Request, src: Pane) -> Option<Seq<char>> {
    match req.destination {
        Destination::Pane { pane_id } => if pane_id@ == src.pane_id@ {
            Some("A pane cannot be swapped with itself."@)
        } else if found_pane(s, pane_id@) is None {
            Some("Destination pane no longer exists."@)
        } else {
            None
        },
        _ => Some("Swap needs another pane."@),
    }
}

/// The tab a Merge empties: the one named, else the source pane's own.
pub open spec fn merge_source(req: Request, src: Pane) -> Seq<char> {
    match req.source_tab {
        Some(t) => t@,
        None => src.tab_id@,
    }
}

pub open spec fn merge_refusal(s: Snapshot, req: Request, src: Pane) -> Option<Seq<char>> {
    match found_tab(s, merge_source(req, src)) {
        None => Some("Source tab no longer exists."@),
        Some(from) => match req.destination {
            Destination::Tab { tab_id, .. } => if tab_id@ == merge_source(req, src) {
                Some("A tab cannot be merged into itself."@)
            } else if found_tab(s, tab_id@) is None {
                Some("Destination tab no longer exists."@)
            } else if from.panes@.len() == 0 {
                Some("That tab has no panes to merge."@)
            } else {
                None
            },
            _ => Some("Merge needs a destination tab."@),
        },
    }
}

/// The message a request is refused with, or `None` when it is valid.
pub open spec fn refusal(s: Snapshot, req: Request) -> Option<Seq<char>> {
    let src = acting(s, req);
    if src.pane_id@ != req.source_pane@ {
        Some("The pane you selected no longer exists."@)
    } else {
        match req.verb {
            Verb::Move => move_refusal(s, req, src),
            Verb::Extract => extract_refusal(req),
            Verb::Swap => swap_refusal(s, req, src),
            Verb::Merge => merge_refusal(s, req, src),
        }
    }
}

pub open spec fn pane_ids_of(panes: Seq<Pane>) -> Seq<Seq<char>> {
    panes.map_values(|p: Pane| p.pane_id@)
}

pub open spec fn named_or(label: Option<String>, fallback: Seq<char>) -> Seq<char> {
    match label {
        Some(l) => l@,
        None => fallback,
    }
}

pub open spec fn new_place_name(label: Option<String>, what: Seq<char>) -> Seq<char> {
    match label {
        Some(l) => what + " "@ + quoted(l@),
        None => what,
    }
}

/// The destination's name in messages.
pub open spec fn destination_name_of(s: Snapshot, req: Request) -> Seq<char> {
    let src = acting(s, req);
    match req.verb {
        Verb::Move => match req.destination {
            Destination::Tab { tab_id, .. } => tab_name(found_tab(s, tab_id@)->0),
            Destination::NewTab { label } => new_place_name(label, "a new tab"@),
            Destination::NewWorkspace { label } => new_place_name(label, "a new workspace"@),
            Destination::Pane { .. } => seq![],
        },
        Verb::Extract => match req.destination {
            Destination::NewTab { label } => named_or(label, "a new tab"@),
            Destination::NewWorkspace { label } => named_or(label, "a new workspace"@),
            _ => seq![],
        },
        Verb::Swap => match req.destination {
            Destination::Pane { pane_id } => compact_of(found_pane(s, pane_id@)->0),
            _ => seq![],
        },
        Verb::Merge => match req.destination {
            Destination::Tab { tab_id, .. } => tab_name(found_tab(s, tab_id@)->0),
            _ => seq![],
        },
    }
}

/// What is being moved, in messages.
pub open spec fn subject_name_of(s: Snapshot, req: Request) -> Seq<char> {
    let src = acting(s, req);
    match req.verb {
        Verb::Merge => tab_name(found_tab(s, merge_source(req, src))->0),
        _ => compact_of(src),
    }
}

/// Whether a Merge replays the source tab's own splits.
pub open spec fn keeps_layout(s: Snapshot, req: Request) -> bool {
    req.preserve_layout && found_tab(s, merge_source(req, acting(s, req)))->0.shape is Some
}

/// The panes a plan moves, in order.
pub open spec fn moved_panes(s: Snapshot, req: Request) -> Seq<Seq<char>> {
    let src = acting(s, req);
    match req.verb {
        Verb::Merge => {
            let from = found_tab(s, merge_source(req, src))->0;
            if keeps_layout(s, req) {
                let t = from.shape->0@;
                seq![crate::layout::first_leaf(t)] + crate::layout::emit(t).map_values(|st: Step| st.pane)
            } else {
                pane_ids_of(from.panes@)
            }
        },
        _ => seq![src.pane_id@],
    }
}

/// How many panes the destination tab of a request holds.
pub open spec fn destination_size(s: Snapshot, req: Request) -> nat {
    match req.destination {
        Destination::Tab { tab_id, .. } => match found_tab(s, tab_id@) {
            Some(e) => e.panes@.len(),
            None => 0,
        },
        _ => 0,
    }
}

/// How the moved panes relate once the first has landed. Two panes folded
/// onto a tab of one stack in a column beside it, whatever their own
/// arrangement; otherwise a kept layout replays the source tab's splits.
pub open spec fn internal_steps(s: Snapshot, req: Request) -> Seq<Step> {
    if req.verb == Verb::Merge {
        match three_pane_column_spec(destination_size(s, req), moved_panes(s, req)) {
            Some(ps) => ps,
            None => if keeps_layout(s, req) {
                crate::layout::emit(found_tab(s, merge_source(req, acting(s, req)))->0.shape->0@)
            } else {
                seq![]
            },
        }
    } else {
        seq![]
    }
}

pub open spec fn planned_source_tab(s: Snapshot, req: Request) -> Seq<char> {
    let src = acting(s, req);
    match req.verb {
        Verb::Merge => merge_source(req, src),
        _ => src.tab_id@,
    }
}

pub open spec fn planned_swap(s: Snapshot, req: Request) -> Option<Pane> {
    match (req.verb, req.destination) {
        (Verb::Swap, Destination::Pane { pane_id }) => found_pane(s, pane_id@),
        _ => None,
    }
}

impl Plan {
    /// Panes, arrangement, source tab, swap partner and the two names.
    pub open spec fn parts(&self) -> (Seq<Seq<char>>, Seq<Step>, Seq<char>, Option<Pane>, Seq<char>, Seq<char>) {
        (
            string_views(self.panes@),
            steps_of(self.internal@),
            self.source_tab@,
            self.swap_with,
            self.destination_name@,
            self.subject_name@,
        )
    }
}

/// Where a plan lands. A Move into a tab without a named pane splits the
/// pane Herdr would pick, the tab's focused pane or else its first, and the
/// plan names it, so the side and any swap apply to that pane.
pub open spec fn planned_destination(s: Snapshot, req: Request) -> Destination {
    match req.verb {
        Verb::Move => match req.destination {
            Destination::Tab { tab_id, target_pane } => if target_pane is None {
                match found_tab(s, tab_id@) {
                    Some(e) => match crate::state::anchor_index(e.panes@) {
                        Some(a) => Destination::Tab { tab_id, target_pane: Some(e.panes@[a].pane_id) },
                        None => req.destination,
                    },
                    None => req.destination,
                }
            } else {
                req.destination
            },
            _ => req.destination,
        },
        _ => req.destination,
    }
}

/// What `build` plans for a valid request.
pub open spec fn planned(s: Snapshot, req: Request) -> (Seq<Seq<char>>, Seq<Step>, Seq<char>, Option<Pane>, Seq<char>, Seq<char>) {
    (
        moved_panes(s, req),
        internal_steps(s, req),
        planned_source_tab(s, req),
        planned_swap(s, req),
        destination_name_of(s, req),
        subject_name_of(s, req),
    )
}

// ---------------------------------------------------------------------------
// Building the plan
// ---------------------------------------------------------------------------

fn copy_pane(p: &Pane) -> (r: Pane)
    ensures
        r == *p,
{
    Pane {
        pane_id: p.pane_id.clone(),
        tab_id: p.tab_id.clone(),
        workspace_id: p.workspace_id.clone(),
        focused: p.focused,
        label: copy_opt(&p.label),
        agent: copy_opt(&p.agent),
        display_agent: copy_opt(&p.display_agent),
        agent_status: p.agent_status,
        cwd: copy_opt(&p.cwd),
        foreground_cwd: copy_opt(&p.foreground_cwd),
        terminal_title: copy_opt(&p.terminal_title),
        terminal_title_stripped: copy_opt(&p.terminal_title_stripped),
    }
}

fn quote(text: &str) -> (r: String)
    ensures
        r@ == quoted(text@),
{
    let mut out = owned("\"");
    push_str(&mut out, text);
    push_str(&mut out, "\"");
    out
}

fn single(req: &Request, src: &Pane, destination_name: String) -> (r: Plan)
    ensures
        r.verb == req.verb,
        r.destination == req.destination,
        r.placement == req.placement,
        string_views(r.panes@) == seq![src.pane_id@],
        r.internal@.len() == 0,
        r.source_tab@ == src.tab_id@,
        r.swap_with is None,
        r.destination_name == destination_name,
        r.subject_name@ == compact_of(*src),
{
    let panes = vec![src.pane_id.clone()];
    proof {
        assert(string_views(panes@) =~= seq![src.pane_id@]);
    }
    Plan {
        verb: req.verb,
        destination: req.destination.duplicate(),
        placement: req.placement,
        panes,
        internal: Vec::new(),
        source_tab: src.tab_id.clone(),
        swap_with: None,
        destination_name,
        subject_name: pane_compact(src),
    }
}

fn new_place(label: &Option<String>, what: &str) -> (r: String)
    ensures
        r@ == new_place_name(*label, what@),
{
    match label {
        Some(l) => {
            let mut out = owned(what);
            push_str(&mut out, " ");
            let q = quote(l.as_str());
            push_str(&mut out, q.as_str());
            out
        },
        None => owned(what),
    }
}

fn build_move(snapshot: &Snapshot, request: &Request, source: &Pane) -> (r: Result<Plan, String>)
    requires
        request.verb == Verb::Move,
        *source == acting(*snapshot, *request),
    ensures
        match move_refusal(*snapshot, *request, *source) {
            Some(m) => r is Err && r->Err_0@ == m,
            None => r is Ok && r->Ok_0.verb == request.verb
                && r->Ok_0.destination == planned_destination(*snapshot, *request)
                && r->Ok_0.placement == request.placement
                && r->Ok_0.parts() == planned(*snapshot, *request),
        },
{
    let mut anchor: Option<String> = None;
    let destination_name = match &request.destination {
        Destination::Tab { tab_id, target_pane } => {
            let entry = match snapshot.require_tab(tab_id.as_str()) {
                Ok(e) => e,
                Err(m) => return Err(m),
            };
            if crate::text::same_text(entry.tab.tab_id.as_str(), source.tab_id.as_str()) {
                let mut msg = quote(pane_compact(source).as_str());
                push_str(&mut msg, " is already in ");
                let name = tab_display(&entry.tab, entry.position);
                push_str(&mut msg, name.as_str());
                push_str(&mut msg, ".");
                return Err(msg);
            }
            match target_pane {
                Some(target) => {
                    let pane = match snapshot.require_pane(target.as_str()) {
                        Ok(p) => p,
                        Err(m) => return Err(m),
                    };
                    if !crate::text::same_text(pane.tab_id.as_str(), tab_id.as_str()) {
                        return Err(owned("The pane you chose to split is no longer in that tab."));
                    }
                },
                None => {
                    match entry.split_anchor() {
                        Some(p) => anchor = Some(p.pane_id.clone()),
                        None => {},
                    }
                },
            }
            tab_display(&entry.tab, entry.position)
        },
        Destination::NewTab { label } => new_place(label, "a new tab"),
        Destination::NewWorkspace { label } => new_place(label, "a new workspace"),
        Destination::Pane { .. } => return Err(owned("Move needs a tab, not a pane.")),
    };
    let mut plan = single(request, source, destination_name);
    match (&request.destination, anchor) {
        (Destination::Tab { tab_id, .. }, Some(a)) => {
            plan.destination = Destination::Tab { tab_id: tab_id.clone(), target_pane: Some(a) };
        },
        _ => {},
    }
    Ok(plan)
}

fn build_extract(request: &Request, source: &Pane) -> (r: Result<Plan, String>)
    requires
        request.verb == Verb::Extract,
    ensures
        match extract_refusal(*request) {
            Some(m) => r is Err && r->Err_0@ == m,
            None => r is Ok && r->Ok_0.verb == request.verb && r->Ok_0.destination == request.destination
                && r->Ok_0.placement == request.placement
                && string_views(r->Ok_0.panes@) == seq![source.pane_id@]
                && r->Ok_0.internal@.len() == 0
                && r->Ok_0.source_tab@ == source.tab_id@
                && r->Ok_0.swap_with is None
                && r->Ok_0.subject_name@ == compact_of(*source)
                && r->Ok_0.destination_name@ == match request.destination {
                    Destination::NewTab { label } => named_or(label, "a new tab"@),
                    Destination::NewWorkspace { label } => named_or(label, "a new workspace"@),
                    _ => seq![],
                },
        },
{
    let destination_name = match &request.destination {
        Destination::NewTab { label } => match label {
            Some(l) => l.clone(),
            None => owned("a new tab"),
        },
        Destination::NewWorkspace { label } => match label {
            Some(l) => l.clone(),
            None => owned("a new workspace"),
        },
        _ => return Err(owned("Extract creates a new tab or workspace.")),
    };
    Ok(single(request, source, destination_name))
}

fn build_swap(snapshot: &Snapshot, request: &Request, source: &Pane) -> (r: Result<Plan, String>)
    requires
        request.verb == Verb::Swap,
        *source == acting(*snapshot, *request),
    ensures
        match swap_refusal(*snapshot, *request, *source) {
            Some(m) => r is Err && r->Err_0@ == m,
            None => r is Ok && r->Ok_0.verb == request.verb && r->Ok_0.destination == request.destination
                && r->Ok_0.placement == request.placement
                && r->Ok_0.parts() == planned(*snapshot, *request),
        },
{
    let pane_id = match &request.destination {
        Destination::Pane { pane_id } => pane_id,
        _ => return Err(owned("Swap needs another pane.")),
    };
    if crate::text::same_text(pane_id.as_str(), source.pane_id.as_str()) {
        return Err(owned("A pane cannot be swapped with itself."));
    }
    let target = match snapshot.require_pane(pane_id.as_str()) {
        Ok(p) => p,
        Err(m) => return Err(m),
    };
    let panes = vec![source.pane_id.clone()];
    proof {
        assert(string_views(panes@) =~= seq![source.pane_id@]);
    }
    Ok(Plan {
        verb: Verb::Swap,
        destination: request.destination.duplicate(),
        placement: request.placement,
        panes,
        internal: Vec::new(),
        source_tab: source.tab_id.clone(),
        destination_name: pane_compact(target),
        subject_name: pane_compact(source),
        swap_with: Some(copy_pane(target)),
    })
}

fn ids_of(panes: &Vec<Pane>) -> (r: Vec<String>)
    ensures
        string_views(r@) == pane_ids_of(panes@),
{
    let mut out: Vec<String> = Vec::new();
    let mut i: usize = 0;
    while i < panes.len()
        invariant
            i <= panes@.len(),
            string_views(out@) == pane_ids_of(panes@.take(i as int)),
        decreases panes@.len() - i,
    {
        let ghost prev = out@;
        out.push(panes[i].pane_id.clone());
        proof {
            assert(string_views(out@) =~= string_views(prev).push(panes@[i as int].pane_id@));
            assert(pane_ids_of(panes@.take(i + 1)) =~= pane_ids_of(panes@.take(i as int)).push(panes@[i as int].pane_id@));
        }
        i = i + 1;
    }
    proof {
        assert(panes@.take(panes@.len() as int) =~= panes@);
    }
    out
}

fn build_merge(snapshot: &Snapshot, request: &Request, source: &Pane) -> (r: Result<Plan, String>)
    requires
        request.verb == Verb::Merge,
        *source == acting(*snapshot, *request),
    ensures
        match merge_refusal(*snapshot, *request, *source) {
            Some(m) => r is Err && r->Err_0@ == m,
            None => r is Ok && r->Ok_0.verb == request.verb && r->Ok_0.destination == request.destination
                && r->Ok_0.placement == request.placement
                && r->Ok_0.parts() == planned(*snapshot, *request),
        },
{
    let source_tab_id = match &request.source_tab {
        Some(t) => t.clone(),
        None => source.tab_id.clone(),
    };
    let from = match snapshot.tab(source_tab_id.as_str()) {
        Some(t) => t,
        None => return Err(owned("Source tab no longer exists.")),
    };
    let tab_id = match &request.destination {
        Destination::Tab { tab_id, .. } => tab_id,
        _ => return Err(owned("Merge needs a destination tab.")),
    };
    if crate::text::same_text(tab_id.as_str(), source_tab_id.as_str()) {
        return Err(owned("A tab cannot be merged into itself."));
    }
    let destination = match snapshot.require_tab(tab_id.as_str()) {
        Ok(e) => e,
        Err(m) => return Err(m),
    };
    if from.panes.len() == 0 {
        return Err(owned("That tab has no panes to merge."));
    }
    let (panes, kept) = match (request.preserve_layout, &from.shape) {
        (true, Some(shape)) => {
            let layout_plan = LayoutPlan::from_shape(shape);
            let ids = layout_plan.pane_ids();
            (ids, layout_plan.placements)
        },
        _ => {
            let ids = ids_of(&from.panes);
            (ids, Vec::new())
        },
    };
    let internal = match three_pane_column(destination.panes.len(), &panes) {
        Some(column) => column,
        None => kept,
    };
    Ok(Plan {
        verb: Verb::Merge,
        destination: request.destination.duplicate(),
        placement: request.placement,
        panes,
        internal,
        source_tab: source_tab_id,
        swap_with: None,
        destination_name: tab_display(&destination.tab, destination.position),
        subject_name: tab_display(&from.tab, from.position),
    })
}

/// Validate a request against fresh state and produce a plan, or the
/// sentence that says why not.
pub fn build(snapshot: &Snapshot, request: &Request) -> (r: Result<Plan, String>)
    ensures
        match refusal(*snapshot, *request) {
            Some(m) => r is Err && r->Err_0@ == m,
            None => r is Ok && r->Ok_0.verb == request.verb
                && r->Ok_0.destination == planned_destination(*snapshot, *request)
                && r->Ok_0.placement == request.placement
                && r->Ok_0.parts() == planned(*snapshot, *request),
        },
{
    let source = match snapshot.pane(request.source_pane.as_str()) {
        Some(p) => p,
        None => &snapshot.source,
    };
    if !crate::text::same_text(source.pane_id.as_str(), request.source_pane.as_str()) {
        return Err(owned("The pane you selected no longer exists."));
    }
    match request.verb {
        Verb::Move => build_move(snapshot, request, source),
        Verb::Extract => build_extract(request, source),
        Verb::Swap => build_swap(snapshot, request, source),
        Verb::Merge => build_merge(snapshot, request, source),
    }
}


// ---------------------------------------------------------------------------
// Carrying a plan out
// ---------------------------------------------------------------------------

/// One pane move: which pane, the pane it splits (none lets Herdr choose),
/// and on which side and at what ratio.
#[derive(Debug)]
pub struct Move {
    pub pane_id: String,
    pub anchor: Option<String>,
    pub placement: Placement,
}

pub open spec fn move_view(m: Move) -> (Seq<char>, Option<Seq<char>>, Placement) {
    (m.pane_id@, match m.anchor { Some(a) => Some(a@), None => None }, m.placement)
}

pub open spec fn moves_view(v: Seq<Move>) -> Seq<(Seq<char>, Option<Seq<char>>, Placement)> {
    v.map_values(|m: Move| move_view(m))
}

/// The moves after the first when nothing of the source layout is kept:
/// each pane splits the one placed before it, on the chosen side.
pub open spec fn chained(panes: Seq<Seq<char>>, side: Side) -> Seq<(Seq<char>, Option<Seq<char>>, Placement)>
    decreases panes.len(),
{
    if panes.len() <= 1 {
        seq![]
    } else {
        chained(panes.drop_last(), side).push(
            (panes.last(), Some(panes[panes.len() - 2]), Placement { side, ratio: EVEN }),
        )
    }
}

pub open spec fn replayed(steps: Seq<Step>) -> Seq<(Seq<char>, Option<Seq<char>>, Placement)> {
    steps.map_values(|st: Step| (st.pane, Some(st.anchor), Placement { side: st.side, ratio: EVEN }))
}

/// Every move a Merge makes, in order: the first pane joins the destination
/// on the chosen side, then the rest either replay the source tab's own
/// splits or chain along that side.
pub open spec fn merge_moves_spec(p: Plan) -> Seq<(Seq<char>, Option<Seq<char>>, Placement)> {
    let target = match p.destination {
        Destination::Tab { target_pane, .. } => match target_pane {
            Some(t) => Some(t@),
            None => None,
        },
        _ => None,
    };
    let panes = string_views(p.panes@);
    seq![(panes[0], target, p.placement)] + if p.internal@.len() == 0 {
        chained(panes, p.placement.side)
    } else {
        replayed(steps_of(p.internal@))
    }
}

/// The moves that carry out a Merge plan.
pub fn merge_moves(plan: &Plan) -> (r: Vec<Move>)
    requires
        plan.panes@.len() > 0,
    ensures
        moves_view(r@) == merge_moves_spec(*plan),
{
    let mut out: Vec<Move> = Vec::new();
    let target = match &plan.destination {
        Destination::Tab { target_pane, .. } => copy_opt(target_pane),
        _ => None,
    };
    out.push(Move { pane_id: plan.panes[0].clone(), anchor: target, placement: plan.placement });
    let ghost head = moves_view(out@);
    let ghost panes = string_views(plan.panes@);
    if plan.internal.len() == 0 {
        let mut i: usize = 1;
        while i < plan.panes.len()
            invariant
                1 <= i <= plan.panes@.len(),
                panes == string_views(plan.panes@),
                moves_view(out@) == head + chained(panes.take(i as int), plan.placement.side),
            decreases plan.panes@.len() - i,
        {
            let ghost prev = out@;
            out.push(Move {
                pane_id: plan.panes[i].clone(),
                anchor: Some(plan.panes[i - 1].clone()),
                placement: Placement { side: plan.placement.side, ratio: EVEN },
            });
            proof {
                assert(moves_view(out@) =~= moves_view(prev).push(moves_view(out@).last()));
                assert(panes.take(i + 1).drop_last() =~= panes.take(i as int));
                assert(chained(panes.take(i + 1), plan.placement.side) =~= chained(panes.take(i as int), plan.placement.side).push(
                    (panes[i as int], Some(panes[i - 1]), Placement { side: plan.placement.side, ratio: EVEN }),
                ));
            }
            i = i + 1;
        }
        proof {
            assert(panes.take(panes.len() as int) =~= panes);
        }
    } else {
        let mut i: usize = 0;
        while i < plan.internal.len()
            invariant
                i <= plan.internal@.len(),
                moves_view(out@) == head + replayed(steps_of(plan.internal@).take(i as int)),
            decreases plan.internal@.len() - i,
        {
            let p = &plan.internal[i];
            let ghost prev = out@;
            out.push(Move {
                pane_id: p.pane_id.clone(),
                anchor: Some(p.anchor.clone()),
                placement: Placement { side: p.side, ratio: EVEN },
            });
            proof {
                assert(moves_view(out@) =~= moves_view(prev).push(moves_view(out@).last()));
                assert(replayed(steps_of(plan.internal@).take(i + 1)) =~= replayed(steps_of(plan.internal@).take(i as int)).push(
                    (p.pane_id@, Some(p.anchor@), Placement { side: p.side, ratio: EVEN }),
                ));
            }
            i = i + 1;
        }
        proof {
            assert(steps_of(plan.internal@).take(plan.internal@.len() as int) =~= steps_of(plan.internal@));
        }
    }
    out
}

/// What actually happened, for verification and messaging.
#[derive(Debug)]
pub struct Applied {
    pub outcome: Outcome,
    /// Pane to focus afterwards.
    pub focus: Option<String>,
    /// Tab the moved panes should now be in, when it is known.
    pub landed_in: Option<String>,
    /// Panes that were moved.
    pub panes: Vec<String>,
    /// For Swap: each pane and the tab it started in.
    pub swap: Option<(String, String, String, String)>,
}

pub open spec fn single_message(verb: Verb, subject: Seq<char>, destination: Seq<char>) -> Seq<char> {
    (if verb == Verb::Extract { "Extracted "@ } else { "Moved "@ }) + quoted(subject) + " to "@ + destination
}

/// The record of a Move or Extract that put the pane into `landed_in`.
pub fn single_applied(plan: &Plan, landed_in: Option<String>) -> (r: Applied)
    requires
        plan.panes@.len() > 0,
    ensures
        r.outcome.message@ == single_message(plan.verb, plan.subject_name@, plan.destination_name@),
        r.outcome.detail is None,
        r.focus == Some(plan.panes@[0]),
        r.landed_in == landed_in,
        r.panes@ == seq![plan.panes@[0]],
        r.swap is None,
{
    let mut message = if plan.verb == Verb::Extract { owned("Extracted ") } else { owned("Moved ") };
    let q = quote(plan.subject_name.as_str());
    push_str(&mut message, q.as_str());
    push_str(&mut message, " to ");
    push_str(&mut message, plan.destination_name.as_str());
    let pane_id = plan.panes[0].clone();
    Applied {
        outcome: Outcome::new(message.as_str()),
        focus: Some(pane_id.clone()),
        landed_in,
        panes: vec![pane_id],
        swap: None,
    }
}

pub open spec fn moved_count(n: nat) -> Seq<char> {
    crate::text::decimal(n) + (if n == 1 { " pane moved"@ } else { " panes moved"@ })
}

/// The record of a Merge into tab `tab_id`.
pub fn merge_applied(plan: &Plan, tab_id: &str) -> (r: Applied)
    requires
        plan.panes@.len() > 0,
    ensures
        r.outcome.message@ == "Merged "@ + plan.subject_name@ + " into "@ + plan.destination_name@,
        r.outcome.detail is Some && r.outcome.detail->0@ == moved_count(plan.panes@.len()),
        r.focus == Some(plan.panes@[0]),
        r.landed_in is Some && r.landed_in->0@ == tab_id@,
        r.panes@ == plan.panes@,
        r.swap is None,
{
    let mut message = owned("Merged ");
    push_str(&mut message, plan.subject_name.as_str());
    push_str(&mut message, " into ");
    push_str(&mut message, plan.destination_name.as_str());
    let mut detail = crate::text::decimal_string(plan.panes.len());
    if plan.panes.len() == 1 {
        push_str(&mut detail, " pane moved");
    } else {
        push_str(&mut detail, " panes moved");
    }
    Applied {
        outcome: Outcome::new(message.as_str()).with_detail(detail.as_str()),
        focus: Some(plan.panes[0].clone()),
        landed_in: Some(owned(tab_id)),
        panes: plan.panes.clone(),
        swap: None,
    }
}

/// One leg of a cross-tab swap: move `pane` from one tab into another,
/// splitting `anchor`; `undo_anchor` is where it goes back if a later leg
/// fails.
#[derive(Debug)]
pub struct SwapStep {
    pub pane: String,
    pub from_tab: String,
    pub to_tab: String,
    pub anchor: Option<String>,
    pub undo_anchor: Option<String>,
}

pub open spec fn step_view(s: SwapStep) -> (Seq<char>, Seq<char>, Seq<char>, Option<Seq<char>>, Option<Seq<char>>) {
    (s.pane@, s.from_tab@, s.to_tab@, opt_view(s.anchor), opt_view(s.undo_anchor))
}

/// The legs of a cross-tab swap, ordered so neither tab is ever emptied
/// mid-flight (Herdr closes an emptied tab). When both panes are alone only
/// the first leg is listed and `recreate` is set: the target then goes to a
/// new tab that takes the source tab's name and slot.
#[derive(Debug)]
pub struct SwapRoute {
    pub steps: Vec<SwapStep>,
    pub recreate: bool,
}

pub open spec fn swap_route_spec(
    source: Seq<char>,
    source_tab: Seq<char>,
    target: Seq<char>,
    target_tab: Seq<char>,
    source_sibling: Option<Seq<char>>,
    target_sibling: Option<Seq<char>>,
) -> (Seq<(Seq<char>, Seq<char>, Seq<char>, Option<Seq<char>>, Option<Seq<char>>)>, bool) {
    match (source_sibling, target_sibling) {
        (Some(a), Some(b)) => (seq![
            (source, source_tab, target_tab, Some(b), Some(a)),
            (target, target_tab, source_tab, Some(a), Some(b)),
        ], false),
        (None, Some(b)) => (seq![
            (target, target_tab, source_tab, Some(source), Some(b)),
            (source, source_tab, target_tab, Some(b), Some(target)),
        ], false),
        (Some(a), None) => (seq![
            (source, source_tab, target_tab, Some(target), Some(a)),
            (target, target_tab, source_tab, Some(a), Some(source)),
        ], false),
        (None, None) => (seq![(source, source_tab, target_tab, Some(target), None)], true),
    }
}

fn leg(pane: &str, from_tab: &str, to_tab: &str, anchor: Option<&str>, undo_anchor: Option<&str>) -> (r: SwapStep)
    ensures
        step_view(r) == (pane@, from_tab@, to_tab@,
            match anchor { Some(a) => Some(a@), None => None },
            match undo_anchor { Some(a) => Some(a@), None => None }),
{
    SwapStep {
        pane: owned(pane),
        from_tab: owned(from_tab),
        to_tab: owned(to_tab),
        anchor: match anchor { Some(a) => Some(owned(a)), None => None },
        undo_anchor: match undo_anchor { Some(a) => Some(owned(a)), None => None },
    }
}

/// How to swap `source` (in `source_tab`) with `target` (in `target_tab`),
/// given the first other pane of each tab, if any.
pub fn swap_route(
    source: &str,
    source_tab: &str,
    target: &str,
    target_tab: &str,
    source_sibling: Option<&str>,
    target_sibling: Option<&str>,
) -> (r: SwapRoute)
    ensures
        (r.steps@.map_values(|s: SwapStep| step_view(s)), r.recreate) == swap_route_spec(
            source@, source_tab@, target@, target_tab@,
            match source_sibling { Some(a) => Some(a@), None => None },
            match target_sibling { Some(b) => Some(b@), None => None },
        ),
{
    let (steps, recreate) = match (source_sibling, target_sibling) {
        (Some(a), Some(b)) => (vec![
            leg(source, source_tab, target_tab, Some(b), Some(a)),
            leg(target, target_tab, source_tab, Some(a), Some(b)),
        ], false),
        (None, Some(b)) => (vec![
            leg(target, target_tab, source_tab, Some(source), Some(b)),
            leg(source, source_tab, target_tab, Some(b), Some(target)),
        ], false),
        (Some(a), None) => (vec![
            leg(source, source_tab, target_tab, Some(target), Some(a)),
            leg(target, target_tab, source_tab, Some(a), Some(source)),
        ], false),
        (None, None) => (vec![leg(source, source_tab, target_tab, Some(target), None)], true),
    };
    let r = SwapRoute { steps, recreate };
    proof {
        let sa = match source_sibling { Some(a) => Some(a@), None => None };
        let tb = match target_sibling { Some(b) => Some(b@), None => None };
        assert(r.steps@.map_values(|s: SwapStep| step_view(s)) =~= swap_route_spec(
            source@, source_tab@, target@, target_tab@, sa, tb).0);
    }
    r
}

/// The record of a swap of the plan's pane with `target`.
pub fn swap_applied(plan: &Plan, target: &Pane, recreated: bool) -> (r: Applied)
    requires
        plan.panes@.len() > 0,
    ensures
        r.outcome.message@ == "Swapped "@ + quoted(plan.subject_name@) + " with "@ + quoted(plan.destination_name@),
        recreated ==> r.outcome.detail is Some && r.outcome.detail->0@
            == "Both panes were alone in their tabs, so one tab was recreated."@,
        !recreated ==> r.outcome.detail is None,
        r.focus == Some(plan.panes@[0]),
        r.landed_in == Some(target.tab_id),
        r.panes@ == seq![plan.panes@[0]],
        r.swap == Some((plan.panes@[0], plan.source_tab, target.pane_id, target.tab_id)),
{
    let mut message = owned("Swapped ");
    let a = quote(plan.subject_name.as_str());
    push_str(&mut message, a.as_str());
    push_str(&mut message, " with ");
    let b = quote(plan.destination_name.as_str());
    push_str(&mut message, b.as_str());
    let outcome = if recreated {
        Outcome::new(message.as_str()).with_detail("Both panes were alone in their tabs, so one tab was recreated.")
    } else {
        Outcome::new(message.as_str())
    };
    let source_id = plan.panes[0].clone();
    Applied {
        outcome,
        focus: Some(source_id.clone()),
        landed_in: Some(target.tab_id.clone()),
        panes: vec![source_id.clone()],
        swap: Some((source_id, plan.source_tab.clone(), target.pane_id.clone(), target.tab_id.clone())),
    }
}

/// The error a failed swap leg gives, before any rollback is reported.
pub fn swap_failure(err: &str) -> (r: String)
    ensures
        r@ == "Swap could not be completed.\n"@ + err@,
{
    concat("Swap could not be completed.\n", err)
}

pub open spec fn joined(parts: Seq<Seq<char>>, sep: Seq<char>) -> Seq<char>
    decreases parts.len(),
{
    if parts.len() == 0 {
        seq![]
    } else if parts.len() == 1 {
        parts[0]
    } else {
        joined(parts.drop_last(), sep) + sep + parts.last()
    }
}

/// Join `parts` with `sep` between them.
pub fn join(parts: &Vec<String>, sep: &str) -> (r: String)
    ensures
        r@ == joined(string_views(parts@), sep@),
{
    let mut out = String::new();
    let mut i: usize = 0;
    while i < parts.len()
        invariant
            i <= parts@.len(),
            out@ == joined(string_views(parts@).take(i as int), sep@),
        decreases parts@.len() - i,
    {
        proof {
            assert(string_views(parts@).take(i + 1).drop_last() =~= string_views(parts@).take(i as int));
        }
        if i > 0 {
            push_str(&mut out, sep);
        }
        push_str(&mut out, parts[i].as_str());
        proof {
            if i == 0 {
                assert(out@ =~= string_views(parts@).take(1)[0]);
            }
        }
        i = i + 1;
    }
    proof {
        assert(string_views(parts@).take(parts@.len() as int) =~= string_views(parts@));
    }
    out
}

pub open spec fn rollback_message_spec(cause: Seq<char>, leg_count: nat, failures: Seq<Seq<char>>) -> Seq<char> {
    if leg_count == 0 {
        cause
    } else if failures.len() == 0 {
        cause + "\nPane locations were restored."@
    } else {
        cause + "\nRollback was incomplete. Pane locations were refreshed.\n"@ + joined(failures, "; "@)
    }
}

/// What a failed swap reports once the legs already made were undone:
/// `failures` names each leg that could not be put back.
pub fn rollback_message(cause: &str, leg_count: usize, failures: &Vec<String>) -> (r: String)
    ensures
        r@ == rollback_message_spec(cause@, leg_count as nat, string_views(failures@)),
{
    if leg_count == 0 {
        return owned(cause);
    }
    if failures.len() == 0 {
        concat(cause, "\nPane locations were restored.")
    } else {
        let mut out = concat(cause, "\nRollback was incomplete. Pane locations were refreshed.\n");
        let list = join(failures, "; ");
        push_str(&mut out, list.as_str());
        out
    }
}

/// Where two panes folded onto a one-pane tab go: the second stacks under
/// the first, so the pair makes a column beside the pane already there.
pub open spec fn three_pane_column_spec(existing: nat, order: Seq<Seq<char>>) -> Option<Seq<Step>> {
    if existing == 1 && order.len() == 2 {
        Some(seq![Step { pane: order[1], anchor: order[0], side: Side::Down }])
    } else {
        None
    }
}

/// The placements for folding two panes onto a tab of one, or `None` when
/// that is not the situation.
pub fn three_pane_column(existing: usize, order: &Vec<String>) -> (r: Option<Vec<Arrangement>>)
    ensures
        match three_pane_column_spec(existing as nat, string_views(order@)) {
            Some(steps) => r is Some && steps_of(r->0@) == steps,
            None => r is None,
        },
{
    if existing == 1 && order.len() == 2 {
        let v = vec![Arrangement { pane_id: order[1].clone(), anchor: order[0].clone(), side: Side::Down }];
        proof {
            assert(steps_of(v@) =~= seq![Step { pane: order@[1]@, anchor: order@[0]@, side: Side::Down }]);
        }
        Some(v)
    } else {
        None
    }
}

/// The tab an operation brought into being, for the undo to clear away:
/// only a new tab or workspace counts.
pub fn created_tab(plan: &Plan, applied: &Applied) -> (r: Option<String>)
    ensures
        r == match plan.destination {
            Destination::NewTab { .. } => applied.landed_in,
            Destination::NewWorkspace { .. } => applied.landed_in,
            _ => None,
        },
{
    match &plan.destination {
        Destination::NewTab { .. } => copy_opt(&applied.landed_in),
        Destination::NewWorkspace { .. } => copy_opt(&applied.landed_in),
        _ => None,
    }
}

// ---------------------------------------------------------------------------
// Checking it happened
// ---------------------------------------------------------------------------

pub open spec fn unverified(verb: Verb) -> Seq<char> {
    verb_label(verb) + " could not be verified."@
}

/// The verdict on a Move, Extract or Merge, given for each moved pane either
/// the tab it is in now or the error reading it gave.
pub open spec fn landed_verdict(
    verb: Verb,
    subject: Seq<char>,
    source_tab: Seq<char>,
    expected: Option<Seq<char>>,
    found: Seq<Result<Seq<char>, Seq<char>>>,
) -> Result<(), Seq<char>>
    decreases found.len(),
{
    if found.len() == 0 {
        Ok(())
    } else {
        match landed_verdict(verb, subject, source_tab, expected, found.drop_last()) {
            Err(e) => Err(e),
            Ok(()) => match found.last() {
                Err(e) => Err(unverified(verb) + "\n"@ + e),
                Ok(tab) => match expected {
                    None => if tab == source_tab { Err(unverified(verb)) } else { Ok(()) },
                    Some(x) => if tab != x {
                        Err(unverified(verb) + "\n"@ + quoted(subject) + " is not in the destination tab."@)
                    } else {
                        Ok(())
                    },
                },
            },
        }
    }
}

pub open spec fn read_views(v: Seq<Result<String, String>>) -> Seq<Result<Seq<char>, Seq<char>>> {
    v.map_values(|r: Result<String, String>| match r {
        Ok(t) => Ok(t@),
        Err(e) => Err(e@),
    })
}

/// Every moved pane is in the tab it was sent to, or, when Herdr chose the
/// tab, out of the one it left. `found[i]` is what reading the i-th moved
/// pane gave: its tab, or the error.
pub fn check_landed(plan: &Plan, applied: &Applied, found: &Vec<Result<String, String>>) -> (r: Result<(), String>)
    ensures
        match landed_verdict(plan.verb, plan.subject_name@, plan.source_tab@, opt_view(applied.landed_in), read_views(found@)) {
            Ok(()) => r is Ok,
            Err(m) => r is Err && r->Err_0@ == m,
        },
{
    let ghost f = read_views(found@);
    let ghost expected = opt_view(applied.landed_in);
    let mut i: usize = 0;
    while i < found.len()
        invariant
            i <= found@.len(),
            f == read_views(found@),
            expected == opt_view(applied.landed_in),
            landed_verdict(plan.verb, plan.subject_name@, plan.source_tab@, expected, f.take(i as int)) is Ok,
        decreases found@.len() - i,
    {
        proof {
            assert(f.take(i + 1).drop_last() =~= f.take(i as int));
            assert(f.take(i + 1).last() == f[i as int]);
        }
        match &found[i] {
            Err(e) => {
                assert(f[i as int] == Err::<Seq<char>, Seq<char>>(e@));
                let mut msg = owned(plan.verb.label());
                push_str(&mut msg, " could not be verified.");
                push_str(&mut msg, "\n");
                push_str(&mut msg, e.as_str());
                proof {
                    lemma_verdict_stays(plan.verb, plan.subject_name@, plan.source_tab@, expected, f, i + 1);
                }
                return Err(msg);
            },
            Ok(tab) => {
                assert(f[i as int] == Ok::<Seq<char>, Seq<char>>(tab@));
                match &applied.landed_in {
                    None => {
                        if crate::text::same_text(tab.as_str(), plan.source_tab.as_str()) {
                            let msg = concat(plan.verb.label(), " could not be verified.");
                            proof {
                                lemma_verdict_stays(plan.verb, plan.subject_name@, plan.source_tab@, expected, f, i + 1);
                            }
                            return Err(msg);
                        }
                    },
                    Some(x) => {
                        assert(expected == Some(x@));
                        if !crate::text::same_text(tab.as_str(), x.as_str()) {
                            let mut msg = owned(plan.verb.label());
                            push_str(&mut msg, " could not be verified.");
                push_str(&mut msg, "\n");
                            let q = quote(plan.subject_name.as_str());
                            push_str(&mut msg, q.as_str());
                            push_str(&mut msg, " is not in the destination tab.");
                            proof {
                                lemma_verdict_stays(plan.verb, plan.subject_name@, plan.source_tab@, expected, f, i + 1);
                            }
                            return Err(msg);
                        }
                    },
                }
            },
        }
        i = i + 1;
    }
    proof {
        assert(f.take(f.len() as int) =~= f);
    }
    Ok(())
}

proof fn lemma_verdict_stays(
    verb: Verb,
    subject: Seq<char>,
    source_tab: Seq<char>,
    expected: Option<Seq<char>>,
    f: Seq<Result<Seq<char>, Seq<char>>>,
    n: int,
)
    requires
        0 <= n <= f.len(),
        landed_verdict(verb, subject, source_tab, expected, f.take(n)) is Err,
    ensures
        landed_verdict(verb, subject, source_tab, expected, f) == landed_verdict(verb, subject, source_tab, expected, f.take(n)),
    decreases f.len() - n,
{
    if n < f.len() {
        assert(f.take(n + 1).drop_last() =~= f.take(n));
        lemma_verdict_stays(verb, subject, source_tab, expected, f, n + 1);
    } else {
        assert(f.take(n) =~= f);
    }
}

/// Whether a swap that crossed tabs really did: each pane is now in the
/// other's tab. `source_now` and `target_now` are the tabs read afterwards;
/// a swap within one tab needs no reading and always passes.
pub fn check_traded(swap: &(String, String, String, String), source_now: &str, target_now: &str) -> (r: Result<(), String>)
    ensures
        r is Ok <==> (swap.1@ == swap.3@ || (source_now@ == swap.3@ && target_now@ == swap.1@)),
        r is Err ==> r->Err_0@ == "Swap could not be verified.\nPane locations were refreshed."@,
{
    if crate::text::same_text(swap.1.as_str(), swap.3.as_str()) {
        return Ok(());
    }
    if !crate::text::same_text(source_now, swap.3.as_str()) || !crate::text::same_text(target_now, swap.1.as_str()) {
        return Err(owned("Swap could not be verified.\nPane locations were refreshed."));
    }
    Ok(())
}

} // verus!
