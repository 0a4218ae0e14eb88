//! The decisions of an Active Agent Gather run and of its menu.
//!
//! The caller asks Herdr for the agents, records where they were, moves
//! them, and reads back where they landed; these functions decide what goes
//! where and what to say.
use vstd::prelude::*;

use crate::gather::{group_views, origin_ids, scope_named, selection, PanesPerTab, Scope, Session};
use crate::label::compact_of;
use crate::layout::string_views;
use crate::menu::Menu;
use crate::model::{Agent, Outcome, Pane};
use crate::place::{restored_detail, Restored};
use crate::pm_config::{status_list, Config};
use crate::preview::{gather_size_panels, short_id, short_pane_id, size_panels_are};
use crate::term::{Panel, Row};
use crate::text::{decimal, owned, push_decimal, push_str, same_text};

verus! {

pub open spec fn scope_label(s: Scope) -> Seq<char> {
    match s {
        Scope::CurrentWorkspace => "Current Workspace"@,
        Scope::AllWorkspaces => "All Workspaces"@,
    }
}

pub open spec fn configured_scope(c: Config) -> Scope {
    match scope_named(c.gather.scope@) {
        Some(s) => s,
        None => Scope::CurrentWorkspace,
    }
}

pub open spec fn configured_size(c: Config) -> nat {
    if 2 <= c.gather.max_panes_per_tab <= 4 { c.gather.max_panes_per_tab as nat } else { 4 }
}

// ---------------------------------------------------------------------------
// The run
// ---------------------------------------------------------------------------

/// The toast when no agent qualifies: if a Gather was in place it has just
/// been put back; otherwise say what was looked for, and where.
pub fn nothing_to_gather(had_session: bool, config: &Config, scope: Scope) -> (r: Outcome)
    ensures
        r.message@ == "No agent needs attention"@,
        r.detail matches Some(d) && d@ == (if had_session {
            "The gathered panes were returned to their tabs."@
        } else {
            "Looking for "@ + status_list(config.gather.statuses@) + " in "@ + scope_label(scope) + "."@
        }),
{
    if had_session {
        return Outcome::new("No agent needs attention").with_detail("The gathered panes were returned to their tabs.");
    }
    let mut detail = owned("Looking for ");
    let summary = config.gather.status_summary();
    push_str(&mut detail, summary.as_str());
    push_str(&mut detail, " in ");
    push_str(&mut detail, scope.label());
    push_str(&mut detail, ".");
    Outcome::new("No agent needs attention").with_detail(detail.as_str())
}

pub open spec fn plural(n: nat, one: Seq<char>, many: Seq<char>) -> Seq<char> {
    if n == 1 { one } else { many }
}

/// The toast after a Gather: how many agents went into how many tabs, from
/// where, and how many were sent home because they no longer qualify.
pub open spec fn gathered_detail(count: nat, tabs: nat, scope: Scope, returned: nat) -> Seq<char> {
    decimal(count) + " agent"@ + plural(count, seq![], "s"@) + " · "@ + decimal(tabs) + " "@
        + plural(tabs, "tab"@, "tabs"@) + " · "@ + scope_label(scope)
        + (if returned > 0 { " · "@ + decimal(returned) + " returned"@ } else { seq![] })
}

pub fn gathered_outcome(count: usize, tabs: usize, scope: Scope, returned: usize) -> (r: Outcome)
    ensures
        r.message@ == "Gathered the active agents"@,
        r.detail matches Some(d) && d@ == gathered_detail(count as nat, tabs as nat, scope, returned as nat),
{
    let mut detail = crate::text::decimal_string(count);
    push_str(&mut detail, " agent");
    if count != 1 {
        push_str(&mut detail, "s");
    }
    push_str(&mut detail, " · ");
    push_decimal(&mut detail, tabs);
    push_str(&mut detail, " ");
    push_str(&mut detail, if tabs == 1 { "tab" } else { "tabs" });
    push_str(&mut detail, " · ");
    push_str(&mut detail, scope.label());
    if returned > 0 {
        push_str(&mut detail, " · ");
        push_decimal(&mut detail, returned);
        push_str(&mut detail, " returned");
    }
    proof {
        reveal_strlit("");
        if count == 1 {
            assert(plural(count as nat, seq![], "s"@) =~= Seq::<char>::empty());
        }
        if returned == 0 {
            assert(detail@ =~= detail@ + Seq::<char>::empty());
        }
    }
    Outcome::new("Gathered the active agents").with_detail(detail.as_str())
}

/// The wanted agents whose origin is on record, in priority order: only
/// those can be put back, so only those are moved.
pub open spec fn recorded_order(wanted: Seq<Agent>, recorded: Seq<Seq<char>>) -> Seq<Seq<char>> {
    wanted.map_values(|a: Agent| a.pane_id@).filter(|id: Seq<char>| recorded.contains(id))
}

pub fn gather_order(wanted: &[Agent], session: &Session) -> (r: Result<Vec<String>, String>)
    ensures
        recorded_order(wanted@, origin_ids(session.origins@)).len() == 0 ==> r is Err
            && r->Err_0@ == "Could not read where the active agents currently are."@,
        recorded_order(wanted@, origin_ids(session.origins@)).len() > 0 ==> (r matches Ok(v)
            && string_views(v@) == recorded_order(wanted@, origin_ids(session.origins@))),
{
    let ghost ids = wanted@.map_values(|a: Agent| a.pane_id@);
    let ghost rec = origin_ids(session.origins@);
    let mut out: Vec<String> = Vec::new();
    let mut i: usize = 0;
    while i < wanted.len()
        invariant
            i <= wanted@.len(),
            ids == wanted@.map_values(|a: Agent| a.pane_id@),
            rec == origin_ids(session.origins@),
            string_views(out@) == ids.take(i as int).filter(|id: Seq<char>| rec.contains(id)),
        decreases wanted@.len() - i,
    {
        proof {
            assert(ids.take(i + 1).drop_last() =~= ids.take(i as int));
            assert(ids.take(i + 1).last() == wanted@[i as int].pane_id@);
            reveal(Seq::filter);
        }
        if session.contains(wanted[i].pane_id.as_str()) {
            let ghost before = out@;
            out.push(wanted[i].pane_id.clone());
            proof {
                assert(string_views(out@) =~= string_views(before).push(wanted@[i as int].pane_id@));
            }
        }
        i = i + 1;
    }
    proof {
        assert(ids.take(wanted@.len() as int) =~= ids);
    }
    if out.len() == 0 {
        return Err(owned("Could not read where the active agents currently are."));
    }
    Ok(out)
}

/// The name of Gather tab `index` (from 0): numbered only when there is
/// more than one.
pub open spec fn gather_tab_label_of(label: Seq<char>, index: nat, multiple: bool) -> Seq<char> {
    if multiple { label + " "@ + decimal(index + 1) } else { label }
}

pub fn gather_tab_label(config: &Config, index: usize, multiple: bool) -> (r: String)
    requires
        index < usize::MAX,
    ensures
        r@ == gather_tab_label_of(config.gather.tab_label@, index as nat, multiple),
{
    let mut out = config.gather.tab_label.clone();
    if multiple {
        push_str(&mut out, " ");
        push_decimal(&mut out, index + 1);
    }
    out
}

/// Which reusable tab each group lands in: the previous run's still-open
/// Gather tabs, in order, one per group; later groups get new tabs.
pub fn landing_tabs(groups: usize, spare: &[String]) -> (r: Vec<Option<String>>)
    ensures
        r@.len() == groups,
        forall|k: int| 0 <= k < groups ==> crate::label::opt_view(#[trigger] r@[k]) == (if k < spare@.len() {
            Some(spare@[k]@)
        } else {
            None
        }),
{
    let mut out: Vec<Option<String>> = Vec::new();
    let mut k: usize = 0;
    while k < groups
        invariant
            k <= groups,
            out@.len() == k,
            forall|j: int| 0 <= j < k ==> crate::label::opt_view(#[trigger] out@[j]) == (if j < spare@.len() {
                Some(spare@[j]@)
            } else {
                None
            }),
        decreases groups - k,
    {
        if k < spare.len() {
            out.push(Some(spare[k].clone()));
        } else {
            out.push(None);
        }
        k = k + 1;
    }
    out
}

/// Whether `id` heads a group that kept its landing tab: that pane holds
/// the tab open and is not parked.
pub open spec fn anchors(id: Seq<char>, groups: Seq<Seq<Seq<char>>>, anchored: Seq<bool>) -> bool {
    exists|k: int| 0 <= k < groups.len() && k < anchored.len() && anchored[k] && groups[k].len() > 0 && groups[k][0] == id
}

pub open spec fn some_flags(a: Seq<Option<String>>) -> Seq<bool> {
    a.map_values(|o: Option<String>| o is Some)
}

fn is_anchor(id: &String, groups: &[Vec<String>], anchored: &[Option<String>]) -> (r: bool)
    ensures
        r == anchors(id@, group_views(groups@), some_flags(anchored@)),
{
    let mut k: usize = 0;
    while k < groups.len()
        invariant
            k <= groups@.len(),
            forall|j: int| 0 <= j < k ==> !(j < anchored@.len() && anchored@[j] is Some && groups@[j]@.len() > 0
                && groups@[j]@[0]@ == id@),
        decreases groups@.len() - k,
    {
        if k < anchored.len() && anchored[k].is_some() && groups[k].len() > 0 && same_text(groups[k][0].as_str(), id.as_str()) {
            proof {
                assert(group_views(groups@)[k as int] == string_views(groups@[k as int]@));
                assert(some_flags(anchored@)[k as int]);
            }
            return true;
        }
        k = k + 1;
    }
    proof {
        if anchors(id@, group_views(groups@), some_flags(anchored@)) {
            let j = choose|j: int| 0 <= j < group_views(groups@).len() && j < some_flags(anchored@).len()
                && some_flags(anchored@)[j] && group_views(groups@)[j].len() > 0 && group_views(groups@)[j][0] == id@;
            assert(group_views(groups@)[j] == string_views(groups@[j]@));
        }
    }
    false
}

/// The panes parked in the holding tab while the Gather tabs are rebuilt:
/// every one in the order except the heads that hold their tab open.
pub fn parked_panes(order: &[String], groups: &[Vec<String>], anchored: &[Option<String>]) -> (r: Vec<String>)
    ensures
        string_views(r@) == string_views(order@).filter(
            |id: Seq<char>| !anchors(id, group_views(groups@), some_flags(anchored@)),
        ),
{
    let ghost keep = |id: Seq<char>| !anchors(id, group_views(groups@), some_flags(anchored@));
    let mut out: Vec<String> = Vec::new();
    let mut i: usize = 0;
    while i < order.len()
        invariant
            i <= order@.len(),
            keep == (|id: Seq<char>| !anchors(id, group_views(groups@), some_flags(anchored@))),
            string_views(out@) == string_views(order@).take(i as int).filter(keep),
        decreases order@.len() - i,
    {
        proof {
            assert(string_views(order@).take(i + 1).drop_last() =~= string_views(order@).take(i as int));
            reveal(Seq::filter);
        }
        if !is_anchor(&order[i], groups, anchored) {
            let ghost before = out@;
            out.push(order[i].clone());
            proof {
                assert(string_views(out@) =~= string_views(before).push(order@[i as int]@));
            }
        }
        i = i + 1;
    }
    proof {
        assert(string_views(order@).take(order@.len() as int) =~= string_views(order@));
    }
    out
}

/// A Refresh keeps the recorded size and scope, falling back to the
/// configured ones when the record's cannot be read.
pub fn refresh_settings(session: &Session, config: &Config) -> (r: (PanesPerTab, Scope))
    ensures
        r.0.size() == (if 2 <= session.panes_per_tab <= 4 { session.panes_per_tab as nat } else { configured_size(*config) }),
        r.1 == (match scope_named(session.scope@) {
            Some(s) => s,
            None => configured_scope(*config),
        }),
{
    let per_tab = match PanesPerTab::new(session.panes_per_tab) {
        Some(p) => p,
        None => config.gather.per_tab(),
    };
    let scope = match Scope::parse(session.scope.as_str()) {
        Some(s) => s,
        None => config.gather.scope(),
    };
    (per_tab, scope)
}

/// The toast after putting a Gather back.
pub fn returned_outcome(restored: Restored, count: usize) -> (r: Outcome)
    requires
        restored.into_original + restored.into_recreated + restored.gone <= usize::MAX,
    ensures
        r.message@ == "Returned the gathered agents"@,
        r.detail matches Some(d) && d@ == restored_detail(restored, count as nat),
{
    let detail = restored.detail(count);
    Outcome::new("Returned the gathered agents").with_detail(detail.as_str())
}

/// Why the panes cannot be confirmed in the Gather tabs, if they cannot:
/// the first one Herdr would not report, or the first one outside them.
pub open spec fn gathered_refusal(reads: Seq<Result<Pane, String>>, tabs: Seq<Seq<char>>) -> Option<Seq<char>>
    decreases reads.len(),
{
    if reads.len() == 0 {
        None
    } else {
        match reads[0] {
            Err(e) => Some("Gather could not be verified.\n"@ + e@),
            Ok(p) => if !tabs.contains(p.tab_id@) {
                Some("Gather could not be verified.\n\""@ + compact_of(p) + "\" is not in a gathered tab."@)
            } else {
                gathered_refusal(reads.drop_first(), tabs)
            },
        }
    }
}

fn contains_text(v: &[String], x: &str) -> (r: bool)
    ensures
        r == string_views(v@).contains(x@),
{
    let mut i: usize = 0;
    while i < v.len()
        invariant
            i <= v@.len(),
            forall|k: int| 0 <= k < i ==> v@[k]@ != x@,
        decreases v@.len() - i,
    {
        if same_text(v[i].as_str(), x) {
            proof {
                assert(string_views(v@)[i as int] == x@);
            }
            return true;
        }
        i = i + 1;
    }
    proof {
        if string_views(v@).contains(x@) {
            let k = choose|k: int| 0 <= k < string_views(v@).len() && string_views(v@)[k] == x@;
            assert(v@[k]@ == x@);
        }
    }
    false
}

/// Confirm every gathered pane really is in a Gather tab. `reads` is what
/// Herdr reported for each pane, in order.
pub fn check_gathered(reads: &[Result<Pane, String>], tabs: &[String]) -> (r: Result<(), String>)
    ensures
        match gathered_refusal(reads@, string_views(tabs@)) {
            Some(e) => r is Err && r->Err_0@ == e,
            None => r is Ok,
        },
{
    let mut i: usize = 0;
    proof {
        assert(reads@.skip(0) =~= reads@);
    }
    while i < reads.len()
        invariant
            i <= reads@.len(),
            gathered_refusal(reads@, string_views(tabs@)) == gathered_refusal(reads@.skip(i as int), string_views(tabs@)),
        decreases reads@.len() - i,
    {
        proof {
            assert(reads@.skip(i as int).drop_first() =~= reads@.skip(i + 1));
            assert(reads@.skip(i as int)[0] == reads@[i as int]);
        }
        match &reads[i] {
            Err(e) => {
                let mut msg = owned("Gather could not be verified.\n");
                push_str(&mut msg, e.as_str());
                return Err(msg);
            },
            Ok(p) => {
                if !contains_text(tabs, p.tab_id.as_str()) {
                    let mut msg = owned("Gather could not be verified.\n\"");
                    let compact = crate::label::pane_compact(p);
                    push_str(&mut msg, compact.as_str());
                    push_str(&mut msg, "\" is not in a gathered tab.");
                    return Err(msg);
                }
            },
        }
        i = i + 1;
    }
    Ok(())
}

// ---------------------------------------------------------------------------
// The menu
// ---------------------------------------------------------------------------

/// What the Gather menu offers: a group size (with the configured scope)
/// or a scope (with the configured size).
#[derive(Debug, Clone, Copy, PartialEq, Eq)]
pub enum GatherPick {
    PaneCount(u8),
    Scope(Scope),
}

/// The agents a Gather would take, by Herdr's short pane names, most urgent
/// first.
pub open spec fn names_of(agents: Seq<Agent>, config: Config, workspace: Option<Seq<char>>) -> Seq<Seq<char>> {
    selection(agents, config.gather, workspace).map_values(|a: Agent| short_id(a.pane_id@))
}

pub fn gather_names(agents: &[Agent], config: &Config, workspace: Option<&str>) -> (r: Vec<String>)
    ensures
        string_views(r@) == names_of(agents@, *config, match workspace { Some(w) => Some(w@), None => None }),
{
    let chosen = crate::gather::select(agents, &config.gather, workspace);
    let ghost sel = chosen@;
    let mut out: Vec<String> = Vec::new();
    let mut i: usize = 0;
    while i < chosen.len()
        invariant
            i <= chosen@.len(),
            sel == chosen@,
            string_views(out@) == sel.take(i as int).map_values(|a: Agent| short_id(a.pane_id@)),
        decreases chosen@.len() - i,
    {
        let ghost before = out@;
        out.push(short_pane_id(chosen[i].pane_id.as_str()));
        proof {
            assert(string_views(out@) =~= string_views(before).push(short_id(sel[i as int].pane_id@)));
            assert(sel.take(i + 1).map_values(|a: Agent| short_id(a.pane_id@))
                =~= sel.take(i as int).map_values(|a: Agent| short_id(a.pane_id@)).push(short_id(sel[i as int].pane_id@)));
        }
        i = i + 1;
    }
    proof {
        assert(sel.take(sel.len() as int) =~= sel);
    }
    out
}

/// The names the configured scope would gather, when the agents and (for
/// the current workspace) the workspace could be read; else `names`.
pub open spec fn default_names_of(
    agents: Option<Seq<Agent>>,
    workspace: Option<Seq<char>>,
    config: Config,
    names: Seq<Seq<char>>,
) -> Seq<Seq<char>> {
    match agents {
        None => names,
        Some(a) => if configured_scope(config) == Scope::CurrentWorkspace {
            match workspace {
                Some(w) => names_of(a, config, Some(w)),
                None => names,
            }
        } else {
            names_of(a, config, None)
        },
    }
}

/// The names one scope's row would draw: read from the agents when that
/// scope can be looked at; for the configured scope, the default names
/// otherwise.
pub open spec fn scope_names_of(
    agents: Option<Seq<Agent>>,
    workspace: Option<Seq<char>>,
    config: Config,
    scope: Scope,
    defaults: Seq<Seq<char>>,
) -> Option<Seq<Seq<char>>> {
    let read: Option<Seq<Seq<char>>> = match agents {
        None => None,
        Some(a) => match scope {
            Scope::CurrentWorkspace => match workspace {
                Some(w) => Some(names_of(a, config, Some(w))),
                None => None,
            },
            Scope::AllWorkspaces => Some(names_of(a, config, None)),
        },
    };
    if scope == configured_scope(config) {
        Some(
            match read {
                Some(r) => r,
                None => defaults,
            },
        )
    } else {
        read
    }
}

/// Group sizes in menu order: the configured one first, the others after
/// it in increasing order.
pub open spec fn size_order(default: nat) -> Seq<nat> {
    if default == 2 {
        seq![2nat, 3nat, 4nat]
    } else if default == 3 {
        seq![3nat, 2nat, 4nat]
    } else {
        seq![4nat, 2nat, 3nat]
    }
}

pub open spec fn gather_values(default: nat) -> Seq<Option<GatherPick>> {
    seq![
        Some(GatherPick::PaneCount(size_order(default)[0] as u8)),
        Some(GatherPick::PaneCount(size_order(default)[1] as u8)),
        Some(GatherPick::PaneCount(size_order(default)[2] as u8)),
        None,
        None,
        Some(GatherPick::Scope(Scope::CurrentWorkspace)),
        Some(GatherPick::Scope(Scope::AllWorkspaces)),
    ]
}

/// A row's picture: none for no names, else the Gather tab of `size`.
pub open spec fn names_pictured(r: Row, size: nat, names: Option<Seq<Seq<char>>>, config: Config) -> bool {
    match names {
        Some(n) => if n.len() == 0 {
            r.preview is None
        } else {
            r.preview matches Some(p) && size_panels_are(p.panels@, size, n, config)
        },
        None => r.preview is None,
    }
}

pub open spec fn gather_subtitle_of(config: Config) -> Seq<char> {
    "更新が新しい Agent から最大 "@ + decimal(configured_size(config)) + " Pane を1つの Tab へ · "@
        + status_list(config.gather.statuses@) + " · "@ + scope_label(configured_scope(config))
}

fn size_row(size: usize, is_default: bool, names: &[String], config: &Config) -> (r: Row)
    requires
        2 <= size <= 4,
    ensures
        r.kind == crate::term::RowKind::Item,
        r.primary@ == decimal(size as nat) + " panes in one tab"@,
        r.hotkey matches Some(h) && h@ == decimal(size as nat),
        r.secondary matches Some(s) && s@ == (if is_default { "default"@ } else { ""@ }),
        names_pictured(r, size as nat, Some(string_views(names@)), *config),
{
    let mut primary = crate::text::decimal_string(size);
    push_str(&mut primary, " panes in one tab");
    let key = crate::text::decimal_string(size);
    let panels: Vec<Panel> = if names.len() == 0 { Vec::new() } else { gather_size_panels(size, names, config) };
    let r = Row::item(primary.as_str()).hotkey(key.as_str()).secondary(if is_default { "default" } else { "" }).panels(panels);
    proof {
        assert(string_views(names@).len() == names@.len());
    }
    r
}

fn scope_row(scope: Scope, is_default: bool, names: Option<&[String]>, config: &Config) -> (r: Row)
    ensures
        r.kind == crate::term::RowKind::Item,
        r.primary@ == scope_label(scope),
        r.hotkey matches Some(h) && h@ == (if scope == Scope::CurrentWorkspace { "w"@ } else { "a"@ }),
        r.secondary matches Some(s) && s@ == (if is_default { "default"@ } else { ""@ }),
        names_pictured(r, configured_size(*config), match names { Some(n) => Some(string_views(n@)), None => None }, *config),
{
    let size = config.gather.per_tab().get();
    let panels: Vec<Panel> = match names {
        Some(n) => if n.len() == 0 { Vec::new() } else { gather_size_panels(size, n, config) },
        None => Vec::new(),
    };
    let r = Row::item(scope.label())
        .hotkey(if scope == Scope::CurrentWorkspace { "w" } else { "a" })
        .secondary(if is_default { "default" } else { "" })
        .panels(panels);
    proof {
        match names {
            Some(n) => assert(string_views(n@).len() == n@.len()),
            None => {},
        }
    }
    r
}

fn names_for(agents: Option<&[Agent]>, workspace: Option<&str>, config: &Config, scope: Scope, defaults: &Vec<String>) -> (r: Option<Vec<String>>)
    ensures
        match r {
            Some(v) => scope_names_of(
                match agents { Some(a) => Some(a@), None => None },
                match workspace { Some(w) => Some(w@), None => None },
                *config, scope, string_views(defaults@),
            ) == Some(string_views(v@)),
            None => scope_names_of(
                match agents { Some(a) => Some(a@), None => None },
                match workspace { Some(w) => Some(w@), None => None },
                *config, scope, string_views(defaults@),
            ) is None,
        },
{
    let read: Option<Vec<String>> = match agents {
        None => None,
        Some(a) => match scope {
            Scope::CurrentWorkspace => match workspace {
                Some(w) => Some(gather_names(a, config, Some(w))),
                None => None,
            },
            Scope::AllWorkspaces => Some(gather_names(a, config, None)),
        },
    };
    if scope == config.gather.scope() {
        match read {
            Some(r) => Some(r),
            None => Some(crate::place::copy_strings(defaults.as_slice())),
        }
    } else {
        read
    }
}

/// The Gather menu: the three group sizes, the configured one first, each
/// with the tab it would build from the agents the configured scope would
/// take; then the two scopes with theirs. `agents` and `workspace` are what
/// Herdr reported, when it did; `names` stands in when they could not be
/// read.
pub fn gather_menu(agents: Option<&[Agent]>, workspace: Option<&str>, config: &Config, names: &[String]) -> (r: Menu<GatherPick>)
    ensures
        ({
            let av = match agents { Some(a) => Some(a@), None => None };
            let wv = match workspace { Some(w) => Some(w@), None => None };
            let defaults = default_names_of(av, wv, *config, string_views(names@));
            let order = size_order(configured_size(*config));
            &&& r.wf()
            &&& r.screen.title@ == "Gather Active Agents"@
            &&& r.screen.subtitle matches Some(t) && t@ == gather_subtitle_of(*config)
            &&& r.values@ == gather_values(configured_size(*config))
            &&& forall|k: int| 0 <= k < 3 ==> {
                &&& (#[trigger] r.screen.rows@[k]).primary@ == decimal(order[k]) + " panes in one tab"@
                &&& r.screen.rows@[k].hotkey matches Some(h) && h@ == decimal(order[k])
                &&& r.screen.rows@[k].secondary matches Some(s) && s@ == (if k == 0 { "default"@ } else { ""@ })
                &&& names_pictured(r.screen.rows@[k], order[k], Some(defaults), *config)
            }
            &&& r.screen.rows@[3].kind == crate::term::RowKind::Separator
            &&& r.screen.rows@[4].kind == crate::term::RowKind::Header && r.screen.rows@[4].primary@ == "Scope"@
            &&& r.screen.rows@[5].primary@ == scope_label(Scope::CurrentWorkspace)
            &&& names_pictured(r.screen.rows@[5], configured_size(*config),
                scope_names_of(av, wv, *config, Scope::CurrentWorkspace, defaults), *config)
            &&& r.screen.rows@[6].primary@ == scope_label(Scope::AllWorkspaces)
            &&& names_pictured(r.screen.rows@[6], configured_size(*config),
                scope_names_of(av, wv, *config, Scope::AllWorkspaces, defaults), *config)
        }),
{
    let default_scope = config.gather.scope();
    let defaults: Vec<String> = match agents {
        None => crate::place::copy_strings(names),
        Some(a) => if default_scope == Scope::CurrentWorkspace {
            match workspace {
                Some(w) => gather_names(a, config, Some(w)),
                None => crate::place::copy_strings(names),
            }
        } else {
            gather_names(a, config, None)
        },
    };
    let default_count = config.gather.per_tab().get();
    let mut subtitle = owned("更新が新しい Agent から最大 ");
    push_decimal(&mut subtitle, default_count);
    push_str(&mut subtitle, " Pane を1つの Tab へ · ");
    let summary = config.gather.status_summary();
    push_str(&mut subtitle, summary.as_str());
    push_str(&mut subtitle, " · ");
    push_str(&mut subtitle, default_scope.label());
    let mut menu: Menu<GatherPick> = Menu::new("Gather Active Agents").subtitle(subtitle.as_str());

    let order: [usize; 3] = if default_count == 2 { [2, 3, 4] } else if default_count == 3 { [3, 2, 4] } else { [4, 2, 3] };
    let mut k: usize = 0;
    while k < 3
        invariant
            k <= 3,
            2 <= default_count <= 4,
            order@ == (if default_count == 2 { seq![2usize, 3, 4] } else if default_count == 3 { seq![3usize, 2, 4] } else { seq![4usize, 2, 3] }),
            menu.wf(),
            menu.screen.title@ == "Gather Active Agents"@,
            menu.screen.subtitle matches Some(t) && t@ == subtitle@,
            subtitle@ == gather_subtitle_of(*config),
            menu.values@ == gather_values(default_count as nat).take(k as int),
            menu.screen.rows@.len() == k,
            forall|j: int| 0 <= j < k ==> {
                &&& (#[trigger] menu.screen.rows@[j]).primary@ == decimal(order@[j] as nat) + " panes in one tab"@
                &&& menu.screen.rows@[j].hotkey matches Some(h) && h@ == decimal(order@[j] as nat)
                &&& menu.screen.rows@[j].secondary matches Some(s) && s@ == (if j == 0 { "default"@ } else { ""@ })
                &&& names_pictured(menu.screen.rows@[j], order@[j] as nat, Some(string_views(defaults@)), *config)
            },
        decreases 3 - k,
    {
        let size = order[k];
        let row = size_row(size, k == 0, defaults.as_slice(), config);
        menu.item(row, GatherPick::PaneCount(size as u8));
        proof {
            assert(gather_values(default_count as nat).take(k + 1) =~= gather_values(default_count as nat).take(k as int).push(
                Some(GatherPick::PaneCount(size as u8)),
            ));
        }
        k = k + 1;
    }
    menu.row(Row::separator());
    menu.row(Row::header("Scope"));
    let current_names = names_for(agents, workspace, config, Scope::CurrentWorkspace, &defaults);
    let row = scope_row(
        Scope::CurrentWorkspace,
        default_scope == Scope::CurrentWorkspace,
        match &current_names {
            Some(v) => Some(v.as_slice()),
            None => None,
        },
        config,
    );
    menu.item(row, GatherPick::Scope(Scope::CurrentWorkspace));
    let all_names = names_for(agents, workspace, config, Scope::AllWorkspaces, &defaults);
    let row = scope_row(
        Scope::AllWorkspaces,
        default_scope == Scope::AllWorkspaces,
        match &all_names {
            Some(v) => Some(v.as_slice()),
            None => None,
        },
        config,
    );
    menu.item(row, GatherPick::Scope(Scope::AllWorkspaces));
    proof {
        assert(menu.values@ =~= gather_values(default_count as nat));
        reveal_strlit("Scope");
    }
    menu
}

/// The size and scope a pick runs with: a size keeps the configured scope,
/// a scope keeps the configured size.
pub fn pick_settings(pick: GatherPick, config: &Config) -> (r: (PanesPerTab, Scope))
    ensures
        match pick {
            GatherPick::PaneCount(n) => r.0.size() == (if 2 <= n <= 4 { n as nat } else { configured_size(*config) })
                && r.1 == configured_scope(*config),
            GatherPick::Scope(s) => r.0.size() == configured_size(*config) && r.1 == s,
        },
{
    match pick {
        GatherPick::PaneCount(n) => {
            let per_tab = match PanesPerTab::new(n) {
                Some(p) => p,
                None => config.gather.per_tab(),
            };
            (per_tab, config.gather.scope())
        },
        GatherPick::Scope(s) => (config.gather.per_tab(), s),
    }
}

} // verus!
