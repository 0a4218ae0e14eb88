//! Working out what the user was looking at when a plugin was invoked.
//!
//! The environment and Herdr's invocation context are read by the caller;
//! this module decides, from those values, which pane and which tab an
//! operation acts on.
use vstd::prelude::*;

use crate::model::Pane;
use crate::text::{blank, is_blank, owned};

verus! {

/// Herdr's invocation context for plugin actions: the pane, tab and
/// workspace the menu was opened on.
#[derive(Debug)]
pub struct InvocationContext {
    pub focused_pane_id: Option<String>,
    pub tab_id: Option<String>,
    pub workspace_id: Option<String>,
}

impl Default for InvocationContext {
    fn default() -> (r: Self)
        ensures
            r.focused_pane_id is None,
            r.tab_id is None,
            r.workspace_id is None,
    {
        InvocationContext { focused_pane_id: None, tab_id: None, workspace_id: None }
    }
}

pub open spec fn pairs_view(v: Seq<(String, String)>) -> Seq<(Seq<char>, Seq<char>)> {
    v.map_values(|p: (String, String)| (p.0@, p.1@))
}

pub open spec fn opt_entry(key: Seq<char>, value: Option<String>) -> Seq<(Seq<char>, Seq<char>)> {
    match value {
        Some(v) => seq![(key, v@)],
        None => seq![],
    }
}

/// The fields handed on when this plugin invokes another, in order.
pub open spec fn params_spec(c: InvocationContext, pane: Option<Pane>) -> Seq<(Seq<char>, Seq<char>)> {
    seq![("invocation_source"@, "plugin"@)] + match pane {
        Some(p) => seq![
            ("focused_pane_id"@, p.pane_id@),
            ("tab_id"@, p.tab_id@),
            ("workspace_id"@, p.workspace_id@),
        ] + opt_entry("focused_pane_cwd"@, p.cwd) + opt_entry("focused_pane_agent"@, p.agent),
        None => opt_entry("focused_pane_id"@, c.focused_pane_id) + opt_entry("tab_id"@, c.tab_id)
            + opt_entry("workspace_id"@, c.workspace_id),
    }
}

fn push_opt(out: &mut Vec<(String, String)>, key: &str, value: &Option<String>)
    ensures
        pairs_view(final(out)@) == pairs_view(old(out)@) + opt_entry(key@, *value),
{
    match value {
        Some(v) => {
            let ghost prev = out@;
            out.push((owned(key), v.clone()));
            proof {
                assert(pairs_view(out@) =~= pairs_view(prev) + opt_entry(key@, *value));
            }
        },
        None => {
            proof {
                assert(pairs_view(out@) =~= pairs_view(old(out)@) + opt_entry(key@, *value));
            }
        },
    }
}

impl InvocationContext {
    /// The context to hand on when this plugin invokes another one, so the
    /// callee sees the user's pane rather than this plugin's popup: the
    /// user's pane when known, else what this plugin was itself given.
    pub fn to_params(&self, pane: Option<&Pane>) -> (r: Vec<(String, String)>)
        ensures
            pairs_view(r@) == params_spec(*self, match pane { Some(p) => Some(*p), None => None }),
    {
        let mut out: Vec<(String, String)> = Vec::new();
        out.push((owned("invocation_source"), owned("plugin")));
        let ghost head = pairs_view(out@);
        proof {
            assert(head =~= seq![("invocation_source"@, "plugin"@)]);
        }
        match pane {
            Some(p) => {
                out.push((owned("focused_pane_id"), p.pane_id.clone()));
                out.push((owned("tab_id"), p.tab_id.clone()));
                out.push((owned("workspace_id"), p.workspace_id.clone()));
                proof {
                    assert(pairs_view(out@) =~= head + seq![
                        ("focused_pane_id"@, p.pane_id@),
                        ("tab_id"@, p.tab_id@),
                        ("workspace_id"@, p.workspace_id@),
                    ]);
                }
                push_opt(&mut out, "focused_pane_cwd", &p.cwd);
                push_opt(&mut out, "focused_pane_agent", &p.agent);
            },
            None => {
                push_opt(&mut out, "focused_pane_id", &self.focused_pane_id);
                push_opt(&mut out, "tab_id", &self.tab_id);
                push_opt(&mut out, "workspace_id", &self.workspace_id);
            },
        }
        out
    }
}

/// An inherited value that is present and not blank.
pub open spec fn present(v: Option<String>) -> Option<Seq<char>> {
    match v {
        Some(s) => if blank(s@) { None } else { Some(s@) },
        None => None,
    }
}

pub open spec fn candidate_list(
    explicit: Option<Seq<char>>,
    launcher: Option<String>,
    invoked: Option<String>,
    active: Option<String>,
    own: Option<Seq<char>>,
) -> Seq<Seq<char>> {
    let raw = (match explicit { Some(e) => seq![e], None => seq![] })
        + (match present(launcher) { Some(x) => seq![x], None => seq![] })
        + (match invoked { Some(x) => seq![x@], None => seq![] })
        + (match present(active) { Some(x) => seq![x], None => seq![] });
    raw.filter(|id: Seq<char>| own != Some(id))
}

/// The panes to try, in decreasing order of confidence, before falling back
/// to whichever pane is focused: an explicit flag, the pane a launcher
/// resolved before the UI stole focus, the pane the menu was opened on, then
/// the pane a key binding names. The plugin's own pane is never one.
pub fn source_candidates(
    explicit: Option<&str>,
    launcher: Option<String>,
    invoked: Option<String>,
    active: Option<String>,
    own: Option<&str>,
) -> (r: Vec<String>)
    ensures
        crate::layout::string_views(r@) == candidate_list(
            match explicit { Some(e) => Some(e@), None => None },
            launcher,
            invoked,
            active,
            match own { Some(o) => Some(o@), None => None },
        ),
{
    let ghost ex = match explicit { Some(e) => Some(e@), None => None };
    let ghost ow = match own { Some(o) => Some(o@), None => None };
    let mut raw: Vec<String> = Vec::new();
    match explicit {
        Some(e) => raw.push(owned(e)),
        None => {},
    }
    match &launcher {
        Some(x) => if !is_blank(x.as_str()) { raw.push(x.clone()); },
        None => {},
    }
    match &invoked {
        Some(x) => raw.push(x.clone()),
        None => {},
    }
    match &active {
        Some(x) => if !is_blank(x.as_str()) { raw.push(x.clone()); },
        None => {},
    }
    let ghost whole = (match ex { Some(e) => seq![e], None => seq![] })
        + (match present(launcher) { Some(x) => seq![x], None => seq![] })
        + (match invoked { Some(x) => seq![x@], None => seq![] })
        + (match present(active) { Some(x) => seq![x], None => seq![] });
    proof {
        assert(crate::layout::string_views(raw@) =~= whole);
    }
    let mut out: Vec<String> = Vec::new();
    let mut i: usize = 0;
    while i < raw.len()
        invariant
            i <= raw@.len(),
            crate::layout::string_views(raw@) == whole,
            ow == match own { Some(o) => Some(o@), None => None },
            crate::layout::string_views(out@) == whole.take(i as int).filter(|id: Seq<char>| ow != Some(id)),
        decreases raw@.len() - i,
    {
        proof {
            assert(whole.take(i + 1).drop_last() =~= whole.take(i as int));
            reveal(Seq::filter);
            assert(whole.take(i + 1).last() == whole[i as int]);
        }
        let keep = match own {
            Some(o) => !crate::text::same_text(raw[i].as_str(), o),
            None => true,
        };
        if keep {
            let ghost prev = out@;
            out.push(raw[i].clone());
            proof {
                assert(crate::layout::string_views(out@) =~= crate::layout::string_views(prev).push(raw@[i as int]@));
            }
        }
        i = i + 1;
    }
    proof {
        assert(whole.take(whole.len() as int) =~= whole);
    }
    out
}

/// First pane at or after `i` satisfying `focused` (when asked) and not
/// being the excluded one.
pub open spec fn usable_from(panes: Seq<Pane>, exclude: Option<Seq<char>>, need_focus: bool, i: int) -> Option<int>
    decreases panes.len() - i,
{
    if 0 <= i < panes.len() {
        if (!need_focus || panes[i].focused) && exclude != Some(panes[i].pane_id@) {
            Some(i)
        } else {
            usable_from(panes, exclude, need_focus, i + 1)
        }
    } else {
        None
    }
}

fn first_usable(panes: &Vec<Pane>, exclude: Option<&str>, need_focus: bool) -> (r: Option<usize>)
    ensures
        match usable_from(panes@, match exclude { Some(e) => Some(e@), None => None }, need_focus, 0) {
            Some(k) => r matches Some(x) && x == k && 0 <= k < panes@.len(),
            None => r is None,
        },
{
    let ghost ex = match exclude { Some(e) => Some(e@), None => None };
    let mut i: usize = 0;
    while i < panes.len()
        invariant
            i <= panes@.len(),
            ex == match exclude { Some(e) => Some(e@), None => None },
            usable_from(panes@, ex, need_focus, 0) == usable_from(panes@, ex, need_focus, i as int),
        decreases panes@.len() - i,
    {
        let not_excluded = match exclude {
            Some(e) => !crate::text::same_text(panes[i].pane_id.as_str(), e),
            None => true,
        };
        if (!need_focus || panes[i].focused) && not_excluded {
            return Some(i);
        }
        i = i + 1;
    }
    None
}

/// The focused pane of a workspace's panes, ignoring the plugin's own pane;
/// failing that, any pane but that one.
pub fn focused_pane<'a>(panes: &'a Vec<Pane>, exclude: Option<&str>) -> (r: Option<&'a Pane>)
    ensures
        ({
            let ex = match exclude { Some(e) => Some(e@), None => None };
            match usable_from(panes@, ex, true, 0) {
                Some(k) => r == Some(&panes@[k]),
                None => match usable_from(panes@, ex, false, 0) {
                    Some(k) => r == Some(&panes@[k]),
                    None => r is None,
                },
            }
        }),
{
    match first_usable(panes, exclude, true) {
        Some(k) => Some(&panes[k]),
        None => match first_usable(panes, exclude, false) {
            Some(k) => Some(&panes[k]),
            None => None,
        },
    }
}

/// Whether `id` names a tab in `workspace`: tab ids are the workspace id,
/// a colon, then the tab's own part.
pub open spec fn in_workspace(id: Seq<char>, workspace: Seq<char>) -> bool {
    workspace.len() < id.len() && id.take(workspace.len() as int) == workspace && id[workspace.len() as int] == ':'
}

fn starts_in(id: &str, workspace: &str) -> (r: bool)
    ensures
        r == in_workspace(id@, workspace@),
{
    let a = crate::text::chars_of(id);
    let w = crate::text::chars_of(workspace);
    if w.len() >= a.len() {
        return false;
    }
    let mut i: usize = 0;
    while i < w.len()
        invariant
            a@ == id@,
            w@ == workspace@,
            w@.len() < a@.len(),
            i <= w@.len(),
            forall|j: int| 0 <= j < i ==> a@[j] == w@[j],
        decreases w@.len() - i,
    {
        if a[i] != w[i] {
            return false;
        }
        i = i + 1;
    }
    proof {
        assert(id@.take(workspace@.len() as int) =~= workspace@);
    }
    a[w.len()] == ':'
}

pub open spec fn source_tab_spec(explicit: Option<Seq<char>>, inherited: Option<Seq<char>>, source: Pane) -> Seq<char> {
    match explicit {
        Some(e) if !blank(e) => e,
        _ => match inherited {
            Some(t) if in_workspace(t, source.workspace_id@) => t,
            _ => source.tab_id@,
        },
    }
}

/// Tab an operation should act on: an explicit flag, else the inherited tab
/// (from a launcher or the menu that was opened), else the source pane's own
/// tab.
///
/// The inherited value is only taken when it is in the source pane's
/// workspace: it can outlive the pane it was set for. An explicit tab is
/// taken as it is, even in another workspace, so scripting across
/// workspaces works.
pub fn resolve_source_tab(explicit: Option<&str>, inherited: Option<&str>, source: &Pane) -> (r: String)
    ensures
        r@ == source_tab_spec(
            match explicit { Some(e) => Some(e@), None => None },
            match inherited { Some(t) => Some(t@), None => None },
            *source,
        ),
{
    match explicit {
        Some(e) => {
            if !is_blank(e) {
                return owned(e);
            }
        },
        None => {},
    }
    match inherited {
        Some(t) => {
            if starts_in(t, source.workspace_id.as_str()) {
                return owned(t);
            }
        },
        None => {},
    }
    source.tab_id.clone()
}

/// The first of the launcher's tab and the menu's tab that is present:
/// the value handed to [`resolve_source_tab`] as inherited.
pub fn inherited_tab(launcher: Option<String>, invoked: Option<String>) -> (r: Option<String>)
    ensures
        match present(launcher) {
            Some(x) => r is Some && r->0@ == x,
            None => r == invoked,
        },
{
    match launcher {
        Some(x) => {
            if !is_blank(x.as_str()) {
                return Some(x);
            }
            invoked
        },
        None => invoked,
    }
}

} // verus!
