//! Human-facing naming rules.
//!
//! Raw Herdr IDs (`w1:p3`) are never shown but as a last resort, so every
//! list entry is built from the richest identity Herdr can give, in a fixed
//! priority order.
use vstd::prelude::*;

use crate::model::{Pane, Tab};
use crate::text::{
    all_digits, blank, char_to_uppercase, chars_of, decimal, is_blank, only_digits, push_decimal,
    push_str, string_of_range, trim, trimmed, uppercase_of,
};

verus! {

/// The view of an optional string.
pub open spec fn opt_view(o: Option<String>) -> Option<Seq<char>> {
    match o {
        Some(s) => Some(s@),
        None => None,
    }
}

/// `a`, falling back to `b`.
pub open spec fn or_else(a: Option<Seq<char>>, b: Option<Seq<char>>) -> Option<Seq<char>> {
    if a is Some {
        a
    } else {
        b
    }
}

// ---------------------------------------------------------------------------
// Directory names
// ---------------------------------------------------------------------------

/// Length of `s` once trailing `/` are dropped.
pub open spec fn strip_slashes(s: Seq<char>, j: int) -> int
    decreases j,
{
    if j > 0 && s[j - 1] == '/' {
        strip_slashes(s, j - 1)
    } else {
        j
    }
}

/// Index just after the last `/` before `j` (0 when there is none).
pub open spec fn after_last_slash(s: Seq<char>, j: int) -> int
    decreases j,
{
    if j <= 0 {
        0
    } else if s[j - 1] == '/' {
        j
    } else {
        after_last_slash(s, j - 1)
    }
}

/// Last path component of a cwd, e.g. `/Users/x/src/mushi-battle` ->
/// `mushi-battle`; `None` for no cwd or one made of slashes only.
pub open spec fn basename(cwd: Option<Seq<char>>) -> Option<Seq<char>> {
    match cwd {
        None => None,
        Some(s) => {
            let end = strip_slashes(s, s.len() as int);
            if end == 0 {
                None
            } else {
                Some(s.subrange(after_last_slash(s, end), end))
            }
        },
    }
}

proof fn lemma_strip(s: Seq<char>, j: int)
    requires
        0 <= j <= s.len(),
    ensures
        0 <= strip_slashes(s, j) <= j,
        strip_slashes(s, j) > 0 ==> s[strip_slashes(s, j) - 1] != '/',
    decreases j,
{
    if j > 0 && s[j - 1] == '/' {
        lemma_strip(s, j - 1);
    }
}

proof fn lemma_after(s: Seq<char>, j: int)
    requires
        0 <= j <= s.len(),
    ensures
        0 <= after_last_slash(s, j) <= j,
    decreases j,
{
    if j > 0 && s[j - 1] != '/' {
        lemma_after(s, j - 1);
    }
}

/// Last path component of a cwd, e.g. `/Users/x/src/mushi-battle` ->
/// `mushi-battle`.
pub fn cwd_basename(cwd: Option<&str>) -> (r: Option<String>)
    ensures
        opt_view(r) == basename(match cwd {
            Some(c) => Some(c@),
            None => None,
        }),
{
    let raw = match cwd {
        Some(c) => c,
        None => return None,
    };
    let cs = chars_of(raw);
    proof {
        lemma_strip(cs@, cs@.len() as int);
    }
    let mut end: usize = cs.len();
    while end > 0 && cs[end - 1] == '/'
        invariant
            end <= cs@.len(),
            strip_slashes(cs@, end as int) == strip_slashes(cs@, cs@.len() as int),
        decreases end,
    {
        end = end - 1;
    }
    if end == 0 {
        return None;
    }
    proof {
        lemma_after(cs@, end as int);
    }
    let mut start: usize = end;
    while start > 0 && cs[start - 1] != '/'
        invariant
            start <= end <= cs@.len(),
            after_last_slash(cs@, start as int) == after_last_slash(cs@, end as int),
        decreases start,
    {
        start = start - 1;
    }
    Some(string_of_range(&cs, start, end))
}

// ---------------------------------------------------------------------------
// Pane names
// ---------------------------------------------------------------------------

/// A value that is present and not blank, trimmed.
pub open spec fn present(value: Option<String>) -> Option<Seq<char>> {
    match value {
        Some(s) => if blank(s@) {
            None
        } else {
            Some(trim(s@))
        },
        None => None,
    }
}

fn non_empty(value: &Option<String>) -> (r: Option<String>)
    ensures
        opt_view(r) == present(*value),
{
    match value {
        Some(s) => {
            if is_blank(s.as_str()) {
                None
            } else {
                Some(trimmed(s.as_str()))
            }
        },
        None => None,
    }
}

fn first_of(a: Option<String>, b: Option<String>) -> (r: Option<String>)
    ensures
        opt_view(r) == or_else(opt_view(a), opt_view(b)),
{
    match a {
        Some(x) => Some(x),
        None => b,
    }
}

/// The agent name in title case: `goose` -> `Goose`.
pub open spec fn agent_name_of(p: Pane) -> Option<Seq<char>> {
    match or_else(present(p.display_agent), present(p.agent)) {
        Some(raw) => Some(uppercase_of(raw[0]) + raw.drop_first()),
        None => None,
    }
}

/// Agent name in title case: `goose` -> `Goose`.
pub fn agent_name(pane: &Pane) -> (r: Option<String>)
    ensures
        opt_view(r) == agent_name_of(*pane),
{
    let raw = first_of(non_empty(&pane.display_agent), non_empty(&pane.agent));
    match raw {
        Some(raw) => {
            let cs = chars_of(raw.as_str());
            let mut out = char_to_uppercase(cs[0]);
            let rest = string_of_range(&cs, 1, cs.len());
            out.append(rest.as_str());
            proof {
                assert(cs@.subrange(1, cs@.len() as int) =~= cs@.drop_first());
            }
            Some(out)
        },
        None => None,
    }
}

/// The title with the agent's own status glyph stripped, as Herdr reports it.
pub open spec fn title_of(p: Pane) -> Option<Seq<char>> {
    or_else(present(p.terminal_title_stripped), present(p.terminal_title))
}

/// Title stripped of the agent's own status glyph, as reported by Herdr.
pub fn terminal_title(pane: &Pane) -> (r: Option<String>)
    ensures
        opt_view(r) == title_of(*pane),
{
    first_of(non_empty(&pane.terminal_title_stripped), non_empty(&pane.terminal_title))
}

pub open spec fn opt_str_view(o: Option<String>) -> Option<Seq<char>> {
    opt_view(o)
}

/// Project-ish name: the pane's own cwd, falling back to the foreground cwd.
pub open spec fn project_of(p: Pane) -> Option<Seq<char>> {
    or_else(basename(opt_view(p.cwd)), basename(opt_view(p.foreground_cwd)))
}

fn opt_as_str(o: &Option<String>) -> (r: Option<&str>)
    ensures
        match r {
            Some(s) => o is Some && s@ == o->0@,
            None => o is None,
        },
{
    match o {
        Some(s) => Some(s.as_str()),
        None => None,
    }
}

/// Project-ish name for a pane: its own cwd, falling back to the
/// foreground cwd.
pub fn project(pane: &Pane) -> (r: Option<String>)
    ensures
        opt_view(r) == project_of(*pane),
{
    first_of(cwd_basename(opt_as_str(&pane.cwd)), cwd_basename(opt_as_str(&pane.foreground_cwd)))
}

/// Headline for a pane: label, agent, project, title, and the id only as a
/// last resort.
pub open spec fn primary_of(p: Pane) -> Seq<char> {
    match or_else(
        present(p.label),
        or_else(agent_name_of(p), or_else(project_of(p), title_of(p))),
    ) {
        Some(v) => v,
        None => p.pane_id@,
    }
}

/// Headline for a pane.
pub fn pane_primary(pane: &Pane) -> (r: String)
    ensures
        r@ == primary_of(*pane),
{
    let found = first_of(
        non_empty(&pane.label),
        first_of(agent_name(pane), first_of(project(pane), terminal_title(pane))),
    );
    match found {
        Some(v) => v,
        None => pane.pane_id.clone(),
    }
}

/// `primary · project`, or just `primary` when the two say the same.
pub open spec fn compact_of(p: Pane) -> Seq<char> {
    match project_of(p) {
        Some(proj) => if proj != primary_of(p) {
            primary_of(p) + " · "@ + proj
        } else {
            primary_of(p)
        },
        None => primary_of(p),
    }
}

/// Compact single-line form used in menus: `Goose · mushi-battle`.
pub fn pane_compact(pane: &Pane) -> (r: String)
    ensures
        r@ == compact_of(*pane),
{
    let primary = pane_primary(pane);
    match project(pane) {
        Some(proj) => {
            if !(proj == primary) {
                let mut out = primary;
                push_str(&mut out, " · ");
                out.append(proj.as_str());
                out
            } else {
                primary
            }
        },
        None => primary,
    }
}

/// What the pane is doing, unless that only repeats its name or project.
pub open spec fn detail_of(p: Pane) -> Option<Seq<char>> {
    match title_of(p) {
        Some(title) => if title == primary_of(p) || Some(title) == project_of(p) {
            None
        } else {
            Some(title)
        },
        None => None,
    }
}

/// Optional third line: what the pane is currently doing.
pub fn pane_detail(pane: &Pane) -> (r: Option<String>)
    ensures
        opt_view(r) == detail_of(*pane),
{
    let title = match terminal_title(pane) {
        Some(t) => t,
        None => return None,
    };
    let primary = pane_primary(pane);
    let same_project = match project(pane) {
        Some(p) => p == title,
        None => false,
    };
    if title == primary || same_project {
        None
    } else {
        Some(title)
    }
}

/// Auto-generated label for a tab created by Extract: label, title,
/// project, agent; `None` when nothing beats Herdr's own numbering.
pub open spec fn new_tab_label_of(p: Pane) -> Option<Seq<char>> {
    or_else(present(p.label), or_else(title_of(p), or_else(project_of(p), agent_name_of(p))))
}

/// Auto-generated label for a tab created by Extract.
///
/// Returns `None` when nothing better than Herdr's own `Tab <number>` is
/// available, in which case the caller should let Herdr name the tab.
pub fn new_tab_label(pane: &Pane) -> (r: Option<String>)
    ensures
        opt_view(r) == new_tab_label_of(*pane),
{
    first_of(
        non_empty(&pane.label),
        first_of(terminal_title(pane), first_of(project(pane), agent_name(pane))),
    )
}

// ---------------------------------------------------------------------------
// Tab names
// ---------------------------------------------------------------------------

/// Whether a tab's label is just its auto-assigned number.
pub open spec fn label_is_numeric_spec(t: Tab) -> bool {
    match t.label {
        Some(l) => trim(l@).len() == 0 || all_digits(trim(l@)),
        None => true,
    }
}

fn label_is_numeric(tab: &Tab) -> (r: bool)
    ensures
        r == label_is_numeric_spec(*tab),
{
    match &tab.label {
        Some(l) => {
            let t = trimmed(l.as_str());
            chars_of(t.as_str()).len() == 0 || only_digits(t.as_str())
        },
        None => true,
    }
}

/// A tab's own name, when it has one rather than its number.
pub open spec fn tab_name_of(t: Tab) -> Option<Seq<char>> {
    if label_is_numeric_spec(t) { None } else { Some(trim(t.label->0@)) }
}

pub fn tab_name(tab: &Tab) -> (r: Option<String>)
    ensures
        opt_view(r) == tab_name_of(*tab),
{
    if label_is_numeric(tab) {
        return None;
    }
    match &tab.label {
        Some(l) => Some(trimmed(l.as_str())),
        None => None,
    }
}

/// `Tab 2: Agents`, or plain `Tab 2` for an unnamed tab.
pub open spec fn tab_display_of(t: Tab, position: nat) -> Seq<char> {
    if label_is_numeric_spec(t) {
        "Tab "@ + decimal(position)
    } else {
        "Tab "@ + decimal(position) + ": "@ + trim(t.label->0@)
    }
}

/// `Tab 2: Agents`, or plain `Tab 2` for an unnamed tab.
///
/// `position` is the 1-based slot in the workspace's tab list, the same
/// number the user types for Quick Move.
pub fn tab_display(tab: &Tab, position: usize) -> (r: String)
    ensures
        r@ == tab_display_of(*tab, position as nat),
{
    let mut out = String::new();
    push_str(&mut out, "Tab ");
    push_decimal(&mut out, position);
    if !label_is_numeric(tab) {
        push_str(&mut out, ": ");
        match &tab.label {
            Some(l) => {
                let t = trimmed(l.as_str());
                out.append(t.as_str());
            },
            None => {},
        }
    }
    out
}

} // verus!
