//! The Navigator: one filterable list of panes, agents, tabs or workspaces,
//! with Tab cycling what is listed and Enter jumping there.
use vstd::prelude::*;

use crate::text::{keyword, keyword_of, spells};

verus! {

/// What the picker lists.
#[derive(Debug, Clone, Copy, PartialEq, Eq, Structural)]
pub enum Scope {
    Panes,
    /// Panes running a detected agent, which is usually what you are hunting.
    Agents,
    Tabs,
    Workspaces,
}

pub open spec fn scope_name(s: Scope) -> Seq<char> {
    match s {
        Scope::Panes => "panes"@,
        Scope::Agents => "agents"@,
        Scope::Tabs => "tabs"@,
        Scope::Workspaces => "workspaces"@,
    }
}

pub open spec fn scope_named(raw: Seq<char>) -> Option<Scope> {
    let k = keyword(raw);
    if k == "panes"@ || k == "pane"@ {
        Some(Scope::Panes)
    } else if k == "agents"@ || k == "agent"@ {
        Some(Scope::Agents)
    } else if k == "tabs"@ || k == "tab"@ {
        Some(Scope::Tabs)
    } else if k == "workspaces"@ || k == "workspace"@ {
        Some(Scope::Workspaces)
    } else {
        None
    }
}

/// The list's heading for a scope.
pub open spec fn scope_title(s: Scope) -> Seq<char> {
    match s {
        Scope::Panes => "Go to pane"@,
        Scope::Agents => "Go to agent"@,
        Scope::Tabs => "Go to tab"@,
        Scope::Workspaces => "Go to workspace"@,
    }
}

pub open spec fn scope_after(s: Scope) -> Scope {
    match s {
        Scope::Panes => Scope::Agents,
        Scope::Agents => Scope::Tabs,
        Scope::Tabs => Scope::Workspaces,
        Scope::Workspaces => Scope::Panes,
    }
}

impl Scope {
    pub fn name(self) -> (r: &'static str)
        ensures
            r@ == scope_name(self),
    {
        match self {
            Scope::Panes => "panes",
            Scope::Agents => "agents",
            Scope::Tabs => "tabs",
            Scope::Workspaces => "workspaces",
        }
    }

    pub fn title(self) -> (r: &'static str)
        ensures
            r@ == scope_title(self),
    {
        match self {
            Scope::Panes => "Go to pane",
            Scope::Agents => "Go to agent",
            Scope::Tabs => "Go to tab",
            Scope::Workspaces => "Go to workspace",
        }
    }

    /// Read a scope from a flag, ignoring case and surrounding space; the
    /// singular is accepted too.
    pub fn parse(raw: &str) -> (r: Option<Self>)
        ensures
            r == scope_named(raw@),
    {
        let k = keyword_of(raw);
        if spells(&k, "panes") || spells(&k, "pane") {
            Some(Scope::Panes)
        } else if spells(&k, "agents") || spells(&k, "agent") {
            Some(Scope::Agents)
        } else if spells(&k, "tabs") || spells(&k, "tab") {
            Some(Scope::Tabs)
        } else if spells(&k, "workspaces") || spells(&k, "workspace") {
            Some(Scope::Workspaces)
        } else {
            None
        }
    }

    /// The scope Tab switches to.
    pub fn next(self) -> (r: Self)
        ensures
            r == scope_after(self),
    {
        match self {
            Scope::Panes => Scope::Agents,
            Scope::Agents => Scope::Tabs,
            Scope::Tabs => Scope::Workspaces,
            Scope::Workspaces => Scope::Panes,
        }
    }
}

/// Every scope reads back from its own name.
pub proof fn lemma_navigator_scope_round_trip(scope: Scope)
    ensures
        scope_named(scope_name(scope)) == Some(scope),
{
    reveal_strlit("panes");
    reveal_strlit("pane");
    reveal_strlit("agents");
    reveal_strlit("agent");
    reveal_strlit("tabs");
    reveal_strlit("tab");
    reveal_strlit("workspaces");
    reveal_strlit("workspace");
    crate::layout::lemma_keyword_plain(scope_name(scope));
    assert("panes"@.len() == 5 && "pane"@.len() == 4 && "agents"@.len() == 6 && "agent"@.len() == 5);
    assert("tabs"@.len() == 4 && "tab"@.len() == 3 && "workspaces"@.len() == 10);
    assert("tabs"@[0] != "pane"@[0]);
}

/// Tab visits every scope and comes back round after four presses.
pub proof fn lemma_scope_cycle(scope: Scope)
    ensures
        scope_after(scope_after(scope_after(scope_after(scope)))) == scope,
        scope_after(scope) != scope,
{
}

/// What a picked id names, read from the letter after its colon.
#[derive(Debug, Clone, Copy, PartialEq, Eq, Structural)]
pub enum Target {
    Pane,
    Tab,
    Workspace,
}

/// Index of the first colon at or after `i`.
pub open spec fn colon_from(s: Seq<char>, i: int) -> Option<int>
    decreases s.len() - i,
{
    if 0 <= i < s.len() {
        if s[i] == ':' {
            Some(i)
        } else {
            colon_from(s, i + 1)
        }
    } else {
        None
    }
}

pub open spec fn target_of(id: Seq<char>) -> Target {
    match colon_from(id, 0) {
        Some(c) => if c + 1 < id.len() && id[c + 1] == 'p' {
            Target::Pane
        } else if c + 1 < id.len() && id[c + 1] == 't' {
            Target::Tab
        } else {
            Target::Workspace
        },
        None => Target::Workspace,
    }
}

/// Whether an id picked from the list is a pane (`w1:p3`), a tab (`w1:t2`)
/// or, failing both, a workspace; the jump focuses whichever it is.
pub fn target(id: &str) -> (r: Target)
    ensures
        r == target_of(id@),
{
    let cs = crate::text::chars_of(id);
    let mut i: usize = 0;
    while i < cs.len()
        invariant
            cs@ == id@,
            i <= cs@.len(),
            colon_from(id@, 0) == colon_from(id@, i as int),
        decreases cs@.len() - i,
    {
        if cs[i] == ':' {
            if i + 1 < cs.len() && cs[i + 1] == 'p' {
                return Target::Pane;
            } else if i + 1 < cs.len() && cs[i + 1] == 't' {
                return Target::Tab;
            } else {
                return Target::Workspace;
            }
        }
        i = i + 1;
    }
    Target::Workspace
}

} // verus!
