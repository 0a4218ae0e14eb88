//! Active Agent Gather: which agents to collect, in what order, how many to
//! a tab and in what arrangement, and the record of where they came from.
use vstd::prelude::*;

use crate::layout::{string_views, Placement, Plan, Side, Step};
use crate::model::{status_priority, Agent, AgentStatus};
use crate::place::Origin;
use crate::pm_config::GatherConfig;
use crate::text::{eq_ignore_ascii_case, keyword, keyword_of, same_ignoring_ascii_case, spells};

verus! {

// ---------------------------------------------------------------------------
// Group size and grouping
// ---------------------------------------------------------------------------

/// How many agent panes go in one Gather tab: 2, 3 or 4.
#[derive(Debug, Clone, Copy, PartialEq, Eq)]
pub struct PanesPerTab(u8);

impl PanesPerTab {
    #[verifier::type_invariant]
    spec fn supported(self) -> bool {
        2 <= self.0 <= 4
    }

    /// The group size.
    pub closed spec fn size(self) -> u8 {
        self.0
    }

    /// Only 2, 3 and 4 have a defined layout.
    pub fn new(value: u8) -> (r: Option<Self>)
        ensures
            r is Some <==> 2 <= value <= 4,
            r matches Some(p) ==> p.size() == value,
    {
        if 2 <= value && value <= 4 {
            Some(PanesPerTab(value))
        } else {
            None
        }
    }

    pub fn get(self) -> (r: usize)
        ensures
            r == self.size(),
            2 <= r <= 4,
    {
        proof {
            use_type_invariant(&self);
        }
        self.0 as usize
    }

    /// The three supported sizes.
    pub fn all() -> (r: [PanesPerTab; 3])
        ensures
            r@.len() == 3,
            r@[0].size() == 2,
            r@[1].size() == 3,
            r@[2].size() == 4,
    {
        [PanesPerTab(2), PanesPerTab(3), PanesPerTab(4)]
    }
}

impl Default for PanesPerTab {
    fn default() -> (r: Self)
        ensures
            r.size() == 4,
    {
        PanesPerTab(4)
    }
}

/// `s` cut into consecutive groups of `n`, the last taking the remainder.
pub open spec fn chunks_of(s: Seq<Seq<char>>, n: nat) -> Seq<Seq<Seq<char>>>
    decreases s.len(),
{
    if s.len() == 0 || n == 0 {
        Seq::empty()
    } else if s.len() <= n {
        seq![s]
    } else {
        seq![s.take(n as int)] + chunks_of(s.skip(n as int), n)
    }
}

/// All groups laid end to end.
pub open spec fn flatten(g: Seq<Seq<Seq<char>>>) -> Seq<Seq<char>>
    decreases g.len(),
{
    if g.len() == 0 {
        Seq::empty()
    } else {
        g[0] + flatten(g.drop_first())
    }
}

pub open spec fn group_views(v: Seq<Vec<String>>) -> Seq<Seq<Seq<char>>> {
    v.map_values(|g: Vec<String>| string_views(g@))
}

/// **Law.** Grouping keeps every pane, in priority order, and every group
/// but the last is full while the last holds between one and `n`.
pub proof fn lemma_chunks(s: Seq<Seq<char>>, n: nat)
    requires
        n > 0,
    ensures
        flatten(chunks_of(s, n)) == s,
        forall|k: int| 0 <= k < chunks_of(s, n).len() - 1 ==> (#[trigger] chunks_of(s, n)[k]).len() == n,
        chunks_of(s, n).len() > 0 ==> 0 < chunks_of(s, n).last().len() <= n,
        chunks_of(s, n).len() == 0 <==> s.len() == 0,
    decreases s.len(),
{
    if s.len() == 0 {
    } else if s.len() <= n {
        assert(flatten(seq![s]) == s + flatten(seq![s].drop_first()));
        assert(seq![s].drop_first() =~= Seq::<Seq<Seq<char>>>::empty());
        assert(s + Seq::<Seq<char>>::empty() =~= s);
    } else {
        let rest = chunks_of(s.skip(n as int), n);
        lemma_chunks(s.skip(n as int), n);
        let g = seq![s.take(n as int)] + rest;
        assert(g.drop_first() =~= rest);
        assert(g[0] == s.take(n as int));
        assert(s.take(n as int) + s.skip(n as int) =~= s);
        assert forall|k: int| 0 <= k < g.len() - 1 implies (#[trigger] g[k]).len() == n by {
            if k > 0 {
                assert(g[k] == rest[k - 1]);
            }
        }
        assert(g.last() == rest.last());
    }
}

/// Split `panes` into per-tab groups, keeping priority order.
///
/// The last group takes the remainder, so seven agents at four per tab
/// become four and three rather than four, two and one.
pub fn chunk(panes: &[String], per_tab: PanesPerTab) -> (r: Vec<Vec<String>>)
    ensures
        group_views(r@) == chunks_of(string_views(panes@), per_tab.size() as nat),
{
    let n = per_tab.get();
    let mut out: Vec<Vec<String>> = Vec::new();
    let mut start: usize = 0;
    let ghost all = string_views(panes@);
    proof {
        assert(all.skip(0) =~= all);
        assert(group_views(out@) + chunks_of(all.skip(0), n as nat) =~= chunks_of(all, n as nat));
    }
    while start < panes.len()
        invariant
            2 <= n <= 4,
            n == per_tab.size(),
            all == string_views(panes@),
            start <= panes@.len(),
            group_views(out@) + chunks_of(all.skip(start as int), n as nat) == chunks_of(all, n as nat),
        decreases panes@.len() - start,
    {
        let end = if panes.len() - start <= n {
            panes.len()
        } else {
            start + n
        };
        let mut group: Vec<String> = Vec::new();
        let mut k: usize = start;
        while k < end
            invariant
                start <= k <= end <= panes@.len(),
                string_views(group@) == all.subrange(start as int, k as int),
                all == string_views(panes@),
            decreases end - k,
        {
            group.push(panes[k].clone());
            proof {
                assert(all.subrange(start as int, k + 1) =~= all.subrange(start as int, k as int).push(
                    all[k as int],
                ));
                assert(string_views(group@) =~= all.subrange(start as int, k + 1));
            }
            k = k + 1;
        }
        let ghost rest = all.skip(start as int);
        proof {
            if end == panes.len() {
                assert(rest.len() <= n);
                assert(all.subrange(start as int, end as int) =~= rest);
                assert(chunks_of(rest, n as nat) == seq![rest]);
                assert(all.skip(end as int).len() == 0);
            } else {
                assert(all.subrange(start as int, end as int) =~= rest.take(n as int));
                assert(rest.skip(n as int) =~= all.skip(end as int));
            }
        }
        let ghost before = out@;
        out.push(group);
        proof {
            assert(group_views(out@) =~= group_views(before).push(all.subrange(start as int, end as int)));
            if end == panes.len() {
                assert(chunks_of(all.skip(end as int), n as nat) =~= Seq::<Seq<Seq<char>>>::empty());
                assert(group_views(out@) + chunks_of(all.skip(end as int), n as nat) =~= group_views(before)
                    + chunks_of(rest, n as nat));
            } else {
                assert(group_views(out@) + chunks_of(all.skip(end as int), n as nat) =~= group_views(before)
                    + chunks_of(rest, n as nat));
            }
        }
        start = end;
    }
    proof {
        assert(all.skip(start as int).len() == 0);
        assert(group_views(out@) + chunks_of(all.skip(start as int), n as nat) =~= group_views(out@));
    }
    out
}

fn place(pane_id: &String, anchor: &String, side: Side) -> (r: Placement)
    ensures
        r.pane_id@ == pane_id@,
        r.anchor@ == anchor@,
        r.side == side,
{
    Placement { pane_id: pane_id.clone(), anchor: anchor.clone(), side }
}

/// The arrangement for one Gather tab, in priority order.
pub open spec fn gather_steps(p: Seq<Seq<char>>) -> Seq<Step> {
    if p.len() <= 1 {
        Seq::empty()
    } else if p.len() == 2 {
        seq![Step { pane: p[1], anchor: p[0], side: Side::Right }]
    } else if p.len() == 3 {
        seq![
            Step { pane: p[1], anchor: p[0], side: Side::Right },
            Step { pane: p[2], anchor: p[1], side: Side::Down },
        ]
    } else if p.len() == 4 {
        seq![
            Step { pane: p[1], anchor: p[0], side: Side::Right },
            Step { pane: p[2], anchor: p[0], side: Side::Down },
            Step { pane: p[3], anchor: p[1], side: Side::Down },
        ]
    } else {
        Seq::new((p.len() - 1) as nat, |i: int| Step { pane: p[i + 1], anchor: p[i], side: Side::Right })
    }
}

/// The arrangement for one Gather tab, in priority order.
///
/// * 2: side by side.
/// * 3: the top agent down the left, the other two stacked on the right.
/// * 4: a 2x2 grid filled left to right, top to bottom.
///
/// More than four is handled as a row, so nothing is ever dropped.
pub fn plan(panes: &[String]) -> (r: Option<Plan>)
    ensures
        r is Some <==> panes@.len() > 0,
        r matches Some(p) ==> p.anchor@ == panes@[0]@ && p.steps() == gather_steps(string_views(panes@)),
{
    if panes.len() == 0 {
        return None;
    }
    let ghost v = string_views(panes@);
    let anchor = panes[0].clone();
    let mut placements: Vec<Placement> = Vec::new();
    let n = panes.len();
    if n == 2 {
        placements.push(place(&panes[1], &panes[0], Side::Right));
        proof {
            assert(crate::layout::steps_of(placements@) =~= gather_steps(v));
        }
    } else if n == 3 {
        placements.push(place(&panes[1], &panes[0], Side::Right));
        placements.push(place(&panes[2], &panes[1], Side::Down));
        proof {
            assert(crate::layout::steps_of(placements@) =~= gather_steps(v));
        }
    } else if n == 4 {
        placements.push(place(&panes[1], &panes[0], Side::Right));
        placements.push(place(&panes[2], &panes[0], Side::Down));
        placements.push(place(&panes[3], &panes[1], Side::Down));
        proof {
            assert(crate::layout::steps_of(placements@) =~= gather_steps(v));
        }
    } else if n > 4 {
        let mut i: usize = 1;
        while i < n
            invariant
                n == panes@.len(),
                n > 4,
                1 <= i <= n,
                v == string_views(panes@),
                crate::layout::steps_of(placements@) =~= Seq::new(
                    (i - 1) as nat,
                    |k: int| Step { pane: v[k + 1], anchor: v[k], side: Side::Right },
                ),
            decreases n - i,
        {
            let ghost before = placements@;
            placements.push(place(&panes[i], &panes[i - 1], Side::Right));
            proof {
                assert(crate::layout::steps_of(placements@) =~= crate::layout::steps_of(before).push(
                    Step { pane: v[i as int], anchor: v[i - 1], side: Side::Right },
                ));
            }
            i = i + 1;
        }
    } else {
        proof {
            assert(crate::layout::steps_of(placements@) =~= gather_steps(v));
        }
    }
    Some(Plan { anchor, placements })
}

// ---------------------------------------------------------------------------
// Choosing agents
// ---------------------------------------------------------------------------

/// How far Gather looks for agents.
#[derive(Debug, Clone, Copy, PartialEq, Eq, Structural)]
pub enum Scope {
    CurrentWorkspace,
    AllWorkspaces,
}

pub open spec fn scope_named(raw: Seq<char>) -> Option<Scope> {
    let k = keyword(raw);
    if k == "workspace"@ || k == "current"@ || k == "current-workspace"@ || k == "w"@ {
        Some(Scope::CurrentWorkspace)
    } else if k == "all"@ || k == "all-workspaces"@ || k == "a"@ {
        Some(Scope::AllWorkspaces)
    } else {
        None
    }
}

pub open spec fn scope_name(s: Scope) -> Seq<char> {
    match s {
        Scope::CurrentWorkspace => "workspace"@,
        Scope::AllWorkspaces => "all"@,
    }
}

impl Scope {
    pub fn as_str(self) -> (r: &'static str)
        ensures
            r@ == scope_name(self),
    {
        match self {
            Scope::CurrentWorkspace => "workspace",
            Scope::AllWorkspaces => "all",
        }
    }

    pub fn label(self) -> (r: &'static str)
        ensures
            r@ == (match self {
                Scope::CurrentWorkspace => "Current Workspace"@,
                Scope::AllWorkspaces => "All Workspaces"@,
            }),
    {
        match self {
            Scope::CurrentWorkspace => "Current Workspace",
            Scope::AllWorkspaces => "All Workspaces",
        }
    }

    pub fn parse(raw: &str) -> (r: Option<Self>)
        ensures
            r == scope_named(raw@),
    {
        let k = keyword_of(raw);
        if spells(&k, "workspace") || spells(&k, "current") || spells(&k, "current-workspace")
            || spells(&k, "w") {
            Some(Scope::CurrentWorkspace)
        } else if spells(&k, "all") || spells(&k, "all-workspaces") || spells(&k, "a") {
            Some(Scope::AllWorkspaces)
        } else {
            None
        }
    }
}

/// **Law.** Every scope reads back from its own name.
pub proof fn lemma_scope_round_trip(scope: Scope)
    ensures
        scope_named(scope_name(scope)) == Some(scope),
{
    reveal_strlit("workspace");
    reveal_strlit("all");
    reveal_strlit("current");
    reveal_strlit("current-workspace");
    reveal_strlit("w");
    let s = scope_name(scope);
    crate::layout::lemma_keyword_plain(s);
    assert("all"@.len() == 3 && "workspace"@.len() == 9 && "current"@.len() == 7);
    assert("current-workspace"@.len() == 17 && "w"@.len() == 1);
}

/// Statuses Gather collects unless configured otherwise.
pub fn default_statuses() -> (r: Vec<AgentStatus>)
    ensures
        r@ == seq![AgentStatus::Blocked, AgentStatus::Done, AgentStatus::Working],
{
    let mut v: Vec<AgentStatus> = Vec::new();
    v.push(AgentStatus::Blocked);
    v.push(AgentStatus::Done);
    v.push(AgentStatus::Working);
    v
}

/// An empty `agents` list means every agent kind.
pub open spec fn kind_allowed_spec(agent: Agent, kinds: Seq<String>) -> bool {
    kinds.len() == 0 || (agent.agent is Some && exists|i: int|
        0 <= i < kinds.len() && eq_ignore_ascii_case(#[trigger] kinds[i]@, agent.agent->0@))
}

/// Whether the configuration's agent filter lets this agent's kind through.
pub fn kind_allowed(agent: &Agent, config: &GatherConfig) -> (r: bool)
    ensures
        r == kind_allowed_spec(*agent, config.agents@),
{
    if config.agents.len() == 0 {
        return true;
    }
    let kind = match &agent.agent {
        Some(k) => k,
        None => return false,
    };
    let mut i: usize = 0;
    while i < config.agents.len()
        invariant
            config.agents@.len() > 0,
            agent.agent == Some(*kind),
            i <= config.agents@.len(),
            forall|k: int| 0 <= k < i ==> !eq_ignore_ascii_case(#[trigger] config.agents@[k]@, kind@),
        decreases config.agents@.len() - i,
    {
        if same_ignoring_ascii_case(config.agents[i].as_str(), kind.as_str()) {
            return true;
        }
        i = i + 1;
    }
    false
}

/// Whether an agent is worth gathering.
pub open spec fn wanted(agent: Agent, config: GatherConfig, workspace: Option<Seq<char>>) -> bool {
    &&& config.statuses@.contains(agent.agent_status)
    &&& match workspace {
        Some(w) => agent.workspace_id@ == w,
        None => true,
    }
    &&& kind_allowed_spec(agent, config.agents@)
}

/// Lexicographic order on characters by code point, which is `String`'s
/// byte order.
pub open spec fn text_lt(a: Seq<char>, b: Seq<char>) -> bool
    decreases a.len(),
{
    if b.len() == 0 {
        false
    } else if a.len() == 0 {
        true
    } else if a[0] != b[0] {
        (a[0] as u32) < (b[0] as u32)
    } else {
        text_lt(a.drop_first(), b.drop_first())
    }
}

/// Whether `a` is ordered strictly before `b`: more urgent status first,
/// then the most recently changed, then by pane id.
pub open spec fn before(a: Agent, b: Agent) -> bool {
    let pa = status_priority(a.agent_status);
    let pb = status_priority(b.agent_status);
    if pa != pb {
        pa < pb
    } else if a.state_change_seq != b.state_change_seq {
        a.state_change_seq > b.state_change_seq
    } else {
        text_lt(a.pane_id@, b.pane_id@)
    }
}

/// Where a stable insertion puts `x`: before the first element it precedes.
pub open spec fn insert_at(s: Seq<Agent>, x: Agent, i: int) -> int
    decreases s.len() - i,
{
    if i < 0 || i >= s.len() {
        s.len() as int
    } else if before(x, s[i]) {
        i
    } else {
        insert_at(s, x, i + 1)
    }
}

/// Stable sort by [`before`].
pub open spec fn sorted_agents(s: Seq<Agent>) -> Seq<Agent>
    decreases s.len(),
{
    if s.len() == 0 {
        s
    } else {
        let t = sorted_agents(s.drop_last());
        t.insert(insert_at(t, s.last(), 0), s.last())
    }
}

/// The agents worth gathering among the first `n`, in list order.
pub open spec fn wanted_upto(
    agents: Seq<Agent>,
    config: GatherConfig,
    workspace: Option<Seq<char>>,
    n: int,
) -> Seq<Agent>
    decreases n,
{
    if n <= 0 {
        Seq::empty()
    } else if wanted(agents[n - 1], config, workspace) {
        wanted_upto(agents, config, workspace, n - 1).push(agents[n - 1])
    } else {
        wanted_upto(agents, config, workspace, n - 1)
    }
}

/// Agents worth gathering, most urgent first.
pub open spec fn selection(agents: Seq<Agent>, config: GatherConfig, workspace: Option<Seq<char>>) -> Seq<
    Agent,
> {
    sorted_agents(wanted_upto(agents, config, workspace, agents.len() as int))
}

/// `text_lt` on strings.
pub fn text_less(a: &str, b: &str) -> (r: bool)
    ensures
        r == text_lt(a@, b@),
{
    let x = crate::text::chars_of(a);
    let y = crate::text::chars_of(b);
    let mut i: usize = 0;
    proof {
        assert(x@.skip(0) =~= x@);
        assert(y@.skip(0) =~= y@);
    }
    while i < x.len() && i < y.len() && x[i] == y[i]
        invariant
            x@ == a@,
            y@ == b@,
            i <= x@.len(),
            i <= y@.len(),
            text_lt(x@.skip(i as int), y@.skip(i as int)) == text_lt(a@, b@),
        decreases x@.len() - i,
    {
        proof {
            assert(x@.skip(i as int).drop_first() =~= x@.skip(i + 1));
            assert(y@.skip(i as int).drop_first() =~= y@.skip(i + 1));
        }
        i = i + 1;
    }
    proof {
        assert(x@.skip(0) =~= x@);
        assert(y@.skip(0) =~= y@);
    }
    if i >= y.len() {
        proof {
            assert(y@.skip(i as int).len() == 0);
        }
        false
    } else if i >= x.len() {
        proof {
            assert(x@.skip(i as int).len() == 0);
        }
        true
    } else {
        proof {
            assert(x@.skip(i as int)[0] == x@[i as int]);
            assert(y@.skip(i as int)[0] == y@[i as int]);
        }
        (x[i] as u32) < (y[i] as u32)
    }
}

fn precedes(a: &Agent, b: &Agent) -> (r: bool)
    ensures
        r == before(*a, *b),
{
    let pa = a.agent_status.priority();
    let pb = b.agent_status.priority();
    if pa != pb {
        pa < pb
    } else if a.state_change_seq != b.state_change_seq {
        a.state_change_seq > b.state_change_seq
    } else {
        text_less(a.pane_id.as_str(), b.pane_id.as_str())
    }
}

fn copy_opt(o: &Option<String>) -> (r: Option<String>)
    ensures
        r == *o,
{
    match o {
        Some(s) => Some(s.clone()),
        None => None,
    }
}

impl Agent {
    /// An exact copy.
    pub fn duplicate(&self) -> (r: Agent)
        ensures
            r == *self,
    {
        Agent {
            pane_id: self.pane_id.clone(),
            tab_id: self.tab_id.clone(),
            workspace_id: self.workspace_id.clone(),
            agent: copy_opt(&self.agent),
            agent_status: self.agent_status,
            state_change_seq: self.state_change_seq,
        }
    }
}

fn status_in(statuses: &Vec<AgentStatus>, s: AgentStatus) -> (r: bool)
    ensures
        r == statuses@.contains(s),
{
    let mut i: usize = 0;
    while i < statuses.len()
        invariant
            i <= statuses@.len(),
            forall|k: int| 0 <= k < i ==> statuses@[k] != s,
        decreases statuses@.len() - i,
    {
        if statuses[i] == s {
            proof {
                assert(statuses@[i as int] == s);
            }
            return true;
        }
        i = i + 1;
    }
    false
}

/// Agents worth gathering, most urgent first.
///
/// Selection is by status and optionally by agent kind; panes without a
/// detected agent never appear, because they are not in `agent.list` at
/// all. Order is `blocked`, `done`, `working`, anything else; within a
/// status the most recently changed first, and `pane_id` breaks the
/// remaining ties so two runs over unchanged state produce the same layout.
pub fn select(agents: &[Agent], config: &GatherConfig, workspace: Option<&str>) -> (r: Vec<Agent>)
    ensures
        r@ == selection(
            agents@,
            *config,
            match workspace {
                Some(w) => Some(w@),
                None => None,
            },
        ),
{
    let ghost ws = match workspace {
        Some(w) => Some(w@),
        None => None,
    };
    let mut chosen: Vec<Agent> = Vec::new();
    let mut i: usize = 0;
    while i < agents.len()
        invariant
            i <= agents@.len(),
            ws == (match workspace {
                Some(w) => Some(w@),
                None => None,
            }),
            chosen@ == sorted_agents(wanted_upto(agents@, *config, ws, i as int)),
        decreases agents@.len() - i,
    {
        let agent = &agents[i];
        let in_workspace = match workspace {
            Some(w) => crate::text::same_text(agent.workspace_id.as_str(), w),
            None => true,
        };
        if status_in(&config.statuses, agent.agent_status) && in_workspace && kind_allowed(
            agent,
            config,
        ) {
            let ghost t = chosen@;
            let mut at: usize = 0;
            while at < chosen.len() && !precedes(agent, &chosen[at])
                invariant
                    i < agents@.len(),
                    *agent == agents@[i as int],
                    chosen@ == t,
                    at <= t.len(),
                    insert_at(t, agents@[i as int], at as int) == insert_at(t, agents@[i as int], 0),
                decreases t.len() - at,
            {
                at = at + 1;
            }
            proof {
                assert(insert_at(t, agents@[i as int], at as int) == at);
                let w = wanted_upto(agents@, *config, ws, i + 1);
                assert(w == wanted_upto(agents@, *config, ws, i as int).push(agents@[i as int]));
                assert(w.drop_last() =~= wanted_upto(agents@, *config, ws, i as int));
            }
            chosen.insert(at, agent.duplicate());
        }
        i = i + 1;
    }
    chosen
}

/// The agent a Gather run should focus afterwards: the first, most urgent.
pub fn highest_priority(agents: &[Agent]) -> (r: Option<&Agent>)
    ensures
        r is Some <==> agents@.len() > 0,
        r matches Some(a) ==> *a == agents@[0],
{
    if agents.len() == 0 {
        None
    } else {
        Some(&agents[0])
    }
}

// ---------------------------------------------------------------------------
// The session record
// ---------------------------------------------------------------------------

/// One Gather run, as it stands right now.
#[derive(Debug, Clone)]
pub struct Session {
    /// Where each gathered pane came from.
    pub origins: Vec<Origin>,
    /// Tabs Gather created, so Refresh can reuse them and Restore can tidy up.
    pub gather_tabs: Vec<String>,
    pub scope: String,
    pub panes_per_tab: u8,
    pub created_unix_ms: u64,
}

impl Default for Session {
    fn default() -> (r: Self)
        ensures
            r.origins@.len() == 0,
            r.gather_tabs@.len() == 0,
            r.scope@.len() == 0,
            r.panes_per_tab == 0,
            r.created_unix_ms == 0,
    {
        Session {
            origins: Vec::new(),
            gather_tabs: Vec::new(),
            scope: String::new(),
            panes_per_tab: 0,
            created_unix_ms: 0,
        }
    }
}

pub open spec fn origin_ids(o: Seq<Origin>) -> Seq<Seq<char>> {
    o.map_values(|x: Origin| x.pane_id@)
}

/// The origins whose pane is not named in `keep`, in record order.
pub open spec fn others_upto(o: Seq<Origin>, keep: Seq<Seq<char>>, n: int) -> Seq<Origin>
    decreases n,
{
    if n <= 0 {
        Seq::empty()
    } else if !keep.contains(o[n - 1].pane_id@) {
        others_upto(o, keep, n - 1).push(o[n - 1])
    } else {
        others_upto(o, keep, n - 1)
    }
}

/// The origins not for pane `id`, in record order.
pub open spec fn forget_upto(o: Seq<Origin>, id: Seq<char>, n: int) -> Seq<Origin>
    decreases n,
{
    if n <= 0 {
        Seq::empty()
    } else if o[n - 1].pane_id@ != id {
        forget_upto(o, id, n - 1).push(o[n - 1])
    } else {
        forget_upto(o, id, n - 1)
    }
}

fn contains_text(v: &Vec<String>, x: &String) -> (r: bool)
    ensures
        r == string_views(v@).contains(x@),
{
    let mut i: usize = 0;
    while i < v.len()
        invariant
            i <= v@.len(),
            forall|k: int| 0 <= k < i ==> v@[k]@ != x@,
        decreases v@.len() - i,
    {
        if v[i] == *x {
            proof {
                assert(string_views(v@)[i as int] == x@);
            }
            return true;
        }
        i = i + 1;
    }
    proof {
        if string_views(v@).contains(x@) {
            let k = choose|k: int| 0 <= k < string_views(v@).len() && string_views(v@)[k] == x@;
            assert(v@[k]@ == x@);
        }
    }
    false
}

impl Session {
    pub fn is_empty(&self) -> (r: bool)
        ensures
            r == (self.origins@.len() == 0),
    {
        self.origins.len() == 0
    }

    /// The gathered panes, in record order.
    pub fn pane_ids(&self) -> (r: Vec<String>)
        ensures
            string_views(r@) == origin_ids(self.origins@),
    {
        let mut out: Vec<String> = Vec::new();
        let mut i: usize = 0;
        while i < self.origins.len()
            invariant
                i <= self.origins@.len(),
                string_views(out@) == origin_ids(self.origins@.take(i as int)),
            decreases self.origins@.len() - i,
        {
            out.push(self.origins[i].pane_id.clone());
            proof {
                assert(origin_ids(self.origins@.take(i + 1)) =~= origin_ids(self.origins@.take(i as int)).push(
                    self.origins@[i as int].pane_id@,
                ));
                assert(string_views(out@) =~= origin_ids(self.origins@.take(i + 1)));
            }
            i = i + 1;
        }
        proof {
            assert(self.origins@.take(self.origins@.len() as int) =~= self.origins@);
        }
        out
    }

    /// Whether the record holds an origin for this pane.
    pub fn contains(&self, pane_id: &str) -> (r: bool)
        ensures
            r == origin_ids(self.origins@).contains(pane_id@),
    {
        let mut i: usize = 0;
        while i < self.origins.len()
            invariant
                i <= self.origins@.len(),
                forall|k: int| 0 <= k < i ==> self.origins@[k].pane_id@ != pane_id@,
            decreases self.origins@.len() - i,
        {
            if crate::text::same_text(self.origins[i].pane_id.as_str(), pane_id) {
                proof {
                    assert(origin_ids(self.origins@)[i as int] == pane_id@);
                }
                return true;
            }
            i = i + 1;
        }
        proof {
            if origin_ids(self.origins@).contains(pane_id@) {
                let k = choose|k: int|
                    0 <= k < origin_ids(self.origins@).len() && origin_ids(self.origins@)[k] == pane_id@;
                assert(self.origins@[k].pane_id@ == pane_id@);
            }
        }
        false
    }

    /// Origins for panes that are no longer wanted, in record order.
    pub fn origins_other_than(&self, keep: &[String]) -> (r: Vec<Origin>)
        ensures
            r@ == others_upto(self.origins@, string_views(keep@), self.origins@.len() as int),
    {
        let keepv = crate::place::copy_strings(keep);
        let mut out: Vec<Origin> = Vec::new();
        let mut i: usize = 0;
        while i < self.origins.len()
            invariant
                i <= self.origins@.len(),
                string_views(keepv@) == string_views(keep@),
                out@ == others_upto(self.origins@, string_views(keep@), i as int),
            decreases self.origins@.len() - i,
        {
            if !contains_text(&keepv, &self.origins[i].pane_id) {
                out.push(self.origins[i].duplicate());
            }
            i = i + 1;
        }
        out
    }

    /// Drop a pane from the record, e.g. once it has been put back.
    pub fn forget(&mut self, pane_id: &str)
        ensures
            final(self).origins@ == forget_upto(old(self).origins@, pane_id@, old(self).origins@.len() as int),
            final(self).gather_tabs == old(self).gather_tabs,
            final(self).scope == old(self).scope,
            final(self).panes_per_tab == old(self).panes_per_tab,
            final(self).created_unix_ms == old(self).created_unix_ms,
    {
        let mut kept: Vec<Origin> = Vec::new();
        let mut i: usize = 0;
        while i < self.origins.len()
            invariant
                i <= self.origins@.len(),
                self.origins@ == old(self).origins@,
                kept@ == forget_upto(self.origins@, pane_id@, i as int),
            decreases self.origins@.len() - i,
        {
            if !crate::text::same_text(self.origins[i].pane_id.as_str(), pane_id) {
                kept.push(self.origins[i].duplicate());
            }
            i = i + 1;
        }
        self.origins = kept;
    }
}

/// **Law.** Forgetting a pane removes exactly the records of that pane:
/// no record of it is left, and every other record stays, in order.
pub proof fn lemma_forget(o: Seq<Origin>, id: Seq<char>, n: int)
    requires
        0 <= n <= o.len(),
    ensures
        !origin_ids(forget_upto(o, id, n)).contains(id),
        forall|k: int| 0 <= k < n && o[k].pane_id@ != id ==> forget_upto(o, id, n).contains(#[trigger] o[k]),
        forall|x: Origin| #[trigger] forget_upto(o, id, n).contains(x) ==> o.take(n).contains(x) && x.pane_id@ != id,
    decreases n,
{
    if n > 0 {
        lemma_forget(o, id, n - 1);
        let prev = forget_upto(o, id, n - 1);
        let cur = forget_upto(o, id, n);
        assert(o.take(n - 1) =~= o.take(n).drop_last());
        if o[n - 1].pane_id@ != id {
            assert(cur == prev.push(o[n - 1]));
            assert(origin_ids(cur) =~= origin_ids(prev).push(o[n - 1].pane_id@));
            assert forall|k: int| 0 <= k < n && o[k].pane_id@ != id implies cur.contains(#[trigger] o[k]) by {
                if k < n - 1 {
                    assert(prev.contains(o[k]));
                    let j = choose|j: int| 0 <= j < prev.len() && prev[j] == o[k];
                    assert(cur[j] == o[k]);
                } else {
                    assert(cur[prev.len() as int] == o[k]);
                }
            }
            assert forall|x: Origin| #[trigger] cur.contains(x) implies o.take(n).contains(x) && x.pane_id@ != id by {
                let j = choose|j: int| 0 <= j < cur.len() && cur[j] == x;
                if j < prev.len() {
                    assert(prev[j] == x);
                    assert(prev.contains(x));
                    let m = choose|m: int| 0 <= m < o.take(n - 1).len() && #[trigger] o.take(n - 1)[m] == x;
                    assert(o.take(n)[m] == x);
                } else {
                    assert(o.take(n)[n - 1] == x);
                }
            }
            if origin_ids(cur).contains(id) {
                let j = choose|j: int| 0 <= j < origin_ids(cur).len() && origin_ids(cur)[j] == id;
                if j < prev.len() {
                    assert(origin_ids(prev)[j] == id);
                }
            }
        } else {
            assert(cur == prev);
            assert forall|k: int| 0 <= k < n && o[k].pane_id@ != id implies cur.contains(#[trigger] o[k]) by {
                assert(k < n - 1);
            }
            assert forall|x: Origin| #[trigger] cur.contains(x) implies o.take(n).contains(x) && x.pane_id@ != id by {
                let m = choose|m: int| 0 <= m < o.take(n - 1).len() && #[trigger] o.take(n - 1)[m] == x;
                assert(o.take(n)[m] == x);
            }
        }
    }
}

} // verus!
