//! The subset of the Herdr API model the plugins read.
//!
//! Only fields actually used are declared. A split's ratio travels as the
//! bit pattern of the `f32` Herdr sends (`f32::to_bits`), so the tree can be
//! carried and compared exactly without arithmetic on floats.
use vstd::prelude::*;

use crate::text::{keyword, keyword_of, spells};

verus! {

/// Agent lifecycle state (`AgentStatus`).
#[derive(Debug, Clone, Copy, PartialEq, Eq, Structural)]
pub enum AgentStatus {
    Working,
    Blocked,
    Done,
    Idle,
    Unknown,
}

pub open spec fn status_glyph(s: AgentStatus) -> char {
    match s {
        AgentStatus::Working => '●',
        AgentStatus::Blocked => '!',
        AgentStatus::Done => '✓',
        AgentStatus::Idle => '○',
        AgentStatus::Unknown => '?',
    }
}

pub open spec fn status_priority(s: AgentStatus) -> u8 {
    match s {
        AgentStatus::Blocked => 0,
        AgentStatus::Done => 1,
        AgentStatus::Working => 2,
        AgentStatus::Idle => 3,
        AgentStatus::Unknown => 4,
    }
}

impl AgentStatus {
    /// Glyph used in pickers.
    pub fn glyph(self) -> (r: char)
        ensures
            r == status_glyph(self),
    {
        match self {
            AgentStatus::Working => '●',
            AgentStatus::Blocked => '!',
            AgentStatus::Done => '✓',
            AgentStatus::Idle => '○',
            AgentStatus::Unknown => '?',
        }
    }

    pub open spec fn label_spec(self) -> Seq<char> {
        match self {
            AgentStatus::Working => "working"@,
            AgentStatus::Blocked => "blocked"@,
            AgentStatus::Done => "done"@,
            AgentStatus::Idle => "idle"@,
            AgentStatus::Unknown => "unknown"@,
        }
    }

    pub fn label(self) -> (r: &'static str)
        ensures
            r@ == self.label_spec(),
    {
        match self {
            AgentStatus::Working => "working",
            AgentStatus::Blocked => "blocked",
            AgentStatus::Done => "done",
            AgentStatus::Idle => "idle",
            AgentStatus::Unknown => "unknown",
        }
    }

    /// Sort key putting the agents that need a human first.
    pub fn priority(self) -> (r: u8)
        ensures
            r == status_priority(self),
    {
        match self {
            AgentStatus::Blocked => 0,
            AgentStatus::Done => 1,
            AgentStatus::Working => 2,
            AgentStatus::Idle => 3,
            AgentStatus::Unknown => 4,
        }
    }
}

impl Default for AgentStatus {
    fn default() -> (r: Self)
        ensures
            r == AgentStatus::Unknown,
    {
        AgentStatus::Unknown
    }
}

/// A pane, as `pane.list` / `pane.get` report it.
#[derive(Debug, Clone)]
pub struct Pane {
    pub pane_id: String,
    pub tab_id: String,
    pub workspace_id: String,
    pub focused: bool,
    /// User-assigned pane label (`herdr pane rename`).
    pub label: Option<String>,
    /// Detected agent kind, e.g. `goose`, `aider`.
    pub agent: Option<String>,
    /// Display override reported via `pane report-metadata`.
    pub display_agent: Option<String>,
    pub agent_status: AgentStatus,
    pub cwd: Option<String>,
    pub foreground_cwd: Option<String>,
    pub terminal_title: Option<String>,
    pub terminal_title_stripped: Option<String>,
}

impl Default for Pane {
    fn default() -> (r: Self)
        ensures
            r.pane_id@.len() == 0,
            r.tab_id@.len() == 0,
            r.workspace_id@.len() == 0,
            !r.focused,
            r.label is None,
            r.agent is None,
            r.display_agent is None,
            r.agent_status == AgentStatus::Unknown,
            r.cwd is None,
            r.foreground_cwd is None,
            r.terminal_title is None,
            r.terminal_title_stripped is None,
    {
        Pane {
            pane_id: String::new(),
            tab_id: String::new(),
            workspace_id: String::new(),
            focused: false,
            label: None,
            agent: None,
            display_agent: None,
            agent_status: AgentStatus::Unknown,
            cwd: None,
            foreground_cwd: None,
            terminal_title: None,
            terminal_title_stripped: None,
        }
    }
}

/// A tab, as `tab.list` / `tab.get` report it.
#[derive(Debug, Clone)]
pub struct Tab {
    pub tab_id: String,
    pub workspace_id: String,
    /// Display label. Unnamed tabs report their public number as a string.
    pub label: Option<String>,
    pub pane_count: u32,
    pub focused: bool,
    pub agent_status: AgentStatus,
}

/// A workspace, as `workspace.list` reports it.
#[derive(Debug, Clone)]
pub struct Workspace {
    pub workspace_id: String,
    pub label: Option<String>,
    pub focused: bool,
    pub agent_status: AgentStatus,
}

/// A pane running a detected agent, as reported by `agent.list`.
///
/// `state_change_seq` increases every time an agent changes state; it gives
/// Gather a stable order within a status group.
#[derive(Debug, Clone)]
pub struct Agent {
    pub pane_id: String,
    pub tab_id: String,
    pub workspace_id: String,
    pub agent: Option<String>,
    pub agent_status: AgentStatus,
    pub state_change_seq: u64,
}

/// Result payload of `pane.move`.
#[derive(Debug, Clone)]
pub struct MoveResult {
    /// Present when the move created a tab, i.e. for Extract.
    pub created_tab: Option<Tab>,
}

/// Direction a pane is placed relative to its target.
#[derive(Debug, Clone, Copy, PartialEq, Eq, Structural)]
pub enum Direction {
    Right,
    Down,
}

pub open spec fn direction_name(d: Direction) -> Seq<char> {
    match d {
        Direction::Right => "right"@,
        Direction::Down => "down"@,
    }
}

/// The direction a raw word names, as `Direction::parse` reads it.
pub open spec fn direction_named(raw: Seq<char>) -> Option<Direction> {
    let k = keyword(raw);
    if k == "right"@ || k == "r"@ {
        Some(Direction::Right)
    } else if k == "down"@ || k == "d"@ {
        Some(Direction::Down)
    } else {
        None
    }
}

impl Direction {
    pub fn as_str(self) -> (r: &'static str)
        ensures
            r@ == direction_name(self),
    {
        match self {
            Direction::Right => "right",
            Direction::Down => "down",
        }
    }

    pub fn parse(raw: &str) -> (r: Option<Self>)
        ensures
            r == direction_named(raw@),
    {
        let k = keyword_of(raw);
        if spells(&k, "right") || spells(&k, "r") {
            Some(Direction::Right)
        } else if spells(&k, "down") || spells(&k, "d") {
            Some(Direction::Down)
        } else {
            None
        }
    }
}

/// A plugin action, as reported by `plugin.action.list`.
#[derive(Debug, Clone)]
pub struct PluginAction {
    pub plugin_id: String,
    pub action_id: String,
    pub title: String,
    pub description: Option<String>,
    pub contexts: Vec<String>,
}

/// An installed plugin, as reported by `plugin.list`.
#[derive(Debug, Clone)]
pub struct InstalledPlugin {
    pub plugin_id: String,
    pub name: String,
    pub enabled: bool,
}

/// A structured Herdr API error (`{"error":{"code","message"}}`).
#[derive(Debug, Clone)]
pub struct ApiError {
    pub code: String,
    pub message: String,
}

/// Whether `s` ends with `suffix`.
pub open spec fn ends_with(s: Seq<char>, suffix: Seq<char>) -> bool {
    suffix.len() <= s.len() && s.subrange(s.len() - suffix.len(), s.len() as int) == suffix
}

/// Whether `s` starts with `prefix`.
pub open spec fn starts_with(s: Seq<char>, prefix: Seq<char>) -> bool {
    prefix.len() <= s.len() && s.subrange(0, prefix.len() as int) == prefix
}

/// `str::ends_with` on views.
pub fn text_ends_with(s: &str, suffix: &str) -> (r: bool)
    ensures
        r == ends_with(s@, suffix@),
{
    let a = crate::text::chars_of(s);
    let b = crate::text::chars_of(suffix);
    if b.len() > a.len() {
        return false;
    }
    let off = a.len() - b.len();
    let alen = a.len();
    let mut i: usize = 0;
    while i < b.len()
        invariant
            alen == a@.len(),
            a@ == s@,
            b@ == suffix@,
            off == a@.len() - b@.len(),
            b@.len() <= a@.len(),
            i <= b@.len(),
            forall|j: int| 0 <= j < i ==> a@[off + j] == b@[j],
        decreases b@.len() - i,
    {
        if a[off + i] != b[i] {
            proof {
                assert(a@.subrange(off as int, a@.len() as int)[i as int] != b@[i as int]);
            }
            return false;
        }
        i = i + 1;
    }
    proof {
        assert(a@.subrange(off as int, a@.len() as int) =~= b@);
    }
    true
}

/// `str::starts_with` on views.
pub fn text_starts_with(s: &str, prefix: &str) -> (r: bool)
    ensures
        r == starts_with(s@, prefix@),
{
    let a = crate::text::chars_of(s);
    let b = crate::text::chars_of(prefix);
    if b.len() > a.len() {
        return false;
    }
    let mut i: usize = 0;
    while i < b.len()
        invariant
            a@ == s@,
            b@ == prefix@,
            b@.len() <= a@.len(),
            i <= b@.len(),
            forall|j: int| 0 <= j < i ==> a@[j] == b@[j],
        decreases b@.len() - i,
    {
        if a[i] != b[i] {
            proof {
                assert(a@.subrange(0, b@.len() as int)[i as int] != b@[i as int]);
            }
            return false;
        }
        i = i + 1;
    }
    proof {
        assert(a@.subrange(0, b@.len() as int) =~= b@);
    }
    true
}

impl ApiError {
    /// Whether the error means "the thing you named is gone", which callers
    /// turn into a refresh rather than a hard failure.
    pub fn is_not_found(&self) -> (r: bool)
        ensures
            r == ends_with(self.code@, "_not_found"@),
    {
        text_ends_with(self.code.as_str(), "_not_found")
    }
}

} // verus!

verus! {

/// What an operation did, phrased for a toast.
#[derive(Debug)]
pub struct Outcome {
    pub message: String,
    pub detail: Option<String>,
}

impl Outcome {
    pub fn new(message: &str) -> (r: Self)
        ensures
            r.message@ == message@,
            r.detail is None,
    {
        Outcome { message: crate::text::owned(message), detail: None }
    }

    pub fn with_detail(self, detail: &str) -> (r: Self)
        ensures
            r.message == self.message,
            r.detail is Some && r.detail->0@ == detail@,
    {
        Outcome { message: self.message, detail: Some(crate::text::owned(detail)) }
    }
}

} // verus!
