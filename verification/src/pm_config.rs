//! Pane Manager settings: what each option means once it has been read.
use vstd::prelude::*;

use crate::gather::{default_statuses, PanesPerTab, Scope};
use crate::label::{new_tab_label, new_tab_label_of, opt_view};
use crate::layout::Side;
use crate::model::{AgentStatus, Pane};
use crate::text::push_str;

verus! {

/// Plugin id, and the name of its settings table.
pub const PLUGIN_ID: &'static str = "pane-manager";

/// `default_move_direction`.
#[derive(Debug, Clone, Copy, PartialEq, Eq, Structural)]
pub enum SideSetting {
    Left,
    Right,
    Up,
    Down,
    /// Always show the direction step in pickers.
    Ask,
}

pub open spec fn resolved_side(s: SideSetting) -> Option<Side> {
    match s {
        SideSetting::Left => Some(Side::Left),
        SideSetting::Right => Some(Side::Right),
        SideSetting::Up => Some(Side::Up),
        SideSetting::Down => Some(Side::Down),
        SideSetting::Ask => None,
    }
}

impl SideSetting {
    /// Resolved side, or `None` when the user must be asked.
    pub fn resolve(self) -> (r: Option<Side>)
        ensures
            r == resolved_side(self),
    {
        match self {
            SideSetting::Left => Some(Side::Left),
            SideSetting::Right => Some(Side::Right),
            SideSetting::Up => Some(Side::Up),
            SideSetting::Down => Some(Side::Down),
            SideSetting::Ask => None,
        }
    }
}

/// `default_split_ratio`.
#[derive(Debug, Clone, Copy, PartialEq, Eq, Structural)]
pub enum RatioSetting {
    Even,
    SixtyForty,
    FortySixty,
    /// Ask which of the three to use.
    Ask,
}

pub open spec fn setting_bits(s: RatioSetting) -> u32 {
    match s {
        RatioSetting::SixtyForty => crate::layout::SIXTY_FORTY,
        RatioSetting::FortySixty => crate::layout::FORTY_SIXTY,
        _ => crate::layout::EVEN,
    }
}

impl RatioSetting {
    /// The share this setting means; asking still needs a value for the paths
    /// that cannot ask, and that is the even split.
    pub fn resolve(self) -> (r: crate::layout::Ratio)
        ensures
            r.0 == setting_bits(self),
    {
        match self {
            RatioSetting::SixtyForty => crate::layout::Ratio(crate::layout::SIXTY_FORTY),
            RatioSetting::FortySixty => crate::layout::Ratio(crate::layout::FORTY_SIXTY),
            _ => crate::layout::Ratio(crate::layout::EVEN),
        }
    }
}

/// Which of the two outcomes an unmodified Enter (or hotkey) gives. Shift
/// always gives the other one.
#[derive(Debug, Clone, Copy, PartialEq, Eq, Structural)]
pub enum DefaultAction {
    /// Move straight away, using the configured direction and ratio.
    Quick,
    /// Stop and ask where the pane should land.
    Detailed,
}

impl Default for DefaultAction {
    fn default() -> (r: Self)
        ensures
            r == DefaultAction::Quick,
    {
        DefaultAction::Quick
    }
}

impl DefaultAction {
    /// Whether the placement step should run, given whether Shift was held:
    /// the setting says what the plain key does, and Shift means "not that".
    pub fn detailed(self, shift_held: bool) -> (r: bool)
        ensures
            r == ((self == DefaultAction::Detailed) != shift_held),
    {
        (self == DefaultAction::Detailed) != shift_held
    }
}

/// `[pane-manager.gather]`.
#[derive(Debug, Clone)]
pub struct GatherConfig {
    /// Agent states worth collecting.
    pub statuses: Vec<AgentStatus>,
    /// Agents per Gather tab: 2, 3 or 4.
    pub max_panes_per_tab: u8,
    /// How far to look: `"workspace"` or `"all"`.
    pub scope: String,
    /// Focus the most urgent agent once the Gather finishes.
    pub focus_highest_priority: bool,
    /// Restrict to certain agent kinds; empty means every kind.
    pub agents: Vec<String>,
    /// Name of the tabs Gather creates.
    pub tab_label: String,
}

impl Default for GatherConfig {
    fn default() -> (r: Self)
        ensures
            r.statuses@ == seq![AgentStatus::Blocked, AgentStatus::Done, AgentStatus::Working],
            r.max_panes_per_tab == 4,
            r.scope@ == "workspace"@,
            r.focus_highest_priority,
            r.agents@.len() == 0,
            r.tab_label@ == "Active Agents"@,
    {
        GatherConfig {
            statuses: default_statuses(),
            max_panes_per_tab: 4,
            scope: crate::text::owned("workspace"),
            focus_highest_priority: true,
            agents: Vec::new(),
            tab_label: crate::text::owned("Active Agents"),
        }
    }
}

/// The labels of `statuses`, joined with `", "`.
pub open spec fn status_list(statuses: Seq<AgentStatus>) -> Seq<char>
    decreases statuses.len(),
{
    if statuses.len() == 0 {
        Seq::empty()
    } else if statuses.len() == 1 {
        statuses[0].label_spec()
    } else {
        status_list(statuses.drop_last()) + ", "@ + statuses.last().label_spec()
    }
}

impl GatherConfig {
    /// Configured group size, falling back to 4 for an unsupported number.
    pub fn per_tab(&self) -> (r: PanesPerTab)
        ensures
            r.size() == (if 2 <= self.max_panes_per_tab <= 4 { self.max_panes_per_tab } else { 4 }),
    {
        match PanesPerTab::new(self.max_panes_per_tab) {
            Some(p) => p,
            None => PanesPerTab::default(),
        }
    }

    /// The configured scope, falling back to the current workspace.
    pub fn scope(&self) -> (r: Scope)
        ensures
            r == (match crate::gather::scope_named(self.scope@) {
                Some(s) => s,
                None => Scope::CurrentWorkspace,
            }),
    {
        match Scope::parse(self.scope.as_str()) {
            Some(s) => s,
            None => Scope::CurrentWorkspace,
        }
    }

    /// The configured statuses, for messages: `blocked, done, working`.
    pub fn status_summary(&self) -> (r: String)
        ensures
            r@ == status_list(self.statuses@),
    {
        let mut out = String::new();
        let mut i: usize = 0;
        while i < self.statuses.len()
            invariant
                i <= self.statuses@.len(),
                out@ == status_list(self.statuses@.take(i as int)),
            decreases self.statuses@.len() - i,
        {
            proof {
                assert(self.statuses@.take(i + 1).drop_last() =~= self.statuses@.take(i as int));
                assert(self.statuses@.take(i + 1).last() == self.statuses@[i as int]);
            }
            if i > 0 {
                push_str(&mut out, ", ");
            } else {
                proof {
                    assert(out@ =~= Seq::<char>::empty());
                }
            }
            let l = self.statuses[i].label();
            push_str(&mut out, l);
            proof {
                if i == 0 {
                    assert(out@ =~= self.statuses@.take(1)[0].label_spec());
                }
            }
            i = i + 1;
        }
        proof {
            assert(self.statuses@.take(self.statuses@.len() as int) =~= self.statuses@);
        }
        out
    }
}

/// Pane Manager settings.
#[derive(Debug, Clone)]
pub struct Config {
    /// Where a moved pane lands: `left` / `right` / `up` / `down` / `ask`.
    pub default_move_direction: SideSetting,
    /// How the space is shared: `"50:50"` / `"60:40"` / `"40:60"` / `"ask"`.
    pub default_split_ratio: RatioSetting,
    /// Focus the pane an operation acted on when it finishes.
    pub focus_after_operation: bool,
    /// Always ask which pane in the destination tab to split.
    pub advanced_move: bool,
    /// Keep the source tab's split structure when merging.
    pub preserve_merge_layout: bool,
    /// Auto-name tabs created by Extract.
    pub auto_name_new_tab: bool,
    /// Show the agent state glyph and label in pickers.
    pub show_agent_state: bool,
    /// Show the terminal title as a third line in pickers.
    pub show_terminal_title: bool,
    /// Ask before merging a tab.
    pub confirm_merge: bool,
    /// Reveal `w1:p3`-style IDs in pickers.
    pub show_ids: bool,
    /// What choosing a row does when no modifier is held.
    pub default_action: DefaultAction,
    /// Active Agent Gather.
    pub gather: GatherConfig,
}

impl Default for Config {
    fn default() -> (r: Self)
        ensures
            r.default_move_direction == SideSetting::Right,
            r.default_split_ratio == RatioSetting::Even,
            r.focus_after_operation,
            !r.advanced_move,
            r.preserve_merge_layout,
            r.auto_name_new_tab,
            r.show_agent_state,
            r.show_terminal_title,
            !r.confirm_merge,
            !r.show_ids,
            r.default_action == DefaultAction::Quick,
            r.gather.statuses@ == seq![AgentStatus::Blocked, AgentStatus::Done, AgentStatus::Working],
            r.gather.max_panes_per_tab == 4,
            r.gather.scope@ == "workspace"@,
            r.gather.focus_highest_priority,
            r.gather.agents@.len() == 0,
            r.gather.tab_label@ == "Active Agents"@,
    {
        Config {
            default_move_direction: SideSetting::Right,
            default_split_ratio: RatioSetting::Even,
            focus_after_operation: true,
            advanced_move: false,
            preserve_merge_layout: true,
            auto_name_new_tab: true,
            show_agent_state: true,
            show_terminal_title: true,
            confirm_merge: false,
            show_ids: false,
            default_action: DefaultAction::default(),
            gather: GatherConfig::default(),
        }
    }
}

impl Config {
    /// Whether the picker has to ask for a ratio.
    pub fn ask_ratio(&self) -> (r: bool)
        ensures
            r == (self.default_split_ratio == RatioSetting::Ask),
    {
        self.default_split_ratio == RatioSetting::Ask
    }

    /// The configured share.
    pub fn ratio(&self) -> (r: crate::layout::Ratio)
        ensures
            r.0 == setting_bits(self.default_split_ratio),
    {
        self.default_split_ratio.resolve()
    }

    /// Placement for the paths that must not ask anything: Quick Move and the
    /// headless actions.
    pub fn quick_placement(&self) -> (r: crate::ops::Placement)
        ensures
            r.side == (match resolved_side(self.default_move_direction) {
                Some(s) => s,
                None => Side::Right,
            }),
            r.ratio == setting_bits(self.default_split_ratio),
    {
        crate::ops::Placement { side: self.quick_side(), ratio: self.ratio().0 }
    }

    /// The side the no-questions paths use: the configured one, or Right
    /// when the setting says to ask.
    pub fn quick_side(&self) -> (r: Side)
        ensures
            r == (match resolved_side(self.default_move_direction) {
                Some(s) => s,
                None => Side::Right,
            }),
    {
        match self.default_move_direction.resolve() {
            Some(s) => s,
            None => Side::Right,
        }
    }

    /// Name for a tab or workspace being created: whatever the user typed,
    /// else the pane's own name unless auto-naming is off.
    pub fn new_tab_label(&self, pane: &Pane, typed: Option<&str>) -> (r: Option<String>)
        ensures
            opt_view(r) == (match typed {
                Some(t) => Some(t@),
                None => if !self.auto_name_new_tab {
                    None
                } else {
                    new_tab_label_of(*pane)
                },
            }),
    {
        match typed {
            Some(t) => return Some(crate::text::owned(t)),
            None => {},
        }
        if !self.auto_name_new_tab {
            return None;
        }
        new_tab_label(pane)
    }
}

} // verus!
