//! The Pane Manager command line: reading the arguments, and turning a
//! headless command into the operation request it stands for.
//!
//! The caller reads `std::env::args` and `PM_SCREEN`, captures the session,
//! and runs what comes back.
use vstd::prelude::*;

use crate::gather::{scope_named, PanesPerTab, Scope};
use crate::label::opt_view;
use crate::layout::{ratio_named, side_named, string_views, Ratio, Side};
use crate::model::Pane;
use crate::ops::{Destination, Placement, Request, Verb};
use crate::pm_config::{resolved_side, setting_bits, Config};
use crate::state::{tab_at_of, Snapshot};
use crate::text::{decimal, is_blank, owned, parse_number, parsed_number, push_decimal, push_str, same_text};

verus! {

/// The parsed command line.
#[derive(Debug)]
pub struct Args {
    pub command: String,
    pub positional: Vec<String>,
    pub pane: Option<String>,
    pub tab: Option<String>,
    /// Destination pane to split, for `move` and `merge`.
    pub target_pane: Option<String>,
    /// Pane to exchange with, for `swap`.
    pub with_pane: Option<String>,
    /// Tab whose panes are merged away, for `merge`.
    pub source_tab: Option<String>,
    /// Name for a tab or workspace being created.
    pub label: Option<String>,
    /// Create a workspace rather than a tab.
    pub new_workspace: bool,
    /// Merge without preserving the source tab's split structure.
    pub flatten: bool,
    /// Gather scope: `workspace` or `all`.
    pub scope: Option<String>,
    pub side: Option<Side>,
    pub ratio: Option<Ratio>,
}

/// The arguments as mathematical values, while they are being read: the
/// command is absent until the first word that is not a flag.
pub struct ArgsModel {
    pub command: Option<Seq<char>>,
    pub positional: Seq<Seq<char>>,
    pub pane: Option<Seq<char>>,
    pub tab: Option<Seq<char>>,
    pub target_pane: Option<Seq<char>>,
    pub with_pane: Option<Seq<char>>,
    pub source_tab: Option<Seq<char>>,
    pub label: Option<Seq<char>>,
    pub new_workspace: bool,
    pub flatten: bool,
    pub scope: Option<Seq<char>>,
    pub side: Option<Side>,
    pub ratio: Option<u32>,
}

pub open spec fn nothing_read() -> ArgsModel {
    ArgsModel {
        command: None,
        positional: seq![],
        pane: None,
        tab: None,
        target_pane: None,
        with_pane: None,
        source_tab: None,
        label: None,
        new_workspace: false,
        flatten: false,
        scope: None,
        side: None,
        ratio: None,
    }
}

pub const SIDE_ERROR: &'static str = "--side takes left, right, up or down";

pub const RATIO_ERROR: &'static str = "--ratio takes 50:50, 60:40 or 40:60";

/// Read the arguments from position `i` on, with `m` read so far. A flag
/// that takes a value takes the next argument, or nothing at the end.
pub open spec fn read_from(a: Seq<Seq<char>>, i: int, m: ArgsModel) -> Result<ArgsModel, Seq<char>>
    decreases a.len() - i,
{
    if i < 0 || i >= a.len() {
        Ok(m)
    } else {
        let arg = a[i];
        let next: Option<Seq<char>> = if i + 1 < a.len() { Some(a[i + 1]) } else { None };
        let after: int = if i + 1 < a.len() { i + 2 } else { i + 1 };
        let raw: Seq<char> = match next {
            Some(v) => v,
            None => seq![],
        };
        if arg == "--pane"@ {
            read_from(a, after, ArgsModel { pane: next, ..m })
        } else if arg == "--tab"@ {
            read_from(a, after, ArgsModel { tab: next, ..m })
        } else if arg == "--target-pane"@ {
            read_from(a, after, ArgsModel { target_pane: next, ..m })
        } else if arg == "--with"@ {
            read_from(a, after, ArgsModel { with_pane: next, ..m })
        } else if arg == "--source-tab"@ {
            read_from(a, after, ArgsModel { source_tab: next, ..m })
        } else if arg == "--label"@ {
            read_from(a, after, ArgsModel { label: next, ..m })
        } else if arg == "--new-workspace"@ {
            read_from(a, i + 1, ArgsModel { new_workspace: true, ..m })
        } else if arg == "--flatten"@ {
            read_from(a, i + 1, ArgsModel { flatten: true, ..m })
        } else if arg == "--scope"@ {
            read_from(a, after, ArgsModel { scope: next, ..m })
        } else if arg == "--side"@ || arg == "--direction"@ {
            match side_named(raw) {
                Some(s) => read_from(a, after, ArgsModel { side: Some(s), ..m }),
                None => Err(SIDE_ERROR@),
            }
        } else if arg == "--ratio"@ {
            match ratio_named(raw) {
                Some(b) => read_from(a, after, ArgsModel { ratio: Some(b), ..m }),
                None => Err(RATIO_ERROR@),
            }
        } else if m.command is None {
            read_from(a, i + 1, ArgsModel { command: Some(arg), ..m })
        } else {
            read_from(a, i + 1, ArgsModel { positional: m.positional.push(arg), ..m })
        }
    }
}

pub open spec fn ratio_bits(r: Option<Ratio>) -> Option<u32> {
    match r {
        Some(x) => Some(x.0),
        None => None,
    }
}

impl Args {
    /// The arguments as values; the command is the one that will run.
    pub open spec fn model(&self) -> ArgsModel {
        ArgsModel {
            command: Some(self.command@),
            positional: string_views(self.positional@),
            pane: opt_view(self.pane),
            tab: opt_view(self.tab),
            target_pane: opt_view(self.target_pane),
            with_pane: opt_view(self.with_pane),
            source_tab: opt_view(self.source_tab),
            label: opt_view(self.label),
            new_workspace: self.new_workspace,
            flatten: self.flatten,
            scope: opt_view(self.scope),
            side: self.side,
            ratio: ratio_bits(self.ratio),
        }
    }
}

/// The command line read in full; with no command word the overlay runs.
pub open spec fn parsed_args(a: Seq<Seq<char>>) -> Result<ArgsModel, Seq<char>> {
    match read_from(a, 0, nothing_read()) {
        Ok(m) => Ok(ArgsModel {
            command: Some(
                match m.command {
                    Some(c) => c,
                    None => "ui"@,
                },
            ),
            ..m
        }),
        Err(e) => Err(e),
    }
}

fn copy_opt(o: &Option<String>) -> (r: Option<String>)
    ensures
        r == *o,
{
    match o {
        Some(s) => Some(s.clone()),
        None => None,
    }
}

fn value_at(args: &[String], i: usize) -> (r: Option<String>)
    requires
        i < args@.len(),
    ensures
        opt_view(r) == (if i + 1 < args@.len() { Some(args@[i + 1]@) } else { None::<Seq<char>> }),
{
    if args.len() - i > 1 {
        Some(args[i + 1].clone())
    } else {
        None
    }
}

impl Args {
    /// Read a command line (without the program name). Flags may stand
    /// anywhere; the first other word is the command and the rest are
    /// positional. A side or ratio that cannot be read is refused.
    pub fn parse(args: &[String]) -> (r: Result<Args, String>)
        ensures
            match parsed_args(string_views(args@)) {
                Ok(m) => r is Ok && r->Ok_0.model() == m,
                Err(e) => r is Err && r->Err_0@ == e,
            },
    {
        let ghost a = string_views(args@);
        let mut command: Option<String> = None;
        let mut out = Args {
            command: String::new(),
            positional: Vec::new(),
            pane: None,
            tab: None,
            target_pane: None,
            with_pane: None,
            source_tab: None,
            label: None,
            new_workspace: false,
            flatten: false,
            scope: None,
            side: None,
            ratio: None,
        };
        let mut i: usize = 0;
        proof {
            assert(string_views(out.positional@) =~= Seq::<Seq<char>>::empty());
            assert(ArgsModel { command: opt_view(command), ..out.model() } == nothing_read());
        }
        while i < args.len()
            invariant
                a == string_views(args@),
                i <= args@.len(),
                read_from(a, 0, nothing_read()) == read_from(a, i as int, ArgsModel { command: opt_view(command), ..out.model() }),
            decreases args@.len() - i,
        {
            let arg = args[i].as_str();
            let next = value_at(args, i);
            let after: usize = if args.len() - i > 1 { i + 2 } else { i + 1 };
            let ghost m = ArgsModel { command: opt_view(command), ..out.model() };
            assert(a[i as int] == arg@);
            if same_text(arg, "--pane") {
                out.pane = next;
            } else if same_text(arg, "--tab") {
                out.tab = next;
            } else if same_text(arg, "--target-pane") {
                out.target_pane = next;
            } else if same_text(arg, "--with") {
                out.with_pane = next;
            } else if same_text(arg, "--source-tab") {
                out.source_tab = next;
            } else if same_text(arg, "--label") {
                out.label = next;
            } else if same_text(arg, "--new-workspace") {
                out.new_workspace = true;
                i = i + 1;
                proof {
                    assert(ArgsModel { command: opt_view(command), ..out.model() } == ArgsModel { new_workspace: true, ..m });
                }
                continue;
            } else if same_text(arg, "--flatten") {
                out.flatten = true;
                i = i + 1;
                proof {
                    assert(ArgsModel { command: opt_view(command), ..out.model() } == ArgsModel { flatten: true, ..m });
                }
                continue;
            } else if same_text(arg, "--scope") {
                out.scope = next;
            } else if same_text(arg, "--side") || same_text(arg, "--direction") {
                let raw = match &next {
                    Some(v) => v.clone(),
                    None => String::new(),
                };
                match Side::parse(raw.as_str()) {
                    Some(s) => out.side = Some(s),
                    None => {
                        proof {
                            assert(raw@ == (match opt_view(next) { Some(v) => v, None => seq![] }));
                        }
                        return Err(owned(SIDE_ERROR));
                    },
                }
                proof {
                    assert(raw@ == (match opt_view(next) { Some(v) => v, None => seq![] }));
                }
            } else if same_text(arg, "--ratio") {
                let raw = match &next {
                    Some(v) => v.clone(),
                    None => String::new(),
                };
                match Ratio::parse(raw.as_str()) {
                    Some(x) => out.ratio = Some(x),
                    None => {
                        proof {
                            assert(raw@ == (match opt_view(next) { Some(v) => v, None => seq![] }));
                        }
                        return Err(owned(RATIO_ERROR));
                    },
                }
                proof {
                    assert(raw@ == (match opt_view(next) { Some(v) => v, None => seq![] }));
                }
            } else if command.is_none() {
                command = Some(args[i].clone());
                i = i + 1;
                proof {
                    assert(ArgsModel { command: opt_view(command), ..out.model() } == ArgsModel { command: Some(arg@), ..m });
                }
                continue;
            } else {
                let ghost before = out.positional@;
                out.positional.push(args[i].clone());
                i = i + 1;
                proof {
                    assert(string_views(out.positional@) =~= string_views(before).push(arg@));
                    assert(ArgsModel { command: opt_view(command), ..out.model() } == ArgsModel {
                        positional: m.positional.push(arg@),
                        ..m
                    });
                }
                continue;
            }
            i = after;
        }
        out.command = match command {
            Some(c) => c,
            None => owned("ui"),
        };
        Ok(out)
    }
}

/// The screen the overlay opens on: the first positional argument, else
/// `PM_SCREEN` when it is set and not empty, else the manager.
pub open spec fn screen_of(positional: Seq<Seq<char>>, env: Option<Seq<char>>) -> Seq<char> {
    if positional.len() > 0 {
        positional[0]
    } else {
        match env {
            Some(e) => if e.len() > 0 { e } else { "manager"@ },
            None => "manager"@,
        }
    }
}

impl Args {
    /// The screen to open; `env` is the value of `PM_SCREEN`.
    pub fn screen(&self, env: Option<&str>) -> (r: String)
        ensures
            r@ == screen_of(string_views(self.positional@), match env { Some(e) => Some(e@), None => None }),
    {
        if self.positional.len() > 0 {
            return self.positional[0].clone();
        }
        match env {
            Some(e) => if e.unicode_len() > 0 { owned(e) } else { owned("manager") },
            None => owned("manager"),
        }
    }
}

/// Where a headless command puts the pane: an explicit side or ratio wins,
/// else the configured one, else Right and an even split.
pub open spec fn headless_placement(a: Args, c: Config) -> Placement {
    Placement {
        side: match a.side {
            Some(s) => s,
            None => match resolved_side(c.default_move_direction) {
                Some(s) => s,
                None => Side::Right,
            },
        },
        ratio: match a.ratio {
            Some(x) => x.0,
            None => setting_bits(c.default_split_ratio),
        },
    }
}

/// The Quick Move slot named on the command line, if one can be read.
pub open spec fn slot_named(a: Args) -> Option<nat> {
    if a.positional@.len() > 0 {
        parsed_number(a.positional@[0]@, usize::MAX as nat)
    } else {
        None
    }
}

/// The name given to a tab or workspace the command creates.
pub open spec fn created_label(a: Args, s: Snapshot, c: Config) -> Option<Seq<char>> {
    match opt_view(a.label) {
        Some(t) => Some(t),
        None => if !c.auto_name_new_tab {
            None
        } else {
            crate::label::new_tab_label_of(s.source)
        },
    }
}

/// Why a headless command cannot become a request, if it cannot.
pub open spec fn headless_refusal(a: Args, s: Snapshot) -> Option<Seq<char>> {
    let cmd = a.command@;
    if cmd == "quick-move"@ {
        match slot_named(a) {
            None => Some("quick-move needs a tab number between 1 and 9"@),
            Some(n) => if !(1 <= n <= 9) {
                Some("quick-move takes a tab number between 1 and 9, got "@ + decimal(n))
            } else if tab_at_of(s, n) is None {
                Some("This workspace has no tab "@ + decimal(n) + "."@)
            } else {
                None
            },
        }
    } else if cmd == "extract"@ {
        None
    } else if cmd == "move"@ {
        if a.tab is None && !a.new_workspace {
            Some("move needs --tab <tab_id> or --new-workspace"@)
        } else {
            None
        }
    } else if cmd == "swap"@ {
        if a.with_pane is None { Some("swap needs --with <pane_id>"@) } else { None }
    } else if cmd == "merge"@ {
        if a.tab is None { Some("merge needs --tab <destination_tab_id>"@) } else { None }
    } else {
        Some("unknown command `"@ + cmd + "`"@)
    }
}

/// The request a headless command stands for, when it is not refused.
pub open spec fn headless_request_is(a: Args, s: Snapshot, c: Config, q: Request) -> bool {
    let cmd = a.command@;
    &&& q.placement == headless_placement(a, c)
    &&& q.source_pane@ == s.source.pane_id@
    &&& if cmd == "quick-move"@ {
        &&& q.verb == Verb::Move
        &&& q.source_tab is None
        &&& q.destination matches Destination::Tab { tab_id, target_pane }
            && tab_at_of(s, slot_named(a)->0) matches Some(t) && tab_id@ == t.tab.tab_id@
            && target_pane is None
        &&& !q.preserve_layout
    } else if cmd == "extract"@ {
        &&& q.verb == Verb::Extract
        &&& q.source_tab is None
        &&& if a.new_workspace {
            q.destination matches Destination::NewWorkspace { label } && opt_view(label) == created_label(a, s, c)
        } else {
            q.destination matches Destination::NewTab { label } && opt_view(label) == created_label(a, s, c)
        }
        &&& !q.preserve_layout
    } else if cmd == "move"@ {
        &&& q.source_tab is None
        &&& match a.tab {
            Some(t) => q.verb == Verb::Move && (q.destination matches Destination::Tab { tab_id, target_pane }
                && tab_id@ == t@ && opt_view(target_pane) == opt_view(a.target_pane)),
            None => q.verb == Verb::Extract && (q.destination matches Destination::NewWorkspace { label }
                && opt_view(label) == created_label(a, s, c)),
        }
        &&& !q.preserve_layout
    } else if cmd == "swap"@ {
        &&& q.verb == Verb::Swap
        &&& q.source_tab is None
        &&& q.destination matches Destination::Pane { pane_id } && Some(pane_id@) == opt_view(a.with_pane)
        &&& !q.preserve_layout
    } else {
        &&& q.verb == Verb::Merge
        &&& opt_view(q.source_tab) == Some(
            match opt_view(a.source_tab) {
                Some(t) => t,
                None => s.source.tab_id@,
            },
        )
        &&& q.destination matches Destination::Tab { tab_id, target_pane }
            && Some(tab_id@) == opt_view(a.tab) && opt_view(target_pane) == opt_view(a.target_pane)
        &&& q.preserve_layout == (c.preserve_merge_layout && !a.flatten)
    }
}

/// The request a headless command (`quick-move`, `extract`, `move`, `swap`,
/// `merge`) stands for in this session, or why it cannot be made.
pub fn headless_request(args: &Args, snapshot: &Snapshot, config: &Config) -> (r: Result<Request, String>)
    ensures
        match headless_refusal(*args, *snapshot) {
            Some(e) => r is Err && r->Err_0@ == e,
            None => r is Ok && headless_request_is(*args, *snapshot, *config, r->Ok_0),
        },
{
    let side = match args.side {
        Some(s) => s,
        None => config.quick_side(),
    };
    let ratio = match args.ratio {
        Some(x) => x.0,
        None => config.ratio().0,
    };
    let placement = Placement { side, ratio };
    let source_pane = snapshot.source.pane_id.clone();
    let cmd = args.command.as_str();
    if same_text(cmd, "quick-move") {
        let position = if args.positional.len() > 0 {
            parse_number(args.positional[0].as_str(), usize::MAX)
        } else {
            None
        };
        let position = match position {
            Some(p) => p,
            None => return Err(owned("quick-move needs a tab number between 1 and 9")),
        };
        if !(1 <= position && position <= 9) {
            let mut msg = owned("quick-move takes a tab number between 1 and 9, got ");
            push_decimal(&mut msg, position);
            return Err(msg);
        }
        let tab = match snapshot.tab_at(position) {
            Some(t) => t,
            None => {
                let mut msg = owned("This workspace has no tab ");
                push_decimal(&mut msg, position);
                push_str(&mut msg, ".");
                return Err(msg);
            },
        };
        Ok(Request {
            verb: Verb::Move,
            source_pane,
            source_tab: None,
            destination: Destination::Tab { tab_id: tab.tab.tab_id.clone(), target_pane: None },
            placement,
            preserve_layout: false,
        })
    } else if same_text(cmd, "extract") {
        let typed = match &args.label {
            Some(l) => Some(l.as_str()),
            None => None,
        };
        let label = config.new_tab_label(&snapshot.source, typed);
        let destination = if args.new_workspace {
            Destination::NewWorkspace { label }
        } else {
            Destination::NewTab { label }
        };
        Ok(Request { verb: Verb::Extract, source_pane, source_tab: None, destination, placement, preserve_layout: false })
    } else if same_text(cmd, "move") {
        match &args.tab {
            Some(tab_id) => Ok(Request {
                verb: Verb::Move,
                source_pane,
                source_tab: None,
                destination: Destination::Tab { tab_id: tab_id.clone(), target_pane: copy_opt(&args.target_pane) },
                placement,
                preserve_layout: false,
            }),
            None => {
                if !args.new_workspace {
                    return Err(owned("move needs --tab <tab_id> or --new-workspace"));
                }
                let typed = match &args.label {
                    Some(l) => Some(l.as_str()),
                    None => None,
                };
                let label = config.new_tab_label(&snapshot.source, typed);
                Ok(Request {
                    verb: Verb::Extract,
                    source_pane,
                    source_tab: None,
                    destination: Destination::NewWorkspace { label },
                    placement,
                    preserve_layout: false,
                })
            },
        }
    } else if same_text(cmd, "swap") {
        match &args.with_pane {
            Some(target) => Ok(Request {
                verb: Verb::Swap,
                source_pane,
                source_tab: None,
                destination: Destination::Pane { pane_id: target.clone() },
                placement,
                preserve_layout: false,
            }),
            None => Err(owned("swap needs --with <pane_id>")),
        }
    } else if same_text(cmd, "merge") {
        match &args.tab {
            Some(tab_id) => {
                let source_tab = match &args.source_tab {
                    Some(t) => t.clone(),
                    None => snapshot.source.tab_id.clone(),
                };
                Ok(Request {
                    verb: Verb::Merge,
                    source_pane,
                    source_tab: Some(source_tab),
                    destination: Destination::Tab { tab_id: tab_id.clone(), target_pane: copy_opt(&args.target_pane) },
                    placement,
                    preserve_layout: config.preserve_merge_layout && !args.flatten,
                })
            },
            None => Err(owned("merge needs --tab <destination_tab_id>")),
        }
    } else {
        let mut msg = owned("unknown command `");
        push_str(&mut msg, cmd);
        push_str(&mut msg, "`");
        Err(msg)
    }
}

/// The group size a `gather` command asks for: the positional number when
/// there is one (refused unless it is 2, 3 or 4), else the configured size.
pub open spec fn gather_size_of(a: Args, c: Config) -> Result<nat, Seq<char>> {
    if a.positional@.len() > 0 {
        let raw = a.positional@[0]@;
        match parsed_number(raw, 255) {
            Some(n) => if 2 <= n <= 4 {
                Ok(n)
            } else {
                Err("gather takes 2, 3 or 4 panes per tab, got `"@ + raw + "`"@)
            },
            None => Err("gather takes 2, 3 or 4 panes per tab, got `"@ + raw + "`"@),
        }
    } else {
        Ok(if 2 <= c.gather.max_panes_per_tab <= 4 { c.gather.max_panes_per_tab as nat } else { 4 })
    }
}

/// The scope a `gather` command asks for: `--scope` when given (refused
/// unless it names one), else the configured scope.
pub open spec fn gather_scope_of(a: Args, c: Config) -> Result<Scope, Seq<char>> {
    match opt_view(a.scope) {
        Some(raw) => match scope_named(raw) {
            Some(sc) => Ok(sc),
            None => Err("--scope takes workspace or all"@),
        },
        None => Ok(
            match scope_named(c.gather.scope@) {
                Some(sc) => sc,
                None => Scope::CurrentWorkspace,
            },
        ),
    }
}

/// Group size and scope for a `gather` command, or why they are refused.
/// The size is checked first.
pub fn gather_settings(args: &Args, config: &Config) -> (r: Result<(PanesPerTab, Scope), String>)
    ensures
        match gather_size_of(*args, *config) {
            Err(e) => r is Err && r->Err_0@ == e,
            Ok(n) => match gather_scope_of(*args, *config) {
                Err(e) => r is Err && r->Err_0@ == e,
                Ok(sc) => r matches Ok(p) && p.0.size() == n && p.1 == sc,
            },
        },
{
    let per_tab = if args.positional.len() > 0 {
        let raw = args.positional[0].as_str();
        let size = match parse_number(raw, 255) {
            Some(n) => PanesPerTab::new(n as u8),
            None => None,
        };
        match size {
            Some(p) => p,
            None => {
                let mut msg = owned("gather takes 2, 3 or 4 panes per tab, got `");
                push_str(&mut msg, raw);
                push_str(&mut msg, "`");
                return Err(msg);
            },
        }
    } else {
        config.gather.per_tab()
    };
    let scope = match &args.scope {
        Some(raw) => match Scope::parse(raw.as_str()) {
            Some(sc) => sc,
            None => return Err(owned("--scope takes workspace or all")),
        },
        None => config.gather.scope(),
    };
    Ok((per_tab, scope))
}

} // verus!
