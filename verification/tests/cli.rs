use herdr_kit::arrange::Arrangement;
use herdr_kit::gather::Scope as GatherScope;
use herdr_kit::layout::{Shape, Side, FORTY_SIXTY, SIXTY_FORTY, EVEN};
use herdr_kit::model::{AgentStatus, Pane, Tab, Workspace};
use herdr_kit::navigator::Scope;
use herdr_kit::ops::{Destination, Verb};
use herdr_kit::pm_cli::{gather_settings, headless_request, Args};
use herdr_kit::pm_config::{Config, SideSetting};
use herdr_kit::state::{Snapshot, TabEntry};
use herdr_kit::tools_cli::{arrangement_arg, explicit_pane, scope_arg, Words};

fn words(raw: &[&str]) -> Vec<String> {
    raw.iter().map(|s| s.to_string()).collect()
}

fn parse(raw: &[&str]) -> Args {
    Args::parse(&words(raw)).unwrap()
}

// ----- Pane Manager -----

#[test]
fn command_defaults_to_ui() {
    assert_eq!(parse(&[]).command, "ui");
}

#[test]
fn flags_are_pulled_out_of_the_positional_list() {
    let args = parse(&["launch", "swap", "--pane", "w1:p3", "--tab", "w1:t2"]);
    assert_eq!(args.command, "launch");
    assert_eq!(args.positional, vec!["swap"]);
    assert_eq!(args.pane.as_deref(), Some("w1:p3"));
    assert_eq!(args.tab.as_deref(), Some("w1:t2"));
}

#[test]
fn flags_may_precede_the_screen_name() {
    let args = parse(&["--pane", "w1:p3", "quick-move", "4"]);
    assert_eq!(args.command, "quick-move");
    assert_eq!(args.positional, vec!["4"]);
    assert_eq!(args.pane.as_deref(), Some("w1:p3"));
}

#[test]
fn all_four_sides_are_accepted_on_the_command_line() {
    for (flag, want) in [
        ("left", Side::Left),
        ("right", Side::Right),
        ("up", Side::Up),
        ("down", Side::Down),
    ] {
        assert_eq!(parse(&["move", "--side", flag]).side, Some(want));
    }
    assert_eq!(parse(&["move", "--direction", "down"]).side, Some(Side::Down));
}

#[test]
fn ratios_are_accepted_as_written_in_the_spec() {
    assert_eq!(parse(&["move", "--ratio", "60:40"]).ratio.map(|r| r.0), Some(SIXTY_FORTY));
    assert_eq!(parse(&["move", "--ratio", "40:60"]).ratio.map(|r| r.0), Some(FORTY_SIXTY));
    assert_eq!(parse(&["move", "--ratio", "50:50"]).ratio.map(|r| r.0), Some(EVEN));
}

#[test]
fn a_bad_side_or_ratio_is_rejected_rather_than_ignored() {
    assert!(Args::parse(&words(&["move", "--side", "sideways"])).is_err());
    assert!(Args::parse(&words(&["move", "--ratio", "90:10"])).is_err());
    assert_eq!(
        Args::parse(&words(&["move", "--side"])).unwrap_err(),
        "--side takes left, right, up or down"
    );
}

#[test]
fn gather_takes_a_size_and_a_scope() {
    let args = parse(&["gather", "3", "--scope", "all"]);
    assert_eq!(args.command, "gather");
    assert_eq!(args.positional, vec!["3"]);
    assert_eq!(args.scope.as_deref(), Some("all"));
    assert_eq!(GatherScope::parse("all"), Some(GatherScope::AllWorkspaces));
}

#[test]
fn creation_flags_are_recognised() {
    let args = parse(&["extract", "--new-workspace", "--label", "review"]);
    assert!(args.new_workspace);
    assert_eq!(args.label.as_deref(), Some("review"));
    assert!(parse(&["merge", "--flatten"]).flatten);
}

#[test]
fn a_flag_at_the_end_without_its_value_reads_as_absent() {
    let args = parse(&["move", "--pane", "w1:p3", "--pane"]);
    assert_eq!(args.pane, None);
}

#[test]
fn the_screen_comes_from_the_argument_then_the_environment() {
    assert_eq!(parse(&["ui", "swap"]).screen(Some("merge")), "swap");
    assert_eq!(parse(&["ui"]).screen(Some("merge")), "merge");
    assert_eq!(parse(&["ui"]).screen(Some("")), "manager");
    assert_eq!(parse(&["ui"]).screen(None), "manager");
}

#[test]
fn a_gather_size_must_be_two_three_or_four() {
    let config = Config::default();
    let (size, scope) = gather_settings(&parse(&["gather", "3", "--scope", "all"]), &config).unwrap();
    assert_eq!(size.get(), 3);
    assert_eq!(scope, GatherScope::AllWorkspaces);
    let (size, scope) = gather_settings(&parse(&["gather"]), &config).unwrap();
    assert_eq!(size.get(), 4);
    assert_eq!(scope, GatherScope::CurrentWorkspace);
    assert_eq!(
        gather_settings(&parse(&["gather", "7"]), &config).unwrap_err(),
        "gather takes 2, 3 or 4 panes per tab, got `7`"
    );
    assert_eq!(
        gather_settings(&parse(&["gather", "x"]), &config).unwrap_err(),
        "gather takes 2, 3 or 4 panes per tab, got `x`"
    );
    assert_eq!(
        gather_settings(&parse(&["gather", "--scope", "mars"]), &config).unwrap_err(),
        "--scope takes workspace or all"
    );
}

fn session() -> Snapshot {
    let pane = |id: &str, tab: &str, focused: bool| Pane {
        pane_id: id.into(),
        tab_id: tab.into(),
        workspace_id: "w1".into(),
        focused,
        ..Default::default()
    };
    let entry = |tab: &str, position: usize, panes: Vec<Pane>| TabEntry {
        tab: Tab {
            tab_id: tab.into(),
            workspace_id: "w1".into(),
            label: None,
            pane_count: panes.len() as u32,
            focused: position == 1,
            agent_status: AgentStatus::Unknown,
        },
        position,
        shape: (panes.len() > 1).then(|| {
            let mut shape = Shape::pane(&panes[0].pane_id);
            shape.split(&panes[0].pane_id, &panes[1].pane_id, Side::Right);
            shape
        }),
        layout_known: true,
        panes,
    };
    let source = pane("w1:p1", "w1:t1", true);
    Snapshot::of(
        Workspace { workspace_id: "w1".into(), label: None, focused: true, agent_status: AgentStatus::Unknown },
        vec![
            entry("w1:t1", 1, vec![pane("w1:p5", "w1:t1", false), source.clone()]),
            entry("w1:t2", 2, vec![pane("w1:pB", "w1:t2", false)]),
        ],
        source,
    )
}

#[test]
fn quick_move_goes_to_the_tab_in_that_slot() {
    let request = headless_request(&parse(&["quick-move", "2"]), &session(), &Config::default()).unwrap();
    assert_eq!(request.verb, Verb::Move);
    assert_eq!(request.source_pane, "w1:p1");
    assert!(matches!(
        request.destination,
        Destination::Tab { ref tab_id, target_pane: None } if tab_id == "w1:t2"
    ));
    assert_eq!(request.placement.side, Side::Right);
}

#[test]
fn quick_move_refuses_a_slot_it_cannot_use() {
    let config = Config::default();
    let err = |raw: &[&str]| headless_request(&parse(raw), &session(), &config).unwrap_err();
    assert_eq!(err(&["quick-move"]), "quick-move needs a tab number between 1 and 9");
    assert_eq!(err(&["quick-move", "x"]), "quick-move needs a tab number between 1 and 9");
    assert_eq!(err(&["quick-move", "12"]), "quick-move takes a tab number between 1 and 9, got 12");
    assert_eq!(err(&["quick-move", "3"]), "This workspace has no tab 3.");
}

#[test]
fn headless_commands_need_their_own_flags() {
    let config = Config::default();
    let err = |raw: &[&str]| headless_request(&parse(raw), &session(), &config).unwrap_err();
    assert_eq!(err(&["move"]), "move needs --tab <tab_id> or --new-workspace");
    assert_eq!(err(&["swap"]), "swap needs --with <pane_id>");
    assert_eq!(err(&["merge"]), "merge needs --tab <destination_tab_id>");
    assert_eq!(err(&["dance"]), "unknown command `dance`");
}

#[test]
fn an_explicit_side_wins_over_the_configured_one() {
    let config = Config { default_move_direction: SideSetting::Down, ..Config::default() };
    let request = headless_request(&parse(&["move", "--tab", "w1:t2"]), &session(), &config).unwrap();
    assert_eq!(request.placement.side, Side::Down);
    let request =
        headless_request(&parse(&["move", "--tab", "w1:t2", "--side", "up"]), &session(), &config).unwrap();
    assert_eq!(request.placement.side, Side::Up);
}

#[test]
fn a_merge_keeps_the_layout_unless_asked_to_flatten() {
    let config = Config::default();
    let request = headless_request(&parse(&["merge", "--tab", "w1:t2"]), &session(), &config).unwrap();
    assert_eq!(request.verb, Verb::Merge);
    assert_eq!(request.source_tab.as_deref(), Some("w1:t1"));
    assert!(request.preserve_layout);
    let request =
        headless_request(&parse(&["merge", "--tab", "w1:t2", "--flatten"]), &session(), &config).unwrap();
    assert!(!request.preserve_layout);
}

#[test]
fn extract_names_the_new_tab_after_what_was_typed() {
    let request = headless_request(
        &parse(&["extract", "--new-workspace", "--label", "notes"]),
        &session(),
        &Config::default(),
    )
    .unwrap();
    assert_eq!(request.verb, Verb::Extract);
    assert!(matches!(
        request.destination,
        Destination::NewWorkspace { label: Some(ref l) } if l == "notes"
    ));
}

// ----- Layout Tools -----

#[test]
fn main_command_defaults_to_ui() {
    assert_eq!(Words::tool_args(&words(&[])).command, "ui");
}

#[test]
fn main_flags_are_pulled_out_of_the_positional_list() {
    let args = Words::tool_args(&words(&["arrange", "main-left", "--tab", "w1:t2"]));
    assert_eq!(args.command, "arrange");
    assert_eq!(args.positional, vec!["main-left"]);
    assert_eq!(args.tab.as_deref(), Some("w1:t2"));
}

#[test]
fn an_arrange_command_names_its_layout() {
    assert_eq!(arrangement_arg(&words(&["main-left"])), Ok(Arrangement::MainLeft));
    assert_eq!(arrangement_arg(&words(&[])).unwrap_err(), "arrange needs a layout name");
    assert_eq!(arrangement_arg(&words(&["spiral"])).unwrap_err(), "unknown layout `spiral`");
}

// ----- Open -----

#[test]
fn the_default_command_is_the_picker() {
    assert_eq!(Words::open_args(&words(&[])).command, "ui");
}

#[test]
fn flags_are_taken_out_of_the_positionals() {
    let parsed = Words::open_args(&words(&["open", "editor", "--pane", "w1:p3", "--git-root"]));
    assert_eq!(parsed.command, "open");
    assert_eq!(parsed.positional, vec!["editor"]);
    assert_eq!(parsed.pane.as_deref(), Some("w1:p3"));
    assert!(parsed.git_root);
}

#[test]
fn a_flag_before_the_command_does_not_eat_it() {
    let parsed = Words::open_args(&words(&["--git-root", "where"]));
    assert_eq!(parsed.command, "where");
    assert!(parsed.git_root);
}

#[test]
fn the_pane_flag_wins_over_the_launcher_and_blanks_do_not_count() {
    assert_eq!(explicit_pane(Some("w1:p3"), Some("w1:p9")).as_deref(), Some("w1:p3"));
    assert_eq!(explicit_pane(None, Some("w1:p9")).as_deref(), Some("w1:p9"));
    assert_eq!(explicit_pane(Some("  "), Some("w1:p9")), None);
    assert_eq!(explicit_pane(None, None), None);
}

// ----- Navigator -----

#[test]
fn scope_defaults_to_panes() {
    assert_eq!(scope_arg(&words(&["ui"])), Scope::Panes);
}

#[test]
fn scope_comes_from_the_argument() {
    assert_eq!(scope_arg(&words(&["ui", "tabs"])), Scope::Tabs);
    assert_eq!(scope_arg(&words(&["ui", "workspaces"])), Scope::Workspaces);
    assert_eq!(scope_arg(&words(&["ui", "agents"])), Scope::Agents);
}

#[test]
fn an_unknown_scope_falls_back_rather_than_failing() {
    assert_eq!(scope_arg(&words(&["ui", "nonsense"])), Scope::Panes);
}
