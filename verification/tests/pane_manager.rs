use herdr_kit::gather::{chunk, highest_priority, plan, select, PanesPerTab, Scope, Session};
use herdr_kit::layout::{Plan, Shape, Side};
use herdr_kit::model::{Agent, AgentStatus, Pane};
use herdr_kit::place::{beside, by_original_tab, Origin, Restored};
use herdr_kit::pm_config::{Config, DefaultAction, GatherConfig, RatioSetting, SideSetting};
use herdr_kit::preview::{
    gather_caption, gather_panels, gather_size_panels, gathered_shape, undo_panels, ARRIVING,
};
use herdr_kit::term::Panel;
use herdr_kit::undo::Record;

// ----- configuration -----

fn pane() -> Pane {
    Pane {
        pane_id: "w1:p1".into(),
        tab_id: "w1:t1".into(),
        workspace_id: "w1".into(),
        ..Default::default()
    }
}

#[test]
fn defaults_match_the_spec() {
    let config = Config::default();
    assert_eq!(config.default_move_direction, SideSetting::Right);
    assert_eq!(config.ratio().0, 0.5f32.to_bits());
    assert!(config.focus_after_operation);
    assert!(config.preserve_merge_layout);
    assert!(!config.confirm_merge);
    assert!(!config.show_ids);
}

#[test]
fn ratios_are_written_the_way_they_are_displayed() {
    let config = Config { default_split_ratio: RatioSetting::SixtyForty, ..Config::default() };
    assert_eq!(config.ratio().0, 0.6f32.to_bits());
    assert!(!config.ask_ratio());

    let config = Config { default_split_ratio: RatioSetting::Ask, ..Config::default() };
    assert!(config.ask_ratio());
    assert_eq!(config.ratio().0, 0.5f32.to_bits());
}

#[test]
fn quick_move_never_needs_to_ask() {
    let config = Config {
        default_move_direction: SideSetting::Ask,
        default_split_ratio: RatioSetting::Ask,
        ..Config::default()
    };
    let placement = config.quick_placement();
    assert_eq!(placement.side, Side::Right);
    assert_eq!(placement.ratio, 0.5f32.to_bits());
}

#[test]
fn every_side_setting_resolves_to_its_side() {
    assert_eq!(SideSetting::Left.resolve(), Some(Side::Left));
    assert_eq!(SideSetting::Right.resolve(), Some(Side::Right));
    assert_eq!(SideSetting::Up.resolve(), Some(Side::Up));
    assert_eq!(SideSetting::Down.resolve(), Some(Side::Down));
    assert_eq!(SideSetting::Ask.resolve(), None);
}

#[test]
fn gather_defaults_match_the_spec() {
    let gather = Config::default().gather;
    assert_eq!(gather.statuses.len(), 3);
    assert_eq!(gather.per_tab().get(), 4);
    assert_eq!(gather.scope(), Scope::CurrentWorkspace);
    assert!(gather.focus_highest_priority);
    assert!(gather.agents.is_empty());
    assert_eq!(gather.tab_label, "Active Agents");
    assert_eq!(gather.status_summary(), "blocked, done, working");
}

#[test]
fn an_unsupported_group_size_falls_back_to_four() {
    let gather = GatherConfig { max_panes_per_tab: 7, ..GatherConfig::default() };
    assert_eq!(gather.per_tab().get(), 4);
    let gather = GatherConfig { max_panes_per_tab: 2, scope: "all".into(), ..GatherConfig::default() };
    assert_eq!(gather.per_tab().get(), 2);
    assert_eq!(gather.scope(), Scope::AllWorkspaces);
}

#[test]
fn a_typed_name_wins_over_auto_naming() {
    let mut pane = pane();
    pane.label = Some("Music".into());
    let config = Config::default();
    assert_eq!(config.new_tab_label(&pane, Some("review")).as_deref(), Some("review"));
    assert_eq!(config.new_tab_label(&pane, None).as_deref(), Some("Music"));
}

#[test]
fn auto_naming_can_be_turned_off_without_losing_typed_names() {
    let mut pane = pane();
    pane.label = Some("Music".into());
    let config = Config { auto_name_new_tab: false, ..Config::default() };
    assert_eq!(config.new_tab_label(&pane, None), None);
    assert_eq!(config.new_tab_label(&pane, Some("review")).as_deref(), Some("review"));
}

#[test]
fn shift_always_gives_the_other_outcome() {
    assert!(!DefaultAction::Quick.detailed(false));
    assert!(DefaultAction::Quick.detailed(true));
    assert!(DefaultAction::Detailed.detailed(false));
    assert!(!DefaultAction::Detailed.detailed(true));
}

#[test]
fn quick_is_the_default_so_nobody_gains_a_prompt_they_did_not_ask_for() {
    assert_eq!(DefaultAction::default(), DefaultAction::Quick);
}

// ----- gather layout -----

fn ids(n: usize) -> Vec<String> {
    (1..=n).map(|i| format!("a{i}")).collect()
}

fn shape(n: usize) -> String {
    plan(&ids(n)).unwrap().simulate().signature()
}

#[test]
fn only_two_three_and_four_are_valid_sizes() {
    assert_eq!(PanesPerTab::new(4).map(PanesPerTab::get), Some(4));
    assert_eq!(PanesPerTab::new(2).map(PanesPerTab::get), Some(2));
    assert_eq!(PanesPerTab::new(1), None);
    assert_eq!(PanesPerTab::new(5), None);
    assert_eq!(PanesPerTab::default().get(), 4);
}

#[test]
fn seven_agents_at_four_per_tab_become_four_and_three() {
    let groups = chunk(&ids(7), PanesPerTab::new(4).unwrap());
    assert_eq!(groups.len(), 2);
    assert_eq!(groups[0], ["a1", "a2", "a3", "a4"]);
    assert_eq!(groups[1], ["a5", "a6", "a7"]);
}

#[test]
fn chunking_preserves_priority_order() {
    let groups = chunk(&ids(6), PanesPerTab::new(2).unwrap());
    let flat: Vec<String> = groups.into_iter().flatten().collect();
    assert_eq!(flat, ids(6));
}

#[test]
fn two_panes_sit_side_by_side() {
    assert_eq!(shape(2), "(r a1 a2)");
}

#[test]
fn three_panes_give_the_top_agent_the_whole_left_side() {
    assert_eq!(shape(3), "(r a1 (d a2 a3))");
}

#[test]
fn four_panes_form_a_grid_filled_left_to_right() {
    assert_eq!(shape(4), "(r (d a1 a3) (d a2 a4))");
}

#[test]
fn every_layout_places_every_pane_once_anchored_on_a_placed_pane() {
    for n in 1..=4 {
        let panes = ids(n);
        let plan = plan(&panes).unwrap();
        let mut placed = vec![plan.anchor.clone()];
        for placement in &plan.placements {
            assert!(
                placed.contains(&placement.anchor),
                "{n} panes: {} anchors on unplaced {}",
                placement.pane_id,
                placement.anchor
            );
            placed.push(placement.pane_id.clone());
        }
        placed.sort();
        assert_eq!(placed, panes, "{n} panes");
    }
}

#[test]
fn a_single_agent_needs_no_splits() {
    let plan = plan(&ids(1)).unwrap();
    assert_eq!(plan.anchor, "a1");
    assert!(plan.placements.is_empty());
}

#[test]
fn no_panes_means_no_plan() {
    assert!(plan(&[]).is_none());
}

// ----- gather selection -----

fn agent(pane: &str, workspace: &str, status: AgentStatus, seq: u64, kind: &str) -> Agent {
    Agent {
        pane_id: pane.into(),
        tab_id: format!("{workspace}:t1"),
        workspace_id: workspace.into(),
        agent: Some(kind.into()),
        agent_status: status,
        state_change_seq: seq,
    }
}

fn sample() -> Vec<Agent> {
    vec![
        agent("p1", "w1", AgentStatus::Working, 10, "goose"),
        agent("p2", "w1", AgentStatus::Idle, 20, "goose"),
        agent("p3", "w1", AgentStatus::Blocked, 30, "aider"),
        agent("p4", "w2", AgentStatus::Done, 40, "goose"),
        agent("p5", "w1", AgentStatus::Working, 50, "aider"),
        agent("p6", "w1", AgentStatus::Unknown, 60, "goose"),
    ]
}

fn agent_ids(agents: &[Agent]) -> Vec<&str> {
    agents.iter().map(|a| a.pane_id.as_str()).collect()
}

#[test]
fn idle_and_unknown_are_left_alone() {
    let got = select(&sample(), &GatherConfig::default(), None);
    assert!(!agent_ids(&got).contains(&"p2"), "idle was gathered");
    assert!(!agent_ids(&got).contains(&"p6"), "unknown was gathered");
}

#[test]
fn blocked_comes_first_then_done_then_working() {
    let got = select(&sample(), &GatherConfig::default(), None);
    assert_eq!(agent_ids(&got), ["p3", "p4", "p5", "p1"]);
}

#[test]
fn scope_limits_the_search_to_one_workspace() {
    let got = select(&sample(), &GatherConfig::default(), Some("w1"));
    assert_eq!(agent_ids(&got), ["p3", "p5", "p1"]);
}

#[test]
fn an_agent_filter_narrows_by_kind() {
    let config = GatherConfig { agents: vec!["aider".into()], ..GatherConfig::default() };
    assert_eq!(agent_ids(&select(&sample(), &config, None)), ["p3", "p5"]);
}

#[test]
fn an_empty_agent_filter_means_every_kind() {
    let config = GatherConfig::default();
    assert!(config.agents.is_empty());
    assert_eq!(select(&sample(), &config, None).len(), 4);
}

#[test]
fn statuses_are_configurable() {
    let config = GatherConfig { statuses: vec![AgentStatus::Blocked], ..GatherConfig::default() };
    assert_eq!(agent_ids(&select(&sample(), &config, None)), ["p3"]);
}

#[test]
fn the_order_is_stable_across_runs() {
    let config = GatherConfig::default();
    let first = select(&sample(), &config, None);
    let mut shuffled = sample();
    shuffled.reverse();
    let second = select(&shuffled, &config, None);
    assert_eq!(agent_ids(&first), agent_ids(&second));
}

#[test]
fn focus_goes_to_the_most_urgent_agent() {
    let got = select(&sample(), &GatherConfig::default(), None);
    assert_eq!(highest_priority(&got).unwrap().pane_id, "p3");
    assert!(highest_priority(&[]).is_none());
}

#[test]
fn scope_names_round_trip() {
    for scope in [Scope::CurrentWorkspace, Scope::AllWorkspaces] {
        assert_eq!(Scope::parse(scope.as_str()), Some(scope));
    }
}

// ----- gather session -----

fn origin(pane: &str, tab: &str, order: usize) -> Origin {
    Origin {
        pane_id: pane.into(),
        workspace_id: "w1".into(),
        tab_id: tab.into(),
        tab_label: Some("Agents".into()),
        tab_index: 0,
        anchor: Some("w1:p1".into()),
        side: Some("right".into()),
        order,
        focused: false,
    }
}

#[test]
fn forgetting_a_pane_removes_only_that_pane() {
    let mut session = Session {
        origins: vec![origin("p2", "w1:t1", 0), origin("p3", "w1:t1", 1)],
        ..Session::default()
    };
    session.forget("p2");
    assert_eq!(session.pane_ids(), ["p3"]);
    assert!(!session.contains("p2"));
    assert!(session.contains("p3"));
}

#[test]
fn an_emptied_session_reports_itself_empty() {
    let mut session = Session { origins: vec![origin("p2", "w1:t1", 0)], ..Session::default() };
    assert!(!session.is_empty());
    session.forget("p2");
    assert!(session.is_empty());
}

#[test]
fn dropping_panes_keeps_only_the_ones_no_longer_wanted() {
    let session = Session {
        origins: vec![origin("p2", "w1:t1", 0), origin("p3", "w1:t1", 1)],
        ..Session::default()
    };
    let dropped = session.origins_other_than(&["p3".into()]);
    assert_eq!(dropped.len(), 1);
    assert_eq!(dropped[0].pane_id, "p2");
}

// ----- putting panes back -----

fn shape_of(splits: &[(&str, &str, Side)], root: &str) -> Shape {
    let mut shape = Shape::pane(root);
    for (anchor, pane, side) in splits {
        shape.split(anchor, pane, *side);
    }
    shape
}

#[test]
fn the_first_pane_of_a_tab_remembers_which_side_it_was_on() {
    let shape = shape_of(&[("w1:p5", "w1:p1", Side::Right)], "w1:p5");
    assert_eq!(shape.signature(), "(r w1:p5 w1:p1)");
    assert_eq!(beside(&shape, "w1:p5"), Some(("w1:p1".to_string(), Side::Left)));
    let stacked = shape_of(&[("w1:p5", "w1:p1", Side::Down)], "w1:p5");
    assert_eq!(beside(&stacked, "w1:p5"), Some(("w1:p1".to_string(), Side::Up)));
}

#[test]
fn the_neighbour_is_the_pane_actually_next_to_it() {
    let shape = shape_of(
        &[("w1:p5", "w1:pC", Side::Right), ("w1:pC", "w1:p1", Side::Right)],
        "w1:p5",
    );
    assert_eq!(shape.signature(), "(r w1:p5 (r w1:pC w1:p1))");
    assert_eq!(beside(&shape, "w1:p5"), Some(("w1:pC".to_string(), Side::Left)));
}

#[test]
fn a_pane_alone_in_its_tab_has_nothing_to_sit_beside() {
    let alone = Shape::pane("w1:p5");
    assert_eq!(beside(&alone, "w1:p5"), None);
}

#[test]
fn a_left_hand_origin_is_replayed_as_a_split_and_a_swap() {
    let origin = Origin { side: Some("left".into()), ..origin("w1:p5", "w1:t1", 0) };
    assert_eq!(origin.side(), Side::Left);
    assert!(origin.side().needs_swap());
}

#[test]
fn a_missing_side_falls_back_rather_than_failing() {
    let origin = Origin { side: None, anchor: None, ..origin("p1", "w1:t1", 0) };
    assert_eq!(origin.side(), Side::Right);
    assert!(origin.anchor.is_none());
}

#[test]
fn origins_group_by_the_tab_they_came_from() {
    let origins = vec![origin("p2", "w1:t1", 1), origin("p9", "w1:t3", 0), origin("p3", "w1:t1", 0)];
    let groups = by_original_tab(&origins);
    assert_eq!(groups.len(), 2);
    assert_eq!(groups[0].0, "w1:t1");
    assert_eq!(
        groups[0].1.iter().map(|o| o.pane_id.as_str()).collect::<Vec<_>>(),
        ["p3", "p2"]
    );
    assert_eq!(groups[1].0, "w1:t3");
}

#[test]
fn a_clean_restore_reads_as_a_plain_sentence() {
    let restored = Restored { into_original: 3, ..Restored::default() };
    assert_eq!(restored.detail(3), "3 panes back in place");
}

#[test]
fn a_rebuilt_tab_is_reported_as_success_not_failure() {
    let restored = Restored { into_recreated: 2, recreated_tabs: 1, ..Restored::default() };
    assert_eq!(
        restored.detail(2),
        "2 panes back in place · 1 tab rebuilt under its original name"
    );
}

#[test]
fn panes_closed_since_the_record_are_reported_honestly() {
    let restored = Restored { into_original: 2, gone: 1, ..Restored::default() };
    assert_eq!(restored.detail(3), "2 panes back in place · 1 pane closed since");
}

// ----- layout plans for merges -----

fn shape_named(splits: &[(&str, &str, &str)], root: &str) -> Shape {
    let mut shape = Shape::pane(root);
    for (anchor, pane, side) in splits {
        shape.split(anchor, pane, Side::parse(side).unwrap());
    }
    shape
}

#[test]
fn a_preserved_merge_replays_the_source_tabs_own_splits() {
    let shape = shape_named(&[("b", "d", "down"), ("b", "c", "right")], "b");
    assert_eq!(shape.signature(), "(d (r b c) d)");

    let plan = Plan::from_shape(&shape);
    assert_eq!(plan.anchor, "b");
    assert_eq!(plan.pane_ids(), vec!["b", "d", "c"]);
    assert_eq!(plan.simulate().signature(), shape.signature());
}

#[test]
fn a_flattened_merge_keeps_the_panes_but_not_the_nesting() {
    let shape = shape_named(&[("b", "d", "down"), ("b", "c", "right")], "b");
    let mut flat = shape.pane_ids();
    flat.sort();
    let mut preserved = Plan::from_shape(&shape).pane_ids();
    preserved.sort();
    assert_eq!(flat, preserved);
}

// ----- undo records -----

fn record(verb: &str, subject: &str, origins: Vec<Origin>, swap: Option<(String, String)>) -> Record {
    Record {
        verb: verb.into(),
        subject: subject.into(),
        origins,
        swap,
        created_tabs: Vec::new(),
        unix_ms: 0,
    }
}

#[test]
fn a_record_without_a_subject_still_describes_itself() {
    assert_eq!(record("Merge", "", Vec::new(), None).describe(), "Merge");
}

#[test]
fn a_swap_record_needs_no_origins_to_be_undoable() {
    let record = record("Swap", "editor", Vec::new(), Some(("w1:p1".into(), "w1:p2".into())));
    assert!(record.offered());
    assert_eq!(record.describe(), "Swap editor");
}

#[test]
fn a_record_with_nothing_to_reverse_is_not_offered() {
    let record = record("Move", "x", Vec::new(), None);
    assert!(!record.offered());
}

// ----- previews -----

fn panes_in(panel: &Panel) -> usize {
    panel.shape.as_ref().map(|shape| shape.pane_ids().len()).unwrap_or(0)
}

fn signature(panes: usize) -> String {
    gathered_shape(panes).unwrap().0.signature()
}

fn drawn(panels: &[Panel]) -> Vec<String> {
    panels
        .iter()
        .map(|panel| panel.shape.as_ref().map(Shape::signature).unwrap_or_default())
        .collect()
}

fn config_with_tab_size(size: u8) -> Config {
    let mut config = Config::default();
    config.gather.max_panes_per_tab = size;
    config
}

#[test]
fn the_gather_preview_is_drawn_by_the_real_planner() {
    let id = |n: usize| format!("{ARRIVING}{n}");
    assert_eq!(signature(2), format!("(r {} {})", id(0), id(1)));
    assert_eq!(signature(4), format!("(r (d {} {}) (d {} {}))", id(0), id(2), id(1), id(3)));
}

#[test]
fn every_pane_in_the_preview_is_marked() {
    for panes in 1..=4 {
        let (shape, marked) = gathered_shape(panes).unwrap();
        assert_eq!(marked.len(), panes);
        assert_eq!(shape.pane_ids().len(), panes);
    }
}

#[test]
fn the_caption_counts_tabs_only_when_there_is_more_than_one() {
    let config = config_with_tab_size(2);
    assert_eq!(gather_caption(2, &config, "A"), "A");
    assert_eq!(gather_caption(5, &config, "A"), "A ×3");
}

#[test]
fn an_uncounted_gather_still_draws_the_shape_it_would_make() {
    let config = config_with_tab_size(4);
    let panels = gather_panels(0, &[], &config);
    assert_eq!(panels.len(), 1);
    assert_eq!(panes_in(&panels[0]), 4, "a full tab is drawn");
    assert_eq!(panels[0].caption, config.gather.tab_label);
}

#[test]
fn a_gather_of_two_agents_is_drawn_as_two_panes() {
    let config = Config::default();
    let panels = gather_panels(0, &["p1".to_string(), "p2".to_string()], &config);
    assert_eq!(panes_in(&panels[0]), 2);
    let panels = gather_panels(0, &["p1".to_string(), "p2".to_string(), "p3".to_string()], &config);
    assert_eq!(panes_in(&panels[0]), 3);
    assert_eq!(signature(3), {
        let id = |n: usize| format!("{ARRIVING}{n}");
        format!("(r {} (d {} {}))", id(0), id(1), id(2))
    });
}

#[test]
fn a_gather_never_draws_more_than_one_tab_holds() {
    let config = config_with_tab_size(2);
    let names: Vec<String> = (1..=6).map(|n| format!("p{n}")).collect();
    let panels = gather_panels(0, &names, &config);
    assert_eq!(panes_in(&panels[0]), 2);
    assert_eq!(panels[0].caption, format!("{} ×3", config.gather.tab_label));
}

#[test]
fn undoing_nothing_reversible_draws_nothing() {
    let swap = record("Swap", "", Vec::new(), Some(("w1:p1".into(), "w1:p2".into())));
    assert!(undo_panels(&swap, "w1:p1").is_empty());
}

#[test]
fn every_gather_size_row_draws_the_size_it_offers() {
    let config = Config::default();
    let id = |n: usize| format!("{ARRIVING}{n}");
    assert_eq!(
        drawn(&gather_size_panels(2, &["p5".to_string(), "p1".to_string()], &config)),
        [format!("(r {} {})", id(0), id(1))]
    );
    assert_eq!(
        drawn(&gather_size_panels(3, &[], &config)),
        [format!("(r {} (d {} {}))", id(0), id(1), id(2))]
    );
    assert_eq!(
        drawn(&gather_size_panels(4, &[], &config)),
        [format!("(r (d {} {}) (d {} {}))", id(0), id(2), id(1), id(3))]
    );
    assert!(gather_size_panels(4, &[], &config)[0].marked.is_empty());
}

#[test]
fn a_gather_writes_the_agents_own_names_into_the_boxes() {
    let config = Config::default();
    let names = vec!["p5".to_string(), "p1".to_string()];
    let panels = gather_panels(0, &names, &config);
    assert_eq!(
        panels[0].labels.iter().map(|(_, name)| name.clone()).collect::<Vec<_>>(),
        names
    );
    let panels = gather_size_panels(4, &names, &config);
    assert_eq!(panels[0].labels.len(), 2);
}

#[test]
fn a_gather_fills_nothing() {
    let panels = gather_panels(0, &[], &Config::default());
    assert!(panels.iter().all(|panel| panel.marked.is_empty()));
}

#[test]
fn an_undo_draws_the_panes_going_home_and_fills_the_readers_own() {
    let mut first = origin("w1:p2", "w1:t1", 0);
    first.tab_label = Some("Agents".into());
    let second = origin("w1:p3", "w1:t1", 1);
    let record = record("Move", "x", vec![first, second], None);
    let panels = undo_panels(&record, "w1:p3");
    assert_eq!(panels.len(), 1);
    assert_eq!(drawn(&panels), ["(r w1:p2 w1:p3)"]);
    assert_eq!(panels[0].marked, ["w1:p3"]);
    assert_eq!(
        panels[0].labels,
        vec![("w1:p2".to_string(), "p2".to_string()), ("w1:p3".to_string(), "p3".to_string())]
    );
}

// ----- a Gather run -----

use herdr_kit::gather_ops::{
    check_gathered, gather_menu, gather_names, gather_order, gather_tab_label, gathered_outcome,
    landing_tabs, nothing_to_gather, parked_panes, pick_settings, refresh_settings, returned_outcome,
    GatherPick,
};

#[test]
fn nothing_to_gather_says_what_was_looked_for() {
    let config = Config::default();
    let quiet = nothing_to_gather(false, &config, Scope::CurrentWorkspace);
    assert_eq!(quiet.message, "No agent needs attention");
    assert_eq!(
        quiet.detail.as_deref(),
        Some("Looking for blocked, done, working in Current Workspace.")
    );
    let emptied = nothing_to_gather(true, &config, Scope::AllWorkspaces);
    assert_eq!(emptied.detail.as_deref(), Some("The gathered panes were returned to their tabs."));
}

#[test]
fn the_gather_toast_counts_agents_and_tabs() {
    let one = gathered_outcome(1, 1, Scope::CurrentWorkspace, 0);
    assert_eq!(one.message, "Gathered the active agents");
    assert_eq!(one.detail.as_deref(), Some("1 agent · 1 tab · Current Workspace"));
    let many = gathered_outcome(5, 2, Scope::AllWorkspaces, 2);
    assert_eq!(many.detail.as_deref(), Some("5 agents · 2 tabs · All Workspaces · 2 returned"));
}

#[test]
fn only_agents_whose_origin_is_recorded_are_moved() {
    let session = Session { origins: vec![origin("p3", "w1:t1", 0), origin("p1", "w1:t1", 1)], ..Session::default() };
    let wanted = select(&sample(), &GatherConfig::default(), None);
    assert_eq!(gather_order(&wanted, &session).unwrap(), ["p3", "p1"]);
    assert_eq!(
        gather_order(&wanted, &Session::default()).unwrap_err(),
        "Could not read where the active agents currently are."
    );
}

#[test]
fn gather_tabs_are_numbered_only_when_there_are_several() {
    let config = Config::default();
    assert_eq!(gather_tab_label(&config, 0, false), "Active Agents");
    assert_eq!(gather_tab_label(&config, 1, true), "Active Agents 2");
}

#[test]
fn reused_tabs_go_to_the_first_groups_and_their_heads_stay() {
    let spare = vec!["w1:t8".to_string()];
    let landing = landing_tabs(2, &spare);
    assert_eq!(landing, vec![Some("w1:t8".to_string()), None]);
    let groups = vec![vec!["p3".to_string(), "p4".to_string()], vec!["p5".to_string()]];
    let order = vec!["p3".to_string(), "p4".to_string(), "p5".to_string()];
    assert_eq!(parked_panes(&order, &groups, &landing), ["p4", "p5"]);
}

#[test]
fn a_refresh_keeps_the_recorded_size_and_scope() {
    let config = Config::default();
    let session = Session { panes_per_tab: 2, scope: "all".into(), ..Session::default() };
    let (size, scope) = refresh_settings(&session, &config);
    assert_eq!(size.get(), 2);
    assert_eq!(scope, Scope::AllWorkspaces);
    let (size, scope) = refresh_settings(&Session::default(), &config);
    assert_eq!(size.get(), 4);
    assert_eq!(scope, Scope::CurrentWorkspace);
}

#[test]
fn returning_a_gather_reports_what_went_back() {
    let outcome = returned_outcome(Restored { into_original: 2, gone: 1, ..Restored::default() }, 3);
    assert_eq!(outcome.message, "Returned the gathered agents");
    assert_eq!(outcome.detail.as_deref(), Some("2 panes back in place · 1 pane closed since"));
}

#[test]
fn a_pane_outside_the_gather_tabs_fails_the_check() {
    let tabs = vec!["w1:t9".to_string()];
    let inside = Pane { pane_id: "w1:p1".into(), tab_id: "w1:t9".into(), ..Default::default() };
    let outside = Pane {
        pane_id: "w1:p2".into(),
        tab_id: "w1:t1".into(),
        label: Some("Editor".into()),
        ..Default::default()
    };
    assert!(check_gathered(&[Ok(inside.clone())], &tabs).is_ok());
    assert_eq!(
        check_gathered(&[Ok(inside.clone()), Ok(outside)], &tabs).unwrap_err(),
        "Gather could not be verified.\n\"Editor\" is not in a gathered tab."
    );
    assert_eq!(
        check_gathered(&[Err("gone".to_string()), Ok(inside)], &tabs).unwrap_err(),
        "Gather could not be verified.\ngone"
    );
}

#[test]
fn the_gather_menu_offers_the_configured_size_first() {
    let config = config_with_tab_size(3);
    let agents = sample();
    let menu = gather_menu(Some(&agents), Some("w1"), &config, &[]);
    let picks: Vec<GatherPick> = menu.values.iter().flatten().copied().collect();
    assert_eq!(
        picks,
        [
            GatherPick::PaneCount(3),
            GatherPick::PaneCount(2),
            GatherPick::PaneCount(4),
            GatherPick::Scope(Scope::CurrentWorkspace),
            GatherPick::Scope(Scope::AllWorkspaces),
        ]
    );
    assert_eq!(menu.screen.rows[0].primary, "3 panes in one tab");
    assert_eq!(menu.screen.rows[0].secondary.as_deref(), Some("default"));
    assert_eq!(
        menu.screen.subtitle.as_deref(),
        Some("更新が新しい Agent から最大 3 Pane を1つの Tab へ · blocked, done, working · Current Workspace")
    );
    // The current workspace holds p3, p5 and p1.
    assert_eq!(gather_names(&agents, &config, Some("w1")), ["p3", "p5", "p1"]);
    let drawn = &menu.screen.rows[0].preview.as_ref().unwrap().panels[0];
    assert_eq!(drawn.labels.iter().map(|(_, n)| n.as_str()).collect::<Vec<_>>(), ["p3", "p5", "p1"]);
}

#[test]
fn a_picked_size_keeps_the_configured_scope_and_back() {
    let config = Config::default();
    let (size, scope) = pick_settings(GatherPick::PaneCount(2), &config);
    assert_eq!((size.get(), scope), (2, Scope::CurrentWorkspace));
    let (size, scope) = pick_settings(GatherPick::Scope(Scope::AllWorkspaces), &config);
    assert_eq!((size.get(), scope), (4, Scope::AllWorkspaces));
}
