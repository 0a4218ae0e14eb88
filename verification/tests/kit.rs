use herdr_kit::context::resolve_source_tab;
use herdr_kit::label::{cwd_basename, new_tab_label, pane_compact, pane_primary, tab_display};
use herdr_kit::layout::{Plan, Ratio, Shape, Side, EVEN};
use herdr_kit::menu::{subsequence, Menu};
use herdr_kit::model::{AgentStatus, Direction, Pane, Tab};
use herdr_kit::term::{columns, scroll_for, secondary_column, stack, truncate, Row};

fn pane() -> Pane {
    Pane {
        pane_id: "w1:p1".into(),
        tab_id: "w1:t1".into(),
        workspace_id: "w1".into(),
        ..Default::default()
    }
}

fn tab(label: Option<&str>) -> Tab {
    Tab {
        tab_id: "w1:t1".into(),
        workspace_id: "w1".into(),
        label: label.map(str::to_string),
        pane_count: 1,
        focused: false,
        agent_status: AgentStatus::Unknown,
    }
}

// ----- labels -----

#[test]
fn cwd_basename_handles_trailing_slash_and_root() {
    assert_eq!(cwd_basename(Some("/a/b/mushi-battle/")).as_deref(), Some("mushi-battle"));
    assert_eq!(cwd_basename(Some("/")), None);
    assert_eq!(cwd_basename(None), None);
}

#[test]
fn pane_label_wins_over_agent() {
    let mut p = pane();
    p.agent = Some("goose".into());
    p.label = Some("Music".into());
    assert_eq!(pane_primary(&p), "Music");
}

#[test]
fn agent_is_title_cased_and_paired_with_project() {
    let mut p = pane();
    p.agent = Some("goose".into());
    p.cwd = Some("/Users/x/src/mushi-battle".into());
    assert_eq!(pane_compact(&p), "Goose · mushi-battle");
}

#[test]
fn compact_does_not_repeat_the_project_name() {
    let mut p = pane();
    p.cwd = Some("/Users/x/src/agent-usage".into());
    assert_eq!(pane_compact(&p), "agent-usage");
}

#[test]
fn new_tab_label_follows_spec_priority() {
    let mut p = pane();
    assert_eq!(new_tab_label(&p), None);

    p.agent = Some("aider".into());
    assert_eq!(new_tab_label(&p).as_deref(), Some("Aider"));

    p.cwd = Some("/Users/x/src/ComposerSketch".into());
    assert_eq!(new_tab_label(&p).as_deref(), Some("ComposerSketch"));

    p.terminal_title_stripped = Some("build watch".into());
    assert_eq!(new_tab_label(&p).as_deref(), Some("build watch"));

    p.label = Some("Music".into());
    assert_eq!(new_tab_label(&p).as_deref(), Some("Music"));
}

#[test]
fn numeric_tab_labels_are_treated_as_unnamed() {
    assert_eq!(tab_display(&tab(Some("2")), 2), "Tab 2");
    assert_eq!(tab_display(&tab(None), 3), "Tab 3");
    assert_eq!(tab_display(&tab(Some("Agents")), 1), "Tab 1: Agents");
}

#[test]
fn a_display_agent_is_preferred_and_a_blank_label_is_ignored() {
    let mut p = pane();
    p.agent = Some("goose".into());
    p.display_agent = Some("planner".into());
    p.label = Some("   ".into());
    assert_eq!(pane_primary(&p), "Planner");
}

// ----- shapes -----

fn split(side: Side, a: Shape, b: Shape) -> Shape {
    Shape::Split { side, ratio: EVEN, first: Box::new(a), second: Box::new(b) }
}

#[test]
fn the_surviving_side_takes_the_whole_space() {
    let shape = split(Side::Right, Shape::pane("a"), Shape::pane("b"));
    assert_eq!(shape.without("a"), Some(Shape::pane("b")));
    assert_eq!(shape.without("b"), Some(Shape::pane("a")));
}

#[test]
fn removing_the_only_pane_leaves_nothing_rather_than_an_empty_box() {
    assert_eq!(Shape::pane("a").without("a"), None);
}

#[test]
fn a_pane_that_is_not_there_changes_nothing() {
    let shape = split(Side::Down, Shape::pane("a"), Shape::pane("b"));
    assert_eq!(shape.without("zzz"), Some(shape.clone()));
}

#[test]
fn only_the_split_that_held_it_collapses() {
    let inner = split(Side::Down, Shape::pane("b"), Shape::pane("c"));
    let shape = split(Side::Right, Shape::pane("a"), inner);
    assert_eq!(
        shape.without("b"),
        Some(split(Side::Right, Shape::pane("a"), Shape::pane("c")))
    );
}

fn grid() -> Shape {
    split(
        Side::Right,
        split(Side::Down, Shape::pane("a"), Shape::pane("b")),
        split(Side::Down, Shape::pane("c"), Shape::pane("d")),
    )
}

#[test]
fn a_plan_derived_from_a_shape_rebuilds_that_shape() {
    for shape in [
        Shape::pane("a"),
        split(Side::Right, Shape::pane("a"), Shape::pane("b")),
        grid(),
        split(
            Side::Right,
            split(
                Side::Down,
                split(Side::Right, Shape::pane("a"), Shape::pane("b")),
                Shape::pane("c"),
            ),
            Shape::pane("d"),
        ),
    ] {
        let plan = Plan::from_shape(&shape);
        assert_eq!(
            plan.simulate().signature(),
            shape.signature(),
            "round trip failed for {}",
            shape.signature()
        );
    }
}

#[test]
fn a_derived_plan_places_every_pane_once_and_anchors_only_on_placed_panes() {
    let plan = Plan::from_shape(&grid());
    let mut placed = vec![plan.anchor.clone()];
    for placement in &plan.placements {
        assert!(placed.contains(&placement.anchor));
        assert!(!placed.contains(&placement.pane_id));
        placed.push(placement.pane_id.clone());
    }
    placed.sort();
    assert_eq!(placed, ["a", "b", "c", "d"]);
}

#[test]
fn a_lone_pane_needs_no_placements() {
    let plan = Plan::from_shape(&Shape::pane("a"));
    assert_eq!(plan.anchor, "a");
    assert!(plan.placements.is_empty());
}

#[test]
fn left_and_up_are_a_split_plus_a_swap() {
    assert_eq!(Side::Left.split(), Direction::Right);
    assert!(Side::Left.needs_swap());
    assert_eq!(Side::Up.split(), Direction::Down);
    assert!(Side::Up.needs_swap());
    assert!(!Side::Right.needs_swap());
    assert!(!Side::Down.needs_swap());
}

#[test]
fn ratio_labels_round_trip() {
    for ratio in Ratio::all() {
        assert_eq!(Ratio::parse(ratio.label()), Some(ratio));
    }
}

#[test]
fn every_side_round_trips_through_its_name() {
    for side in Side::all() {
        assert_eq!(Side::parse(side.as_str()), Some(side));
    }
}

#[test]
fn the_signature_still_describes_the_arrangement_alone() {
    let uneven = |ratio: f32| Shape::Split {
        side: Side::Right,
        ratio: ratio.to_bits(),
        first: Box::new(Shape::pane("a")),
        second: Box::new(Shape::pane("b")),
    };
    assert_eq!(uneven(0.7).signature(), "(r a b)");
    assert_eq!(uneven(0.5).signature(), "(r a b)");
}

#[test]
fn a_ratio_is_the_bit_pattern_of_the_share_it_names() {
    assert_eq!(EVEN, 0.5f32.to_bits());
    assert_eq!(Ratio::parse("60").map(|r| f32::from_bits(r.0)), Some(0.6));
    assert_eq!(Ratio::parse(" 40:60 ").map(|r| f32::from_bits(r.0)), Some(0.4));
    assert_eq!(Ratio::parse("70:30"), None);
}

#[test]
fn splitting_a_pane_puts_the_new_one_on_the_chosen_side() {
    let mut shape = Shape::pane("a");
    shape.split("a", "b", Side::Right);
    shape.split("b", "c", Side::Left);
    assert_eq!(shape.signature(), "(r a (l b c))");
    assert_eq!(shape.first_pane(), "a");
    assert_eq!(shape.pane_ids(), ["a", "b", "c"]);
    // Splitting a pane that is not there changes nothing.
    shape.split("zzz", "d", Side::Down);
    assert_eq!(shape.signature(), "(r a (l b c))");
}

// ----- menus -----

fn menu_with(hotkeys: &[&str]) -> Menu<usize> {
    let mut menu = Menu::new("test");
    for (index, key) in hotkeys.iter().enumerate() {
        menu.item(Row::item(&format!("row {index}")).hotkey(*key), index);
    }
    menu
}

#[test]
fn a_menu_binding_neither_vim_key_leaves_them_to_the_cursor() {
    let menu = menu_with(&["m", "s", "e", "c"]);
    assert!(!menu.claims_both_vim_keys());
    assert!(!menu.half_binds_vim_keys());
    assert_eq!(menu.by_hotkey('j'), None);
    assert_eq!(menu.by_hotkey('k'), None);
    assert_eq!(menu.by_hotkey('s'), Some(1));
}

#[test]
fn a_direction_picker_binding_all_four_keeps_them() {
    let menu = menu_with(&["h", "l", "k", "j"]);
    assert!(menu.claims_both_vim_keys());
    assert!(!menu.half_binds_vim_keys());
    assert_eq!(menu.by_hotkey('k'), Some(2));
    assert_eq!(menu.by_hotkey('j'), Some(3));
}

#[test]
fn binding_only_one_of_the_pair_is_reported_as_a_mistake() {
    let menu = menu_with(&["m", "j", "e"]);
    assert!(menu.half_binds_vim_keys());
    assert_eq!(menu.by_hotkey('j'), None);

    let menu = menu_with(&["e", "k", "g"]);
    assert!(menu.half_binds_vim_keys());
    assert_eq!(menu.by_hotkey('k'), None);
}

#[test]
fn numbering_follows_what_is_on_screen() {
    let mut menu: Menu<usize> = Menu::new("t").filterable().numbered();
    for (i, name) in ["alpha", "beta", "alfresco", "gamma", "delta", "alpenglow"]
        .iter()
        .enumerate()
    {
        menu.item(Row::item(name), i);
    }
    menu.filter = Some("al".into());
    let visible = menu.visible();
    assert_eq!(visible, vec![0, 2, 5], "filter should keep the three al* rows");

    let mut n = 0;
    let numbers: Vec<String> = visible
        .iter()
        .map(|_| {
            n += 1;
            n.to_string()
        })
        .collect();
    assert_eq!(numbers, ["1", "2", "3"]);
}

#[test]
fn subsequence_matches_scattered_initials() {
    assert!(subsequence("gsmb", "goose · mushi-battle"));
    assert!(subsequence("mushi", "goose · mushi-battle"));
    assert!(!subsequence("zzz", "goose · mushi-battle"));
}

#[test]
fn subsequence_respects_order() {
    assert!(subsequence("ab", "a-b"));
    assert!(!subsequence("ba", "a-b"));
}

#[test]
fn subsequence_ignores_spaces_in_the_query() {
    assert!(subsequence("gs mb", "goose · mushi-battle"));
}

#[test]
fn an_empty_query_matches_everything() {
    assert!(subsequence("", "anything"));
}

#[test]
fn an_unfiltered_menu_shows_every_row() {
    let mut menu: Menu<u8> = Menu::new("t").filterable();
    menu.row(Row::header("Tab 1"));
    menu.item(Row::item("Goose"), 1);
    menu.item(Row::item("Aider"), 2);

    let rows = std::mem::take(&mut menu.screen.rows);
    assert_eq!(menu.visible(), vec![0, 1, 2]);
    menu.screen.rows = rows;
}

#[test]
fn filtering_keeps_only_matching_selectable_rows() {
    let mut menu: Menu<u8> = Menu::new("t").filterable();
    menu.row(Row::header("Tab 1"));
    menu.item(Row::item("Goose · mushi-battle"), 1);
    menu.item(Row::item("Aider · ComposerSketch"), 2);

    assert_eq!(menu.visible().len(), 3);
    menu.filter = Some("aider".into());
    assert_eq!(menu.visible(), vec![2]);
}

#[test]
fn pinned_rows_survive_a_filter_that_matches_nothing() {
    let mut menu: Menu<u8> = Menu::new("t").filterable();
    menu.item(Row::item("Tab 1"), 1);
    menu.item_pinned(Row::item("+ New Tab {query}"), 2);

    menu.filter = Some("zzzz".into());
    assert_eq!(menu.visible(), vec![1]);
}

#[test]
fn a_pinned_row_names_what_it_would_create() {
    let mut menu: Menu<u8> = Menu::new("t").filterable();
    let row = Row::item("+ New Tab {query}");
    menu.item_pinned(row.clone(), 1);

    assert_eq!(menu.render_pinned(&row).primary, "+ New Tab ...");
    menu.filter = Some("review".into());
    assert_eq!(menu.render_pinned(&row).primary, "+ New Tab \"review\"");
}

#[test]
fn the_query_is_readable_by_the_caller() {
    let mut menu: Menu<u8> = Menu::new("t").filterable();
    assert_eq!(menu.query(), "");
    menu.filter = Some("review".into());
    assert_eq!(menu.query(), "review");
}

#[test]
fn extra_match_text_is_searchable_without_being_shown() {
    let mut menu: Menu<u8> = Menu::new("t").filterable();
    menu.item_matching(Row::item("Aider"), 1, "AgentRecipes");
    menu.filter = Some("agentrec".into());
    assert_eq!(menu.visible(), vec![0]);
}

// ----- scrolling and text width -----

fn flat(n: usize) -> Vec<usize> {
    vec![1; n]
}

fn window(scroll: usize, heights: &[usize], budget: usize) -> Vec<usize> {
    let mut used = 0;
    let mut shown = Vec::new();
    for (index, height) in heights.iter().enumerate().skip(scroll) {
        if used + height > budget {
            break;
        }
        used += height;
        shown.push(index);
    }
    shown
}

#[test]
fn a_list_that_fits_never_scrolls() {
    assert_eq!(scroll_for(0, Some(9), &flat(10), 20), 0);
    assert_eq!(scroll_for(7, Some(0), &flat(10), 20), 0);
}

#[test]
fn the_cursor_is_always_inside_the_window() {
    let heights = flat(40);
    for cursor in 0..40 {
        let scroll = scroll_for(0, Some(cursor), &heights, 10);
        assert!(
            window(scroll, &heights, 10).contains(&cursor),
            "cursor {cursor} fell outside the window at scroll {scroll}"
        );
    }
}

#[test]
fn the_window_holds_still_while_the_cursor_is_visible() {
    let heights = flat(40);
    assert_eq!(scroll_for(10, Some(15), &heights, 10), 10);
    assert_eq!(scroll_for(10, Some(19), &heights, 10), 10);
    assert_eq!(scroll_for(10, Some(20), &heights, 10), 11);
    assert_eq!(scroll_for(10, Some(9), &heights, 10), 9);
}

#[test]
fn scrolling_to_the_end_leaves_no_gap() {
    let heights = flat(40);
    let scroll = scroll_for(0, Some(39), &heights, 10);
    assert_eq!(window(scroll, &heights, 10).len(), 10);
    assert_eq!(scroll_for(999, Some(39), &heights, 10), scroll);
}

#[test]
fn two_line_rows_are_measured_in_lines_not_rows() {
    let heights = vec![2; 10];
    let scroll = scroll_for(0, Some(9), &heights, 10);
    let shown = window(scroll, &heights, 10);
    assert_eq!(shown.len(), 5);
    assert!(shown.contains(&9));
}

#[test]
fn a_mixed_list_still_keeps_the_cursor_visible() {
    let heights = vec![1, 2, 1, 2, 1, 2, 1, 2, 1, 2];
    for cursor in 0..heights.len() {
        let scroll = scroll_for(0, Some(cursor), &heights, 5);
        assert!(
            window(scroll, &heights, 5).contains(&cursor),
            "cursor {cursor} fell outside the window at scroll {scroll}"
        );
    }
}

#[test]
fn every_palette_entry_can_be_reached_by_arrowing_down() {
    let rows = 33 + 3 + 2;
    let heights = flat(rows);
    let available = 37 - 4;
    let budget = available - 1;
    assert!(rows > available, "this case is only interesting when it overflows");

    let mut scroll = 0;
    for cursor in 0..rows {
        scroll = scroll_for(scroll, Some(cursor), &heights, budget);
        assert!(
            window(scroll, &heights, budget).contains(&cursor),
            "entry {cursor} of {rows} was not on screen"
        );
    }
    assert_eq!(window(scroll, &heights, budget).len(), budget);
    assert_eq!(*window(scroll, &heights, budget).last().unwrap(), rows - 1);
}

#[test]
fn an_empty_list_scrolls_nowhere() {
    assert_eq!(scroll_for(3, None, &[], 10), 0);
    assert_eq!(scroll_for(3, Some(0), &[], 10), 0);
}

#[test]
fn descriptions_line_up_on_the_longest_name() {
    let rows = vec![
        Row::item("Swap").secondary("a"),
        Row::item("Merge Tab").secondary("b"),
        Row::header("ignored, and much much longer than any item"),
        Row::item("no description here at all, also long"),
    ];
    assert_eq!(secondary_column(&rows, 80), columns("Merge Tab"));
}

#[test]
fn alignment_gives_up_rather_than_open_a_gutter() {
    let rows = vec![Row::item("a name far too long to align against").secondary("x")];
    assert_eq!(secondary_column(&rows, 40), 0);
    assert!(secondary_column(&rows, 200) > 0);
}

#[test]
fn a_trailing_value_is_reserved_room_before_the_body_is_cut() {
    let available = 40usize;
    let trailing = "(Goose)";
    let reserved = columns(trailing) + 2;
    let body = truncate(
        "セッション一覧を表示して選択すると開くプラグインを作る",
        available - reserved,
    );
    assert!(columns(&body) + reserved <= available);
    let pad = available - columns(&body) - columns(trailing);
    assert!(pad >= 2, "at least a gap must remain, got {pad}");
}

#[test]
fn truncate_counts_cjk_as_two_columns() {
    assert_eq!(truncate("abc", 10), "abc");
    assert_eq!(truncate("abcdef", 3), "ab…");
    assert_eq!(truncate("日本語です", 5), "日本…");
}

#[test]
fn truncate_is_a_noop_when_it_fits_exactly() {
    assert_eq!(truncate("abcd", 4), "abcd");
    assert_eq!(truncate("日本", 4), "日本");
}

#[test]
fn truncated_output_never_exceeds_the_requested_width() {
    for text in ["abcdef", "日本語です", "a日b本c", "…"] {
        for width in 0..12 {
            assert!(
                columns(&truncate(text, width)) <= width,
                "{text:?} at width {width} overflowed"
            );
        }
    }
}

#[test]
fn a_diagram_too_small_to_stack_is_left_alone() {
    let front = vec!["ab".to_string(), "cd".to_string()];
    assert_eq!(stack(front.clone(), None), front);
}

#[test]
fn a_stack_adds_one_line_above_and_one_column_to_the_left() {
    let front = vec!["┌──┐".to_string(), "│  │".to_string(), "└──┘".to_string()];
    let stacked = stack(front.clone(), None);
    assert_eq!(stacked.len(), front.len() + 1);
    assert_eq!(columns(&stacked[0]), columns(&front[0]));
    assert_eq!(columns(&stacked[1]), columns(&front[0]) + 1);
    for (row, line) in front.iter().enumerate() {
        assert!(stacked[row + 1].ends_with(line.as_str()), "row {row}");
    }
}

// ----- tab resolution -----

fn source(workspace: &str, tab: &str) -> Pane {
    Pane {
        pane_id: format!("{workspace}:p1"),
        workspace_id: workspace.into(),
        tab_id: tab.into(),
        ..Default::default()
    }
}

#[test]
fn an_explicit_tab_wins_even_in_another_workspace() {
    let source = source("w1", "w1:t1");
    assert_eq!(resolve_source_tab(Some("w9:t3"), None, &source), "w9:t3");
}

#[test]
fn no_argument_falls_back_to_the_panes_own_tab() {
    let source = source("w1", "w1:t7");
    assert_eq!(resolve_source_tab(None, None, &source), "w1:t7");
    assert_eq!(resolve_source_tab(Some("  "), None, &source), "w1:t7");
}

#[test]
fn an_inherited_tab_counts_only_in_the_panes_own_workspace() {
    let source = source("w1", "w1:t7");
    assert_eq!(resolve_source_tab(None, Some("w1:t2"), &source), "w1:t2");
    assert_eq!(resolve_source_tab(None, Some("w2:t2"), &source), "w1:t7");
}
