use herdr_kit::arrange::Arrangement;
use herdr_kit::layout::{LayoutNode, Plan};
use herdr_kit::template::Template;

fn ids(n: usize) -> Vec<String> {
    (1..=n).map(|i| format!("p{i}")).collect()
}

fn describe(plan: &Plan) -> Vec<String> {
    plan.placements
        .iter()
        .map(|p| format!("{}->{}{}", p.pane_id, p.anchor, p.side.as_str()))
        .collect()
}

#[test]
fn a_single_pane_needs_no_rearranging() {
    assert!(Arrangement::Grid.plan(&ids(1), None).is_none());
    assert!(Arrangement::Columns.plan(&[], None).is_none());
}

#[test]
fn columns_chains_every_pane_to_the_right() {
    let plan = Arrangement::Columns.plan(&ids(4), None).unwrap();
    assert_eq!(plan.anchor, "p1");
    assert_eq!(describe(&plan), ["p2->p1right", "p3->p2right", "p4->p3right"]);
}

#[test]
fn rows_chains_every_pane_downwards() {
    let plan = Arrangement::Rows.plan(&ids(3), None).unwrap();
    assert_eq!(describe(&plan), ["p2->p1down", "p3->p2down"]);
}

#[test]
fn grid_of_four_is_two_by_two() {
    let plan = Arrangement::Grid.plan(&ids(4), None).unwrap();
    assert_eq!(plan.anchor, "p1");
    assert_eq!(describe(&plan), ["p3->p1right", "p2->p1down", "p4->p3down"]);
}

#[test]
fn grid_spreads_the_remainder_over_the_first_columns() {
    let plan = Arrangement::Grid.plan(&ids(5), None).unwrap();
    assert_eq!(
        describe(&plan),
        ["p3->p1right", "p5->p3right", "p2->p1down", "p4->p3down"]
    );
}

#[test]
fn every_arrangement_places_every_pane_exactly_once() {
    for n in 2..=9 {
        let panes = ids(n);
        for arrangement in Arrangement::all() {
            let plan = arrangement.plan(&panes, Some("p2")).unwrap();
            let mut got = plan.pane_ids();
            got.sort();
            let mut want = panes.clone();
            want.sort();
            assert_eq!(got, want, "{:?} with {n} panes", arrangement);
        }
    }
}

#[test]
fn every_placement_anchors_on_a_pane_placed_before_it() {
    for n in 2..=9 {
        let panes = ids(n);
        for arrangement in Arrangement::all() {
            let plan = arrangement.plan(&panes, Some("p3")).unwrap();
            let mut placed = vec![plan.anchor.clone()];
            for placement in &plan.placements {
                assert!(
                    placed.contains(&placement.anchor),
                    "{:?} with {n} panes anchors {} on unplaced {}",
                    arrangement,
                    placement.pane_id,
                    placement.anchor
                );
                placed.push(placement.pane_id.clone());
            }
        }
    }
}

#[test]
fn main_left_gives_the_focused_pane_the_whole_left_side() {
    let plan = Arrangement::MainLeft.plan(&ids(4), Some("p3")).unwrap();
    assert_eq!(plan.anchor, "p3");
    assert_eq!(describe(&plan), ["p1->p3right", "p2->p1down", "p4->p2down"]);
}

#[test]
fn main_right_stacks_the_others_first_then_adds_main_to_their_right() {
    let plan = Arrangement::MainRight.plan(&ids(4), Some("p3")).unwrap();
    assert_eq!(plan.anchor, "p1");
    assert_eq!(describe(&plan), ["p3->p1right", "p2->p1down", "p4->p2down"]);
}

#[test]
fn main_top_puts_the_others_in_a_row_underneath() {
    let plan = Arrangement::MainTop.plan(&ids(3), Some("p1")).unwrap();
    assert_eq!(plan.anchor, "p1");
    assert_eq!(describe(&plan), ["p2->p1down", "p3->p2right"]);
}

fn shape(arrangement: Arrangement, n: usize, main: Option<&str>) -> String {
    arrangement.plan(&ids(n), main).unwrap().simulate().signature()
}

#[test]
fn columns_produce_a_right_nested_chain() {
    assert_eq!(shape(Arrangement::Columns, 4, None), "(r p1 (r p2 (r p3 p4)))");
}

#[test]
fn grid_of_four_produces_two_columns_of_two() {
    assert_eq!(shape(Arrangement::Grid, 4, None), "(r (d p1 p2) (d p3 p4))");
}

#[test]
fn main_left_produces_one_big_pane_beside_a_stack() {
    assert_eq!(shape(Arrangement::MainLeft, 4, Some("p3")), "(r p3 (d p1 (d p2 p4)))");
}

#[test]
fn main_right_is_the_mirror_of_main_left() {
    assert_eq!(shape(Arrangement::MainRight, 4, Some("p3")), "(r (d p1 (d p2 p4)) p3)");
}

#[test]
fn main_falls_back_to_the_first_pane_when_the_focus_is_unknown() {
    let plan = Arrangement::MainLeft.plan(&ids(3), Some("gone")).unwrap();
    assert_eq!(plan.anchor, "p1");
}

#[test]
fn every_arrangement_name_round_trips_through_the_cli() {
    for arrangement in Arrangement::all() {
        let name = arrangement.title().to_lowercase().replace(' ', "-");
        assert_eq!(Arrangement::parse(&name), Some(arrangement), "{name}");
    }
    assert_eq!(Arrangement::parse("spiral"), None);
}

// ----- saved layouts -----

fn split(side: &str, ratio: f32, first: Template, second: Template) -> Template {
    Template::Split {
        side: side.into(),
        ratio: ratio.to_bits(),
        first: Box::new(first),
        second: Box::new(second),
    }
}

fn sample() -> Template {
    split("right", 0.4, Template::Slot, split("down", 0.7, Template::Slot, Template::Slot))
}

#[test]
fn a_saved_layout_forgets_which_panes_were_in_it() {
    let node = LayoutNode::Split {
        direction: "right".into(),
        ratio: 0.5f32.to_bits(),
        first: Box::new(LayoutNode::Pane { pane_id: Some("w1:p1".into()) }),
        second: Box::new(LayoutNode::Pane { pane_id: Some("w1:p2".into()) }),
    };
    let template = Template::from_layout(&node);
    assert_eq!(template, split("right", 0.5, Template::Slot, Template::Slot));
    assert!(!template.describe().contains("w1:p1"));
    assert_eq!(template.slots(), 2);
}

#[test]
fn applying_a_layout_rebuilds_the_same_shape() {
    let plan = sample().plan(&ids(3)).unwrap();
    assert_eq!(plan.simulate().signature(), "(r p1 (d p2 p3))");
}

#[test]
fn a_grid_round_trips_through_save_and_apply() {
    let template = split(
        "right",
        0.5,
        split("down", 0.5, Template::Slot, Template::Slot),
        split("down", 0.5, Template::Slot, Template::Slot),
    );
    let plan = template.plan(&ids(4)).unwrap();
    assert_eq!(plan.simulate().signature(), "(r (d p1 p2) (d p3 p4))");
}

#[test]
fn a_mismatched_pane_count_is_refused_with_both_numbers() {
    let err = sample().plan(&ids(2)).unwrap_err();
    assert!(err.contains('3') && err.contains('2'), "{err}");
    assert_eq!(err, "This layout holds 3 panes, but the tab has 2.");
}

#[test]
fn ratios_are_addressed_by_path_from_the_root() {
    let ratios = sample().ratios();
    assert_eq!(ratios.len(), 2);
    assert_eq!(ratios[0], (vec![], 0.4f32.to_bits()));
    assert_eq!(ratios[1], (vec![true], 0.7f32.to_bits()));
}

#[test]
fn a_single_pane_layout_needs_no_splits() {
    let plan = Template::Slot.plan(&ids(1)).unwrap();
    assert!(plan.placements.is_empty());
    assert!(Template::Slot.ratios().is_empty());
}

#[test]
fn a_template_read_back_from_a_tab_is_the_same_template() {
    let node = LayoutNode::Split {
        direction: "right".into(),
        ratio: 0.4f32.to_bits(),
        first: Box::new(LayoutNode::Pane { pane_id: Some("a".into()) }),
        second: Box::new(LayoutNode::Split {
            direction: "down".into(),
            ratio: 0.7f32.to_bits(),
            first: Box::new(LayoutNode::Pane { pane_id: Some("b".into()) }),
            second: Box::new(LayoutNode::Pane { pane_id: Some("c".into()) }),
        }),
    };
    assert_eq!(Template::from_layout(&node), sample());
}

// ----- exported split trees -----

fn pane(id: &str) -> LayoutNode {
    LayoutNode::Pane { pane_id: Some(id.to_string()) }
}

fn node(direction: &str, first: LayoutNode, second: LayoutNode) -> LayoutNode {
    LayoutNode::Split {
        direction: direction.to_string(),
        ratio: 0.5f32.to_bits(),
        first: Box::new(first),
        second: Box::new(second),
    }
}

fn chain() -> LayoutNode {
    node("right", pane("a"), node("right", pane("b"), node("right", pane("c"), pane("d"))))
}

#[test]
fn pane_ids_are_in_layout_order() {
    assert_eq!(chain().pane_ids(), vec!["a", "b", "c", "d"]);
}

#[test]
fn splits_report_the_leaf_counts_equalize_needs() {
    let splits = chain().splits();
    assert_eq!(splits.len(), 3);
    assert_eq!(splits[0], (vec![], 1, 4));
    assert_eq!(splits[1], (vec![true], 1, 3));
    assert_eq!(splits[2], (vec![true, true], 1, 2));
}

#[test]
fn splits_walk_both_branches_of_a_balanced_tree() {
    let grid = node("right", node("down", pane("a"), pane("b")), node("down", pane("c"), pane("d")));
    let splits = grid.splits();
    assert_eq!(splits[0], (vec![], 2, 4));
    assert_eq!(splits[1], (vec![false], 1, 2));
    assert_eq!(splits[2], (vec![true], 1, 2));
}

#[test]
fn a_lone_pane_has_no_splits() {
    assert!(pane("a").splits().is_empty());
    assert_eq!(pane("a").leaf_count(), 1);
}

// ----- the Layout Tools menu -----

use herdr_kit::layout::{Shape, Side, EVEN};
use herdr_kit::model::Pane;
use herdr_kit::tools_ops::{
    already_arranged, arranged_outcome, equalize_outcome, parked, rebuild_plan_from, restore_message,
    same_shape, too_few_outcome,
};
use herdr_kit::tools_ui::{
    arrangement_preview, current_panel, legend_lines, name_from_picker, preview_panes, saved_note,
    saved_preview, short_label, tools_menu, tools_subtitle, transition_panels, zoom_previews, Choice,
    PreviewPane,
};

fn panes() -> Vec<PreviewPane> {
    vec![
        PreviewPane { id: "p1".into(), number: "1".into(), label: "Aider".into() },
        PreviewPane { id: "p2".into(), number: "2".into(), label: "Goose".into() },
        PreviewPane { id: "p3".into(), number: "3".into(), label: "Shell".into() },
    ]
}

fn current() -> Shape {
    let mut shape = Shape::pane("p1");
    shape.split("p1", "p2", Side::Right);
    shape.split("p2", "p3", Side::Down);
    shape
}

#[test]
fn an_arrangement_preview_shows_current_then_the_real_planned_result() {
    let ids = vec!["p1".to_string(), "p2".to_string(), "p3".to_string()];
    let after = arrangement_preview(Arrangement::Rows, &ids, "p2");
    let panels = transition_panels(Some(&current()), after, &panes(), "p2", "実行後");

    assert_eq!(panels.len(), 2);
    assert_eq!(panels[0].caption, "現在");
    assert_eq!(panels[1].caption, "実行後");
    assert_eq!(panels[0].shape.as_ref().map(Shape::signature).unwrap(), "(r p1 (d p2 p3))");
    assert_eq!(panels[1].shape.as_ref().map(Shape::signature).unwrap(), "(d p1 (d p2 p3))");
    assert_eq!(panels[0].labels, panels[1].labels);
    assert_eq!(panels[0].marked, vec!["p2".to_string()]);
    assert_eq!(panels[1].marked, vec!["p2".to_string()]);
}

#[test]
fn main_preview_shows_the_same_half_width_the_operation_applies() {
    let ids = vec!["p1".to_string(), "p2".to_string(), "p3".to_string()];
    let (shape, _) = arrangement_preview(Arrangement::MainLeft, &ids, "p2").unwrap();
    let Shape::Split { ratio, second, .. } = shape else {
        panic!("main preview must have a root split");
    };
    assert_eq!(ratio, EVEN);
    let Shape::Split { ratio: secondary_ratio, .. } = *second else {
        panic!("secondary panes must be split");
    };
    assert_eq!(secondary_ratio, EVEN);
}

#[test]
fn zoom_preview_uses_the_state_that_is_really_visible_on_each_side() {
    let full = current();
    let (before, after) = zoom_previews(Some(&full), "p2", false);
    assert_eq!(before.as_ref().map(Shape::signature).unwrap(), full.signature());
    assert_eq!(after.unwrap().0.signature(), "p2");

    let (before, after) = zoom_previews(Some(&full), "p2", true);
    assert_eq!(before.unwrap().signature(), "p2");
    assert_eq!(after.unwrap().0.signature(), full.signature());
}

#[test]
fn saving_draws_one_unchanged_panel_instead_of_a_fake_transition() {
    let panels = current_panel(Some(&current()), &panes(), "p1", "保存する形");
    assert_eq!(panels.len(), 1);
    assert_eq!(panels[0].caption, "保存する形");
    assert_eq!(panels[0].marked, vec!["p1".to_string()]);
}

#[test]
fn an_invalid_saved_layout_draws_no_result() {
    let layout = Template::Slot;
    let ids = vec!["p1".to_string(), "p2".to_string(), "p3".to_string()];
    let after = saved_preview(&layout, &ids, "p1");
    assert!(transition_panels(Some(&current()), after, &panes(), "p1", "実行後").is_empty());
}

#[test]
fn the_legend_marks_the_pane_in_play_and_cuts_long_names() {
    let mut named = panes();
    named[2].label = "a very long shell session".into();
    let lines = legend_lines(&named, "p2");
    assert_eq!(lines, ["  1: Aider", "░ 2: Goose", "  3: a very long …"]);
    assert_eq!(short_label("exactly12chr"), "exactly12chr");
}

#[test]
fn preview_panes_are_numbered_and_named() {
    let known = Pane { pane_id: "p1".into(), label: Some("Editor".into()), ..Default::default() };
    let source = Pane { pane_id: "p2".into(), agent: Some("goose".into()), ..Default::default() };
    let ids = vec!["p1".to_string(), "p2".to_string(), "p3".to_string()];
    let named = preview_panes(&ids, &[known], &source);
    assert_eq!(named.iter().map(|p| p.number.as_str()).collect::<Vec<_>>(), ["1", "2", "3"]);
    assert_eq!(
        named.iter().map(|p| p.label.as_str()).collect::<Vec<_>>(),
        ["Editor", "Goose", "Pane 3"]
    );
}

#[test]
fn the_subtitle_counts_the_panes() {
    assert_eq!(tools_subtitle(Some("work"), 3), "work · 3 panes");
    assert_eq!(tools_subtitle(None, 1), "this tab · 1 pane");
}

#[test]
fn a_saved_layout_says_what_it_needs() {
    let two = split("right", 0.5, Template::Slot, Template::Slot);
    assert_eq!(saved_note(&two, 2), "2 panes · vertical split");
    assert_eq!(saved_note(&two, 3), "2 panes · vertical split — needs 3 here");
}

#[test]
fn the_menu_lists_every_choice_in_order() {
    let ids = vec!["p1".to_string(), "p2".to_string(), "p3".to_string()];
    let saved = vec![
        ("pair".to_string(), split("right", 0.5, Template::Slot, Template::Slot)),
        ("three".to_string(), sample()),
    ];
    let applied = [false, false, false, true, false, false];
    let menu = tools_menu(
        Some("work"),
        &ids,
        &panes(),
        "p2",
        "Goose",
        Some(&current()),
        false,
        None,
        &applied,
        &saved,
        None,
    );
    let picked: Vec<String> = menu
        .values
        .iter()
        .flatten()
        .map(|choice| format!("{choice:?}"))
        .collect();
    assert_eq!(
        picked,
        [
            "Equalize",
            "Zoom",
            "Arrange(Grid)",
            "Arrange(Columns)",
            "Arrange(Rows)",
            "Arrange(MainLeft)",
            "Arrange(MainRight)",
            "Arrange(MainTop)",
            "Apply(\"three\")",
            "Save",
            "Forget",
            "Cancel",
        ]
    );
    assert_eq!(menu.screen.subtitle.as_deref(), Some("work · 3 panes"));
    // Main Left is what the tab already is.
    assert_eq!(menu.screen.rows[7].secondary.as_deref(), Some("current"));
    // Without an equalized tree, Equalize has nothing to draw.
    assert!(menu.screen.rows[0].preview.is_none());
    assert!(menu.screen.rows[1].preview.is_some());
    assert!(matches!(menu.values.last(), Some(Some(Choice::Cancel))));
}

#[test]
fn a_typed_name_is_used_when_no_existing_one_was_picked() {
    assert_eq!(name_from_picker("", "  mine  ").as_deref(), Some("mine"));
    assert_eq!(name_from_picker("old", "typed").as_deref(), Some("old"));
    assert_eq!(name_from_picker("", "   "), None);
}

// ----- rearranging a live tab -----

#[test]
fn the_toasts_say_what_happened() {
    let one = equalize_outcome(false, 1);
    assert_eq!(one.message, "This tab has only one pane.");
    let many = equalize_outcome(true, 4);
    assert_eq!(many.message, "Equalized the layout");
    assert_eq!(many.detail.as_deref(), Some("4 panes"));
    assert_eq!(
        too_few_outcome(Arrangement::Grid).message,
        "Grid needs at least two panes in the tab."
    );
    let done = arranged_outcome(Arrangement::MainLeft, 3);
    assert_eq!(done.message, "Arranged as Main Left");
    assert_eq!(done.detail.as_deref(), Some("3 panes · 現在の Pane を左、残りを右へ積む"));
}

#[test]
fn a_tab_already_in_shape_is_left_alone() {
    let ids = vec!["p1".to_string(), "p2".to_string(), "p3".to_string()];
    let plan = Arrangement::MainLeft.plan(&ids, Some("p1")).unwrap();
    let shape = plan.simulate();
    assert!(already_arranged(Some(&shape), &plan));
    assert!(!already_arranged(Some(&current()), &Arrangement::Rows.plan(&ids, None).unwrap()));
    assert!(!already_arranged(None, &plan));
    assert!(same_shape(&current(), &current()));
}

#[test]
fn a_failed_rebuild_is_undone_from_the_tabs_own_shape() {
    let plan = rebuild_plan_from(Some(&current())).unwrap();
    assert_eq!(plan.simulate().signature(), current().signature());
    assert_eq!(parked(&plan), ["p2", "p3"]);
    assert!(rebuild_plan_from(Some(&Shape::pane("p1"))).is_none());
    assert!(rebuild_plan_from(None).is_none());
    assert_eq!(
        restore_message("boom", false, false),
        "boom\nThe layout could not be restored automatically."
    );
    assert_eq!(
        restore_message("boom", true, true),
        "boom\nSome panes could not be put back. Check the tab list."
    );
    assert_eq!(restore_message("boom", true, false), "boom\nThe previous layout was restored.");
}

// ----- the saved-layout screens -----

use herdr_kit::saved_ui::{delete_menu, name_menu, saved_menu};

#[test]
fn the_saved_screen_offers_only_what_fits_this_tab() {
    let ids = vec!["p1".to_string(), "p2".to_string(), "p3".to_string()];
    let saved = vec![
        ("pair".to_string(), split("right", 0.5, Template::Slot, Template::Slot)),
        ("three".to_string(), sample()),
    ];
    let menu = saved_menu(&ids, &panes(), "p2", Some(&current()), &saved, None);
    assert_eq!(menu.screen.title, "Saved Layouts");
    assert_eq!(
        format!("{:?}", menu.values),
        "[None, Some(Apply(\"three\")), None, Some(Save), Some(Forget), Some(Cancel)]"
    );
    // The layout for two panes is only a note saying so.
    assert_eq!(menu.screen.rows[0].primary, "pair");
    assert_eq!(menu.screen.rows[0].secondary.as_deref(), Some("2 panes · vertical split — needs 3 here"));
    assert!(menu.screen.rows[1].preview.is_some());
}

#[test]
fn with_nothing_saved_the_screen_says_so_and_offers_no_delete() {
    let ids = vec!["p1".to_string()];
    let menu = saved_menu(&ids, &[], "p1", None, &[], Some("bad file"));
    assert_eq!(format!("{:?}", menu.values), "[None, None, None, Some(Save), Some(Cancel)]");
    assert_eq!(menu.screen.rows[0].primary, "bad file");
    assert_eq!(menu.screen.rows[1].primary, "保存済みレイアウトはありません");
}

#[test]
fn naming_offers_the_typed_name_first_then_the_names_it_would_replace() {
    let existing = vec![("pair".to_string(), split("right", 0.5, Template::Slot, Template::Slot))];
    let menu = name_menu(&existing);
    assert_eq!(menu.values, vec![Some(String::new()), None, None, Some("pair".to_string())]);
    assert_eq!(menu.screen.rows[0].primary, "Save as {query}");
    assert_eq!(menu.screen.rows[2].primary, "Replace an existing one");
    assert_eq!(menu.screen.rows[3].secondary.as_deref(), Some("2 panes · vertical split"));
    assert_eq!(name_menu(&[]).values, vec![Some(String::new())]);
}

#[test]
fn the_delete_list_names_every_saved_layout() {
    let saved = vec![("pair".to_string(), split("right", 0.5, Template::Slot, Template::Slot)), ("three".to_string(), sample())];
    let menu = delete_menu(&saved);
    assert_eq!(menu.values, vec![Some("pair".to_string()), Some("three".to_string())]);
    assert!(menu.numbered);
}

#[test]
fn a_zero_share_matches_either_sign_and_an_unreadable_one_matches_nothing() {
    let with = |bits: u32| Shape::Split {
        side: Side::Right,
        ratio: bits,
        first: Box::new(Shape::pane("p1")),
        second: Box::new(Shape::pane("p2")),
    };
    assert!(same_shape(&with(0.0f32.to_bits()), &with((-0.0f32).to_bits())));
    assert!(same_shape(&with(0.5f32.to_bits()), &with(0.5f32.to_bits())));
    assert!(!same_shape(&with(0.5f32.to_bits()), &with(0.6f32.to_bits())));
    assert!(!same_shape(&with(f32::NAN.to_bits()), &with(f32::NAN.to_bits())));
}
