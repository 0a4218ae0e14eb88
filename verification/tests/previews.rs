use herdr_kit::gather::Session;
use herdr_kit::landing::manager_menu;
use herdr_kit::layout::{Shape, Side, EVEN};
use herdr_kit::menu::Menu;
use herdr_kit::place::Origin;
use herdr_kit::pm_config::DefaultAction;
use herdr_kit::undo::Record;
use herdr_kit::manager::Choice;
use herdr_kit::model::{AgentStatus, Pane, Tab, Workspace};
use herdr_kit::ops::{build, Destination, Placement, Plan, Request, Verb};
use herdr_kit::pictures::{
    folded_into, gatherable_here, here_name, legend, operation_preview, pane_line, split_beside, swap_panels,
    tab_contents,
};
use herdr_kit::pm_config::Config;
use herdr_kit::preview::{gather_panels, pane_number, tab_number, ARRIVING};
use herdr_kit::state::{Snapshot, TabEntry};
use herdr_kit::term::Panel;

// ----- whole sessions written as one line -----
//
// `t1 name: p5 | p1* ; t2: pB` — `;` separates tabs, `|` splits right, `/`
// splits down, both grouping to the left, `( )` groups, `*` marks the pane
// every operation acts on.

const WORKSPACE: &str = "w1";

fn pane(id: &str) -> String {
    format!("{WORKSPACE}:{id}")
}

#[derive(Debug, PartialEq)]
enum Token {
    Pane(String),
    Side(Side),
    Open,
    Close,
}

fn tokenise(body: &str) -> Vec<Token> {
    let mut out = Vec::new();
    let mut word = String::new();
    let flush = |word: &mut String, out: &mut Vec<Token>| {
        if !word.is_empty() {
            out.push(Token::Pane(std::mem::take(word)));
        }
    };
    for ch in body.chars() {
        match ch {
            '|' => {
                flush(&mut word, &mut out);
                out.push(Token::Side(Side::Right));
            }
            '/' => {
                flush(&mut word, &mut out);
                out.push(Token::Side(Side::Down));
            }
            '(' => {
                flush(&mut word, &mut out);
                out.push(Token::Open);
            }
            ')' => {
                flush(&mut word, &mut out);
                out.push(Token::Close);
            }
            c if c.is_whitespace() => flush(&mut word, &mut out),
            c => word.push(c),
        }
    }
    flush(&mut word, &mut out);
    out
}

fn expression(tokens: &[Token], cursor: &mut usize, focused: &mut Option<String>) -> Shape {
    let mut left = term(tokens, cursor, focused);
    while let Some(Token::Side(side)) = tokens.get(*cursor) {
        let side = *side;
        *cursor += 1;
        let right = term(tokens, cursor, focused);
        left = Shape::Split { side, ratio: EVEN, first: Box::new(left), second: Box::new(right) };
    }
    left
}

fn term(tokens: &[Token], cursor: &mut usize, focused: &mut Option<String>) -> Shape {
    match tokens.get(*cursor) {
        Some(Token::Open) => {
            *cursor += 1;
            let inner = expression(tokens, cursor, focused);
            assert_eq!(tokens.get(*cursor), Some(&Token::Close), "unclosed `(`");
            *cursor += 1;
            inner
        }
        Some(Token::Pane(name)) => {
            *cursor += 1;
            let (name, marked) = match name.strip_suffix('*') {
                Some(bare) => (bare, true),
                None => (name.as_str(), false),
            };
            let id = pane(name);
            if marked {
                *focused = Some(id.clone());
            }
            Shape::Pane(id)
        }
        other => panic!("expected a pane, found {other:?}"),
    }
}

fn session(spec: &str) -> Snapshot {
    let mut tabs = Vec::new();
    let mut source = None;
    for (index, chunk) in spec.split(';').enumerate() {
        let chunk = chunk.trim();
        if chunk.is_empty() {
            continue;
        }
        let (head, body) = chunk.split_once(':').expect("a tab needs a `tN:` head");
        let mut head = head.trim().splitn(2, char::is_whitespace);
        let tab_id = pane(head.next().unwrap().trim());
        let label = head.next().map(str::trim).filter(|n| !n.is_empty());
        let tokens = tokenise(body);
        let mut cursor = 0;
        let mut focused = None;
        let shape = expression(&tokens, &mut cursor, &mut focused);
        assert_eq!(cursor, tokens.len(), "trailing input in {body:?}");
        if focused.is_some() {
            source = focused;
        }
        let panes: Vec<Pane> = shape
            .pane_ids()
            .into_iter()
            .map(|pane_id| Pane {
                tab_id: tab_id.clone(),
                workspace_id: WORKSPACE.into(),
                focused: Some(&pane_id) == source.as_ref(),
                pane_id,
                ..Default::default()
            })
            .collect();
        tabs.push(TabEntry {
            tab: Tab {
                tab_id,
                workspace_id: WORKSPACE.into(),
                label: label.map(str::to_string),
                pane_count: panes.len() as u32,
                focused: index == 0,
                agent_status: AgentStatus::Unknown,
            },
            position: index + 1,
            shape: (panes.len() > 1).then_some(shape),
            layout_known: true,
            panes,
        });
    }
    let source_id = source.expect("one pane must be marked `*`");
    let source = tabs
        .iter()
        .flat_map(|tab| tab.panes.iter())
        .find(|pane| pane.pane_id == source_id)
        .cloned()
        .expect("the `*` pane must be in a tab");
    Snapshot::of(
        Workspace { workspace_id: WORKSPACE.into(), label: None, focused: true, agent_status: AgentStatus::Unknown },
        tabs,
        source,
    )
}

fn tab(snapshot: &Snapshot, id: &str) -> TabEntry {
    snapshot
        .tabs
        .iter()
        .find(|tab| tab.tab.tab_id == pane(id))
        .cloned()
        .unwrap_or_else(|| panic!("no tab {id} in this session"))
}

/// The arrangement a plan would leave in its destination tab: the first
/// pane beside the destination's anchor (or the named pane), then the
/// plan's own placements or a chain along the side.
fn outcome(snapshot: &Snapshot, plan: &Plan) -> String {
    let mut shape = match &plan.destination {
        Destination::Tab { tab_id, target_pane } => {
            let entry = snapshot.tabs.iter().find(|tab| tab.tab.tab_id == *tab_id).expect("destination tab");
            let anchor = entry.split_anchor().expect("destination has a pane");
            let mut shape = entry.shape.clone().unwrap_or_else(|| Shape::pane(&anchor.pane_id));
            let target = target_pane.clone().unwrap_or_else(|| anchor.pane_id.clone());
            shape.split(&target, &plan.panes[0], plan.placement.side);
            shape
        }
        _ => Shape::pane(&plan.panes[0]),
    };
    if plan.internal.is_empty() {
        let mut anchor = plan.panes[0].clone();
        for pane_id in plan.panes.iter().skip(1) {
            shape.split(&anchor, pane_id, plan.placement.side);
            anchor = pane_id.clone();
        }
    } else {
        for placement in &plan.internal {
            shape.split(&placement.anchor, &placement.pane_id, placement.side);
        }
    }
    shape.signature()
}

fn operation(spec: &str, verb: Verb, destination: Destination) -> String {
    let snapshot = session(spec);
    let request = Request {
        verb,
        source_pane: snapshot.source.pane_id.clone(),
        source_tab: Some(snapshot.source.tab_id.clone()),
        destination,
        placement: Placement::default(),
        preserve_layout: true,
    };
    let plan = build(&snapshot, &request).expect("the request is valid");
    outcome(&snapshot, &plan)
}

fn preview(spec: &str, choice: Choice) -> String {
    let snapshot = session(spec);
    let panels = operation_preview(&choice, &snapshot, &Config::default());
    panels.last().and_then(|panel| panel.shape.as_ref()).map(Shape::signature).unwrap_or_default()
}

fn into_tab(id: &str) -> Destination {
    Destination::Tab { tab_id: pane(id), target_pane: None }
}

fn drawn(panels: &[Panel]) -> Vec<String> {
    panels.iter().map(|panel| panel.shape.as_ref().map(Shape::signature).unwrap_or_default()).collect()
}

// ----- the notation itself -----

#[test]
fn a_session_reads_back_as_the_arrangement_it_describes() {
    let snapshot = session("t1 herdr-plugins: p5 | p1* ; t2: pB");
    assert_eq!(snapshot.tabs.len(), 2);
    assert_eq!(snapshot.source.pane_id, "w1:p1");
    assert_eq!(tab(&snapshot, "t1").shape.unwrap().signature(), "(r w1:p5 w1:p1)");
    assert_eq!(tab(&snapshot, "t1").tab.label.as_deref(), Some("herdr-plugins"));
    assert!(tab(&snapshot, "t2").shape.is_none());
}

#[test]
fn splits_group_left_and_parentheses_override_that() {
    let flat = session("t1: a | b | c*");
    assert_eq!(tab(&flat, "t1").shape.unwrap().signature(), "(r (r w1:a w1:b) w1:c)");
    let nested = session("t1: a* | (b / c)");
    assert_eq!(tab(&nested, "t1").shape.unwrap().signature(), "(r w1:a (d w1:b w1:c))");
}

// ----- the plan and the picture agree -----

#[test]
fn move_puts_the_pane_beside_the_destinations_first_one() {
    let spec = "t1: p5 | p1* ; t2: pB";
    assert_eq!(operation(spec, Verb::Move, into_tab("t2")), "(r w1:pB w1:p1)");
    assert_eq!(preview(spec, Choice::Move), "(r w1:pB w1:p1)");
}

#[test]
fn move_into_a_split_tab_splits_the_pane_it_lands_on() {
    let spec = "t1: p1* ; t2: pB | pC";
    assert_eq!(operation(spec, Verb::Move, into_tab("t2")), "(r (r w1:pB w1:p1) w1:pC)");
    assert_eq!(preview(spec, Choice::Move), "(r (r w1:pB w1:p1) w1:pC)");
}

#[test]
fn extract_leaves_the_pane_alone_in_its_own_tab() {
    let spec = "t1: p5 | p1*";
    assert_eq!(operation(spec, Verb::Extract, Destination::NewTab { label: None }), "w1:p1");
    assert_eq!(preview(spec, Choice::Extract), "w1:p1");
}

#[test]
fn folding_two_onto_one_stacks_the_pair_beside_it() {
    for spec in ["t1: p5 | p1* ; t2: pB", "t1: p5 / p1* ; t2: pB"] {
        assert_eq!(operation(spec, Verb::Merge, into_tab("t2")), "(r w1:pB (d w1:p5 w1:p1))", "{spec}");
        assert_eq!(preview(spec, Choice::Merge), "(r w1:pB (d w1:p5 w1:p1))", "{spec}");
    }
}

#[test]
fn folding_more_than_two_keeps_the_source_tabs_own_splits() {
    let spec = "t1: p5 | (p1* / pC) ; t2: pB";
    assert_eq!(operation(spec, Verb::Merge, into_tab("t2")), "(r w1:pB (r w1:p5 (d w1:p1 w1:pC)))");
    assert_eq!(preview(spec, Choice::Merge), "(r w1:pB (r w1:p5 (d w1:p1 w1:pC)))");
}

#[test]
fn folding_into_a_tab_that_already_has_two_panes_keeps_both_arrangements() {
    let spec = "t1: p5 / p1* ; t2: pB | pD";
    assert_eq!(operation(spec, Verb::Merge, into_tab("t2")), "(r (r w1:pB (d w1:p5 w1:p1)) w1:pD)");
    assert_eq!(preview(spec, Choice::Merge), "(r (r w1:pB (d w1:p5 w1:p1)) w1:pD)");
}

#[test]
fn the_fill_marks_the_pane_the_reader_is_sitting_in() {
    let snapshot = session("t1: p5 | p1* ; t2: pB");
    let panels = operation_preview(&Choice::Merge, &snapshot, &Config::default());
    for panel in &panels {
        assert_eq!(panel.marked, vec!["w1:p1".to_string()]);
    }
}

#[test]
fn split_next_to_draws_the_tab_each_row_would_make() {
    let snapshot = session("t1: p1* ; t2: pB | pC");
    let t2 = tab(&snapshot, "t2");
    assert_eq!(
        drawn(&split_beside(&t2, &pane("pB"), &snapshot.source, Side::Right)),
        ["(r (r w1:pB w1:p1) w1:pC)"]
    );
    assert_eq!(
        drawn(&split_beside(&t2, &pane("pC"), &snapshot.source, Side::Down)),
        ["(r w1:pB (d w1:pC w1:p1))"]
    );
}

#[test]
fn split_next_to_fills_the_pane_that_arrives() {
    let snapshot = session("t1: p1* ; t2: pB | pC");
    let t2 = tab(&snapshot, "t2");
    let panels = split_beside(&t2, &pane("pB"), &snapshot.source, Side::Right);
    assert_eq!(panels[0].marked, vec![pane("p1")]);
    assert_eq!(panels[0].caption, "2");
}

#[test]
fn a_swap_inside_one_tab_keeps_the_shape_and_trades_the_names() {
    let snapshot = session("t1: p5 | p1*");
    let target = snapshot.pane(&pane("p5")).unwrap().clone();
    let panels = swap_panels(&snapshot, &target);
    assert_eq!(drawn(&panels), ["(r w1:p5 w1:p1)"]);
    assert_eq!(
        panels[0].labels,
        vec![(pane("p5"), "p1".to_string()), (pane("p1"), "p5".to_string())]
    );
    assert_eq!(panels[0].marked, vec![pane("p5")]);
}

#[test]
fn a_swap_across_tabs_redraws_both_of_them() {
    let snapshot = session("t1: p5 | p1* ; t2: pB");
    let target = snapshot.pane(&pane("pB")).unwrap().clone();
    let panels = swap_panels(&snapshot, &target);
    assert_eq!(drawn(&panels), ["(r w1:p5 w1:p1)", "w1:pB"]);
    assert_eq!(panels[0].caption, "1");
    assert_eq!(panels[1].caption, "2");
    assert!(panels[0].marked.is_empty());
    assert_eq!(panels[1].marked, vec![pane("pB")]);
    assert!(panels[0].labels.contains(&(pane("p1"), "pB".to_string())));
    assert_eq!(panels[1].labels, vec![(pane("pB"), "p1".to_string())]);
}

#[test]
fn a_fold_row_draws_the_same_arrangement_the_landing_screen_does() {
    let snapshot = session("t1: p5 | p1* ; t2: pB");
    let here = snapshot.source_tab().unwrap();
    let moving: Vec<String> = here.panes.iter().map(|p| p.pane_id.clone()).collect();
    let labels: Vec<(String, String)> = here.panes.iter().map(|p| (p.pane_id.clone(), pane_number(p))).collect();
    let row = folded_into(&tab(&snapshot, "t2"), &moving, &labels, here.shape.as_ref(), &Config::default());
    assert_eq!(
        row.shape.as_ref().map(Shape::signature).unwrap(),
        preview("t1: p5 | p1* ; t2: pB", Choice::Merge)
    );
}

#[test]
fn a_move_names_the_pane_it_will_split() {
    let snapshot = session("t1: p1* ; t2: pB | pC");
    let request = Request {
        verb: Verb::Move,
        source_pane: snapshot.source.pane_id.clone(),
        source_tab: None,
        destination: into_tab("t2"),
        placement: Placement { side: Side::Left, ..Default::default() },
        preserve_layout: false,
    };
    let plan = build(&snapshot, &request).unwrap();
    assert!(matches!(
        plan.destination,
        Destination::Tab { ref tab_id, target_pane: Some(ref t) } if *tab_id == pane("t2") && *t == pane("pB")
    ));
}

#[test]
fn a_move_splits_the_focused_pane_of_the_destination() {
    let mut snapshot = session("t1: p1* ; t2: pB | pC");
    let t2 = snapshot.tabs.iter_mut().find(|tab| tab.tab.tab_id == pane("t2")).unwrap();
    t2.panes[1].focused = true;
    let request = Request {
        verb: Verb::Move,
        source_pane: snapshot.source.pane_id.clone(),
        source_tab: None,
        destination: into_tab("t2"),
        placement: Placement::default(),
        preserve_layout: false,
    };
    let plan = build(&snapshot, &request).unwrap();
    assert!(matches!(
        plan.destination,
        Destination::Tab { ref tab_id, target_pane: Some(ref t) } if *tab_id == pane("t2") && *t == pane("pC")
    ));
    assert_eq!(outcome(&snapshot, &plan), "(r w1:pB (r w1:pC w1:p1))");
    let drawn = operation_preview(&Choice::Move, &snapshot, &Config::default());
    assert_eq!(
        drawn.last().and_then(|panel| panel.shape.as_ref()).map(Shape::signature).unwrap(),
        "(r w1:pB (r w1:pC w1:p1))"
    );
}

#[test]
fn the_legend_names_every_pane_the_picture_mentions() {
    let mut snapshot = session("t1: p5 | p1* ; t2: pB");
    snapshot.tabs[0].panes[0].agent = Some("aider".into());
    snapshot.tabs[0].panes[0].label = Some("review".into());
    snapshot.tabs[0].panes[1].agent = Some("goose".into());
    snapshot.tabs[0].panes[1].label = Some("pane manager".into());

    let panels = operation_preview(&Choice::Merge, &snapshot, &Config::default());
    let lines = legend(&panels, &snapshot);
    assert_eq!(lines.len(), 4);
    assert_eq!(lines[0], "░ p1");
    assert!(lines[1].starts_with("p5: "));
    assert!(lines[1].contains("review"));
    assert!(lines[1].ends_with("| aider"));
    assert!(lines[2].starts_with("p1: "));
    assert!(lines[2].ends_with("| goose"));
    assert!(lines[3].starts_with("pB: "));
    assert!(!lines[3].contains('|'));
}

#[test]
fn the_legend_skips_panes_that_are_only_placeholders() {
    let snapshot = session("t1: p1*");
    let panels = gather_panels(0, &["p1".into()], &Config::default());
    assert!(legend(&panels, &snapshot).is_empty());
}

#[test]
fn a_tab_whose_layout_could_not_be_read_is_not_guessed_at() {
    let mut snapshot = session("t1: p5 | p1* ; t2: pB | pC");
    for tab in &mut snapshot.tabs {
        tab.shape = None;
        tab.layout_known = false;
    }
    let panels = operation_preview(&Choice::Move, &snapshot, &Config::default());
    assert!(panels.iter().all(|panel| panel.unreadable));
    assert!(panels.iter().all(|panel| panel.shape.is_none()));
    assert_eq!(panels[0].caption, "1");
}

#[test]
fn a_tab_of_one_pane_is_known_rather_than_unreadable() {
    let snapshot = session("t1: p1* ; t2: pB");
    let panels = operation_preview(&Choice::Move, &snapshot, &Config::default());
    assert!(panels.iter().all(|panel| !panel.unreadable));
    assert_eq!(drawn(&panels), ["w1:p1", "(r w1:pB w1:p1)"]);
}

#[test]
fn a_new_tab_is_drawn_in_front_of_the_one_it_comes_from() {
    let snapshot = session("t1 herdr-plugins: p5 | p1*");
    let panels = operation_preview(&Choice::Extract, &snapshot, &Config::default());
    let new_tab = panels.last().unwrap();
    assert!(new_tab.stacked);
    assert_eq!(new_tab.behind.as_deref(), Some("herdr-plugins"));
    assert_eq!(here_name(&snapshot), "herdr-plugins");
}

#[test]
fn a_gather_that_fills_two_tabs_is_drawn_as_two_sheets() {
    let mut config = Config::default();
    config.gather.max_panes_per_tab = 2;
    assert!(!gather_panels(0, &["p1".into(), "p5".into()], &config)[0].stacked);
    let many: Vec<String> = (1..=5).map(|n| format!("p{n}")).collect();
    let panel = &gather_panels(0, &many, &config)[0];
    assert!(panel.stacked);
    assert_eq!(panel.behind.as_deref(), Some(config.gather.tab_label.as_str()));
}

#[test]
fn a_gather_counts_every_pane_with_an_agent_in_it() {
    let mut snapshot = session("t1: p1* | p5");
    snapshot.tabs[0].panes[0].agent = Some("goose".into());
    snapshot.tabs[0].panes[0].agent_status = AgentStatus::Working;
    snapshot.tabs[0].panes[1].agent = Some("aider".into());
    snapshot.tabs[0].panes[1].agent_status = AgentStatus::Idle;
    assert_eq!(gatherable_here(&snapshot, &Config::default()), ["p1", "p5"]);

    snapshot.tabs[0].panes[1].agent = None;
    assert_eq!(gatherable_here(&snapshot, &Config::default()), ["p1"]);
}

// ----- the pane manager's own preview tests -----

fn entry(tab_id: &str, label: Option<&str>, panes: &[&str], shape: Option<Shape>) -> TabEntry {
    TabEntry {
        tab: Tab {
            tab_id: tab_id.to_string(),
            workspace_id: "w1".into(),
            label: label.map(str::to_string),
            pane_count: panes.len() as u32,
            focused: false,
            agent_status: AgentStatus::Unknown,
        },
        position: 1,
        layout_known: true,
        panes: panes
            .iter()
            .map(|id| Pane {
                pane_id: format!("w1:{id}"),
                tab_id: tab_id.to_string(),
                workspace_id: "w1".into(),
                ..Default::default()
            })
            .collect(),
        shape,
    }
}

#[test]
fn the_most_urgent_agent_is_counted_first() {
    let mut snapshot = session("t1: p1* | p5 | p3");
    for (pane, status) in snapshot.tabs[0].panes.iter_mut().zip([AgentStatus::Working, AgentStatus::Blocked, AgentStatus::Working]) {
        pane.agent = Some("goose".into());
        pane.agent_status = status;
    }
    assert_eq!(gatherable_here(&snapshot, &Config::default()), ["p5", "p1", "p3"]);
    let only_aider = Config {
        gather: herdr_kit::pm_config::GatherConfig { agents: vec!["AIDER".into()], ..Default::default() },
        ..Config::default()
    };
    snapshot.tabs[0].panes[2].agent = Some("aider".into());
    assert_eq!(gatherable_here(&snapshot, &only_aider), ["p3"]);
}

#[test]
fn a_caption_reads_the_way_the_tab_bar_does() {
    assert_eq!(tab_number(&entry("w1:t1", Some("herdr-plugins"), &["p1"], None)), "herdr-plugins");
    assert_eq!(tab_number(&entry("w1:t2", None, &["p1"], None)), "1");
}

#[test]
fn folding_keeps_the_source_tabs_own_arrangement() {
    let mut source = Shape::pane("w1:p5");
    source.split("w1:p5", "w1:p1", Side::Down);
    let destination = entry("w1:t2", None, &["pB"], None);
    let moving = vec!["w1:p5".to_string(), "w1:p1".to_string()];
    let panel = folded_into(&destination, &moving, &[], Some(&source), &Config::default());
    assert_eq!(panel.shape.unwrap().signature(), "(r w1:pB (d w1:p5 w1:p1))");
}

#[test]
fn folding_two_panes_onto_one_makes_a_column_beside_it() {
    let mut source = Shape::pane("w1:p5");
    source.split("w1:p5", "w1:p1", Side::Right);
    let destination = entry("w1:t2", None, &["pB"], None);
    let moving = vec!["w1:p5".to_string(), "w1:p1".to_string()];
    let panel = folded_into(&destination, &moving, &[], Some(&source), &Config::default());
    assert_eq!(panel.shape.unwrap().signature(), "(r w1:pB (d w1:p5 w1:p1))");
}

#[test]
fn a_fold_without_the_source_shape_chains_along_the_side() {
    let mut destination = entry("w1:t2", None, &["pB", "pC"], None);
    destination.layout_known = false;
    let moving = vec!["w1:p5".to_string(), "w1:p1".to_string(), "w1:p7".to_string()];
    // The destination's shape could not be read: not drawn.
    let panel = folded_into(&destination, &moving, &[], None, &Config::default());
    assert!(panel.unreadable);
    // One pane, so its shape is known: the three arrive chained.
    let destination = entry("w1:t2", None, &["pB"], None);
    let panel = folded_into(&destination, &moving, &[], None, &Config::default());
    assert_eq!(panel.shape.unwrap().signature(), "(r w1:pB (r w1:p5 (r w1:p1 w1:p7)))");
    assert_eq!(panel.marked, moving);
}

#[test]
fn a_picture_line_names_the_pane_and_its_agent() {
    let mut p = Pane { pane_id: "w1:p3".into(), label: Some("notes".into()), ..Default::default() };
    assert_eq!(pane_line(&p), "p3: notes");
    p.agent = Some("aider".into());
    assert_eq!(pane_line(&p), "p3: notes | aider");
    let busy = entry("w1:t1", None, &["p1", "p2", "p3", "p4", "p5", "p6"], None);
    assert_eq!(tab_contents(&busy), "p1: w1:p1 · p2: w1:p2 · p3: w1:p3 · p4: w1:p4 +2");
}

#[test]
fn an_arriving_pane_is_drawn_with_the_stand_in_when_there_is_no_destination_pane() {
    let empty = entry("w1:t2", None, &[], None);
    let panel = folded_into(&empty, &["w1:p1".to_string()], &[], None, &Config::default());
    assert_eq!(panel.marked, [ARRIVING]);
}


// ----- the landing screen -----

fn item_titles(menu: &Menu<Choice>) -> Vec<String> {
    menu.screen
        .rows
        .iter()
        .zip(menu.values.iter())
        .filter(|(_, value)| value.is_some())
        .map(|(row, _)| row.primary.clone())
        .collect()
}

fn row_titles(snapshot: &Snapshot, config: &Config) -> Vec<String> {
    let menu = manager_menu(snapshot, config, None, true, snapshot.next_pane_here(), &[], false, None, None);
    item_titles(&menu)
}

#[test]
fn a_row_only_promises_a_next_screen_when_the_key_opens_one() {
    // With the default action set to Quick the plain key moves the pane;
    // an ellipsis there says "a picker is coming" and none is.
    let snapshot = session("t1: p5 | p1* ; t2: pB");
    let quick = Config::default();
    assert_eq!(quick.default_action, DefaultAction::Quick);
    assert!(row_titles(&snapshot, &quick).iter().all(|title| !title.ends_with('…')));

    let detailed = Config { default_action: DefaultAction::Detailed, ..Config::default() };
    assert!(row_titles(&snapshot, &detailed).iter().any(|title| title == "Move to…"));
}

#[test]
fn fold_is_not_offered_when_there_is_nowhere_to_fold_into() {
    // It used to offer to choose a destination and then say there were
    // none.
    let alone = session("t1: p5 | p1*");
    assert!(!row_titles(&alone, &Config::default()).iter().any(|title| title.starts_with("Fold")));

    let pair = session("t1: p5 | p1* ; t2: pB");
    assert!(row_titles(&pair, &Config::default()).iter().any(|title| title.starts_with("Fold")));
}

fn origin(pane_id: &str, tab_label: &str) -> Origin {
    Origin {
        pane_id: pane_id.to_string(),
        workspace_id: WORKSPACE.to_string(),
        tab_id: pane("t1"),
        tab_label: Some(tab_label.to_string()),
        tab_index: 0,
        anchor: None,
        side: None,
        order: 0,
        focused: false,
    }
}

#[test]
fn the_landing_screen_lists_its_rows_in_order() {
    let snapshot = session("t1: p5 | p1* ; t2 review: pB");
    let record = Record {
        verb: "Move".to_string(),
        subject: "p1".to_string(),
        origins: vec![origin("w1:p1", "herdr-plugins")],
        swap: None,
        created_tabs: Vec::new(),
        unix_ms: 0,
    };
    let gathered = Session { origins: vec![origin("w1:p5", "herdr-plugins")], ..Session::default() };
    let menu = manager_menu(
        &snapshot,
        &Config::default(),
        Some("bad value"),
        false,
        snapshot.next_pane_here(),
        &["p5".to_string()],
        true,
        Some(&record),
        Some(&gathered),
    );
    assert_eq!(
        menu.values,
        vec![
            Some(Choice::Move),
            Some(Choice::Swap),
            Some(Choice::Extract),
            Some(Choice::Merge),
            None,
            Some(Choice::Undo),
            None,
            Some(Choice::Gather),
            Some(Choice::Restore),
            None,
            Some(Choice::Cancel),
            None,
            None,
        ]
    );
    let rows = &menu.screen.rows;
    assert_eq!(rows[0].secondary.as_deref(), Some("review へ現在の Pane を移す"));
    assert_eq!(rows[3].secondary.as_deref(), Some("review へこの Tab 全体を畳む"));
    assert_eq!(rows[5].secondary.as_deref(), Some("Move p1 を取り消す"));
    assert_eq!(
        rows[7].secondary.as_deref(),
        Some("この Workspace の Agent を更新が新しい順に最大 4 Pane、1つの Tab へ集める")
    );
    assert!(rows[7].preview.is_some());
    assert_eq!(rows[8].secondary.as_deref(), Some("Gather した 1 個を元の Tab へ"));
    assert_eq!(rows[12].primary, "config: bad value");
    assert_eq!(menu.screen.title, "Pane Manager");
    assert_eq!(menu.screen.no_preview, "この操作は Pane の配置を変えません");
}

#[test]
fn a_lone_tab_moves_to_a_new_tab_and_offers_no_undo_it_cannot_do() {
    let snapshot = session("t1: p5 | p1*");
    let nothing = Record {
        verb: "Move".to_string(),
        subject: String::new(),
        origins: Vec::new(),
        swap: None,
        created_tabs: Vec::new(),
        unix_ms: 0,
    };
    let menu = manager_menu(&snapshot, &Config::default(), None, true, None, &[], false, Some(&nothing), None);
    assert_eq!(
        menu.values,
        vec![
            Some(Choice::Move),
            Some(Choice::Swap),
            Some(Choice::Extract),
            None,
            Some(Choice::Gather),
            None,
            Some(Choice::Cancel),
        ]
    );
    let rows = &menu.screen.rows;
    assert_eq!(rows[0].secondary.as_deref(), Some("新しい Tab へ現在の Pane を移す"));
    assert_eq!(rows[1].secondary.as_deref(), Some("入れ替える相手を選ぶ"));
    assert!(rows[1].preview.is_none());
    // With no agents counted, the Gather row draws nothing.
    assert!(rows[4].preview.is_none());
}

#[test]
fn the_swap_row_names_the_pane_it_trades_with() {
    let snapshot = session("t1: p5 | p1*");
    let partner = snapshot.next_pane_here();
    assert!(partner.is_some());
    let menu = manager_menu(&snapshot, &Config::default(), None, true, partner, &[], false, None, None);
    let line = menu.screen.rows[1].secondary.clone().unwrap();
    assert!(line.ends_with(" と入れ替える"), "{line}");
    assert!(menu.screen.rows[1].preview.is_some());
}

// ----- the pickers below the landing screen -----

use herdr_kit::layout::Ratio;
use herdr_kit::ops::Destination as Dest;
use herdr_kit::pickers::{
    after_move_pick, confirm_menu, fold_menu, move_menu, placement_target, ratio_menu, side_menu, split_menu, swap_menu,
    MoveStep, Pick,
};

#[test]
fn the_move_list_offers_every_other_tab_and_two_new_places() {
    let snapshot = session("t1: p5 | p1* ; t2 review: pB");
    let menu = move_menu(&snapshot, &Config::default(), false, false);
    assert_eq!(menu.screen.title, "Move to…");
    assert_eq!(menu.values, vec![Some(Pick::Tab(pane("t2"))), None, Some(Pick::NewTab), Some(Pick::NewWorkspace)]);
    assert_eq!(menu.screen.rows[0].primary, "Tab 2: review");
    assert_eq!(menu.screen.rows[0].hotkey.as_deref(), Some("2"));
    assert!(menu.screen.rows[0].preview.is_some());
    assert!(menu.screen.subtitle.as_deref().unwrap().ends_with(" を、選んだ Tab へ移します"));
    let forced = move_menu(&snapshot, &Config::default(), true, true);
    assert!(forced.screen.subtitle.as_deref().unwrap().ends_with(" · 位置を指定します"));
    let shift = move_menu(&snapshot, &Config::default(), false, true);
    assert!(shift.screen.subtitle.as_deref().unwrap().ends_with(" · Shift+Enter で位置を指定"));
}

#[test]
fn the_fold_list_names_the_tab_it_empties() {
    let snapshot = session("t1: p5 | p1* ; t2: pB");
    let menu = fold_menu(&snapshot, &Config::default(), None).unwrap();
    assert_eq!(menu.screen.title, "Fold into…");
    assert_eq!(menu.screen.subtitle.as_deref(), Some("Tab 1 の 2 Pane を、選んだ Tab へまとめて移します"));
    assert_eq!(menu.values, vec![Some(Pick::Tab(pane("t2")))]);
    let gone = fold_menu(&snapshot, &Config::default(), Some("w1:t9"));
    assert_eq!(gone.err().as_deref(), Some("Source tab no longer exists."));
    let alone = session("t1: p5 | p1*");
    let menu = fold_menu(&alone, &Config::default(), None).unwrap();
    assert_eq!(menu.values, vec![None]);
    assert_eq!(menu.screen.rows[0].primary, "このセッションに他の Tab がありません。");
}

#[test]
fn the_swap_list_groups_panes_under_their_tab() {
    let snapshot = session("t1: p5 | p1* ; t2: pB");
    let menu = swap_menu(&snapshot, &Config::default());
    assert_eq!(menu.values, vec![None, Some(pane("p5")), None, None, Some(pane("pB"))]);
    assert_eq!(menu.screen.rows[0].primary, "Tab 1");
    assert_eq!(menu.screen.rows[3].primary, "Tab 2");
    assert_eq!(menu.screen.rows[1].hotkey.as_deref(), Some("1"));
    assert_eq!(menu.screen.rows[4].hotkey.as_deref(), Some("2"));
    let alone = session("t1: p1*");
    assert_eq!(swap_menu(&alone, &Config::default()).values, vec![None]);
}

#[test]
fn the_split_list_starts_with_auto() {
    let snapshot = session("t1: p1* ; t2: pB | pC");
    let menu = split_menu(&snapshot, &pane("t2"), &Config::default()).unwrap();
    assert_eq!(menu.values, vec![Some(None), None, Some(Some(pane("pB"))), Some(Some(pane("pC")))]);
    assert_eq!(menu.screen.rows[0].primary, "Auto");
    assert!(menu.screen.rows[0].preview.is_some());
    assert_eq!(menu.screen.rows[3].hotkey.as_deref(), Some("2"));
    assert_eq!(split_menu(&snapshot, "w1:t9", &Config::default()).err().as_deref(), Some("Destination tab no longer exists."));
}

#[test]
fn sides_and_shares_are_offered_in_a_fixed_order() {
    let sides = side_menu("Move current pane", None);
    assert_eq!(sides.values, vec![Some(Side::Right), Some(Side::Down), Some(Side::Left), Some(Side::Up)]);
    assert_eq!(sides.screen.rows[0].primary, "Right");
    assert_eq!(sides.screen.rows[0].hotkey.as_deref(), Some("l"));
    assert_eq!(sides.screen.subtitle.as_deref(), Some("Move current pane の、どちら側に置きますか"));
    let shape = Shape::pane("a");
    let drawn = side_menu("Move current pane", Some((&shape, "a")));
    assert!(drawn.screen.rows.iter().all(|row| row.preview.is_some()));
    let shares = ratio_menu("Move current pane");
    let labels: Vec<&str> = shares.screen.rows.iter().map(|r| r.primary.as_str()).collect();
    assert_eq!(labels, ["50:50", "60:40", "40:60"]);
    assert_eq!(shares.values[1], Some(Ratio(herdr_kit::layout::SIXTY_FORTY)));
    let yes_no = confirm_menu("Merge Tab 1 into this tab?");
    assert_eq!(yes_no.values, vec![Some(true), Some(false)]);
}

#[test]
fn a_move_pick_asks_for_a_place_only_when_wanted() {
    let snapshot = session("t1: p5 | p1* ; t2: pB");
    let config = Config::default();
    let tab = Pick::Tab(pane("t2"));
    assert!(matches!(after_move_pick(&tab, false, false, "", &snapshot, &config), MoveStep::Place(t) if t == pane("t2")));
    assert!(matches!(after_move_pick(&tab, true, false, "", &snapshot, &config), MoveStep::Detailed(_)));
    // Shift takes back what the screen before had settled.
    assert!(matches!(after_move_pick(&tab, true, true, "", &snapshot, &config), MoveStep::Place(_)));
    let advanced = Config { advanced_move: true, ..Config::default() };
    assert!(matches!(after_move_pick(&tab, false, false, "", &snapshot, &advanced), MoveStep::ChooseTarget(_)));
    match after_move_pick(&Pick::NewTab, false, false, "  review ", &snapshot, &config) {
        MoveStep::Run(request) => {
            assert_eq!(request.verb, Verb::Extract);
            assert!(matches!(request.destination, Dest::NewTab { label: Some(ref l) } if l == "review"));
        }
        other => panic!("expected a request, got {other:?}"),
    }
}

#[test]
fn a_tab_of_one_pane_is_drawn_as_that_pane() {
    let snapshot = session("t1: p1* ; t2: pB");
    let (shape, anchor) = placement_target(&snapshot, &pane("t2"), None).unwrap();
    assert_eq!(anchor, pane("pB"));
    assert_eq!(shape.signature(), pane("pB"));
    let (_, named) = placement_target(&snapshot, &pane("t2"), Some("w1:pZ")).unwrap();
    assert_eq!(named, "w1:pZ");
}
