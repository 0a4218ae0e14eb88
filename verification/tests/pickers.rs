use herdr_kit::model::{Pane, PluginAction};
use herdr_kit::navigator::Scope;
use herdr_kit::open::{build, builtin, copy_target, footer, git_root_from, pane_dir, tilde, Config, Target};
use herdr_kit::palette::{next_facet, previous_facet, Facet};

// ----- the directory a pane is in -----

fn pane(cwd: Option<&str>, foreground: Option<&str>) -> Pane {
    Pane {
        cwd: cwd.map(str::to_string),
        foreground_cwd: foreground.map(str::to_string),
        ..Default::default()
    }
}

#[test]
fn the_foreground_directory_wins() {
    let dir = pane_dir(&pane(Some("/a"), Some("/a/b"))).unwrap();
    assert_eq!(dir, "/a/b");
}

#[test]
fn the_shell_directory_is_the_fallback() {
    assert_eq!(pane_dir(&pane(Some("/a"), None)).unwrap(), "/a");
    assert_eq!(pane_dir(&pane(Some("/a"), Some("  "))).unwrap(), "/a");
}

#[test]
fn a_pane_without_a_directory_is_an_error_not_a_guess() {
    assert!(pane_dir(&pane(None, None)).is_err());
}

#[test]
fn tilde_only_shortens_the_home_prefix() {
    assert_eq!(tilde("/Users/x/src", Some("/Users/x")), "~/src");
    assert_eq!(tilde("/opt/homebrew", Some("/Users/x")), "/opt/homebrew");
    assert_eq!(tilde("/Users/x", Some("")), "/Users/x");
    assert_eq!(tilde("/Users/x/src", None), "/Users/x/src");
}

#[test]
fn a_repository_root_counts_only_when_it_differs_from_the_directory() {
    assert_eq!(git_root_from(Some("/repo\n"), "/repo/sub").as_deref(), Some("/repo"));
    assert_eq!(git_root_from(Some("/repo\n"), "/repo"), None);
    assert_eq!(git_root_from(Some("  \n"), "/repo"), None);
    assert_eq!(git_root_from(None, "/repo"), None);
}

// ----- open targets -----

fn sample() -> Target {
    Target {
        id: "editor".into(),
        title: "Open in VS Code".into(),
        command: vec!["code".into(), "{dir}".into()],
        hotkey: Some("e".into()),
        description: None,
        requires: None,
    }
}

#[test]
fn placeholders_are_filled_in() {
    let mut t = sample();
    t.command = ["x", "{dir}", "{name}", "{parent}"].iter().map(|s| s.to_string()).collect();
    assert_eq!(
        t.argv("/Users/x/src/herdr-plugins"),
        vec!["x", "/Users/x/src/herdr-plugins", "herdr-plugins", "/Users/x/src"]
    );
}

#[test]
fn a_path_is_never_reparsed_as_shell_syntax() {
    let Some(copy) = copy_target(Some("pbcopy")) else { return };
    let argv = copy.argv("/tmp/a b'c");
    assert_eq!(argv.last().unwrap(), "/tmp/a b'c");
    assert!(argv[2].contains("\"$1\""));
}

#[test]
fn requires_overrides_the_first_word() {
    let mut t = sample();
    t.command = vec!["sh".into(), "-c".into(), "true".into()];
    assert_eq!(t.required_program(), Some("sh"));
    t.requires = Some("pbcopy".into());
    assert_eq!(t.required_program(), Some("pbcopy"));
}

#[test]
fn an_unknown_id_lists_what_is_configured() {
    let config = Config::with_builtin(true, Some("pbcopy"));
    let installed = vec![true; config.target.len()];
    let err = config.find("emacs", &installed).unwrap_err();
    assert!(err.contains("finder"), "{err}");
}

#[test]
fn a_known_id_that_cannot_run_here_says_so() {
    let config = Config::with_builtin(true, Some("pbcopy"));
    let mut installed = vec![true; config.target.len()];
    assert_eq!(config.find("finder", &installed).unwrap().id, "finder");
    let finder = config.target.iter().position(|t| t.id == "finder").unwrap();
    installed[finder] = false;
    assert!(config.find("finder", &installed).is_err());
}

#[test]
fn built_in_ids_are_unique_and_stable() {
    let targets = builtin(true, Some("pbcopy"));
    let ids: Vec<&str> = targets.iter().map(|t| t.id.as_str()).collect();
    assert!(ids.contains(&"finder"));
    assert!(ids.contains(&"editor"));
    let mut sorted = ids.clone();
    sorted.sort_unstable();
    sorted.dedup();
    assert_eq!(sorted.len(), ids.len());
}

#[test]
fn every_available_target_gets_a_row() {
    let config = Config::with_builtin(true, Some("pbcopy"));
    let installed = vec![true; config.target.len()];
    let targets = config.available(&installed);
    let pane = Pane {
        cwd: Some("/Users/x/src/herdr-plugins/herdr-open".into()),
        ..Default::default()
    };
    let menu = build(&pane, &targets, "/Users/x/src", false, false, Some("/Users/x"));
    assert_eq!(menu.is_empty(), targets.is_empty());
    assert_eq!(menu.screen.subtitle.as_deref(), Some("~/src"));
}

#[test]
fn the_git_root_key_is_only_advertised_when_there_is_one() {
    assert!(footer(true).contains("g git root"));
    assert!(!footer(false).contains("git root"));
}

// ----- the command palette -----

fn action(plugin: &str, id: &str) -> PluginAction {
    PluginAction {
        plugin_id: plugin.into(),
        action_id: id.into(),
        title: id.into(),
        description: None,
        contexts: Vec::new(),
    }
}

fn actions() -> Vec<PluginAction> {
    vec![
        action("pane-manager", "move"),
        action("pane-manager", "swap"),
        action("navigator", "find"),
    ]
}

#[test]
fn there_is_one_facet_per_plugin_that_has_actions() {
    assert_eq!(
        Facet::all(&actions()),
        [Facet::All, Facet::Only("pane-manager".into()), Facet::Only("navigator".into())]
    );
    assert_eq!(Facet::all(&[]), [Facet::All]);
}

#[test]
fn tab_walks_the_facets_and_comes_back_round() {
    let facets = Facet::all(&actions());
    let mut facet = Facet::All;
    for _ in 0..facets.len() {
        facet = next_facet(&facet, &facets);
    }
    assert_eq!(facet, Facet::All, "the cycle must close");
    assert_eq!(previous_facet(&Facet::All, &facets), Facet::Only("navigator".into()));
}

#[test]
fn a_facet_keeps_only_its_own_plugins_actions() {
    let only = Facet::Only("pane-manager".into());
    let sample = actions();
    let kept: Vec<&str> = sample
        .iter()
        .filter(|action| only.holds(action))
        .map(|action| action.action_id.as_str())
        .collect();
    assert_eq!(kept, ["move", "swap"]);
    assert_eq!(sample.iter().filter(|a| Facet::All.holds(a)).count(), 3);
}

#[test]
fn a_facet_is_named_after_the_plugin_rather_than_its_id() {
    let names = vec![("pane-manager".to_string(), "Pane Manager".to_string())];
    assert_eq!(Facet::Only("pane-manager".into()).name(&names), "Pane Manager");
    assert_eq!(Facet::Only("mystery".into()).name(&names), "mystery");
    assert_eq!(Facet::All.name(&names), "All");
}

// ----- the navigator -----

#[test]
fn every_navigator_scope_reads_back_from_its_name() {
    for scope in [Scope::Panes, Scope::Agents, Scope::Tabs, Scope::Workspaces] {
        assert_eq!(Scope::parse(scope.name()), Some(scope));
    }
    assert_eq!(Scope::parse("nonsense"), None);
}

#[test]
fn tab_cycles_through_every_navigator_scope() {
    let mut scope = Scope::Panes;
    let mut seen = Vec::new();
    for _ in 0..4 {
        seen.push(scope);
        scope = scope.next();
    }
    assert_eq!(scope, Scope::Panes);
    assert_eq!(seen, [Scope::Panes, Scope::Agents, Scope::Tabs, Scope::Workspaces]);
}

// ----- the palette's list -----

use herdr_kit::palette_list::palette_menu;
use herdr_kit::term::RowKind;

#[test]
fn every_plugin_gets_a_header_when_all_are_shown() {
    let names = vec![("pane-manager".to_string(), "Pane Manager".to_string())];
    let facets = Facet::all(&actions());
    let menu = palette_menu(&actions(), &names, &facets, &Facet::All, None);
    let kinds: Vec<RowKind> = menu.screen.rows.iter().map(|r| r.kind).collect();
    assert_eq!(
        kinds,
        [RowKind::Header, RowKind::Item, RowKind::Item, RowKind::Separator, RowKind::Header, RowKind::Item]
    );
    assert_eq!(menu.screen.rows[0].primary, "Pane Manager");
    assert_eq!(menu.screen.rows[4].primary, "navigator");
    assert_eq!(menu.values[5], Some(("navigator".to_string(), "find".to_string())));
    assert_eq!(menu.screen.subtitle.as_deref(), Some("Type to filter"));
    assert_eq!(menu.screen.tabs.len(), facets.len() + 1);
}

#[test]
fn one_plugins_facet_lists_its_actions_without_headers() {
    let facets = Facet::all(&actions());
    let menu = palette_menu(&actions(), &[], &facets, &Facet::Only("pane-manager".into()), None);
    assert_eq!(
        menu.values,
        vec![Some(("pane-manager".to_string(), "move".to_string())), Some(("pane-manager".to_string(), "swap".to_string()))]
    );
}

#[test]
fn an_empty_palette_says_how_to_get_actions() {
    let menu = palette_menu(&[], &[], &[Facet::All], &Facet::All, None);
    assert_eq!(menu.values, vec![None]);
    assert_eq!(menu.screen.rows[0].kind, RowKind::Note);
    assert!(menu.screen.tabs.is_empty());
}

// ----- the Navigator's list -----

use herdr_kit::model::{AgentStatus, Tab, Workspace};
use herdr_kit::nav_list::list_menu;

fn workspace(id: &str, label: &str, focused: bool) -> Workspace {
    Workspace { workspace_id: id.into(), label: Some(label.into()), focused, agent_status: AgentStatus::Unknown }
}

fn tab_of(id: &str, count: u32) -> Tab {
    Tab { tab_id: id.into(), workspace_id: "w1".into(), label: None, pane_count: count, focused: false, agent_status: AgentStatus::Working }
}

fn pane_in(id: &str, tab: &str, agent: Option<&str>) -> Pane {
    Pane { pane_id: id.into(), tab_id: tab.into(), workspace_id: "w1".into(), agent: agent.map(str::to_string), ..Default::default() }
}

#[test]
fn workspaces_are_listed_with_the_current_one_marked() {
    let ws = vec![workspace("w1", "main", true), workspace("w2", "side", false)];
    let menu = list_menu(Scope::Workspaces, &ws, &[vec![], vec![]], &[vec![], vec![]], None);
    assert_eq!(menu.values, vec![Some("w1".to_string()), Some("w2".to_string())]);
    assert_eq!(menu.screen.rows[0].secondary.as_deref(), Some("current"));
    assert_eq!(menu.screen.rows[1].secondary, None);
    assert_eq!(menu.screen.title, "Go to workspace");
}

#[test]
fn tabs_are_grouped_under_their_workspace_with_a_pane_count() {
    let ws = vec![workspace("w1", "main", true)];
    let tabs = vec![vec![tab_of("w1:t1", 1), tab_of("w1:t2", 3)]];
    let menu = list_menu(Scope::Tabs, &ws, &tabs, &[vec![]], None);
    assert_eq!(menu.values, vec![None, Some("w1:t1".to_string()), Some("w1:t2".to_string()), None]);
    assert_eq!(menu.screen.rows[0].primary, "main");
    assert_eq!(menu.screen.rows[1].secondary.as_deref(), Some("1 pane"));
    assert_eq!(menu.screen.rows[2].secondary.as_deref(), Some("3 panes"));
    assert_eq!(menu.screen.rows[2].primary, "Tab 2");
}

#[test]
fn the_agent_scope_keeps_only_panes_running_an_agent() {
    let ws = vec![workspace("w1", "main", true)];
    let tabs = vec![vec![tab_of("w1:t1", 2), tab_of("w1:t2", 1)]];
    let panes = vec![vec![
        pane_in("w1:p1", "w1:t1", Some("goose")),
        pane_in("w1:p2", "w1:t1", None),
        pane_in("w1:p3", "w1:t2", None),
    ]];
    let agents = list_menu(Scope::Agents, &ws, &tabs, &panes, Some("w1:p1"));
    assert_eq!(agents.values, vec![None, Some("w1:p1".to_string()), None]);
    assert_eq!(agents.screen.rows[0].primary, "main · Tab 1");
    assert_eq!(agents.screen.rows[1].secondary.as_deref(), Some("current"));
    let all = list_menu(Scope::Panes, &ws, &tabs, &panes, None);
    assert_eq!(
        all.values,
        vec![None, Some("w1:p1".to_string()), Some("w1:p2".to_string()), None, None, Some("w1:p3".to_string()), None]
    );
}

#[test]
fn an_empty_list_says_why() {
    let ws = vec![workspace("w1", "main", true)];
    let tabs = vec![vec![tab_of("w1:t1", 1)]];
    let panes = vec![vec![pane_in("w1:p1", "w1:t1", None)]];
    let menu = list_menu(Scope::Agents, &ws, &tabs, &panes, None);
    assert_eq!(menu.values, vec![None]);
    assert_eq!(menu.screen.rows[0].primary, "No agent is running in any pane.");
}

// ----- names and offered actions -----

use herdr_kit::model::InstalledPlugin;
use herdr_kit::palette::visible_actions;
use herdr_kit::palette::chips;

#[test]
fn a_plugin_named_twice_goes_by_its_last_name() {
    let names = vec![
        ("pane-manager".to_string(), "Old Name".to_string()),
        ("navigator".to_string(), "Navigator".to_string()),
        ("pane-manager".to_string(), "Pane Manager".to_string()),
    ];
    assert_eq!(Facet::Only("pane-manager".into()).name(&names), "Pane Manager");
    let facets = Facet::all(&actions());
    let shown = chips(&Facet::All, &facets, &names);
    assert_eq!(shown[2].label, "Pane Manager");
    assert_eq!(shown[3].label, "Navigator");
    let menu = palette_menu(&actions(), &names, &facets, &Facet::All, None);
    assert_eq!(menu.screen.rows[0].primary, "Pane Manager");
}

fn installed(id: &str, enabled: bool) -> InstalledPlugin {
    InstalledPlugin { plugin_id: id.into(), name: id.into(), enabled }
}

#[test]
fn offered_actions_are_grouped_by_plugin_and_keep_their_contexts() {
    let mut find = action("navigator", "find");
    find.contexts = vec!["pane".to_string(), "tab".to_string()];
    let offered = visible_actions(
        &[installed("pane-manager", true), installed("navigator", true), installed("layout-tools", false)],
        &[
            action("pane-manager", "move"),
            find,
            action("layout-tools", "arrange"),
            action("command-palette", "open"),
            action("pane-manager", "swap"),
        ],
    );
    let ids: Vec<(&str, &str)> = offered.iter().map(|a| (a.plugin_id.as_str(), a.action_id.as_str())).collect();
    assert_eq!(ids, [("navigator", "find"), ("pane-manager", "move"), ("pane-manager", "swap")]);
    assert_eq!(offered[0].contexts, ["pane", "tab"]);
    assert!(offered[1].contexts.is_empty());
}
