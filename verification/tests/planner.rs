use mantissa::text::trim_text;
use mantissa::ui::labels::{join_texts, truncate};
use mantissa::ui::names::{reserve_unique_group_name, sanitize_initial_group_names};
use mantissa::ui::planner::text::{format_candidate_labels, format_gpu, short_uuid};
use mantissa::ui::planner::{SplitCandidate, SplitCandidateList, SplitPlannerApp};
use mantissa::ui::planner_rules::{MouseAction, PlannerKey, ScreenArea};

fn candidate(node_id: u128, hostname: &str) -> SplitCandidate {
    SplitCandidate {
        node_id,
        hostname: hostname.to_string(),
        address: "10.0.0.1:7000".to_string(),
        health: "alive".to_string(),
        active_view: "main".to_string(),
        cpu_vendor: Some("AuthenticAMD".to_string()),
        cpu_brand: None,
        cpu_logical: Some(16),
        cpu_cores: None,
        memory_total_kb: None,
        gpu_vendor: None,
        gpu_count: None,
        gpu_models: Vec::new(),
        wireguard_enabled: true,
        labels: vec!["zone=a".to_string(), "Rack=7".to_string()],
    }
}

fn texts(list: &[&str]) -> Vec<String> {
    list.iter().map(|text| text.to_string()).collect()
}

fn planner(hosts: &[&str], groups: &[&str]) -> SplitPlannerApp {
    let candidates = hosts
        .iter()
        .enumerate()
        .map(|(i, host)| candidate(10 + i as u128, host))
        .collect();
    let payload = SplitCandidateList { source_view: "main".to_string(), candidates };
    SplitPlannerApp::new(payload, &texts(groups))
}

fn type_text(app: &mut SplitPlannerApp, text: &str) {
    for c in text.chars() {
        app.on_key(PlannerKey::Char(c));
    }
}

fn area(x: u16, y: u16, width: u16, height: u16) -> ScreenArea {
    ScreenArea { x, y, width, height }
}

#[test]
fn group_names_are_trimmed_and_made_unique() {
    assert_eq!(
        sanitize_initial_group_names(&texts(&[" left ", "", "left", "left-2"])),
        texts(&["left", "left-2", "left-2-2"])
    );
    assert_eq!(sanitize_initial_group_names(&[]), texts(&["group-1", "group-2"]));
    assert_eq!(
        sanitize_initial_group_names(&texts(&["group-2"])),
        texts(&["group-2", "group-2-2"])
    );
    assert_eq!(reserve_unique_group_name(&texts(&["a", "a-2"]), "a"), "a-3");
}

#[test]
fn nodes_are_dealt_out_in_turn() {
    let app = planner(&["a", "b", "c"], &["left", "right"]);
    assert_eq!(app.assignment_for(10), 0);
    assert_eq!(app.assignment_for(11), 1);
    assert_eq!(app.assignment_for(12), 0);
    assert_eq!(app.assignment_counts(), vec![2, 1]);
    assert_eq!(app.assignment_for(99), 0);
}

#[test]
fn confirmed_split_has_sorted_targets() {
    let mut app = planner(&["a", "b", "c"], &["left", "right"]);
    app.on_key(PlannerKey::Enter);
    assert!(app.is_done());
    let outcome = app.outcome();
    assert!(!outcome.cancelled);
    assert_eq!(outcome.targets.len(), 2);
    assert_eq!(outcome.targets[0].name, "left");
    assert_eq!(outcome.targets[0].node_ids, vec![10, 12]);
    assert_eq!(outcome.targets[1].node_ids, vec![11]);
}

#[test]
fn cancelled_split_has_no_targets() {
    for key in [PlannerKey::Esc, PlannerKey::Char('q')] {
        let mut app = planner(&["a", "b"], &[]);
        app.on_key(key);
        assert!(app.is_done());
        assert_eq!(app.status(), "split cancelled");
        let outcome = app.outcome();
        assert!(outcome.cancelled);
        assert!(outcome.targets.is_empty());
    }
}

#[test]
fn empty_groups_are_not_confirmed() {
    let mut app = planner(&["a"], &["left", "right"]);
    app.on_key(PlannerKey::Enter);
    assert!(!app.is_done());
    assert_eq!(
        app.status(),
        "each group must contain at least one node before confirming"
    );
}

#[test]
fn new_groups_get_free_names() {
    let mut app = planner(&["a", "b"], &["group-3", "other"]);
    app.on_key(PlannerKey::Char('n'));
    assert_eq!(app.status(), "created group 'group-4'");
    assert_eq!(app.group_count(), 3);
    app.on_key(PlannerKey::Char('a'));
    assert_eq!(app.assignment_for(10), 2);
}

#[test]
fn renaming_checks_the_name() {
    let mut app = planner(&["a", "b"], &["left", "right"]);
    app.on_key(PlannerKey::Char('r'));
    for _ in 0..4 {
        app.on_key(PlannerKey::Backspace);
    }
    app.on_key(PlannerKey::Enter);
    assert_eq!(app.status(), "group name must not be empty");
    type_text(&mut app, " right ");
    app.on_key(PlannerKey::Enter);
    assert_eq!(app.status(), "group name 'right' already exists");
    type_text(&mut app, "x");
    app.on_key(PlannerKey::Enter);
    assert_eq!(app.status(), "renamed group to 'right x'");

    app.on_key(PlannerKey::Char('r'));
    app.on_key(PlannerKey::Esc);
    assert_eq!(app.status(), "rename cancelled");
}

/// A deletion moves no node: the groups behind the deleted one keep their nodes.
#[test]
fn deletion_keeps_nodes_in_their_groups() {
    let mut app = planner(&["a", "b", "c"], &["one", "two", "three"]);
    app.on_key(PlannerKey::Char(']'));
    app.on_key(PlannerKey::Char('x'));
    assert_eq!(app.status(), "move nodes out of the group before deleting it");

    app.on_key(PlannerKey::Down);
    app.on_key(PlannerKey::Char('1'));
    app.on_key(PlannerKey::Char('x'));
    assert_eq!(app.status(), "deleted group 'two'");
    app.on_key(PlannerKey::Enter);
    let outcome = app.outcome();
    assert_eq!(outcome.targets[0].node_ids, vec![10, 11]);
    assert_eq!(outcome.targets[1].name, "three");
    assert_eq!(outcome.targets[1].node_ids, vec![12]);
}

#[test]
fn two_groups_always_remain() {
    let mut app = planner(&["a", "b"], &["left", "right"]);
    app.on_key(PlannerKey::Char('x'));
    assert_eq!(app.status(), "at least two groups are required");
    assert_eq!(app.group_count(), 2);
}

#[test]
fn nodes_cycle_around_the_groups() {
    let mut app = planner(&["a", "b"], &["one", "two", "three"]);
    app.on_key(PlannerKey::Left);
    assert_eq!(app.assignment_for(10), 2);
    app.on_key(PlannerKey::Char('l'));
    assert_eq!(app.assignment_for(10), 0);
    app.on_key(PlannerKey::Char('3'));
    assert_eq!(app.assignment_for(10), 2);
    app.on_key(PlannerKey::Char('9'));
    app.on_key(PlannerKey::Char('0'));
    assert_eq!(app.assignment_for(10), 2);
}

#[test]
fn search_keeps_the_selected_node() {
    let mut app = planner(&["alpha", "beta", "gamma"], &[]);
    app.on_key(PlannerKey::Down);
    app.on_key(PlannerKey::Char('/'));
    type_text(&mut app, "BET");
    app.on_key(PlannerKey::Enter);
    assert_eq!(app.status(), "filter applied (1 nodes)");
    assert_eq!(app.selected_candidate().map(|found| found.node_id), Some(11));
    app.on_key(PlannerKey::Char('c'));
    assert_eq!(app.status(), "search filter cleared");
    assert_eq!(app.selected_candidate().map(|found| found.node_id), Some(11));
}

#[test]
fn search_reads_every_field() {
    for (query, shown) in [
        ("rack=7", true),
        ("a,rack", true),
        ("authenticamd", true),
        ("10.0.0", true),
        ("00000000-0000", true),
        ("-", true),
        ("alive", false),
    ] {
        let mut app = planner(&["alpha"], &[]);
        app.on_key(PlannerKey::Char('/'));
        type_text(&mut app, query);
        assert_eq!(app.selected_candidate().is_some(), shown, "{query}");
    }
}

#[test]
fn nothing_found_is_said() {
    let mut app = planner(&["alpha"], &[]);
    app.on_key(PlannerKey::Char('/'));
    type_text(&mut app, "missing");
    assert_eq!(app.details_text("-"), "No nodes match the current filter.");
    app.on_key(PlannerKey::Backspace);
    app.on_key(PlannerKey::Esc);
    assert_eq!(app.status(), "search cancelled");
}

#[test]
fn the_mouse_selects_and_assigns() {
    let mut app = planner(&["a", "b", "c"], &["left", "right"]);
    app.lay_out(area(1, 1, 20, 2), area(30, 1, 10, 5));
    app.on_mouse(MouseAction::Moved, 5, 2);
    assert_eq!(app.selected_candidate().map(|found| found.node_id), Some(11));
    app.on_mouse(MouseAction::LeftDown, 5, 2);
    assert_eq!(app.assignment_for(11), 0);
    app.on_mouse(MouseAction::LeftDown, 31, 2);
    app.on_mouse(MouseAction::LeftDown, 5, 1);
    assert_eq!(app.assignment_for(10), 1);
    app.on_mouse(MouseAction::Other, 5, 2);
    assert_eq!(app.selected_candidate().map(|found| found.node_id), Some(10));
    app.on_mouse(MouseAction::LeftDown, 5, 3);
    assert_eq!(app.selected_candidate().map(|found| found.node_id), Some(10));
}

#[test]
fn the_selection_stays_on_the_screen() {
    let mut app = planner(&["a", "b", "c", "d"], &[]);
    app.lay_out(area(0, 0, 20, 2), area(30, 0, 10, 5));
    assert_eq!(app.visible_range(2), (0, 2));
    for _ in 0..3 {
        app.on_key(PlannerKey::Char('j'));
    }
    app.lay_out(area(0, 0, 20, 2), area(30, 0, 10, 5));
    assert_eq!(app.visible_range(2), (2, 4));
    assert_eq!(app.selected_line(2), Some(1));
    app.on_key(PlannerKey::Char('k'));
    app.on_key(PlannerKey::Char('k'));
    app.lay_out(area(0, 0, 20, 2), area(30, 0, 10, 5));
    assert_eq!(app.visible_range(2), (1, 3));
    assert_eq!(app.selected_line(2), Some(0));
}

#[test]
fn rows_and_panes_are_laid_out_exactly() {
    let app = planner(&["a-very-long-host-name-x", "b"], &["a-long-group-name", "right"]);
    assert_eq!(
        app.row_text(0, "2MiB"),
        "[ 1:a-long-gr~] 00000000 a-very-long-host-na~ 10.0.0.1:7000      alive     Authentic~ 2MiB gpu=0"
    );
    let summary = app.summary_text();
    assert!(summary.starts_with(
        "Mode: Normal\nFocus: Nodes\nQuery: <none>\n\n* 1. a-long-group-name (1)\n  2. right (1)\n\nRename input: <none>\n\nKeys:\n  Tab switch focus\n"
    ));
    assert!(summary.ends_with("Enter confirm, q cancel"));
    assert_eq!(
        app.details_text("2MiB"),
        "Node: 00000000-0000-0000-0000-00000000000a\nHostname: a-very-long-host-name-x\nAddress: 10.0.0.1:7000\nHealth: alive\nActive view: main\nWireGuard: enabled\nLabels: zone=a, Rack=7\nCPU vendor: AuthenticAMD\nCPU brand: -\nCPU cores/logical: -/16\nMemory: 2MiB\nGPU vendor: -\nGPU count: 0\nGPU models: -"
    );
}

#[test]
fn focus_decides_what_moves() {
    let mut app = planner(&["a", "b"], &["left", "right"]);
    app.on_key(PlannerKey::Tab);
    app.on_key(PlannerKey::Up);
    assert!(app.summary_text().contains("* 2. right"));
    assert_eq!(app.selected_candidate().map(|found| found.node_id), Some(10));
    app.on_key(PlannerKey::Tab);
    app.on_key(PlannerKey::Down);
    assert_eq!(app.selected_candidate().map(|found| found.node_id), Some(11));
}

#[test]
fn compact_texts_are_exact() {
    let mut node = candidate(0xabcdef01_0000_0000_0000_000000000002, "x");
    assert_eq!(short_uuid(node.node_id), "abcdef01");
    node.gpu_count = Some(2);
    assert_eq!(format_gpu(&node), "gpu:2");
    node.gpu_vendor = Some("a-long-vendor-name".to_string());
    assert_eq!(format_gpu(&node), "a-long-ve~:2");
    node.labels.clear();
    assert_eq!(format_candidate_labels(&node), "-");
    assert_eq!(truncate("abcdef", 4), "abc~");
    assert_eq!(truncate("abcd", 4), "abcd");
    assert_eq!(truncate("abcd", 0), "~");
    assert_eq!(trim_text("\u{2003}\ta b \u{a0}"), "a b");
    assert_eq!(join_texts(&texts(&["a", "b"]), ", "), "a, b");
}
