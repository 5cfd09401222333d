use workspace_capsules::config::Config;
use workspace_capsules::published::PublishedOutputs;
use workspace_capsules::sync::OutputAction;
use workspace_capsules::sync::clearing_marker;
use workspace_capsules::sync::refresh_workspaces;
use workspace_capsules::render::workspace_module_output;
use workspace_capsules::workspace::Workspace;

fn test_config() -> Config {
    Config {
        background_colors: vec![String::from("#a1"), String::from("#b2")],
        focused_foreground_color: String::from("#fff"),
        minimum_workspace_count: 0,
        version: String::from("1"),
    }
}

fn ws(num: i32, focused: bool) -> Workspace {
    Workspace {
        num,
        name: String::new(),
        visible: focused,
        focused,
        urgent: false,
        rect: (0, 0, 0, 0),
        output: String::new(),
    }
}

fn names(entries: &[&str]) -> Vec<String> {
    entries.iter().map(|e| String::from(*e)).collect()
}

#[test]
fn first_pass_appends_every_workspace() {
    let config = test_config();
    let snapshot = vec![ws(1, true), ws(2, false)];
    let mut published = PublishedOutputs::new();
    let actions = refresh_workspaces(&config, &snapshot, &names(&[]), &mut published);
    assert_eq!(actions.len(), 2);
    match &actions[0] {
        OutputAction::Append { num, text } => {
            assert_eq!(*num, 1);
            assert_eq!(*text, workspace_module_output(&config, &snapshot[0], None, 2));
        },
        other => panic!("unexpected action {:?}", other),
    }
    match &actions[1] {
        OutputAction::Append { num, text } => {
            assert_eq!(*num, 2);
            assert_eq!(*text, workspace_module_output(&config, &snapshot[1], Some(1), 2));
        },
        other => panic!("unexpected action {:?}", other),
    }
    assert_eq!(
        published.get(1),
        Some(&workspace_module_output(&config, &snapshot[0], None, 2))
    );
}

#[test]
fn second_pass_with_unchanged_snapshot_is_silent() {
    let config = test_config();
    let snapshot = vec![ws(1, true), ws(2, false)];
    let mut published = PublishedOutputs::new();
    refresh_workspaces(&config, &snapshot, &names(&[]), &mut published);
    // the first pass created the two output entries
    let actions = refresh_workspaces(&config, &snapshot, &names(&["1", "2"]), &mut published);
    assert!(actions.is_empty());
}

#[test]
fn only_the_changed_workspace_is_rewritten() {
    let config = test_config();
    let before = vec![ws(1, true), ws(2, false)];
    let after = vec![ws(1, false), ws(2, false)];
    let mut published = PublishedOutputs::new();
    refresh_workspaces(&config, &before, &names(&[]), &mut published);
    // focus moved away from workspace 1: its markup changes, workspace 2's does not
    let actions = refresh_workspaces(&config, &after, &names(&["1", "2"]), &mut published);
    assert_eq!(actions.len(), 1);
    match &actions[0] {
        OutputAction::Append { num, text } => {
            assert_eq!(*num, 1);
            assert_eq!(*text, workspace_module_output(&config, &after[0], None, 2));
        },
        other => panic!("unexpected action {:?}", other),
    }
    assert_eq!(
        published.get(1),
        Some(&workspace_module_output(&config, &after[0], None, 2))
    );
}

#[test]
fn disappeared_workspace_gets_one_clearing_append() {
    let config = test_config();
    let before = vec![ws(1, false), ws(2, true)];
    let after = vec![ws(1, true)];
    let mut published = PublishedOutputs::new();
    refresh_workspaces(&config, &before, &names(&[]), &mut published);
    assert!(published.get(2).is_some());
    let actions = refresh_workspaces(&config, &after, &names(&["1", "2"]), &mut published);
    // workspace 1 changed (focus and total count), workspace 2 disappeared
    let clears: Vec<i32> = actions
        .iter()
        .filter_map(|a| match a {
            OutputAction::Clear { num } => Some(*num),
            _ => None,
        })
        .collect();
    assert_eq!(clears, vec![2]);
    assert_eq!(published.get(2), None);
}

#[test]
fn corrupt_entry_name_resets_the_directory() {
    let config = test_config();
    let snapshot = vec![ws(1, false)];
    let mut published = PublishedOutputs::new();
    refresh_workspaces(&config, &snapshot, &names(&[]), &mut published);
    // "abc" is no decimal ordinal: the pass ends with the whole-directory
    // removal as its only action and forgets everything it had published
    let actions =
        refresh_workspaces(&config, &snapshot, &names(&["abc", "1", "9"]), &mut published);
    assert_eq!(actions.len(), 1);
    assert!(matches!(actions[0], OutputAction::RemoveAll));
    assert_eq!(published.get(1), None, "nothing counts as published any more");
    // the next pass starts from the recreated empty directory and appends
    // every workspace anew
    let actions = refresh_workspaces(&config, &snapshot, &names(&[]), &mut published);
    assert_eq!(actions.len(), 1);
    match &actions[0] {
        OutputAction::Append { num, text } => {
            assert_eq!(*num, 1);
            assert_eq!(*text, workspace_module_output(&config, &snapshot[0], None, 1));
        },
        other => panic!("unexpected action {:?}", other),
    }
    assert_eq!(
        published.get(1),
        Some(&workspace_module_output(&config, &snapshot[0], None, 1))
    );
}

#[test]
fn corruption_found_mid_scan_stops_the_pass() {
    let config = test_config();
    let snapshot = vec![ws(1, false)];
    let mut published = PublishedOutputs::new();
    refresh_workspaces(&config, &snapshot, &names(&[]), &mut published);
    // the stale entry "9" before the corrupt one is still cleared; the one
    // after it is never looked at
    let actions =
        refresh_workspaces(&config, &snapshot, &names(&["9", "abc", "8"]), &mut published);
    assert_eq!(actions.len(), 2);
    assert!(matches!(actions[0], OutputAction::Clear { num: 9 }));
    assert!(matches!(actions[1], OutputAction::RemoveAll));
}

#[test]
fn stale_entry_of_unknown_ordinal_is_cleared() {
    let config = test_config();
    let snapshot = vec![ws(1, false)];
    let mut published = PublishedOutputs::new();
    // "9" is a well-formed entry of a workspace this process never published
    let actions = refresh_workspaces(&config, &snapshot, &names(&["9"]), &mut published);
    assert_eq!(actions.len(), 2);
    assert!(matches!(actions[0], OutputAction::Append { num: 1, .. }));
    assert!(matches!(actions[1], OutputAction::Clear { num: 9 }));
}

#[test]
fn clearing_marker_is_a_blank_line() {
    assert_eq!(clearing_marker(), "\n\n");
}
