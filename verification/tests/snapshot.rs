use workspace_capsules::snapshot::build_snapshot;
use workspace_capsules::workspace::Workspace;
use workspace_capsules::workspace::placeholder_workspace;

fn live(num: i32, focused: bool) -> Workspace {
    Workspace {
        num,
        name: format!("ws{}", num),
        visible: focused,
        focused,
        urgent: false,
        rect: (0, 0, 1920, 1080),
        output: String::from("eDP-1"),
    }
}

fn is_placeholder(w: &Workspace, num: i32) -> bool {
    w.num == num && w.name.is_empty() && !w.visible && !w.focused && !w.urgent
        && w.rect == (0, 0, 0, 0) && w.output.is_empty()
}

#[test]
fn padding_fills_gaps_around_the_live_workspace() {
    let snapshot = build_snapshot(&vec![live(2, true)], 3);
    assert_eq!(snapshot.len(), 3);
    assert!(is_placeholder(&snapshot[0], 1));
    assert_eq!(snapshot[1].num, 2);
    assert!(snapshot[1].focused);
    assert_eq!(snapshot[1].name, "ws2");
    assert!(is_placeholder(&snapshot[2], 3));
}

#[test]
fn no_padding_without_minimum() {
    let snapshot = build_snapshot(&vec![live(3, false), live(1, true)], 0);
    assert_eq!(snapshot.len(), 2);
    assert_eq!(snapshot[0].num, 1);
    assert_eq!(snapshot[1].num, 3);
}

#[test]
fn live_entries_sort_ascending() {
    let snapshot = build_snapshot(&vec![live(9, false), live(4, false), live(6, true)], 0);
    let nums: Vec<i32> = snapshot.iter().map(|w| w.num).collect();
    assert_eq!(nums, vec![4, 6, 9]);
}

#[test]
fn live_entries_beyond_minimum_merge_in_order() {
    let snapshot = build_snapshot(&vec![live(5, false), live(2, true)], 3);
    let nums: Vec<i32> = snapshot.iter().map(|w| w.num).collect();
    assert_eq!(nums, vec![1, 2, 3, 5]);
    assert!(is_placeholder(&snapshot[0], 1));
    assert!(!snapshot[1].name.is_empty());
    assert!(is_placeholder(&snapshot[2], 3));
    assert_eq!(snapshot[3].name, "ws5");
}

#[test]
fn empty_live_list_padded_from_scratch() {
    let snapshot = build_snapshot(&vec![], 2);
    assert_eq!(snapshot.len(), 2);
    assert!(is_placeholder(&snapshot[0], 1));
    assert!(is_placeholder(&snapshot[1], 2));
}

#[test]
fn placeholder_workspace_is_empty_and_unfocused() {
    let w = placeholder_workspace(4);
    assert!(is_placeholder(&w, 4));
}
