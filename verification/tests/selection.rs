use mstodo::selection::Selection;

fn ids(names: &[&str]) -> Vec<String> {
    names.iter().map(|s| s.to_string()).collect()
}

#[test]
fn v_toggles_capital_v_selects_all_and_escape_clears() {
    let shown = ids(&["t1", "t2", "t3"]);
    let mut selection = Selection::new();
    assert!(selection.is_empty());
    selection.toggle("t2");
    assert!(selection.contains("t2"));
    assert_eq!(selection.targets(&shown, 0), vec![1]);
    selection.toggle("t2");
    assert!(selection.is_empty(), "toggled back out");
    selection.select_all(&shown);
    assert_eq!(selection.targets(&shown, 0), vec![0, 1, 2]);
    selection.clear();
    assert!(selection.is_empty());
}

#[test]
fn without_a_selection_the_task_under_the_cursor_is_the_target() {
    let shown = ids(&["t1", "t2"]);
    let selection = Selection::new();
    assert_eq!(selection.targets(&shown, 1), vec![1]);
    assert!(selection.targets(&shown, 5).is_empty());
    assert!(selection.targets(&ids(&[]), 0).is_empty());
}

#[test]
fn a_selected_task_that_disappears_drops_out() {
    let mut selection = Selection::new();
    selection.select_all(&ids(&["t1", "t2", "t3"]));
    selection.prune(&ids(&["t3", "t1"]));
    assert!(!selection.contains("t2"));
    assert!(selection.contains("t1") && selection.contains("t3"));
    // The order shown, not the order selected.
    assert_eq!(selection.targets(&ids(&["t3", "t9", "t1"]), 1), vec![0, 2]);
    selection.prune(&ids(&[]));
    assert!(selection.is_empty());
}
