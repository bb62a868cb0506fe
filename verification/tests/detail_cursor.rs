use mstodo::detail_cursor::{anchor_for, Anchor, Child, DetailCursor, StepKey, TaskChildren, LOCAL_CHILD_PREFIX};
use mstodo::steps::DetailRow;
use mstodo::action::Field;

fn step(id: &str, name: &str) -> StepKey {
    StepKey { id: id.to_string(), name: name.to_string() }
}

fn paint(steps: Vec<StepKey>, link: Option<&str>) -> TaskChildren {
    TaskChildren { id: "t9".to_string(), steps, link_id: link.map(str::to_string) }
}

fn painted() -> TaskChildren {
    paint(vec![step("c1", "Buy paint"), step("c2", "Tape"), step("c3", "Two coats")], Some("r1"))
}

fn on(task: &TaskChildren, row: DetailRow) -> DetailCursor {
    let mut cursor = DetailCursor { row: DetailRow::default(), anchor: None, stale: false };
    cursor.set(Some(task), row);
    cursor
}

fn anchored_step(cursor: &DetailCursor) -> Option<String> {
    match &cursor.anchor {
        Some(Anchor { child: Child::Step { id, .. }, .. }) => Some(id.clone()),
        _ => None,
    }
}

#[test]
fn the_cursor_follows_its_step_when_one_above_is_deleted_elsewhere() {
    let mut cursor = on(&painted(), DetailRow::Step(1));
    cursor.follow(Some(&paint(vec![step("c2", "Tape")], Some("r1"))));
    assert_eq!(cursor.row, DetailRow::Step(0));
    assert_eq!(anchored_step(&cursor), Some("c2".to_string()), "still Tape");
    assert_eq!(cursor.refuse_if_stale(), None);
}

#[test]
fn a_step_gone_from_under_the_cursor_is_left_alone_with_a_hint() {
    let mut cursor = on(&painted(), DetailRow::Step(1));
    let refreshed = paint(vec![step("c1", "Buy paint"), step("c3", "Two coats")], Some("r1"));
    cursor.follow(Some(&refreshed));
    // The nearest step, but the next action only says what happened.
    assert_eq!(cursor.row, DetailRow::Step(1));
    let why = cursor.refuse_if_stale().expect("refused");
    assert!(why.contains("step changed"), "{why}");
    // Once said, the step now under the cursor is the one acted on.
    assert_eq!(cursor.refuse_if_stale(), None);
    assert_eq!(anchored_step(&cursor), Some("c3".to_string()));

    // Every step gone: the heading.
    cursor.set(Some(&refreshed), DetailRow::Step(0));
    cursor.follow(Some(&paint(vec![], Some("r1"))));
    assert_eq!(cursor.row, DetailRow::Steps);
    assert!(cursor.stale);
}

#[test]
fn the_cursor_keeps_a_new_step_when_it_gets_graphs_id() {
    let local = format!("{LOCAL_CHILD_PREFIX}9");
    let before = paint(vec![step("c1", "Buy paint"), step(&local, "Sand")], None);
    let mut cursor = on(&before, DetailRow::Step(1));
    cursor.follow(Some(&paint(vec![step("c1", "Buy paint"), step("c9", "Sand")], None)));
    assert_eq!(cursor.row, DetailRow::Step(1));
    assert_eq!(anchored_step(&cursor), Some("c9".to_string()));
    assert!(!cursor.stale);
}

#[test]
fn a_new_step_is_found_by_its_text_only_when_that_is_unambiguous() {
    let before = paint(vec![step("local-9", "Sand")], None);
    let mut cursor = on(&before, DetailRow::Step(0));
    // Moved, and two steps now have its text: neither is taken.
    cursor.follow(Some(&paint(vec![step("c1", "Prime"), step("c7", "Sand"), step("c8", "Sand")], None)));
    assert!(cursor.stale);
    // A step with Graph's ID is never matched by text.
    let mut cursor = on(&paint(vec![step("c4", "Sand")], None), DetailRow::Step(0));
    cursor.follow(Some(&paint(vec![step("c5", "Sand")], None)));
    assert!(cursor.stale);
}

#[test]
fn a_link_changed_elsewhere_is_left_alone_with_a_hint() {
    let mut cursor = on(&painted(), DetailRow::Link);
    cursor.follow(Some(&paint(painted().steps, Some("r2"))));
    assert_eq!(cursor.row, DetailRow::Link);
    let why = cursor.refuse_if_stale().expect("refused");
    assert_eq!(why, "The link changed; nothing was done");
    assert_eq!(cursor.refuse_if_stale(), None);
}

#[test]
fn another_task_gets_the_row_at_the_same_position() {
    let mut cursor = on(&painted(), DetailRow::Step(2));
    let other = TaskChildren { id: "t2".to_string(), steps: vec![step("s1", "One")], link_id: None };
    cursor.follow(Some(&other));
    assert_eq!(cursor.row, DetailRow::Step(0));
    assert_eq!(anchored_step(&cursor), Some("s1".to_string()));
    assert!(!cursor.stale);
    // No task selected: nothing moves.
    let before = cursor.clone();
    cursor.follow(None);
    assert_eq!(cursor, before);
}

#[test]
fn a_field_or_the_heading_anchors_nothing() {
    let task = painted();
    let anchor = anchor_for(&task, DetailRow::Field(Field::Due));
    assert_eq!(anchor.child, Child::Unanchored);
    assert_eq!(anchor_for(&task, DetailRow::Steps).child, Child::Unanchored);
    assert_eq!(anchor_for(&task, DetailRow::Link).child, Child::Link(Some("r1".to_string())));
    let mut cursor = on(&task, DetailRow::Field(Field::Due));
    cursor.follow(Some(&paint(vec![], None)));
    assert_eq!(cursor.row, DetailRow::Field(Field::Due));
}
