use mstodo::list_hint::{inbox_title, ListHint, ListSuggestion, QUIET_TICKS};

/// The titles asked about over `ticks` ticks, the title being `title`.
fn asked(hint: &mut ListHint, title: Option<&str>, ticks: u32) -> Vec<String> {
    (0..ticks).filter_map(|_| hint.tick(title.map(str::to_string))).collect()
}

fn home() -> ListSuggestion {
    ListSuggestion { list_id: "home".to_string(), list_name: "Home".to_string() }
}

#[test]
fn asked_once_typing_pauses_never_per_key() {
    let mut hint = ListHint::new();
    // Each key resets the pause.
    for _ in "pay council tax tomorrow".chars() {
        hint.typed();
    }
    // The title as quick add reads it, without the date.
    let title = Some("pay council tax");
    assert!(asked(&mut hint, title, QUIET_TICKS - 1).is_empty());
    assert_eq!(asked(&mut hint, title, 1), ["pay council tax"]);
    // Asked once, however long the pause.
    assert!(asked(&mut hint, title, 8).is_empty());
}

#[test]
fn a_hint_is_for_the_title_it_answered() {
    let mut hint = ListHint::new();
    hint.typed();
    assert_eq!(asked(&mut hint, Some("mow the lawn"), QUIET_TICKS), ["mow the lawn"]);
    assert_eq!(hint.hint(&Some("mow the lawn".to_string())), None, "nothing until it answers");
    hint.answered(Ok(Some(home())));
    assert_eq!(hint.hint(&Some("mow the lawn".to_string())), Some(&home()));
    assert_eq!(hint.hint(&Some("mow the lawn and edges".to_string())), None, "stale for the new text");
    assert_eq!(hint.hint(&None), None);
}

#[test]
fn one_request_at_a_time_then_the_text_as_it_is_now() {
    let mut hint = ListHint::new();
    hint.typed();
    assert_eq!(asked(&mut hint, Some("pay rent"), QUIET_TICKS), ["pay rent"]);
    hint.typed();
    assert!(asked(&mut hint, Some("pay rent and bills"), 5).is_empty(), "the first is still out");
    hint.answered(Ok(None));
    assert_eq!(hint.hint(&Some("pay rent".to_string())), None);
    assert_eq!(asked(&mut hint, Some("pay rent and bills"), 1), ["pay rent and bills"]);
}

#[test]
fn a_task_with_a_list_is_never_asked_about() {
    // Added from a list other than the inbox.
    assert_eq!(inbox_title(true, None, "mow the lawn"), None);
    // A `#List` read.
    assert_eq!(inbox_title(false, Some((true, "mow the lawn".to_string())), "mow the lawn #Home"), None);
    // Too short to say anything.
    assert_eq!(inbox_title(false, None, "  go "), None);
    assert_eq!(inbox_title(false, None, " mow "), Some("mow".to_string()));
    assert_eq!(inbox_title(false, Some((false, "pay rent".to_string())), "pay rent tomorrow"), Some("pay rent".to_string()));
    let mut hint = ListHint::new();
    hint.typed();
    assert!(asked(&mut hint, None, 4).is_empty());
}

#[test]
fn off_is_never_asked_again_this_session_but_a_lost_answer_is() {
    let mut hint = ListHint::new();
    hint.typed();
    asked(&mut hint, Some("pay rent"), QUIET_TICKS);
    hint.answered(Err("daemon_unavailable".to_string()));
    assert_eq!(asked(&mut hint, Some("pay rent"), 1), ["pay rent"], "asked again");
    hint.answered(Err("invalid_input".to_string()));
    assert!(hint.off);
    hint.typed();
    assert!(asked(&mut hint, Some("pay rent now"), 8).is_empty());
}

#[test]
fn an_answer_nobody_asked_for_changes_nothing() {
    let mut hint = ListHint::new();
    let before = hint.clone();
    hint.answered(Ok(Some(home())));
    assert_eq!(hint, before);
    // A title already answered isn't asked about again.
    hint.typed();
    asked(&mut hint, Some("mow"), QUIET_TICKS);
    hint.answered(Ok(None));
    assert!(asked(&mut hint, Some("mow"), 4).is_empty());
}
