use mstodo::edit::{assignee_edit, notes_edit, title_edit};

#[test]
fn a_title_is_sent_trimmed_unless_it_is_empty_or_unchanged() {
    assert_eq!(title_edit("  Pay the rent ", "Pay rent"), Ok(Some("Pay the rent".to_string())));
    assert_eq!(title_edit("Pay rent  ", "Pay rent"), Ok(None));
    assert_eq!(title_edit("   ", "Pay rent"), Err("A title can't be empty".to_string()));
}

#[test]
fn an_assignee_is_set_cleared_or_left_as_it_is() {
    assert_eq!(assignee_edit(" Sam ", None), Some(Some("Sam".to_string())));
    assert_eq!(assignee_edit("Sam", Some("Alex")), Some(Some("Sam".to_string())));
    assert_eq!(assignee_edit("Sam", Some("Sam")), None);
    assert_eq!(assignee_edit("", Some("Sam")), Some(None));
    assert_eq!(assignee_edit("  ", None), None);
}

#[test]
fn notes_left_as_they_show_are_not_sent() {
    assert_eq!(notes_edit("Call Sam\n", "Call Sam"), None);
    assert_eq!(notes_edit("Call Sam today", "Call Sam"), Some("Call Sam today".to_string()));
    assert_eq!(notes_edit("", "Call Sam"), Some(String::new()));
}
