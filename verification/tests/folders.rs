use mstodo::folders::{
    folder_moved, folder_of, folder_suggestions, list_name, list_to_move, move_to_folder, scope_name, sidebar_cursor,
    MAX_SUGGESTIONS,
};
use mstodo::move_tasks::{move_targets, MoveTarget};
use mstodo::scope::{Entry, Scope, SidebarList};

fn list(id: &str, name: &str, folder: Option<&str>) -> SidebarList {
    SidebarList { id: id.to_string(), name: name.to_string(), folder: folder.map(str::to_string) }
}

fn lists() -> Vec<SidebarList> {
    vec![
        list("L1", "Groceries", Some("Home")),
        list("L2", "Taxes", Some("Admin")),
        list("L3", "Garden", Some("Home")),
        list("L4", "Inbox", None),
        list("L5", "Reading", Some("hobbies")),
    ]
}

fn folder_row(name: &str, collapsed: bool) -> Entry {
    Entry::Folder { name: name.to_string(), collapsed, count: 0 }
}

fn list_row(id: &str, name: &str, in_folder: bool) -> Entry {
    Entry::List { id: id.to_string(), name: name.to_string(), in_folder }
}

#[test]
fn a_lists_folder_and_name_are_found_by_its_id() {
    let lists = lists();
    assert_eq!(folder_of(&lists, "L3"), Some("Home"));
    assert_eq!(folder_of(&lists, "L4"), None);
    assert_eq!(folder_of(&lists, "missing"), None);
    assert_eq!(list_name(&lists, "L2"), Some("Taxes"));
    assert_eq!(list_name(&lists, "missing"), None);
}

#[test]
fn a_scope_is_titled_by_its_list_or_its_view() {
    let lists = lists();
    assert_eq!(scope_name(&lists, None), "Tasks");
    assert_eq!(scope_name(&lists, Some(&Scope::List { id: "L1".to_string() })), "Groceries");
    assert_eq!(scope_name(&lists, Some(&Scope::List { id: "gone".to_string() })), "List");
    assert_eq!(scope_name(&lists, Some(&Scope::Planned)), "Planned");
}

#[test]
fn suggestions_are_the_folders_starting_with_what_is_typed_ignoring_case() {
    let lists = lists();
    assert_eq!(folder_suggestions(&lists, "  ho "), vec!["Home", "hobbies"]);
    assert_eq!(folder_suggestions(&lists, "HOB"), vec!["hobbies"]);
    assert_eq!(folder_suggestions(&lists, ""), vec!["Home", "Admin", "hobbies"]);
    assert!(folder_suggestions(&lists, "zzz").is_empty());
}

#[test]
fn at_most_five_folders_are_suggested() {
    let many: Vec<SidebarList> =
        (0..8).map(|i| list(&format!("L{i}"), "x", Some(&format!("F{i}")))).collect();
    let suggested = folder_suggestions(&many, "f");
    assert_eq!(suggested.len(), MAX_SUGGESTIONS);
    assert_eq!(suggested, vec!["F0", "F1", "F2", "F3", "F4"]);
}

#[test]
fn the_cursor_goes_back_to_its_row_then_the_scope_then_the_folder_hiding_it() {
    let lists = lists();
    let entries = vec![
        Entry::View(Scope::Important),
        Entry::View(Scope::Planned),
        folder_row("Admin", false),
        list_row("L2", "Taxes", true),
        folder_row("Home", true),
        list_row("L4", "Inbox", false),
    ];
    // The row it was on, whatever its count.
    let with_count = Entry::Folder { name: "Home".to_string(), collapsed: false, count: 9 };
    assert_eq!(sidebar_cursor(&entries, Some(with_count), None, &lists, 0), 4);
    // A row gone: the scope shown.
    let gone = list_row("L9", "Old", false);
    assert_eq!(sidebar_cursor(&entries, Some(gone), Some(Scope::List { id: "L4".to_string() }), &lists, 0), 5);
    assert_eq!(sidebar_cursor(&entries, None, Some(Scope::Planned), &lists, 0), 1);
    // A list hidden in a collapsed folder: the folder's heading.
    assert_eq!(sidebar_cursor(&entries, None, Some(Scope::List { id: "L3".to_string() }), &lists, 0), 4);
    // Nothing found: where it was, within the rows.
    assert_eq!(sidebar_cursor(&entries, None, Some(Scope::All), &lists, 3), 3);
    assert_eq!(sidebar_cursor(&entries, None, None, &lists, 40), 5);
    assert_eq!(sidebar_cursor(&[], None, None, &lists, 7), 0);
}

#[test]
fn the_list_to_move_is_the_one_under_the_cursor_else_the_one_shown() {
    let entries = vec![Entry::View(Scope::Important), list_row("L2", "Taxes", false)];
    let shown = Some(Scope::List { id: "L1".to_string() });
    assert_eq!(list_to_move(&entries, 1, &shown), Some("L2".to_string()));
    assert_eq!(list_to_move(&entries, 0, &shown), Some("L1".to_string()));
    assert_eq!(list_to_move(&entries, 7, &shown), Some("L1".to_string()));
    assert_eq!(list_to_move(&entries, 0, &Some(Scope::All)), None);
}

fn foldered_lists() -> Vec<SidebarList> {
    vec![
        list("home", "Home", Some("Areas")),
        list("fin", "Finances", Some("Areas")),
        list("launch", "Launch", Some("Projects")),
        list("tasks", "Tasks", None),
    ]
}

fn names(targets: &[MoveTarget]) -> Vec<&str> {
    targets.iter().map(|target| target.name.as_str()).collect()
}

#[test]
fn the_move_picker_offers_the_other_lists_with_their_folders() {
    let lists = foldered_lists();
    let on_screen = vec![("t1".to_string(), "home".to_string()), ("t2".to_string(), "home".to_string())];
    let ids = vec!["t1".to_string()];
    // Home holds the task, so it isn't offered.
    let all = move_targets(&on_screen, &lists, &ids, "");
    assert_eq!(names(&all), ["Finances", "Launch", "Tasks"]);
    assert_eq!(all[0].folder.as_deref(), Some("Areas"));
    // A folder's name finds its lists; letters in order find a list.
    assert_eq!(names(&move_targets(&on_screen, &lists, &ids, "projects")), ["Launch"]);
    assert_eq!(names(&move_targets(&on_screen, &lists, &ids, "fnc")), ["Finances"]);
}

#[test]
fn tasks_from_several_lists_can_go_to_any_of_them() {
    let lists = foldered_lists();
    let on_screen = vec![("t1".to_string(), "home".to_string()), ("t2".to_string(), "fin".to_string())];
    let both = vec!["t1".to_string(), "t2".to_string()];
    assert_eq!(names(&move_targets(&on_screen, &lists, &both, "")), ["Home", "Finances", "Launch", "Tasks"]);
    // Tasks not on screen: any list.
    assert_eq!(names(&move_targets(&on_screen, &lists, &vec!["t9".to_string()], "")).len(), 4);
    // The best match first.
    assert_eq!(names(&move_targets(&on_screen, &lists, &both, "areas")), ["Home", "Finances"]);
    assert_eq!(names(&move_targets(&on_screen, &lists, &both, "ta")), ["Tasks"]);
}

fn order_of(lists: &[SidebarList]) -> Vec<(String, Option<String>)> {
    lists.iter().map(|l| (l.id.clone(), l.folder.clone())).collect()
}

fn row(id: &str, folder: Option<&str>) -> (String, Option<String>) {
    (id.to_string(), folder.map(str::to_string))
}

#[test]
fn a_list_moved_to_a_folder_goes_last_in_it_at_once() {
    let mut lists = foldered_lists();
    move_to_folder(&mut lists, "tasks", Some("Areas".to_string()));
    assert_eq!(
        order_of(&lists),
        [row("home", Some("Areas")), row("fin", Some("Areas")), row("tasks", Some("Areas")), row("launch", Some("Projects"))]
    );
    // Out of its folder: last.
    let mut lists = foldered_lists();
    move_to_folder(&mut lists, "home", None);
    assert_eq!(
        order_of(&lists),
        [row("fin", Some("Areas")), row("launch", Some("Projects")), row("tasks", None), row("home", None)]
    );
    // A new folder: before the lists in none.
    let mut lists = foldered_lists();
    move_to_folder(&mut lists, "launch", Some("New".to_string()));
    assert_eq!(
        order_of(&lists),
        [row("home", Some("Areas")), row("fin", Some("Areas")), row("launch", Some("New")), row("tasks", None)]
    );
    // The same folder, or a list not there: nothing moves.
    let mut lists = foldered_lists();
    move_to_folder(&mut lists, "fin", Some("Areas".to_string()));
    move_to_folder(&mut lists, "gone", Some("Areas".to_string()));
    assert_eq!(lists, foldered_lists());
}

#[test]
fn the_banner_names_the_list_and_its_folder() {
    assert_eq!(folder_moved("Launch", Some("Projects")), "Moved Launch to Projects");
    assert_eq!(folder_moved("Home", None), "Took Home out of its folder");
}
