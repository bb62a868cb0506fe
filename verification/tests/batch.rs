use mstodo::batch::{assignee, my_day_changed, overdue_ids, overdue_what, shared_name, toggle_my_day, what, DueTask, MyDayToggle};

fn strings(items: &[&str]) -> Vec<String> {
    items.iter().map(|s| s.to_string()).collect()
}

#[test]
fn one_task_is_named_by_its_title_and_several_by_their_count() {
    assert_eq!(what(&strings(&["Pay rent"])).as_deref(), Some("\"Pay rent\""));
    assert_eq!(what(&strings(&["a", "b", "c"])).as_deref(), Some("3 tasks"));
    assert_eq!(what(&Vec::new()), None);
}

#[test]
fn overdue_counts_read_in_the_singular_and_the_plural() {
    assert_eq!(overdue_what(0), None);
    assert_eq!(overdue_what(1).as_deref(), Some("1 overdue task"));
    assert_eq!(overdue_what(12).as_deref(), Some("12 overdue tasks"));
}

#[test]
fn only_open_tasks_due_before_today_are_overdue() {
    let task = |id: &str, completed: bool, due: Option<i32>| DueTask { id: id.to_string(), completed, due };
    let tasks = vec![
        task("late", false, Some(99)),
        task("done", true, Some(90)),
        task("today", false, Some(100)),
        task("undated", false, None),
        task("later", false, Some(101)),
        task("older", false, Some(1)),
    ];
    assert_eq!(overdue_ids(&tasks, 100), strings(&["late", "older"]));
    assert_eq!(overdue_ids(&tasks, 0), Vec::<String>::new());
}

#[test]
fn the_assign_prompt_starts_from_a_name_every_task_shares() {
    let name = |n: &str| Some(n.to_string());
    assert_eq!(shared_name(&vec![name("Sam"), name("Sam")]).as_deref(), Some("Sam"));
    assert_eq!(shared_name(&vec![name("Sam"), name("Alex")]), None);
    assert_eq!(shared_name(&vec![name("Sam"), None]), None);
    assert_eq!(shared_name(&vec![None, name("Sam")]), None);
    assert_eq!(shared_name(&Vec::new()), None);
}

#[test]
fn an_empty_assignee_clears_it_and_a_name_loses_its_spaces() {
    assert_eq!(assignee("  Sam Lee "), Some("Sam Lee".to_string()));
    assert_eq!(assignee("   "), None);
    assert_eq!(assignee(""), None);
}

#[test]
fn t_adds_those_not_in_my_day_and_only_when_all_are_in_takes_them_out() {
    let targets = |items: &[(&str, bool)]| items.iter().map(|(id, in_it)| (id.to_string(), *in_it)).collect::<Vec<_>>();
    assert_eq!(
        toggle_my_day(&targets(&[("a", true), ("b", false), ("c", false)])),
        Some(MyDayToggle::Add(strings(&["b", "c"])))
    );
    assert_eq!(
        toggle_my_day(&targets(&[("a", true), ("b", true)])),
        Some(MyDayToggle::Remove(strings(&["a", "b"])))
    );
    assert_eq!(toggle_my_day(&Vec::new()), None);
}

#[test]
fn t_twice_puts_a_selection_in_my_day_and_takes_it_out_again() {
    let first = toggle_my_day(&vec![("a".to_string(), true), ("b".to_string(), false)]);
    assert_eq!(first, Some(MyDayToggle::Add(strings(&["b"]))));
    let second = toggle_my_day(&vec![("a".to_string(), true), ("b".to_string(), true)]);
    assert_eq!(second, Some(MyDayToggle::Remove(strings(&["a", "b"]))));
}

#[test]
fn the_banner_says_what_t_did_and_how_to_undo_it() {
    assert_eq!(
        my_day_changed(false, &strings(&["Pay rent"])).as_deref(),
        Some("Added \"Pay rent\" to My Day; u takes it out")
    );
    assert_eq!(
        my_day_changed(true, &strings(&["a", "b"])).as_deref(),
        Some("Took 2 tasks out of My Day; u puts it back")
    );
    assert_eq!(my_day_changed(true, &Vec::new()), None);
}
