use chrono::{Datelike, NaiveDate};
use mstodo::app_state::{context, moved_index, reseeded_cursor, tick, Banner, Level, ModeKind, Pane, BANNER_TICKS};
use mstodo::keybindings::Context;
use mstodo::attachments::{attach_typed, downloaded, expand_home, in_dir, join_clean, path_names, resolve_path, AttachTyped, DownloadAnswer, Downloaded, Places};
use mstodo::downloads::{download_dir, read_setting, DownloadsError};
use mstodo::edit::capitalised;
use mstodo::glyphs::Glyphs;
use mstodo::json::Json;
use mstodo::palette::{palette_items, score, spread, Command};
use mstodo::quick_add::{complete_word, known_labels, shared_prefix, Categories};
use mstodo::scope::{belongs, completed_groups, completion_heading, folder_names, order, planned_groups, FIRST_DAY, LAST_DAY, sidebar_entries, view_name, DueGroup, Entry, Scope, SidebarList};
use mstodo::steps::{ChildTarget, DetailRow};
use mstodo::action::{Action, Field};
use mstodo::task::{describe_recurrence, importance_name, next_importance, Body, GraphTime, Importance, SyncMarker, Task};
use serde_json::Value;

fn from_value(value: &Value) -> Json {
    match value {
        Value::Null => Json::Null,
        Value::Bool(b) => Json::Bool(*b),
        Value::Number(n) => Json::Number(n.to_string()),
        Value::String(s) => Json::Str(s.clone()),
        Value::Array(items) => Json::Array(items.iter().map(from_value).collect()),
        Value::Object(map) => Json::Object(map.iter().map(|(k, v)| (k.clone(), from_value(v))).collect()),
    }
}

fn json(text: &str) -> Json {
    from_value(&serde_json::from_str(text).expect("json"))
}

fn day(text: &str) -> i32 {
    NaiveDate::parse_from_str(text, "%Y-%m-%d").expect("date").num_days_from_ce()
}

#[test]
fn due_dates_group_by_how_soon_they_are() {
    // Thursday 24 September 2026.
    let today = day("2026-09-24");
    let group = |due: &str| DueGroup::of(day(due), today);
    assert_eq!(group("2026-09-23"), DueGroup::Overdue);
    assert_eq!(group("2026-09-24"), DueGroup::Today);
    assert_eq!(group("2026-09-25"), DueGroup::Tomorrow);
    assert_eq!(group("2026-09-27"), DueGroup::ThisWeek, "Sunday");
    assert_eq!(group("2026-09-28"), DueGroup::Later, "next Monday");
    assert_eq!(DueGroup::ThisWeek.name(), "This week");
}

#[test]
fn on_a_sunday_nothing_is_this_week_but_today_and_before() {
    let sunday = day("2026-09-27");
    assert_eq!(DueGroup::of(day("2026-09-28"), sunday), DueGroup::Tomorrow);
    assert_eq!(DueGroup::of(day("2026-09-29"), sunday), DueGroup::Later);
}

#[test]
fn planned_tasks_group_in_the_order_their_groups_first_come() {
    let today = day("2026-09-24");
    let dues = [Some(day("2026-09-20")), None, Some(day("2026-09-24")), Some(day("2026-09-01")), Some(day("2026-10-30"))];
    let groups = planned_groups(&dues, today);
    assert_eq!(
        groups,
        vec![(DueGroup::Overdue, vec![0, 3]), (DueGroup::Today, vec![2]), (DueGroup::Later, vec![4])]
    );
}

#[test]
fn recurrence_reads_as_words() {
    let describe = |pattern: &str| describe_recurrence(&json(&format!(r#"{{ "pattern": {pattern} }}"#)));
    assert_eq!(describe(r#"{ "type": "daily", "interval": 1 }"#).as_deref(), Some("daily"));
    assert_eq!(
        describe(r#"{ "type": "weekly", "interval": 2, "daysOfWeek": ["monday", "thursday"] }"#).as_deref(),
        Some("every 2 weeks on Mon, Thu")
    );
    assert_eq!(
        describe(r#"{ "type": "absoluteMonthly", "interval": 1, "dayOfMonth": 1 }"#).as_deref(),
        Some("monthly on day 1")
    );
}

#[test]
fn an_odd_recurrence_still_reads() {
    let describe = |text: &str| describe_recurrence(&json(text));
    assert_eq!(describe(r#"{ "pattern": { "type": "hourly" } }"#).as_deref(), Some("repeats"));
    assert_eq!(describe(r#"{ "pattern": { "type": "relativeYearly", "interval": 3 } }"#).as_deref(), Some("every 3 years"));
    assert_eq!(describe(r#"{ "pattern": { "type": "weekly" } }"#).as_deref(), Some("weekly"));
    assert_eq!(
        describe(r#"{ "pattern": { "type": "relativeMonthly", "interval": 1, "dayOfMonth": 5 } }"#).as_deref(),
        Some("monthly")
    );
    assert_eq!(describe(r#"{ "pattern": { "type": "daily", "interval": 1.5 } }"#).as_deref(), Some("daily"));
    assert_eq!(describe(r#"{ "range": {} }"#), None);
    assert_eq!(describe(r#"{ "pattern": { "interval": 1 } }"#), None);
}

#[test]
fn notes_know_whether_they_are_html() {
    let body = Body::of(&json(r#"{ "content": "<p>Hi</p>", "contentType": "HTML" }"#)).expect("body");
    assert_eq!(body, Body { content: "<p>Hi</p>".to_owned(), html: true });
    let text = Body::of(&json(r#"{ "content": "Hi", "contentType": "text" }"#)).expect("body");
    assert!(!text.html);
    assert_eq!(Body::of(&json(r#"{ "contentType": "text" }"#)), None);
}

fn places() -> Places {
    Places {
        download_dir: "/home/bk/Downloads".to_owned(),
        cwd: "/home/bk/work".to_owned(),
        home: Some("/home/bk".to_owned()),
    }
}

#[test]
fn a_typed_path_is_made_absolute() {
    let places = places();
    assert_eq!(resolve_path("~/invoice.pdf", &places), Ok("/home/bk/invoice.pdf".to_owned()));
    assert_eq!(resolve_path("./scan.pdf", &places), Ok("/home/bk/work/scan.pdf".to_owned()));
    assert_eq!(resolve_path("/tmp/a b.txt", &places), Ok("/tmp/a b.txt".to_owned()));
    assert_eq!(
        resolve_path("~bob/x", &places),
        Ok("/home/bk/work/~bob/x".to_owned()),
        "only ~ alone is home"
    );
    let homeless = Places { home: None, ..places };
    assert!(resolve_path("~/x", &homeless).is_err());
}

#[test]
fn a_path_is_read_by_the_names_it_is_made_of() {
    assert_eq!(path_names("/home//bk/./Downloads/"), vec!["home", "bk", "Downloads"]);
    assert_eq!(path_names("/"), Vec::<String>::new());
    assert_eq!(path_names("a/../b"), vec!["a", "..", "b"]);
}

#[test]
fn only_a_file_directly_in_the_download_directory_is_in_it() {
    assert!(in_dir("/home/bk/Downloads/scan.pdf", "/home/bk/Downloads"));
    assert!(in_dir("/home/bk//Downloads/./scan.pdf", "/home/bk/Downloads/"));
    assert!(in_dir("/scan.pdf", "/"));
    assert!(!in_dir("/home/bk/Downloads/sub/scan.pdf", "/home/bk/Downloads"));
    assert!(!in_dir("/home/bk/scan.pdf", "/home/bk/Downloads"));
    assert!(!in_dir("/home/bk/Downloads", "/home/bk/Downloads"));
    assert!(!in_dir("Downloads/scan.pdf", "Downloads"), "a relative path opens nothing");
    assert!(!in_dir("/", "/"));
}

#[test]
fn a_download_opens_only_what_was_saved_in_the_download_directory() {
    let dir = "/home/bk/Downloads";
    assert_eq!(
        downloaded(DownloadAnswer::Saved(Some("/home/bk/Downloads/scan.pdf".to_owned())), dir),
        Downloaded::Open {
            path: "/home/bk/Downloads/scan.pdf".to_owned(),
            banner: "Saved /home/bk/Downloads/scan.pdf".to_owned()
        }
    );
    assert_eq!(
        downloaded(DownloadAnswer::Saved(Some("/etc/passwd".to_owned())), dir),
        Downloaded::Error("Saved /etc/passwd, but not opening it: it isn't in the download directory".to_owned())
    );
    assert_eq!(
        downloaded(DownloadAnswer::Saved(None), dir),
        Downloaded::Error("The daemon sent an unexpected answer".to_owned())
    );
    assert_eq!(
        downloaded(DownloadAnswer::Failed("no such attachment".to_owned()), dir),
        Downloaded::Error("Couldn't download it: no such attachment".to_owned())
    );
}

#[test]
fn enter_in_the_path_prompt_attaches_closes_or_says_why() {
    let places = places();
    assert_eq!(attach_typed("  ", &places), AttachTyped::Close);
    assert_eq!(attach_typed(" ~/invoice.pdf ", &places), AttachTyped::Attach("/home/bk/invoice.pdf".to_owned()));
    let homeless = Places { home: None, ..places };
    assert_eq!(
        attach_typed("~/x", &homeless),
        AttachTyped::Unreadable("~ can't be read: HOME isn't set".to_owned())
    );
}

#[test]
fn a_relative_path_needs_a_known_directory() {
    let lost = Places { cwd: String::new(), ..places() };
    assert_eq!(
        resolve_path("scan.pdf", &lost),
        Err("give the full path: the TUI's directory isn't known".to_owned())
    );
    assert_eq!(expand_home("~", Some("/home/bk")), Some("/home/bk/".to_owned()));
    assert_eq!(expand_home("~//a", Some("/home/bk/")), Some("/home/bk/a".to_owned()));
    assert_eq!(expand_home("~/a", None), None);
}

#[test]
fn a_joined_path_drops_its_dots_and_empty_parts() {
    assert_eq!(join_clean("/home/bk", "./a//b/./c/"), "/home/bk/a/b/c");
    assert_eq!(join_clean("/home/bk/", "../x"), "/home/bk/../x");
    assert_eq!(join_clean("/home/bk", "/etc/./hosts"), "/etc/hosts");
    assert_eq!(join_clean("/home/bk", ""), "/home/bk");
}

#[test]
fn the_default_is_downloads_and_a_tilde_is_home() {
    let home = Some("/home/bk");
    assert_eq!(download_dir(None, home), Ok("/home/bk/Downloads".to_owned()));
    assert_eq!(download_dir(Some("~/To Do"), home), Ok("/home/bk/To Do".to_owned()));
    assert_eq!(download_dir(Some("/srv/files"), home), Ok("/srv/files".to_owned()));
    assert!(download_dir(Some("files"), home).is_err());
    assert!(download_dir(None, None).is_err());
}

#[test]
fn the_setting_is_read_and_a_typo_is_named() {
    assert_eq!(
        read_setting("[tui]\ntheme = \"night-owl\"\n\n[attachments]\ndownload_dir = \"/srv/in\"\n"),
        Ok(Some("/srv/in".to_owned()))
    );
    let error = read_setting("[attachments]\ndownload_directory = \"/x\"\n").expect_err("typo");
    assert!(error.contains("download_directory"), "{error}");
    assert_eq!(read_setting("[tui]\n"), Ok(None));
    assert_eq!(
        read_setting("attachments = 3\n"),
        Err("attachments must be a table: [attachments]".to_owned())
    );
    assert_eq!(
        read_setting("[attachments]\ndownload_dir = 3\n"),
        Err("attachments.download_dir must be a string, such as \"~/Downloads\"".to_owned())
    );
    assert!(read_setting("[attachments\n").is_err());
    let shown = DownloadsError { path: "/c.toml".to_owned(), message: "bad".to_owned() }.describe();
    assert_eq!(shown, "/c.toml: bad");
}

#[test]
fn the_palette_ranks_exact_then_start_then_word_then_anywhere_then_key_then_letters() {
    assert_eq!(score("Delete", "d", ""), Some((0, 0)));
    assert_eq!(score("Delete", "d", "delete"), Some((0, 0)));
    assert_eq!(score("Delete", "d", "del"), Some((1, 0)));
    assert_eq!(score("Go to Home", "", "home"), Some((2, 0)));
    assert_eq!(score("Diagnostics", "D", "nos"), Some((3, 0)));
    assert_eq!(score("Done", "x/space", "x"), Some((4, 0)));
    assert_eq!(score("Go to Home", "", "gthm"), Some((5, 9)));
    assert_eq!(score("Go to Home", "", "zzz"), None);
}

#[test]
fn the_spread_counts_from_the_first_letter_to_the_last() {
    assert_eq!(spread("go to groceries", "gtgr"), Some(8));
    assert_eq!(spread("abc", "a c"), Some(3));
    assert_eq!(spread("abc", "ca"), None);
    assert_eq!(spread("abc", "  "), Some(0), "no letters to find needs none of the label");
    assert_eq!(spread("go to home", "gthm"), Some(9));
    assert_eq!(spread("delete", "d e"), Some(2));
}

#[test]
fn a_field_is_capitalised_by_its_first_letter() {
    assert_eq!(capitalised("due"), "Due");
    assert_eq!(capitalised("ßig"), "SSig");
    assert_eq!(capitalised(""), "");
}

#[test]
fn completion_keeps_the_first_names_case_and_the_shared_start() {
    let home = "Home".to_owned();
    let house = "house".to_owned();
    let work = "Work".to_owned();
    assert_eq!(shared_prefix(&[&home, &house]), Some("Ho".to_owned()));
    assert_eq!(shared_prefix(&[&home]), Some("Home".to_owned()));
    assert_eq!(shared_prefix(&[&home, &work]), Some(String::new()));
    let none: [&String; 0] = [];
    assert_eq!(shared_prefix(&none), None);
    assert_eq!(Categories::default(), Categories::Unasked);
}

#[test]
fn folders_come_once_in_the_order_they_first_come() {
    let list = |id: &str, folder: Option<&str>| SidebarList {
        id: id.to_owned(),
        name: id.to_owned(),
        folder: folder.map(str::to_owned),
    };
    let lists = [list("a", Some("Work")), list("b", None), list("c", Some("Home")), list("d", Some("Work"))];
    assert_eq!(folder_names(&lists), vec!["Work", "Home"]);
}

#[test]
fn the_detail_rows_run_through_the_steps_and_the_link_before_the_notes() {
    let rows = DetailRow::all(2);
    assert_eq!(
        rows,
        vec![
            DetailRow::Field(Field::Title),
            DetailRow::Field(Field::Due),
            DetailRow::Field(Field::Reminder),
            DetailRow::Field(Field::Importance),
            DetailRow::Field(Field::Assignee),
            DetailRow::Steps,
            DetailRow::Step(0),
            DetailRow::Step(1),
            DetailRow::Link,
            DetailRow::Field(Field::Notes),
        ]
    );
    assert_eq!(DetailRow::Step(5).on(2), DetailRow::Step(1));
    assert_eq!(DetailRow::Step(0).on(0), DetailRow::Steps);
    assert_eq!(DetailRow::Link.on(0), DetailRow::Link);
    assert!(DetailRow::Steps.is_child() && !DetailRow::Field(Field::Notes).is_child());
    assert_eq!(DetailRow::default(), DetailRow::Field(Field::Title));
    assert_eq!(ChildTarget::Link(None).label(), "Link URL");
    assert_eq!(ChildTarget::Link(Some("r1".to_owned())).label(), "Edit link URL");
}

#[test]
fn a_banner_stays_for_its_ticks() {
    let mut banner = Some(Banner::show(Level::Info, "Synced"));
    for _ in 1..BANNER_TICKS {
        banner = tick(banner);
        assert!(banner.is_some());
    }
    assert_eq!(tick(banner), None);
}

#[test]
fn ascii_glyphs_are_plain() {
    assert_eq!(Glyphs::ascii().done, "[x]");
    assert_eq!(Glyphs::unicode().done, "\u{2713}");
    assert!(Glyphs::ascii().left_right.is_ascii());
}

#[test]
fn the_sidebar_shows_views_then_folders_then_loose_lists() {
    let list = |id: &str, folder: Option<&str>| SidebarList {
        id: id.to_owned(),
        name: format!("{id}!"),
        folder: folder.map(str::to_owned),
    };
    let lists = [list("a", Some("Work")), list("b", Some("Home")), list("c", None), list("d", Some("Work"))];
    let counts = vec![("a".to_owned(), 2), ("d".to_owned(), 3), ("c".to_owned(), 7)];
    let entries = sidebar_entries(&lists, &["Home".to_owned()], &counts);
    let row = |id: &str, in_folder: bool| Entry::List { id: id.to_owned(), name: format!("{id}!"), in_folder };
    assert_eq!(
        entries,
        vec![
            Entry::View(Scope::Important),
            Entry::View(Scope::Planned),
            Entry::View(Scope::All),
            Entry::View(Scope::Completed),
            Entry::Folder { name: "Work".to_owned(), collapsed: false, count: 5 },
            row("a", true),
            row("d", true),
            Entry::Folder { name: "Home".to_owned(), collapsed: true, count: 0 },
            row("c", false),
        ]
    );
    assert_eq!(entries[5].scope(), Some(Scope::List { id: "a".to_owned() }));
    assert_eq!(entries[4].scope(), None);
    assert!(entries[4].same(&Entry::Folder { name: "Work".to_owned(), collapsed: true, count: 0 }));
    assert!(!entries[5].same(&entries[6]));
    assert_eq!(view_name(&Scope::Planned), "Planned");
    assert_eq!(view_name(&Scope::List { id: "a".to_owned() }), "");
}

#[test]
fn completed_tasks_group_by_the_day_graph_kept() {
    let days = [None, Some(day("2026-09-24")), Some(day("2026-09-24")), Some(day("2026-09-23")), Some(day("2026-09-21"))];
    let groups = completed_groups(&days, day("2026-09-24"));
    let shown: Vec<(&str, &[usize])> =
        groups.iter().map(|(heading, members)| (heading.as_str(), members.as_slice())).collect();
    assert_eq!(
        shown,
        [
            ("Not synced yet", &[0][..]),
            ("Today", &[1, 2][..]),
            ("Yesterday", &[3][..]),
            ("Mon 21 Sep", &[4][..]),
        ]
    );
}

#[test]
fn a_day_that_comes_back_after_another_starts_a_run_of_its_own() {
    let a = Some(day("2026-09-20"));
    let b = Some(day("2026-09-19"));
    let groups = completed_groups(&[a, b, a], day("2026-09-24"));
    let members: Vec<Vec<usize>> = groups.iter().map(|(_, m)| m.clone()).collect();
    assert_eq!(members, vec![vec![0], vec![1], vec![2]]);
    assert_eq!(groups[0].0, "Sun 20 Sep");
    assert_eq!(groups[1].0, "Sat 19 Sep");
    assert!(completed_groups(&[], 0).is_empty());
}

#[test]
fn a_day_after_today_is_written_as_its_date() {
    assert_eq!(completion_heading(Some(day("2026-09-25")), day("2026-09-24")), "Fri 25 Sep");
}

#[test]
fn the_days_chrono_can_write_are_the_ones_allowed() {
    assert!(NaiveDate::from_num_days_from_ce_opt(FIRST_DAY).is_some());
    assert!(NaiveDate::from_num_days_from_ce_opt(FIRST_DAY - 1).is_none());
    assert!(NaiveDate::from_num_days_from_ce_opt(LAST_DAY).is_some());
    assert!(NaiveDate::from_num_days_from_ce_opt(LAST_DAY + 1).is_none());
    assert_eq!(NaiveDate::MIN.num_days_from_ce(), FIRST_DAY);
    assert_eq!(NaiveDate::MAX.num_days_from_ce(), LAST_DAY);
}

fn entity(extra: Value) -> Vec<(String, Json)> {
    let mut value = serde_json::from_str::<Value>(r#"{ "id": "t1", "list_id": "l1", "title": "Pay rent" }"#).expect("json");
    if let (Some(object), Some(more)) = (value.as_object_mut(), extra.as_object()) {
        object.extend(more.clone());
    }
    match from_value(&value) {
        Json::Object(members) => members,
        other => panic!("{other:?}"),
    }
}

fn graph_time(at: &str, zone: &str) -> GraphTime {
    GraphTime { date_time: at.to_string(), time_zone: zone.to_string() }
}

#[test]
fn a_task_reads_every_field_of_graphs_shape() {
    let task = Task::from_entity(&entity(
        serde_json::from_str(
            r#"{
                "status": "completed",
                "importance": "high",
                "dueDateTime": { "dateTime": "2026-10-01T00:00:00.0000000", "timeZone": "Europe/London" },
                "isReminderOn": true,
                "reminderDateTime": { "dateTime": "2026-10-01T09:00:00.0000000", "timeZone": "Europe/London" },
                "body": { "content": "<p>Call <b>Sam</b></p>", "contentType": "html" },
                "checklistItems": [{ "isChecked": true }, { "isChecked": false }],
                "categories": ["Home", 7],
                "sync_state": "unknown",
                "recurrence": { "pattern": { "type": "daily", "interval": 1 } },
                "completedDateTime": { "dateTime": "2026-10-02T08:00:00.0000000", "timeZone": "UTC" }
            }"#,
        )
        .expect("json"),
    ))
    .expect("task");
    assert_eq!(task.id, "t1");
    assert_eq!(task.list_id, "l1");
    assert_eq!(task.title, "Pay rent");
    assert!(task.completed && task.important());
    assert_eq!(task.importance, Importance::High);
    assert_eq!(task.due, Some(graph_time("2026-10-01T00:00:00.0000000", "Europe/London")));
    assert_eq!(task.reminder, Some(graph_time("2026-10-01T09:00:00.0000000", "Europe/London")));
    assert_eq!(task.body, Some(Body { content: "<p>Call <b>Sam</b></p>".to_string(), html: true }));
    assert_eq!(task.steps, Some((1, 2)));
    assert_eq!(task.categories, ["Home"]);
    assert_eq!(task.sync, SyncMarker::Unknown);
    assert_eq!(task.recurrence.as_deref(), Some("daily"));
    assert_eq!(task.completed_at, Some(graph_time("2026-10-02T08:00:00.0000000", "UTC")));
}

#[test]
fn a_reminder_that_is_off_and_no_steps_are_absent() {
    let task = Task::from_entity(&entity(
        serde_json::from_str(
            r#"{
                "isReminderOn": false,
                "reminderDateTime": { "dateTime": "2026-10-01T09:00:00.0000000", "timeZone": "UTC" },
                "body": { "content": "", "contentType": "text" },
                "checklistItems": [],
                "importance": "low",
                "sync_state": "failed"
            }"#,
        )
        .expect("json"),
    ))
    .expect("task");
    assert_eq!(task.reminder, None);
    assert_eq!(task.body, Some(Body { content: String::new(), html: false }));
    assert_eq!(task.steps, None);
    assert_eq!(task.importance, Importance::Low);
    assert_eq!(task.sync, SyncMarker::Failed);
    assert!(!task.completed);
    assert!(task.categories.is_empty());
    assert_eq!(task.due, None);
}

#[test]
fn an_entity_without_an_id_is_no_task() {
    let mut members = entity(serde_json::from_str("{}").expect("json"));
    members.retain(|(key, _)| key != "id");
    assert_eq!(Task::from_entity(&members), None);
    let bare = match from_value(&serde_json::from_str::<Value>(r#"{ "id": "t2" }"#).expect("json")) {
        Json::Object(m) => m,
        _ => unreachable!(),
    };
    let task = Task::from_entity(&bare).expect("task");
    assert_eq!((task.list_id.as_str(), task.title.as_str()), ("", ""));
    assert_eq!(task.importance, Importance::Normal);
    assert_eq!(task.sync, SyncMarker::Synced);
}

#[test]
fn h_l_and_tab_move_between_the_panes() {
    assert_eq!(Pane::Sidebar.left(), Pane::Sidebar);
    assert_eq!(Pane::Tasks.left(), Pane::Sidebar);
    assert_eq!(Pane::Detail.left(), Pane::Tasks);
    assert_eq!(Pane::Sidebar.right(), Pane::Tasks);
    assert_eq!(Pane::Tasks.right(), Pane::Detail);
    assert_eq!(Pane::Detail.right(), Pane::Detail);
    assert_eq!(Pane::Sidebar.next(), Pane::Tasks);
    assert_eq!(Pane::Tasks.next(), Pane::Detail);
    assert_eq!(Pane::Detail.next(), Pane::Sidebar);
}

#[test]
fn j_k_g_and_capital_g_stay_within_the_rows() {
    assert_eq!(moved_index(0, 3, Action::MoveDown), 1);
    assert_eq!(moved_index(2, 3, Action::MoveDown), 2);
    assert_eq!(moved_index(0, 3, Action::MoveUp), 0);
    assert_eq!(moved_index(2, 3, Action::MoveUp), 1);
    assert_eq!(moved_index(1, 3, Action::JumpTop), 0);
    assert_eq!(moved_index(0, 3, Action::JumpBottom), 2);
    assert_eq!(moved_index(0, 0, Action::MoveDown), 0);
    assert_eq!(moved_index(0, 0, Action::JumpBottom), 0);
    assert_eq!(moved_index(1, 3, Action::Help), 1);
}

#[test]
fn the_detail_cursor_runs_through_fields_steps_link_and_notes() {
    let mut row = DetailRow::Field(Field::Title);
    let mut seen = vec![row];
    for _ in 0..12 {
        row = row.moved(2, Action::MoveDown);
        seen.push(row);
    }
    assert_eq!(seen[..10], DetailRow::all(2)[..]);
    assert_eq!(row, DetailRow::Field(Field::Notes), "no further than the notes");
    assert_eq!(row.moved(2, Action::JumpTop), DetailRow::Field(Field::Title));
    assert_eq!(DetailRow::Field(Field::Title).moved(2, Action::MoveUp), DetailRow::Field(Field::Title));
    assert_eq!(DetailRow::Steps.moved(0, Action::MoveDown), DetailRow::Link);
    // A step past the last is the last.
    assert_eq!(DetailRow::Step(7).moved(2, Action::MoveDown), DetailRow::Link);
    assert_eq!(DetailRow::Step(7).moved(0, Action::MoveUp), DetailRow::Field(Field::Assignee));
    assert_eq!(DetailRow::Link.moved(3, Action::JumpBottom), DetailRow::Field(Field::Notes));
}

fn palette_labels(query: &str) -> Vec<String> {
    let lists = vec![
        SidebarList { id: "tasks".to_string(), name: "Tasks".to_string(), folder: None },
        SidebarList { id: "home".to_string(), name: "Home".to_string(), folder: None },
    ];
    let entries = sidebar_entries(&lists, &[], &[("home".to_string(), 3)]);
    palette_items(&entries, &lists, query).into_iter().map(|item| item.label).collect()
}

#[test]
fn the_query_finds_actions_and_lists_best_match_first() {
    let everything = palette_labels("");
    assert!(everything.contains(&"Delete".to_owned()));
    assert!(everything.contains(&"Go to Home".to_owned()));
    assert!(everything.contains(&"Go to Important".to_owned()));
    assert!(!everything.contains(&"Down".to_owned()), "no movement");

    assert_eq!(palette_labels("del")[0], "Delete");
    assert_eq!(palette_labels("DIAG")[0], "Diagnostics");
    // A word's start, then anywhere, then the letters in order.
    assert_eq!(palette_labels("home")[0], "Go to Home");
    assert_eq!(palette_labels("gthm"), ["Go to Home"]);
    // A key finds its action.
    assert_eq!(palette_labels("x"), ["Done"]);
    assert!(palette_labels("zzz").is_empty());
}

#[test]
fn ties_keep_the_registrys_order_and_the_sidebars() {
    let labels = palette_labels("go to");
    assert_eq!(labels[0], "Go to Important");
    let lists: Vec<&String> = labels.iter().filter(|l| *l == "Go to Tasks" || *l == "Go to Home").collect();
    assert_eq!(lists, ["Go to Tasks", "Go to Home"]);
    // Both start a word with "all": the registry's action comes first.
    let items = palette_items(&sidebar_entries(&[], &[], &[]), &Vec::new(), "  ALL ");
    assert_eq!(items[0].label, "Select all");
    assert_eq!(items[1].label, "Go to All");
    assert_eq!(items[1].command, Command::Go(Scope::All));
}

#[test]
fn capital_i_rounds_the_three_levels_and_each_reads_as_graph_writes_it() {
    assert_eq!(next_importance(Importance::Low), Importance::Normal);
    assert_eq!(next_importance(Importance::Normal), Importance::High);
    assert_eq!(next_importance(Importance::High), Importance::Low);
    for level in [Importance::Low, Importance::Normal, Importance::High] {
        assert_eq!(next_importance(next_importance(next_importance(level))), level);
        let members = entity(serde_json::from_str(&format!(r#"{{ "importance": "{}" }}"#, importance_name(level))).expect("json"));
        assert_eq!(Task::from_entity(&members).expect("task").importance, level);
    }
    assert_eq!(importance_name(Importance::Normal), "normal");
}

fn tab(text: &str) -> Option<(String, usize)> {
    let lists = vec!["Tasks".to_string(), "Home".to_string(), "Home Office".to_string(), "Groceries".to_string()];
    let labels = vec!["Errands".to_string(), "Admin".to_string()];
    complete_word(text, text.chars().count(), &lists, &labels)
}

#[test]
fn tab_finishes_a_list_or_a_label_as_far_as_the_matches_agree() {
    assert_eq!(tab("Buy milk #gr"), Some(("Buy milk #Groceries ".to_string(), 20)));
    assert_eq!(tab("Buy milk #Groceries @er"), Some(("Buy milk #Groceries @Errands ".to_string(), 29)));
    // Two lists start "ho": as far as they agree, no space.
    assert_eq!(tab("Buy milk #ho"), Some(("Buy milk #Home".to_string(), 14)));
    // A quote typed stays; a name with a space is quoted.
    assert_eq!(tab("Call #\"hom"), Some(("Call #\"Home".to_string(), 11)));
    let office = vec!["Home Office".to_string()];
    assert_eq!(
        complete_word("Call #ho", 8, &office, &vec![]),
        Some(("Call #\"Home Office\" ".to_string(), 20))
    );
    // A space ends the word: what follows it is another.
    assert_eq!(tab("Call #home o"), None);
    // Nothing to finish: nothing changes.
    assert_eq!(tab("Buy milk x"), None);
    assert_eq!(tab("Buy milk #zz"), None);
    assert_eq!(tab(""), None);
}

#[test]
fn tab_keeps_what_follows_the_cursor_and_a_wide_space_whole() {
    let lists = vec!["Home".to_string()];
    let labels = vec!["Errands".to_string()];
    for space in ['\u{3000}', '\u{a0}'] {
        let text = format!("Buy{space}#ho");
        let (done, at) = complete_word(&text, 7, &lists, &labels).expect("completed");
        assert_eq!(done, format!("Buy{space}#Home "));
        assert_eq!(at, 10);
    }
    let (done, at) = complete_word("a @er b", 5, &lists, &labels).expect("completed");
    assert_eq!(done, "a @Errands  b");
    assert_eq!(at, 11);
    // A cursor past the end counts as at the end.
    assert_eq!(complete_word("#h", 40, &lists, &labels), Some(("#Home ".to_string(), 6)));
}

#[test]
fn keys_go_to_the_prompt_or_page_open_else_the_pane_with_focus() {
    assert_eq!(context(ModeKind::Normal, Pane::Sidebar, false), Context::Sidebar);
    assert_eq!(context(ModeKind::Normal, Pane::Tasks, true), Context::Tasks);
    assert_eq!(context(ModeKind::Normal, Pane::Detail, false), Context::Detail);
    assert_eq!(context(ModeKind::Normal, Pane::Detail, true), Context::Steps);
    assert_eq!(context(ModeKind::Editing(Field::Notes), Pane::Tasks, false), Context::Notes);
    assert_eq!(context(ModeKind::Editing(Field::Title), Pane::Tasks, false), Context::Prompt);
    assert_eq!(context(ModeKind::Adding, Pane::Tasks, false), Context::Adding);
    assert_eq!(context(ModeKind::MovingList, Pane::Sidebar, false), Context::Folder);
    assert_eq!(context(ModeKind::ConfirmDeleteList, Pane::Sidebar, false), Context::Confirm);
    assert_eq!(context(ModeKind::MovingTasks, Pane::Tasks, false), Context::MoveTo);
    assert_eq!(context(ModeKind::Help, Pane::Detail, true), Context::Help);
}

#[test]
fn a_list_shows_open_tasks_then_the_most_recently_completed() {
    let list = Scope::List { id: "home".to_string() };
    let tasks = vec![
        (true, Some(100)),
        (false, None),
        (true, None),
        (true, Some(300)),
        (false, None),
        (true, Some(100)),
    ];
    // Open in the cache's order, then the completion not answered yet,
    // then newest first, ties in the cache's order.
    assert_eq!(order(&list, false, &tasks), vec![1, 4, 2, 3, 0, 5]);
    // Views, and a filtered list, keep the daemon's order.
    assert_eq!(order(&Scope::All, false, &tasks), vec![0, 1, 2, 3, 4, 5]);
    assert_eq!(order(&list, true, &tasks), vec![0, 1, 2, 3, 4, 5]);
    assert!(order(&list, false, &vec![]).is_empty());
}

#[test]
fn a_task_belongs_to_the_views_it_matches() {
    let members = entity(
        serde_json::from_str(r#"{ "importance": "high", "dueDateTime": { "dateTime": "2026-10-01T00:00:00", "timeZone": "UTC" } }"#)
            .expect("json"),
    );
    let open = Task::from_entity(&members).expect("task");
    assert!(belongs(&Scope::Important, &open));
    assert!(belongs(&Scope::Planned, &open));
    assert!(belongs(&Scope::All, &open));
    assert!(!belongs(&Scope::Completed, &open));
    assert!(belongs(&Scope::List { id: "l1".to_string() }, &open));
    assert!(!belongs(&Scope::List { id: "l2".to_string() }, &open));
    assert!(!belongs(&Scope::Unknown, &open));
    let mut done = open.clone();
    done.completed = true;
    assert!(!belongs(&Scope::Important, &done) && !belongs(&Scope::All, &done));
    assert!(belongs(&Scope::Completed, &done));
}

#[test]
fn a_refresh_that_reorders_rows_keeps_the_cursor_on_the_same_task() {
    let ids: Vec<String> = ["t3", "t1", "t2"].iter().map(|s| s.to_string()).collect();
    assert_eq!(reseeded_cursor(Some("t1"), true, &ids, 0), 1);
    // The task gone: where it was, within the rows.
    assert_eq!(reseeded_cursor(Some("t9"), true, &ids, 2), 2);
    assert_eq!(reseeded_cursor(Some("t9"), true, &ids, 7), 2);
    // Another scope: the top.
    assert_eq!(reseeded_cursor(Some("t1"), false, &ids, 2), 0);
    assert_eq!(reseeded_cursor(None, true, &ids, 2), 0);
    assert_eq!(reseeded_cursor(Some("t1"), true, &vec![], 3), 0);
}

#[test]
fn a_list_is_read_from_what_the_daemon_sends() {
    let members = |text: &str| match from_value(&serde_json::from_str::<Value>(text).expect("json")) {
        Json::Object(m) => m,
        _ => unreachable!(),
    };
    assert_eq!(
        SidebarList::from_entity(&members(r#"{ "id": "fin", "displayName": "Finances", "folder": "Areas" }"#)),
        Some(SidebarList { id: "fin".to_string(), name: "Finances".to_string(), folder: Some("Areas".to_string()) })
    );
    assert_eq!(
        SidebarList::from_entity(&members(r#"{ "id": "tasks", "displayName": "Tasks", "folder": null }"#)),
        Some(SidebarList { id: "tasks".to_string(), name: "Tasks".to_string(), folder: None })
    );
    assert_eq!(SidebarList::from_entity(&members(r#"{ "displayName": "No id" }"#)), None);
    assert_eq!(SidebarList::from_entity(&members(r#"{ "id": "x" }"#)), None);
}

#[test]
fn tab_offers_the_users_categories_else_those_on_the_tasks_read() {
    let on_tasks = vec![
        vec!["Home".to_string(), "Errands".to_string()],
        vec!["Admin".to_string(), "Home".to_string()],
        vec![],
        vec!["été".to_string(), "zoo".to_string(), "Zoo".to_string(), "Adm".to_string()],
    ];
    let labels = known_labels(&Categories::Asking, &on_tasks);
    let mut expected: Vec<String> = on_tasks.iter().flatten().cloned().collect();
    expected.sort_unstable();
    expected.dedup();
    assert_eq!(labels, expected);
    assert_eq!(labels, ["Adm", "Admin", "Errands", "Home", "Zoo", "zoo", "été"]);
    let known = Categories::Known(Some(vec!["Work".to_string(), "Errands".to_string()]));
    assert_eq!(known_labels(&known, &on_tasks), ["Work", "Errands"]);
    assert_eq!(known_labels(&Categories::Known(None), &on_tasks), expected);
    assert!(known_labels(&Categories::Unasked, &vec![]).is_empty());
}
