use mstodo::action::{Action, Field};
use mstodo::app_state::{Level, Pane, Write};
use mstodo::detail_cursor::StepKey;
use mstodo::diagnostics::{DaemonStatus, Diagnostics, DoctorReport, OutboxDepth, OutboxOp, Part, PartData, ScopeStatus};
use mstodo::folders::folder_suggestions;
use mstodo::json::Json;
use mstodo::layout::layout;
use mstodo::scope::{Scope, SidebarList};
use mstodo::selection::Selection;
use mstodo::steps::{ChildTarget, DetailRow};
use mstodo::task::{Importance, Task};
use mstodo::update::{
    App, ChildChange, Effect, ErrorPayload, Event, LinkCheck, Mode, Request, ResponseData, SeedAnswer, Seeds, Tag,
};

fn task(id: &str, title: &str) -> Task {
    let members = vec![
        ("id".to_string(), Json::Str(id.to_string())),
        ("list_id".to_string(), Json::Str("l1".to_string())),
        ("title".to_string(), Json::Str(title.to_string())),
    ];
    Task::from_entity(&members).expect("task")
}

fn app() -> App {
    App {
        focus: Pane::Tasks,
        detail_row: DetailRow::Field(Field::Title),
        mode: Mode::Normal,
        wanted: Some(Scope::List { id: "l1".to_string() }),
        shown: Some(Scope::List { id: "l1".to_string() }),
        tasks: vec![task("a", "Pay rent"), task("b", "Buy milk"), task("c", "Call Sam")],
        task_index: 0,
        selection: Selection::new(),
        seeds: Seeds { latest: 3, in_flight: false, again: false },
        banner: None,
        filter: None,
        filter_error: None,
        lists_ready: true,
        tasks_ready: true,
        syncing: false,
        rejections: Vec::new(),
        seeded: true,
        should_quit: false,
        help: layout(80, 24),
        diagnostics: Diagnostics::default(),
        cached: Vec::new(),
        download_dir: "/home/bk/Downloads".to_string(),
        to_open: None,
        lists: home_lists(),
        collapsed: Vec::new(),
        sidebar_index: 0,
    }
}

fn sidebar_list(id: &str, name: &str, folder: Option<&str>) -> SidebarList {
    SidebarList { id: id.to_string(), name: name.to_string(), folder: folder.map(str::to_string) }
}

/// The four views come first; then `Tasks` (row 4) and `Home` (row 5).
fn home_lists() -> Vec<SidebarList> {
    vec![sidebar_list("tasks", "Tasks", None), sidebar_list("home", "Home", None)]
}

fn ids(app: &App) -> Vec<String> {
    app.tasks.iter().map(|t| t.id.clone()).collect()
}

fn seed_of(effects: &[Effect]) -> Option<u64> {
    match effects {
        [Effect { tag: Tag::Seed(n), request: Request::Seed { .. } }] => Some(*n),
        _ => None,
    }
}

fn seed_answer(scope: Scope, tasks: Vec<Task>) -> Result<ResponseData, ErrorPayload> {
    Ok(ResponseData::Seed(SeedAnswer { scope: Some(scope), tasks, lists: home_lists(), lists_ready: true, tasks_ready: true }))
}

fn error(kind: &str, message: &str) -> ErrorPayload {
    ErrorPayload { kind: kind.to_string(), message: message.to_string(), undo_target: None, candidates: Vec::new() }
}

fn seeded() -> App {
    let mut app = app();
    app.tasks = vec![task("t1", "Pay rent"), task("t2", "Call Sam"), task("t3", "Water plants"), task("t4", "Ship blueprint")];
    app
}

fn titles(app: &App) -> Vec<String> {
    app.tasks.iter().map(|t| t.title.clone()).collect()
}

fn entity(id: &str) -> Vec<(String, Json)> {
    vec![("id".to_string(), Json::Str(id.to_string()))]
}

#[test]
fn d_asks_first_and_only_y_deletes() {
    let mut app = seeded();
    app.act(Action::MoveDown);
    assert_eq!(app.act(Action::Delete).map(|e| e.len()), Some(0));
    match &app.mode {
        Mode::ConfirmDelete { ids, what } => {
            assert_eq!(ids, &vec!["t2".to_string()]);
            assert_eq!(what, "\"Call Sam\"");
        },
        other => panic!("{other:?}"),
    }
    assert_eq!(app.act(Action::Cancel).map(|e| e.len()), Some(0));
    assert!(matches!(app.mode, Mode::Normal));

    app.act(Action::Delete);
    let effects = app.act(Action::Confirm).expect("handled");
    match effects.as_slice() {
        [Effect { tag: Tag::Write(Write::Delete), request: Request::DeleteTasks { ids } }] => assert_eq!(ids, &vec!["t2".to_string()]),
        other => panic!("{other:?}"),
    }
    let answer = app.answered(Tag::Write(Write::Delete), Ok(ResponseData::Applied { items: vec![entity("t2")], refused: vec![] }));
    assert_eq!(answer.map(|e| e.len()), Some(0));
    assert_eq!(titles(&app), ["Pay rent", "Water plants", "Ship blueprint"]);
}

fn help_scroll(app: &App) -> Option<u16> {
    match app.mode {
        Mode::Help { scroll } => Some(scroll),
        _ => None,
    }
}

#[test]
fn help_scrolls_no_further_than_its_last_row() {
    let page = layout(80, 24);
    let (max, step) = (page.max_scroll(), page.page());
    assert!(max > step, "help is taller than two screens at 80x24");
    let mut app = app();
    app.resize(80, 24);
    app.act(Action::Help);
    assert_eq!(help_scroll(&app), Some(0));
    app.act(Action::MoveUp);
    assert_eq!(help_scroll(&app), Some(0), "no further up than the top");
    app.act(Action::MoveDown);
    assert_eq!(help_scroll(&app), Some(1));
    app.act(Action::PageUp);
    assert_eq!(help_scroll(&app), Some(0));
    app.act(Action::PageDown);
    assert_eq!(help_scroll(&app), Some(step));
    app.act(Action::JumpBottom);
    assert_eq!(help_scroll(&app), Some(max));
    app.act(Action::MoveDown);
    app.act(Action::PageDown);
    assert_eq!(help_scroll(&app), Some(max), "no further down than the last row");
    app.act(Action::JumpTop);
    assert_eq!(help_scroll(&app), Some(0));
    // Growing the terminal until it all fits takes the scroll with it.
    app.act(Action::JumpBottom);
    app.resize(200, 200);
    assert_eq!(help_scroll(&app), Some(0));
    app.act(Action::MoveDown);
    assert_eq!(help_scroll(&app), Some(0));
    // Closed and opened again, it starts at the top.
    app.resize(80, 24);
    app.act(Action::JumpBottom);
    app.act(Action::Cancel);
    assert!(matches!(app.mode, Mode::Normal));
    app.act(Action::Help);
    assert_eq!(help_scroll(&app), Some(0));
}

#[test]
fn from_the_detail_pane_a_task_key_takes_the_task_as_from_the_list() {
    let mut app = seeded();
    app.act(Action::FocusRight);
    assert_eq!(app.focus, Pane::Detail);
    app.act(Action::Delete);
    assert!(matches!(&app.mode, Mode::ConfirmDelete { what, .. } if what == "\"Pay rent\""));
    app.act(Action::Cancel);
    app.wanted = Some(Scope::Important);
    assert_eq!(app.act(Action::ToggleComplete).map(|e| e.len()), Some(0));
    assert_eq!(app.banner.as_ref().expect("banner").text, "Still loading this list; try again in a moment");
}

#[test]
fn j_in_the_detail_pane_moves_through_its_rows() {
    let mut app = seeded();
    app.act(Action::FocusRight);
    app.act(Action::MoveDown);
    assert_eq!(app.detail_row, DetailRow::Field(Field::Due));
    app.act(Action::JumpTop);
    assert_eq!(app.detail_row, DetailRow::Field(Field::Title));
    assert_eq!(app.task_index, 0);
}

#[test]
fn slash_filters_as_it_is_typed_and_escape_clears_it() {
    let mut app = app();
    app.act(Action::Filter);
    assert!(matches!(&app.mode, Mode::Filtering { input } if input.is_empty()));
    let effects = app.filter_typed("mil");
    assert_eq!(seed_of(&effects), Some(4));
    match effects.as_slice() {
        [Effect { request: Request::Seed { search: Some(q), .. }, .. }] => assert_eq!(q, "mil*"),
        other => panic!("{other:?}"),
    }
    assert_eq!(app.filter.as_deref(), Some("mil"));
    assert!(app.filter_typed("mil").is_empty(), "the same text searches nothing new");
    let effects = app.act(Action::Cancel).expect("handled");
    assert_eq!(seed_of(&effects), Some(5));
    assert_eq!(app.filter, None);
    assert!(matches!(app.mode, Mode::Normal));
}

#[test]
fn bulk_delete_names_the_count_of_the_selection_in_screen_order() {
    let mut app = app();
    app.task_index = 2;
    app.act(Action::ToggleSelect);
    app.task_index = 0;
    app.act(Action::ToggleSelect);
    app.act(Action::Delete);
    match &app.mode {
        Mode::ConfirmDelete { ids, what } => {
            assert_eq!(ids, &vec!["a".to_string(), "c".to_string()]);
            assert_eq!(what, "2 tasks");
        },
        other => panic!("{other:?}"),
    }
    app.act(Action::Cancel);
    assert!(matches!(app.mode, Mode::Normal));
    assert!(app.selection.contains("a"));
}

#[test]
fn a_task_action_while_loading_is_refused_and_says_why() {
    let mut app = app();
    app.wanted = Some(Scope::Important);
    assert_eq!(app.act(Action::Delete).map(|e| e.len()), Some(0));
    assert!(matches!(app.mode, Mode::Normal));
    let banner = app.banner.expect("banner");
    assert_eq!(banner.text, "Still loading this list; try again in a moment");
    assert_eq!(banner.level, Level::Info);
}

#[test]
fn j_and_capital_g_move_within_the_rows_and_keys_not_held_here_are_not_taken() {
    let mut app = app();
    app.act(Action::MoveDown);
    assert_eq!(app.task_index, 1);
    app.act(Action::JumpBottom);
    assert_eq!(app.task_index, 2);
    app.act(Action::MoveDown);
    assert_eq!(app.task_index, 2);
    assert!(app.act(Action::Edit).is_none());
    assert!(app.act(Action::OpenLink).is_none());
    app.act(Action::FocusLeft);
    assert_eq!(app.focus, Pane::Sidebar);
    let effects = app.act(Action::MoveDown).expect("handled");
    assert_eq!(app.sidebar_index, 1);
    assert!(matches!(&effects[0].request, Request::Seed { scope: Some(Scope::Planned), .. }));
}

#[test]
fn esc_drops_the_selection_then_the_filter_and_reads_again() {
    let mut app = app();
    app.act(Action::SelectAll);
    assert!(app.selection.contains("b"));
    app.filter = Some("milk".to_string());
    assert_eq!(app.act(Action::Clear).map(|e| e.len()), Some(0));
    assert!(app.selection.is_empty());
    let effects = app.act(Action::Clear).expect("handled");
    assert_eq!(app.filter, None);
    assert_eq!(seed_of(&effects), Some(4));
    assert!(app.seeds.in_flight);
}

#[test]
fn u_asks_for_an_undo_and_q_quits() {
    let mut app = app();
    let effects = app.act(Action::Undo).expect("handled");
    assert!(matches!(effects.as_slice(), [Effect { tag: Tag::Undo, request: Request::Undo { target: None, copy: None } }]));
    app.act(Action::Quit);
    assert!(app.should_quit);
}

#[test]
fn help_scrolls_no_further_than_its_last_row_and_esc_closes_it() {
    let mut app = app();
    app.act(Action::Help);
    app.act(Action::JumpBottom);
    let max = app.help.max_scroll();
    assert!(matches!(app.mode, Mode::Help { scroll } if scroll == max));
    app.act(Action::Cancel);
    assert!(matches!(app.mode, Mode::Normal));
}

#[test]
fn an_answer_to_an_old_seed_is_dropped() {
    let mut app = app();
    let effects = app.answered(Tag::Seed(2), seed_answer(Scope::Important, vec![task("z", "Old")]));
    assert_eq!(effects.map(|e| e.len()), Some(0));
    assert_eq!(ids(&app), vec!["a", "b", "c"]);
}

#[test]
fn the_latest_seed_paints_keeping_the_cursor_on_the_same_task() {
    let mut app = app();
    app.task_index = 1;
    app.seeds.in_flight = true;
    let rows = vec![task("n", "New"), task("a", "Pay rent"), task("b", "Buy milk")];
    let effects = app.answered(Tag::Seed(3), seed_answer(Scope::List { id: "l1".to_string() }, rows)).expect("handled");
    assert!(effects.is_empty());
    assert!(!app.seeds.in_flight);
    assert_eq!(ids(&app), vec!["n", "a", "b"]);
    assert_eq!(app.task_index, 2, "still on b");
}

#[test]
fn changes_while_a_seed_is_in_flight_cost_one_more_read() {
    let mut app = app();
    let first = app.reseed();
    assert_eq!(seed_of(&first), Some(4));
    assert!(app.reseed().is_empty());
    assert!(app.reseed().is_empty());
    let effects = app.answered(Tag::Seed(4), seed_answer(Scope::List { id: "l1".to_string() }, vec![task("a", "Pay rent")])).expect("handled");
    assert_eq!(seed_of(&effects), Some(5));
    assert!(!app.seeds.again);
}

#[test]
fn the_first_seed_reads_the_views_ahead() {
    let mut app = app();
    app.seeded = false;
    let effects = app.answered(Tag::Seed(3), seed_answer(Scope::Important, vec![])).expect("handled");
    assert_eq!(effects.len(), 3, "every view but the one on screen");
    assert!(effects.iter().all(|e| e.tag == Tag::Prefetch));
}

#[test]
fn a_deleted_list_falls_back_to_the_default_one() {
    let mut app = app();
    app.wanted = Some(Scope::List { id: "gone".to_string() });
    let effects = app.answered(Tag::Seed(3), Err(error("not_found", "no such list"))).expect("handled");
    assert_eq!(app.wanted, None);
    assert_eq!(seed_of(&effects), Some(4));
    assert_eq!(app.banner.expect("banner").text, "That list is gone; showing Tasks");
}

#[test]
fn a_filter_mid_typing_that_cant_be_searched_keeps_the_rows() {
    let mut app = app();
    app.filter = Some("\"unclosed".to_string());
    let effects = app.answered(Tag::Seed(3), Err(error("invalid_input", "unterminated string"))).expect("handled");
    assert!(effects.is_empty());
    assert_eq!(app.filter_error.as_deref(), Some("unterminated string"));
    assert_eq!(ids(&app), vec!["a", "b", "c"]);
}

#[test]
fn an_undo_names_what_it_left_alone_and_reads_again() {
    let mut app = app();
    let effects = app
        .answered(Tag::Undo, Ok(ResponseData::Applied { items: vec![], refused: vec!["Pay rent".to_string(), "Call Sam".to_string()] }))
        .expect("handled");
    assert_eq!(seed_of(&effects), Some(4));
    assert_eq!(
        app.banner.expect("banner").text,
        "Undone, except \"Pay rent\", \"Call Sam\": changed since, so left alone"
    );
}

#[test]
fn undoing_a_recurring_completion_picks_the_copy_then_sends_it() {
    let mut app = app();
    let picking = ErrorPayload {
        kind: "ambiguous".to_string(),
        message: "which copy?".to_string(),
        undo_target: Some("op1".to_string()),
        candidates: vec!["c1".to_string(), "c2".to_string()],
    };
    app.answered(Tag::Undo, Err(picking));
    app.act(Action::MoveDown);
    app.act(Action::MoveDown);
    let effects = app.act(Action::Submit).expect("handled");
    match effects.as_slice() {
        [Effect { tag: Tag::Undo, request: Request::Undo { target: Some(t), copy: Some(c) } }] => {
            assert_eq!(t, "op1");
            assert_eq!(c, "c2");
        },
        other => panic!("{other:?}"),
    }
}

#[test]
fn a_download_outside_the_directory_is_not_opened() {
    let mut app = app();
    app.answered(Tag::Download, Ok(ResponseData::Downloaded(Some("/tmp/x.pdf".to_string()))));
    assert_eq!(app.to_open, None);
    app.answered(Tag::Download, Ok(ResponseData::Downloaded(Some("/home/bk/Downloads/x.pdf".to_string()))));
    assert_eq!(app.to_open.as_deref(), Some("/home/bk/Downloads/x.pdf"));
    assert!(app.answered(Tag::Write(Write::Edit), Ok(ResponseData::Applied { items: vec![], refused: vec![] })).is_none());
}

fn editing(target: ChildTarget) -> App {
    let mut app = app();
    app.mode = Mode::EditingChild { id: "a".to_string(), target, error: None };
    app
}

fn ok_link() -> LinkCheck {
    LinkCheck { storable: Ok(()), openable: true }
}

#[test]
fn a_new_step_is_sent_and_the_prompt_stays_open_for_the_next() {
    let mut app = editing(ChildTarget::NewStep);
    let effects = app.submit_child("  Buy stamps ", &vec![], None, ok_link());
    match effects.as_slice() {
        [Effect { tag: Tag::Write(Write::Edit), request: Request::ChangeChild { id, change: ChildChange::AddStep(text) } }] => {
            assert_eq!(id, "a");
            assert_eq!(text, "Buy stamps");
        },
        other => panic!("{other:?}"),
    }
    assert!(matches!(&app.mode, Mode::EditingChild { target: ChildTarget::NewStep, error: None, .. }));
    assert!(app.submit_child("", &vec![], None, ok_link()).is_empty());
    assert!(matches!(app.mode, Mode::Normal));
}

#[test]
fn an_empty_step_is_refused_and_an_unchanged_one_sends_nothing() {
    let steps = vec![StepKey { id: "s1".to_string(), name: "Stamps".to_string() }];
    let mut app = editing(ChildTarget::Step("s1".to_string()));
    assert!(app.submit_child(" ", &steps, None, ok_link()).is_empty());
    assert!(matches!(&app.mode, Mode::EditingChild { error: Some(why), .. } if why == "A step can't be empty; d deletes it"));
    assert!(app.submit_child("Stamps", &steps, None, ok_link()).is_empty());
    assert!(matches!(app.mode, Mode::Normal));
    let mut app = editing(ChildTarget::Step("s1".to_string()));
    let effects = app.submit_child("Envelopes", &steps, None, ok_link());
    assert!(matches!(effects.as_slice(), [Effect { request: Request::ChangeChild { change: ChildChange::EditStep { .. }, .. }, .. }]));
}

#[test]
fn a_link_is_checked_kept_with_a_word_when_it_wont_open_and_not_resent_unchanged() {
    let mut app = editing(ChildTarget::Link(None));
    let bad = LinkCheck { storable: Err("it has spaces".to_string()), openable: false };
    assert!(app.submit_child("a b", &vec![], None, bad).is_empty());
    assert!(matches!(&app.mode, Mode::EditingChild { error: Some(why), .. } if why == "Not a link: it has spaces"));
    let ftp = LinkCheck { storable: Ok(()), openable: false };
    let effects = app.submit_child("ftp://x", &vec![], None, ftp);
    assert!(matches!(effects.as_slice(), [Effect { request: Request::ChangeChild { change: ChildChange::AddLink(_), .. }, .. }]));
    assert_eq!(app.banner.as_ref().expect("banner").text, "Kept, but only http, https and mailto links open");
    let mut app = editing(ChildTarget::Link(Some("k1".to_string())));
    assert!(app.submit_child("https://a.b", &vec![], Some("https://a.b"), ok_link()).is_empty());
    assert!(matches!(app.mode, Mode::Normal));
}

#[test]
fn a_task_gone_while_typing_is_not_changed() {
    let mut app = editing(ChildTarget::NewStep);
    app.tasks.clear();
    assert!(app.submit_child("x", &vec![], None, ok_link()).is_empty());
    assert!(matches!(app.mode, Mode::Normal));
    assert_eq!(app.banner.expect("banner").text, "That task is gone; nothing was changed");
}

#[test]
fn x_completes_the_open_targets_and_reopens_them_when_all_are_done() {
    let mut app = app();
    app.tasks[1].completed = true;
    app.act(Action::SelectAll);
    let effects = app.act(Action::ToggleComplete).expect("handled");
    match effects.as_slice() {
        [Effect { tag: Tag::Write(Write::Complete), request: Request::Complete { ids } }] => {
            assert_eq!(ids, &vec!["a".to_string(), "c".to_string()])
        },
        other => panic!("{other:?}"),
    }
    assert!(app.selection.is_empty());
    app.task_index = 1;
    let effects = app.act(Action::ToggleComplete).expect("handled");
    match effects.as_slice() {
        [Effect { tag: Tag::Write(Write::Reopen), request: Request::Reopen { ids } }] => assert_eq!(ids, &vec!["b".to_string()]),
        other => panic!("{other:?}"),
    }
}

#[test]
fn a_rejected_write_says_why_is_kept_by_its_task_and_reads_again() {
    let mut app = app();
    app.rejections.push(("a".to_string(), "old".to_string()));
    let effects = app.event(Event::Rejected { task_id: "a".to_string(), message: "Too long".to_string() });
    assert_eq!(seed_of(&effects), Some(4));
    assert_eq!(app.rejections, vec![("a".to_string(), "Too long".to_string())]);
    let banner = app.banner.expect("banner");
    assert_eq!(banner.level, Level::Error);
    assert_eq!(banner.text, "Microsoft To Do rejected a change, which was undone here: Too long");
}

#[test]
fn a_finished_sync_reads_again_only_while_something_wasnt_ready() {
    let mut app = app();
    assert!(app.event(Event::Syncing(true)).is_empty());
    assert!(app.syncing);
    assert!(app.event(Event::Syncing(false)).is_empty());
    app.tasks_ready = false;
    assert_eq!(seed_of(&app.event(Event::Syncing(false))), Some(4));
    assert!(app.event(Event::Changed).is_empty(), "one read in flight already");
    assert!(app.seeds.again);
}

fn daemon_status() -> DaemonStatus {
    DaemonStatus { signed_in: true }
}

fn doctor_report() -> DoctorReport {
    let scope = |name: &str| ScopeStatus { scope: name.to_string(), last_error: None };
    let mut failing = scope("tasks:L-work");
    failing.last_error = Some("the connection was reset".to_string());
    DoctorReport {
        syncing: false,
        scopes: vec![scope("lists"), scope("tasks:L-home"), failing],
        outbox: OutboxDepth { pending: 1, done: 40, unknown: 1, flagged: 1, ..OutboxDepth::default() },
    }
}

fn flagged_op() -> OutboxOp {
    OutboxOp { op_id: "op-9".to_string(), title: "Pay rent".to_string(), flagged: true }
}

/// Answer the page's three requests.
fn answer_page(app: &mut App, effects: &[Effect]) {
    for effect in effects {
        let Tag::Diagnostics(part) = effect.tag else {
            unreachable!("{effect:?}");
        };
        let data = match part {
            Part::Status => PartData::Status(daemon_status()),
            Part::Doctor => PartData::Doctor(doctor_report()),
            Part::Unknown => PartData::Outbox(vec![flagged_op()]),
        };
        app.answered(effect.tag, Ok(ResponseData::Diagnosis(data)));
    }
}

#[test]
fn capital_d_asks_for_status_doctor_and_unknown_writes() {
    let mut app = seeded();
    let effects = app.act(Action::Diagnostics).expect("handled");
    assert!(matches!(app.mode, Mode::Diagnostics));
    assert_eq!(effects.len(), 3);
    assert!(matches!(effects[0], Effect { tag: Tag::Diagnostics(Part::Status), request: Request::Status }));
    assert!(matches!(effects[1], Effect { tag: Tag::Diagnostics(Part::Doctor), request: Request::Doctor }));
    assert!(matches!(effects[2], Effect { tag: Tag::Diagnostics(Part::Unknown), request: Request::UnknownOps }));
    assert_eq!(app.diagnostics.waiting, 3);
    answer_page(&mut app, &effects);
    let page = &app.diagnostics;
    assert_eq!(page.waiting, 0);
    assert_eq!(page.status, Some(Ok(daemon_status())));
    assert_eq!(page.report, Some(Ok(doctor_report())));
    assert_eq!(page.flagged().len(), 1);
    let problems = page.problems();
    assert!(problems[0].starts_with("1 of 3 scopes failed"), "{problems:?}");
    assert!(problems[1].contains("outbox list --state unknown"), "{problems:?}");
}

#[test]
fn r_refreshes_keeping_the_page_and_escape_goes_back() {
    let mut app = seeded();
    let effects = app.act(Action::Diagnostics).expect("handled");
    answer_page(&mut app, &effects);
    let again = app.act(Action::Refresh).expect("handled");
    assert_eq!(again.len(), 3);
    assert_eq!(app.diagnostics.waiting, 3);
    assert!(app.diagnostics.report.is_some(), "kept while it's asked again");
    // j and k scroll, no further up than the top.
    app.act(Action::MoveUp);
    app.act(Action::MoveDown);
    assert_eq!(app.diagnostics.scroll, 1);
    assert_eq!(app.act(Action::Cancel).map(|e| e.len()), Some(0));
    assert!(matches!(app.mode, Mode::Normal));
}

#[test]
fn a_failed_part_is_shown_on_the_page_not_as_a_banner() {
    let mut app = seeded();
    app.act(Action::Diagnostics);
    app.answered(
        Tag::Diagnostics(Part::Doctor),
        Err(ErrorPayload {
            kind: "daemon_unavailable".to_string(),
            message: "the daemon isn't running".to_string(),
            undo_target: None,
            candidates: Vec::new(),
        }),
    );
    assert_eq!(app.diagnostics.report, Some(Err("the daemon isn't running".to_string())));
    assert!(app.banner.is_none());
    assert_eq!(app.diagnostics.problems(), ["the daemon couldn't report: the daemon isn't running"]);
}

fn completed_task(id: &str, title: &str) -> Task {
    let members = vec![
        ("id".to_string(), Json::Str(id.to_string())),
        ("list_id".to_string(), Json::Str("home".to_string())),
        ("title".to_string(), Json::Str(title.to_string())),
        ("status".to_string(), Json::Str("completed".to_string())),
    ];
    Task::from_entity(&members).expect("task")
}

#[test]
fn moving_in_the_sidebar_seeds_the_new_scope_and_drops_stale_answers() {
    let mut app = seeded();
    let home = Scope::List { id: "home".to_string() };
    app.wanted = Some(home.clone());
    app.shown = Some(home.clone());
    app.sidebar_index = 5;
    app.filter = Some("rent".to_string());
    app.act(Action::FocusLeft);
    assert_eq!(app.focus, Pane::Sidebar);
    // From Home up to Tasks, then to Completed.
    let first = app.act(Action::MoveUp).expect("handled");
    let second = app.act(Action::MoveUp).expect("handled");
    assert!(matches!(
        &second[0].request,
        Request::Seed { scope: Some(Scope::Completed), search: None }
    ));
    assert!(app.filter.is_none(), "a new scope drops the filter");
    // The answer for Tasks arrives after Completed was asked for: dropped.
    let Tag::Seed(n1) = first[0].tag else { panic!("a seed") };
    app.answered(Tag::Seed(n1), seed_answer(Scope::List { id: "tasks".to_string() }, Vec::new()));
    assert_eq!(app.shown, Some(home));
    let Tag::Seed(n2) = second[0].tag else { panic!("a seed") };
    app.answered(Tag::Seed(n2), seed_answer(Scope::Completed, vec![completed_task("t3", "Ship blueprint")]));
    assert_eq!(app.shown, Some(Scope::Completed));
    assert_eq!(titles(&app), ["Ship blueprint"]);
    assert_eq!(app.sidebar_index, 3);
    // At the top, another k asks for nothing.
    app.act(Action::JumpTop);
    assert_eq!(app.act(Action::MoveUp).map(|e| e.len()), Some(0));
}

#[test]
fn enter_on_a_folder_collapses_it_and_on_a_list_goes_to_its_tasks() {
    let mut app = seeded();
    app.lists = vec![sidebar_list("w1", "Plan", Some("Work")), sidebar_list("home", "Home", None)];
    app.focus = Pane::Sidebar;
    // Rows: the four views, Work (4), Plan (5), Home (6).
    app.sidebar_index = 4;
    assert_eq!(app.act(Action::Open).map(|e| e.len()), Some(0));
    assert_eq!(app.collapsed, vec!["Work".to_string()]);
    assert_eq!(app.sidebar_index, 4);
    // Plan is hidden: the row below the heading is now Home.
    let effects = app.act(Action::MoveDown).expect("handled");
    assert!(matches!(
        &effects[0].request,
        Request::Seed { scope: Some(Scope::List { id }), .. } if id == "home"
    ));
    assert_eq!(app.act(Action::Open).map(|e| e.len()), Some(0));
    assert_eq!(app.focus, Pane::Tasks);
    // Back on the heading, Enter expands the folder again.
    app.focus = Pane::Sidebar;
    app.sidebar_index = 4;
    app.act(Action::Open);
    assert!(app.collapsed.is_empty());
    assert_eq!(app.sidebar_index, 4);
}

/// Areas holds Home and Finances, Projects holds Launch, and Tasks is in
/// no folder. Rows: the four views, [Areas] (4), Home (5), Finances (6),
/// [Projects] (7), Launch (8), Tasks (9).
fn foldered_lists() -> Vec<SidebarList> {
    vec![
        sidebar_list("home", "Home", Some("Areas")),
        sidebar_list("finances", "Finances", Some("Areas")),
        sidebar_list("launch", "Launch", Some("Projects")),
        sidebar_list("tasks", "Tasks", None),
    ]
}

fn foldered() -> App {
    let mut app = seeded();
    let home = Scope::List { id: "home".to_string() };
    app.lists = foldered_lists();
    app.wanted = Some(home.clone());
    app.shown = Some(home);
    app.sidebar_index = 5;
    app
}

fn answer_foldered_seed(app: &mut App, effects: &[Effect], lists: Vec<SidebarList>) {
    let Tag::Seed(n) = effects[0].tag else { panic!("a seed") };
    let answer = SeedAnswer {
        scope: Some(Scope::List { id: "home".to_string() }),
        tasks: Vec::new(),
        lists,
        lists_ready: true,
        tasks_ready: true,
    };
    app.answered(Tag::Seed(n), Ok(ResponseData::Seed(answer)));
}

#[test]
fn enter_on_a_folder_collapses_and_expands_it_and_the_cursor_stays() {
    let mut app = foldered();
    app.focus = Pane::Sidebar;
    // Up from Home is the Areas heading: nothing is seeded for it.
    assert_eq!(app.act(Action::MoveUp).map(|e| e.len()), Some(0));
    assert_eq!(app.sidebar_index, 4);
    assert_eq!(app.wanted, Some(Scope::List { id: "home".to_string() }), "the tasks shown stay");

    assert_eq!(app.act(Action::Open).map(|e| e.len()), Some(0));
    assert_eq!(app.collapsed, vec!["Areas".to_string()]);
    assert_eq!(app.sidebar_index, 4);
    assert_eq!(app.focus, Pane::Sidebar);

    // Remembered across seeds, with the cursor on its heading.
    let reseed = app.reseed();
    answer_foldered_seed(&mut app, &reseed, foldered_lists());
    assert_eq!(app.collapsed, vec!["Areas".to_string()]);
    assert_eq!(app.sidebar_index, 4);

    app.act(Action::Open);
    assert!(app.collapsed.is_empty());
    // Down onto a list opens it.
    let effects = app.act(Action::MoveDown).expect("handled");
    assert_eq!(effects.len(), 1);
    assert_eq!(app.sidebar_index, 5);
    assert_eq!(app.wanted, Some(Scope::List { id: "home".to_string() }));
}

#[test]
fn a_seed_keeps_the_cursor_on_the_shown_list_by_id_across_a_collapse() {
    let mut app = foldered();
    app.focus = Pane::Sidebar;
    app.act(Action::MoveUp);
    app.act(Action::Open);
    let reseed = app.reseed();
    answer_foldered_seed(&mut app, &reseed, foldered_lists());
    // Home, shown, is hidden: its folder's heading stands for it.
    assert_eq!(app.wanted, Some(Scope::List { id: "home".to_string() }));
    assert_eq!(app.sidebar_index, 4);

    app.act(Action::Open);
    let opened = app.act(Action::MoveDown).expect("handled");
    assert_eq!(app.sidebar_index, 5);
    // The daemon has reordered the lists: the cursor follows Home's ID.
    let mut moved = foldered_lists();
    moved.swap(0, 1);
    answer_foldered_seed(&mut app, &opened, moved);
    assert_eq!(app.lists[0].id, "finances");
    assert_eq!(app.sidebar_index, 6);
}

#[test]
fn ctrl_u_then_enter_takes_the_list_out_of_its_folder() {
    let mut app = foldered();
    app.act(Action::MoveToFolder);
    assert!(matches!(&app.mode, Mode::MovingList { list_id, input } if list_id == "home" && input == "Areas"));
    app.folder_typed("");
    assert!(matches!(&app.mode, Mode::MovingList { list_id, input } if list_id == "home" && input.is_empty()));
    let effects = app.act(Action::Submit).expect("handled");
    assert!(matches!(
        &effects[0],
        Effect { tag: Tag::Folders, request: Request::MoveLists { lists, folder: None } } if lists == &vec!["home".to_string()]
    ));
}

#[test]
fn an_empty_folder_name_takes_the_list_out_and_a_view_has_nothing_to_move() {
    let mut app = foldered();
    app.act(Action::MoveToFolder);
    app.folder_typed("  ");
    let effects = app.act(Action::Submit).expect("handled");
    assert!(matches!(&effects[0].request, Request::MoveLists { folder: None, .. }));
    assert!(matches!(app.mode, Mode::Normal));

    app.focus = Pane::Sidebar;
    app.sidebar_index = 0;
    app.shown = Some(Scope::Important);
    app.act(Action::MoveToFolder);
    assert!(matches!(app.mode, Mode::Normal));
    let banner = app.banner.as_ref().expect("banner");
    assert_eq!(banner.text, "Choose a list first; a view isn't in a folder");
}

#[test]
fn tab_in_the_move_prompt_takes_the_first_folder_suggested() {
    let mut app = foldered();
    app.act(Action::MoveToFolder);
    app.folder_typed(" p");
    app.act(Action::Complete);
    assert!(matches!(&app.mode, Mode::MovingList { input, .. } if input == "Projects"));
    let effects = app.act(Action::Submit).expect("handled");
    assert!(matches!(
        &effects[0].request,
        Request::MoveLists { folder: Some(f), .. } if f == "Projects"
    ));
    // A folder change that fails says why.
    app.answered(Tag::Folders, Err(error("not_found", "no such list")));
    assert_eq!(app.banner.as_ref().map(|b| b.text.as_str()), Some("no such list"));
}

#[test]
fn colon_opens_it_typing_filters_and_enter_runs_the_choice() {
    let mut app = seeded();
    app.act(Action::Palette);
    assert!(matches!(&app.mode, Mode::Palette { query, index: 0 } if query.is_empty()));
    app.palette_typed("sync");
    let effects = app.act(Action::Submit).expect("handled");
    assert_eq!(effects.len(), 1);
    assert!(matches!(effects[0].request, Request::Sync));
    assert!(matches!(app.mode, Mode::Normal));
}

#[test]
fn go_to_switches_scope_like_the_sidebar() {
    let mut app = seeded();
    app.act(Action::Palette);
    app.palette_typed("go to all");
    let effects = app.act(Action::Submit).expect("handled");
    assert!(matches!(&effects[0].request, Request::Seed { scope: Some(Scope::All), search: None }));
    assert_eq!(app.wanted, Some(Scope::All));
    assert_eq!(app.sidebar_index, 2);
    assert_eq!(app.focus, Pane::Tasks);
}

#[test]
fn up_and_down_stay_within_the_matches_and_escape_closes() {
    let mut app = seeded();
    app.act(Action::Palette);
    app.palette_typed("go to");
    for _ in 0..20 {
        app.act(Action::MoveDown);
    }
    // Go to: the four views, Tasks and Home.
    assert!(matches!(app.mode, Mode::Palette { index: 5, .. }));
    app.act(Action::MoveUp);
    assert!(matches!(app.mode, Mode::Palette { index: 4, .. }));
    app.palette_typed("go t");
    assert!(matches!(app.mode, Mode::Palette { index: 0, .. }), "a change goes back to the best match");
    assert_eq!(app.act(Action::Cancel).map(|e| e.len()), Some(0));
    assert!(matches!(app.mode, Mode::Normal));
}

#[test]
fn i_cycles_the_importance_of_the_task_under_the_cursor() {
    let mut app = seeded();
    app.act(Action::MoveDown);
    let effects = app.act(Action::CycleImportance).expect("handled");
    assert_eq!(effects.len(), 1);
    assert!(matches!(
        &effects[0],
        Effect { tag: Tag::Write(Write::Edit), request: Request::SetImportance { ids, importance: Importance::High } }
            if ids == &vec!["t2".to_string()]
    ));
    assert_eq!(app.detail_row, DetailRow::Field(Field::Importance));
    // While another scope loads, it is refused and says why.
    app.wanted = Some(Scope::Important);
    assert_eq!(app.act(Action::CycleImportance).map(|e| e.len()), Some(0));
    assert_eq!(app.banner.as_ref().map(|b| b.text.as_str()), Some("Still loading this list; try again in a moment"));
}

#[test]
fn the_palette_moves_the_list_to_a_folder_suggesting_existing_ones() {
    let mut app = foldered();
    app.act(Action::Palette);
    app.palette_typed("move list");
    assert_eq!(app.act(Action::Submit).map(|e| e.len()), Some(0));
    // It starts with the list's own folder.
    assert!(matches!(&app.mode, Mode::MovingList { list_id, input } if list_id == "home" && input == "Areas"));
    assert_eq!(folder_suggestions(&app.lists, ""), ["Areas", "Projects"]);

    app.act(Action::Cancel);
    app.act(Action::MoveToFolder);
    app.folder_typed("p");
    assert_eq!(folder_suggestions(&app.lists, "p"), ["Projects"]);
    app.act(Action::Complete);
    let effects = app.act(Action::Submit).expect("handled");
    assert_eq!(effects.len(), 1);
    assert!(matches!(
        &effects[0],
        Effect { tag: Tag::Folders, request: Request::MoveLists { lists, folder: Some(f) } }
            if lists == &vec!["home".to_string()] && f == "Projects"
    ));
    assert!(matches!(app.mode, Mode::Normal));

    // The answer moves it at once, before the seed.
    app.focus = Pane::Sidebar;
    let item = vec![
        ("id".to_string(), Json::Str("home".to_string())),
        ("displayName".to_string(), Json::Str("Home".to_string())),
        ("folder".to_string(), Json::Str("Projects".to_string())),
    ];
    let answer = app.answered(Tag::Folders, Ok(ResponseData::Applied { items: vec![item], refused: Vec::new() }));
    assert_eq!(answer.map(|e| e.len()), Some(0));
    let order: Vec<(&str, Option<&str>)> = app.lists.iter().map(|l| (l.id.as_str(), l.folder.as_deref())).collect();
    assert_eq!(
        order,
        [("finances", Some("Areas")), ("launch", Some("Projects")), ("home", Some("Projects")), ("tasks", None)]
    );
    // Rows: the views, [Areas], Finances, [Projects], Launch, Home (8), Tasks.
    assert_eq!(app.sidebar_index, 8);
    assert_eq!(app.banner.as_ref().map(|b| b.text.as_str()), Some("Moved Home to Projects"));
}
