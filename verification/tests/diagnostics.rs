use mstodo::diagnostics::{
    DaemonStatus, Diagnostics, DoctorReport, OutboxDepth, OutboxOp, Part, PartData, ScopeStatus,
};

fn status() -> DaemonStatus {
    DaemonStatus { signed_in: true }
}

fn report() -> DoctorReport {
    let scope = |name: &str| ScopeStatus { scope: name.to_string(), last_error: None };
    let mut failing = scope("tasks:L-work");
    failing.last_error = Some("the connection was reset".to_string());
    DoctorReport {
        syncing: false,
        scopes: vec![scope("lists"), scope("tasks:L-home"), failing],
        outbox: OutboxDepth { pending: 1, done: 40, unknown: 1, flagged: 1, ..OutboxDepth::default() },
    }
}

fn flagged_op() -> OutboxOp {
    OutboxOp { op_id: "op-9".to_string(), title: "Pay rent".to_string(), flagged: true }
}

#[test]
fn signed_out_is_a_problem() {
    let mut page = Diagnostics { status: Some(Ok(DaemonStatus { signed_in: false })), ..Diagnostics::default() };
    assert_eq!(page.problems(), ["not signed in; run `ms-todo auth login`"]);
    page.status = None;
    assert!(page.problems().is_empty());
}

#[test]
fn capital_d_asks_for_the_three_parts_and_keeps_their_answers() {
    let mut page = Diagnostics::default();
    page.scroll = 4;
    let parts = page.open();
    assert_eq!(parts, vec![Part::Status, Part::Doctor, Part::Unknown]);
    assert_eq!(page.waiting, 3);
    assert_eq!(page.scroll, 0);
    page.diagnosed(Part::Status, Ok(PartData::Status(status())));
    page.diagnosed(Part::Doctor, Ok(PartData::Doctor(report())));
    page.diagnosed(Part::Unknown, Ok(PartData::Outbox(vec![flagged_op()])));
    assert_eq!(page.waiting, 0);
    assert_eq!(page.status, Some(Ok(status())));
    assert_eq!(page.report, Some(Ok(report())));
    assert_eq!(page.flagged().len(), 1);
    assert_eq!(page.scope_count(), 3);
    let problems = page.problems();
    assert!(problems[0].starts_with("1 of 3 scopes failed"), "{problems:?}");
    assert!(problems[1].contains("outbox list --state unknown"), "{problems:?}");
    assert_eq!(
        problems,
        [
            "1 of 3 scopes failed their last sync",
            "1 write(s) may or may not have reached Microsoft To Do (1 for over a day); \
             don't resend them yourself: see `ms-todo outbox list --state unknown`",
        ]
    );
}

#[test]
fn a_failed_part_is_kept_as_its_reason() {
    let mut page = Diagnostics::default();
    page.open();
    page.diagnosed(Part::Doctor, Err("the daemon isn't running".to_string()));
    assert_eq!(page.report, Some(Err("the daemon isn't running".to_string())));
    assert_eq!(page.waiting, 2);
    assert_eq!(page.problems(), ["the daemon couldn't report: the daemon isn't running"]);
    page.diagnosed(Part::Status, Err("no socket".to_string()));
    assert_eq!(
        page.problems(),
        ["the daemon isn't available: no socket", "the daemon couldn't report: the daemon isn't running"]
    );
}

#[test]
fn an_answer_of_the_wrong_kind_is_said_to_be_unexpected() {
    let mut page = Diagnostics::default();
    page.diagnosed(Part::Unknown, Ok(PartData::Status(status())));
    assert_eq!(page.unknown, Some(Err("the daemon sent an unexpected answer".to_string())));
    assert_eq!(page.waiting, 0, "never below nothing");
    page.diagnosed(Part::Status, Ok(PartData::Other));
    assert_eq!(page.status, Some(Err("the daemon sent an unexpected answer".to_string())));
}

#[test]
fn failed_writes_and_an_empty_report_are_problems() {
    let page = Diagnostics {
        report: Some(Ok(DoctorReport {
            syncing: false,
            scopes: vec![],
            outbox: OutboxDepth { failed: 2, ..OutboxDepth::default() },
        })),
        ..Diagnostics::default()
    };
    assert_eq!(
        page.problems(),
        [
            "2 write(s) were rejected and kept; see `ms-todo outbox list --state failed`",
            "nothing has synced yet; run `ms-todo sync --wait`",
        ]
    );
    let syncing = Diagnostics {
        report: Some(Ok(DoctorReport { syncing: true, scopes: vec![], outbox: OutboxDepth::default() })),
        ..Diagnostics::default()
    };
    assert!(syncing.problems().is_empty());
}

#[test]
fn only_flagged_operations_are_flagged() {
    let quiet = OutboxOp { op_id: "op-1".to_string(), title: "Call".to_string(), flagged: false };
    let page = Diagnostics { unknown: Some(Ok(vec![quiet, flagged_op()])), ..Diagnostics::default() };
    let flagged = page.flagged();
    assert_eq!(flagged.len(), 1);
    assert_eq!(flagged[0].op_id, "op-9");
}

#[test]
fn scrolling_stops_at_the_top_and_past_the_last_row() {
    let mut page = Diagnostics::default();
    page.scroll(false);
    assert_eq!(page.scroll, 0);
    page.scroll(true);
    assert_eq!(page.scroll, 1);
    // Nothing answered: twelve fixed rows.
    page.scroll = 12;
    page.scroll(true);
    assert_eq!(page.scroll, 12);
    page.diagnosed(Part::Doctor, Ok(PartData::Doctor(report())));
    page.scroll(true);
    // Three scopes and two problems past the fixed rows.
    for _ in 0..10 {
        page.scroll(true);
    }
    assert_eq!(page.scroll, 17);
}
