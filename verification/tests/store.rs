use mstodo::idempotency::{claim_of, is_expired, Claim, KeyRecord, IDEMPOTENCY_WINDOW_SECS};
use mstodo::json::{Json, Members};
use mstodo::list_extension::merge_extension;
use mstodo::list_lifecycle::{
    created_list, display_name, list_payload, overlay_renames, recreated_list, snapshot, snapshot_raw,
    snapshot_tasks, ListWrite,
};
use mstodo::local_change::{local_change, restore_target, LocalChange, Restore, RestoreTarget, RowWrite};
use mstodo::lists::{list_upsert, unseen_lists, CachedList, ListColumns, ListUpsert, ListsApplied};
use mstodo::ops::{
    apply_body, ops_sql, overlay_later_ops, OpKind, OpState, OutboxRow, StoreError, FROM_OUTBOX, OP_COLUMNS, UNKNOWN_LOOKUP_SECS,
};
use mstodo::columns::TaskColumns;
use mstodo::scheduling::{next_attempt_at, ready_ops, recovered};
use mstodo::cascade::{cascade, depends_on, fail_in_list, Waiting};
use mstodo::tasks::{local_write, needing_hydration, task_upsert, unseen_tasks, CachedTask, TaskUpsert};
use mstodo::sync_state::{scope_list, tasks_scope, ScopeRow, LISTS_SCOPE};
use chrono::{Datelike, NaiveDate};
use mstodo::views::{count, counts_query, open_by_list_query, view_query, View, LIVE};
use serde_json::Value;

fn from_value(value: &Value) -> Json {
    match value {
        Value::Null => Json::Null,
        Value::Bool(b) => Json::Bool(*b),
        Value::Number(n) => Json::Number(n.to_string()),
        Value::String(s) => Json::Str(s.clone()),
        Value::Array(items) => Json::Array(items.iter().map(from_value).collect()),
        Value::Object(map) => Json::Object(map.iter().map(|(k, v)| (k.clone(), from_value(v))).collect()),
    }
}

fn to_value(json: &Json) -> Value {
    match json {
        Json::Null => Value::Null,
        Json::Bool(b) => Value::Bool(*b),
        Json::Number(n) => serde_json::from_str(n).expect("number"),
        Json::Str(s) => Value::String(s.clone()),
        Json::Array(items) => Value::Array(items.iter().map(to_value).collect()),
        Json::Object(members) => {
            let mut map = serde_json::Map::new();
            for (k, v) in members {
                map.insert(k.clone(), to_value(v));
            }
            Value::Object(map)
        }
    }
}

fn parse(text: &str) -> Value {
    serde_json::from_str(text).expect("json")
}

fn fields(text: &str) -> Members {
    match from_value(&parse(text)) {
        Json::Object(members) => members,
        _ => panic!("not an object"),
    }
}

fn value_of(members: &Members) -> Value {
    to_value(&Json::Object(members.clone()))
}

#[test]
fn a_merge_sets_and_removes_only_the_fields_given() {
    let mut merged = fields(
        r#"{ "extensionName": "com.planetaryescape.mstodo", "id": "microsoft.graph.openTypeExtension.com.planetaryescape.mstodo", "folder": "Work", "order": 3, "somethingElse": true }"#,
    );
    merge_extension(&mut merged, &fields(r#"{ "folder": "Areas", "order": null }"#));
    assert_eq!(
        value_of(&merged),
        parse(
            r#"{ "extensionName": "com.planetaryescape.mstodo", "id": "microsoft.graph.openTypeExtension.com.planetaryescape.mstodo", "folder": "Areas", "somethingElse": true }"#
        )
    );
    let mut none: Members = Vec::new();
    merge_extension(&mut none, &fields(r#"{ "folder": "Areas" }"#));
    assert_eq!(value_of(&none), parse(r#"{ "folder": "Areas" }"#));
}

#[test]
fn merging_the_same_fields_twice_is_merging_them_once() {
    let mut ext = fields(r#"{ "folder": "Work", "order": 1 }"#);
    let change = fields(r#"{ "folder": null, "order": 2, "myDay": "2026-09-24" }"#);
    merge_extension(&mut ext, &change);
    let once = value_of(&ext);
    merge_extension(&mut ext, &change);
    assert_eq!(value_of(&ext), once);
    assert_eq!(once, parse(r#"{ "order": 2, "myDay": "2026-09-24" }"#));
}

#[test]
fn a_patch_body_is_written_over_the_task_but_its_extensions() {
    let mut raw = fields(r#"{ "title": "Milk", "importance": "normal" }"#);
    apply_body(&mut raw, &from_value(&parse(r#"{ "importance": "high", "extensions": [1] }"#)));
    assert_eq!(value_of(&raw), parse(r#"{ "title": "Milk", "importance": "high" }"#));
    apply_body(&mut raw, &Json::Null);
    assert_eq!(value_of(&raw), parse(r#"{ "title": "Milk", "importance": "high" }"#));
}

#[test]
fn a_tasks_scope_names_its_list() {
    assert_eq!(tasks_scope("AQMk"), "tasks:AQMk");
    assert_eq!(scope_list("tasks:AQMk"), Some("AQMk"));
    assert_eq!(scope_list(&tasks_scope("")), Some(""));
    assert_eq!(scope_list(LISTS_SCOPE), None);
    assert_eq!(scope_list("task:x"), None);
}

#[test]
fn a_scope_is_ready_after_its_first_pass() {
    let row = ScopeRow {
        scope: "lists".to_owned(),
        generation: 0,
        in_progress: false,
        last_success_at: None,
        last_changed_count: 0,
        last_error: None,
        last_error_kind: None,
        last_error_at: None,
        delta_link: None,
        last_delta_at: None,
    };
    assert!(!row.is_ready());
    assert_eq!(row.generation(), 0);
    assert!(!row.is_delta());
    let later = ScopeRow { generation: 3, delta_link: Some("https://graph/delta".to_owned()), ..row.clone() };
    assert!(later.is_ready());
    assert_eq!(later.generation(), 3);
    assert!(later.is_delta());
    assert_eq!(ScopeRow { generation: -1, ..row }.generation(), 0);
}

#[test]
fn a_key_is_fresh_replayed_running_or_a_mismatch() {
    let record = |result: Option<&str>| KeyRecord {
        fingerprint: "fp".to_owned(),
        op_id: "op1".to_owned(),
        result: result.map(str::to_owned),
    };
    assert_eq!(claim_of(None, "fp"), Claim::Fresh);
    assert_eq!(claim_of(Some(record(None)), "other"), Claim::Mismatch);
    assert_eq!(claim_of(Some(record(Some("{}"))), "fp"), Claim::Replay("{}".to_owned()));
    assert_eq!(claim_of(Some(record(None)), "fp"), Claim::Running { op_id: "op1".to_owned() });
}

#[test]
fn a_finished_key_is_kept_for_a_day() {
    assert_eq!(IDEMPOTENCY_WINDOW_SECS, 86_400);
    assert!(!is_expired(None, 1_000_000));
    assert!(!is_expired(Some(1_000_000 - 86_399), 1_000_000));
    assert!(is_expired(Some(1_000_000 - 86_400), 1_000_000));
    assert!(!is_expired(Some(i64::MAX), i64::MIN));
}

#[test]
fn a_create_and_a_recreate_go_out_as_a_list_create() {
    assert_eq!(ListWrite::Create { name: "Home".to_owned() }.kind(), OpKind::ListCreate);
    assert_eq!(ListWrite::Recreate.kind(), OpKind::ListCreate);
    assert_eq!(ListWrite::Rename { name: "Home".to_owned() }.kind(), OpKind::ListUpdate);
    assert_eq!(ListWrite::Delete.kind(), OpKind::ListDelete);
}

#[test]
fn a_new_list_is_the_users_own_and_not_shared() {
    assert_eq!(
        value_of(&created_list("Home")),
        parse(r#"{ "displayName": "Home", "wellknownListName": "none", "isOwner": true, "isShared": false }"#)
    );
    assert_eq!(to_value(&list_payload(Some("Home"))), parse(r#"{ "body": { "displayName": "Home" } }"#));
    assert_eq!(to_value(&list_payload(None)), parse(r#"{ "body": {} }"#));
}

#[test]
fn a_recreated_list_drops_graphs_id_and_annotations() {
    let raw = fields(r#"{ "id": "AQMk", "@odata.etag": "W/\"1\"", "displayName": "Home", "isOwner": true }"#);
    let again = recreated_list(&raw);
    assert_eq!(value_of(&again), parse(r#"{ "displayName": "Home", "isOwner": true }"#));
    assert_eq!(display_name(&again), "Home");
    assert_eq!(display_name(&Vec::new()), "");
}

#[test]
fn later_renames_go_on_top_of_graphs_answer() {
    let mut raw = fields(r#"{ "id": "AQMk", "displayName": "Home" }"#);
    let later = vec![
        (OpKind::ListUpdate, from_value(&parse(r#"{ "body": { "displayName": "House" } }"#))),
        (OpKind::Extension, from_value(&parse(r#"{ "body": { "displayName": "Ignored" } }"#))),
        (OpKind::ListUpdate, from_value(&parse(r#"{ "body": { "displayName": "Flat" } }"#))),
        (OpKind::ListUpdate, from_value(&parse(r#"{ "body": {} }"#))),
    ];
    overlay_renames(&mut raw, &later);
    assert_eq!(value_of(&raw), parse(r#"{ "id": "AQMk", "displayName": "Flat" }"#));
}

#[test]
fn a_rollback_gives_back_the_list_and_its_tasks() {
    let raw = fields(r#"{ "displayName": "Home" }"#);
    let tasks = vec!["t1".to_owned(), "t2".to_owned()];
    let before = snapshot(raw.clone(), &tasks);
    assert_eq!(value_of(&before), parse(r#"{ "raw": { "displayName": "Home" }, "tasks": ["t1", "t2"] }"#));
    assert_eq!(value_of(&snapshot_raw(&before)), value_of(&raw));
    assert_eq!(snapshot_tasks(&before), tasks);
    assert!(snapshot_tasks(&fields(r#"{ "tasks": [1, "t3"] }"#)) == vec!["t3".to_owned()]);
}

#[test]
fn nothing_applied_yet_is_empty() {
    let applied = ListsApplied::default();
    assert!(applied.changed.is_empty() && applied.removed.is_empty() && applied.failed_ops.is_empty());
}

#[test]
fn outbox_rows_are_read_with_their_title() {
    let sql = ops_sql("o.op_id = ?");
    assert_eq!(sql, format!("SELECT {OP_COLUMNS} {FROM_OUTBOX} WHERE o.op_id = ?"));
    assert!(sql.starts_with("SELECT o.op_id, o.seq,"));
    assert!(sql.ends_with("AND o.entity_kind = 'list' WHERE o.op_id = ?"));
}

fn row(state: OpState, op: OpKind, payload: &str) -> OutboxRow {
    OutboxRow {
        op_id: "op1".to_owned(),
        seq: 1,
        command_id: "c1".to_owned(),
        created_at: 0,
        entity_local_id: "t1".to_owned(),
        list_local_id: "l1".to_owned(),
        op,
        action: "complete".to_owned(),
        payload: from_value(&parse(payload)),
        depends_on: None,
        undoes: None,
        attempts: 0,
        next_attempt_at: 0,
        state,
        last_error: None,
        rollback: None,
        sent_at: None,
        unknown_since: None,
        note: None,
        finished_at: None,
        progress: None,
        title: None,
    }
}

#[test]
fn an_outbox_row_reads_its_payload() {
    let r = row(OpState::Pending, OpKind::Child, r#"{ "body": { "isChecked": true }, "carried": ["isChecked", 3, "displayName"], "recurring": true }"#);
    assert_eq!(to_value(&r.body()), parse(r#"{ "isChecked": true }"#));
    assert_eq!(r.carried(), vec!["isChecked", "displayName"]);
    assert!(r.is_recurring_completion());
    let plain = row(OpState::Pending, OpKind::Update, "null");
    assert_eq!(to_value(&plain.body()), Value::Null);
    assert!(plain.carried().is_empty());
    assert!(!plain.is_recurring_completion());
}

#[test]
fn an_unknown_operation_is_flagged_after_a_day_or_when_only_the_user_can_settle_it() {
    let now = 1_000_000;
    let mut r = row(OpState::Unknown, OpKind::Update, "{}");
    r.unknown_since = Some(now - UNKNOWN_LOOKUP_SECS + 1);
    assert!(!r.is_flagged(now));
    r.unknown_since = Some(now - UNKNOWN_LOOKUP_SECS);
    assert!(r.is_flagged(now));
    r.unknown_since = None;
    r.progress = Some(from_value(&parse(r#"{ "needs_user": true }"#)));
    assert!(r.needs_user() && r.is_flagged(now));
    let child = row(OpState::Unknown, OpKind::Child, "{}");
    assert!(child.is_flagged(now));
    let pending = row(OpState::Pending, OpKind::Child, "{}");
    assert!(!pending.is_flagged(now));
}

#[test]
fn a_done_operation_with_a_skipped_note_was_skipped() {
    let mut r = row(OpState::Done, OpKind::TaskExtension, "{}");
    assert!(!r.was_skipped());
    r.note = Some("skipped: not in My Day".to_owned());
    assert!(r.was_skipped());
    r.note = Some("skip".to_owned());
    assert!(!r.was_skipped());
    let mut failed = row(OpState::Failed, OpKind::TaskExtension, "{}");
    failed.note = Some("skipped:".to_owned());
    assert!(!failed.was_skipped());
}

#[test]
fn graphs_answer_keeps_later_queued_edits_on_top() {
    let mut raw = fields(r#"{ "id": "g1", "title": "Milk", "importance": "normal" }"#);
    let mut extension = None;
    let later = vec![
        (OpKind::Update, from_value(&parse(r#"{ "body": { "title": "Oat milk" } }"#))),
        (OpKind::Move, from_value(&parse(r#"{ "body": { "title": "ignored" } }"#))),
        (OpKind::TaskExtension, from_value(&parse(r#"{ "body": { "myDay": "2026-09-24" } }"#))),
        (
            OpKind::Child,
            from_value(&parse(r#"{ "collection": "checklistItems", "verb": "create", "id": "local-1", "body": { "displayName": "Buy" } }"#)),
        ),
    ];
    let (deleted, changed) = overlay_later_ops(&mut raw, &mut extension, &later);
    assert!(!deleted && changed);
    assert_eq!(
        value_of(&raw),
        parse(r#"{ "id": "g1", "title": "Oat milk", "importance": "normal", "checklistItems": [{ "id": "local-1", "displayName": "Buy" }] }"#)
    );
    assert_eq!(value_of(&extension.expect("written")), parse(r#"{ "myDay": "2026-09-24" }"#));
    let mut none = None;
    let (deleted, changed) = overlay_later_ops(&mut raw, &mut none, &vec![(OpKind::Delete, Json::Null)]);
    assert!(deleted && !changed && none.is_none());
}

#[test]
fn a_store_error_says_what_went_wrong() {
    assert_eq!(
        StoreError::Corrupt("bad row".to_owned()).describe(),
        "a row in the local database isn't valid: bad row"
    );
    assert_eq!(StoreError::InvalidQuery("no terms".to_owned()).describe(), "no terms");
    assert_eq!(
        StoreError::NewerDatabase.describe(),
        "this database was upgraded by a newer ms-todo; install the latest version"
    );
}

fn cached(local_id: &str, raw: &str, extension: Option<&str>, deleted: bool, local_rev: i64) -> CachedList {
    CachedList {
        local_id: local_id.to_string(),
        raw_json: raw.to_string(),
        extension_json: extension.map(str::to_string),
        deleted,
        local_rev,
    }
}

#[test]
fn a_list_written_after_the_read_is_left_alone() {
    let existing = Some(cached("L1", "{\"id\":\"g1\"}", None, false, 9));
    assert_eq!(list_upsert(existing, 5, "{\"id\":\"g2\"}", &None), ListUpsert::KeepLocal);
}

#[test]
fn an_unchanged_live_list_is_skipped_and_a_changed_one_rewritten() {
    let raw = "{\"id\":\"g1\",\"displayName\":\"Home\"}";
    let ext = Some("{\"color\":\"red\"}".to_string());
    assert_eq!(list_upsert(Some(cached("L1", raw, Some("{\"color\":\"red\"}"), false, 3)), 5, raw, &ext), ListUpsert::Unchanged);
    assert_eq!(
        list_upsert(Some(cached("L1", raw, Some("{\"color\":\"red\"}"), true, 3)), 5, raw, &ext),
        ListUpsert::Update("L1".to_string())
    );
    assert_eq!(
        list_upsert(Some(cached("L1", raw, None, false, 3)), 5, raw, &ext),
        ListUpsert::Update("L1".to_string())
    );
    assert_eq!(
        list_upsert(Some(cached("L1", "{}", Some("{\"color\":\"red\"}"), false, 5)), 5, raw, &ext),
        ListUpsert::Update("L1".to_string())
    );
    assert_eq!(list_upsert(None, 5, raw, &ext), ListUpsert::Insert);
}

#[test]
fn lists_missing_from_a_full_enumeration_are_the_ones_tombstoned() {
    let live = vec![
        ("L1".to_string(), "g1".to_string()),
        ("L2".to_string(), "g2".to_string()),
        ("L3".to_string(), "g3".to_string()),
    ];
    let seen = vec!["g3".to_string(), "g1".to_string()];
    assert_eq!(unseen_lists(&live, &seen), vec![("L2".to_string(), "g2".to_string())]);
    assert_eq!(unseen_lists(&live, &vec![]), live);
    assert!(unseen_lists(&vec![], &seen).is_empty());
}

fn cached_task(list: &str, raw: &str, extension: Option<&str>, etag: Option<&str>, deleted: bool, local_rev: i64) -> CachedTask {
    CachedTask {
        local_id: "T1".to_string(),
        list_local_id: list.to_string(),
        raw_json: raw.to_string(),
        extension_json: extension.map(str::to_string),
        hydrated_etag: etag.map(str::to_string),
        deleted,
        local_rev,
    }
}

fn some(text: &str) -> Option<String> {
    Some(text.to_string())
}

#[test]
fn a_task_written_after_the_read_or_unchanged_is_skipped() {
    let raw = "{\"id\":\"g1\"}";
    let later = cached_task("L1", raw, None, None, false, 9);
    assert_eq!(task_upsert(Some(later), 5, "L1", "{}", None), TaskUpsert::Skip);
    let same = cached_task("L1", raw, Some("{}"), Some("e1"), false, 0);
    assert_eq!(task_upsert(Some(same.clone()), 5, "L1", raw, None), TaskUpsert::Skip);
    assert_eq!(task_upsert(Some(same), 5, "L1", raw, Some((some("{}"), some("e1")))), TaskUpsert::Skip);
}

#[test]
fn a_changed_moved_or_revived_task_is_written_and_counted() {
    let raw = "{\"id\":\"g1\"}";
    let row = cached_task("L1", raw, None, Some("e1"), false, 0);
    let written = |local_id: Option<&str>, ext: Option<&str>, etag: Option<&str>, changed: bool| TaskUpsert::Write {
        local_id: local_id.map(str::to_string),
        extension_json: ext.map(str::to_string),
        hydrated_etag: etag.map(str::to_string),
        changed,
    };
    assert_eq!(task_upsert(Some(row.clone()), 5, "L2", raw, None), written(Some("T1"), None, Some("e1"), true));
    assert_eq!(task_upsert(Some(row.clone()), 5, "L1", "{}", None), written(Some("T1"), None, Some("e1"), true));
    let dead = cached_task("L1", raw, None, Some("e1"), true, 0);
    assert_eq!(task_upsert(Some(dead), 5, "L1", raw, None), written(Some("T1"), None, Some("e1"), true));
    // A new etag alone is written but not counted.
    assert_eq!(task_upsert(Some(row.clone()), 5, "L1", raw, Some((None, some("e2")))), written(Some("T1"), None, Some("e2"), false));
    assert_eq!(
        task_upsert(Some(row), 5, "L1", raw, Some((some("{\"myDay\":\"2026-09-24\"}"), some("e2")))),
        written(Some("T1"), Some("{\"myDay\":\"2026-09-24\"}"), Some("e2"), true)
    );
    assert_eq!(task_upsert(None, 5, "L1", raw, None), written(None, None, None, true));
    assert_eq!(task_upsert(None, 5, "L1", raw, Some((some("{}"), some("e3")))), written(None, Some("{}"), Some("e3"), true));
}

#[test]
fn a_local_write_records_a_known_extension_at_its_etag() {
    let row = Some(("T1".to_string(), some("{\"a\":1}"), some("e1")));
    assert_eq!(local_write(row.clone(), Some(some("{}")), some("e2")), (some("T1"), some("{}"), some("e2")));
    assert_eq!(local_write(row.clone(), Some(None), some("e2")), (some("T1"), None, some("e2")));
    assert_eq!(local_write(row, None, some("e2")), (some("T1"), some("{\"a\":1}"), some("e1")));
    assert_eq!(local_write(None, None, some("e2")), (None, None, None));
    assert_eq!(local_write(None, Some(some("{}")), None), (None, some("{}"), None));
}

#[test]
fn new_and_changed_tasks_need_their_extension_fetched() {
    let tasks = vec![
        ("g1".to_string(), some("e1")),
        ("g2".to_string(), some("e2")),
        ("g3".to_string(), None),
        ("g4".to_string(), some("e4")),
        ("g1".to_string(), some("e1")),
    ];
    let hydrated = vec![
        ("g1".to_string(), some("e1")),
        ("g2".to_string(), some("old")),
        ("g3".to_string(), some("e3")),
        ("g2".to_string(), some("e2")),
    ];
    // g2's last row counts: fetched at e2. g4 isn't cached.
    assert_eq!(needing_hydration(&tasks, &hydrated), vec!["g3".to_string(), "g4".to_string()]);
    let twice = vec![("g9".to_string(), None), ("g9".to_string(), None)];
    assert_eq!(needing_hydration(&twice, &vec![]), vec!["g9".to_string()]);
}

#[test]
fn tasks_missing_from_the_enumeration_or_found_deleted_are_tombstoned() {
    let live = vec!["g1".to_string(), "g2".to_string(), "g3".to_string()];
    let seen = vec!["g1".to_string(), "g3".to_string()];
    let gone = vec!["g3".to_string()];
    assert_eq!(unseen_tasks(&live, &seen, &gone), vec!["g2".to_string(), "g3".to_string()]);
    assert!(unseen_tasks(&live, &live, &vec![]).is_empty());
}

fn waiting(op_id: &str, depends_on: Option<&str>, state: OpState) -> Waiting {
    Waiting { op_id: op_id.to_string(), depends_on: depends_on.map(str::to_string), state }
}

#[test]
fn everything_waiting_on_a_failed_operation_fails_with_it() {
    let ops = vec![
        waiting("a", None, OpState::Failed),
        waiting("b", Some("a"), OpState::Pending),
        waiting("x", None, OpState::Pending),
        waiting("c", Some("b"), OpState::Unknown),
        waiting("d", Some("c"), OpState::Inflight),
        waiting("e", Some("d"), OpState::Pending),
        waiting("f", Some("x"), OpState::Pending),
    ];
    // `d` is being sent, so it stays, but `e` still waits on `a` through it.
    assert_eq!(cascade(&ops, "a"), vec!["b", "c", "e"]);
    assert_eq!(cascade(&ops, "x"), vec!["f"]);
    assert!(cascade(&ops, "f").is_empty());
}

#[test]
fn a_cycle_that_never_reaches_the_failed_operation_is_left_alone() {
    let ops = vec![
        waiting("p", Some("q"), OpState::Pending),
        waiting("q", Some("p"), OpState::Pending),
        waiting("r", Some("gone"), OpState::Pending),
        waiting("s", Some("r"), OpState::Pending),
    ];
    assert_eq!(cascade(&ops, "gone"), vec!["r", "s"]);
    assert!(cascade(&ops, "nothing").is_empty());
}

fn members_of(text: &str) -> Vec<(String, Json)> {
    match from_value(&serde_json::from_str::<Value>(text).expect("json")) {
        Json::Object(members) => members,
        other => panic!("{other:?}"),
    }
}

#[test]
fn a_list_fills_its_columns_from_graphs_shape() {
    let columns = ListColumns::of(&members_of(
        r#"{ "@odata.etag": "W/\"l1\"", "displayName": "Tasks", "wellknownListName": "defaultList", "isOwner": true, "isShared": false }"#,
    ));
    assert_eq!(
        columns,
        ListColumns {
            display_name: "Tasks".to_string(),
            wellknown_list_name: Some("defaultList".to_string()),
            is_owner: true,
            is_shared: false,
            etag: Some("W/\"l1\"".to_string()),
        }
    );
    let bare = ListColumns::of(&members_of(r#"{ "id": "x", "isShared": "yes" }"#));
    assert_eq!(bare.display_name, "");
    assert_eq!(bare.wellknown_list_name, None);
    assert!(!bare.is_owner && !bare.is_shared);
    assert_eq!(bare.etag, None);
}

fn object_value(members: &[(String, Json)]) -> Value {
    to_value(&Json::Object(members.to_vec()))
}

#[test]
fn an_update_writes_its_body_over_the_task_and_keeps_the_task_to_roll_back_to() {
    let current = members_of(r#"{ "id": "g1", "title": "Pay rent", "importance": "normal" }"#);
    let payload = from_value(&serde_json::from_str(r#"{ "body": { "title": "Pay the rent", "extensions": [1] } }"#).expect("json"));
    let (write, rollback) = local_change(LocalChange::Update, &current, &vec![], &payload);
    match write {
        RowWrite::Replace(raw) => assert_eq!(
            object_value(&raw),
            serde_json::from_str::<Value>(r#"{ "id": "g1", "title": "Pay the rent", "importance": "normal" }"#).expect("json")
        ),
        other => panic!("{other:?}"),
    }
    assert_eq!(object_value(&rollback.expect("rollback")), object_value(&current));
}

#[test]
fn each_local_change_writes_the_row_its_way() {
    let current = members_of(r#"{ "id": "g1", "title": "t" }"#);
    let extension = members_of(r#"{ "myDay": "2026-09-24", "assignee": "Sam" }"#);
    let payload = from_value(&serde_json::from_str(r#"{ "body": { "assignee": null, "note": "x" } }"#).expect("json"));
    let (write, rollback) = local_change(LocalChange::Extension, &current, &extension, &payload);
    match write {
        RowWrite::Extension(merged) => assert_eq!(
            object_value(&merged),
            serde_json::from_str::<Value>(r#"{ "myDay": "2026-09-24", "note": "x" }"#).expect("json")
        ),
        other => panic!("{other:?}"),
    }
    assert_eq!(object_value(&rollback.expect("rollback")), object_value(&extension));
    let (write, rollback) = local_change(LocalChange::Tombstone, &current, &extension, &Json::Null);
    assert!(matches!(write, RowWrite::Tombstone));
    assert_eq!(object_value(&rollback.expect("rollback")), object_value(&current));
    let (write, _) = local_change(LocalChange::Move { to: "L2".to_string() }, &current, &extension, &Json::Null);
    assert!(matches!(write, RowWrite::Move { ref to } if to == "L2"));
    let (write, rollback) = local_change(LocalChange::Replace(extension.clone()), &current, &extension, &Json::Null);
    assert!(matches!(write, RowWrite::Replace(_)));
    assert!(rollback.is_none());
    let (write, rollback) = local_change(LocalChange::Insert { raw: current.clone(), extension: None }, &Vec::new(), &Vec::new(), &Json::Null);
    assert!(matches!(write, RowWrite::Insert { extension: None, .. }));
    assert!(rollback.is_none());
}

#[test]
fn a_restore_goes_to_the_list_the_task_extension_or_the_row() {
    assert!(matches!(restore_target(OpKind::Extension, Restore::Tombstone), RestoreTarget::ListExtension(Restore::Tombstone)));
    assert!(matches!(restore_target(OpKind::TaskExtension, Restore::Replace(vec![])), RestoreTarget::TaskExtension(_)));
    assert!(matches!(restore_target(OpKind::TaskExtension, Restore::Tombstone), RestoreTarget::Nothing));
    assert!(matches!(restore_target(OpKind::Update, Restore::Nothing), RestoreTarget::Nothing));
    assert!(matches!(restore_target(OpKind::Child, Restore::Replace(vec![])), RestoreTarget::Row(Restore::Replace(_))));
    assert!(matches!(restore_target(OpKind::Delete, Restore::Tombstone), RestoreTarget::Row(Restore::Tombstone)));
}

#[test]
fn a_new_operation_waits_for_the_last_unresolved_one_on_its_task() {
    let ops = vec![
        waiting("a", None, OpState::Done),
        waiting("b", Some("a"), OpState::Inflight),
        waiting("c", Some("b"), OpState::Failed),
    ];
    assert_eq!(depends_on(&ops), Some("b".to_string()));
    assert_eq!(depends_on(&vec![waiting("a", None, OpState::Done)]), None);
    assert_eq!(depends_on(&vec![]), None);
    let queued = vec![waiting("a", None, OpState::Pending), waiting("b", None, OpState::Unknown)];
    assert_eq!(depends_on(&queued), Some("b".to_string()));
}

#[test]
fn a_gone_lists_unsent_operations_fail_but_one_being_sent_is_left() {
    let ops = vec![
        waiting("a", None, OpState::Pending),
        waiting("b", None, OpState::Inflight),
        waiting("c", None, OpState::Unknown),
        waiting("d", None, OpState::Done),
    ];
    assert_eq!(fail_in_list(&ops), vec!["a", "c"]);
}

#[test]
fn each_view_is_one_condition_used_by_its_query_and_its_count() {
    let day = NaiveDate::parse_from_str("2026-09-24", "%Y-%m-%d").expect("date").num_days_from_ce();
    assert_eq!(
        View::MyDay(day).condition(),
        "json_extract(tasks.extension_json, '$.myDay') = '2026-09-24'"
    );
    assert_eq!(View::All.condition(), "tasks.status <> 'completed'");
    let query = view_query(View::Planned, "tasks.local_id");
    assert!(query.starts_with("SELECT tasks.local_id FROM tasks JOIN lists"), "{query}");
    assert!(query.ends_with(" AND tasks.status <> 'completed' AND tasks.due_date IS NOT NULL ORDER BY tasks.due_date, tasks.created_at, tasks.rowid"), "{query}");
    let counts = counts_query();
    assert!(counts.starts_with("SELECT COALESCE(SUM(tasks.status <> 'completed' AND tasks.importance = 'high'), 0), "), "{counts}");
    assert_eq!(counts.matches("COALESCE(SUM(").count(), 5);
    assert!(counts.ends_with(LIVE));
    assert!(open_by_list_query().ends_with("AND tasks.status <> 'completed' GROUP BY tasks.list_local_id"));
    assert_eq!(count(-3), 0);
    assert_eq!(count(7), 7);
    assert_eq!(View::Completed.order(), "tasks.completed_at_utc IS NOT NULL, tasks.completed_at_utc DESC, tasks.rowid DESC");
}

#[test]
fn a_task_fills_its_columns_with_utc_times_and_dates_as_graph_wrote_them() {
    let columns = TaskColumns::of(&members_of(
        r#"{
            "@odata.etag": "W/\"e1\"",
            "title": "Buy milk",
            "status": "completed",
            "importance": "high",
            "isReminderOn": true,
            "reminderDateTime": { "dateTime": "2026-09-26T16:30:00.0000000", "timeZone": "UTC" },
            "dueDateTime": { "dateTime": "2026-09-25T23:00:00.0000000", "timeZone": "UTC" },
            "completedDateTime": { "dateTime": "2026-09-27T08:00:00.0000000", "timeZone": "Europe/London" },
            "categories": ["Home"],
            "recurrence": { "pattern": { "type": "daily" } },
            "hasAttachments": true,
            "createdDateTime": "2026-09-01T10:00:00Z",
            "body": { "content": "2 pints", "contentType": "text" }
        }"#,
    ));
    assert_eq!(columns.title, "Buy milk");
    assert_eq!(columns.status, "completed");
    assert_eq!(columns.importance, "high");
    assert!(columns.is_reminder_on);
    assert_eq!(columns.reminder_at_utc.as_deref(), Some("2026-09-26T16:30:00.0000000"));
    assert_eq!(columns.completed_at_utc, None, "a time in another zone stays in the JSON only");
    assert_eq!(
        columns.due.as_ref().map(|due| (due.date_time.as_str(), due.time_zone.as_str())),
        Some(("2026-09-25T23:00:00.0000000", "UTC"))
    );
    assert!(columns.start.is_none());
    assert!(matches!(&columns.categories, Json::Array(items) if items.len() == 1 && matches!(&items[0], Json::Str(s) if s == "Home")));
    assert!(matches!(columns.recurrence, Some(Json::Object(_))));
    assert!(columns.has_attachments);
    assert_eq!(columns.created_at.as_deref(), Some("2026-09-01T10:00:00Z"));
    assert_eq!(columns.last_modified_at, None);
    assert_eq!(columns.body_content.as_deref(), Some("2 pints"));
    assert_eq!(columns.body_content_type.as_deref(), Some("text"));
    assert_eq!(columns.etag.as_deref(), Some("W/\"e1\""));
}

#[test]
fn a_bare_task_gets_the_default_status_and_importance() {
    let columns = TaskColumns::of(&members_of(
        r#"{ "id": "x", "recurrence": null, "categories": "Home", "isReminderOn": "yes",
             "reminderDateTime": { "dateTime": "2026-09-26T16:30:00", "timeZone": "utc" } }"#,
    ));
    assert_eq!(columns.title, "");
    assert_eq!(columns.status, "notStarted");
    assert_eq!(columns.importance, "normal");
    assert!(!columns.is_reminder_on);
    assert_eq!(columns.reminder_at_utc.as_deref(), Some("2026-09-26T16:30:00"), "the zone is read in any case");
    assert!(columns.recurrence.is_none());
    assert!(matches!(&columns.categories, Json::Array(items) if items.is_empty()));
    assert!(!columns.has_attachments);
    assert_eq!(columns.body_content, None);
    assert_eq!(columns.etag, None);
}

fn queued(op_id: &str, state: OpState, next_attempt_at: i64, depends_on: Option<&str>) -> OutboxRow {
    let mut r = row(state, OpKind::Update, "{}");
    r.op_id = op_id.to_owned();
    r.next_attempt_at = next_attempt_at;
    r.depends_on = depends_on.map(str::to_owned);
    r
}

#[test]
fn the_worker_sends_pending_operations_due_whose_dependency_is_done() {
    let rows = vec![
        queued("a", OpState::Done, 0, None),
        queued("b", OpState::Pending, 0, Some("a")),
        queued("c", OpState::Pending, 0, Some("b")),
        queued("d", OpState::Pending, 50, None),
        queued("e", OpState::Pending, 10, Some("gone")),
        queued("f", OpState::Unknown, 0, None),
        queued("g", OpState::Pending, 10, None),
    ];
    assert_eq!(ready_ops(&rows, 10), vec![1, 6]);
    assert_eq!(next_attempt_at(&rows, 10), Some(50));
    assert_eq!(next_attempt_at(&rows, 50), None);
}

#[test]
fn a_restart_makes_what_may_have_landed_unknown_and_the_rest_pending() {
    let create = row(OpState::Inflight, OpKind::Create, "{}");
    assert_eq!(recovered(&create), OpState::Unknown);
    let recurring = row(OpState::Inflight, OpKind::Update, r#"{ "recurring": true }"#);
    assert_eq!(recovered(&recurring), OpState::Unknown);
    let new_step = row(OpState::Inflight, OpKind::Child, r#"{ "verb": "create" }"#);
    assert_eq!(recovered(&new_step), OpState::Unknown);
    let renamed_step = row(OpState::Inflight, OpKind::Child, r#"{ "verb": "update" }"#);
    assert_eq!(recovered(&renamed_step), OpState::Pending);
    let mut moving = row(OpState::Inflight, OpKind::Move, "{}");
    assert_eq!(recovered(&moving), OpState::Pending);
    moving.progress = Some(from_value(&parse(r#"{ "in_doubt": true }"#)));
    assert_eq!(recovered(&moving), OpState::Unknown);
    assert_eq!(recovered(&row(OpState::Failed, OpKind::Create, "{}")), OpState::Failed);
}

#[test]
fn an_operation_waiting_on_a_failed_one_is_never_sent_and_order_is_kept() {
    let rows = vec![
        queued("a", OpState::Failed, 0, None),
        queued("b", OpState::Pending, 0, Some("a")),
        queued("c", OpState::Pending, 0, None),
        queued("d", OpState::Done, 0, None),
        queued("e", OpState::Pending, 0, Some("d")),
    ];
    assert_eq!(ready_ops(&rows, 10), vec![2, 4]);
}

#[test]
fn ready_operations_go_in_seq_order_whatever_order_the_rows_come_in() {
    let mut rows = vec![
        queued("c", OpState::Pending, 0, None),
        queued("a", OpState::Pending, 0, None),
        queued("x", OpState::Failed, 0, None),
        queued("b", OpState::Pending, 0, None),
    ];
    rows[0].seq = 30;
    rows[1].seq = 10;
    rows[2].seq = 5;
    rows[3].seq = 20;
    assert_eq!(ready_ops(&rows, 10), vec![1, 3, 0]);
}
