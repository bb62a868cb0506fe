use mstodo::json::Json;
use mstodo::ops::{
    list_row, outbox_row, parse_object, parse_optional, task_row, ListRecord, OpKind, OpRecord, OpState, StoreError,
    TaskRecord,
};

fn corrupt<T>(r: Result<T, StoreError>) -> String {
    match r {
        Err(StoreError::Corrupt(m)) => m,
        _ => panic!("corrupt"),
    }
}

#[test]
fn an_object_reads_as_its_members() {
    let members = parse_object(r#"{"title":"Pay rent","n":2}"#).ok().expect("object");
    assert_eq!(members.len(), 2);
    assert!(members.iter().any(|(k, v)| k == "title" && matches!(v, Json::Str(s) if s == "Pay rent")));
    assert!(members.iter().any(|(k, v)| k == "n" && matches!(v, Json::Number(n) if n == "2")));
}

#[test]
fn anything_but_an_object_is_corrupt_quoted_up_to_80_characters() {
    assert_eq!(corrupt(parse_object("[1, 2]")), "expected a JSON object, got [1, 2]");
    assert_eq!(corrupt(parse_object("not json")), "expected a JSON object, got not json");
    let long = "x".repeat(100);
    assert_eq!(corrupt(parse_object(&long)), format!("expected a JSON object, got {}", "x".repeat(80)));
}

#[test]
fn an_optional_value_is_none_or_parsed_or_corrupt_with_serde_json_s_message() {
    assert!(matches!(parse_optional(None), Ok(None)));
    assert!(matches!(parse_optional(Some("[true, null]".to_string())), Ok(Some(Json::Array(items))) if items.len() == 2));
    let message = corrupt(parse_optional(Some("{".to_string())));
    assert!(message.contains("EOF"), "{message}");
}

fn record() -> OpRecord {
    OpRecord {
        op_id: "op-1".to_string(),
        seq: 7,
        command_id: "cmd-1".to_string(),
        created_at: 100,
        entity_local_id: "t1".to_string(),
        list_local_id: "l1".to_string(),
        op: "update".to_string(),
        action: "complete".to_string(),
        payload_json: r#"{"status":"completed"}"#.to_string(),
        depends_on_op_id: Some("op-0".to_string()),
        undoes_command_id: None,
        attempts: 2,
        next_attempt_at: 130,
        state: "pending".to_string(),
        last_error_kind: Some("network".to_string()),
        last_error: Some("reset".to_string()),
        rollback_json: Some(r#"{"status":"notStarted"}"#.to_string()),
        sent_at: None,
        unknown_since: None,
        note: None,
        finished_at: None,
        progress_json: None,
        title: Some("Pay rent".to_string()),
    }
}

#[test]
fn a_stored_record_reads_as_its_row() {
    let row = outbox_row(record()).ok().expect("row");
    assert_eq!(row.op_id, "op-1");
    assert_eq!(row.seq, 7);
    assert_eq!(row.op, OpKind::Update);
    assert_eq!(row.state, OpState::Pending);
    assert!(matches!(row.payload, Json::Object(ref m) if m.len() == 1));
    assert_eq!(row.depends_on.as_deref(), Some("op-0"));
    assert_eq!(row.last_error, Some(("network".to_string(), "reset".to_string())));
    assert!(matches!(row.rollback, Some(ref m) if m.len() == 1));
    assert!(row.progress.is_none());
    assert_eq!(row.title.as_deref(), Some("Pay rent"));
}

#[test]
fn a_record_with_an_unknown_word_or_bad_json_is_corrupt() {
    let mut bad = record();
    bad.op = "nope".to_string();
    assert_eq!(corrupt(outbox_row(bad)), "unknown outbox op \"nope\"");
    let mut bad = record();
    bad.state = "lost".to_string();
    assert_eq!(corrupt(outbox_row(bad)), "unknown outbox state \"lost\"");
    let mut bad = record();
    bad.rollback_json = Some("3".to_string());
    assert_eq!(corrupt(outbox_row(bad)), "expected a JSON object, got 3");
    let mut bad = record();
    bad.payload_json = "{".to_string();
    assert!(corrupt(outbox_row(bad)).contains("EOF"));
    // The op is read first.
    let mut bad = record();
    bad.op = "nope".to_string();
    bad.state = "lost".to_string();
    assert_eq!(corrupt(outbox_row(bad)), "unknown outbox op \"nope\"");
    // Only a kind and a message together are an error.
    let mut half = record();
    half.last_error = None;
    assert_eq!(outbox_row(half).ok().expect("row").last_error, None);
}

#[test]
fn stored_lists_and_tasks_read_their_json() {
    let list = list_row(ListRecord {
        local_id: "l1".to_string(),
        graph_id: Some("g1".to_string()),
        display_name: "Home".to_string(),
        wellknown_list_name: None,
        raw_json: r#"{"displayName":"Home"}"#.to_string(),
        extension_json: Some(r#"{"color":"blue"}"#.to_string()),
    })
    .ok()
    .expect("list");
    assert_eq!(list.display_name, "Home");
    assert_eq!(list.raw.len(), 1);
    assert!(matches!(list.extension, Some(Json::Object(_))));
    let task = TaskRecord {
        local_id: "t1".to_string(),
        graph_id: None,
        list_local_id: "l1".to_string(),
        title: "Pay rent".to_string(),
        raw_json: "null".to_string(),
        extension_json: None,
    };
    assert_eq!(corrupt(task_row(task)), "expected a JSON object, got null");
}
