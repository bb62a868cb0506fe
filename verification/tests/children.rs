use mstodo::children::{
    apply_child, child_payload, find_child, rename_child, revert_child, ChildVerb, ATTACHMENTS, LINKS, STEPS,
};
use mstodo::json::{Json, Members};
use serde_json::Value;

fn from_value(value: &Value) -> Json {
    match value {
        Value::Null => Json::Null,
        Value::Bool(b) => Json::Bool(*b),
        Value::Number(n) => Json::Number(n.to_string()),
        Value::String(s) => Json::Str(s.clone()),
        Value::Array(items) => Json::Array(items.iter().map(from_value).collect()),
        Value::Object(map) => Json::Object(map.iter().map(|(k, v)| (k.clone(), from_value(v))).collect()),
    }
}

fn to_value(json: &Json) -> Value {
    match json {
        Json::Null => Value::Null,
        Json::Bool(b) => Value::Bool(*b),
        Json::Number(n) => serde_json::from_str(n).expect("number"),
        Json::Str(s) => Value::String(s.clone()),
        Json::Array(items) => Value::Array(items.iter().map(to_value).collect()),
        Json::Object(members) => {
            let mut map = serde_json::Map::new();
            for (k, v) in members {
                map.insert(k.clone(), to_value(v));
            }
            Value::Object(map)
        }
    }
}

fn parse(text: &str) -> Value {
    serde_json::from_str(text).expect("json")
}

fn entity(text: &str) -> Members {
    match from_value(&parse(text)) {
        Json::Object(members) => members,
        _ => panic!("not an object"),
    }
}

fn value_of(members: &Members) -> Value {
    to_value(&Json::Object(members.clone()))
}

fn step(id: &str, name: &str, checked: bool) -> Value {
    let mut map = serde_json::Map::new();
    map.insert("id".to_owned(), Value::String(id.to_owned()));
    map.insert("displayName".to_owned(), Value::String(name.to_owned()));
    map.insert("isChecked".to_owned(), Value::Bool(checked));
    Value::Object(map)
}

fn payload(collection: &str, verb: ChildVerb, id: &str, body: &str) -> Json {
    child_payload(collection, verb, id, from_value(&parse(body)), &[])
}

#[test]
fn a_create_adds_the_child_last_and_a_delete_of_the_last_drops_the_key() {
    let mut raw = entity(r#"{ "title": "Paint" }"#);
    let create = payload(STEPS, ChildVerb::Create, "local-1", r#"{ "displayName": "Buy paint", "isChecked": false }"#);
    apply_child(&mut raw, &create);
    assert_eq!(value_of(&raw)[STEPS], Value::Array(vec![step("local-1", "Buy paint", false)]));
    apply_child(&mut raw, &payload(STEPS, ChildVerb::Delete, "local-1", "{}"));
    assert!(value_of(&raw).get(STEPS).is_none(), "Graph leaves an empty one out");
}

#[test]
fn unchecking_clears_when_it_was_checked() {
    let mut raw = entity(
        r#"{ "checklistItems": [{ "id": "c1", "displayName": "a", "isChecked": true, "checkedDateTime": "2026-09-25T07:16:03Z" }] }"#,
    );
    let update = payload(STEPS, ChildVerb::Update, "c1", r#"{ "isChecked": false }"#);
    apply_child(&mut raw, &update);
    assert_eq!(value_of(&raw)[STEPS], Value::Array(vec![step("c1", "a", false)]));
}

#[test]
fn reverting_touches_only_the_child_it_changed() {
    let before = entity(
        r#"{ "checklistItems": [{ "id": "c1", "displayName": "a", "isChecked": false }, { "id": "c2", "displayName": "b", "isChecked": false }] }"#,
    );
    // Since queued: c1 checked by this operation, c2 renamed by another.
    let current = entity(
        r#"{ "checklistItems": [{ "id": "c1", "displayName": "a", "isChecked": true }, { "id": "c2", "displayName": "B", "isChecked": false }] }"#,
    );
    let check = payload(STEPS, ChildVerb::Update, "c1", r#"{ "isChecked": true }"#);
    assert_eq!(
        value_of(&revert_child(&current, &check, &before))[STEPS],
        Value::Array(vec![step("c1", "a", false), step("c2", "B", false)])
    );
    let delete = payload(STEPS, ChildVerb::Delete, "c1", "{}");
    let deleted = entity(r#"{ "checklistItems": [{ "id": "c2", "displayName": "B", "isChecked": false }] }"#);
    assert_eq!(
        value_of(&revert_child(&deleted, &delete, &before))[STEPS],
        Value::Array(vec![step("c1", "a", false), step("c2", "B", false)]),
        "back where it was"
    );
    let create = payload(STEPS, ChildVerb::Create, "local-9", "{}");
    let created = entity(r#"{ "checklistItems": [{ "id": "local-9", "displayName": "new", "isChecked": false }] }"#);
    assert!(value_of(&revert_child(&created, &create, &entity("{}"))).get(STEPS).is_none());
}

#[test]
fn attachments_stay_as_an_empty_list_and_a_create_lands_once() {
    let mut raw = entity(r#"{ "title": "Invoice", "hasAttachments": false }"#);
    let add = payload(
        ATTACHMENTS,
        ChildVerb::Create,
        "local-1",
        r#"{ "name": "a.pdf", "contentType": "application/pdf", "size": 3 }"#,
    );
    apply_child(&mut raw, &add);
    apply_child(&mut raw, &add);
    assert_eq!(value_of(&raw)[ATTACHMENTS].as_array().map(Vec::len), Some(1));
    assert_eq!(value_of(&raw)["hasAttachments"], Value::Bool(true));
    let delete = payload(ATTACHMENTS, ChildVerb::Delete, "local-1", "{}");
    apply_child(&mut raw, &delete);
    assert_eq!(value_of(&raw)[ATTACHMENTS], Value::Array(Vec::new()), "known to have none");
    assert_eq!(value_of(&raw)["hasAttachments"], Value::Bool(false));
}

#[test]
fn a_created_child_takes_graphs_id_and_fields() {
    let mut raw = entity(r#"{ "linkedResources": [{ "id": "local-1", "webUrl": "https://a.example" }] }"#);
    let created = entity(r#"{ "id": "r1", "webUrl": "https://a.example", "applicationName": "ms-todo" }"#);
    rename_child(&mut raw, LINKS, "local-1", &created);
    assert_eq!(value_of(&raw)[LINKS], Value::Array(vec![value_of(&created)]));
}

#[test]
fn reverting_what_was_applied_gives_back_the_task() {
    let before = entity(
        r#"{ "title": "Paint", "checklistItems": [{ "id": "c1", "displayName": "a", "isChecked": false, "checkedDateTime": "x" }] }"#,
    );
    for (verb, id, body) in [
        (ChildVerb::Create, "local-2", r#"{ "displayName": "b" }"#),
        (ChildVerb::Update, "c1", r#"{ "isChecked": true, "displayName": "A" }"#),
        (ChildVerb::Update, "c1", r#"{ "isChecked": false }"#),
        (ChildVerb::Delete, "c1", "{}"),
    ] {
        let p = payload(STEPS, verb, id, body);
        let mut applied = before.clone();
        apply_child(&mut applied, &p);
        assert_ne!(value_of(&applied), value_of(&before));
        assert_eq!(value_of(&revert_child(&applied, &p, &before)), value_of(&before));
    }
}

#[test]
fn applying_twice_is_applying_once() {
    let raw = entity(r#"{ "checklistItems": [{ "id": "c1", "displayName": "a", "isChecked": true, "checkedDateTime": "x" }] }"#);
    for p in [
        payload(STEPS, ChildVerb::Create, "local-3", r#"{ "displayName": "c" }"#),
        payload(STEPS, ChildVerb::Update, "c1", r#"{ "isChecked": false }"#),
        payload(STEPS, ChildVerb::Delete, "c1", "{}"),
    ] {
        let mut once = raw.clone();
        apply_child(&mut once, &p);
        let mut twice = once.clone();
        apply_child(&mut twice, &p);
        assert_eq!(value_of(&twice), value_of(&once));
    }
}

#[test]
fn a_payload_without_a_verb_changes_nothing() {
    let mut raw = entity(r#"{ "title": "Paint", "checklistItems": [] }"#);
    let odd = from_value(&parse(r#"{ "collection": "checklistItems", "verb": "rename", "id": "c1" }"#));
    apply_child(&mut raw, &odd);
    assert_eq!(value_of(&raw), parse(r#"{ "title": "Paint", "checklistItems": [] }"#));
    assert_eq!(ChildVerb::of(&odd), None);
    assert_eq!(ChildVerb::of(&payload(STEPS, ChildVerb::Update, "c1", "{}")), Some(ChildVerb::Update));
    assert_eq!(ChildVerb::Delete.as_str(), "delete");
}

#[test]
fn the_payload_names_its_collection_verb_child_and_carried_fields() {
    let p = child_payload(STEPS, ChildVerb::Update, "c1", from_value(&parse(r#"{ "isChecked": true }"#)), &["isChecked"]);
    assert_eq!(
        to_value(&p),
        parse(r#"{ "collection": "checklistItems", "verb": "update", "id": "c1", "body": { "isChecked": true }, "carried": ["isChecked"] }"#)
    );
}

#[test]
fn a_child_is_found_by_its_id() {
    let task = entity(r#"{ "linkedResources": [{ "id": "a" }, { "id": "b", "webUrl": "u" }] }"#);
    let (at, child) = find_child(&task, LINKS, "b").expect("found");
    assert_eq!(at, 1);
    assert_eq!(to_value(child), parse(r#"{ "id": "b", "webUrl": "u" }"#));
    assert!(find_child(&task, LINKS, "c").is_none());
    assert!(find_child(&task, STEPS, "a").is_none());
}
