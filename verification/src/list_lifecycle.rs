//! Creating, renaming and deleting lists: each is applied to the cached
//! lists and queued in the outbox together, so it is offline-safe and can
//! be undone.

use vstd::prelude::*;

use crate::json::{
    Json, JsonV, Members, field, get, insert, items_model, lemma_items_push, lemma_members_push,
    members_model, str_of, strings_of,
};
use crate::ops::OpKind;
use crate::text::str_eq;

verus! {

/// A create, re-create, rename or delete of one list.
#[derive(Clone, Debug)]
pub struct ListLifecycleOp {
    pub op_id: String,
    pub list_local_id: String,
    /// What the user asked for, such as `create_list`.
    pub action: String,
    pub write: ListWrite,
}

#[derive(Clone, Debug, PartialEq, Eq)]
pub enum ListWrite {
    /// A new list called `name`, only ms-todo knows yet.
    Create { name: String },
    /// A deleted list made again, with its name and extension.
    Recreate,
    Rename { name: String },
    Delete,
}

/// The outbox kind each write is queued as.
pub open spec fn write_kind(write: ListWrite) -> OpKind {
    match write {
        ListWrite::Create { .. } | ListWrite::Recreate => OpKind::ListCreate,
        ListWrite::Rename { .. } => OpKind::ListUpdate,
        ListWrite::Delete => OpKind::ListDelete,
    }
}

impl ListWrite {
    /// A create and a re-create both go out as a list create.
    pub fn kind(&self) -> (k: OpKind)
        ensures
            k == write_kind(*self),
    {
        match self {
            ListWrite::Create { .. } | ListWrite::Recreate => OpKind::ListCreate,
            ListWrite::Rename { .. } => OpKind::ListUpdate,
            ListWrite::Delete => OpKind::ListDelete,
        }
    }
}

} // verus!

verus! {

/// A new list's JSON, before Graph has seen it.
pub open spec fn created_list_spec(name: Seq<char>) -> Map<Seq<char>, JsonV> {
    Map::<Seq<char>, JsonV>::empty().insert("displayName"@, JsonV::Str(name)).insert(
        "wellknownListName"@,
        JsonV::Str("none"@),
    ).insert("isOwner"@, JsonV::Bool(true)).insert("isShared"@, JsonV::Bool(false))
}

/// The JSON a list created as `name` is cached with: an ordinary list of
/// the user's own, not shared.
pub fn created_list(name: &str) -> (raw: Members)
    ensures
        members_model(raw@) == created_list_spec(name@),
{
    let mut raw: Members = Vec::new();
    insert(&mut raw, "displayName".to_owned(), Json::Str(name.to_owned()));
    insert(&mut raw, "wellknownListName".to_owned(), Json::Str("none".to_owned()));
    insert(&mut raw, "isOwner".to_owned(), Json::Bool(true));
    insert(&mut raw, "isShared".to_owned(), Json::Bool(false));
    raw
}

/// Whether a key is Graph's, for a list that is gone: its `id`, and the
/// annotations that start with `@`.
pub open spec fn graph_key(key: Seq<char>) -> bool {
    key == "id"@ || (key.len() > 0 && key[0] == '@')
}

/// A list's JSON without Graph's keys.
pub open spec fn without_graph_keys(raw: Map<Seq<char>, JsonV>) -> Map<Seq<char>, JsonV> {
    Map::new(|k: Seq<char>| raw.contains_key(k) && !graph_key(k), |k: Seq<char>| raw[k])
}

/// Whether `key` is Graph's (see [`graph_key`]).
fn is_graph_key(key: &str) -> (b: bool)
    ensures
        b == graph_key(key@),
{
    str_eq(key, "id") || (key.unicode_len() > 0 && key.get_char(0) == '@')
}

/// A deleted list's JSON made ready to be created again: Graph's ID and
/// annotations, for the list that's gone, are dropped.
pub fn recreated_list(raw: &Members) -> (out: Members)
    ensures
        members_model(out@) == without_graph_keys(members_model(raw@)),
{
    let mut out: Members = Vec::new();
    let mut i: usize = 0;
    while i < raw.len()
        invariant
            i <= raw.len(),
            members_model(out@) == without_graph_keys(members_model(raw@.subrange(0, i as int))),
        decreases raw.len() - i,
    {
        proof {
            lemma_members_push(raw@.subrange(0, i as int), raw@[i as int].0, raw@[i as int].1);
            assert(raw@.subrange(0, i as int).push(raw@[i as int]) =~= raw@.subrange(0, i + 1));
        }
        if !is_graph_key(raw[i].0.as_str()) {
            let key = raw[i].0.clone();
            let value = raw[i].1.copy();
            proof {
                lemma_members_push(out@, key, value);
            }
            out.push((key, value));
        }
        assert(members_model(out@) =~= without_graph_keys(members_model(raw@.subrange(0, i + 1))));
        i = i + 1;
    }
    assert(raw@.subrange(0, raw.len() as int) =~= raw@);
    out
}

/// A list's name in its JSON, or the empty name.
pub fn display_name(raw: &Members) -> (name: String)
    ensures
        name@ == match str_of(field(JsonV::Object(members_model(raw@)), "displayName"@)) {
            Some(s) => s,
            None => Seq::empty(),
        },
{
    match get(raw, "displayName") {
        Some(Json::Str(s)) => s.clone(),
        _ => String::new(),
    }
}

/// The payload a list write queues: the name it sends, or nothing.
pub open spec fn list_payload_spec(name: Option<Seq<char>>) -> JsonV {
    JsonV::Object(
        Map::<Seq<char>, JsonV>::empty().insert(
            "body"@,
            JsonV::Object(
                match name {
                    Some(n) => Map::<Seq<char>, JsonV>::empty().insert(
                        "displayName"@,
                        JsonV::Str(n),
                    ),
                    None => Map::empty(),
                },
            ),
        ),
    )
}

/// The payload of a create, re-create or rename (`{"body": {"displayName":
/// name}}`) or of a delete (`{"body": {}}`).
pub fn list_payload(name: Option<&str>) -> (p: Json)
    ensures
        p.model() == list_payload_spec(
            match name {
                Some(n) => Some(n@),
                None => None,
            },
        ),
{
    let mut body: Members = Vec::new();
    assert(members_model(body@) =~= Map::empty());
    match name {
        Some(n) => {
            insert(&mut body, "displayName".to_owned(), Json::Str(n.to_owned()));
        },
        None => {},
    }
    let mut outer: Members = Vec::new();
    insert(&mut outer, "body".to_owned(), Json::Object(body));
    Json::Object(outer)
}

/// The name the latest of `later`'s renames gives, if one does.
pub open spec fn latest_rename(later: Seq<(OpKind, Json)>) -> Option<Seq<char>>
    decreases later.len(),
{
    if later.len() == 0 {
        None
    } else {
        let (kind, payload) = later.last();
        let name = str_of(field(field(payload.model(), "body"@), "displayName"@));
        if kind == OpKind::ListUpdate && name is Some {
            name
        } else {
            latest_rename(later.drop_last())
        }
    }
}

/// Graph's answer to a list create or rename, with the names of the
/// list's later unresolved renames (`later`, in order) on top.
pub fn overlay_renames(raw: &mut Members, later: &Vec<(OpKind, Json)>)
    ensures
        members_model(final(raw)@) == match latest_rename(later@) {
            Some(name) => members_model(old(raw)@).insert("displayName"@, JsonV::Str(name)),
            None => members_model(old(raw)@),
        },
{
    let ghost at_entry = members_model(raw@);
    let mut i: usize = 0;
    while i < later.len()
        invariant
            i <= later.len(),
            members_model(raw@) == match latest_rename(later@.subrange(0, i as int)) {
                Some(name) => at_entry.insert("displayName"@, JsonV::Str(name)),
                None => at_entry,
            },
        decreases later.len() - i,
    {
        assert(later@.subrange(0, i + 1).drop_last() =~= later@.subrange(0, i as int));
        let (kind, payload) = (&later[i].0, &later[i].1);
        if *kind == OpKind::ListUpdate {
            let name = match payload {
                Json::Object(m) => match get(m, "body") {
                    Some(body) => body.str_field("displayName"),
                    None => None,
                },
                _ => None,
            };
            if let Some(n) = name {
                insert(raw, "displayName".to_owned(), Json::Str(n.to_owned()));
                assert(members_model(raw@) =~= at_entry.insert("displayName"@, JsonV::Str(n@)));
            }
        }
        i = i + 1;
    }
    assert(later@.subrange(0, later.len() as int) =~= later@);
}

/// What a list operation rolls back to: the list's JSON under `raw`, and
/// the local IDs of the tasks it tombstoned under `tasks`.
pub open spec fn snapshot_spec(raw: Map<Seq<char>, JsonV>, tasks: Seq<Seq<char>>) -> Map<
    Seq<char>,
    JsonV,
> {
    Map::<Seq<char>, JsonV>::empty().insert("raw"@, JsonV::Object(raw)).insert(
        "tasks"@,
        JsonV::Array(Seq::new(tasks.len(), |i: int| JsonV::Str(tasks[i]))),
    )
}

/// A rollback for a list operation.
pub fn snapshot(raw: Members, tasks: &Vec<String>) -> (before: Members)
    ensures
        members_model(before@) == snapshot_spec(
            members_model(raw@),
            Seq::new(tasks@.len(), |i: int| tasks@[i]@),
        ),
{
    let mut ids: Vec<Json> = Vec::new();
    let mut i: usize = 0;
    while i < tasks.len()
        invariant
            i <= tasks.len(),
            items_model(ids@) == Seq::new(i as nat, |j: int| JsonV::Str(tasks@[j]@)),
        decreases tasks.len() - i,
    {
        let id = Json::Str(tasks[i].clone());
        proof {
            lemma_items_push(ids@, id);
        }
        ids.push(id);
        i = i + 1;
        assert(items_model(ids@) =~= Seq::new(i as nat, |j: int| JsonV::Str(tasks@[j]@)));
    }
    let ghost ids_model = Seq::new(tasks@.len(), |i: int| tasks@[i]@);
    assert(items_model(ids@) =~= Seq::new(ids_model.len(), |i: int| JsonV::Str(ids_model[i])));
    let mut before: Members = Vec::new();
    insert(&mut before, "raw".to_owned(), Json::Object(raw));
    insert(&mut before, "tasks".to_owned(), Json::Array(ids));
    assert(members_model(before@) =~= snapshot_spec(
        members_model(raw@),
        Seq::new(tasks@.len(), |i: int| tasks@[i]@),
    ));
    before
}

/// The list's JSON in a rollback, or none.
pub open spec fn snapshot_raw_spec(before: Map<Seq<char>, JsonV>) -> Map<Seq<char>, JsonV> {
    if before.contains_key("raw"@) {
        match before["raw"@] {
            JsonV::Object(m) => m,
            _ => Map::empty(),
        }
    } else {
        Map::empty()
    }
}

/// The task IDs in a rollback: the strings of its `tasks` array.
pub open spec fn snapshot_tasks_spec(before: Map<Seq<char>, JsonV>) -> Seq<Seq<char>> {
    if before.contains_key("tasks"@) {
        match before["tasks"@] {
            JsonV::Array(items) => strings_of(items),
            _ => Seq::empty(),
        }
    } else {
        Seq::empty()
    }
}

/// The list's JSON a rollback brings back.
pub fn snapshot_raw(before: &Members) -> (raw: Members)
    ensures
        members_model(raw@) == snapshot_raw_spec(members_model(before@)),
{
    match get(before, "raw") {
        Some(Json::Object(m)) => crate::json::copy_members(m),
        _ => {
            let none: Members = Vec::new();
            assert(members_model(none@) =~= Map::empty());
            none
        },
    }
}

/// The tasks a rollback brings back, by local ID.
pub fn snapshot_tasks(before: &Members) -> (tasks: Vec<String>)
    ensures
        Seq::new(tasks@.len(), |i: int| tasks@[i]@) == snapshot_tasks_spec(members_model(before@)),
{
    let mut out: Vec<String> = Vec::new();
    match get(before, "tasks") {
        Some(Json::Array(items)) => {
            let mut i: usize = 0;
            while i < items.len()
                invariant
                    i <= items.len(),
                    Seq::new(out@.len(), |j: int| out@[j]@) == strings_of(
                        items_model(items@.subrange(0, i as int)),
                    ),
                decreases items.len() - i,
            {
                proof {
                    lemma_items_push(items@.subrange(0, i as int), items@[i as int]);
                    assert(items@.subrange(0, i as int).push(items@[i as int]) =~= items@.subrange(0, i + 1));
                    assert(items_model(items@.subrange(0, i + 1)).drop_last() =~= items_model(items@.subrange(0, i as int)));
                }
                match &items[i] {
                    Json::Str(s) => {
                        let ghost prior = out@;
                        out.push(s.clone());
                        assert(Seq::new(out@.len(), |j: int| out@[j]@) =~= Seq::new(prior.len(), |j: int| prior[j]@).push(s@));
                    },
                    _ => {},
                }
                i = i + 1;
            }
            assert(items@.subrange(0, items.len() as int) =~= items@);
        },
        _ => {},
    }
    proof {
        assert(Seq::new(out@.len(), |j: int| out@[j]@) =~= snapshot_tasks_spec(members_model(before@)));
    }
    out
}

/// The strings of string items are the strings themselves.
proof fn lemma_strings_of_all(tasks: Seq<Seq<char>>, n: nat)
    requires
        n <= tasks.len(),
    ensures
        strings_of(Seq::new(n, |i: int| JsonV::Str(tasks[i]))) == tasks.subrange(0, n as int),
    decreases n,
{
    if n > 0 {
        lemma_strings_of_all(tasks, (n - 1) as nat);
        assert(Seq::new(n, |i: int| JsonV::Str(tasks[i])).drop_last() =~= Seq::new(
            (n - 1) as nat,
            |i: int| JsonV::Str(tasks[i]),
        ));
        assert(tasks.subrange(0, n - 1).push(tasks[n - 1]) =~= tasks.subrange(0, n as int));
    }
}

/// A rollback gives back the list's JSON and the task IDs it was made
/// with.
pub proof fn law_snapshot_round_trip(raw: Map<Seq<char>, JsonV>, tasks: Seq<Seq<char>>)
    ensures
        snapshot_raw_spec(snapshot_spec(raw, tasks)) == raw,
        snapshot_tasks_spec(snapshot_spec(raw, tasks)) == tasks,
{
    reveal_strlit("raw");
    reveal_strlit("tasks");
    assert("raw"@.len() != "tasks"@.len());
    lemma_strings_of_all(tasks, tasks.len());
    assert(tasks.subrange(0, tasks.len() as int) =~= tasks);
}

} // verus!
