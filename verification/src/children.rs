//! A task's children as the cache holds them: its steps (Graph's
//! `checklistItems`) and its links (`linkedResources`), inline in the
//! task's JSON as Graph sends them, and its attachments' metadata
//! (`attachments`), which Graph never sends inline, so the daemon keeps
//! it there itself. A child write is an outbox operation on its task; what
//! it does to the task's JSON is [`apply_child`], whose inverse for a
//! rejection or a discard is [`revert_child`].
//!
//! Since Graph's JSON never has `attachments`, the key is ms-todo's own:
//! present, even empty, it's the task's attachments as last known; absent,
//! they haven't been fetched.

use vstd::prelude::*;

use crate::json::{
    JsonV, Json, Members, copy_items, copy_members, field, get, insert, items_model,
    members_model, object_or_empty, remove, str_of,
};
use crate::text::str_eq;

verus! {

/// The collection of a task's steps.
pub const STEPS: &'static str = "checklistItems";

/// The collection of a task's links.
pub const LINKS: &'static str = "linkedResources";

/// The collection of a task's attachments.
pub const ATTACHMENTS: &'static str = "attachments";

/// What a child operation does, as its payload's `verb` says.
#[derive(Clone, Copy, Debug, PartialEq, Eq, Structural)]
pub enum ChildVerb {
    Create,
    Update,
    Delete,
}

/// The word each verb is written as.
pub open spec fn verb_name(verb: ChildVerb) -> Seq<char> {
    match verb {
        ChildVerb::Create => "create"@,
        ChildVerb::Update => "update"@,
        ChildVerb::Delete => "delete"@,
    }
}

/// The verb a payload names, if it names one.
pub open spec fn verb_of(payload: JsonV) -> Option<ChildVerb> {
    match str_of(field(payload, "verb"@)) {
        Some(word) => if word == "create"@ {
            Some(ChildVerb::Create)
        } else if word == "update"@ {
            Some(ChildVerb::Update)
        } else if word == "delete"@ {
            Some(ChildVerb::Delete)
        } else {
            None
        },
        None => None,
    }
}

/// What a child operation's payload says: its collection, its verb, the
/// child's ID and the fields it sends (none when its body isn't an
/// object). `None` when any of the first three is missing.
pub open spec fn payload_parts(payload: JsonV) -> Option<
    (Seq<char>, ChildVerb, Seq<char>, Map<Seq<char>, JsonV>),
> {
    match (str_of(field(payload, "collection"@)), verb_of(payload), str_of(field(payload, "id"@))) {
        (Some(collection), Some(verb), Some(id)) => Some(
            (collection, verb, id, object_or_empty(field(payload, "body"@))),
        ),
        _ => None,
    }
}

/// A task's children in `collection`: none when the key is absent or is
/// not an array.
pub open spec fn children_of(task: Map<Seq<char>, JsonV>, collection: Seq<char>) -> Seq<JsonV> {
    if task.contains_key(collection) {
        match task[collection] {
            JsonV::Array(items) => items,
            _ => Seq::empty(),
        }
    } else {
        Seq::empty()
    }
}

/// Whether `child` is the one with ID `id`.
pub open spec fn has_id(child: JsonV, id: Seq<char>) -> bool {
    field(child, "id"@) == JsonV::Str(id)
}

/// Where the first child with ID `id` is, or -1.
pub open spec fn first_with_id(items: Seq<JsonV>, id: Seq<char>) -> int
    decreases items.len(),
{
    if items.len() == 0 {
        -1
    } else {
        let before = first_with_id(items.drop_last(), id);
        if before >= 0 {
            before
        } else if has_id(items.last(), id) {
            items.len() - 1
        } else {
            -1
        }
    }
}

/// The children whose ID is not `id`, in order.
pub open spec fn without_id(items: Seq<JsonV>, id: Seq<char>) -> Seq<JsonV>
    decreases items.len(),
{
    if items.len() == 0 {
        items
    } else {
        let rest = without_id(items.drop_last(), id);
        if has_id(items.last(), id) {
            rest
        } else {
            rest.push(items.last())
        }
    }
}

/// `fields` over `item`, as a PATCH is; unchecking a step also clears
/// when it was checked, as Graph does.
pub open spec fn merge_fields_spec(
    item: Map<Seq<char>, JsonV>,
    fields: Map<Seq<char>, JsonV>,
) -> Map<Seq<char>, JsonV> {
    let merged = item.union_prefer_right(fields);
    if fields.contains_key("isChecked"@) && fields["isChecked"@] == JsonV::Bool(false) {
        merged.remove("checkedDateTime"@)
    } else {
        merged
    }
}

/// The task with `items` as its children in `collection`: an empty
/// collection is left out, as Graph leaves it out, except attachments,
/// whose empty list says there are none and which also set
/// `hasAttachments`.
pub open spec fn set_children_spec(
    task: Map<Seq<char>, JsonV>,
    collection: Seq<char>,
    items: Seq<JsonV>,
) -> Map<Seq<char>, JsonV> {
    if collection == "attachments"@ {
        task.insert("hasAttachments"@, JsonV::Bool(items.len() > 0)).insert(
            collection,
            JsonV::Array(items),
        )
    } else if items.len() == 0 {
        task.remove(collection)
    } else {
        task.insert(collection, JsonV::Array(items))
    }
}

/// The children a child operation leaves in its collection.
pub open spec fn applied_items(
    items: Seq<JsonV>,
    verb: ChildVerb,
    id: Seq<char>,
    body: Map<Seq<char>, JsonV>,
) -> Seq<JsonV> {
    let at = first_with_id(items, id);
    match verb {
        ChildVerb::Create => {
            let item = JsonV::Object(body.insert("id"@, JsonV::Str(id)));
            if at >= 0 {
                items.update(at, item)
            } else {
                items.push(item)
            }
        },
        ChildVerb::Update => if at >= 0 && items[at] is Object {
            items.update(at, JsonV::Object(merge_fields_spec(items[at]->Object_0, body)))
        } else {
            items
        },
        ChildVerb::Delete => without_id(items, id),
    }
}

/// A task's JSON after a child operation: a create puts the child last
/// (or replaces the one with its ID, so it lands once however often it is
/// applied), an update merges its fields into the child, a delete drops
/// it. A payload without a collection, a verb or an ID changes nothing.
pub open spec fn apply_child_spec(raw: Map<Seq<char>, JsonV>, payload: JsonV) -> Map<
    Seq<char>,
    JsonV,
> {
    match payload_parts(payload) {
        None => raw,
        Some((collection, verb, id, body)) => set_children_spec(
            raw,
            collection,
            applied_items(children_of(raw, collection), verb, id, body),
        ),
    }
}

/// `item` with each key of `keys` as it is in `was`: set to `was`'s value
/// where `was` has it, gone where it doesn't; other keys as in `item`.
pub open spec fn restore_keys(
    item: Map<Seq<char>, JsonV>,
    was: Map<Seq<char>, JsonV>,
    keys: Set<Seq<char>>,
) -> Map<Seq<char>, JsonV> {
    Map::new(
        |k: Seq<char>|
            if keys.contains(k) {
                was.contains_key(k)
            } else {
                item.contains_key(k)
            },
        |k: Seq<char>|
            if keys.contains(k) {
                was[k]
            } else {
                item[k]
            },
    )
}

/// The keys an update takes back: those it sent, and when a step was
/// checked, which checking stamps.
pub open spec fn sent_keys(body: Map<Seq<char>, JsonV>) -> Set<Seq<char>> {
    body.dom().insert("checkedDateTime"@)
}

/// The children after taking a child operation back out of `items`, the
/// children now, given `was_items`, the children when it was queued.
pub open spec fn reverted_items(
    items: Seq<JsonV>,
    was_items: Seq<JsonV>,
    verb: ChildVerb,
    id: Seq<char>,
    body: Map<Seq<char>, JsonV>,
) -> Seq<JsonV> {
    let was_at = first_with_id(was_items, id);
    let at = first_with_id(items, id);
    match verb {
        ChildVerb::Create => without_id(items, id),
        ChildVerb::Update => if was_at >= 0 && was_items[was_at] is Object && at >= 0
            && items[at] is Object {
            items.update(
                at,
                JsonV::Object(
                    restore_keys(items[at]->Object_0, was_items[was_at]->Object_0, sent_keys(body)),
                ),
            )
        } else {
            items
        },
        ChildVerb::Delete => if was_at >= 0 && at < 0 {
            items.insert(
                if was_at < items.len() {
                    was_at
                } else {
                    items.len() as int
                },
                was_items[was_at],
            )
        } else {
            items
        },
    }
}

/// Take a child operation back out of `current`, the task's JSON now,
/// from `before`, its JSON when the operation was queued: only that child,
/// so later changes to others stay. A create's child goes; an update's
/// keys are as they were; a deleted child comes back where it was, unless
/// one with its ID is there again.
pub open spec fn revert_child_spec(
    current: Map<Seq<char>, JsonV>,
    payload: JsonV,
    before: Map<Seq<char>, JsonV>,
) -> Map<Seq<char>, JsonV> {
    match payload_parts(payload) {
        None => current,
        Some((collection, verb, id, body)) => set_children_spec(
            current,
            collection,
            reverted_items(
                children_of(current, collection),
                children_of(before, collection),
                verb,
                id,
                body,
            ),
        ),
    }
}

/// The task after Graph answered the create of child `from`: the child
/// takes Graph's fields, its new ID among them, over its own.
pub open spec fn rename_child_spec(
    raw: Map<Seq<char>, JsonV>,
    collection: Seq<char>,
    from: Seq<char>,
    created: Map<Seq<char>, JsonV>,
) -> Map<Seq<char>, JsonV> {
    let items = children_of(raw, collection);
    let at = first_with_id(items, from);
    set_children_spec(
        raw,
        collection,
        if at >= 0 && items[at] is Object {
            items.update(at, JsonV::Object(merge_fields_spec(items[at]->Object_0, created)))
        } else {
            items
        },
    )
}

impl ChildVerb {
    pub fn as_str(self) -> (s: &'static str)
        ensures
            s@ == verb_name(self),
    {
        match self {
            ChildVerb::Create => "create",
            ChildVerb::Update => "update",
            ChildVerb::Delete => "delete",
        }
    }

    /// The verb `payload` names, if any.
    pub fn of(payload: &Json) -> (r: Option<ChildVerb>)
        ensures
            r == verb_of(payload.model()),
    {
        match payload.str_field("verb") {
            Some(word) => if str_eq(word, "create") {
                Some(ChildVerb::Create)
            } else if str_eq(word, "update") {
                Some(ChildVerb::Update)
            } else if str_eq(word, "delete") {
                Some(ChildVerb::Delete)
            } else {
                None
            },
            None => None,
        }
    }
}

/// The payload's words as JSON strings.
pub open spec fn carried_model(carried: Seq<&str>) -> Seq<JsonV>
    decreases carried.len(),
{
    if carried.len() == 0 {
        Seq::empty()
    } else {
        carried_model(carried.drop_last()).push(JsonV::Str(carried.last()@))
    }
}

/// A child operation's payload: which collection, what it does, to which
/// child, and the fields it sends. `carried` names fields sent only
/// because Graph resets what a PATCH leaves out (a step's `isChecked`),
/// which aren't the change itself.
pub fn child_payload(
    collection: &str,
    verb: ChildVerb,
    id: &str,
    body: Json,
    carried: &[&str],
) -> (p: Json)
    ensures
        p.model() == JsonV::Object(
            Map::<Seq<char>, JsonV>::empty().insert("collection"@, JsonV::Str(collection@)).insert(
                "verb"@,
                JsonV::Str(verb_name(verb)),
            ).insert("id"@, JsonV::Str(id@)).insert("body"@, body.model()).insert(
                "carried"@,
                JsonV::Array(carried_model(carried@)),
            ),
        ),
        payload_parts(p.model()) == Some(
            (collection@, verb, id@, object_or_empty(body.model())),
        ),
{
    let mut words: Vec<Json> = Vec::new();
    let mut i: usize = 0;
    while i < carried.len()
        invariant
            i <= carried@.len(),
            items_model(words@) == carried_model(carried@.subrange(0, i as int)),
        decreases carried@.len() - i,
    {
        let word = Json::Str(carried[i].to_owned());
        proof {
            crate::json::lemma_items_push(words@, word);
            assert(carried@.subrange(0, i + 1).drop_last() =~= carried@.subrange(0, i as int));
        }
        words.push(word);
        i = i + 1;
    }
    assert(carried@.subrange(0, carried@.len() as int) =~= carried@);
    let mut members: Members = Vec::new();
    insert(&mut members, "collection".to_owned(), Json::Str(collection.to_owned()));
    insert(&mut members, "verb".to_owned(), Json::Str(verb.as_str().to_owned()));
    insert(&mut members, "id".to_owned(), Json::Str(id.to_owned()));
    insert(&mut members, "body".to_owned(), body);
    insert(&mut members, "carried".to_owned(), Json::Array(words));
    let p = Json::Object(members);
    proof {
        reveal_strlit("collection");
        reveal_strlit("verb");
        reveal_strlit("id");
        reveal_strlit("body");
        reveal_strlit("carried");
        assert("collection"@.len() == 10 && "verb"@.len() == 4 && "id"@.len() == 2);
        assert("body"@.len() == 4 && "carried"@.len() == 7);
        assert("verb"@[0] != "body"@[0]);
        reveal_strlit("create");
        reveal_strlit("update");
        reveal_strlit("delete");
        assert("create"@[0] != "update"@[0] && "create"@[0] != "delete"@[0]);
        assert("update"@[0] != "delete"@[0]);
        assert(verb_of(p.model()) == Some(verb));
        assert(field(p.model(), "collection"@) == JsonV::Str(collection@));
        assert(field(p.model(), "verb"@) == JsonV::Str(verb_name(verb)));
        assert(field(p.model(), "id"@) == JsonV::Str(id@));
        assert(field(p.model(), "body"@) == body.model());
    }
    p
}

/// The children of a task's JSON in `collection`: none when the key is
/// absent (Graph leaves an empty collection out) or not an array.
pub fn children<'a>(task: &'a Members, collection: &str) -> (r: &'a [Json])
    ensures
        items_model(r@) == children_of(members_model(task@), collection@),
{
    match get(task, collection) {
        Some(Json::Array(items)) => items.as_slice(),
        _ => {
            let none: &[Json] = &[];
            assert(none@ =~= Seq::<Json>::empty());
            none
        },
    }
}

/// Whether `child` is the one with ID `id`.
fn child_has_id(child: &Json, id: &str) -> (b: bool)
    ensures
        b == has_id(child.model(), id@),
{
    match child.str_field("id") {
        Some(s) => str_eq(s, id),
        None => false,
    }
}

/// Where the first child with ID `id` is in `items`, if any.
fn position(items: &[Json], id: &str) -> (r: Option<usize>)
    ensures
        match r {
            Some(i) => i == first_with_id(items_model(items@), id@),
            None => first_with_id(items_model(items@), id@) == -1,
        },
{
    let mut i: usize = 0;
    while i < items.len()
        invariant
            i <= items@.len(),
            first_with_id(items_model(items@.subrange(0, i as int)), id@) == -1,
        decreases items@.len() - i,
    {
        proof {
            crate::json::lemma_items_push(items@.subrange(0, i as int), items@[i as int]);
            assert(items@.subrange(0, i as int).push(items@[i as int]) =~= items@.subrange(0, i + 1));
            assert(items_model(items@.subrange(0, i + 1)).drop_last() =~= items_model(items@.subrange(0, i as int)));
        }
        if child_has_id(&items[i], id) {
            proof {
                crate::json::lemma_items_len(items@);
                crate::json::lemma_items_prefix(items@, i as int + 1);
                lemma_first_with_id_prefix(items_model(items@), i as int + 1, id@);
            }
            return Some(i);
        }
        i = i + 1;
    }
    assert(items@.subrange(0, items@.len() as int) =~= items@);
    None
}

/// The first child with an ID in a prefix that has one is the first in
/// the whole list too.
proof fn lemma_first_with_id_prefix(items: Seq<JsonV>, n: int, id: Seq<char>)
    requires
        0 <= n <= items.len(),
        first_with_id(items.subrange(0, n), id) >= 0,
    ensures
        first_with_id(items, id) == first_with_id(items.subrange(0, n), id),
    decreases items.len() - n,
{
    if n < items.len() {
        assert(items.subrange(0, n + 1).drop_last() =~= items.subrange(0, n));
        lemma_first_with_id_prefix(items, n + 1, id);
    } else {
        assert(items.subrange(0, n) =~= items);
    }
}

/// `fields` over `item`, as a PATCH is. Unchecking a step clears when it
/// was checked, as Graph does.
pub fn merge_fields(item: &mut Members, fields: &Members)
    ensures
        members_model(final(item)@) == merge_fields_spec(
            members_model(old(item)@),
            members_model(fields@),
        ),
{
    let ghost at_entry = members_model(item@);
    let mut i: usize = 0;
    while i < fields.len()
        invariant
            i <= fields.len(),
            members_model(item@) == at_entry.union_prefer_right(
                members_model(fields@.subrange(0, i as int)),
            ),
        decreases fields.len() - i,
    {
        let key = fields[i].0.clone();
        let value = fields[i].1.copy();
        proof {
            crate::json::lemma_members_push(fields@.subrange(0, i as int), fields@[i as int].0, fields@[i as int].1);
            assert(fields@.subrange(0, i as int).push(fields@[i as int]) =~= fields@.subrange(0, i + 1));
            assert(at_entry.union_prefer_right(members_model(fields@.subrange(0, i + 1)))
                =~= at_entry.union_prefer_right(members_model(fields@.subrange(0, i as int))).insert(key@, value.model()));
        }
        insert(item, key, value);
        i = i + 1;
    }
    assert(fields@.subrange(0, fields.len() as int) =~= fields@);
    match get(fields, "isChecked") {
        Some(Json::Bool(false)) => {
            remove(item, "checkedDateTime");
        },
        _ => {},
    }
}

/// Put `items` in the task as its children in `collection`. Graph leaves
/// an empty collection out, so the cache does too, except for
/// attachments, whose empty list says there are none, and which also set
/// `hasAttachments` as Graph will.
pub fn set_children(raw: &mut Members, collection: &str, items: Vec<Json>)
    ensures
        members_model(final(raw)@) == set_children_spec(
            members_model(old(raw)@),
            collection@,
            items_model(items@),
        ),
{
    proof {
        crate::json::lemma_items_len(items@);
    }
    if str_eq(collection, "attachments") {
        insert(raw, "hasAttachments".to_owned(), Json::Bool(items.len() > 0));
        insert(raw, collection.to_owned(), Json::Array(items));
    } else if items.len() == 0 {
        remove(raw, collection);
    } else {
        insert(raw, collection.to_owned(), Json::Array(items));
    }
}

/// Copies of the children of `items` whose ID is not `id`.
fn drop_id(items: &[Json], id: &str) -> (out: Vec<Json>)
    ensures
        items_model(out@) == without_id(items_model(items@), id@),
{
    let mut out: Vec<Json> = Vec::new();
    let mut i: usize = 0;
    while i < items.len()
        invariant
            i <= items@.len(),
            items_model(out@) == without_id(items_model(items@.subrange(0, i as int)), id@),
        decreases items@.len() - i,
    {
        proof {
            crate::json::lemma_items_push(items@.subrange(0, i as int), items@[i as int]);
            assert(items@.subrange(0, i as int).push(items@[i as int]) =~= items@.subrange(0, i + 1));
            assert(items_model(items@.subrange(0, i + 1)).drop_last() =~= items_model(items@.subrange(0, i as int)));
        }
        if !child_has_id(&items[i], id) {
            let c = items[i].copy();
            proof {
                crate::json::lemma_items_push(out@, c);
            }
            out.push(c);
        }
        i = i + 1;
    }
    assert(items@.subrange(0, items@.len() as int) =~= items@);
    out
}

/// The child `id` of `task` in `collection`, and where it is.
pub fn find_child<'a>(task: &'a Members, collection: &str, id: &str) -> (r: Option<(usize, &'a Json)>)
    ensures
        match r {
            Some((i, child)) => {
                &&& i == first_with_id(children_of(members_model(task@), collection@), id@)
                &&& child.model() == children_of(members_model(task@), collection@)[i as int]
            },
            None => first_with_id(children_of(members_model(task@), collection@), id@) == -1,
        },
{
    let items = children(task, collection);
    match position(items, id) {
        Some(i) => {
            proof {
                crate::json::lemma_items_len(items@);
                lemma_first_with_id_range(items_model(items@), id@);
            }
            Some((i, &items[i]))
        },
        None => None,
    }
}

/// Where the first child with an ID is, it is one, and none before it is.
pub proof fn lemma_first_with_id_range(items: Seq<JsonV>, id: Seq<char>)
    ensures
        -1 <= first_with_id(items, id) < items.len(),
        first_with_id(items, id) >= 0 ==> has_id(items[first_with_id(items, id)], id),
        forall|j: int|
            0 <= j < items.len() && (first_with_id(items, id) < 0 || j < first_with_id(items, id))
                ==> !has_id(#[trigger] items[j], id),
    decreases items.len(),
{
    if items.len() > 0 {
        lemma_first_with_id_range(items.drop_last(), id);
        assert forall|j: int|
            0 <= j < items.len() && (first_with_id(items, id) < 0 || j < first_with_id(items, id))
                implies !has_id(#[trigger] items[j], id) by {
            if j < items.len() - 1 {
                assert(items[j] == items.drop_last()[j]);
            }
        }
    }
}

/// The fields a payload's body sends: a copy of its members, or none when
/// the body is missing or not an object.
fn body_members(payload: &Json) -> (body: Members)
    ensures
        members_model(body@) == object_or_empty(field(payload.model(), "body"@)),
{
    match payload {
        Json::Object(m) => match get(m, "body") {
            Some(Json::Object(b)) => copy_members(b),
            _ => {
                let none: Members = Vec::new();
                assert(members_model(none@) =~= Map::empty());
                none
            },
        },
        _ => {
            let none: Members = Vec::new();
            assert(members_model(none@) =~= Map::empty());
            none
        },
    }
}

/// Make a child operation's change to a task's JSON, as Graph will.
pub fn apply_child(raw: &mut Members, payload: &Json)
    ensures
        members_model(final(raw)@) == apply_child_spec(members_model(old(raw)@), payload.model()),
{
    let collection = match payload.str_field("collection") {
        Some(c) => c,
        None => return ,
    };
    let verb = match ChildVerb::of(payload) {
        Some(v) => v,
        None => return ,
    };
    let id = match payload.str_field("id") {
        Some(i) => i,
        None => return ,
    };
    let body = body_members(payload);
    let ghost task = members_model(raw@);
    let current = children(raw, collection);
    let at = position(current, id);
    let mut items = copy_items(current);
    proof {
        crate::json::lemma_items_len(current@);
        crate::json::lemma_items_len(items@);
        lemma_first_with_id_range(items_model(current@), id@);
    }
    match verb {
        ChildVerb::Create => {
            let mut item = body;
            insert(&mut item, "id".to_owned(), Json::Str(id.to_owned()));
            match at {
                Some(j) => {
                    proof {
                        crate::json::lemma_items_update(items@, j as int, Json::Object(item));
                    }
                    items.set(j, Json::Object(item));
                },
                None => {
                    proof {
                        crate::json::lemma_items_push(items@, Json::Object(item));
                    }
                    items.push(Json::Object(item));
                },
            }
        },
        ChildVerb::Update => {
            match at {
                Some(j) => {
                    let merged = match &items[j] {
                        Json::Object(m) => {
                            let mut merged = copy_members(m);
                            merge_fields(&mut merged, &body);
                            Some(merged)
                        },
                        _ => None,
                    };
                    match merged {
                        Some(m) => {
                            proof {
                                crate::json::lemma_items_update(items@, j as int, Json::Object(m));
                            }
                            items.set(j, Json::Object(m));
                        },
                        None => {},
                    }
                },
                None => {},
            }
        },
        ChildVerb::Delete => {
            items = drop_id(current, id);
        },
    }
    proof {
        assert(payload_parts(payload.model()) == Some((collection@, verb, id@, members_model(body@))));
        assert(items_model(items@) == applied_items(children_of(task, collection@), verb, id@, members_model(body@)));
    }
    set_children(raw, collection, items);
}

/// `item` with `key` as it is in `was`.
fn restore_key(item: &mut Members, was: &Members, key: &str)
    ensures
        members_model(final(item)@) == restore_keys(
            members_model(old(item)@),
            members_model(was@),
            set![key@],
        ),
{
    match get(was, key) {
        Some(v) => {
            insert(item, key.to_owned(), v.copy());
        },
        None => {
            remove(item, key);
        },
    }
    assert(members_model(item@) =~= restore_keys(
        members_model(old(item)@),
        members_model(was@),
        set![key@],
    ));
}

/// Restoring one more key after some is restoring them all at once.
proof fn lemma_restore_more(
    item: Map<Seq<char>, JsonV>,
    was: Map<Seq<char>, JsonV>,
    keys: Set<Seq<char>>,
    key: Seq<char>,
)
    ensures
        restore_keys(restore_keys(item, was, keys), was, set![key]) == restore_keys(
            item,
            was,
            keys.insert(key),
        ),
{
    assert(restore_keys(restore_keys(item, was, keys), was, set![key]) =~= restore_keys(
        item,
        was,
        keys.insert(key),
    ));
}

/// `item` with the keys an update sent, and when a step was checked, as
/// they are in `was`.
fn restore_sent(item: &mut Members, was: &Members, payload: &Json)
    ensures
        members_model(final(item)@) == restore_keys(
            members_model(old(item)@),
            members_model(was@),
            sent_keys(object_or_empty(field(payload.model(), "body"@))),
        ),
{
    let ghost at_entry = members_model(item@);
    let ghost was_model = members_model(was@);
    let sent = body_members(payload);
    let mut i: usize = 0;
    while i < sent.len()
        invariant
            i <= sent.len(),
            members_model(item@) == restore_keys(
                at_entry,
                was_model,
                members_model(sent@.subrange(0, i as int)).dom(),
            ),
            was_model == members_model(was@),
        decreases sent.len() - i,
    {
        proof {
            crate::json::lemma_members_push(sent@.subrange(0, i as int), sent@[i as int].0, sent@[i as int].1);
            assert(sent@.subrange(0, i as int).push(sent@[i as int]) =~= sent@.subrange(0, i + 1));
            assert(members_model(sent@.subrange(0, i + 1)).dom() =~= members_model(sent@.subrange(0, i as int)).dom().insert(sent@[i as int].0@));
            lemma_restore_more(at_entry, was_model, members_model(sent@.subrange(0, i as int)).dom(), sent@[i as int].0@);
        }
        restore_key(item, was, sent[i].0.as_str());
        i = i + 1;
    }
    assert(sent@.subrange(0, sent.len() as int) =~= sent@);
    proof {
        lemma_restore_more(at_entry, was_model, members_model(sent@).dom(), "checkedDateTime"@);
    }
    restore_key(item, was, "checkedDateTime");
}

/// Take a child operation's change back out of `current`, the task's JSON
/// now, from `before`, its JSON when the operation was queued: only that
/// child, so later changes to others stay.
pub fn revert_child(current: &Members, payload: &Json, before: &Members) -> (reverted: Members)
    ensures
        members_model(reverted@) == revert_child_spec(
            members_model(current@),
            payload.model(),
            members_model(before@),
        ),
{
    let mut reverted = copy_members(current);
    let collection = match payload.str_field("collection") {
        Some(c) => c,
        None => return reverted,
    };
    let verb = match ChildVerb::of(payload) {
        Some(v) => v,
        None => return reverted,
    };
    let id = match payload.str_field("id") {
        Some(i) => i,
        None => return reverted,
    };
    let now = children(current, collection);
    let at = position(now, id);
    let mut items = copy_items(now);
    let was = find_child(before, collection, id);
    let ghost body = object_or_empty(field(payload.model(), "body"@));
    let ghost was_items = children_of(members_model(before@), collection@);
    proof {
        crate::json::lemma_items_len(now@);
        crate::json::lemma_items_len(items@);
        lemma_first_with_id_range(items_model(now@), id@);
        lemma_first_with_id_range(was_items, id@);
    }
    match verb {
        ChildVerb::Create => {
            items = drop_id(now, id);
        },
        ChildVerb::Update => {
            match (was, at) {
                (Some((_, Json::Object(was_members))), Some(k)) => {
                    let restored = match &items[k] {
                        Json::Object(m) => {
                            let mut item = copy_members(m);
                            restore_sent(&mut item, was_members, payload);
                            Some(item)
                        },
                        _ => None,
                    };
                    match restored {
                        Some(m) => {
                            proof {
                                crate::json::lemma_items_update(items@, k as int, Json::Object(m));
                            }
                            items.set(k, Json::Object(m));
                        },
                        None => {},
                    }
                },
                _ => {},
            }
        },
        ChildVerb::Delete => {
            match (was, at) {
                (Some((w, was_child)), None) => {
                    let place = if w < items.len() {
                        w
                    } else {
                        items.len()
                    };
                    let back = was_child.copy();
                    proof {
                        crate::json::lemma_items_insert(items@, place as int, back);
                    }
                    items.insert(place, back);
                },
                _ => {},
            }
        },
    }
    proof {
        assert(payload_parts(payload.model()) == Some((collection@, verb, id@, body)));
        assert(items_model(items@) == reverted_items(
            children_of(members_model(current@), collection@),
            was_items,
            verb,
            id@,
            body,
        ));
    }
    set_children(&mut reverted, collection, items);
    reverted
}

/// Give the child `from` Graph's fields for it (`created`, the POST's
/// answer, its new ID among them) over its own, keeping the rest of it.
pub fn rename_child(raw: &mut Members, collection: &str, from: &str, created: &Members)
    ensures
        members_model(final(raw)@) == rename_child_spec(
            members_model(old(raw)@),
            collection@,
            from@,
            members_model(created@),
        ),
{
    let current = children(raw, collection);
    let at = position(current, from);
    let mut items = copy_items(current);
    proof {
        crate::json::lemma_items_len(current@);
        crate::json::lemma_items_len(items@);
        lemma_first_with_id_range(items_model(current@), from@);
    }
    match at {
        Some(j) => {
            let merged = match &items[j] {
                Json::Object(m) => {
                    let mut merged = copy_members(m);
                    merge_fields(&mut merged, created);
                    Some(merged)
                },
                _ => None,
            };
            match merged {
                Some(m) => {
                    proof {
                        crate::json::lemma_items_update(items@, j as int, Json::Object(m));
                    }
                    items.set(j, Json::Object(m));
                },
                None => {},
            }
        },
        None => {},
    }
    set_children(raw, collection, items);
}

/// Whether `task` holds `collection` as the cache keeps it: attachments
/// as a list with `hasAttachments` saying whether it is empty; any other
/// collection left out when empty.
pub open spec fn cached_form(task: Map<Seq<char>, JsonV>, collection: Seq<char>) -> bool {
    if collection == "attachments"@ {
        &&& task.contains_key(collection)
        &&& task[collection] is Array
        &&& task.contains_key("hasAttachments"@)
        &&& task["hasAttachments"@] == JsonV::Bool(task[collection]->Array_0.len() > 0)
    } else {
        !task.contains_key(collection) || (task[collection] is Array
            && task[collection]->Array_0.len() > 0)
    }
}

/// Whether at most one of `items` has ID `id`.
pub open spec fn at_most_one(items: Seq<JsonV>, id: Seq<char>) -> bool {
    forall|i: int, j: int|
        0 <= i < items.len() && 0 <= j < items.len() && has_id(#[trigger] items[i], id) && has_id(
            #[trigger] items[j],
            id,
        ) ==> i == j
}

proof fn lemma_cached_form(task: Map<Seq<char>, JsonV>, collection: Seq<char>)
    requires
        cached_form(task, collection),
    ensures
        set_children_spec(task, collection, children_of(task, collection)) == task,
{
    reveal_strlit("attachments");
    reveal_strlit("hasAttachments");
    assert(set_children_spec(task, collection, children_of(task, collection)) =~= task);
}

proof fn lemma_children_of_set(
    task: Map<Seq<char>, JsonV>,
    collection: Seq<char>,
    items: Seq<JsonV>,
)
    ensures
        children_of(set_children_spec(task, collection, items), collection) == items,
{
}

proof fn lemma_set_set(
    task: Map<Seq<char>, JsonV>,
    collection: Seq<char>,
    a: Seq<JsonV>,
    b: Seq<JsonV>,
)
    ensures
        set_children_spec(set_children_spec(task, collection, a), collection, b)
            == set_children_spec(task, collection, b),
{
    reveal_strlit("attachments");
    reveal_strlit("hasAttachments");
    assert(set_children_spec(set_children_spec(task, collection, a), collection, b)
        =~= set_children_spec(task, collection, b));
}

/// With no child of that ID, dropping it changes nothing.
proof fn lemma_without_none(items: Seq<JsonV>, id: Seq<char>)
    requires
        first_with_id(items, id) < 0,
    ensures
        without_id(items, id) == items,
    decreases items.len(),
{
    if items.len() > 0 {
        lemma_without_none(items.drop_last(), id);
        assert(items.drop_last().push(items.last()) =~= items);
    }
}

/// After dropping a child's ID none is left with it.
proof fn lemma_without_gone(items: Seq<JsonV>, id: Seq<char>)
    ensures
        first_with_id(without_id(items, id), id) == -1,
    decreases items.len(),
{
    if items.len() > 0 {
        lemma_without_gone(items.drop_last(), id);
        let rest = without_id(items.drop_last(), id);
        if !has_id(items.last(), id) {
            assert(rest.push(items.last()).drop_last() =~= rest);
        }
    }
}

/// With exactly one child of that ID, dropping it removes that child.
proof fn lemma_without_one(items: Seq<JsonV>, id: Seq<char>, w: int)
    requires
        0 <= w < items.len(),
        has_id(items[w], id),
        at_most_one(items, id),
    ensures
        without_id(items, id) == items.remove(w),
    decreases items.len(),
{
    let n = items.len();
    if w == n - 1 {
        assert forall|j: int| 0 <= j < n - 1 implies !has_id(#[trigger] items.drop_last()[j], id) by {
            assert(items.drop_last()[j] == items[j]);
        }
        lemma_first_with_id_range(items.drop_last(), id);
        if first_with_id(items.drop_last(), id) >= 0 {
            let f = first_with_id(items.drop_last(), id);
            assert(items.drop_last()[f] == items[f]);
        }
        lemma_without_none(items.drop_last(), id);
        assert(items.remove(w) =~= items.drop_last());
    } else {
        assert(!has_id(items[n - 1], id));
        assert forall|i: int, j: int|
            0 <= i < n - 1 && 0 <= j < n - 1 && has_id(#[trigger] items.drop_last()[i], id)
                && has_id(#[trigger] items.drop_last()[j], id) implies i == j by {
            assert(items.drop_last()[i] == items[i]);
            assert(items.drop_last()[j] == items[j]);
        }
        assert(items.drop_last()[w] == items[w]);
        lemma_without_one(items.drop_last(), id, w);
        assert(items.drop_last().remove(w).push(items.last()) =~= items.remove(w));
    }
}

/// Writing a child with the ID where the first child with it was keeps it
/// the first.
proof fn lemma_first_update(items: Seq<JsonV>, id: Seq<char>, x: JsonV)
    requires
        first_with_id(items, id) >= 0,
        has_id(x, id),
    ensures
        first_with_id(items.update(first_with_id(items, id), x), id) == first_with_id(items, id),
{
    let j = first_with_id(items, id);
    let updated = items.update(j, x);
    lemma_first_with_id_range(items, id);
    lemma_first_with_id_range(updated, id);
    let f = first_with_id(updated, id);
    if f >= 0 && f < j {
        assert(updated[f] == items[f]);
    }
    if f < 0 || f > j {
        assert(updated[j] == x);
    }
}

/// Appending a child with the ID when none had it makes it the first.
proof fn lemma_first_push(items: Seq<JsonV>, id: Seq<char>, x: JsonV)
    requires
        first_with_id(items, id) < 0,
        has_id(x, id),
    ensures
        first_with_id(items.push(x), id) == items.len(),
{
    assert(items.push(x).drop_last() =~= items);
}

/// A merge that does not send `id` keeps the child's ID.
proof fn lemma_merge_keeps_id(m: Map<Seq<char>, JsonV>, body: Map<Seq<char>, JsonV>, id: Seq<char>)
    requires
        has_id(JsonV::Object(m), id),
        !body.contains_key("id"@),
    ensures
        has_id(JsonV::Object(merge_fields_spec(m, body)), id),
{
    reveal_strlit("id");
    reveal_strlit("checkedDateTime");
    assert("id"@ != "checkedDateTime"@) by {
        assert("id"@.len() != "checkedDateTime"@.len());
    }
}

/// Taking a child operation back out of what it made gives back the task
/// it was made on, provided the task held the collection as the cache
/// keeps it, a create's child was not there yet, a delete's child was
/// there at most once, and an update does not send an `id`.
pub proof fn law_revert_undoes_apply(before: Map<Seq<char>, JsonV>, payload: JsonV)
    requires
        payload_parts(payload) is Some,
        ({
            let (collection, verb, id, body) = payload_parts(payload)->Some_0;
            &&& cached_form(before, collection)
            &&& verb == ChildVerb::Create ==> first_with_id(children_of(before, collection), id) < 0
            &&& verb == ChildVerb::Update ==> !body.contains_key("id"@)
            &&& verb == ChildVerb::Delete ==> at_most_one(children_of(before, collection), id)
        }),
    ensures
        revert_child_spec(apply_child_spec(before, payload), payload, before) == before,
{
    let (c, verb, id, body) = payload_parts(payload)->Some_0;
    let items = children_of(before, c);
    let applied = applied_items(items, verb, id, body);
    let after = set_children_spec(before, c, applied);
    lemma_children_of_set(before, c, applied);
    let reverted = reverted_items(applied, items, verb, id, body);
    lemma_set_set(before, c, applied, reverted);
    lemma_first_with_id_range(items, id);
    let j = first_with_id(items, id);
    match verb {
        ChildVerb::Create => {
            let x = JsonV::Object(body.insert("id"@, JsonV::Str(id)));
            assert(has_id(x, id));
            assert(applied == items.push(x));
            assert(without_id(items.push(x), id) =~= without_id(items, id)) by {
                assert(items.push(x).drop_last() =~= items);
            }
            lemma_without_none(items, id);
        },
        ChildVerb::Update => {
            if j >= 0 {
                let m = items[j]->Object_0;
                let merged = merge_fields_spec(m, body);
                lemma_merge_keeps_id(m, body, id);
                lemma_first_update(items, id, JsonV::Object(merged));
                let restored = restore_keys(merged, m, sent_keys(body));
                assert(restored =~= m);
                assert(applied.update(j, JsonV::Object(restored)) =~= items);
            }
        },
        ChildVerb::Delete => {
            if j >= 0 {
                lemma_without_one(items, id, j);
                lemma_without_gone(items, id);
                assert(applied.insert(j, items[j]) =~= items);
            } else {
                lemma_without_none(items, id);
            }
        },
    }
    assert(reverted == items);
    lemma_cached_form(before, c);
}

/// Applying a child operation again changes nothing more: a create lands
/// once however often it is applied. This holds of every operation whose
/// update does not send an `id`.
pub proof fn law_apply_is_idempotent(raw: Map<Seq<char>, JsonV>, payload: JsonV)
    requires
        payload_parts(payload) matches Some((_, verb, _, body)) ==> (verb == ChildVerb::Update
            ==> !body.contains_key("id"@)),
    ensures
        apply_child_spec(apply_child_spec(raw, payload), payload) == apply_child_spec(
            raw,
            payload,
        ),
{
    if let Some((c, verb, id, body)) = payload_parts(payload) {
        let items = children_of(raw, c);
        let applied = applied_items(items, verb, id, body);
        lemma_children_of_set(raw, c, applied);
        let again = applied_items(applied, verb, id, body);
        lemma_set_set(raw, c, applied, again);
        lemma_first_with_id_range(items, id);
        let j = first_with_id(items, id);
        match verb {
            ChildVerb::Create => {
                let x = JsonV::Object(body.insert("id"@, JsonV::Str(id)));
                assert(has_id(x, id));
                if j >= 0 {
                    lemma_first_update(items, id, x);
                    assert(applied.update(j, x) =~= applied);
                } else {
                    lemma_first_push(items, id, x);
                    assert(applied.update(items.len() as int, x) =~= applied);
                }
            },
            ChildVerb::Update => {
                if j >= 0 {
                    let m = items[j]->Object_0;
                    let merged = merge_fields_spec(m, body);
                    lemma_merge_keeps_id(m, body, id);
                    lemma_first_update(items, id, JsonV::Object(merged));
                    assert(merge_fields_spec(merged, body) =~= merged);
                    assert(applied.update(j, JsonV::Object(merge_fields_spec(merged, body)))
                        =~= applied);
                }
            },
            ChildVerb::Delete => {
                lemma_without_gone(items, id);
                lemma_without_none(applied, id);
            },
        }
        assert(again == applied);
    }
}

/// Deleting the child a create made gives back the task the create was
/// made on, provided the task held the collection as the cache keeps it
/// and had no child with that ID.
pub proof fn law_delete_undoes_create(
    before: Map<Seq<char>, JsonV>,
    create: JsonV,
    delete: JsonV,
)
    requires
        payload_parts(create) matches Some((c, ChildVerb::Create, id, _)) && payload_parts(
            delete,
        ) matches Some((c2, ChildVerb::Delete, id2, _)) && c2 == c && id2 == id && cached_form(
            before,
            c,
        ) && first_with_id(children_of(before, c), id) < 0,
    ensures
        apply_child_spec(apply_child_spec(before, create), delete) == before,
{
    let (c, verb, id, body) = payload_parts(create)->Some_0;
    let items = children_of(before, c);
    let x = JsonV::Object(body.insert("id"@, JsonV::Str(id)));
    assert(has_id(x, id));
    let applied = items.push(x);
    lemma_children_of_set(before, c, applied);
    assert(without_id(items.push(x), id) =~= without_id(items, id)) by {
        assert(items.push(x).drop_last() =~= items);
    }
    lemma_without_none(items, id);
    lemma_set_set(before, c, applied, items);
    lemma_cached_form(before, c);
}

/// Writing over a child with the ID with another that has it leaves the
/// other children as they were.
proof fn lemma_without_update(items: Seq<JsonV>, id: Seq<char>, k: int, x: JsonV)
    requires
        0 <= k < items.len(),
        has_id(items[k], id),
        has_id(x, id),
    ensures
        without_id(items.update(k, x), id) == without_id(items, id),
    decreases items.len(),
{
    let updated = items.update(k, x);
    if k == items.len() - 1 {
        assert(updated.drop_last() =~= items.drop_last());
    } else {
        assert(updated.drop_last() =~= items.drop_last().update(k, x));
        lemma_without_update(items.drop_last(), id, k, x);
    }
}

/// Putting back a child with the ID leaves the other children as they
/// were.
proof fn lemma_without_insert(items: Seq<JsonV>, id: Seq<char>, at: int, x: JsonV)
    requires
        0 <= at <= items.len(),
        has_id(x, id),
    ensures
        without_id(items.insert(at, x), id) == without_id(items, id),
    decreases items.len(),
{
    let inserted = items.insert(at, x);
    if at == items.len() {
        assert(inserted.drop_last() =~= items);
    } else {
        assert(inserted.drop_last() =~= items.drop_last().insert(at, x));
        assert(inserted.last() == items.last());
        lemma_without_insert(items.drop_last(), id, at, x);
    }
}

/// Taking a child operation back touches only that child: the task's
/// other children in the collection are as they are now, later changes
/// to them kept. This holds of every operation whose update does not send
/// an `id`.
pub proof fn law_revert_keeps_other_children(
    current: Map<Seq<char>, JsonV>,
    payload: JsonV,
    before: Map<Seq<char>, JsonV>,
)
    requires
        payload_parts(payload) matches Some((_, verb, _, body)) ==> (verb == ChildVerb::Update
            ==> !body.contains_key("id"@)),
    ensures
        payload_parts(payload) matches Some((c, _, id, _)) ==> without_id(
            children_of(revert_child_spec(current, payload, before), c),
            id,
        ) == without_id(children_of(current, c), id),
{
    if let Some((c, verb, id, body)) = payload_parts(payload) {
        let items = children_of(current, c);
        let was_items = children_of(before, c);
        let reverted = reverted_items(items, was_items, verb, id, body);
        lemma_children_of_set(current, c, reverted);
        lemma_first_with_id_range(items, id);
        lemma_first_with_id_range(was_items, id);
        match verb {
            ChildVerb::Create => {
                lemma_without_gone(items, id);
                lemma_without_none(without_id(items, id), id);
            },
            ChildVerb::Update => {
                let w = first_with_id(was_items, id);
                let k = first_with_id(items, id);
                if w >= 0 && was_items[w] is Object && k >= 0 && items[k] is Object {
                    let restored = restore_keys(items[k]->Object_0, was_items[w]->Object_0, sent_keys(body));
                    reveal_strlit("id");
                    reveal_strlit("checkedDateTime");
                    assert("id"@ != "checkedDateTime"@) by {
                        assert("id"@.len() != "checkedDateTime"@.len());
                    }
                    assert(!sent_keys(body).contains("id"@));
                    assert(restored.contains_key("id"@) && restored["id"@] == items[k]->Object_0["id"@]);
                    assert(has_id(JsonV::Object(restored), id));
                    lemma_without_update(items, id, k, JsonV::Object(restored));
                }
            },
            ChildVerb::Delete => {
                let w = first_with_id(was_items, id);
                if w >= 0 && first_with_id(items, id) < 0 {
                    let at = if w < items.len() { w } else { items.len() as int };
                    lemma_without_insert(items, id, at, was_items[w]);
                }
            },
        }
    }
}

} // verus!
