//! Applying a full enumeration of lists: what each list Graph returned
//! does to its cached row, which cached lists are gone, the columns a list
//! fills, and what the pass reports back.

use vstd::prelude::*;

use crate::json::{field, get, members_model, str_of, Json, JsonV, Members};
use crate::text::str_eq;

verus! {

/// What applying an enumeration of lists did.
#[derive(Debug, PartialEq, Eq)]
pub struct ListsApplied {
    /// Local IDs of the lists it added, changed or tombstoned.
    pub changed: Vec<String>,
    /// Graph IDs of the lists it tombstoned, with their tasks.
    pub removed: Vec<String>,
    /// Outbox operations failed because their list is gone.
    pub failed_ops: Vec<String>,
}

impl Default for ListsApplied {
    /// Nothing changed, removed or failed yet.
    fn default() -> (a: ListsApplied)
        ensures
            a.changed@.len() == 0,
            a.removed@.len() == 0,
            a.failed_ops@.len() == 0,
    {
        ListsApplied { changed: Vec::new(), removed: Vec::new(), failed_ops: Vec::new() }
    }
}

} // verus!

verus! {

/// A list row as a lists pass finds it cached.
pub struct CachedList {
    pub local_id: String,
    pub raw_json: String,
    pub extension_json: Option<String>,
    pub deleted: bool,
    pub local_rev: i64,
}

/// What a lists pass does with one list Graph returned.
#[derive(Debug, PartialEq, Eq)]
pub enum ListUpsert {
    /// The daemon wrote the row after the pass's read began: left alone.
    KeepLocal,
    /// Cached as Graph has it, and live: nothing to write.
    Unchanged,
    /// Written over the cached row with this local ID.
    Update(String),
    /// A list not cached yet: inserted under a new local ID.
    Insert,
}

/// Whether two optional texts are the same.
pub open spec fn same_text(a: Option<String>, b: Option<String>) -> bool {
    match (a, b) {
        (Some(x), Some(y)) => x@ == y@,
        (None, None) => true,
        _ => false,
    }
}

fn same_opt(a: &Option<String>, b: &Option<String>) -> (r: bool)
    ensures
        r == same_text(*a, *b),
{
    match (a, b) {
        (Some(x), Some(y)) => str_eq(x.as_str(), y.as_str()),
        (None, None) => true,
        _ => false,
    }
}

/// What a pass read at `rev` does with a list Graph returned as
/// `raw_json` with `extension_json`, cached as `existing`.
pub open spec fn list_upsert_spec(
    existing: Option<CachedList>,
    rev: i64,
    raw_json: Seq<char>,
    extension_json: Option<String>,
) -> ListUpsert {
    match existing {
        Some(c) => if c.local_rev > rev {
            ListUpsert::KeepLocal
        } else if c.raw_json@ == raw_json && same_text(c.extension_json, extension_json) && !c.deleted {
            ListUpsert::Unchanged
        } else {
            ListUpsert::Update(c.local_id)
        },
        None => ListUpsert::Insert,
    }
}

/// What a lists pass does with one list: rows the daemon wrote after the
/// pass's read are left alone, an unchanged live row is skipped, any
/// other is written over, and a list not cached is inserted.
pub fn list_upsert(
    existing: Option<CachedList>,
    rev: i64,
    raw_json: &str,
    extension_json: &Option<String>,
) -> (r: ListUpsert)
    ensures
        r == list_upsert_spec(existing, rev, raw_json@, *extension_json),
{
    match existing {
        Some(c) => if c.local_rev > rev {
            ListUpsert::KeepLocal
        } else if str_eq(c.raw_json.as_str(), raw_json) && same_opt(&c.extension_json, extension_json) && !c.deleted {
            ListUpsert::Unchanged
        } else {
            ListUpsert::Update(c.local_id)
        },
        None => ListUpsert::Insert,
    }
}

/// The live lists, `(local ID, Graph ID)`, whose Graph ID is not among
/// `seen`, in order.
pub open spec fn unseen_spec(live: Seq<(String, String)>, seen: Seq<String>) -> Seq<(String, String)>
    decreases live.len(),
{
    if live.len() == 0 {
        live
    } else {
        let before = unseen_spec(live.drop_last(), seen);
        if exists|j: int| 0 <= j < seen.len() && #[trigger] seen[j]@ == live.last().1@ {
            before
        } else {
            before.push(live.last())
        }
    }
}

/// The lists a full enumeration no longer has, which it tombstones.
pub fn unseen_lists(live: &Vec<(String, String)>, seen: &Vec<String>) -> (gone: Vec<(String, String)>)
    ensures
        gone@.map_values(|p: (String, String)| (p.0@, p.1@)) == unseen_spec(live@, seen@).map_values(
            |p: (String, String)| (p.0@, p.1@),
        ),
{
    let mut gone: Vec<(String, String)> = Vec::new();
    let mut i: usize = 0;
    while i < live.len()
        invariant
            i <= live.len(),
            gone@.map_values(|p: (String, String)| (p.0@, p.1@)) == unseen_spec(live@.subrange(0, i as int), seen@).map_values(
                |p: (String, String)| (p.0@, p.1@),
            ),
        decreases live.len() - i,
    {
        assert(live@.subrange(0, i + 1).drop_last() =~= live@.subrange(0, i as int));
        assert(live@.subrange(0, i + 1).last() == live@[i as int]);
        let mut found = false;
        let mut j: usize = 0;
        while j < seen.len()
            invariant
                i < live.len(),
                j <= seen.len(),
                found == exists|k: int| 0 <= k < j && #[trigger] seen@[k]@ == live@[i as int].1@,
            decreases seen.len() - j,
        {
            if str_eq(seen[j].as_str(), live[i].1.as_str()) {
                found = true;
            }
            j = j + 1;
        }
        if !found {
            let ghost before = gone@.map_values(|p: (String, String)| (p.0@, p.1@));
            gone.push((live[i].0.clone(), live[i].1.clone()));
            assert(gone@.map_values(|p: (String, String)| (p.0@, p.1@)) =~= before.push((live@[i as int].0@, live@[i as int].1@)));
        }
        i = i + 1;
    }
    assert(live@.subrange(0, live.len() as int) =~= live@);
    gone
}

} // verus!

verus! {

/// The columns a Graph list fills next to its JSON.
#[derive(Clone, Debug, PartialEq, Eq)]
pub struct ListColumns {
    pub display_name: String,
    pub wellknown_list_name: Option<String>,
    pub is_owner: bool,
    pub is_shared: bool,
    pub etag: Option<String>,
}

pub open spec fn opt_view(o: Option<String>) -> Option<Seq<char>> {
    match o {
        Some(s) => Some(s@),
        None => None,
    }
}

/// The text at `key` of the entity, if it is a string.
pub(crate) fn text_of(entity: &Members, key: &str) -> (r: Option<String>)
    ensures
        opt_view(r) == str_of(field(JsonV::Object(members_model(entity@)), key@)),
{
    match get(entity, key) {
        Some(v) => match v.as_str() {
            Some(s) => Some(s.to_owned()),
            None => None,
        },
        None => None,
    }
}

/// Whether the value at `key` of the entity is `true`.
pub(crate) fn flag_of(entity: &Members, key: &str) -> (b: bool)
    ensures
        b == (field(JsonV::Object(members_model(entity@)), key@) == JsonV::Bool(true)),
{
    match get(entity, key) {
        Some(Json::Bool(b)) => *b,
        _ => false,
    }
}

impl ListColumns {
    /// A Graph list's columns: its name (empty when missing), its
    /// well-known name, whether it's the user's own and shared, and its
    /// etag.
    pub fn of(list: &Members) -> (c: ListColumns)
        ensures
            ({
                let e = JsonV::Object(members_model(list@));
                &&& c.display_name@ == (match str_of(field(e, "displayName"@)) {
                    Some(t) => t,
                    None => Seq::empty(),
                })
                &&& opt_view(c.wellknown_list_name) == str_of(field(e, "wellknownListName"@))
                &&& c.is_owner == (field(e, "isOwner"@) == JsonV::Bool(true))
                &&& c.is_shared == (field(e, "isShared"@) == JsonV::Bool(true))
                &&& opt_view(c.etag) == str_of(field(e, "@odata.etag"@))
            }),
    {
        ListColumns {
            display_name: match text_of(list, "displayName") {
                Some(t) => t,
                None => String::new(),
            },
            wellknown_list_name: text_of(list, "wellknownListName"),
            is_owner: flag_of(list, "isOwner"),
            is_shared: flag_of(list, "isShared"),
            etag: text_of(list, "@odata.etag"),
        }
    }
}

} // verus!
