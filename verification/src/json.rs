//! JSON as the cache stores a task: a value is null, a boolean, a number
//! (kept as its text, which the library only carries), a string, an array
//! or an object. An object is a list of members; when a key occurs twice
//! the later member is the one that counts, as a JSON map reads it.
//!
//! Every value has a model, [`JsonV`], in which an object is a `Map`: two
//! objects with the same members in another order have the same model.

use vstd::prelude::*;

use crate::text::str_eq;

verus! {

/// A JSON value.
#[derive(Debug)]
pub enum Json {
    Null,
    Bool(bool),
    /// A number, as the text it is written with.
    Number(String),
    Str(String),
    Array(Vec<Json>),
    Object(Vec<(String, Json)>),
}

/// What a JSON value means: arrays are sequences and objects are maps.
pub enum JsonV {
    Null,
    Bool(bool),
    Number(Seq<char>),
    Str(Seq<char>),
    Array(Seq<JsonV>),
    Object(Map<Seq<char>, JsonV>),
}

/// An object's members, as the cache holds a task or a child.
pub type Members = Vec<(String, Json)>;

impl Json {
    pub open spec fn model(self) -> JsonV
        decreases self, 0nat,
    {
        match self {
            Json::Null => JsonV::Null,
            Json::Bool(b) => JsonV::Bool(b),
            Json::Number(n) => JsonV::Number(n@),
            Json::Str(s) => JsonV::Str(s@),
            Json::Array(items) => JsonV::Array(items_model(items@)),
            Json::Object(members) => JsonV::Object(members_model(members@)),
        }
    }
}

/// The models of `items`, in order.
pub open spec fn items_model(items: Seq<Json>) -> Seq<JsonV>
    decreases items, 1nat,
{
    if items.len() == 0 {
        Seq::empty()
    } else {
        items_model(items.drop_last()).push(items.last().model())
    }
}

/// The map `members` make: each key to the value of its last member.
pub open spec fn members_model(members: Seq<(String, Json)>) -> Map<Seq<char>, JsonV>
    decreases members, 1nat,
{
    if members.len() == 0 {
        Map::empty()
    } else {
        members_model(members.drop_last()).insert(
            members.last().0@,
            members.last().1.model(),
        )
    }
}

/// Appending one value appends its model.
pub proof fn lemma_items_push(items: Seq<Json>, x: Json)
    ensures
        items_model(items.push(x)) == items_model(items).push(x.model()),
{
    assert(items.push(x).drop_last() =~= items);
}

/// Appending one member sets its key in the model.
pub proof fn lemma_members_push(members: Seq<(String, Json)>, key: String, value: Json)
    ensures
        members_model(members.push((key, value))) == members_model(members).insert(
            key@,
            value.model(),
        ),
{
    assert(members.push((key, value)).drop_last() =~= members);
}

/// A model has one item per value.
pub proof fn lemma_items_len(items: Seq<Json>)
    ensures
        items_model(items).len() == items.len(),
        forall|i: int| 0 <= i < items.len() ==> #[trigger] items_model(items)[i] == items[i].model(),
    decreases items.len(),
{
    if items.len() > 0 {
        lemma_items_len(items.drop_last());
    }
}

/// The model of a prefix is the prefix of the model.
pub proof fn lemma_items_prefix(items: Seq<Json>, n: int)
    requires
        0 <= n <= items.len(),
    ensures
        items_model(items.subrange(0, n)) == items_model(items).subrange(0, n),
{
    lemma_items_len(items);
    lemma_items_len(items.subrange(0, n));
    assert(items_model(items.subrange(0, n)) =~= items_model(items).subrange(0, n));
}

/// Writing one item writes its model.
pub proof fn lemma_items_update(items: Seq<Json>, i: int, x: Json)
    requires
        0 <= i < items.len(),
    ensures
        items_model(items.update(i, x)) == items_model(items).update(i, x.model()),
{
    lemma_items_len(items);
    lemma_items_len(items.update(i, x));
    assert(items_model(items.update(i, x)) =~= items_model(items).update(i, x.model()));
}

/// Inserting one item inserts its model.
pub proof fn lemma_items_insert(items: Seq<Json>, i: int, x: Json)
    requires
        0 <= i <= items.len(),
    ensures
        items_model(items.insert(i, x)) == items_model(items).insert(i, x.model()),
{
    lemma_items_len(items);
    lemma_items_len(items.insert(i, x));
    assert(items_model(items.insert(i, x)) =~= items_model(items).insert(i, x.model()));
}

impl Clone for Json {
    /// A copy, as [`Json::copy`] makes it.
    fn clone(&self) -> (c: Json)
        ensures
            c.model() == self.model(),
    {
        self.copy()
    }
}

impl Json {
    /// A copy of the value, with the same model.
    pub fn copy(&self) -> (c: Json)
        ensures
            c.model() == self.model(),
        decreases self,
    {
        match self {
            Json::Null => Json::Null,
            Json::Bool(b) => Json::Bool(*b),
            Json::Number(n) => Json::Number(n.clone()),
            Json::Str(s) => Json::Str(s.clone()),
            Json::Array(items) => {
                let mut out: Vec<Json> = Vec::new();
                let mut i: usize = 0;
                while i < items.len()
                    invariant
                        *self == Json::Array(*items),
                        i <= items.len(),
                        items_model(out@) == items_model(items@.subrange(0, i as int)),
                    decreases items.len() - i,
                {
                    proof {
                        assert(decreases_to!(*self => self->Array_0));
                        vstd::std_specs::vec::axiom_vec_index_decreases(*items, i as int);
                        assert(decreases_to!(*items => items[i as int]));
                        assert(decreases_to!(*self => items[i as int]));
                    }
                    let c = items[i].copy();
                    proof {
                        lemma_items_push(out@, c);
                        lemma_items_push(items@.subrange(0, i as int), items@[i as int]);
                        assert(items@.subrange(0, i as int).push(items@[i as int]) =~= items@.subrange(0, i + 1));
                    }
                    out.push(c);
                    i = i + 1;
                }
                assert(items@.subrange(0, items.len() as int) =~= items@);
                Json::Array(out)
            },
            Json::Object(members) => {
                let mut out: Vec<(String, Json)> = Vec::new();
                let mut i: usize = 0;
                while i < members.len()
                    invariant
                        *self == Json::Object(*members),
                        i <= members.len(),
                        members_model(out@) == members_model(members@.subrange(0, i as int)),
                    decreases members.len() - i,
                {
                    let key = members[i].0.clone();
                    proof {
                        assert(decreases_to!(*self => self->Object_0));
                        vstd::std_specs::vec::axiom_vec_index_decreases(*members, i as int);
                        assert(decreases_to!(*members => members[i as int]));
                        assert(decreases_to!(members[i as int] => members[i as int].1));
                        assert(decreases_to!(*self => members[i as int].1));
                    }
                    let value = members[i].1.copy();
                    proof {
                        lemma_members_push(out@, key, value);
                        lemma_members_push(members@.subrange(0, i as int), members@[i as int].0, members@[i as int].1);
                        assert(members@.subrange(0, i as int).push(members@[i as int]) =~= members@.subrange(0, i + 1));
                    }
                    out.push((key, value));
                    i = i + 1;
                }
                assert(members@.subrange(0, members.len() as int) =~= members@);
                Json::Object(out)
            },
        }
    }
}


/// Where the member that counts for `key` is: the last one with that key,
/// or -1 when there is none.
pub open spec fn key_index(members: Seq<(String, Json)>, key: Seq<char>) -> int
    decreases members.len(),
{
    if members.len() == 0 {
        -1
    } else if members.last().0@ == key {
        members.len() - 1
    } else {
        key_index(members.drop_last(), key)
    }
}

/// The model has `key` exactly when some member has it, and its value is
/// that of the member [`key_index`] points at.
pub proof fn lemma_key_index(members: Seq<(String, Json)>, key: Seq<char>)
    ensures
        -1 <= key_index(members, key) < members.len(),
        key_index(members, key) >= 0 ==> members[key_index(members, key)].0@ == key,
        members_model(members).contains_key(key) == (key_index(members, key) >= 0),
        key_index(members, key) >= 0 ==> members_model(members)[key]
            == members[key_index(members, key)].1.model(),
    decreases members.len(),
{
    if members.len() > 0 {
        lemma_key_index(members.drop_last(), key);
    }
}

/// Writing the member that counts for its key sets that key in the model.
pub proof fn lemma_members_update(members: Seq<(String, Json)>, i: int, key: String, value: Json)
    requires
        i == key_index(members, key@),
        i >= 0,
    ensures
        members_model(members.update(i, (key, value))) == members_model(members).insert(
            key@,
            value.model(),
        ),
    decreases members.len(),
{
    lemma_key_index(members, key@);
    let updated = members.update(i, (key, value));
    if i == members.len() - 1 {
        assert(updated.drop_last() =~= members.drop_last());
    } else {
        assert(updated.drop_last() =~= members.drop_last().update(i, (key, value)));
        lemma_members_update(members.drop_last(), i, key, value);
        assert(members_model(updated) =~= members_model(members).insert(key@, value.model()));
    }
}

/// The members whose key is not `key`, in order.
pub open spec fn without_key(members: Seq<(String, Json)>, key: Seq<char>) -> Seq<(String, Json)>
    decreases members.len(),
{
    if members.len() == 0 {
        members
    } else {
        let rest = without_key(members.drop_last(), key);
        if members.last().0@ != key {
            rest.push(members.last())
        } else {
            rest
        }
    }
}

/// Dropping every member with `key` drops the key from the model.
pub proof fn lemma_without_key(members: Seq<(String, Json)>, key: Seq<char>)
    ensures
        members_model(without_key(members, key)) == members_model(members).remove(key),
    decreases members.len(),
{
    if members.len() == 0 {
        assert(members_model(members).remove(key) =~= Map::empty());
    } else {
        let rest = without_key(members.drop_last(), key);
        let last = members.last();
        lemma_without_key(members.drop_last(), key);
        assert(members_model(rest) == members_model(members.drop_last()).remove(key));
        assert(members_model(members) == members_model(members.drop_last()).insert(last.0@, last.1.model()));
        if last.0@ != key {
            assert(without_key(members, key) == rest.push(last));
            lemma_members_push(rest, last.0, last.1);
            assert(members_model(rest.push(last)) == members_model(rest).insert(last.0@, last.1.model()));
        } else {
            assert(without_key(members, key) == rest);
        }
        assert(members_model(without_key(members, key)) =~= members_model(members).remove(key));
    }
}

/// Where the member that counts for `key` is, if any.
pub fn find_key(members: &Members, key: &str) -> (r: Option<usize>)
    ensures
        match r {
            Some(i) => i == key_index(members@, key@),
            None => key_index(members@, key@) == -1,
        },
{
    let mut found: Option<usize> = None;
    let mut i: usize = 0;
    while i < members.len()
        invariant
            i <= members.len(),
            match found {
                Some(j) => j == key_index(members@.subrange(0, i as int), key@),
                None => key_index(members@.subrange(0, i as int), key@) == -1,
            },
        decreases members.len() - i,
    {
        assert(members@.subrange(0, i + 1).drop_last() =~= members@.subrange(0, i as int));
        if str_eq(members[i].0.as_str(), key) {
            found = Some(i);
        }
        i = i + 1;
    }
    assert(members@.subrange(0, members.len() as int) =~= members@);
    found
}

/// The value `key` has in the object, if any.
pub fn get<'a>(members: &'a Members, key: &str) -> (r: Option<&'a Json>)
    ensures
        members_model(members@).contains_key(key@) == r is Some,
        r matches Some(v) ==> v.model() == members_model(members@)[key@],
{
    proof {
        lemma_key_index(members@, key@);
    }
    match find_key(members, key) {
        Some(i) => Some(&members[i].1),
        None => None,
    }
}

/// Set `key` to `value`: the member that counts for it is overwritten, or
/// a new member goes last.
pub fn insert(members: &mut Members, key: String, value: Json)
    ensures
        members_model(final(members)@) == members_model(old(members)@).insert(key@, value.model()),
{
    match find_key(members, key.as_str()) {
        Some(i) => {
            proof {
                lemma_key_index(members@, key@);
                lemma_members_update(members@, i as int, key, value);
            }
            members.set(i, (key, value));
        },
        None => {
            proof {
                lemma_members_push(members@, key, value);
            }
            members.push((key, value));
        },
    }
}

/// Drop every member with `key`.
pub fn remove(members: &mut Members, key: &str)
    ensures
        final(members)@ == without_key(old(members)@, key@),
        members_model(final(members)@) == members_model(old(members)@).remove(key@),
{
    let ghost at_entry = members@;
    let ghost n = members@.len();
    let ghost mut j: int = 0;
    let mut i: usize = 0;
    while i < members.len()
        invariant
            n == at_entry.len(),
            0 <= j <= n,
            i == without_key(at_entry.subrange(0, j), key@).len(),
            members@ == without_key(at_entry.subrange(0, j), key@) + at_entry.subrange(j, n as int),
        decreases members.len() - i,
    {
        let ghost before = members@;
        let ghost kept = without_key(at_entry.subrange(0, j), key@);
        proof {
            assert(at_entry.subrange(0, j + 1).drop_last() =~= at_entry.subrange(0, j));
            assert(at_entry.subrange(0, j + 1).last() == at_entry[j]);
            assert(before[i as int] == at_entry[j]);
        }
        if str_eq(members[i].0.as_str(), key) {
            members.remove(i);
            proof {
                assert(without_key(at_entry.subrange(0, j + 1), key@) == kept);
                assert(members@ =~= kept + at_entry.subrange(j + 1, n as int));
                j = j + 1;
            }
        } else {
            proof {
                assert(without_key(at_entry.subrange(0, j + 1), key@) == kept.push(at_entry[j]));
                assert(members@ =~= kept.push(at_entry[j]) + at_entry.subrange(j + 1, n as int));
                j = j + 1;
            }
            i = i + 1;
        }
    }
    proof {
        assert(at_entry.subrange(j, n as int).len() == 0);
        assert(at_entry.subrange(0, j) =~= at_entry);
        assert(members@ =~= without_key(at_entry, key@));
        lemma_without_key(at_entry, key@);
    }
}


/// `value[key]` as a JSON map reads it: the member's value, or null when
/// `value` is not an object or has no such member.
pub open spec fn field(value: JsonV, key: Seq<char>) -> JsonV {
    match value {
        JsonV::Object(m) => if m.contains_key(key) {
            m[key]
        } else {
            JsonV::Null
        },
        _ => JsonV::Null,
    }
}

/// The text of a string value.
pub open spec fn str_of(value: JsonV) -> Option<Seq<char>> {
    match value {
        JsonV::Str(s) => Some(s),
        _ => None,
    }
}

/// An object's map, or the empty map for any other value.
pub open spec fn object_or_empty(value: JsonV) -> Map<Seq<char>, JsonV> {
    match value {
        JsonV::Object(m) => m,
        _ => Map::empty(),
    }
}

impl Json {
    /// The object's members, if it is one.
    pub fn as_object(&self) -> (r: Option<&Members>)
        ensures
            r is Some == self.model() is Object,
            r matches Some(m) ==> self.model() == JsonV::Object(members_model(m@)),
    {
        match self {
            Json::Object(m) => Some(m),
            _ => None,
        }
    }

    /// The text of a string value.
    pub fn as_str(&self) -> (r: Option<&str>)
        ensures
            r is Some == self.model() is Str,
            r matches Some(s) ==> str_of(self.model()) == Some(s@),
    {
        match self {
            Json::Str(s) => Some(s.as_str()),
            _ => None,
        }
    }

    /// `self[key]` as a string, if it is an object with a string there.
    pub fn str_field(&self, key: &str) -> (r: Option<&str>)
        ensures
            r is Some == str_of(field(self.model(), key@)) is Some,
            r matches Some(s) ==> str_of(field(self.model(), key@)) == Some(s@),
    {
        match self {
            Json::Object(m) => match get(m, key) {
                Some(v) => v.as_str(),
                None => None,
            },
            _ => None,
        }
    }
}

/// Copies of `items`, in order.
pub fn copy_items(items: &[Json]) -> (out: Vec<Json>)
    ensures
        items_model(out@) == items_model(items@),
{
    let mut out: Vec<Json> = Vec::new();
    let mut i: usize = 0;
    while i < items.len()
        invariant
            i <= items@.len(),
            items_model(out@) == items_model(items@.subrange(0, i as int)),
        decreases items@.len() - i,
    {
        let c = items[i].copy();
        proof {
            lemma_items_push(out@, c);
            lemma_items_push(items@.subrange(0, i as int), items@[i as int]);
            assert(items@.subrange(0, i as int).push(items@[i as int]) =~= items@.subrange(0, i + 1));
        }
        out.push(c);
        i = i + 1;
    }
    assert(items@.subrange(0, items@.len() as int) =~= items@);
    out
}

/// Copies of `members`, in order.
pub fn copy_members(members: &Members) -> (out: Members)
    ensures
        members_model(out@) == members_model(members@),
{
    let mut out: Members = Vec::new();
    let mut i: usize = 0;
    while i < members.len()
        invariant
            i <= members.len(),
            members_model(out@) == members_model(members@.subrange(0, i as int)),
        decreases members.len() - i,
    {
        let key = members[i].0.clone();
        let value = members[i].1.copy();
        proof {
            lemma_members_push(out@, key, value);
            lemma_members_push(members@.subrange(0, i as int), members@[i as int].0, members@[i as int].1);
            assert(members@.subrange(0, i as int).push(members@[i as int]) =~= members@.subrange(0, i + 1));
        }
        out.push((key, value));
        i = i + 1;
    }
    assert(members@.subrange(0, members.len() as int) =~= members@);
    out
}

/// The strings among `items`, in order.
pub open spec fn strings_of(items: Seq<JsonV>) -> Seq<Seq<char>>
    decreases items.len(),
{
    if items.len() == 0 {
        Seq::empty()
    } else {
        match items.last() {
            JsonV::Str(s) => strings_of(items.drop_last()).push(s),
            _ => strings_of(items.drop_last()),
        }
    }
}

/// serde_json's value, carried from its parse to its conversion.
#[verifier::external_type_specification]
#[verifier::external_body]
pub struct ExValue(serde_json::Value);

/// What serde_json reads the text `text` as: the value, each number by the
/// text serde_json writes it back with; or the message of its error.
pub uninterp spec fn json_text(text: Seq<char>) -> Result<JsonV, Seq<char>>;

/// serde_json's value as the library holds it, variant for variant; an
/// object's members come in serde_json's map order. What this gives is
/// the value `parse_json` claims.
#[verifier::external_body]
fn json_of(value: serde_json::Value) -> Json {
    match value {
        serde_json::Value::Null => Json::Null,
        serde_json::Value::Bool(b) => Json::Bool(b),
        serde_json::Value::Number(n) => Json::Number(n.to_string()),
        serde_json::Value::String(s) => Json::Str(s),
        serde_json::Value::Array(items) => Json::Array(items.into_iter().map(json_of).collect()),
        serde_json::Value::Object(map) => Json::Object(map.into_iter().map(|(k, v)| (k, json_of(v))).collect()),
    }
}

/// `serde_json::from_str` into a value: what it reads `text` as is named,
/// `json_text`, not spelled out; the value comes back with that model, an
/// error with its message (`to_string`).
#[verifier::external_body]
pub(crate) fn parse_json(text: &str) -> (r: Result<Json, String>)
    ensures
        match r {
            Ok(j) => json_text(text@) == Ok::<JsonV, Seq<char>>(j.model()),
            Err(m) => json_text(text@) == Err::<JsonV, Seq<char>>(m@),
        },
{
    match serde_json::from_str::<serde_json::Value>(text) {
        Ok(value) => Ok(json_of(value)),
        Err(error) => Err(error.to_string()),
    }
}

} // verus!
