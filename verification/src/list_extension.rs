//! A list's extension: ms-todo's own fields on a list (its folder and its
//! order), kept beside Graph's JSON and changed field by field.

use vstd::prelude::*;

use crate::json::{Json, JsonV, Members, insert, lemma_members_push, members_model, remove};

verus! {

/// `extension` with `fields` written over it: a null field removes the
/// key, any other sets it.
pub open spec fn merge_extension_spec(
    extension: Map<Seq<char>, JsonV>,
    fields: Map<Seq<char>, JsonV>,
) -> Map<Seq<char>, JsonV> {
    Map::new(
        |k: Seq<char>|
            if fields.contains_key(k) {
                fields[k] != JsonV::Null
            } else {
                extension.contains_key(k)
            },
        |k: Seq<char>|
            if fields.contains_key(k) {
                fields[k]
            } else {
                extension[k]
            },
    )
}

/// Write `fields` over `extension`: null removes a key, any other value
/// sets it.
pub fn merge_extension(extension: &mut Members, fields: &Members)
    ensures
        members_model(final(extension)@) == merge_extension_spec(
            members_model(old(extension)@),
            members_model(fields@),
        ),
{
    let ghost at_entry = members_model(extension@);
    let mut i: usize = 0;
    while i < fields.len()
        invariant
            i <= fields.len(),
            members_model(extension@) == merge_extension_spec(
                at_entry,
                members_model(fields@.subrange(0, i as int)),
            ),
        decreases fields.len() - i,
    {
        proof {
            lemma_members_push(fields@.subrange(0, i as int), fields@[i as int].0, fields@[i as int].1);
            assert(fields@.subrange(0, i as int).push(fields@[i as int]) =~= fields@.subrange(0, i + 1));
        }
        match &fields[i].1 {
            Json::Null => {
                remove(extension, fields[i].0.as_str());
            },
            value => {
                insert(extension, fields[i].0.clone(), value.copy());
            },
        }
        assert(members_model(extension@) =~= merge_extension_spec(
            at_entry,
            members_model(fields@.subrange(0, i + 1)),
        ));
        i = i + 1;
    }
    assert(fields@.subrange(0, fields.len() as int) =~= fields@);
}

/// Writing the same fields twice leaves the extension as writing them
/// once does.
pub proof fn law_merge_extension_twice(
    extension: Map<Seq<char>, JsonV>,
    fields: Map<Seq<char>, JsonV>,
)
    ensures
        merge_extension_spec(merge_extension_spec(extension, fields), fields)
            == merge_extension_spec(extension, fields),
{
    assert(merge_extension_spec(merge_extension_spec(extension, fields), fields)
        =~= merge_extension_spec(extension, fields));
}

} // verus!
