//! What queueing an operation does to its task row at once, before Graph
//! has it, and what it keeps to roll back with; and what resolving one
//! restores.

use vstd::prelude::*;

use crate::children::{apply_child, apply_child_spec};
use crate::json::{copy_members, field, members_model, Json, JsonV, Members};
use crate::list_extension::{merge_extension, merge_extension_spec};
use crate::ops::{apply_body, apply_body_spec, OpKind};

verus! {

/// What a queued operation does to the task row now.
#[derive(Debug)]
pub enum LocalChange {
    /// A new task only ms-todo knows: no Graph ID yet.
    Insert { raw: Members, extension: Option<Json> },
    /// The task's JSON becomes `raw`, and it's live.
    Replace(Members),
    /// The payload's `body` goes over the task's JSON as it is when the
    /// operation is queued, which is also its rollback.
    Update,
    /// Tombstone the task; its JSON when queued is the rollback.
    Tombstone,
    /// The task shows in the list `to` at once; its JSON when queued is
    /// the rollback.
    Move { to: String },
    /// The payload's `body` goes over the task's extension (a null
    /// removing a field); the extension when queued is the rollback.
    Extension,
    /// The payload's child change goes into the task's JSON; its JSON when
    /// queued is the rollback.
    Child,
}

/// The write a local change makes to the task row.
#[derive(Debug)]
pub enum RowWrite {
    /// A new row, with this JSON and extension.
    Insert { raw: Members, extension: Option<Json> },
    /// The row's JSON becomes this, and it's live.
    Replace(Members),
    Tombstone,
    /// The row moves to the list `to`.
    Move { to: String },
    /// The row's extension becomes this (none when it's empty).
    Extension(Members),
}

/// A row write as the contracts read it.
pub enum RowWriteV {
    Insert(Map<Seq<char>, JsonV>, Option<JsonV>),
    Replace(Map<Seq<char>, JsonV>),
    Tombstone,
    Move(Seq<char>),
    Extension(Map<Seq<char>, JsonV>),
}

pub open spec fn write_view(w: RowWrite) -> RowWriteV {
    match w {
        RowWrite::Insert { raw, extension } => RowWriteV::Insert(
            members_model(raw@),
            match extension {
                Some(e) => Some(e.model()),
                None => None,
            },
        ),
        RowWrite::Replace(raw) => RowWriteV::Replace(members_model(raw@)),
        RowWrite::Tombstone => RowWriteV::Tombstone,
        RowWrite::Move { to } => RowWriteV::Move(to@),
        RowWrite::Extension(e) => RowWriteV::Extension(members_model(e@)),
    }
}

/// The extension fields a payload's `body` writes: its members when it's
/// an object.
pub open spec fn body_fields(payload: JsonV) -> Option<Map<Seq<char>, JsonV>> {
    match field(payload, "body"@) {
        JsonV::Object(m) => Some(m),
        _ => None,
    }
}

/// What queueing an operation with `payload` and the local change
/// `change` writes to a task whose JSON is `current` and whose extension
/// is `extension` (`{}` for none), and what it keeps to roll back with.
pub open spec fn local_change_spec(
    change: LocalChange,
    current: Map<Seq<char>, JsonV>,
    extension: Map<Seq<char>, JsonV>,
    payload: JsonV,
) -> (RowWriteV, Option<Map<Seq<char>, JsonV>>) {
    match change {
        LocalChange::Insert { raw, extension: e } => (
            RowWriteV::Insert(
                members_model(raw@),
                match e {
                    Some(x) => Some(x.model()),
                    None => None,
                },
            ),
            None,
        ),
        LocalChange::Replace(raw) => (RowWriteV::Replace(members_model(raw@)), None),
        LocalChange::Update => (
            RowWriteV::Replace(apply_body_spec(current, field(payload, "body"@))),
            Some(current),
        ),
        LocalChange::Tombstone => (RowWriteV::Tombstone, Some(current)),
        LocalChange::Move { to } => (RowWriteV::Move(to@), Some(current)),
        LocalChange::Extension => (
            RowWriteV::Extension(
                match body_fields(payload) {
                    Some(fields) => merge_extension_spec(extension, fields),
                    None => extension,
                },
            ),
            Some(extension),
        ),
        LocalChange::Child => (RowWriteV::Replace(apply_child_spec(current, payload)), Some(current)),
    }
}

/// What queueing an operation does to its task row now, and the rollback
/// it keeps: the task (or, for an extension write, its extension) as it
/// was when queued; none for an insert or a replace.
pub fn local_change(change: LocalChange, current: &Members, extension: &Members, payload: &Json) -> (r: (
    RowWrite,
    Option<Members>,
))
    ensures
        (
            write_view(r.0),
            match r.1 {
                Some(m) => Some(members_model(m@)),
                None => None,
            },
        ) == local_change_spec(change, members_model(current@), members_model(extension@), payload.model()),
{
    match change {
        LocalChange::Insert { raw, extension } => (RowWrite::Insert { raw, extension }, None),
        LocalChange::Replace(raw) => (RowWrite::Replace(raw), None),
        LocalChange::Update => {
            let mut raw = copy_members(current);
            let body = match payload {
                Json::Object(m) => crate::json::get(m, "body"),
                _ => None,
            };
            match body {
                Some(b) => apply_body(&mut raw, b),
                None => {
                    let null = Json::Null;
                    apply_body(&mut raw, &null);
                },
            }
            (RowWrite::Replace(raw), Some(copy_members(current)))
        },
        LocalChange::Tombstone => (RowWrite::Tombstone, Some(copy_members(current))),
        LocalChange::Move { to } => (RowWrite::Move { to }, Some(copy_members(current))),
        LocalChange::Extension => {
            let mut merged = copy_members(extension);
            let body = match payload {
                Json::Object(m) => crate::json::get(m, "body"),
                _ => None,
            };
            if let Some(Json::Object(fields)) = body {
                merge_extension(&mut merged, fields);
            }
            (RowWrite::Extension(merged), Some(copy_members(extension)))
        },
        LocalChange::Child => {
            let mut raw = copy_members(current);
            apply_child(&mut raw, payload);
            (RowWrite::Replace(raw), Some(copy_members(current)))
        },
    }
}

/// What a resolved operation does to its task row.
#[derive(Debug)]
pub enum Restore {
    Nothing,
    Tombstone,
    /// The task's JSON (or extension) becomes this, and it's live.
    Replace(Members),
    /// A move undone: the task is back in `list_local_id` as `raw`, with
    /// the Graph ID it had there, and it's live.
    MoveBack { graph_id: Option<String>, list_local_id: String, raw: Members },
}

/// Where a restore goes.
#[derive(Debug)]
pub enum RestoreTarget {
    /// A list extension write's restore goes to the list's extension.
    ListExtension(Restore),
    /// A task extension write's replacement becomes the task's extension.
    TaskExtension(Members),
    /// Anything else goes to the task's row; a child write's restore is
    /// the task's JSON, as an update's is.
    Row(Restore),
    /// Nothing to do.
    Nothing,
}

/// Where the restore of an operation of kind `op` goes: a list extension
/// write's to the list, a task extension write's replacement to the
/// task's extension (its other restores do nothing), any other to the
/// task's row.
pub open spec fn restore_target_spec(op: OpKind, restore: Restore) -> RestoreTarget {
    if op == OpKind::Extension {
        RestoreTarget::ListExtension(restore)
    } else if op == OpKind::TaskExtension {
        match restore {
            Restore::Replace(e) => RestoreTarget::TaskExtension(e),
            _ => RestoreTarget::Nothing,
        }
    } else {
        match restore {
            Restore::Nothing => RestoreTarget::Nothing,
            r => RestoreTarget::Row(r),
        }
    }
}

/// Where the restore of an operation of kind `op` goes.
/// Where a rollback goes: a list extension write's restore, whatever it
/// is, to the list's extension; a task extension write's replacement to
/// the task's extension, its other restores nowhere; for every other kind
/// of write, a tombstone, a replacement or a move back goes to the task's
/// row as it is, and only nothing to restore goes nowhere.
pub proof fn law_a_rollback_reaches_the_task(op: OpKind, restore: Restore)
    ensures
        op == OpKind::Extension ==> restore_target_spec(op, restore) == RestoreTarget::ListExtension(restore),
        op == OpKind::TaskExtension ==> restore_target_spec(op, restore) == match restore {
            Restore::Replace(e) => RestoreTarget::TaskExtension(e),
            _ => RestoreTarget::Nothing,
        },
        op != OpKind::Extension && op != OpKind::TaskExtension ==> {
            &&& (restore is Tombstone || restore is Replace || restore is MoveBack) ==> restore_target_spec(op, restore)
                == RestoreTarget::Row(restore)
            &&& restore is Nothing ==> restore_target_spec(op, restore) is Nothing
        },
{
}

pub fn restore_target(op: OpKind, restore: Restore) -> (t: RestoreTarget)
    ensures
        t == restore_target_spec(op, restore),
{
    if op == OpKind::Extension {
        return RestoreTarget::ListExtension(restore);
    }
    if op == OpKind::TaskExtension {
        return match restore {
            Restore::Replace(e) => RestoreTarget::TaskExtension(e),
            _ => RestoreTarget::Nothing,
        };
    }
    match restore {
        Restore::Nothing => RestoreTarget::Nothing,
        r => RestoreTarget::Row(r),
    }
}

/// Queueing an update and rolling it back gives the task as it was: the
/// rollback an update keeps is the JSON it wrote over.
pub proof fn law_update_rolls_back_to_what_it_wrote_over(
    current: Map<Seq<char>, JsonV>,
    extension: Map<Seq<char>, JsonV>,
    payload: JsonV,
)
    ensures
        local_change_spec(LocalChange::Update, current, extension, payload).1 == Some(current),
        local_change_spec(LocalChange::Child, current, extension, payload).1 == Some(current),
        local_change_spec(LocalChange::Extension, current, extension, payload).1 == Some(extension),
{
}

} // verus!
