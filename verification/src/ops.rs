//! The outbox's vocabulary: what an operation sends and which state it is
//! in, each stored as a fixed word; and the rows of the outbox, the lists
//! and the tasks as read back from the text the database stores.

use vstd::prelude::*;

use crate::json::{
    Json, JsonV, Members, field, get, insert, items_model, json_text, lemma_items_push, lemma_members_push,
    members_model, parse_json, strings_of,
};
use crate::text::{chars_of, concat, debug_quoted, debug_str, str_eq, string_of_range};

verus! {

/// What goes wrong in the store that the caller can act on.
pub enum StoreError {
    /// The database has a migration this build doesn't know: a newer
    /// ms-todo upgraded it.
    NewerDatabase,
    /// A row in the local database isn't valid.
    Corrupt(String),
    Invalid(String),
    /// A search query FTS5 can't read: the user's input, not the store.
    InvalidQuery(String),
}


/// What each error says.
pub open spec fn store_error_text(e: StoreError) -> Seq<char> {
    match e {
        StoreError::NewerDatabase => "this database was upgraded by a newer ms-todo; install the latest version"@,
        StoreError::Corrupt(m) => "a row in the local database isn't valid: "@ + m@,
        StoreError::Invalid(m) => m@,
        StoreError::InvalidQuery(m) => m@,
    }
}

impl StoreError {
    /// The error as it is shown.
    pub fn describe(&self) -> (s: String)
        ensures
            s@ == store_error_text(*self),
    {
        match self {
            StoreError::NewerDatabase => "this database was upgraded by a newer ms-todo; install the latest version".to_owned(),
            StoreError::Corrupt(m) => concat("a row in the local database isn't valid: ", m.as_str()),
            StoreError::Invalid(m) => m.clone(),
            StoreError::InvalidQuery(m) => m.clone(),
        }
    }
}

/// What an operation sends.
#[derive(Clone, Copy, Debug, PartialEq, Eq, Structural)]
pub enum OpKind {
    /// A POST that makes the task.
    Create,
    /// A PATCH of some of its fields.
    Update,
    Delete,
    /// A change to some fields of a list's extension (its folder and
    /// order).
    Extension,
    /// A move to another list.
    Move,
    /// A change to some fields of a task's extension (My Day).
    TaskExtension,
    /// A write to one of the task's children, a step or its link.
    Child,
    /// A list made, or made again.
    ListCreate,
    /// A list renamed.
    ListUpdate,
    /// A list deleted.
    ListDelete,
}

/// The word each kind is stored as.
pub open spec fn op_kind_name(kind: OpKind) -> Seq<char> {
    match kind {
        OpKind::Create => "create"@,
        OpKind::Update => "update"@,
        OpKind::Delete => "delete"@,
        OpKind::Extension => "extension"@,
        OpKind::Move => "move"@,
        OpKind::TaskExtension => "task_extension"@,
        OpKind::Child => "child"@,
        OpKind::ListCreate => "list_create"@,
        OpKind::ListUpdate => "list_update"@,
        OpKind::ListDelete => "list_delete"@,
    }
}

/// Whether some kind is stored as `word`.
pub open spec fn is_op_kind_name(word: Seq<char>) -> bool {
    exists|kind: OpKind| op_kind_name(kind) == word
}

impl OpKind {
    pub fn as_str(self) -> (s: &'static str)
        ensures
            s@ == op_kind_name(self),
    {
        match self {
            OpKind::Create => "create",
            OpKind::Update => "update",
            OpKind::Delete => "delete",
            OpKind::Extension => "extension",
            OpKind::Move => "move",
            OpKind::TaskExtension => "task_extension",
            OpKind::Child => "child",
            OpKind::ListCreate => "list_create",
            OpKind::ListUpdate => "list_update",
            OpKind::ListDelete => "list_delete",
        }
    }

    /// The kind stored as `value`; any other word means the row is
    /// corrupt.
    pub fn parse(value: &str) -> (r: Result<OpKind, StoreError>)
        ensures
            match r {
                Ok(kind) => op_kind_name(kind) == value@,
                Err(StoreError::Corrupt(message)) => !is_op_kind_name(value@) && message@
                    == "unknown outbox op "@ + debug_quoted(value@),
                Err(_) => false,
            },
    {
        let all = [
            OpKind::Create,
            OpKind::Update,
            OpKind::Delete,
            OpKind::Extension,
            OpKind::Move,
            OpKind::TaskExtension,
            OpKind::Child,
            OpKind::ListCreate,
            OpKind::ListUpdate,
            OpKind::ListDelete,
        ];
        let mut i: usize = 0;
        while i < 10
            invariant
                all@ == seq![
                    OpKind::Create,
                    OpKind::Update,
                    OpKind::Delete,
                    OpKind::Extension,
                    OpKind::Move,
                    OpKind::TaskExtension,
                    OpKind::Child,
                    OpKind::ListCreate,
                    OpKind::ListUpdate,
                    OpKind::ListDelete,
                ],
                i <= 10,
                forall|j: int| 0 <= j < i ==> op_kind_name(#[trigger] all@[j]) != value@,
            decreases 10 - i,
        {
            let kind = all[i];
            if str_eq(kind.as_str(), value) {
                return Ok(kind);
            }
            i = i + 1;
        }
        proof {
            assert forall|kind: OpKind| op_kind_name(kind) != value@ by {
                let j: int = match kind {
                    OpKind::Create => 0,
                    OpKind::Update => 1,
                    OpKind::Delete => 2,
                    OpKind::Extension => 3,
                    OpKind::Move => 4,
                    OpKind::TaskExtension => 5,
                    OpKind::Child => 6,
                    OpKind::ListCreate => 7,
                    OpKind::ListUpdate => 8,
                    OpKind::ListDelete => 9,
                };
                assert(all@[j] == kind);
            }
        }
        Err(StoreError::Corrupt(concat("unknown outbox op ", &debug_str(value))))
    }
}

/// Where an operation is in its life.
#[derive(Clone, Copy, Debug, PartialEq, Eq, Hash, Structural)]
pub enum OpState {
    Pending,
    Inflight,
    Unknown,
    Failed,
    Done,
}

/// The word each state is stored as.
pub open spec fn op_state_name(state: OpState) -> Seq<char> {
    match state {
        OpState::Pending => "pending"@,
        OpState::Inflight => "inflight"@,
        OpState::Unknown => "unknown"@,
        OpState::Failed => "failed"@,
        OpState::Done => "done"@,
    }
}

/// Whether some state is stored as `word`.
pub open spec fn is_op_state_name(word: Seq<char>) -> bool {
    exists|state: OpState| op_state_name(state) == word
}

impl OpState {
    pub fn as_str(self) -> (s: &'static str)
        ensures
            s@ == op_state_name(self),
    {
        match self {
            OpState::Pending => "pending",
            OpState::Inflight => "inflight",
            OpState::Unknown => "unknown",
            OpState::Failed => "failed",
            OpState::Done => "done",
        }
    }

    /// The state stored as `value`; any other word means the row is
    /// corrupt.
    pub fn parse(value: &str) -> (r: Result<OpState, StoreError>)
        ensures
            match r {
                Ok(state) => op_state_name(state) == value@,
                Err(StoreError::Corrupt(message)) => !is_op_state_name(value@) && message@
                    == "unknown outbox state "@ + debug_quoted(value@),
                Err(_) => false,
            },
    {
        let all = [OpState::Pending, OpState::Inflight, OpState::Unknown, OpState::Failed, OpState::Done];
        let mut i: usize = 0;
        while i < 5
            invariant
                all@ == seq![OpState::Pending, OpState::Inflight, OpState::Unknown, OpState::Failed, OpState::Done],
                i <= 5,
                forall|j: int| 0 <= j < i ==> op_state_name(#[trigger] all@[j]) != value@,
            decreases 5 - i,
        {
            let state = all[i];
            if str_eq(state.as_str(), value) {
                return Ok(state);
            }
            i = i + 1;
        }
        proof {
            assert forall|state: OpState| op_state_name(state) != value@ by {
                let j: int = match state {
                    OpState::Pending => 0,
                    OpState::Inflight => 1,
                    OpState::Unknown => 2,
                    OpState::Failed => 3,
                    OpState::Done => 4,
                };
                assert(all@[j] == state);
            }
        }
        Err(StoreError::Corrupt(concat("unknown outbox state ", &debug_str(value))))
    }
}

/// Parsing a kind's own word gives the kind back.
pub proof fn lemma_op_kind_round_trip(kind: OpKind, parsed: OpKind)
    requires
        op_kind_name(parsed) == op_kind_name(kind),
    ensures
        parsed == kind,
{
    reveal_strlit("create");
    reveal_strlit("update");
    reveal_strlit("delete");
    reveal_strlit("extension");
    reveal_strlit("move");
    reveal_strlit("task_extension");
    reveal_strlit("child");
    reveal_strlit("list_create");
    reveal_strlit("list_update");
    reveal_strlit("list_delete");
    let (a, b) = (op_kind_name(parsed), op_kind_name(kind));
    assert(a.len() == b.len() && a[0] == b[0]);
    if a.len() == 11 {
        assert(a[5] == b[5]);
    }
}

/// Parsing a state's own word gives the state back.
pub proof fn lemma_op_state_round_trip(state: OpState, parsed: OpState)
    requires
        op_state_name(parsed) == op_state_name(state),
    ensures
        parsed == state,
{
    reveal_strlit("pending");
    reveal_strlit("inflight");
    reveal_strlit("unknown");
    reveal_strlit("failed");
    reveal_strlit("done");
    let (a, b) = (op_state_name(parsed), op_state_name(state));
    assert(a.len() == b.len() && a[0] == b[0]);
}

} // verus!

verus! {

/// `raw` with the fields `body` sends, as a PATCH makes them; an
/// `extensions` field is not the task's and is left out. A body that is
/// not an object sends nothing.
pub open spec fn apply_body_spec(raw: Map<Seq<char>, JsonV>, body: JsonV) -> Map<Seq<char>, JsonV> {
    match body {
        JsonV::Object(fields) => raw.union_prefer_right(fields.remove("extensions"@)),
        _ => raw,
    }
}

/// Make a PATCH body's change to a task's JSON.
pub fn apply_body(raw: &mut Members, body: &Json)
    ensures
        members_model(final(raw)@) == apply_body_spec(members_model(old(raw)@), body.model()),
{
    if let Json::Object(fields) = body {
        let ghost at_entry = members_model(raw@);
        let mut i: usize = 0;
        while i < fields.len()
            invariant
                i <= fields.len(),
                members_model(raw@) == at_entry.union_prefer_right(
                    members_model(fields@.subrange(0, i as int)).remove("extensions"@),
                ),
            decreases fields.len() - i,
        {
            let ghost before = members_model(raw@);
            proof {
                lemma_members_push(fields@.subrange(0, i as int), fields@[i as int].0, fields@[i as int].1);
                assert(fields@.subrange(0, i as int).push(fields@[i as int]) =~= fields@.subrange(0, i + 1));
            }
            if !str_eq(fields[i].0.as_str(), "extensions") {
                insert(raw, fields[i].0.clone(), fields[i].1.copy());
                assert(members_model(raw@) =~= at_entry.union_prefer_right(
                    members_model(fields@.subrange(0, i + 1)).remove("extensions"@),
                ));
            } else {
                assert(members_model(raw@) =~= at_entry.union_prefer_right(
                    members_model(fields@.subrange(0, i + 1)).remove("extensions"@),
                ));
            }
            i = i + 1;
        }
        assert(fields@.subrange(0, fields.len() as int) =~= fields@);
    }
}

} // verus!

verus! {

/// The columns an outbox row is read with, the task's title or the
/// list's name last.
pub const OP_COLUMNS: &'static str = "o.op_id, o.seq, o.command_id, o.created_at, o.entity_local_id, o.list_local_id, o.op, o.action, o.payload_json, o.depends_on_op_id, o.undoes_command_id, o.attempts, o.next_attempt_at, o.state, o.last_error_kind, o.last_error, o.rollback_json, o.sent_at, o.unknown_since, o.note, o.finished_at, o.progress_json, COALESCE(t.title, l.display_name) AS title";

/// Where outbox rows are read from: each with its task, or its list.
pub const FROM_OUTBOX: &'static str = "FROM outbox o LEFT JOIN tasks t ON t.local_id = o.entity_local_id LEFT JOIN lists l ON l.local_id = o.entity_local_id AND o.entity_kind = 'list'";

/// The query for the outbox rows that meet `condition`.
pub fn ops_sql(condition: &str) -> (sql: String)
    ensures
        sql@ == "SELECT "@ + OP_COLUMNS@ + " "@ + FROM_OUTBOX@ + " WHERE "@ + condition@,
{
    let a = concat("SELECT ", OP_COLUMNS);
    let b = concat(a.as_str(), " ");
    let c = concat(b.as_str(), FROM_OUTBOX);
    let d = concat(c.as_str(), " WHERE ");
    concat(d.as_str(), condition)
}

} // verus!

verus! {

/// What a note starts with when an operation was done without sending
/// anything.
pub const SKIPPED_NOTE: &'static str = "skipped:";

/// How long an `unknown` operation is looked for before it's flagged for
/// the user, in seconds.
pub const UNKNOWN_LOOKUP_SECS: i64 = 24 * 60 * 60;

/// One queued operation.
pub struct OutboxRow {
    pub op_id: String,
    pub seq: i64,
    pub command_id: String,
    pub created_at: i64,
    pub entity_local_id: String,
    pub list_local_id: String,
    pub op: OpKind,
    pub action: String,
    pub payload: Json,
    pub depends_on: Option<String>,
    pub undoes: Option<String>,
    pub attempts: i64,
    pub next_attempt_at: i64,
    pub state: OpState,
    /// The error's kind and its message.
    pub last_error: Option<(String, String)>,
    pub rollback: Option<Members>,
    pub sent_at: Option<i64>,
    pub unknown_since: Option<i64>,
    pub note: Option<String>,
    pub finished_at: Option<i64>,
    /// A move's steps so far, as the daemon saved them.
    pub progress: Option<Json>,
    /// The task's title as cached.
    pub title: Option<String>,
}

/// An array's items, or none for any other value.
pub open spec fn array_or_empty(value: JsonV) -> Seq<JsonV> {
    match value {
        JsonV::Array(items) => items,
        _ => Seq::empty(),
    }
}

/// Whether `s` starts with `prefix`.
pub open spec fn starts_with(s: Seq<char>, prefix: Seq<char>) -> bool {
    s.len() >= prefix.len() && s.subrange(0, prefix.len() as int) == prefix
}

impl OutboxRow {
    /// Whether a move paused where no lookup can find the answer.
    pub open spec fn needs_user_spec(&self) -> bool {
        match self.progress {
            Some(p) => field(p.model(), "needs_user"@) == JsonV::Bool(true),
            None => false,
        }
    }

    /// The Graph JSON it sends.
    pub fn body(&self) -> (b: Json)
        ensures
            b.model() == field(self.payload.model(), "body"@),
    {
        match &self.payload {
            Json::Object(m) => match get(m, "body") {
                Some(v) => v.copy(),
                None => Json::Null,
            },
            _ => Json::Null,
        }
    }

    /// For a child write: the fields of the body sent only because Graph
    /// resets what a PATCH leaves out, not changed by it.
    pub fn carried(&self) -> (keys: Vec<&str>)
        ensures
            Seq::new(keys@.len(), |i: int| keys@[i]@) == strings_of(
                array_or_empty(field(self.payload.model(), "carried"@)),
            ),
    {
        let mut keys: Vec<&str> = Vec::new();
        let items: &[Json] = match &self.payload {
            Json::Object(m) => match get(m, "carried") {
                Some(Json::Array(items)) => items.as_slice(),
                _ => {
                    let none: &[Json] = &[];
                    none
                },
            },
            _ => {
                let none: &[Json] = &[];
                none
            },
        };
        assert(items_model(items@) == array_or_empty(field(self.payload.model(), "carried"@)));
        let mut i: usize = 0;
        while i < items.len()
            invariant
                i <= items@.len(),
                Seq::new(keys@.len(), |j: int| keys@[j]@) == strings_of(
                    items_model(items@.subrange(0, i as int)),
                ),
            decreases items@.len() - i,
        {
            proof {
                lemma_items_push(items@.subrange(0, i as int), items@[i as int]);
                assert(items@.subrange(0, i as int).push(items@[i as int]) =~= items@.subrange(0, i + 1));
                assert(items_model(items@.subrange(0, i + 1)).drop_last() =~= items_model(items@.subrange(0, i as int)));
            }
            match &items[i] {
                Json::Str(s) => {
                    let ghost prior = keys@;
                    keys.push(s.as_str());
                    assert(Seq::new(keys@.len(), |j: int| keys@[j]@) =~= Seq::new(prior.len(), |j: int| prior[j]@).push(s@));
                },
                _ => {},
            }
            i = i + 1;
        }
        assert(items@.subrange(0, items@.len() as int) =~= items@);
        keys
    }

    /// Whether it completes a recurring task, which is never resent after
    /// an ambiguous answer.
    pub fn is_recurring_completion(&self) -> (b: bool)
        ensures
            b == (field(self.payload.model(), "recurring"@) == JsonV::Bool(true)),
    {
        match &self.payload {
            Json::Object(m) => match get(m, "recurring") {
                Some(Json::Bool(true)) => true,
                _ => false,
            },
            _ => false,
        }
    }

    /// A move paused where no lookup can find the answer.
    pub fn needs_user(&self) -> (b: bool)
        ensures
            b == self.needs_user_spec(),
    {
        match &self.progress {
            Some(Json::Object(m)) => match get(m, "needs_user") {
                Some(Json::Bool(true)) => true,
                _ => false,
            },
            _ => false,
        }
    }

    /// `unknown` for longer than the lookup window, or with nothing that
    /// could settle it but the user: a move paused so, or a child write,
    /// which carries no marker to find it by. The user decides.
    pub fn is_flagged(&self, now: i64) -> (b: bool)
        ensures
            b == (self.state == OpState::Unknown && ((self.unknown_since matches Some(since)
                && since <= now - UNKNOWN_LOOKUP_SECS) || self.needs_user_spec() || self.op
                == OpKind::Child)),
    {
        let waited = match self.unknown_since {
            Some(since) => (since as i128) + (UNKNOWN_LOOKUP_SECS as i128) <= now as i128,
            None => false,
        };
        self.state == OpState::Unknown && (waited || self.needs_user() || self.op == OpKind::Child)
    }

    /// Done without sending anything: its send-time precondition didn't
    /// hold, so it changed nothing.
    pub fn was_skipped(&self) -> (b: bool)
        ensures
            b == (self.state == OpState::Done && (self.note matches Some(note) && starts_with(
                note@,
                SKIPPED_NOTE@,
            ))),
    {
        if self.state != OpState::Done {
            return false;
        }
        match &self.note {
            Some(note) => {
                proof {
                    reveal_strlit("skipped:");
                }
                let n = note.as_str().unicode_len();
                n >= 8 && str_eq(note.as_str().substring_char(0, 8), SKIPPED_NOTE)
            },
            None => false,
        }
    }
}

} // verus!

verus! {

/// What a task is once Graph's answer to one operation is written with
/// the operations queued after it on top: its JSON, its extension, and
/// whether a later delete is pending and a later extension write changed
/// the extension.
pub open spec fn overlay_step(
    state: (Map<Seq<char>, JsonV>, Option<Map<Seq<char>, JsonV>>, bool, bool),
    op: (OpKind, JsonV),
) -> (Map<Seq<char>, JsonV>, Option<Map<Seq<char>, JsonV>>, bool, bool) {
    let (raw, extension, deleted, changed) = state;
    match op.0 {
        OpKind::Update => (apply_body_spec(raw, field(op.1, "body"@)), extension, deleted, changed),
        OpKind::Delete => (raw, extension, true, changed),
        OpKind::TaskExtension => match field(op.1, "body"@) {
            JsonV::Object(fields) => (
                raw,
                Some(
                    crate::list_extension::merge_extension_spec(
                        match extension {
                            Some(e) => e,
                            None => Map::empty(),
                        },
                        fields,
                    ),
                ),
                deleted,
                true,
            ),
            _ => state,
        },
        OpKind::Child => (crate::children::apply_child_spec(raw, op.1), extension, deleted, changed),
        _ => state,
    }
}

/// The state after each of `ops` in turn.
pub open spec fn overlay_spec(
    state: (Map<Seq<char>, JsonV>, Option<Map<Seq<char>, JsonV>>, bool, bool),
    ops: Seq<(OpKind, Json)>,
) -> (Map<Seq<char>, JsonV>, Option<Map<Seq<char>, JsonV>>, bool, bool)
    decreases ops.len(),
{
    if ops.len() == 0 {
        state
    } else {
        overlay_step(overlay_spec(state, ops.drop_last()), (ops.last().0, ops.last().1.model()))
    }
}

/// The model of an optional extension.
pub open spec fn extension_model(e: Option<Members>) -> Option<Map<Seq<char>, JsonV>> {
    match e {
        Some(m) => Some(members_model(m@)),
        None => None,
    }
}

/// Graph's answer to an operation, `raw` with the task's `extension`,
/// with the changes of the operations queued after it (`later`, in order)
/// on top: edits are merged in, child writes made, extension writes
/// merged into the extension (from none, an empty one). Returns whether a
/// later delete is pending and whether the extension was written.
pub fn overlay_later_ops(
    raw: &mut Members,
    extension: &mut Option<Members>,
    later: &Vec<(OpKind, Json)>,
) -> (r: (bool, bool))
    ensures
        overlay_spec(
            (members_model(old(raw)@), extension_model(*old(extension)), false, false),
            later@,
        ) == (members_model(final(raw)@), extension_model(*final(extension)), r.0, r.1),
{
    let ghost start = (members_model(raw@), extension_model(*extension), false, false);
    let mut deleted = false;
    let mut changed = false;
    let mut i: usize = 0;
    while i < later.len()
        invariant
            i <= later.len(),
            overlay_spec(start, later@.subrange(0, i as int)) == (
                members_model(raw@),
                extension_model(*extension),
                deleted,
                changed,
            ),
        decreases later.len() - i,
    {
        assert(later@.subrange(0, i + 1).drop_last() =~= later@.subrange(0, i as int));
        let (kind, payload) = (&later[i].0, &later[i].1);
        let body: Json = match payload {
            Json::Object(m) => match get(m, "body") {
                Some(b) => b.copy(),
                None => Json::Null,
            },
            _ => Json::Null,
        };
        match kind {
            OpKind::Update => {
                apply_body(raw, &body);
            },
            OpKind::Delete => {
                deleted = true;
            },
            OpKind::TaskExtension => {
                match &body {
                    Json::Object(fields) => {
                        let mut merged = match extension {
                            Some(e) => crate::json::copy_members(e),
                            None => {
                                let none: Members = Vec::new();
                                assert(members_model(none@) =~= Map::empty());
                                none
                            },
                        };
                        crate::list_extension::merge_extension(&mut merged, fields);
                        *extension = Some(merged);
                        changed = true;
                    },
                    _ => {},
                }
            },
            OpKind::Child => {
                crate::children::apply_child(raw, payload);
            },
            _ => {},
        }
        i = i + 1;
    }
    assert(later@.subrange(0, later.len() as int) =~= later@);
    (deleted, changed)
}

/// At most the first 80 characters of `s`.
pub open spec fn head80(s: Seq<char>) -> Seq<char> {
    if s.len() < 80 {
        s
    } else {
        s.take(80)
    }
}

/// Why the text `text` isn't a JSON object.
pub open spec fn not_an_object_text(text: Seq<char>) -> Seq<char> {
    "expected a JSON object, got "@ + head80(text)
}

/// A JSON object stored as text: its members, or why the row is corrupt
/// (any text that isn't an object, quoted up to its first 80 characters).
pub fn parse_object(text: &str) -> (r: Result<Members, StoreError>)
    ensures
        match r {
            Ok(m) => json_text(text@) == Ok::<JsonV, Seq<char>>(JsonV::Object(members_model(m@))),
            Err(StoreError::Corrupt(msg)) => !(json_text(text@) matches Ok(JsonV::Object(_)))
                && msg@ == not_an_object_text(text@),
            Err(_) => false,
        },
{
    match parse_json(text) {
        Ok(Json::Object(members)) => Ok(members),
        _ => {
            let chars = chars_of(text);
            let n = if chars.len() < 80 { chars.len() } else { 80 };
            let head = string_of_range(&chars, 0, n);
            assert(head@ =~= head80(text@));
            Err(StoreError::Corrupt(concat("expected a JSON object, got ", head.as_str())))
        },
    }
}

/// A JSON value stored as text, if there is one: the value, or the row is
/// corrupt with serde_json's message.
pub fn parse_optional(json: Option<String>) -> (r: Result<Option<Json>, StoreError>)
    ensures
        match json {
            None => r matches Ok(None),
            Some(t) => match r {
                Ok(Some(j)) => json_text(t@) == Ok::<JsonV, Seq<char>>(j.model()),
                Err(StoreError::Corrupt(m)) => json_text(t@) == Err::<JsonV, Seq<char>>(m@),
                _ => false,
            },
        },
{
    match json {
        None => Ok(None),
        Some(t) => match parse_json(t.as_str()) {
            Ok(j) => Ok(Some(j)),
            Err(m) => Err(StoreError::Corrupt(m)),
        },
    }
}

/// An outbox row as the database stores it: its words and JSON as text.
pub struct OpRecord {
    pub op_id: String,
    pub seq: i64,
    pub command_id: String,
    pub created_at: i64,
    pub entity_local_id: String,
    pub list_local_id: String,
    pub op: String,
    pub action: String,
    pub payload_json: String,
    pub depends_on_op_id: Option<String>,
    pub undoes_command_id: Option<String>,
    pub attempts: i64,
    pub next_attempt_at: i64,
    pub state: String,
    pub last_error_kind: Option<String>,
    pub last_error: Option<String>,
    pub rollback_json: Option<String>,
    pub sent_at: Option<i64>,
    pub unknown_since: Option<i64>,
    pub note: Option<String>,
    pub finished_at: Option<i64>,
    pub progress_json: Option<String>,
    pub title: Option<String>,
}

/// Why a stored record isn't a valid row, the first problem found in the
/// order the fields are read: its op, its payload, its state, its
/// rollback, its progress; `None` when it is valid.
pub open spec fn record_error(record: OpRecord) -> Option<Seq<char>> {
    if !is_op_kind_name(record.op@) {
        Some("unknown outbox op "@ + debug_quoted(record.op@))
    } else if json_text(record.payload_json@) is Err {
        Some(json_text(record.payload_json@)->Err_0)
    } else if !is_op_state_name(record.state@) {
        Some("unknown outbox state "@ + debug_quoted(record.state@))
    } else if record.rollback_json matches Some(t) && !(json_text(t@) matches Ok(JsonV::Object(_))) {
        Some(not_an_object_text(record.rollback_json->Some_0@))
    } else if record.progress_json matches Some(t) && json_text(t@) is Err {
        Some(json_text(record.progress_json->Some_0@)->Err_0)
    } else {
        None
    }
}

/// Whether `row` is what the valid `record` reads as.
pub open spec fn reads_as_row(record: OpRecord, row: OutboxRow) -> bool {
    &&& op_kind_name(row.op) == record.op@
    &&& json_text(record.payload_json@) == Ok::<JsonV, Seq<char>>(row.payload.model())
    &&& op_state_name(row.state) == record.state@
    &&& match record.rollback_json {
        None => row.rollback is None,
        Some(t) => row.rollback matches Some(m) && json_text(t@) == Ok::<JsonV, Seq<char>>(
            JsonV::Object(members_model(m@)),
        ),
    }
    &&& match record.progress_json {
        None => row.progress is None,
        Some(t) => row.progress matches Some(p) && json_text(t@) == Ok::<JsonV, Seq<char>>(p.model()),
    }
    &&& row.last_error == match (record.last_error_kind, record.last_error) {
        (Some(k), Some(m)) => Some((k, m)),
        _ => None,
    }
    &&& row.op_id == record.op_id && row.seq == record.seq && row.command_id == record.command_id
    &&& row.created_at == record.created_at && row.entity_local_id == record.entity_local_id
    &&& row.list_local_id == record.list_local_id && row.action == record.action
    &&& row.depends_on == record.depends_on_op_id && row.undoes == record.undoes_command_id
    &&& row.attempts == record.attempts && row.next_attempt_at == record.next_attempt_at
    &&& row.sent_at == record.sent_at && row.unknown_since == record.unknown_since
    &&& row.note == record.note && row.finished_at == record.finished_at && row.title == record.title
}

/// The row a stored record holds, or why the record is corrupt.
pub fn outbox_row(record: OpRecord) -> (r: Result<OutboxRow, StoreError>)
    ensures
        match r {
            Ok(row) => record_error(record) is None && reads_as_row(record, row),
            Err(StoreError::Corrupt(m)) => record_error(record) == Some(m@),
            Err(_) => false,
        },
{
    let op = match OpKind::parse(record.op.as_str()) {
        Ok(op) => op,
        Err(e) => return Err(e),
    };
    let payload = match parse_json(record.payload_json.as_str()) {
        Ok(j) => j,
        Err(m) => return Err(StoreError::Corrupt(m)),
    };
    let state = match OpState::parse(record.state.as_str()) {
        Ok(state) => state,
        Err(e) => return Err(e),
    };
    let rollback = match &record.rollback_json {
        None => None,
        Some(t) => match parse_object(t.as_str()) {
            Ok(m) => Some(m),
            Err(e) => return Err(e),
        },
    };
    let progress = match &record.progress_json {
        None => None,
        Some(t) => match parse_json(t.as_str()) {
            Ok(j) => Some(j),
            Err(m) => return Err(StoreError::Corrupt(m)),
        },
    };
    let last_error = match (record.last_error_kind, record.last_error) {
        (Some(k), Some(m)) => Some((k, m)),
        _ => None,
    };
    Ok(OutboxRow {
        op_id: record.op_id,
        seq: record.seq,
        command_id: record.command_id,
        created_at: record.created_at,
        entity_local_id: record.entity_local_id,
        list_local_id: record.list_local_id,
        op,
        action: record.action,
        payload,
        depends_on: record.depends_on_op_id,
        undoes: record.undoes_command_id,
        attempts: record.attempts,
        next_attempt_at: record.next_attempt_at,
        state,
        last_error,
        rollback,
        sent_at: record.sent_at,
        unknown_since: record.unknown_since,
        note: record.note,
        finished_at: record.finished_at,
        progress,
        title: record.title,
    })
}

/// Why a stored list or task isn't valid: its JSON isn't an object, or
/// its extension isn't JSON; `None` when both read.
pub open spec fn stored_error(raw_json: Seq<char>, extension_json: Option<String>) -> Option<Seq<char>> {
    if !(json_text(raw_json) matches Ok(JsonV::Object(_))) {
        Some(not_an_object_text(raw_json))
    } else if extension_json matches Some(t) && json_text(t@) is Err {
        Some(json_text(extension_json->Some_0@)->Err_0)
    } else {
        None
    }
}

/// Whether `raw` and `extension` are what the stored texts read as.
pub open spec fn reads_stored(raw_json: Seq<char>, extension_json: Option<String>, raw: Members, extension: Option<Json>) -> bool {
    &&& json_text(raw_json) == Ok::<JsonV, Seq<char>>(JsonV::Object(members_model(raw@)))
    &&& match extension_json {
        None => extension is None,
        Some(t) => extension matches Some(e) && json_text(t@) == Ok::<JsonV, Seq<char>>(e.model()),
    }
}

/// A stored entity's Graph JSON and extension, read from their texts.
fn read_stored(raw_json: &str, extension_json: Option<String>) -> (r: Result<(Members, Option<Json>), StoreError>)
    ensures
        match r {
            Ok((raw, extension)) => stored_error(raw_json@, extension_json) is None && reads_stored(
                raw_json@,
                extension_json,
                raw,
                extension,
            ),
            Err(StoreError::Corrupt(m)) => stored_error(raw_json@, extension_json) == Some(m@),
            Err(_) => false,
        },
{
    let raw = match parse_object(raw_json) {
        Ok(m) => m,
        Err(e) => return Err(e),
    };
    let ghost ext = extension_json;
    match parse_optional(extension_json) {
        Ok(extension) => {
            assert(ext is Some ==> extension is Some);
            Ok((raw, extension))
        },
        Err(e) => Err(e),
    }
}

/// A list as the store holds it.
pub struct ListRow {
    pub local_id: String,
    pub graph_id: Option<String>,
    pub display_name: String,
    pub wellknown_list_name: Option<String>,
    /// Graph's JSON as last seen, without the extension.
    pub raw: Members,
    /// Our open extension, when the list has one.
    pub extension: Option<Json>,
}

/// A list as the database stores it, its JSON as text.
pub struct ListRecord {
    pub local_id: String,
    pub graph_id: Option<String>,
    pub display_name: String,
    pub wellknown_list_name: Option<String>,
    pub raw_json: String,
    pub extension_json: Option<String>,
}

/// The list a stored record holds, or why it is corrupt.
pub fn list_row(record: ListRecord) -> (r: Result<ListRow, StoreError>)
    ensures
        match r {
            Ok(row) => {
                &&& stored_error(record.raw_json@, record.extension_json) is None
                &&& reads_stored(record.raw_json@, record.extension_json, row.raw, row.extension)
                &&& row.local_id == record.local_id && row.graph_id == record.graph_id
                &&& row.display_name == record.display_name && row.wellknown_list_name == record.wellknown_list_name
            },
            Err(StoreError::Corrupt(m)) => stored_error(record.raw_json@, record.extension_json) == Some(m@),
            Err(_) => false,
        },
{
    match read_stored(record.raw_json.as_str(), record.extension_json) {
        Ok((raw, extension)) => Ok(
            ListRow {
                local_id: record.local_id,
                graph_id: record.graph_id,
                display_name: record.display_name,
                wellknown_list_name: record.wellknown_list_name,
                raw,
                extension,
            },
        ),
        Err(e) => Err(e),
    }
}

/// A task as the store holds it.
pub struct TaskRow {
    pub local_id: String,
    pub graph_id: Option<String>,
    pub list_local_id: String,
    pub title: String,
    /// Graph's JSON as last seen, without the extension.
    pub raw: Members,
    /// Our open extension, when the task has one and it has been fetched.
    pub extension: Option<Json>,
}

/// A task as the database stores it, its JSON as text.
pub struct TaskRecord {
    pub local_id: String,
    pub graph_id: Option<String>,
    pub list_local_id: String,
    pub title: String,
    pub raw_json: String,
    pub extension_json: Option<String>,
}

/// The task a stored record holds, or why it is corrupt.
pub fn task_row(record: TaskRecord) -> (r: Result<TaskRow, StoreError>)
    ensures
        match r {
            Ok(row) => {
                &&& stored_error(record.raw_json@, record.extension_json) is None
                &&& reads_stored(record.raw_json@, record.extension_json, row.raw, row.extension)
                &&& row.local_id == record.local_id && row.graph_id == record.graph_id
                &&& row.list_local_id == record.list_local_id && row.title == record.title
            },
            Err(StoreError::Corrupt(m)) => stored_error(record.raw_json@, record.extension_json) == Some(m@),
            Err(_) => false,
        },
{
    match read_stored(record.raw_json.as_str(), record.extension_json) {
        Ok((raw, extension)) => Ok(
            TaskRow {
                local_id: record.local_id,
                graph_id: record.graph_id,
                list_local_id: record.list_local_id,
                title: record.title,
                raw,
                extension,
            },
        ),
        Err(e) => Err(e),
    }
}

} // verus!
