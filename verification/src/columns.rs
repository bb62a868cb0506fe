//! The columns a Graph task fills next to its JSON: its texts and flags as
//! Graph sends them, its reminder and completion times when Graph gave them
//! in UTC, and its due and start dates as Graph wrote them.

use vstd::prelude::*;

use crate::json::{Json, JsonV, Members, field, get, members_model, str_of};
use crate::lists::{flag_of, opt_view, text_of};
use crate::task::{GraphTime, eq_word_ignoring_case, is_word_ignoring_case, time_at, time_of, time_view};

verus! {

/// A task's columns.
#[derive(Debug)]
pub struct TaskColumns {
    pub title: String,
    pub body_content: Option<String>,
    pub body_content_type: Option<String>,
    pub status: String,
    pub importance: String,
    pub is_reminder_on: bool,
    /// `reminderDateTime`'s time, when its zone is UTC.
    pub reminder_at_utc: Option<String>,
    /// `dueDateTime`, whose day the caller reads in the local zone.
    pub due: Option<GraphTime>,
    /// `startDateTime`, read as `due` is.
    pub start: Option<GraphTime>,
    /// `completedDateTime`'s time, when its zone is UTC.
    pub completed_at_utc: Option<String>,
    /// The recurrence, when it is an object.
    pub recurrence: Option<Json>,
    /// The categories array, or an empty one.
    pub categories: Json,
    pub has_attachments: bool,
    pub created_at: Option<String>,
    pub last_modified_at: Option<String>,
    pub etag: Option<String>,
}

/// The text at `key`, or `default` when there is none.
pub open spec fn text_or(e: JsonV, key: Seq<char>, default: Seq<char>) -> Seq<char> {
    match str_of(field(e, key)) {
        Some(t) => t,
        None => default,
    }
}

/// The `dateTime` of the time at `key`, when its `timeZone` is UTC in any
/// case. Graph writes these in UTC unless asked for another zone, which is
/// never asked; a time in another zone stays in the task's JSON only.
pub open spec fn utc_time(e: JsonV, key: Seq<char>) -> Option<Seq<char>> {
    match time_at(e, key) {
        Some((at, zone)) => if is_word_ignoring_case(zone, "utc"@) {
            Some(at)
        } else {
            None
        },
        None => None,
    }
}

/// Whether `task` holds the columns of the Graph task `e`.
pub open spec fn columns_of(task: TaskColumns, e: JsonV) -> bool {
    let body = field(e, "body"@);
    let recurrence = field(e, "recurrence"@);
    let categories = field(e, "categories"@);
    &&& task.title@ == text_or(e, "title"@, Seq::empty())
    &&& opt_view(task.body_content) == str_of(field(body, "content"@))
    &&& opt_view(task.body_content_type) == str_of(field(body, "contentType"@))
    &&& task.status@ == text_or(e, "status"@, "notStarted"@)
    &&& task.importance@ == text_or(e, "importance"@, "normal"@)
    &&& task.is_reminder_on == (field(e, "isReminderOn"@) == JsonV::Bool(true))
    &&& opt_view(task.reminder_at_utc) == utc_time(e, "reminderDateTime"@)
    &&& time_view(task.due) == time_at(e, "dueDateTime"@)
    &&& time_view(task.start) == time_at(e, "startDateTime"@)
    &&& opt_view(task.completed_at_utc) == utc_time(e, "completedDateTime"@)
    &&& (match task.recurrence {
        Some(r) => recurrence is Object && r.model() == recurrence,
        None => !(recurrence is Object),
    })
    &&& task.categories.model() == (if categories is Array {
        categories
    } else {
        JsonV::Array(Seq::empty())
    })
    &&& task.has_attachments == (field(e, "hasAttachments"@) == JsonV::Bool(true))
    &&& opt_view(task.created_at) == str_of(field(e, "createdDateTime"@))
    &&& opt_view(task.last_modified_at) == str_of(field(e, "lastModifiedDateTime"@))
    &&& opt_view(task.etag) == str_of(field(e, "@odata.etag"@))
}

/// The text at `key`, or `default`.
fn text_or_default(entity: &Members, key: &str, default: &str) -> (t: String)
    ensures
        t@ == text_or(JsonV::Object(members_model(entity@)), key@, default@),
{
    match text_of(entity, key) {
        Some(t) => t,
        None => default.to_string(),
    }
}

/// The time at `key`, when Graph gave it in UTC.
fn utc_time_of(entity: &Members, key: &str) -> (r: Option<String>)
    ensures
        opt_view(r) == utc_time(JsonV::Object(members_model(entity@)), key@),
{
    match time_of(entity, key) {
        Some(t) => if eq_word_ignoring_case(t.time_zone.as_str(), "utc") {
            Some(t.date_time)
        } else {
            None
        },
        None => None,
    }
}

impl TaskColumns {
    /// The columns of the Graph task `task`: a missing title empty, a
    /// missing status `notStarted` and importance `normal`, a flag false
    /// unless it is `true`.
    pub fn of(task: &Members) -> (c: TaskColumns)
        ensures
            columns_of(c, JsonV::Object(members_model(task@))),
    {
        proof {
            reveal_strlit("");
            assert(""@ =~= Seq::<char>::empty());
        }
        let (body_content, body_content_type) = match get(task, "body") {
            Some(body) => (
                match body.str_field("content") {
                    Some(t) => Some(t.to_string()),
                    None => None,
                },
                match body.str_field("contentType") {
                    Some(t) => Some(t.to_string()),
                    None => None,
                },
            ),
            None => (None, None),
        };
        let recurrence = match get(task, "recurrence") {
            Some(r) => match r {
                Json::Object(_) => Some(r.copy()),
                _ => None,
            },
            None => None,
        };
        let categories = match get(task, "categories") {
            Some(c) => match c {
                Json::Array(_) => c.copy(),
                _ => Json::Array(Vec::new()),
            },
            None => Json::Array(Vec::new()),
        };
        TaskColumns {
            title: text_or_default(task, "title", ""),
            body_content,
            body_content_type,
            status: text_or_default(task, "status", "notStarted"),
            importance: text_or_default(task, "importance", "normal"),
            is_reminder_on: flag_of(task, "isReminderOn"),
            reminder_at_utc: utc_time_of(task, "reminderDateTime"),
            due: time_of(task, "dueDateTime"),
            start: time_of(task, "startDateTime"),
            completed_at_utc: utc_time_of(task, "completedDateTime"),
            recurrence,
            categories,
            has_attachments: flag_of(task, "hasAttachments"),
            created_at: text_of(task, "createdDateTime"),
            last_modified_at: text_of(task, "lastModifiedDateTime"),
            etag: text_of(task, "@odata.etag"),
        }
    }
}

} // verus!
