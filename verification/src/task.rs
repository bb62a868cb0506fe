//! A task as the TUI shows it: its sync marker, its notes as Graph sends
//! them, and its recurrence in a few words.

use vstd::prelude::*;

use crate::json::{Json, JsonV, Members, field, get, str_of, strings_of, items_model, members_model, lemma_items_len};
use crate::ops::{array_or_empty, starts_with};
use crate::search::{join, join_spec, strings_view};
use crate::text::{concat, decimal, decimal_spec, parse_u64, push_char, str_eq, whole_number};

verus! {

#[derive(Clone, Copy, Debug, PartialEq, Eq, Structural)]
pub enum SyncMarker {
    Synced,
    /// A write waits to reach Microsoft To Do, or is being sent.
    Pending,
    /// A write's outcome is unknown: resolve it in `ms-todo outbox`.
    Unknown,
    /// Microsoft To Do rejected a write, which was rolled back.
    Failed,
}

/// A task's notes, as Graph sends them.
#[derive(Clone, Debug, PartialEq, Eq)]
pub struct Body {
    pub content: String,
    pub html: bool,
}

/// `c` with an ASCII lowercase letter made uppercase.
pub open spec fn ascii_upper(c: char) -> char {
    if 'a' <= c <= 'z' {
        ((c as int) - 32) as char
    } else {
        c
    }
}

/// `c` with an ASCII uppercase letter made lowercase.
pub open spec fn ascii_lower(c: char) -> char {
    if 'A' <= c <= 'Z' {
        ((c as int) + 32) as char
    } else {
        c
    }
}

/// Whether `s` is `word` but for the case of ASCII letters, as
/// `eq_ignore_ascii_case` compares (`word` is ASCII lowercase).
pub open spec fn is_word_ignoring_case(s: Seq<char>, word: Seq<char>) -> bool {
    s.len() == word.len() && forall|i: int| 0 <= i < s.len() ==> ascii_lower(#[trigger] s[i]) == word[i]
}

fn to_ascii_lower(c: char) -> (d: char)
    ensures
        d == ascii_lower(c),
{
    if 'A' <= c && c <= 'Z' {
        ((c as u32) + 32) as u8 as char
    } else {
        c
    }
}

fn to_ascii_upper(c: char) -> (d: char)
    ensures
        d == ascii_upper(c),
{
    if 'a' <= c && c <= 'z' {
        ((c as u32) - 32) as u8 as char
    } else {
        c
    }
}

/// Whether `s` is `word` but for the case of ASCII letters (`word` being
/// ASCII lowercase).
pub(crate) fn eq_word_ignoring_case(s: &str, word: &str) -> (b: bool)
    ensures
        b == is_word_ignoring_case(s@, word@),
{
    let n = s.unicode_len();
    if n != word.unicode_len() {
        return false;
    }
    let mut i: usize = 0;
    while i < n
        invariant
            n == s@.len() == word@.len(),
            i <= n,
            forall|j: int| 0 <= j < i ==> ascii_lower(#[trigger] s@[j]) == word@[j],
        decreases n - i,
    {
        if to_ascii_lower(s.get_char(i)) != word.get_char(i) {
            return false;
        }
        i = i + 1;
    }
    true
}

/// Whether `s` is "html" in any case.
fn is_html(s: &str) -> (b: bool)
    ensures
        b == is_word_ignoring_case(s@, "html"@),
{
    eq_word_ignoring_case(s, "html")
}

/// The notes a task's `body` holds: its `content` text, and whether its
/// `contentType` is html in any case. `None` without a content string.
pub open spec fn body_spec(body: JsonV) -> Option<(Seq<char>, bool)> {
    match str_of(field(body, "content"@)) {
        Some(content) => Some(
            (
                content,
                match str_of(field(body, "contentType"@)) {
                    Some(kind) => is_word_ignoring_case(kind, "html"@),
                    None => false,
                },
            ),
        ),
        None => None,
    }
}

impl Body {
    /// The notes in Graph's `body` of a task.
    pub fn of(body: &Json) -> (r: Option<Body>)
        ensures
            match r {
                Some(b) => body_spec(body.model()) == Some((b.content@, b.html)),
                None => body_spec(body.model()) is None,
            },
    {
        let content = match body.str_field("content") {
            Some(c) => c,
            None => return None,
        };
        let html = match body.str_field("contentType") {
            Some(kind) => is_html(kind),
            None => false,
        };
        Some(Body { content: content.to_owned(), html })
    }
}

/// The `u64` a JSON value is, if it is a whole number that fits.
pub open spec fn as_u64_spec(value: JsonV) -> Option<nat> {
    match value {
        JsonV::Number(text) => whole_number(text),
        _ => None,
    }
}

fn as_u64(value: &Json) -> (r: Option<u64>)
    ensures
        match r {
            Some(v) => as_u64_spec(value.model()) == Some(v as nat),
            None => as_u64_spec(value.model()) is None,
        },
{
    match value {
        Json::Number(text) => parse_u64(text.as_str()),
        _ => None,
    }
}

/// The unit a recurrence type counts in.
pub open spec fn unit_of(kind: Seq<char>) -> Option<Seq<char>> {
    if kind == "daily"@ {
        Some("day"@)
    } else if kind == "weekly"@ {
        Some("week"@)
    } else if kind == "absoluteMonthly"@ || kind == "relativeMonthly"@ {
        Some("month"@)
    } else if kind == "absoluteYearly"@ || kind == "relativeYearly"@ {
        Some("year"@)
    } else {
        None
    }
}

/// A day's name shortened: its first three characters, the first made
/// uppercase when it is an ASCII letter.
pub open spec fn short_day(day: Seq<char>) -> Seq<char> {
    let short = day.take(if day.len() < 3 { day.len() as int } else { 3 });
    if short.len() > 0 && (short[0] as int) < 128 {
        short.update(0, ascii_upper(short[0]))
    } else {
        short
    }
}

/// Graph's `patternedRecurrence` in a few words.
pub open spec fn describe_spec(recurrence: JsonV) -> Option<Seq<char>> {
    let pattern = field(recurrence, "pattern"@);
    match str_of(field(pattern, "type"@)) {
        None => None,
        Some(kind) => {
            let interval = match as_u64_spec(field(pattern, "interval"@)) {
                Some(n) => n,
                None => 1,
            };
            match unit_of(kind) {
                None => Some("repeats"@),
                Some(unit) => {
                    let described = if interval == 1 {
                        if unit == "day"@ {
                            "daily"@
                        } else {
                            unit + "ly"@
                        }
                    } else {
                        "every "@ + decimal_spec(interval) + " "@ + unit + "s"@
                    };
                    let days = strings_of(array_or_empty(field(pattern, "daysOfWeek"@))).map_values(
                        |day: Seq<char>| short_day(day),
                    );
                    if kind == "weekly"@ && days.len() > 0 {
                        Some(described + " on "@ + join_spec(days, ", "@))
                    } else {
                        match as_u64_spec(field(pattern, "dayOfMonth"@)) {
                            Some(day) => if day > 0 && starts_with(kind, "absolute"@) {
                                Some(described + " on day "@ + decimal_spec(day))
                            } else {
                                Some(described)
                            },
                            None => Some(described),
                        }
                    }
                },
            }
        },
    }
}

/// `day` shortened, as [`short_day`] says.
fn shorten(day: &str) -> (s: String)
    ensures
        s@ == short_day(day@),
{
    let n = day.unicode_len();
    let take = if n < 3 { n } else { 3 };
    let mut s = String::new();
    let mut i: usize = 0;
    while i < take
        invariant
            n == day@.len(),
            take == (if n < 3 { n } else { 3 }),
            i <= take,
            s@ == (if i == 0 { Seq::<char>::empty() } else {
                day@.take(i as int).update(0, if (day@[0] as int) < 128 { ascii_upper(day@[0]) } else { day@[0] })
            }),
        decreases take - i,
    {
        let c = day.get_char(i);
        let c = if i == 0 && (c as u32) < 128 { to_ascii_upper(c) } else { c };
        push_char(&mut s, c);
        i = i + 1;
        assert(s@ =~= day@.take(i as int).update(0, if (day@[0] as int) < 128 { ascii_upper(day@[0]) } else { day@[0] }));
    }
    proof {
        assert(day@.take(take as int).len() == take);
        if take > 0 && (day@[0] as int) >= 128 {
            assert(s@ =~= day@.take(take as int));
        }
        if take == 0 {
            assert(s@ =~= day@.take(0));
        }
    }
    s
}

/// The day names of a weekly pattern, shortened.
fn short_days(pattern: &Json) -> (days: Vec<String>)
    ensures
        strings_view(days@) == strings_of(array_or_empty(field(pattern.model(), "daysOfWeek"@))).map_values(
            |day: Seq<char>| short_day(day),
        ),
{
    let mut days: Vec<String> = Vec::new();
    let items: &[Json] = match pattern {
        Json::Object(m) => match get(m, "daysOfWeek") {
            Some(Json::Array(items)) => items.as_slice(),
            _ => {
                let none: &[Json] = &[];
                none
            },
        },
        _ => {
            let none: &[Json] = &[];
            none
        },
    };
    assert(items_model(items@) == array_or_empty(field(pattern.model(), "daysOfWeek"@)));
    let mut i: usize = 0;
    while i < items.len()
        invariant
            i <= items@.len(),
            strings_view(days@) == strings_of(items_model(items@.subrange(0, i as int))).map_values(
                |day: Seq<char>| short_day(day),
            ),
        decreases items@.len() - i,
    {
        proof {
            crate::json::lemma_items_push(items@.subrange(0, i as int), items@[i as int]);
            assert(items@.subrange(0, i as int).push(items@[i as int]) =~= items@.subrange(0, i + 1));
            assert(items_model(items@.subrange(0, i + 1)).drop_last() =~= items_model(items@.subrange(0, i as int)));
        }
        match &items[i] {
            Json::Str(day) => {
                let ghost prior = days@;
                days.push(shorten(day.as_str()));
                assert(strings_view(days@) =~= strings_view(prior).push(short_day(day@)));
                assert(strings_of(items_model(items@.subrange(0, i + 1))) == strings_of(items_model(items@.subrange(0, i as int))).push(day@));
                assert(strings_of(items_model(items@.subrange(0, i + 1))).map_values(|day: Seq<char>| short_day(day))
                    =~= strings_of(items_model(items@.subrange(0, i as int))).map_values(|day: Seq<char>| short_day(day)).push(short_day(day@)));
            },
            _ => {},
        }
        i = i + 1;
    }
    assert(items@.subrange(0, items@.len() as int) =~= items@);
    days
}

/// The unit a recurrence type counts in.
fn unit_for(kind: &str) -> (r: Option<&'static str>)
    ensures
        match r {
            Some(u) => unit_of(kind@) == Some(u@),
            None => unit_of(kind@) is None,
        },
{
    if str_eq(kind, "daily") {
        Some("day")
    } else if str_eq(kind, "weekly") {
        Some("week")
    } else if str_eq(kind, "absoluteMonthly") || str_eq(kind, "relativeMonthly") {
        Some("month")
    } else if str_eq(kind, "absoluteYearly") || str_eq(kind, "relativeYearly") {
        Some("year")
    } else {
        None
    }
}

/// Whether `s` starts with `prefix`.
fn has_prefix(s: &str, prefix: &str) -> (b: bool)
    ensures
        b == starts_with(s@, prefix@),
{
    let n = s.unicode_len();
    let m = prefix.unicode_len();
    n >= m && str_eq(s.substring_char(0, m), prefix)
}

/// Graph's `patternedRecurrence` in a few words: "daily", "every 2 weeks
/// on Mon, Thu", "monthly on day 1".
pub fn describe_recurrence(recurrence: &Json) -> (r: Option<String>)
    ensures
        match r {
            Some(s) => describe_spec(recurrence.model()) == Some(s@),
            None => describe_spec(recurrence.model()) is None,
        },
{
    let pattern = match recurrence {
        Json::Object(m) => match get(m, "pattern") {
            Some(p) => p,
            None => return None,
        },
        _ => return None,
    };
    assert(field(recurrence.model(), "pattern"@) == pattern.model());
    let kind = match pattern.str_field("type") {
        Some(k) => k,
        None => return None,
    };
    let interval: u64 = match pattern {
        Json::Object(m) => match get(m, "interval") {
            Some(v) => match as_u64(v) {
                Some(n) => n,
                None => 1,
            },
            None => 1,
        },
        _ => 1,
    };
    let unit = match unit_for(kind) {
        Some(u) => u,
        None => return Some("repeats".to_owned()),
    };
    let mut described = if interval == 1 {
        if str_eq(unit, "day") {
            "daily".to_owned()
        } else {
            concat(unit, "ly")
        }
    } else {
        let a = concat("every ", decimal(interval).as_str());
        let b = concat(a.as_str(), " ");
        let c = concat(b.as_str(), unit);
        concat(c.as_str(), "s")
    };
    let days = short_days(pattern);
    if str_eq(kind, "weekly") && days.len() > 0 {
        let joined = join(&days, ", ");
        let on = concat(described.as_str(), " on ");
        described = concat(on.as_str(), joined.as_str());
    } else {
        let day: Option<u64> = match pattern {
            Json::Object(m) => match get(m, "dayOfMonth") {
                Some(v) => as_u64(v),
                None => None,
            },
            _ => None,
        };
        match day {
            Some(d) => if d > 0 && has_prefix(kind, "absolute") {
                let on = concat(described.as_str(), " on day ");
                described = concat(on.as_str(), decimal(d).as_str());
            },
            None => {},
        }
    }
    proof {
        assert(strings_view(days@).len() == days@.len());
    }
    Some(described)
}

} // verus!

verus! {

/// How important a task is, as Graph has it.
#[derive(Clone, Copy, Debug, PartialEq, Eq, Structural)]
pub enum Importance {
    Low,
    Normal,
    High,
}

/// A time as Graph sends it: its date and time, and the zone they are in.
/// What day or local time that is depends on the time zone database, which
/// the library does not hold: the caller converts it.
#[derive(Clone, Debug, PartialEq, Eq)]
pub struct GraphTime {
    pub date_time: String,
    pub time_zone: String,
}

/// A task as the TUI shows it.
#[derive(Clone, Debug, PartialEq, Eq)]
pub struct Task {
    /// ms-todo's local ID.
    pub id: String,
    pub list_id: String,
    pub title: String,
    pub completed: bool,
    pub importance: Importance,
    pub due: Option<GraphTime>,
    /// When the reminder is on.
    pub reminder: Option<GraphTime>,
    /// "every 2 weeks on Mon", for a recurring task.
    pub recurrence: Option<String>,
    /// The notes as Graph has them.
    pub body: Option<Body>,
    /// `(checked, total)`; `None` when it has no steps.
    pub steps: Option<(usize, usize)>,
    pub categories: Vec<String>,
    pub sync: SyncMarker,
    /// Graph's `completedDateTime`.
    pub completed_at: Option<GraphTime>,
}

/// The text at `key` of `entity`, if it is a string.
pub open spec fn text_at(entity: JsonV, key: Seq<char>) -> Option<Seq<char>> {
    str_of(field(entity, key))
}

/// The `dateTime` and `timeZone` texts of the time at `key`, if both are.
pub open spec fn time_at(entity: JsonV, key: Seq<char>) -> Option<(Seq<char>, Seq<char>)> {
    let value = field(entity, key);
    match (str_of(field(value, "dateTime"@)), str_of(field(value, "timeZone"@))) {
        (Some(at), Some(zone)) => Some((at, zone)),
        _ => None,
    }
}

pub open spec fn time_view(t: Option<GraphTime>) -> Option<(Seq<char>, Seq<char>)> {
    match t {
        Some(g) => Some((g.date_time@, g.time_zone@)),
        None => None,
    }
}

/// How many of `items` are checked steps.
pub open spec fn checked_count(items: Seq<JsonV>) -> nat
    decreases items.len(),
{
    if items.len() == 0 {
        0
    } else if field(items.last(), "isChecked"@) == JsonV::Bool(true) {
        checked_count(items.drop_last()) + 1
    } else {
        checked_count(items.drop_last())
    }
}

/// A task's steps, checked and in all; `None` for none.
pub open spec fn steps_spec(entity: JsonV) -> Option<(nat, nat)> {
    match field(entity, "checklistItems"@) {
        JsonV::Array(items) => if items.len() == 0 {
            None
        } else {
            Some((checked_count(items), items.len()))
        },
        _ => None,
    }
}

pub open spec fn importance_spec(entity: JsonV) -> Importance {
    if text_at(entity, "importance"@) == Some("high"@) {
        Importance::High
    } else if text_at(entity, "importance"@) == Some("low"@) {
        Importance::Low
    } else {
        Importance::Normal
    }
}

pub open spec fn sync_spec(entity: JsonV) -> SyncMarker {
    let state = text_at(entity, "sync_state"@);
    if state == Some("pending"@) {
        SyncMarker::Pending
    } else if state == Some("unknown"@) {
        SyncMarker::Unknown
    } else if state == Some("failed"@) {
        SyncMarker::Failed
    } else {
        SyncMarker::Synced
    }
}

pub open spec fn categories_spec(entity: JsonV) -> Seq<Seq<char>> {
    match field(entity, "categories"@) {
        JsonV::Array(items) => strings_of(items),
        _ => Seq::empty(),
    }
}

pub open spec fn reminder_spec(entity: JsonV) -> Option<(Seq<char>, Seq<char>)> {
    if field(entity, "isReminderOn"@) == JsonV::Bool(true) {
        time_at(entity, "reminderDateTime"@)
    } else {
        None
    }
}

pub open spec fn string_opt_view(o: Option<String>) -> Option<Seq<char>> {
    match o {
        Some(s) => Some(s@),
        None => None,
    }
}

pub open spec fn body_view(b: Option<Body>) -> Option<(Seq<char>, bool)> {
    match b {
        Some(x) => Some((x.content@, x.html)),
        None => None,
    }
}

/// Whether `task` is what the entity `entity` reads as: each field from
/// Graph's shape, a missing text empty.
pub open spec fn reads_as(task: Task, entity: JsonV) -> bool {
    &&& text_at(entity, "id"@) == Some(task.id@)
    &&& task.list_id@ == (match text_at(entity, "list_id"@) { Some(t) => t, None => Seq::empty() })
    &&& task.title@ == (match text_at(entity, "title"@) { Some(t) => t, None => Seq::empty() })
    &&& task.completed == (text_at(entity, "status"@) == Some("completed"@))
    &&& task.importance == importance_spec(entity)
    &&& time_view(task.due) == time_at(entity, "dueDateTime"@)
    &&& time_view(task.reminder) == reminder_spec(entity)
    &&& string_opt_view(task.recurrence) == describe_spec(field(entity, "recurrence"@))
    &&& body_view(task.body) == body_spec(field(entity, "body"@))
    &&& (match task.steps {
        Some((c, n)) => steps_spec(entity) == Some((c as nat, n as nat)),
        None => steps_spec(entity) is None,
    })
    &&& task.categories@.map_values(|c: String| c@) == categories_spec(entity)
    &&& task.sync == sync_spec(entity)
    &&& time_view(task.completed_at) == time_at(entity, "completedDateTime"@)
}

pub(crate) fn text_of<'a>(entity: &'a Members, key: &str) -> (r: Option<&'a str>)
    ensures
        match r {
            Some(t) => text_at(JsonV::Object(members_model(entity@)), key@) == Some(t@),
            None => text_at(JsonV::Object(members_model(entity@)), key@) is None,
        },
{
    match get(entity, key) {
        Some(v) => v.as_str(),
        None => None,
    }
}

fn text_is(entity: &Members, key: &str, word: &str) -> (b: bool)
    ensures
        b == (text_at(JsonV::Object(members_model(entity@)), key@) == Some(word@)),
{
    match text_of(entity, key) {
        Some(t) => str_eq(t, word),
        None => false,
    }
}

pub(crate) fn time_of(entity: &Members, key: &str) -> (r: Option<GraphTime>)
    ensures
        time_view(r) == time_at(JsonV::Object(members_model(entity@)), key@),
{
    let value = match get(entity, key) {
        Some(v) => v,
        None => return None,
    };
    match (value.str_field("dateTime"), value.str_field("timeZone")) {
        (Some(at), Some(zone)) => Some(GraphTime { date_time: at.to_owned(), time_zone: zone.to_owned() }),
        _ => None,
    }
}

fn is_true(value: Option<&Json>) -> (b: bool)
    ensures
        b == (value matches Some(v) && v.model() == JsonV::Bool(true)),
{
    match value {
        Some(Json::Bool(true)) => true,
        _ => false,
    }
}

fn steps_of(entity: &Members) -> (r: Option<(usize, usize)>)
    ensures
        match r {
            Some((c, n)) => steps_spec(JsonV::Object(members_model(entity@))) == Some((c as nat, n as nat)),
            None => steps_spec(JsonV::Object(members_model(entity@))) is None,
        },
{
    let items = match get(entity, "checklistItems") {
        Some(Json::Array(items)) => items,
        _ => return None,
    };
    proof {
        lemma_items_len(items@);
    }
    if items.len() == 0 {
        return None;
    }
    let mut checked: usize = 0;
    let mut i: usize = 0;
    while i < items.len()
        invariant
            i <= items@.len(),
            items_model(items@).len() == items@.len(),
            forall|j: int| 0 <= j < items@.len() ==> #[trigger] items_model(items@)[j] == items@[j].model(),
            checked == checked_count(items_model(items@).subrange(0, i as int)),
            checked <= i,
        decreases items.len() - i,
    {
        assert(items_model(items@).subrange(0, i + 1).drop_last() =~= items_model(items@).subrange(0, i as int));
        assert(items_model(items@).subrange(0, i + 1).last() == items@[i as int].model());
        let hit = match &items[i] {
            Json::Object(m) => is_true(get(m, "isChecked")),
            _ => false,
        };
        if hit {
            checked = checked + 1;
        }
        i = i + 1;
    }
    assert(items_model(items@).subrange(0, items@.len() as int) =~= items_model(items@));
    Some((checked, items.len()))
}

fn categories_of(entity: &Members) -> (r: Vec<String>)
    ensures
        r@.map_values(|c: String| c@) == categories_spec(JsonV::Object(members_model(entity@))),
{
    let items = match get(entity, "categories") {
        Some(Json::Array(items)) => items,
        _ => {
            let none: Vec<String> = Vec::new();
            assert(none@.map_values(|c: String| c@) =~= Seq::<Seq<char>>::empty());
            return none;
        },
    };
    proof {
        lemma_items_len(items@);
    }
    let mut out: Vec<String> = Vec::new();
    let mut i: usize = 0;
    while i < items.len()
        invariant
            i <= items@.len(),
            items_model(items@).len() == items@.len(),
            forall|j: int| 0 <= j < items@.len() ==> #[trigger] items_model(items@)[j] == items@[j].model(),
            out@.map_values(|c: String| c@) == strings_of(items_model(items@).subrange(0, i as int)),
        decreases items.len() - i,
    {
        assert(items_model(items@).subrange(0, i + 1).drop_last() =~= items_model(items@).subrange(0, i as int));
        assert(items_model(items@).subrange(0, i + 1).last() == items@[i as int].model());
        if let Json::Str(text) = &items[i] {
            let ghost prior = out@.map_values(|c: String| c@);
            out.push(text.clone());
            assert(out@.map_values(|c: String| c@) =~= prior.push(text@));
        }
        i = i + 1;
    }
    assert(items_model(items@).subrange(0, items@.len() as int) =~= items_model(items@));
    out
}

impl Task {
    /// A task from the daemon's entity; `None` for one with no `id`, which
    /// the daemon never sends.
    pub fn from_entity(entity: &Members) -> (r: Option<Task>)
        ensures
            match r {
                Some(task) => reads_as(task, JsonV::Object(members_model(entity@))),
                None => text_at(JsonV::Object(members_model(entity@)), "id"@) is None,
            },
    {
        let id = match text_of(entity, "id") {
            Some(id) => id.to_owned(),
            None => return None,
        };
        let list_id = match text_of(entity, "list_id") {
            Some(t) => t.to_owned(),
            None => String::new(),
        };
        let title = match text_of(entity, "title") {
            Some(t) => t.to_owned(),
            None => String::new(),
        };
        let importance = if text_is(entity, "importance", "high") {
            Importance::High
        } else if text_is(entity, "importance", "low") {
            Importance::Low
        } else {
            Importance::Normal
        };
        let reminder = if is_true(get(entity, "isReminderOn")) {
            time_of(entity, "reminderDateTime")
        } else {
            None
        };
        let recurrence = match get(entity, "recurrence") {
            Some(v) => describe_recurrence(v),
            None => None,
        };
        let body = match get(entity, "body") {
            Some(v) => Body::of(v),
            None => None,
        };
        let sync = if text_is(entity, "sync_state", "pending") {
            SyncMarker::Pending
        } else if text_is(entity, "sync_state", "unknown") {
            SyncMarker::Unknown
        } else if text_is(entity, "sync_state", "failed") {
            SyncMarker::Failed
        } else {
            SyncMarker::Synced
        };
        Some(Task {
            id,
            list_id,
            title,
            completed: text_is(entity, "status", "completed"),
            importance,
            due: time_of(entity, "dueDateTime"),
            reminder,
            recurrence,
            body,
            steps: steps_of(entity),
            categories: categories_of(entity),
            sync,
            completed_at: time_of(entity, "completedDateTime"),
        })
    }

    /// Whether the task is of high importance.
    pub fn important(&self) -> (b: bool)
        ensures
            b == (self.importance == Importance::High),
    {
        self.importance == Importance::High
    }
}

} // verus!

verus! {

pub open spec fn importance_name_spec(importance: Importance) -> Seq<char> {
    match importance {
        Importance::Low => "low"@,
        Importance::Normal => "normal"@,
        Importance::High => "high"@,
    }
}

/// The word for a level, as Graph writes it.
pub fn importance_name(importance: Importance) -> (name: &'static str)
    ensures
        name@ == importance_name_spec(importance),
{
    match importance {
        Importance::Low => "low",
        Importance::Normal => "normal",
        Importance::High => "high",
    }
}

pub open spec fn next_importance_spec(importance: Importance) -> Importance {
    match importance {
        Importance::Low => Importance::Normal,
        Importance::Normal => Importance::High,
        Importance::High => Importance::Low,
    }
}

/// `I` in the picker: round the three levels.
pub fn next_importance(importance: Importance) -> (next: Importance)
    ensures
        next == next_importance_spec(importance),
{
    match importance {
        Importance::Low => Importance::Normal,
        Importance::Normal => Importance::High,
        Importance::High => Importance::Low,
    }
}

/// Pressing `I` three times comes back to the level it started from, and
/// each press changes it.
pub proof fn law_importance_cycles(importance: Importance)
    ensures
        next_importance_spec(next_importance_spec(next_importance_spec(importance))) == importance,
        next_importance_spec(importance) != importance,
{
}

/// A level's word reads back as that level.
pub proof fn law_importance_name_reads_back(importance: Importance)
    ensures
        importance_spec(JsonV::Object(map![ "importance"@ => JsonV::Str(importance_name_spec(importance)) ]))
            == importance,
{
    reveal_strlit("low");
    reveal_strlit("normal");
    reveal_strlit("high");
    let e = JsonV::Object(map![ "importance"@ => JsonV::Str(importance_name_spec(importance)) ]);
    assert(field(e, "importance"@) == JsonV::Str(importance_name_spec(importance)));
    assert(text_at(e, "importance"@) == Some(importance_name_spec(importance)));
    assert("low"@.len() == 3 && "high"@.len() == 4 && "normal"@.len() == 6);
    assert("low"@ != "high"@ && "normal"@ != "high"@ && "normal"@ != "low"@);
}

} // verus!
