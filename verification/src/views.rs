//! The smart views: queries over every live list's tasks, and the counts
//! the sidebar shows.

use vstd::prelude::*;

use std::collections::BTreeMap;

use crate::scope::{FIRST_DAY, LAST_DAY};
use crate::text::concat;
use vstd::view::View as _;

verus! {

/// How many tasks each view and each list holds.
#[derive(Clone, Debug, Default, PartialEq, Eq)]
pub struct TaskCounts {
    pub important: u64,
    pub planned: u64,
    pub all: u64,
    pub completed: u64,
    pub assigned: u64,
    /// Open tasks by list local ID; a list with none is absent.
    pub open_by_list: BTreeMap<String, u64>,
}

} // verus!

verus! {

/// A smart view over every list.
#[derive(Clone, Copy, Debug, PartialEq, Eq, Structural)]
pub enum View {
    /// Tasks in the My Day of this day (`myDay` in the extension), open or
    /// not; the day as chrono counts it from the Common Era.
    MyDay(i32),
    /// Open tasks with `importance = high`.
    Important,
    /// Open tasks with a due date.
    Planned,
    /// Every open task.
    All,
    Completed,
    /// Open tasks with an assignee (`assignee` in the extension).
    Assigned,
}

/// A task's My Day date, `YYYY-MM-DD` or null: the expression
/// `tasks_by_my_day` indexes.
pub const MY_DAY: &'static str = "json_extract(tasks.extension_json, '$.myDay')";

/// Live tasks in live lists.
pub const LIVE: &'static str = "FROM tasks JOIN lists ON lists.local_id = tasks.list_local_id WHERE tasks.deleted_at IS NULL AND lists.deleted_at IS NULL";

/// The day `days` written as chrono's `%Y-%m-%d` writes it.
pub uninterp spec fn iso_day(days: i32) -> Seq<char>;

/// chrono's `NaiveDate::from_num_days_from_ce_opt`, then
/// `format("%Y-%m-%d")`: the day's year, month and day of the month. Nothing
/// is claimed of the text but that it is the same for the same day; chrono
/// gives a date for every day in range.
#[verifier::external_body]
fn iso_day_text(days: i32) -> (text: String)
    requires
        FIRST_DAY <= days <= LAST_DAY,
    ensures
        text@ == iso_day(days),
{
    let date = chrono::NaiveDate::from_num_days_from_ce_opt(days).expect("a day chrono can write");
    date.format("%Y-%m-%d").to_string()
}

/// Which tasks are in a view: a condition on `tasks`, the one place each
/// view is defined (its query, its count).
pub open spec fn condition_spec(view: View) -> Seq<char> {
    match view {
        View::MyDay(day) => MY_DAY@ + " = '"@ + iso_day(day) + "'"@,
        View::Important => "tasks.status <> 'completed' AND tasks.importance = 'high'"@,
        View::Planned => "tasks.status <> 'completed' AND tasks.due_date IS NOT NULL"@,
        View::All => "tasks.status <> 'completed'"@,
        View::Completed => "tasks.status = 'completed'"@,
        View::Assigned => "tasks.status <> 'completed' AND COALESCE(trim(json_extract(tasks.extension_json, '$.assignee')), '') <> ''"@,
    }
}

/// The order a view shows.
pub open spec fn order_spec(view: View) -> Seq<char> {
    match view {
        View::MyDay(_) => "tasks.status = 'completed', tasks.created_at, tasks.rowid"@,
        View::Important => "tasks.due_date IS NULL, tasks.due_date, tasks.created_at, tasks.rowid"@,
        View::Planned => "tasks.due_date, tasks.created_at, tasks.rowid"@,
        View::All => "tasks.created_at, tasks.rowid"@,
        View::Completed => "tasks.completed_at_utc IS NOT NULL, tasks.completed_at_utc DESC, tasks.rowid DESC"@,
        View::Assigned => "lower(trim(json_extract(tasks.extension_json, '$.assignee'))), tasks.due_date IS NULL, tasks.due_date, tasks.created_at, tasks.rowid"@,
    }
}

impl View {
    /// Which tasks are in the view: a condition on `tasks`. A date writes
    /// as digits and dashes only, so it's safe in SQL.
    pub fn condition(self) -> (c: String)
        requires
            self matches View::MyDay(day) ==> FIRST_DAY <= day <= LAST_DAY,
        ensures
            c@ == condition_spec(self),
    {
        match self {
            View::MyDay(day) => {
                let a = concat(MY_DAY, " = '");
                let b = concat(a.as_str(), iso_day_text(day).as_str());
                concat(b.as_str(), "'")
            },
            View::Important => "tasks.status <> 'completed' AND tasks.importance = 'high'".to_owned(),
            View::Planned => "tasks.status <> 'completed' AND tasks.due_date IS NOT NULL".to_owned(),
            View::All => "tasks.status <> 'completed'".to_owned(),
            View::Completed => "tasks.status = 'completed'".to_owned(),
            View::Assigned => "tasks.status <> 'completed' AND COALESCE(trim(json_extract(tasks.extension_json, '$.assignee')), '') <> ''".to_owned(),
        }
    }

    /// The order the view shows: a completion Graph hasn't answered yet
    /// has no date, and is the newest; each person's tasks together,
    /// however their name was typed, soonest due first.
    pub fn order(self) -> (o: &'static str)
        ensures
            o@ == order_spec(self),
    {
        match self {
            View::MyDay(_) => "tasks.status = 'completed', tasks.created_at, tasks.rowid",
            View::Important => "tasks.due_date IS NULL, tasks.due_date, tasks.created_at, tasks.rowid",
            View::Planned => "tasks.due_date, tasks.created_at, tasks.rowid",
            View::All => "tasks.created_at, tasks.rowid",
            View::Completed => "tasks.completed_at_utc IS NOT NULL, tasks.completed_at_utc DESC, tasks.rowid DESC",
            View::Assigned => "lower(trim(json_extract(tasks.extension_json, '$.assignee'))), tasks.due_date IS NULL, tasks.due_date, tasks.created_at, tasks.rowid",
        }
    }
}

/// The query for a view's tasks, selecting `columns`, in the view's order.
pub open spec fn view_query_spec(view: View, columns: Seq<char>) -> Seq<char> {
    "SELECT "@ + columns + " "@ + LIVE@ + " AND "@ + condition_spec(view) + " ORDER BY "@ + order_spec(view)
}

/// The query for a view's tasks, selecting `columns`, in its order.
pub fn view_query(view: View, columns: &str) -> (q: String)
    requires
        view matches View::MyDay(day) ==> FIRST_DAY <= day <= LAST_DAY,
    ensures
        q@ == view_query_spec(view, columns@),
{
    let a = concat("SELECT ", columns);
    let b = concat(a.as_str(), " ");
    let c = concat(b.as_str(), LIVE);
    let d = concat(c.as_str(), " AND ");
    let e = concat(d.as_str(), view.condition().as_str());
    let f = concat(e.as_str(), " ORDER BY ");
    concat(f.as_str(), view.order())
}

/// A view's count: how many live tasks meet its condition.
pub open spec fn sum_spec(view: View) -> Seq<char> {
    "COALESCE(SUM("@ + condition_spec(view) + "), 0)"@
}

fn sum_of(view: View) -> (s: String)
    requires
        !(view is MyDay),
    ensures
        s@ == sum_spec(view),
{
    let a = concat("COALESCE(SUM(", view.condition().as_str());
    concat(a.as_str(), "), 0)")
}

/// The query for every view's count, in one read: Important, Planned,
/// All, Completed and Assigned.
pub open spec fn counts_query_spec() -> Seq<char> {
    "SELECT "@ + sum_spec(View::Important) + ", "@ + sum_spec(View::Planned) + ", "@ + sum_spec(View::All) + ", "@
        + sum_spec(View::Completed) + ", "@ + sum_spec(View::Assigned) + " "@ + LIVE@
}

/// The query for every view's count.
pub fn counts_query() -> (q: String)
    ensures
        q@ == counts_query_spec(),
{
    let mut q = concat("SELECT ", sum_of(View::Important).as_str());
    q = concat(q.as_str(), ", ");
    q = concat(q.as_str(), sum_of(View::Planned).as_str());
    q = concat(q.as_str(), ", ");
    q = concat(q.as_str(), sum_of(View::All).as_str());
    q = concat(q.as_str(), ", ");
    q = concat(q.as_str(), sum_of(View::Completed).as_str());
    q = concat(q.as_str(), ", ");
    q = concat(q.as_str(), sum_of(View::Assigned).as_str());
    q = concat(q.as_str(), " ");
    concat(q.as_str(), LIVE)
}

/// The query for each list's open tasks.
pub open spec fn open_by_list_query_spec() -> Seq<char> {
    "SELECT tasks.list_local_id, COUNT(*) "@ + LIVE@ + " AND "@ + condition_spec(View::All) + " GROUP BY tasks.list_local_id"@
}

/// The query for each list's open tasks.
pub fn open_by_list_query() -> (q: String)
    ensures
        q@ == open_by_list_query_spec(),
{
    let a = concat("SELECT tasks.list_local_id, COUNT(*) ", LIVE);
    let b = concat(a.as_str(), " AND ");
    let c = concat(b.as_str(), View::All.condition().as_str());
    concat(c.as_str(), " GROUP BY tasks.list_local_id")
}

/// A count as SQLite returns it, as a count: none below zero.
pub fn count(value: i64) -> (n: u64)
    ensures
        n == (if value >= 0 { value as u64 } else { 0 }),
{
    if value >= 0 {
        value as u64
    } else {
        0
    }
}

/// Every view but My Day and Completed holds open tasks only: its
/// condition is All's (a task that isn't completed), alone or joined by
/// `AND` with more; and All's condition is Completed's, negated.
pub proof fn law_views_hold_open_tasks(view: View)
    ensures
        !(view is MyDay) && view != View::Completed ==> condition_spec(view) == condition_spec(View::All) || exists|
            extra: Seq<char>,
        | condition_spec(view) == condition_spec(View::All) + " AND "@ + extra,
        exists|column: Seq<char>, value: Seq<char>|
            condition_spec(View::Completed) == column + " = "@ + value && condition_spec(View::All) == column
                + " <> "@ + value,
{
    reveal_strlit("tasks.status <> 'completed'");
    reveal_strlit("tasks.status = 'completed'");
    reveal_strlit(" AND ");
    reveal_strlit(" = ");
    reveal_strlit(" <> ");
    reveal_strlit("tasks.status");
    reveal_strlit("'completed'");
    let all = condition_spec(View::All);
    assert("tasks.status"@ + " = "@ + "'completed'"@ =~= condition_spec(View::Completed));
    assert("tasks.status"@ + " <> "@ + "'completed'"@ =~= all);
    match view {
        View::Important => {
            reveal_strlit("tasks.status <> 'completed' AND tasks.importance = 'high'");
            reveal_strlit("tasks.importance = 'high'");
            assert(condition_spec(view) =~= all + " AND "@ + "tasks.importance = 'high'"@);
        },
        View::Planned => {
            reveal_strlit("tasks.status <> 'completed' AND tasks.due_date IS NOT NULL");
            reveal_strlit("tasks.due_date IS NOT NULL");
            assert(condition_spec(view) =~= all + " AND "@ + "tasks.due_date IS NOT NULL"@);
        },
        View::Assigned => {
            reveal_strlit(
                "tasks.status <> 'completed' AND COALESCE(trim(json_extract(tasks.extension_json, '$.assignee')), '') <> ''",
            );
            reveal_strlit("COALESCE(trim(json_extract(tasks.extension_json, '$.assignee')), '') <> ''");
            assert(condition_spec(view) =~= all + " AND "@
                + "COALESCE(trim(json_extract(tasks.extension_json, '$.assignee')), '') <> ''"@);
        },
        _ => {},
    }
}

} // verus!
