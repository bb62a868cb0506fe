//! What the sidebar offers, which tasks each scope holds and in what
//! order, and how the Planned and Completed views group them.
//!
//! A day is written as chrono counts it, days from the Common Era
//! (`NaiveDate::num_days_from_ce`): day 1 is Monday 1 January of year 1.

use vstd::prelude::*;

use crate::json::{field, get, members_model, str_of, JsonV, Members};
use crate::cascade::{count_marked, lemma_count_all, lemma_count_bound, lemma_count_mark};
use crate::task::{Importance, Task};
use crate::text::str_eq;

verus! {

/// A list as the sidebar knows it.
#[derive(Clone, Debug, PartialEq, Eq)]
pub struct SidebarList {
    pub id: String,
    pub name: String,
    /// Its folder's name, if it's in one.
    pub folder: Option<String>,
}

/// The folders of `lists`, each once, in the order they first come.
pub open spec fn folders_spec(lists: Seq<SidebarList>) -> Seq<Seq<char>>
    decreases lists.len(),
{
    if lists.len() == 0 {
        Seq::empty()
    } else {
        let before = folders_spec(lists.drop_last());
        match lists.last().folder {
            Some(f) => if before.contains(f@) {
                before
            } else {
                before.push(f@)
            },
            None => before,
        }
    }
}

/// Each folder of the lists comes once, and nothing else comes (the
/// order is that of each folder's first list, as `folders_spec` builds it).
pub proof fn law_folder_names_once_each(lists: Seq<SidebarList>)
    ensures
        folders_spec(lists).no_duplicates(),
        forall|i: int|
            0 <= i < lists.len() && lists[i].folder is Some ==> folders_spec(lists).contains(
                lists[i].folder->Some_0@,
            ),
        forall|name: Seq<char>|
            folders_spec(lists).contains(name) ==> exists|i: int|
                0 <= i < lists.len() && (lists[i].folder is Some && lists[i].folder->Some_0@ == name),
    decreases lists.len(),
{
    if lists.len() > 0 {
        let rest = lists.drop_last();
        law_folder_names_once_each(rest);
        let before = folders_spec(rest);
        assert forall|i: int|
            0 <= i < lists.len() && lists[i].folder is Some implies folders_spec(lists).contains(
                lists[i].folder->Some_0@,
            ) by {
            if i < lists.len() - 1 {
                assert(rest[i] == lists[i]);
                crate::text::lemma_push_contains(before, lists.last().folder->Some_0@, lists[i].folder->Some_0@);
            } else if !before.contains(lists[i].folder->Some_0@) {
                crate::text::lemma_push_contains(before, lists[i].folder->Some_0@, lists[i].folder->Some_0@);
            }
        }
        assert forall|name: Seq<char>| folders_spec(lists).contains(name) implies exists|i: int|
            0 <= i < lists.len() && (lists[i].folder is Some && lists[i].folder->Some_0@ == name) by {
            if before.contains(name) {
                let i = choose|i: int| 0 <= i < rest.len() && (rest[i].folder is Some && rest[i].folder->Some_0@ == name);
                assert(lists[i] == rest[i]);
            } else {
                let f = lists.last().folder->Some_0@;
                crate::text::lemma_push_contains(before, f, name);
                assert(lists[lists.len() - 1] == lists.last());
            }
        }
    }
}

/// Whether the list at `i` is in the folder `name`.
pub open spec fn in_folder_at(lists: Seq<SidebarList>, i: int, name: Seq<char>) -> bool {
    lists[i].folder is Some && lists[i].folder->Some_0@ == name
}

/// Some list of folder `x` comes before every list of folder `y`.
pub open spec fn comes_first(lists: Seq<SidebarList>, x: Seq<char>, y: Seq<char>) -> bool {
    exists|i: int|
        0 <= i < lists.len() && in_folder_at(lists, i, x) && forall|j: int|
            0 <= j <= i ==> !#[trigger] in_folder_at(lists, j, y)
}

/// Folders come in the order of their first lists: of two folders, the
/// earlier one has a list before every list of the later one.
pub proof fn law_folder_names_keep_first_order(lists: Seq<SidebarList>)
    ensures
        forall|a: int, b: int|
            #![trigger folders_spec(lists)[a], folders_spec(lists)[b]]
            0 <= a < b < folders_spec(lists).len() ==> comes_first(
                lists,
                folders_spec(lists)[a],
                folders_spec(lists)[b],
            ),
    decreases lists.len(),
{
    if lists.len() > 0 {
        let rest = lists.drop_last();
        law_folder_names_keep_first_order(rest);
        law_folder_names_once_each(rest);
        let before = folders_spec(rest);
        let all = folders_spec(lists);
        assert forall|a: int, b: int|
            #![trigger all[a], all[b]]
            0 <= a < b < all.len() implies comes_first(lists, all[a], all[b]) by {
            if b < before.len() {
                assert(all[a] == before[a] && all[b] == before[b]);
                assert(comes_first(rest, before[a], before[b]));
                let i = choose|i: int|
                    0 <= i < rest.len() && in_folder_at(rest, i, before[a]) && forall|j: int|
                        0 <= j <= i ==> !#[trigger] in_folder_at(rest, j, before[b]);
                assert forall|j: int| 0 <= j <= i implies !#[trigger] in_folder_at(lists, j, all[b]) by {
                    assert(lists[j] == rest[j]);
                    assert(!in_folder_at(rest, j, before[b]));
                }
                assert(lists[i] == rest[i]);
                assert(in_folder_at(lists, i, all[a]));
            } else {
                // `all[b]` is the last list's folder, new to `before`.
                let f = lists.last().folder->Some_0@;
                assert(all == before.push(f) && !before.contains(f));
                assert(all[a] == before[a] && all[b] == f);
                assert(before.contains(before[a]));
                let i = choose|i: int|
                    0 <= i < rest.len() && (rest[i].folder is Some && rest[i].folder->Some_0@ == before[a]);
                assert forall|j: int| 0 <= j <= i implies !#[trigger] in_folder_at(lists, j, all[b]) by {
                    assert(lists[j] == rest[j]);
                    if in_folder_at(rest, j, f) {
                        assert(before.contains(f));
                    }
                }
                assert(lists[i] == rest[i]);
                assert(in_folder_at(lists, i, all[a]));
            }
        }
    } else {
        assert(folders_spec(lists).len() == 0);
    }
}

/// Whether `names` holds `name`.
fn holds(names: &Vec<&str>, name: &str) -> (b: bool)
    ensures
        b == Seq::new(names@.len(), |i: int| names@[i]@).contains(name@),
{
    let ghost views = Seq::new(names@.len(), |i: int| names@[i]@);
    let mut i: usize = 0;
    while i < names.len()
        invariant
            i <= names.len(),
            views == Seq::new(names@.len(), |i: int| names@[i]@),
            forall|j: int| 0 <= j < i ==> views[j] != name@,
        decreases names.len() - i,
    {
        if str_eq(names[i], name) {
            assert(views[i as int] == name@);
            return true;
        }
        i = i + 1;
    }
    false
}

/// Every folder `lists` are in, in the order they first come: the
/// daemon's folder order.
pub fn folder_names(lists: &[SidebarList]) -> (names: Vec<&str>)
    ensures
        Seq::new(names@.len(), |i: int| names@[i]@) == folders_spec(lists@),
{
    let mut names: Vec<&str> = Vec::new();
    let mut i: usize = 0;
    while i < lists.len()
        invariant
            i <= lists@.len(),
            Seq::new(names@.len(), |j: int| names@[j]@) == folders_spec(lists@.subrange(0, i as int)),
        decreases lists@.len() - i,
    {
        assert(lists@.subrange(0, i + 1).drop_last() =~= lists@.subrange(0, i as int));
        match &lists[i].folder {
            Some(folder) => {
                if !holds(&names, folder.as_str()) {
                    let ghost prior = names@;
                    names.push(folder.as_str());
                    assert(Seq::new(names@.len(), |j: int| names@[j]@) =~= Seq::new(prior.len(), |j: int| prior[j]@).push(folder@));
                }
            },
            None => {},
        }
        i = i + 1;
    }
    assert(lists@.subrange(0, lists@.len() as int) =~= lists@);
    names
}

/// A group of the Planned view.
#[derive(Clone, Copy, Debug, PartialEq, Eq, Structural)]
pub enum DueGroup {
    Overdue,
    Today,
    Tomorrow,
    /// After tomorrow, up to Sunday.
    ThisWeek,
    Later,
}

/// How many days `day` is after the Monday of its week (0 for Monday, 6
/// for Sunday), as chrono's `Weekday::num_days_from_monday` answers.
pub open spec fn days_from_monday(day: int) -> int {
    (day + 6) % 7
}

/// The group of a task due on `due`, seen on `today`.
pub open spec fn due_group_spec(due: int, today: int) -> DueGroup {
    if due < today {
        DueGroup::Overdue
    } else if due == today {
        DueGroup::Today
    } else if due == today + 1 {
        DueGroup::Tomorrow
    } else if due <= today + (6 - days_from_monday(today)) {
        DueGroup::ThisWeek
    } else {
        DueGroup::Later
    }
}

/// The word each group is headed with.
pub open spec fn due_group_name(group: DueGroup) -> Seq<char> {
    match group {
        DueGroup::Overdue => "Overdue"@,
        DueGroup::Today => "Today"@,
        DueGroup::Tomorrow => "Tomorrow"@,
        DueGroup::ThisWeek => "This week"@,
        DueGroup::Later => "Later"@,
    }
}

impl DueGroup {
    /// The group of a task due on day `due`, seen on day `today`.
    pub fn of(due: i32, today: i32) -> (g: DueGroup)
        ensures
            g == due_group_spec(due as int, today as int),
    {
        let weekday: i64 = ((today as i64) + 6) % 7;
        let weekday: i64 = if weekday < 0 { weekday + 7 } else { weekday };
        assert(weekday == days_from_monday(today as int));
        let days_left_in_week: i64 = 6 - weekday;
        let (due, today) = (due as i64, today as i64);
        if due < today {
            DueGroup::Overdue
        } else if due == today {
            DueGroup::Today
        } else if due == today + 1 {
            DueGroup::Tomorrow
        } else if due <= today + days_left_in_week {
            DueGroup::ThisWeek
        } else {
            DueGroup::Later
        }
    }

    pub fn name(self) -> (s: &'static str)
        ensures
            s@ == due_group_name(self),
    {
        match self {
            DueGroup::Overdue => "Overdue",
            DueGroup::Today => "Today",
            DueGroup::Tomorrow => "Tomorrow",
            DueGroup::ThisWeek => "This week",
            DueGroup::Later => "Later",
        }
    }
}

/// The Planned view's groups after the first tasks, whose due days are
/// `dues` (none for a task without one): each group once, in the order
/// its first task comes, with its tasks' indexes in order.
pub open spec fn planned_spec(dues: Seq<Option<i32>>, today: int) -> Seq<(DueGroup, Seq<usize>)>
    decreases dues.len(),
{
    if dues.len() == 0 {
        Seq::empty()
    } else {
        let before = planned_spec(dues.drop_last(), today);
        let index = (dues.len() - 1) as usize;
        match dues.last() {
            Some(due) => {
                let group = due_group_spec(due as int, today);
                let at = group_index(before, group);
                if at >= 0 {
                    before.update(at, (group, before[at].1.push(index)))
                } else {
                    before.push((group, seq![index]))
                }
            },
            None => before,
        }
    }
}

/// Where `group` is in `groups`, or -1.
pub open spec fn group_index(groups: Seq<(DueGroup, Seq<usize>)>, group: DueGroup) -> int
    decreases groups.len(),
{
    if groups.len() == 0 {
        -1
    } else if groups.last().0 == group {
        groups.len() - 1
    } else {
        group_index(groups.drop_last(), group)
    }
}

/// The Planned view's groups: each group with the tasks in it, soonest
/// first, as indexes into the tasks, whose due days are `dues` (the daemon
/// sorts them by due date).
pub fn planned_groups(dues: &[Option<i32>], today: i32) -> (groups: Vec<(DueGroup, Vec<usize>)>)
    ensures
        Seq::new(groups@.len(), |i: int| (groups@[i].0, groups@[i].1@)) == planned_spec(
            dues@,
            today as int,
        ),
{
    let mut groups: Vec<(DueGroup, Vec<usize>)> = Vec::new();
    let mut i: usize = 0;
    while i < dues.len()
        invariant
            i <= dues@.len(),
            Seq::new(groups@.len(), |j: int| (groups@[j].0, groups@[j].1@)) == planned_spec(
                dues@.subrange(0, i as int),
                today as int,
            ),
        decreases dues@.len() - i,
    {
        let ghost model = Seq::new(groups@.len(), |j: int| (groups@[j].0, groups@[j].1@));
        assert(dues@.subrange(0, i + 1).drop_last() =~= dues@.subrange(0, i as int));
        assert(dues@.subrange(0, i + 1).last() == dues@[i as int]);
        match dues[i] {
            Some(due) => {
                let group = DueGroup::of(due, today);
                let mut k: usize = 0;
                let mut found: Option<usize> = None;
                while k < groups.len()
                    invariant
                        k <= groups.len(),
                        model == Seq::new(groups@.len(), |j: int| (groups@[j].0, groups@[j].1@)),
                        match found {
                            Some(f) => f == group_index(model.subrange(0, k as int), group),
                            None => group_index(model.subrange(0, k as int), group) == -1,
                        },
                    decreases groups.len() - k,
                {
                    assert(model.subrange(0, k + 1).drop_last() =~= model.subrange(0, k as int));
                    if groups[k].0 == group {
                        found = Some(k);
                    }
                    k = k + 1;
                }
                assert(model.subrange(0, groups.len() as int) =~= model);
                proof {
                    lemma_group_index_range(model, group);
                }
                match found {
                    Some(f) => {
                        let mut members = groups[f].1.clone();
                        members.push(i);
                        let entry = (group, members);
                        groups.set(f, entry);
                        assert(Seq::new(groups@.len(), |j: int| (groups@[j].0, groups@[j].1@)) =~= model.update(f as int, (group, model[f as int].1.push(i))));
                    },
                    None => {
                        let mut members: Vec<usize> = Vec::new();
                        members.push(i);
                        groups.push((group, members));
                        assert(Seq::new(groups@.len(), |j: int| (groups@[j].0, groups@[j].1@)) =~= model.push((group, seq![i])));
                    },
                }
            },
            None => {},
        }
        i = i + 1;
    }
    assert(dues@.subrange(0, dues@.len() as int) =~= dues@);
    groups
}

proof fn lemma_group_index_range(groups: Seq<(DueGroup, Seq<usize>)>, group: DueGroup)
    ensures
        -1 <= group_index(groups, group) < groups.len(),
        group_index(groups, group) >= 0 ==> groups[group_index(groups, group)].0 == group,
    decreases groups.len(),
{
    if groups.len() > 0 {
        lemma_group_index_range(groups.drop_last(), group);
    }
}

/// The first day chrono can write: 1 January of year -262143.
pub const FIRST_DAY: i32 = -95746129;

/// The last day chrono can write: 31 December of year 262142.
pub const LAST_DAY: i32 = 95745399;

/// The day `days` written as chrono's `%a %-d %b` writes it ("Mon 21 Sep").
pub uninterp spec fn written_day(days: i32) -> Seq<char>;

/// chrono's `NaiveDate::from_num_days_from_ce_opt`, then `format("%a %-d %b")`:
/// the day's weekday, its day of the month and its month, abbreviated in
/// English. Nothing is claimed of the text but that it is the same for
/// the same day; chrono gives a date for every day in range.
#[verifier::external_body]
fn short_day_text(days: i32) -> (text: String)
    requires
        FIRST_DAY <= days <= LAST_DAY,
    ensures
        text@ == written_day(days),
{
    let date = chrono::NaiveDate::from_num_days_from_ce_opt(days).expect("a day chrono can write");
    date.format("%a %-d %b").to_string()
}

/// The completed tasks' days grouped into runs: each run's day with the
/// indexes of its tasks, in order; a task with the same day as the one
/// before it joins that one's run.
pub open spec fn runs_spec(days: Seq<Option<i32>>) -> Seq<(Option<i32>, Seq<usize>)>
    decreases days.len(),
{
    if days.len() == 0 {
        Seq::empty()
    } else {
        let before = runs_spec(days.drop_last());
        let index = (days.len() - 1) as usize;
        if before.len() > 0 && before.last().0 == days.last() {
            before.update(before.len() - 1, (days.last(), before.last().1.push(index)))
        } else {
            before.push((days.last(), seq![index]))
        }
    }
}

/// The heading of a completed day: "Not synced yet" for a completion Graph
/// hasn't answered, then "Today", "Yesterday", or the day written short.
pub open spec fn completion_heading_spec(day: Option<i32>, today: i32) -> Seq<char> {
    match day {
        None => "Not synced yet"@,
        Some(d) => if d == today {
            "Today"@
        } else if d + 1 == today {
            "Yesterday"@
        } else {
            written_day(d)
        },
    }
}

/// Whether every day among `days` is one chrono can write.
pub open spec fn days_in_range(days: Seq<Option<i32>>) -> bool {
    forall|i: int| 0 <= i < days.len() ==> (#[trigger] days[i] matches Some(d) ==> FIRST_DAY <= d <= LAST_DAY)
}

/// The heading of a completed day.
pub fn completion_heading(day: Option<i32>, today: i32) -> (heading: String)
    requires
        day matches Some(d) ==> FIRST_DAY <= d <= LAST_DAY,
    ensures
        heading@ == completion_heading_spec(day, today),
{
    match day {
        None => "Not synced yet".to_owned(),
        Some(d) => if d == today {
            "Today".to_owned()
        } else if d as i64 + 1 == today as i64 {
            "Yesterday".to_owned()
        } else {
            short_day_text(d)
        },
    }
}

/// The Completed view's groups, newest day first: each day's heading with
/// its tasks, as indexes into the tasks, whose completion days are
/// `completed_on` (the daemon sorts them newest first, and puts a
/// completion Graph hasn't answered yet, with no day, first).
pub fn completed_groups(completed_on: &[Option<i32>], today: i32) -> (groups: Vec<(String, Vec<usize>)>)
    requires
        days_in_range(completed_on@),
    ensures
        groups@.len() == runs_spec(completed_on@).len(),
        forall|j: int|
            0 <= j < groups@.len() ==> {
                &&& (#[trigger] groups@[j]).0@ == completion_heading_spec(runs_spec(completed_on@)[j].0, today)
                &&& groups@[j].1@ == runs_spec(completed_on@)[j].1
            },
{
    let mut runs: Vec<(Option<i32>, Vec<usize>)> = Vec::new();
    let mut i: usize = 0;
    while i < completed_on.len()
        invariant
            i <= completed_on@.len(),
            Seq::new(runs@.len(), |j: int| (runs@[j].0, runs@[j].1@)) == runs_spec(completed_on@.subrange(0, i as int)),
            forall|j: int| 0 <= j < runs@.len() ==> ((#[trigger] runs@[j]).0 matches Some(d) ==> FIRST_DAY <= d <= LAST_DAY),
            days_in_range(completed_on@),
        decreases completed_on@.len() - i,
    {
        let ghost model = Seq::new(runs@.len(), |j: int| (runs@[j].0, runs@[j].1@));
        assert(completed_on@.subrange(0, i + 1).drop_last() =~= completed_on@.subrange(0, i as int));
        assert(completed_on@.subrange(0, i + 1).last() == completed_on@[i as int]);
        let day = completed_on[i];
        assert(day matches Some(d) ==> FIRST_DAY <= d <= LAST_DAY);
        let n = runs.len();
        if n > 0 && runs[n - 1].0 == day {
            let mut last = runs.pop().unwrap();
            last.1.push(i);
            runs.push(last);
            assert(Seq::new(runs@.len(), |j: int| (runs@[j].0, runs@[j].1@)) =~= model.update(
                n - 1,
                (day, model[n - 1].1.push(i)),
            ));
        } else {
            let mut members: Vec<usize> = Vec::new();
            members.push(i);
            runs.push((day, members));
            assert(Seq::new(runs@.len(), |j: int| (runs@[j].0, runs@[j].1@)) =~= model.push((day, seq![i])));
        }
        i = i + 1;
    }
    assert(completed_on@.subrange(0, completed_on@.len() as int) =~= completed_on@);
    let ghost model = Seq::new(runs@.len(), |j: int| (runs@[j].0, runs@[j].1@));
    let mut groups: Vec<(String, Vec<usize>)> = Vec::new();
    let mut k: usize = 0;
    while k < runs.len()
        invariant
            k <= runs@.len(),
            model == Seq::new(runs@.len(), |j: int| (runs@[j].0, runs@[j].1@)),
            model == runs_spec(completed_on@),
            forall|j: int| 0 <= j < runs@.len() ==> ((#[trigger] runs@[j]).0 matches Some(d) ==> FIRST_DAY <= d <= LAST_DAY),
            groups@.len() == k,
            forall|j: int|
                0 <= j < k ==> {
                    &&& (#[trigger] groups@[j]).0@ == completion_heading_spec(model[j].0, today)
                    &&& groups@[j].1@ == model[j].1
                },
        decreases runs@.len() - k,
    {
        let heading = completion_heading(runs[k].0, today);
        let members = runs[k].1.clone();
        groups.push((heading, members));
        k = k + 1;
    }
    groups
}

} // verus!

verus! {

/// What the TUI shows: a smart view, or one list's tasks.
#[derive(Clone, Debug, PartialEq, Eq)]
pub enum Scope {
    Important,
    Planned,
    All,
    Completed,
    List { id: String },
    Unknown,
}

/// A scope as the contracts read it.
pub enum ScopeV {
    Important,
    Planned,
    All,
    Completed,
    List(Seq<char>),
    Unknown,
}

pub open spec fn scope_view(scope: Scope) -> ScopeV {
    match scope {
        Scope::Important => ScopeV::Important,
        Scope::Planned => ScopeV::Planned,
        Scope::All => ScopeV::All,
        Scope::Completed => ScopeV::Completed,
        Scope::List { id } => ScopeV::List(id@),
        Scope::Unknown => ScopeV::Unknown,
    }
}

impl Scope {
    /// A copy of the scope.
    pub fn copy(&self) -> (c: Scope)
        ensures
            scope_view(c) == scope_view(*self),
    {
        match self {
            Scope::Important => Scope::Important,
            Scope::Planned => Scope::Planned,
            Scope::All => Scope::All,
            Scope::Completed => Scope::Completed,
            Scope::List { id } => Scope::List { id: id.clone() },
            Scope::Unknown => Scope::Unknown,
        }
    }

    /// Whether two scopes are the same.
    pub fn same(&self, other: &Scope) -> (b: bool)
        ensures
            b == (scope_view(*self) == scope_view(*other)),
    {
        match (self, other) {
            (Scope::Important, Scope::Important) => true,
            (Scope::Planned, Scope::Planned) => true,
            (Scope::All, Scope::All) => true,
            (Scope::Completed, Scope::Completed) => true,
            (Scope::List { id: a }, Scope::List { id: b }) => str_eq(a.as_str(), b.as_str()),
            (Scope::Unknown, Scope::Unknown) => true,
            _ => false,
        }
    }
}

/// The smart views, in sidebar order.
pub open spec fn views_spec() -> Seq<ScopeV> {
    seq![ScopeV::Important, ScopeV::Planned, ScopeV::All, ScopeV::Completed]
}

/// The smart views, in sidebar order.
pub fn views() -> (v: Vec<Scope>)
    ensures
        v@.map_values(|s: Scope| scope_view(s)) == views_spec(),
{
    let v = vec![Scope::Important, Scope::Planned, Scope::All, Scope::Completed];
    assert(v@.map_values(|s: Scope| scope_view(s)) =~= views_spec());
    v
}

/// A view's name; a list's scope or an unknown one has none here.
pub open spec fn view_name_spec(scope: ScopeV) -> Seq<char> {
    match scope {
        ScopeV::Important => "Important"@,
        ScopeV::Planned => "Planned"@,
        ScopeV::All => "All"@,
        ScopeV::Completed => "Completed"@,
        _ => ""@,
    }
}

pub fn view_name(scope: &Scope) -> (s: &'static str)
    ensures
        s@ == view_name_spec(scope_view(*scope)),
{
    match scope {
        Scope::Important => "Important",
        Scope::Planned => "Planned",
        Scope::All => "All",
        Scope::Completed => "Completed",
        Scope::List { .. } | Scope::Unknown => "",
    }
}

/// A sidebar row: a smart view, a folder, or a list.
#[derive(Clone, Debug, PartialEq, Eq)]
pub enum Entry {
    View(Scope),
    /// A folder's heading; its lists follow it unless it's collapsed.
    Folder {
        name: String,
        collapsed: bool,
        /// Open tasks in all its lists.
        count: u64,
    },
    List {
        id: String,
        name: String,
        /// Whether it's drawn under a folder's heading.
        in_folder: bool,
    },
}

/// A sidebar row as the contracts read it.
pub enum EntryV {
    View(ScopeV),
    Folder(Seq<char>, bool, int),
    List(Seq<char>, Seq<char>, bool),
}

pub open spec fn entry_view(e: Entry) -> EntryV {
    match e {
        Entry::View(s) => EntryV::View(scope_view(s)),
        Entry::Folder { name, collapsed, count } => EntryV::Folder(name@, collapsed, count as int),
        Entry::List { id, name, in_folder } => EntryV::List(id@, name@, in_folder),
    }
}

pub open spec fn entries_view(v: Seq<Entry>) -> Seq<EntryV> {
    v.map_values(|e: Entry| entry_view(e))
}

impl Entry {
    /// What choosing the row shows; a folder's heading shows nothing.
    pub fn scope(&self) -> (r: Option<Scope>)
        ensures
            match entry_view(*self) {
                EntryV::View(s) => r matches Some(x) && scope_view(x) == s,
                EntryV::Folder(..) => r is None,
                EntryV::List(id, _, _) => r matches Some(x) && scope_view(x) == ScopeV::List(id),
            },
    {
        match self {
            Entry::View(scope) => Some(scope.copy()),
            Entry::Folder { .. } => None,
            Entry::List { id, .. } => Some(Scope::List { id: id.clone() }),
        }
    }

    /// Whether `other` is the same row, whatever its count or state.
    pub fn same(&self, other: &Entry) -> (b: bool)
        ensures
            b == match (entry_view(*self), entry_view(*other)) {
                (EntryV::View(a), EntryV::View(b)) => a == b,
                (EntryV::Folder(a, _, _), EntryV::Folder(b, _, _)) => a == b,
                (EntryV::List(a, _, _), EntryV::List(b, _, _)) => a == b,
                _ => false,
            },
    {
        match (self, other) {
            (Entry::View(a), Entry::View(b)) => a.same(b),
            (Entry::Folder { name: a, .. }, Entry::Folder { name: b, .. }) => str_eq(a.as_str(), b.as_str()),
            (Entry::List { id: a, .. }, Entry::List { id: b, .. }) => str_eq(a.as_str(), b.as_str()),
            _ => false,
        }
    }
}

/// A list's row.
pub open spec fn list_row(list: SidebarList) -> EntryV {
    EntryV::List(list.id@, list.name@, list.folder is Some)
}

/// The open tasks `counts` gives a list: the first count for its ID, none
/// when it has none.
pub open spec fn count_of(counts: Seq<(String, u64)>, id: Seq<char>) -> int
    decreases counts.len(),
{
    if counts.len() == 0 {
        0
    } else if counts[0].0@ == id {
        counts[0].1 as int
    } else {
        count_of(counts.drop_first(), id)
    }
}

/// The lists in folder `f`, in order.
pub open spec fn in_folder(lists: Seq<SidebarList>, f: Seq<char>) -> Seq<SidebarList>
    decreases lists.len(),
{
    if lists.len() == 0 {
        lists
    } else {
        let before = in_folder(lists.drop_last(), f);
        if lists.last().folder is Some && lists.last().folder->Some_0@ == f {
            before.push(lists.last())
        } else {
            before
        }
    }
}

/// The lists in no folder, in order.
pub open spec fn loose(lists: Seq<SidebarList>) -> Seq<SidebarList>
    decreases lists.len(),
{
    if lists.len() == 0 {
        lists
    } else {
        let before = loose(lists.drop_last());
        if lists.last().folder is None {
            before.push(lists.last())
        } else {
            before
        }
    }
}

/// The open tasks of all `lists`.
pub open spec fn total(lists: Seq<SidebarList>, counts: Seq<(String, u64)>) -> int
    decreases lists.len(),
{
    if lists.len() == 0 {
        0
    } else {
        total(lists.drop_last(), counts) + count_of(counts, lists.last().id@)
    }
}

/// A folder's heading, then its lists unless it's collapsed.
pub open spec fn folder_block(
    lists: Seq<SidebarList>,
    f: Seq<char>,
    collapsed: Set<Seq<char>>,
    counts: Seq<(String, u64)>,
) -> Seq<EntryV> {
    let members = in_folder(lists, f);
    seq![EntryV::Folder(f, collapsed.contains(f), total(members, counts))] + if collapsed.contains(f) {
        Seq::empty()
    } else {
        members.map_values(|l: SidebarList| list_row(l))
    }
}

/// The blocks of `folders[..n]`.
pub open spec fn folder_blocks(
    lists: Seq<SidebarList>,
    folders: Seq<Seq<char>>,
    n: int,
    collapsed: Set<Seq<char>>,
    counts: Seq<(String, u64)>,
) -> Seq<EntryV>
    decreases n,
{
    if n <= 0 || n > folders.len() {
        Seq::empty()
    } else {
        folder_blocks(lists, folders, n - 1, collapsed, counts) + folder_block(
            lists,
            folders[n - 1],
            collapsed,
            counts,
        )
    }
}

/// The sidebar's rows: the smart views, then each folder with its lists
/// under it unless it's collapsed, then the lists in no folder.
pub open spec fn sidebar_spec(
    lists: Seq<SidebarList>,
    collapsed: Set<Seq<char>>,
    counts: Seq<(String, u64)>,
) -> Seq<EntryV> {
    let folders = folders_spec(lists);
    views_spec().map_values(|s: ScopeV| EntryV::View(s)) + folder_blocks(
        lists,
        folders,
        folders.len() as int,
        collapsed,
        counts,
    ) + loose(lists).map_values(|l: SidebarList| list_row(l))
}

/// The names of the collapsed folders.
pub open spec fn collapsed_set(collapsed: Seq<String>) -> Set<Seq<char>> {
    Set::new(|f: Seq<char>| exists|i: int| 0 <= i < collapsed.len() && #[trigger] collapsed[i]@ == f)
}

/// The open tasks `counts` gives the list `id`.
fn count_for(counts: &[(String, u64)], id: &str) -> (n: u64)
    ensures
        n == count_of(counts@, id@),
{
    let mut i: usize = 0;
    assert(counts@.subrange(0, counts@.len() as int) =~= counts@);
    while i < counts.len()
        invariant
            i <= counts@.len(),
            count_of(counts@, id@) == count_of(counts@.subrange(i as int, counts@.len() as int), id@),
        decreases counts@.len() - i,
    {
        assert(counts@.subrange(i + 1, counts@.len() as int) =~= counts@.subrange(i as int, counts@.len() as int).drop_first());
        if str_eq(counts[i].0.as_str(), id) {
            return counts[i].1;
        }
        i = i + 1;
    }
    0
}

/// Whether the folder `f` is collapsed.
fn is_collapsed(collapsed: &[String], f: &str) -> (b: bool)
    ensures
        b == collapsed_set(collapsed@).contains(f@),
{
    let mut i: usize = 0;
    while i < collapsed.len()
        invariant
            i <= collapsed@.len(),
            forall|j: int| 0 <= j < i ==> collapsed@[j]@ != f@,
        decreases collapsed@.len() - i,
    {
        if str_eq(collapsed[i].as_str(), f) {
            assert(collapsed@[i as int]@ == f@);
            return true;
        }
        i = i + 1;
    }
    false
}

/// The open tasks of a prefix of a folder's lists are no more than all
/// of its lists'.
proof fn lemma_total_grows(lists: Seq<SidebarList>, f: Seq<char>, counts: Seq<(String, u64)>, i: int)
    requires
        0 <= i <= lists.len(),
    ensures
        total(in_folder(lists.subrange(0, i), f), counts) <= total(in_folder(lists, f), counts),
    decreases lists.len() - i,
{
    if i < lists.len() {
        lemma_total_grows(lists, f, counts, i + 1);
        let p = lists.subrange(0, i + 1);
        assert(p.drop_last() =~= lists.subrange(0, i));
        let before = in_folder(lists.subrange(0, i), f);
        if p.last().folder is Some && p.last().folder->Some_0@ == f {
            assert(before.push(p.last()).drop_last() =~= before);
            lemma_count_nonneg(counts, p.last().id@);
        }
    } else {
        assert(lists.subrange(0, i) =~= lists);
    }
}

proof fn lemma_count_nonneg(counts: Seq<(String, u64)>, id: Seq<char>)
    ensures
        0 <= count_of(counts, id) <= u64::MAX,
    decreases counts.len(),
{
    if counts.len() > 0 {
        lemma_count_nonneg(counts.drop_first(), id);
    }
}

/// The sidebar's rows: the smart views, then each folder with its lists
/// under it unless it's collapsed, then the lists in no folder. `lists`
/// come in the daemon's order, folder by folder; `counts` are open tasks
/// by list.
pub fn sidebar_entries(lists: &[SidebarList], collapsed: &[String], counts: &[(String, u64)]) -> (entries: Vec<Entry>)
    requires
        forall|f: Seq<char>| #[trigger] total(in_folder(lists@, f), counts@) <= u64::MAX,
    ensures
        entries_view(entries@) == sidebar_spec(lists@, collapsed_set(collapsed@), counts@),
{
    let ghost cs = collapsed_set(collapsed@);
    let mut entries: Vec<Entry> = Vec::new();
    let vs = views();
    let mut v: usize = 0;
    while v < vs.len()
        invariant
            v <= vs.len(),
            vs@.map_values(|s: Scope| scope_view(s)) == views_spec(),
            entries_view(entries@) == views_spec().subrange(0, v as int).map_values(|s: ScopeV| EntryV::View(s)),
        decreases vs.len() - v,
    {
        let ghost before = entries_view(entries@);
        let c = vs[v].copy();
        assert(views_spec()[v as int] == scope_view(vs@[v as int]));
        assert(scope_view(c) == views_spec()[v as int]);
        entries.push(Entry::View(c));
        assert(entries_view(entries@) =~= before.push(EntryV::View(views_spec()[v as int])));
        assert(views_spec().subrange(0, v + 1).map_values(|s: ScopeV| EntryV::View(s)) =~= views_spec().subrange(0, v as int).map_values(|s: ScopeV| EntryV::View(s)).push(EntryV::View(views_spec()[v as int])));
        v = v + 1;
    }
    assert(views_spec().subrange(0, 4) =~= views_spec());
    let ghost head = entries_view(entries@);
    let folders = folder_names(lists);
    let ghost fs = folders_spec(lists@);
    let mut fi: usize = 0;
    while fi < folders.len()
        invariant
            fi <= folders.len(),
            Seq::new(folders@.len(), |i: int| folders@[i]@) == fs,
            fs == folders_spec(lists@),
            cs == collapsed_set(collapsed@),
            forall|f: Seq<char>| #[trigger] total(in_folder(lists@, f), counts@) <= u64::MAX,
            entries_view(entries@) == head + folder_blocks(lists@, fs, fi as int, cs, counts@),
        decreases folders.len() - fi,
    {
        let f = folders[fi];
        assert(fs[fi as int] == f@);
        let shut = is_collapsed(collapsed, f);
        let mut count: u64 = 0;
        let mut li: usize = 0;
        while li < lists.len()
            invariant
                li <= lists@.len(),
                count == total(in_folder(lists@.subrange(0, li as int), f@), counts@),
                total(in_folder(lists@, f@), counts@) <= u64::MAX,
            decreases lists@.len() - li,
        {
            let ghost p = lists@.subrange(0, li + 1);
            assert(p.drop_last() =~= lists@.subrange(0, li as int));
            assert(p.last() == lists@[li as int]);
            let list = &lists[li];
            let here = match &list.folder {
                Some(name) => str_eq(name.as_str(), f),
                None => false,
            };
            if here {
                let n = count_for(counts, list.id.as_str());
                proof {
                    lemma_total_grows(lists@, f@, counts@, li + 1);
                    let before = in_folder(lists@.subrange(0, li as int), f@);
                    assert(in_folder(p, f@) == before.push(*list));
                    assert(before.push(*list).drop_last() =~= before);
                }
                count = count + n;
            }
            li = li + 1;
        }
        assert(lists@.subrange(0, lists@.len() as int) =~= lists@);
        let ghost before = entries_view(entries@);
        entries.push(Entry::Folder { name: f.to_owned(), collapsed: shut, count });
        let ghost mid = entries_view(entries@);
        assert(mid == before.push(EntryV::Folder(f@, cs.contains(f@), total(in_folder(lists@, f@), counts@))));
        if !shut {
            let mut li: usize = 0;
            while li < lists.len()
                invariant
                    li <= lists@.len(),
                    entries_view(entries@) == mid + in_folder(lists@.subrange(0, li as int), f@).map_values(
                        |l: SidebarList| list_row(l),
                    ),
                decreases lists@.len() - li,
            {
                let ghost p = lists@.subrange(0, li + 1);
                assert(p.drop_last() =~= lists@.subrange(0, li as int));
                assert(p.last() == lists@[li as int]);
                let list = &lists[li];
                let here = match &list.folder {
                    Some(name) => str_eq(name.as_str(), f),
                    None => false,
                };
                if here {
                    let ghost b = entries_view(entries@);
                    entries.push(Entry::List { id: list.id.clone(), name: list.name.clone(), in_folder: true });
                    assert(entries_view(entries@) =~= b.push(list_row(*list)));
                    assert(in_folder(p, f@).map_values(|l: SidebarList| list_row(l)) =~= in_folder(
                        lists@.subrange(0, li as int),
                        f@,
                    ).map_values(|l: SidebarList| list_row(l)).push(list_row(*list)));
                }
                li = li + 1;
            }
            assert(lists@.subrange(0, lists@.len() as int) =~= lists@);
        } else {
            assert(entries_view(entries@) =~= mid + Seq::<EntryV>::empty());
        }
        assert(entries_view(entries@) =~= head + folder_blocks(lists@, fs, fi + 1, cs, counts@));
        fi = fi + 1;
    }
    assert(fs.len() == folders.len());
    let ghost mid = entries_view(entries@);
    let mut li: usize = 0;
    while li < lists.len()
        invariant
            li <= lists@.len(),
            entries_view(entries@) == mid + loose(lists@.subrange(0, li as int)).map_values(|l: SidebarList| list_row(l)),
        decreases lists@.len() - li,
    {
        let ghost p = lists@.subrange(0, li + 1);
        assert(p.drop_last() =~= lists@.subrange(0, li as int));
        assert(p.last() == lists@[li as int]);
        let list = &lists[li];
        if list.folder.is_none() {
            let ghost b = entries_view(entries@);
            entries.push(Entry::List { id: list.id.clone(), name: list.name.clone(), in_folder: false });
            assert(entries_view(entries@) =~= b.push(list_row(*list)));
            assert(loose(p).map_values(|l: SidebarList| list_row(l)) =~= loose(lists@.subrange(0, li as int)).map_values(|l: SidebarList| list_row(l)).push(list_row(*list)));
        }
        li = li + 1;
    }
    assert(lists@.subrange(0, lists@.len() as int) =~= lists@);
    entries
}

} // verus!

verus! {

/// Whether `task`, as it is now, is in `scope`.
pub open spec fn belongs_spec(scope: ScopeV, task: Task) -> bool {
    match scope {
        ScopeV::Important => task.importance == Importance::High && !task.completed,
        ScopeV::Planned => task.due is Some && !task.completed,
        ScopeV::All => !task.completed,
        ScopeV::Completed => task.completed,
        ScopeV::List(id) => task.list_id@ == id,
        ScopeV::Unknown => false,
    }
}

/// Whether `task`, as it is now, is in `scope`.
pub fn belongs(scope: &Scope, task: &Task) -> (b: bool)
    ensures
        b == belongs_spec(scope_view(*scope), *task),
{
    match scope {
        Scope::Important => task.important() && !task.completed,
        Scope::Planned => task.due.is_some() && !task.completed,
        Scope::All => !task.completed,
        Scope::Completed => task.completed,
        Scope::List { id } => str_eq(task.list_id.as_str(), id.as_str()),
        Scope::Unknown => false,
    }
}

/// Where a task goes in a list: open tasks first, then completed ones
/// Graph hasn't answered yet (the newest), then the others, most recently
/// completed first. `(group, value)`, lower first.
pub open spec fn list_key(task: (bool, Option<i64>)) -> (int, int) {
    if !task.0 {
        (0, 0)
    } else {
        match task.1 {
            None => (1, 0),
            Some(at) => (2, -at),
        }
    }
}

/// Whether the task at `i` goes before the one at `j`: a lower key, or the
/// same and earlier (the sort is stable).
pub open spec fn goes_before(tasks: Seq<(bool, Option<i64>)>, i: int, j: int) -> bool {
    let a = list_key(tasks[i]);
    let b = list_key(tasks[j]);
    a.0 < b.0 || (a.0 == b.0 && (a.1 < b.1 || (a.1 == b.1 && i < j)))
}

/// Whether `order` puts every one of `tasks` in the list's order, each
/// once.
pub open spec fn in_list_order(tasks: Seq<(bool, Option<i64>)>, order: Seq<int>) -> bool {
    &&& order.len() == tasks.len()
    &&& forall|k: int| 0 <= k < order.len() ==> 0 <= #[trigger] order[k] < tasks.len()
    &&& forall|a: int, b: int| 0 <= a < b < order.len() ==> goes_before(tasks, #[trigger] order[a], #[trigger] order[b])
}

fn key_of(task: (bool, Option<i64>)) -> (k: (u8, i128))
    ensures
        k.0 as int == list_key(task).0,
        k.1 as int == list_key(task).1,
{
    if !task.0 {
        (0, 0)
    } else {
        match task.1 {
            None => (1, 0),
            Some(at) => (2, -(at as i128)),
        }
    }
}

/// The order tasks show in, as indexes into `tasks` (`(completed, when
/// it was completed)` in the daemon's order): a list's order for a list
/// shown unfiltered; views, and a filtered list (best match first), keep
/// the daemon's order.
pub fn order(scope: &Scope, filtered: bool, tasks: &Vec<(bool, Option<i64>)>) -> (order: Vec<usize>)
    ensures
        if filtered || !(scope_view(*scope) is List) {
            order@.map_values(|i: usize| i as int) == Seq::new(tasks@.len(), |i: int| i)
        } else {
            in_list_order(tasks@, order@.map_values(|i: usize| i as int))
        },
{
    let is_list = match scope {
        Scope::List { .. } => true,
        _ => false,
    };
    if filtered || !is_list {
        let mut same: Vec<usize> = Vec::new();
        let mut i: usize = 0;
        while i < tasks.len()
            invariant
                i <= tasks@.len(),
                same@.len() == i,
                forall|k: int| 0 <= k < i ==> #[trigger] same@[k] == k,
            decreases tasks.len() - i,
        {
            same.push(i);
            i = i + 1;
        }
        assert(same@.map_values(|k: usize| k as int) =~= Seq::new(tasks@.len(), |k: int| k));
        return same;
    }
    list_order(tasks)
}

/// A list's order for its tasks, `(completed, when it was completed)` in
/// the cache's order: open tasks keep their order, then completed ones,
/// most recently completed first, one Graph hasn't answered yet first of
/// all. The indexes of the tasks, in that order.
pub fn list_order(tasks: &Vec<(bool, Option<i64>)>) -> (order: Vec<usize>)
    ensures
        in_list_order(tasks@, order@.map_values(|i: usize| i as int)),
{
    let n = tasks.len();
    let mut keys: Vec<(u8, i128)> = Vec::new();
    let mut i: usize = 0;
    while i < n
        invariant
            n == tasks@.len(),
            i <= n,
            keys@.len() == i,
            forall|k: int| 0 <= k < i ==> (#[trigger] keys@[k]).0 as int == list_key(tasks@[k]).0 && keys@[k].1 as int
                == list_key(tasks@[k]).1,
        decreases n - i,
    {
        keys.push(key_of(tasks[i]));
        i = i + 1;
    }
    let mut picked: Vec<bool> = Vec::new();
    let mut k: usize = 0;
    while k < n
        invariant
            k <= n,
            picked@.len() == k,
            forall|m: int| 0 <= m < k ==> !picked@[m],
            count_marked(picked@) == 0,
        decreases n - k,
    {
        let ghost prior = picked@;
        picked.push(false);
        assert(picked@.drop_last() =~= prior);
        k = k + 1;
    }
    let mut out: Vec<usize> = Vec::new();
    loop
        invariant
            n == tasks@.len(),
            keys@.len() == n,
            picked@.len() == n,
            forall|m: int| 0 <= m < n ==> (#[trigger] keys@[m]).0 as int == list_key(tasks@[m]).0 && keys@[m].1 as int
                == list_key(tasks@[m]).1,
            forall|k: int| 0 <= k < out@.len() ==> #[trigger] out@[k] < n,
            forall|a: int, b: int| 0 <= a < b < out@.len() ==> goes_before(tasks@, #[trigger] out@[a] as int, #[trigger] out@[b] as int),
            forall|m: int| 0 <= m < n ==> (#[trigger] picked@[m] <==> exists|k: int| 0 <= k < out@.len() && out@[k] == m),
            forall|k: int, m: int|
                0 <= k < out@.len() && 0 <= m < n && !picked@[m] ==> #[trigger] goes_before(tasks@, out@[k] as int, m),
            count_marked(picked@) == out@.len(),
        ensures
            in_list_order(tasks@, out@.map_values(|i: usize| i as int)),
        decreases n - count_marked(picked@),
    {
        let mut best: Option<usize> = None;
        let mut j: usize = 0;
        while j < n
            invariant
                n == tasks@.len(),
                keys@.len() == n,
                picked@.len() == n,
                j <= n,
                forall|m: int| 0 <= m < n ==> (#[trigger] keys@[m]).0 as int == list_key(tasks@[m]).0 && keys@[m].1 as int
                    == list_key(tasks@[m]).1,
                match best {
                    Some(b) => b < j && !picked@[b as int] && forall|m: int|
                        0 <= m < j && m != b && !picked@[m] ==> goes_before(tasks@, b as int, m),
                    None => forall|m: int| 0 <= m < j ==> picked@[m],
                },
            decreases n - j,
        {
            if !picked[j] {
                let better = match best {
                    None => true,
                    Some(b) => {
                        let (s, t) = (keys[j], keys[b]);
                        s.0 < t.0 || (s.0 == t.0 && (s.1 < t.1 || (s.1 == t.1 && j < b)))
                    },
                };
                if better {
                    best = Some(j);
                }
            }
            j = j + 1;
        }
        let b = match best {
            Some(b) => b,
            None => {
                proof {
                    let ov = out@.map_values(|i: usize| i as int);
                    assert forall|m: int| 0 <= m < n implies #[trigger] picked@[m] by {}
                    lemma_count_all(picked@);
                    assert(ov.len() == out@.len());
                    assert forall|a: int, b: int| 0 <= a < b < ov.len() implies goes_before(tasks@, #[trigger] ov[a], #[trigger] ov[b]) by {
                        assert(ov[a] == out@[a] as int);
                        assert(ov[b] == out@[b] as int);
                    }
                    assert forall|k: int| 0 <= k < ov.len() implies 0 <= #[trigger] ov[k] < tasks@.len() by {
                        assert(ov[k] == out@[k] as int);
                    }
                }
                break;
            },
        };
        proof {
            lemma_count_mark(picked@, b as int);
            lemma_count_bound(picked@.update(b as int, true));
        }
        let ghost old_out = out@;
        let ghost old_picked = picked@;
        out.push(b);
        picked.set(b, true);
        proof {
            assert forall|m: int| 0 <= m < n implies (#[trigger] picked@[m] <==> exists|k: int| 0 <= k < out@.len() && out@[k] == m) by {
                if m == b {
                    assert(out@[out@.len() - 1] == m);
                } else {
                    assert(picked@[m] == old_picked[m]);
                    if exists|k: int| 0 <= k < old_out.len() && old_out[k] == m {
                        let k = choose|k: int| 0 <= k < old_out.len() && old_out[k] == m;
                        assert(out@[k] == m);
                    }
                    if exists|k: int| 0 <= k < out@.len() && out@[k] == m {
                        let k = choose|k: int| 0 <= k < out@.len() && out@[k] == m;
                        assert(k < old_out.len());
                        assert(old_out[k] == m);
                    }
                }
            }
        }
    }
    out
}

} // verus!

verus! {

pub open spec fn text_in(list: Members, key: Seq<char>) -> Option<Seq<char>> {
    str_of(field(JsonV::Object(members_model(list@)), key))
}

fn text_at(list: &Members, key: &str) -> (r: Option<String>)
    ensures
        match r {
            Some(t) => text_in(*list, key@) == Some(t@),
            None => text_in(*list, key@) is None,
        },
{
    match get(list, key) {
        Some(v) => match v.as_str() {
            Some(s) => Some(s.to_owned()),
            None => None,
        },
        None => None,
    }
}

impl SidebarList {
    /// A list as the daemon sends it: `id`, `displayName` and `folder`;
    /// `None` without an ID or a name.
    pub fn from_entity(list: &Members) -> (r: Option<SidebarList>)
        ensures
            match r {
                Some(l) => {
                    &&& text_in(*list, "id"@) == Some(l.id@)
                    &&& text_in(*list, "displayName"@) == Some(l.name@)
                    &&& match l.folder {
                        Some(f) => text_in(*list, "folder"@) == Some(f@),
                        None => text_in(*list, "folder"@) is None,
                    }
                },
                None => text_in(*list, "id"@) is None || text_in(*list, "displayName"@) is None,
            },
    {
        let id = match text_at(list, "id") {
            Some(t) => t,
            None => return None,
        };
        let name = match text_at(list, "displayName") {
            Some(t) => t,
            None => return None,
        };
        Some(SidebarList { id, name, folder: text_at(list, "folder") })
    }
}

} // verus!
