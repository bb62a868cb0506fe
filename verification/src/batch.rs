//! What a key does to the selection, or to the task under the cursor when
//! nothing is selected: the words a prompt or a banner names them by, who
//! a batch is assigned to, which of them `t` puts in My Day or takes out,
//! and which open tasks on screen are overdue.

use vstd::prelude::*;

use crate::text::{concat, decimal, decimal_spec, str_eq, trim, trim_spec};

verus! {

/// How a prompt names its tasks: one by its title in quotes, several by
/// their count.
pub open spec fn what_spec(titles: Seq<Seq<char>>) -> Option<Seq<char>> {
    if titles.len() == 0 {
        None
    } else if titles.len() == 1 {
        Some("\""@ + titles[0] + "\""@)
    } else {
        Some(decimal_spec(titles.len()) + " tasks"@)
    }
}

pub open spec fn titles_view(titles: Seq<String>) -> Seq<Seq<char>> {
    titles.map_values(|t: String| t@)
}

/// `"Pay rent"` for one task, `3 tasks` for several, nothing for none.
pub fn what(titles: &Vec<String>) -> (w: Option<String>)
    requires
        titles.len() <= u64::MAX,
    ensures
        match w {
            Some(text) => what_spec(titles_view(titles@)) == Some(text@),
            None => what_spec(titles_view(titles@)) is None,
        },
{
    if titles.len() == 0 {
        None
    } else if titles.len() == 1 {
        let quoted = concat("\"", titles[0].as_str());
        Some(concat(quoted.as_str(), "\""))
    } else {
        let count = decimal(titles.len() as u64);
        Some(concat(count.as_str(), " tasks"))
    }
}

/// How `R` names the overdue tasks it asks a day for.
pub open spec fn overdue_what_spec(count: nat) -> Option<Seq<char>> {
    if count == 0 {
        None
    } else if count == 1 {
        Some("1 overdue task"@)
    } else {
        Some(decimal_spec(count) + " overdue tasks"@)
    }
}

/// `1 overdue task`, `4 overdue tasks`; nothing when none is.
pub fn overdue_what(count: u64) -> (w: Option<String>)
    ensures
        match w {
            Some(text) => overdue_what_spec(count as nat) == Some(text@),
            None => overdue_what_spec(count as nat) is None,
        },
{
    if count == 0 {
        None
    } else if count == 1 {
        Some("1 overdue task".to_string())
    } else {
        let n = decimal(count);
        Some(concat(n.as_str(), " overdue tasks"))
    }
}

/// A task on screen as `R` reads it: its ID, whether it is completed, and
/// its due day as a day number, if it has one.
pub struct DueTask {
    pub id: String,
    pub completed: bool,
    pub due: Option<i32>,
}

pub open spec fn is_overdue(task: DueTask, today: int) -> bool {
    !task.completed && (task.due matches Some(d) && d < today)
}

/// The IDs of the open tasks due before `today`, in screen order.
pub open spec fn overdue_spec(tasks: Seq<DueTask>, today: int) -> Seq<Seq<char>>
    decreases tasks.len(),
{
    if tasks.len() == 0 {
        Seq::empty()
    } else {
        let rest = overdue_spec(tasks.drop_last(), today);
        if is_overdue(tasks.last(), today) {
            rest.push(tasks.last().id@)
        } else {
            rest
        }
    }
}

/// The IDs `R` asks a new due day for: every open task on screen whose
/// due day is before `today`.
pub fn overdue_ids(tasks: &Vec<DueTask>, today: i32) -> (ids: Vec<String>)
    ensures
        titles_view(ids@) == overdue_spec(tasks@, today as int),
        ids.len() <= tasks.len(),
{
    let mut ids: Vec<String> = Vec::new();
    let mut i: usize = 0;
    while i < tasks.len()
        invariant
            i <= tasks.len(),
            titles_view(ids@) == overdue_spec(tasks@.subrange(0, i as int), today as int),
            ids.len() <= i,
        decreases tasks.len() - i,
    {
        assert(tasks@.subrange(0, i + 1).drop_last() =~= tasks@.subrange(0, i as int));
        let task = &tasks[i];
        let late = match task.due {
            Some(d) => !task.completed && d < today,
            None => false,
        };
        if late {
            ids.push(task.id.clone());
            assert(titles_view(ids@) =~= overdue_spec(tasks@.subrange(0, i as int), today as int).push(task.id@));
        }
        i = i + 1;
    }
    assert(tasks@.subrange(0, tasks.len() as int) =~= tasks@);
    ids
}

pub open spec fn opt_view(o: Option<String>) -> Option<Seq<char>> {
    match o {
        Some(s) => Some(s@),
        None => None,
    }
}

/// The name every one of `names` has, if they all have the same one.
pub open spec fn shared_spec(names: Seq<Option<Seq<char>>>) -> Option<Seq<char>> {
    if names.len() > 0 && names[0] is Some
        && forall|i: int| 0 <= i < names.len() ==> #[trigger] names[i] == names[0] {
        names[0]
    } else {
        None
    }
}

pub open spec fn names_view(names: Seq<Option<String>>) -> Seq<Option<Seq<char>>> {
    names.map_values(|n: Option<String>| opt_view(n))
}

/// What `W`'s prompt starts from: the assignee the tasks share, when the
/// first has one and every other has the same.
pub fn shared_name(names: &Vec<Option<String>>) -> (shared: Option<String>)
    ensures
        opt_view(shared) == shared_spec(names_view(names@)),
{
    if names.len() == 0 {
        return None;
    }
    let first = match &names[0] {
        Some(n) => n,
        None => return None,
    };
    let ghost v = names_view(names@);
    let mut i: usize = 1;
    while i < names.len()
        invariant
            1 <= i <= names.len(),
            v == names_view(names@),
            v.len() == names.len(),
            v[0] == Some(first@),
            forall|j: int| 0 <= j < i ==> #[trigger] v[j] == v[0],
        decreases names.len() - i,
    {
        let same = match &names[i] {
            Some(n) => str_eq(n.as_str(), first.as_str()),
            None => false,
        };
        if !same {
            assert(v[i as int] != v[0]);
            return None;
        }
        i = i + 1;
    }
    Some(first.clone())
}

/// Who a batch is assigned to from what was typed: the name without the
/// spaces around it, or nobody when that leaves nothing.
pub open spec fn assignee_spec(typed: Seq<char>) -> Option<Seq<char>> {
    if trim_spec(typed).len() == 0 {
        None
    } else {
        Some(trim_spec(typed))
    }
}

/// The assignee `W` sends: `None` clears it.
pub fn assignee(typed: &str) -> (name: Option<String>)
    ensures
        opt_view(name) == assignee_spec(typed@),
{
    let name = trim(typed);
    if name.unicode_len() == 0 {
        None
    } else {
        Some(name)
    }
}

/// What `t` does to its tasks.
#[derive(Debug, PartialEq, Eq)]
pub enum MyDayToggle {
    /// Puts these in today's My Day.
    Add(Vec<String>),
    /// Takes these out of it.
    Remove(Vec<String>),
}

/// `t`'s tasks: each one's ID and whether it is in today's My Day.
pub open spec fn not_in_spec(targets: Seq<(String, bool)>) -> Seq<Seq<char>>
    decreases targets.len(),
{
    if targets.len() == 0 {
        Seq::empty()
    } else {
        let rest = not_in_spec(targets.drop_last());
        if targets.last().1 {
            rest
        } else {
            rest.push(targets.last().0@)
        }
    }
}

pub open spec fn ids_spec(targets: Seq<(String, bool)>) -> Seq<Seq<char>> {
    targets.map_values(|t: (String, bool)| t.0@)
}

pub open spec fn all_in(targets: Seq<(String, bool)>) -> bool {
    forall|i: int| 0 <= i < targets.len() ==> (#[trigger] targets[i]).1
}

/// What `t` does: puts in My Day those not in it yet; when all are in
/// already, takes them all out.
pub open spec fn toggle_spec(targets: Seq<(String, bool)>) -> (bool, Seq<Seq<char>>) {
    if all_in(targets) {
        (false, ids_spec(targets))
    } else {
        (true, not_in_spec(targets))
    }
}

pub open spec fn toggle_view(t: MyDayToggle) -> (bool, Seq<Seq<char>>) {
    match t {
        MyDayToggle::Add(ids) => (true, titles_view(ids@)),
        MyDayToggle::Remove(ids) => (false, titles_view(ids@)),
    }
}

proof fn lemma_not_in_empty(targets: Seq<(String, bool)>)
    ensures
        all_in(targets) <==> not_in_spec(targets).len() == 0,
    decreases targets.len(),
{
    if targets.len() > 0 {
        let init = targets.drop_last();
        lemma_not_in_empty(init);
        if all_in(targets) {
            assert forall|i: int| 0 <= i < init.len() implies (#[trigger] init[i]).1 by {
                assert(init[i] == targets[i]);
            }
            assert(targets[targets.len() - 1].1);
        } else {
            let k = choose|k: int| 0 <= k < targets.len() && !(#[trigger] targets[k]).1;
            if k < targets.len() - 1 {
                assert(init[k] == targets[k]);
                assert(!all_in(init));
            } else {
                assert(!targets.last().1);
            }
        }
    }
}

/// What `t` does to `targets`, or nothing for no targets.
pub fn toggle_my_day(targets: &Vec<(String, bool)>) -> (t: Option<MyDayToggle>)
    ensures
        match t {
            Some(toggle) => targets.len() > 0 && toggle_view(toggle) == toggle_spec(targets@),
            None => targets.len() == 0,
        },
{
    if targets.len() == 0 {
        return None;
    }
    let mut out: Vec<String> = Vec::new();
    let mut all: Vec<String> = Vec::new();
    let mut i: usize = 0;
    while i < targets.len()
        invariant
            i <= targets.len(),
            titles_view(out@) == not_in_spec(targets@.subrange(0, i as int)),
            titles_view(all@) == ids_spec(targets@.subrange(0, i as int)),
        decreases targets.len() - i,
    {
        assert(targets@.subrange(0, i + 1).drop_last() =~= targets@.subrange(0, i as int));
        let id = targets[i].0.clone();
        if !targets[i].1 {
            out.push(id.clone());
            assert(titles_view(out@) =~= not_in_spec(targets@.subrange(0, i as int)).push(id@));
        }
        let ghost prev = all@;
        all.push(id);
        assert(titles_view(all@) =~= titles_view(prev).push(targets@[i as int].0@));
        assert(ids_spec(targets@.subrange(0, i + 1)) =~= ids_spec(targets@.subrange(0, i as int)).push(targets@[i as int].0@));
        i = i + 1;
    }
    assert(targets@.subrange(0, targets.len() as int) =~= targets@);
    proof {
        lemma_not_in_empty(targets@);
    }
    if out.len() == 0 {
        Some(MyDayToggle::Remove(all))
    } else {
        Some(MyDayToggle::Add(out))
    }
}

/// The targets once `toggle` is done: each in My Day when it was added,
/// out of it when it was removed.
pub open spec fn after_toggle(targets: Seq<(String, bool)>, toggle: (bool, Seq<Seq<char>>)) -> Seq<(String, bool)> {
    targets.map_values(|t: (String, bool)| (t.0, if toggle.0 { t.1 || toggle.1.contains(t.0@) } else { false }))
}

/// `t` undoes itself: once `t` has put a selection in My Day, every task
/// of it is there, so `t` again takes them all out; once it has taken
/// them out, `t` again puts them all in.
pub proof fn law_my_day_toggle_flips(targets: Seq<(String, bool)>)
    requires
        targets.len() > 0,
    ensures
        ({
            let after = after_toggle(targets, toggle_spec(targets));
            &&& toggle_spec(targets).0 ==> toggle_spec(after) == (false, ids_spec(targets))
            &&& !toggle_spec(targets).0 ==> toggle_spec(after) == (true, ids_spec(targets))
        }),
{
    let toggle = toggle_spec(targets);
    let after = after_toggle(targets, toggle);
    assert(ids_spec(after) =~= ids_spec(targets));
    if toggle.0 {
        lemma_not_in_members(targets);
        assert forall|i: int| 0 <= i < after.len() implies (#[trigger] after[i]).1 by {
            if !targets[i].1 {
                assert(not_in_spec(targets).contains(targets[i].0@));
            }
        }
    } else {
        assert(!all_in(after)) by {
            assert(!after[0].1);
        }
        lemma_none_in(after);
    }
}

/// Every task not in My Day is among those `t` adds.
proof fn lemma_not_in_members(targets: Seq<(String, bool)>)
    ensures
        forall|i: int| 0 <= i < targets.len() && !(#[trigger] targets[i]).1 ==> not_in_spec(targets).contains(targets[i].0@),
    decreases targets.len(),
{
    if targets.len() > 0 {
        let init = targets.drop_last();
        lemma_not_in_members(init);
        assert forall|i: int| 0 <= i < targets.len() && !(#[trigger] targets[i]).1 implies not_in_spec(targets).contains(targets[i].0@) by {
            if i < targets.len() - 1 {
                assert(init[i] == targets[i]);
                let j = choose|j: int| 0 <= j < not_in_spec(init).len() && not_in_spec(init)[j] == targets[i].0@;
                if !targets.last().1 {
                    assert(not_in_spec(targets)[j] == targets[i].0@);
                }
            } else {
                assert(not_in_spec(targets).last() == targets[i].0@);
            }
        }
    }
}

/// When none is in My Day, `t` adds every one of them.
proof fn lemma_none_in(targets: Seq<(String, bool)>)
    requires
        forall|i: int| 0 <= i < targets.len() ==> !(#[trigger] targets[i]).1,
    ensures
        not_in_spec(targets) == ids_spec(targets),
    decreases targets.len(),
{
    if targets.len() > 0 {
        lemma_none_in(targets.drop_last());
        assert(ids_spec(targets.drop_last()).push(targets.last().0@) =~= ids_spec(targets));
    } else {
        assert(ids_spec(targets) =~= Seq::<Seq<char>>::empty());
    }
}

/// What the banner says once `t`'s change came back: `titles` are the
/// tasks it changed; nothing when none was.
pub open spec fn my_day_text(removed: bool, titles: Seq<Seq<char>>) -> Option<Seq<char>> {
    match what_spec(titles) {
        Some(w) => Some(
            if removed {
                "Took "@ + w + " out of My Day; u puts it back"@
            } else {
                "Added "@ + w + " to My Day; u takes it out"@
            },
        ),
        None => None,
    }
}

/// The banner after `t`: `Added "Pay rent" to My Day; u takes it out`.
/// `None` when nothing changed.
pub fn my_day_changed(removed: bool, titles: &Vec<String>) -> (text: Option<String>)
    requires
        titles.len() <= u64::MAX,
    ensures
        opt_view(text) == my_day_text(removed, titles_view(titles@)),
{
    let w = match what(titles) {
        Some(w) => w,
        None => return None,
    };
    if removed {
        let a = concat("Took ", w.as_str());
        Some(concat(a.as_str(), " out of My Day; u puts it back"))
    } else {
        let a = concat("Added ", w.as_str());
        Some(concat(a.as_str(), " to My Day; u takes it out"))
    }
}

} // verus!
