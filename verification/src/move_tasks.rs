//! "Move to list…": the lists the selected tasks can move to, picked by
//! typing part of a list's name or its folder's.

use vstd::prelude::*;

use crate::palette::{as_ints, rank_order, ranked, texts_view};
use crate::scope::SidebarList;
use crate::text::{concat, lowercase_of, str_eq, trim_spec};

verus! {

/// A list tasks can move to, as the picker shows it.
#[derive(Clone, Debug, PartialEq, Eq)]
pub struct MoveTarget {
    pub id: String,
    pub name: String,
    pub folder: Option<String>,
}

pub open spec fn opt_view(o: Option<String>) -> Option<Seq<char>> {
    match o {
        Some(s) => Some(s@),
        None => None,
    }
}

pub open spec fn target_view(t: MoveTarget) -> (Seq<char>, Seq<char>, Option<Seq<char>>) {
    (t.id@, t.name@, opt_view(t.folder))
}

pub open spec fn list_target(l: SidebarList) -> (Seq<char>, Seq<char>, Option<Seq<char>>) {
    (l.id@, l.name@, opt_view(l.folder))
}

/// The lists the tasks `ids` are in, among the tasks on screen
/// (`(task ID, list ID)`), in order.
pub open spec fn from_lists(tasks: Seq<(String, String)>, ids: Seq<String>) -> Seq<Seq<char>>
    decreases tasks.len(),
{
    if tasks.len() == 0 {
        Seq::empty()
    } else {
        let before = from_lists(tasks.drop_last(), ids);
        if exists|j: int| 0 <= j < ids.len() && #[trigger] ids[j]@ == tasks.last().0@ {
            before.push(tasks.last().1@)
        } else {
            before
        }
    }
}

/// Whether tasks from the lists `from` can move to the list `id`: some
/// of them is elsewhere (any list, when no task is known).
pub open spec fn offered(from: Seq<Seq<char>>, id: Seq<char>) -> bool {
    from.len() == 0 || exists|k: int| 0 <= k < from.len() && #[trigger] from[k] != id
}

/// The lists offered, in the sidebar's order.
pub open spec fn offered_lists(lists: Seq<SidebarList>, from: Seq<Seq<char>>) -> Seq<SidebarList>
    decreases lists.len(),
{
    if lists.len() == 0 {
        lists
    } else if offered(from, lists.last().id@) {
        offered_lists(lists.drop_last(), from).push(lists.last())
    } else {
        offered_lists(lists.drop_last(), from)
    }
}

/// What the picker matches a list by: its name, then its folder's.
pub open spec fn target_label(l: SidebarList) -> Seq<char> {
    match l.folder {
        Some(f) => l.name@ + " "@ + f@,
        None => l.name@,
    }
}

/// What the picker matches each list by, with no keys.
pub open spec fn target_texts(lists: Seq<SidebarList>) -> Seq<(Seq<char>, Seq<char>)> {
    lists.map_values(|l: SidebarList| (target_label(l), Seq::<char>::empty()))
}

/// The lists the tasks `ids` (among the tasks on screen, `(task ID, list
/// ID)`) can move to, best match for `query` first, else in the sidebar's
/// order: every list but one holding every task already.
pub fn move_targets(
    tasks: &Vec<(String, String)>,
    lists: &Vec<SidebarList>,
    ids: &Vec<String>,
    query: &str,
) -> (targets: Vec<MoveTarget>)
    ensures
        exists|order: Seq<int>|
            #[trigger] ranked(
                target_texts(offered_lists(lists@, from_lists(tasks@, ids@))),
                lowercase_of(trim_spec(query@)),
                order,
            ) && targets@.map_values(|t: MoveTarget| target_view(t)) == order.map_values(
                |i: int| list_target(offered_lists(lists@, from_lists(tasks@, ids@))[i]),
            ),
{
    let mut from: Vec<&str> = Vec::new();
    let mut i: usize = 0;
    while i < tasks.len()
        invariant
            i <= tasks@.len(),
            from@.map_values(|s: &str| s@) == from_lists(tasks@.subrange(0, i as int), ids@),
        decreases tasks.len() - i,
    {
        assert(tasks@.subrange(0, i + 1).drop_last() =~= tasks@.subrange(0, i as int));
        assert(tasks@.subrange(0, i + 1).last() == tasks@[i as int]);
        let mut chosen = false;
        let mut j: usize = 0;
        while j < ids.len()
            invariant
                i < tasks@.len(),
                j <= ids@.len(),
                chosen == exists|m: int| 0 <= m < j && #[trigger] ids@[m]@ == tasks@[i as int].0@,
            decreases ids.len() - j,
        {
            if str_eq(ids[j].as_str(), tasks[i].0.as_str()) {
                chosen = true;
            }
            j = j + 1;
        }
        if chosen {
            let ghost prior = from@.map_values(|s: &str| s@);
            from.push(tasks[i].1.as_str());
            assert(from@.map_values(|s: &str| s@) =~= prior.push(tasks@[i as int].1@));
        }
        i = i + 1;
    }
    assert(tasks@.subrange(0, tasks@.len() as int) =~= tasks@);
    let ghost fv = from@.map_values(|s: &str| s@);
    let mut candidates: Vec<&SidebarList> = Vec::new();
    let mut texts: Vec<(String, String)> = Vec::new();
    let mut k: usize = 0;
    while k < lists.len()
        invariant
            k <= lists@.len(),
            fv == from@.map_values(|s: &str| s@),
            candidates@.map_values(|l: &SidebarList| *l) == offered_lists(lists@.subrange(0, k as int), fv),
            texts_view(texts@) == target_texts(candidates@.map_values(|l: &SidebarList| *l)),
        decreases lists.len() - k,
    {
        assert(lists@.subrange(0, k + 1).drop_last() =~= lists@.subrange(0, k as int));
        assert(lists@.subrange(0, k + 1).last() == lists@[k as int]);
        let mut elsewhere = from.len() == 0;
        let mut m: usize = 0;
        while m < from.len()
            invariant
                k < lists@.len(),
                fv == from@.map_values(|s: &str| s@),
                m <= from@.len(),
                elsewhere == (from@.len() == 0 || exists|x: int| 0 <= x < m && #[trigger] fv[x] != lists@[k as int].id@),
            decreases from.len() - m,
        {
            if !str_eq(from[m], lists[k].id.as_str()) {
                assert(fv[m as int] != lists@[k as int].id@);
                elsewhere = true;
            }
            m = m + 1;
        }
        if elsewhere {
            let list = &lists[k];
            let label = match &list.folder {
                Some(f) => {
                    let named = concat(list.name.as_str(), " ");
                    concat(named.as_str(), f.as_str())
                },
                None => list.name.clone(),
            };
            let ghost prior_c = candidates@.map_values(|l: &SidebarList| *l);
            let ghost prior_t = texts_view(texts@);
            candidates.push(list);
            texts.push((label, String::new()));
            assert(candidates@.map_values(|l: &SidebarList| *l) =~= prior_c.push(lists@[k as int]));
            assert(texts_view(texts@) =~= prior_t.push((target_label(lists@[k as int]), Seq::<char>::empty())));
            assert(target_texts(candidates@.map_values(|l: &SidebarList| *l)) =~= prior_t.push(
                (target_label(lists@[k as int]), Seq::<char>::empty()),
            ));
        }
        k = k + 1;
    }
    assert(lists@.subrange(0, lists@.len() as int) =~= lists@);
    let order = rank_order(&texts, query);
    let ghost cv = candidates@.map_values(|l: &SidebarList| *l);
    let ghost ord = as_ints(order@);
    let mut targets: Vec<MoveTarget> = Vec::new();
    let mut r: usize = 0;
    while r < order.len()
        invariant
            cv == candidates@.map_values(|l: &SidebarList| *l),
            ord == as_ints(order@),
            ranked(texts_view(texts@), lowercase_of(trim_spec(query@)), ord),
            texts_view(texts@).len() == candidates@.len(),
            r <= order@.len(),
            targets@.map_values(|t: MoveTarget| target_view(t)) == ord.subrange(0, r as int).map_values(
                |i: int| list_target(cv[i]),
            ),
        decreases order.len() - r,
    {
        assert(ord[r as int] == order@[r as int] as int);
        let list = candidates[order[r]];
        let target = MoveTarget {
            id: list.id.clone(),
            name: list.name.clone(),
            folder: match &list.folder {
                Some(f) => Some(f.clone()),
                None => None,
            },
        };
        let ghost prior = targets@.map_values(|t: MoveTarget| target_view(t));
        targets.push(target);
        assert(targets@.map_values(|t: MoveTarget| target_view(t)) =~= prior.push(target_view(target)));
        assert(ord.subrange(0, r + 1).map_values(|i: int| list_target(cv[i])) =~= ord.subrange(0, r as int).map_values(
            |i: int| list_target(cv[i]),
        ).push(list_target(cv[ord[r as int]])));
        r = r + 1;
    }
    assert(ord.subrange(0, order@.len() as int) =~= ord);
    targets
}

} // verus!
