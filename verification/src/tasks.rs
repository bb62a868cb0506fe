//! Applying one list's full enumeration of tasks, and the daemon's own
//! writes: what each task Graph returned does to its cached row, which
//! tasks need their extension fetched, and which cached tasks are gone.

use vstd::prelude::*;

use crate::text::str_eq;

verus! {

/// A task row as an enumeration compares against it.
#[derive(Clone, Debug, PartialEq, Eq)]
pub struct CachedTask {
    pub local_id: String,
    pub list_local_id: String,
    pub raw_json: String,
    pub extension_json: Option<String>,
    pub hydrated_etag: Option<String>,
    pub deleted: bool,
    pub local_rev: i64,
}

/// What an enumeration does with one task Graph returned.
#[derive(Debug, PartialEq, Eq)]
pub enum TaskUpsert {
    /// Left alone: the daemon wrote the row after the pass's read began,
    /// or nothing about it changed.
    Skip,
    /// Written, under the cached row's local ID or, for `None`, a new one,
    /// with this extension and the etag it was fetched at; `changed` says
    /// whether the row counts as changed (a new etag alone doesn't).
    Write {
        local_id: Option<String>,
        extension_json: Option<String>,
        hydrated_etag: Option<String>,
        changed: bool,
    },
}

pub open spec fn opt_view(o: Option<String>) -> Option<Seq<char>> {
    match o {
        Some(s) => Some(s@),
        None => None,
    }
}

fn same_opt(a: &Option<String>, b: &Option<String>) -> (r: bool)
    ensures
        r == (opt_view(*a) == opt_view(*b)),
{
    match (a, b) {
        (Some(x), Some(y)) => str_eq(x.as_str(), y.as_str()),
        (None, None) => true,
        _ => false,
    }
}

fn copy_opt(o: &Option<String>) -> (c: Option<String>)
    ensures
        opt_view(c) == opt_view(*o),
{
    match o {
        Some(s) => Some(s.clone()),
        None => None,
    }
}

/// A decision as the contracts read it.
pub enum TaskUpsertV {
    Skip,
    Write(Option<Seq<char>>, Option<Seq<char>>, Option<Seq<char>>, bool),
}

pub open spec fn upsert_view(u: TaskUpsert) -> TaskUpsertV {
    match u {
        TaskUpsert::Skip => TaskUpsertV::Skip,
        TaskUpsert::Write { local_id, extension_json, hydrated_etag, changed } => TaskUpsertV::Write(
            opt_view(local_id),
            opt_view(extension_json),
            opt_view(hydrated_etag),
            changed,
        ),
    }
}

/// What a pass read at `rev` for the list `list` does with a task Graph
/// returned as `raw_json`, cached as `existing`. `fetched` holds the
/// extension and the etag, when the pass fetched the extension at the
/// task's etag; otherwise the cached ones are kept.
pub open spec fn task_upsert_spec(
    existing: Option<CachedTask>,
    rev: i64,
    list: Seq<char>,
    raw_json: Seq<char>,
    fetched: Option<(Option<Seq<char>>, Option<Seq<char>>)>,
) -> TaskUpsertV {
    match existing {
        Some(c) => if c.local_rev > rev {
            TaskUpsertV::Skip
        } else {
            let (ext, etag) = match fetched {
                Some(f) => f,
                None => (opt_view(c.extension_json), opt_view(c.hydrated_etag)),
            };
            let changed = c.list_local_id@ != list || c.raw_json@ != raw_json || opt_view(c.extension_json)
                != ext || c.deleted;
            if !changed && opt_view(c.hydrated_etag) == etag {
                TaskUpsertV::Skip
            } else {
                TaskUpsertV::Write(Some(c.local_id@), ext, etag, changed)
            }
        },
        None => {
            let (ext, etag) = match fetched {
                Some(f) => f,
                None => (None, None),
            };
            TaskUpsertV::Write(None, ext, etag, true)
        },
    }
}

pub open spec fn fetched_view(f: Option<(Option<String>, Option<String>)>) -> Option<(Option<Seq<char>>, Option<Seq<char>>)> {
    match f {
        Some((e, t)) => Some((opt_view(e), opt_view(t))),
        None => None,
    }
}

/// What an enumeration does with one task: rows the daemon wrote after
/// the pass's read are left alone, an unchanged row is skipped, any other
/// is written, and a task not cached is inserted.
pub fn task_upsert(
    existing: Option<CachedTask>,
    rev: i64,
    list: &str,
    raw_json: &str,
    fetched: Option<(Option<String>, Option<String>)>,
) -> (r: TaskUpsert)
    ensures
        upsert_view(r) == task_upsert_spec(existing, rev, list@, raw_json@, fetched_view(fetched)),
{
    match existing {
        Some(c) => {
            if c.local_rev > rev {
                return TaskUpsert::Skip;
            }
            let (ext, etag) = match fetched {
                Some(f) => f,
                None => (copy_opt(&c.extension_json), copy_opt(&c.hydrated_etag)),
            };
            let changed = !str_eq(c.list_local_id.as_str(), list) || !str_eq(c.raw_json.as_str(), raw_json)
                || !same_opt(&c.extension_json, &ext) || c.deleted;
            if !changed && same_opt(&c.hydrated_etag, &etag) {
                TaskUpsert::Skip
            } else {
                TaskUpsert::Write { local_id: Some(c.local_id), extension_json: ext, hydrated_etag: etag, changed }
            }
        },
        None => {
            let (ext, etag) = match fetched {
                Some(f) => f,
                None => (None, None),
            };
            TaskUpsert::Write { local_id: None, extension_json: ext, hydrated_etag: etag, changed: true }
        },
    }
}

/// What a write the daemon made itself records: the cached row's local ID
/// (`None` for a new one), and the extension and the etag it is known at.
/// A write that knows the extension (a create sends it) records it at the
/// task's etag; otherwise the cached ones stay.
pub open spec fn local_write_spec(
    existing: Option<(Seq<char>, Option<Seq<char>>, Option<Seq<char>>)>,
    extension: Option<Option<Seq<char>>>,
    etag: Option<Seq<char>>,
) -> (Option<Seq<char>>, Option<Seq<char>>, Option<Seq<char>>) {
    match (existing, extension) {
        (e, Some(ext)) => (
            match e {
                Some(row) => Some(row.0),
                None => None,
            },
            ext,
            etag,
        ),
        (Some(row), None) => (Some(row.0), row.1, row.2),
        (None, None) => (None, None, None),
    }
}

pub open spec fn row_view(r: Option<(String, Option<String>, Option<String>)>) -> Option<(Seq<char>, Option<Seq<char>>, Option<Seq<char>>)> {
    match r {
        Some((id, e, t)) => Some((id@, opt_view(e), opt_view(t))),
        None => None,
    }
}

/// What a write the daemon made itself records for the task.
pub fn local_write(
    existing: Option<(String, Option<String>, Option<String>)>,
    extension: Option<Option<String>>,
    etag: Option<String>,
) -> (r: (Option<String>, Option<String>, Option<String>))
    ensures
        (opt_view(r.0), opt_view(r.1), opt_view(r.2)) == local_write_spec(
            row_view(existing),
            match extension {
                Some(e) => Some(opt_view(e)),
                None => None,
            },
            opt_view(etag),
        ),
{
    match (existing, extension) {
        (e, Some(ext)) => (
            match e {
                Some(row) => Some(row.0),
                None => None,
            },
            ext,
            etag,
        ),
        (Some(row), None) => (Some(row.0), row.1, row.2),
        (None, None) => (None, None, None),
    }
}

/// The etag `id`'s extension was last fetched at, as the cache has it:
/// the last row for `id` counts; `None` when none was fetched.
pub open spec fn hydrated_at(hydrated: Seq<(String, Option<String>)>, id: Seq<char>) -> Option<Seq<char>>
    decreases hydrated.len(),
{
    if hydrated.len() == 0 {
        None
    } else if hydrated.last().0@ == id {
        opt_view(hydrated.last().1)
    } else {
        hydrated_at(hydrated.drop_last(), id)
    }
}

/// Whether a task at `etag` needs its extension fetched: it has no etag,
/// or its extension wasn't fetched at that one.
pub open spec fn needs_hydration(hydrated: Seq<(String, Option<String>)>, id: Seq<char>, etag: Option<Seq<char>>) -> bool {
    etag is None || hydrated_at(hydrated, id) != etag
}

fn hydrated_etag_of<'a>(hydrated: &'a Vec<(String, Option<String>)>, id: &str) -> (r: Option<&'a Option<String>>)
    ensures
        match r {
            Some(e) => hydrated_at(hydrated@, id@) == opt_view(*e),
            None => hydrated_at(hydrated@, id@) is None,
        },
{
    let mut i: usize = hydrated.len();
    assert(hydrated@.subrange(0, hydrated@.len() as int) =~= hydrated@);
    while i > 0
        invariant
            i <= hydrated@.len(),
            forall|j: int| i <= j < hydrated@.len() ==> (#[trigger] hydrated@[j]).0@ != id@,
            hydrated_at(hydrated@, id@) == hydrated_at(hydrated@.subrange(0, i as int), id@),
        decreases i,
    {
        assert(hydrated@.subrange(0, i as int).drop_last() =~= hydrated@.subrange(0, i - 1));
        if str_eq(hydrated[i - 1].0.as_str(), id) {
            return Some(&hydrated[i - 1].1);
        }
        i = i - 1;
    }
    None
}

/// Whether some task of `tasks` (`(graph_id, etag)`) is `id` and needs
/// its extension fetched.
pub open spec fn needing(tasks: Seq<(String, Option<String>)>, hydrated: Seq<(String, Option<String>)>, id: Seq<char>) -> bool {
    exists|k: int| 0 <= k < tasks.len() && (#[trigger] tasks[k]).0@ == id && needs_hydration(hydrated, id, opt_view(tasks[k].1))
}

/// The IDs of `tasks` needing their extension fetched, each once, in the
/// order they first come.
pub open spec fn needing_in_order(tasks: Seq<(String, Option<String>)>, hydrated: Seq<(String, Option<String>)>) -> Seq<Seq<char>>
    decreases tasks.len(),
{
    if tasks.len() == 0 {
        Seq::empty()
    } else {
        let before = needing_in_order(tasks.drop_last(), hydrated);
        let t = tasks.last();
        if needs_hydration(hydrated, t.0@, opt_view(t.1)) && !before.contains(t.0@) {
            before.push(t.0@)
        } else {
            before
        }
    }
}

/// The Graph IDs among `tasks` (`(graph_id, etag)`) whose extension hasn't
/// been fetched at that etag, each once and in the order of `tasks`, given the etags the cache has
/// fetched at (`hydrated`, every cached task's, so a task moved from
/// another list counts as seen).
pub fn needing_hydration(tasks: &Vec<(String, Option<String>)>, hydrated: &Vec<(String, Option<String>)>) -> (ids: Vec<String>)
    ensures
        forall|i: int, j: int| 0 <= i < j < ids@.len() ==> ids@[i]@ != ids@[j]@,
        forall|id: Seq<char>| #![trigger holds(ids@, id)] #![trigger needing(tasks@, hydrated@, id)]
            holds(ids@, id) <==> needing(tasks@, hydrated@, id),
        ids@.map_values(|s: String| s@) == needing_in_order(tasks@, hydrated@),
{
    let mut ids: Vec<String> = Vec::new();
    let mut k: usize = 0;
    while k < tasks.len()
        invariant
            k <= tasks@.len(),
            forall|i: int, j: int| 0 <= i < j < ids@.len() ==> ids@[i]@ != ids@[j]@,
            forall|id: Seq<char>| #![trigger holds(ids@, id)] #![trigger needing(tasks@.subrange(0, k as int), hydrated@, id)]
                holds(ids@, id) <==> needing(tasks@.subrange(0, k as int), hydrated@, id),
            ids@.map_values(|s: String| s@) == needing_in_order(tasks@.subrange(0, k as int), hydrated@),
        decreases tasks.len() - k,
    {
        let id = tasks[k].0.as_str();
        let needs = match &tasks[k].1 {
            None => true,
            Some(etag) => match hydrated_etag_of(hydrated, id) {
                Some(Some(h)) => !str_eq(h.as_str(), etag.as_str()),
                _ => true,
            },
        };
        assert(needs == needs_hydration(hydrated@, id@, opt_view(tasks@[k as int].1)));
        let present = contains_id(&ids, id);
        let ghost before = ids@;
        let ghost prefix = tasks@.subrange(0, k as int);
        let ghost next = tasks@.subrange(0, k + 1);
        proof {
            let v = before.map_values(|s: String| s@);
            assert(next.drop_last() =~= prefix);
            if present {
                let i = choose|i: int| 0 <= i < before.len() && #[trigger] before[i]@ == id@;
                assert(v[i] == id@);
                assert(v.contains(id@));
            } else {
                assert forall|i: int| 0 <= i < v.len() implies v[i] != id@ by {
                    assert(before[i]@ == v[i]);
                }
                assert(!v.contains(id@));
            }
        }
        if needs && !present {
            ids.push(tasks[k].0.clone());
            assert(ids@.map_values(|s: String| s@) =~= before.map_values(|s: String| s@).push(id@));
        }
        assert forall|x: Seq<char>| #![trigger holds(ids@, x)] #![trigger needing(next, hydrated@, x)]
            holds(ids@, x) <==> needing(next, hydrated@, x) by {
            assert(next[k as int] == tasks@[k as int]);
            if needing(next, hydrated@, x) {
                let m = choose|m: int| 0 <= m < next.len() && (#[trigger] next[m]).0@ == x && needs_hydration(hydrated@, x, opt_view(next[m].1));
                if m < k {
                    assert(prefix[m] == next[m]);
                    assert(needing(prefix, hydrated@, x));
                    let i = choose|i: int| 0 <= i < before.len() && #[trigger] before[i]@ == x;
                    assert(ids@[i] == before[i]);
                } else if !present {
                    assert(ids@[before.len() as int]@ == x);
                } else {
                    let i = choose|i: int| 0 <= i < before.len() && #[trigger] before[i]@ == x;
                    assert(ids@[i] == before[i]);
                }
            }
            if holds(ids@, x) {
                let i = choose|i: int| 0 <= i < ids@.len() && #[trigger] ids@[i]@ == x;
                if i < before.len() {
                    assert(before[i]@ == x);
                    assert(holds(before, x));
                    let m = choose|m: int| 0 <= m < prefix.len() && (#[trigger] prefix[m]).0@ == x && needs_hydration(hydrated@, x, opt_view(prefix[m].1));
                    assert(next[m] == prefix[m]);
                } else {
                    assert(tasks@[k as int].0@ == x);
                }
            }
        }
        k = k + 1;
    }
    assert(tasks@.subrange(0, tasks@.len() as int) =~= tasks@);
    ids
}

/// Whether `id` is among `ids`.
pub open spec fn holds(ids: Seq<String>, id: Seq<char>) -> bool {
    exists|j: int| 0 <= j < ids.len() && #[trigger] ids[j]@ == id
}

fn contains_id(ids: &Vec<String>, id: &str) -> (b: bool)
    ensures
        b == holds(ids@, id@),
{
    let mut i: usize = 0;
    while i < ids.len()
        invariant
            i <= ids@.len(),
            forall|j: int| 0 <= j < i ==> (#[trigger] ids@[j])@ != id@,
        decreases ids.len() - i,
    {
        if str_eq(ids[i].as_str(), id) {
            return true;
        }
        i = i + 1;
    }
    false
}

/// The live tasks of the list, in order, that the enumeration no longer
/// has: not seen, or seen but found deleted since.
pub open spec fn unseen_tasks_spec(live: Seq<String>, seen: Seq<String>, gone: Seq<String>) -> Seq<Seq<char>>
    decreases live.len(),
{
    if live.len() == 0 {
        Seq::empty()
    } else {
        let before = unseen_tasks_spec(live.drop_last(), seen, gone);
        let id = live.last()@;
        if holds(seen, id) && !holds(gone, id) {
            before
        } else {
            before.push(id)
        }
    }
}

/// The tasks a full enumeration tombstones, among the list's live ones
/// with a Graph ID.
pub fn unseen_tasks(live: &Vec<String>, seen: &Vec<String>, gone: &Vec<String>) -> (out: Vec<String>)
    ensures
        out@.map_values(|s: String| s@) == unseen_tasks_spec(live@, seen@, gone@),
{
    let mut out: Vec<String> = Vec::new();
    let mut i: usize = 0;
    while i < live.len()
        invariant
            i <= live@.len(),
            out@.map_values(|s: String| s@) == unseen_tasks_spec(live@.subrange(0, i as int), seen@, gone@),
        decreases live.len() - i,
    {
        assert(live@.subrange(0, i + 1).drop_last() =~= live@.subrange(0, i as int));
        assert(live@.subrange(0, i + 1).last() == live@[i as int]);
        let id = live[i].as_str();
        if !(contains_id(seen, id) && !contains_id(gone, id)) {
            let ghost prior = out@.map_values(|s: String| s@);
            out.push(live[i].clone());
            assert(out@.map_values(|s: String| s@) =~= prior.push(live@[i as int]@));
        }
        i = i + 1;
    }
    assert(live@.subrange(0, live@.len() as int) =~= live@);
    out
}

} // verus!
