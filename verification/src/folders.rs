//! Folders in the sidebar: which folder a list is in, the folders the
//! "Move list to folder…" prompt suggests, and where the sidebar's cursor
//! goes back to as rows come and go.

use vstd::prelude::*;

use crate::scope::{
    entries_view, entry_view, folder_names, folders_spec, scope_view, view_name, view_name_spec, Entry,
    EntryV, Scope, ScopeV, SidebarList,
};
use crate::text::{concat, has_prefix, has_prefix_spec, lowercase_of, str_eq, to_lowercase, trim, trim_spec};

verus! {

/// The most folder names the move prompt suggests at once.
pub const MAX_SUGGESTIONS: usize = 5;

/// Whether `i` is the first of `lists` whose ID is `id`.
pub open spec fn is_first(lists: Seq<SidebarList>, id: Seq<char>, i: int) -> bool {
    &&& 0 <= i < lists.len()
    &&& lists[i].id@ == id
    &&& forall|j: int| 0 <= j < i ==> (#[trigger] lists[j]).id@ != id
}

/// The first of `lists` whose ID is `id`, if any.
pub open spec fn find_list(lists: Seq<SidebarList>, id: Seq<char>) -> Option<SidebarList> {
    if exists|i: int| is_first(lists, id, i) {
        Some(lists[choose|i: int| is_first(lists, id, i)])
    } else {
        None
    }
}

proof fn lemma_first_unique(lists: Seq<SidebarList>, id: Seq<char>, i: int)
    requires
        is_first(lists, id, i),
    ensures
        find_list(lists, id) == Some(lists[i]),
{
    let k = choose|k: int| is_first(lists, id, k);
    assert(is_first(lists, id, k));
    if k < i {
        assert(lists[k].id@ != id);
    } else if k > i {
        assert(lists[i].id@ != id);
    }
}

/// Where in `lists` the list `id` first is.
fn position_of(lists: &[SidebarList], id: &str) -> (r: Option<usize>)
    ensures
        match r {
            Some(i) => is_first(lists@, id@, i as int) && find_list(lists@, id@) == Some(lists@[i as int]),
            None => find_list(lists@, id@) is None && forall|j: int| 0 <= j < lists@.len() ==> (#[trigger] lists@[j]).id@ != id@,
        },
{
    let mut i: usize = 0;
    while i < lists.len()
        invariant
            i <= lists@.len(),
            forall|j: int| 0 <= j < i ==> (#[trigger] lists@[j]).id@ != id@,
        decreases lists.len() - i,
    {
        if str_eq(lists[i].id.as_str(), id) {
            proof {
                lemma_first_unique(lists@, id@, i as int);
            }
            return Some(i);
        }
        i = i + 1;
    }
    assert(!exists|k: int| is_first(lists@, id@, k));
    None
}

/// The folder of the list `id`, if it's in one.
pub open spec fn folder_of_spec(lists: Seq<SidebarList>, id: Seq<char>) -> Option<Seq<char>> {
    match find_list(lists, id) {
        Some(list) => match list.folder {
            Some(f) => Some(f@),
            None => None,
        },
        None => None,
    }
}

/// The folder the list `id` is in, if any.
pub fn folder_of<'a>(lists: &'a [SidebarList], id: &str) -> (r: Option<&'a str>)
    ensures
        match r {
            Some(f) => folder_of_spec(lists@, id@) == Some(f@),
            None => folder_of_spec(lists@, id@) is None,
        },
{
    match position_of(lists, id) {
        Some(i) => match &lists[i].folder {
            Some(f) => Some(f.as_str()),
            None => None,
        },
        None => None,
    }
}

/// The name of the list `id`, if there's one.
pub open spec fn list_name_spec(lists: Seq<SidebarList>, id: Seq<char>) -> Option<Seq<char>> {
    match find_list(lists, id) {
        Some(list) => Some(list.name@),
        None => None,
    }
}

/// A list's name by local ID.
pub fn list_name<'a>(lists: &'a [SidebarList], id: &str) -> (r: Option<&'a str>)
    ensures
        match r {
            Some(n) => list_name_spec(lists@, id@) == Some(n@),
            None => list_name_spec(lists@, id@) is None,
        },
{
    match position_of(lists, id) {
        Some(i) => Some(lists[i].name.as_str()),
        None => None,
    }
}

/// The name of a scope as the panes title it: "Tasks" for none, a list's
/// name ("List" when it isn't known), or the view's.
pub open spec fn scope_name_spec(lists: Seq<SidebarList>, scope: Option<ScopeV>) -> Seq<char> {
    match scope {
        None => "Tasks"@,
        Some(ScopeV::List(id)) => match list_name_spec(lists, id) {
            Some(n) => n,
            None => "List"@,
        },
        Some(view) => view_name_spec(view),
    }
}

/// The name of a scope as the panes title it.
pub fn scope_name(lists: &[SidebarList], scope: Option<&Scope>) -> (name: String)
    ensures
        name@ == scope_name_spec(
            lists@,
            match scope {
                Some(s) => Some(scope_view(*s)),
                None => None,
            },
        ),
{
    match scope {
        None => "Tasks".to_owned(),
        Some(Scope::List { id }) => match list_name(lists, id.as_str()) {
            Some(n) => n.to_owned(),
            None => "List".to_owned(),
        },
        Some(view) => view_name(view).to_owned(),
    }
}

/// The folder names among `names` that start with `typed`, ignoring case.
pub open spec fn matching_folders(names: Seq<Seq<char>>, typed: Seq<char>) -> Seq<Seq<char>>
    decreases names.len(),
{
    if names.len() == 0 {
        names
    } else if has_prefix_spec(lowercase_of(names.last()), typed) {
        matching_folders(names.drop_last(), typed).push(names.last())
    } else {
        matching_folders(names.drop_last(), typed)
    }
}

/// The first `n` of `s`, or all of it.
pub open spec fn first_n<A>(s: Seq<A>, n: nat) -> Seq<A> {
    if s.len() <= n {
        s
    } else {
        s.take(n as int)
    }
}

/// The folders whose names start with `typed` (trimmed), ignoring case,
/// in the daemon's folder order, at most `MAX_SUGGESTIONS`; every folder,
/// up to that many, when nothing is typed.
pub open spec fn suggestions_spec(lists: Seq<SidebarList>, typed: Seq<char>) -> Seq<Seq<char>> {
    first_n(matching_folders(folders_spec(lists), lowercase_of(trim_spec(typed))), MAX_SUGGESTIONS as nat)
}

/// The folders whose names start with `typed`, ignoring case, in order;
/// every folder when nothing is typed.
pub fn folder_suggestions(lists: &[SidebarList], typed: &str) -> (r: Vec<String>)
    ensures
        r@.map_values(|s: String| s@) == suggestions_spec(lists@, typed@),
{
    let trimmed = trim(typed);
    let wanted = to_lowercase(trimmed.as_str());
    let names = folder_names(lists);
    let ghost all = Seq::new(names@.len(), |i: int| names@[i]@);
    let mut out: Vec<String> = Vec::new();
    let mut i: usize = 0;
    while i < names.len()
        invariant
            i <= names@.len(),
            all == Seq::new(names@.len(), |j: int| names@[j]@),
            wanted@ == lowercase_of(trim_spec(typed@)),
            out@.map_values(|s: String| s@) == first_n(
                matching_folders(all.subrange(0, i as int), wanted@),
                MAX_SUGGESTIONS as nat,
            ),
        decreases names.len() - i,
    {
        let ghost before = matching_folders(all.subrange(0, i as int), wanted@);
        assert(all.subrange(0, i + 1).drop_last() =~= all.subrange(0, i as int));
        assert(all.subrange(0, i + 1).last() == names@[i as int]@);
        let lowered = to_lowercase(names[i]);
        if has_prefix(lowered.as_str(), wanted.as_str()) {
            if out.len() < MAX_SUGGESTIONS {
                let ghost prior = out@.map_values(|s: String| s@);
                out.push(names[i].to_owned());
                assert(out@.map_values(|s: String| s@) =~= prior.push(names@[i as int]@));
                assert(before.len() < MAX_SUGGESTIONS);
                assert(first_n(before.push(names@[i as int]@), MAX_SUGGESTIONS as nat) =~= before.push(names@[i as int]@));
            } else {
                assert(first_n(before.push(names@[i as int]@), MAX_SUGGESTIONS as nat) =~= first_n(
                    before,
                    MAX_SUGGESTIONS as nat,
                ));
            }
        }
        i = i + 1;
    }
    assert(all.subrange(0, names@.len() as int) =~= all);
    out
}

/// The first of `entries` for which `p` holds, or -1.
pub open spec fn first_where(entries: Seq<EntryV>, p: spec_fn(EntryV) -> bool) -> int
    decreases entries.len(),
{
    if entries.len() == 0 {
        -1
    } else {
        let before = first_where(entries.drop_last(), p);
        if before >= 0 {
            before
        } else if p(entries.last()) {
            entries.len() - 1
        } else {
            -1
        }
    }
}

/// Whether `e` is the row `row`, whatever its count or state.
pub open spec fn same_row(e: EntryV, row: EntryV) -> bool {
    match (e, row) {
        (EntryV::View(a), EntryV::View(b)) => a == b,
        (EntryV::Folder(a, _, _), EntryV::Folder(b, _, _)) => a == b,
        (EntryV::List(a, _, _), EntryV::List(b, _, _)) => a == b,
        _ => false,
    }
}

/// Whether choosing the row `e` shows `scope`.
pub open spec fn shows(e: EntryV, scope: ScopeV) -> bool {
    match e {
        EntryV::View(s) => s == scope,
        EntryV::Folder(..) => false,
        EntryV::List(id, _, _) => ScopeV::List(id) == scope,
    }
}

/// Whether `e` is the heading of the folder `name`.
pub open spec fn heads_folder(e: EntryV, name: Seq<char>) -> bool {
    e matches EntryV::Folder(n, _, _) && n == name
}

/// The rows that are `row`.
pub open spec fn is_row(row: EntryV) -> spec_fn(EntryV) -> bool {
    |e: EntryV| same_row(e, row)
}

/// The rows that show `scope`.
pub open spec fn showing(scope: ScopeV) -> spec_fn(EntryV) -> bool {
    |e: EntryV| shows(e, scope)
}

/// The rows that head the folder `name`.
pub open spec fn heading(name: Seq<char>) -> spec_fn(EntryV) -> bool {
    |e: EntryV| heads_folder(e, name)
}

/// Where the sidebar's cursor goes after its rows changed: back on `row`,
/// else on the scope `wanted`, else on the heading of the collapsed folder
/// that hides that list; else where it was, `current`; within the rows.
pub open spec fn cursor_spec(
    entries: Seq<EntryV>,
    row: Option<EntryV>,
    wanted: Option<ScopeV>,
    lists: Seq<SidebarList>,
    current: int,
) -> int {
    let a = match row {
        Some(r) => first_where(entries, is_row(r)),
        None => -1,
    };
    let b = if a >= 0 {
        a
    } else {
        match wanted {
            Some(w) => first_where(entries, showing(w)),
            None => -1,
        }
    };
    let c = if b >= 0 {
        b
    } else {
        match wanted {
            Some(ScopeV::List(id)) => match folder_of_spec(lists, id) {
                Some(f) => first_where(entries, heading(f)),
                None => -1,
            },
            _ => -1,
        }
    };
    let found = if c >= 0 { c } else { current };
    let last = if entries.len() == 0 { 0 } else { entries.len() - 1 };
    if found < last { found } else { last }
}

/// Where `entries` first has the row `row`.
fn find_row(entries: &[Entry], row: &Entry) -> (r: Option<usize>)
    ensures
        match r {
            Some(i) => i as int == first_where(entries_view(entries@), is_row(entry_view(*row))),
            None => first_where(entries_view(entries@), is_row(entry_view(*row))) == -1,
        },
{
    let ghost p = is_row(entry_view(*row));
    let ghost v = entries_view(entries@);
    let mut i: usize = 0;
    while i < entries.len()
        invariant
            i <= entries@.len(),
            p == is_row(entry_view(*row)),
            v == entries_view(entries@),
            first_where(v.subrange(0, i as int), p) == -1,
        decreases entries.len() - i,
    {
        assert(v.subrange(0, i + 1).drop_last() =~= v.subrange(0, i as int));
        assert(v.subrange(0, i + 1).last() == entry_view(entries@[i as int]));
        if entries[i].same(row) {
            proof {
                assert(v[i as int] == entry_view(entries@[i as int]));
                assert(p(v[i as int]));
                lemma_first_where_prefix(v, p, i as int);
            }
            return Some(i);
        }
        i = i + 1;
    }
    assert(v.subrange(0, entries@.len() as int) =~= v);
    None
}

/// Where `entries` first has a row that shows `scope`.
pub(crate) fn find_scope(entries: &[Entry], scope: &Scope) -> (r: Option<usize>)
    ensures
        match r {
            Some(i) => i as int == first_where(entries_view(entries@), showing(scope_view(*scope))),
            None => first_where(entries_view(entries@), showing(scope_view(*scope))) == -1,
        },
{
    let ghost p = showing(scope_view(*scope));
    let ghost v = entries_view(entries@);
    let mut i: usize = 0;
    while i < entries.len()
        invariant
            i <= entries@.len(),
            p == showing(scope_view(*scope)),
            v == entries_view(entries@),
            first_where(v.subrange(0, i as int), p) == -1,
        decreases entries.len() - i,
    {
        assert(v.subrange(0, i + 1).drop_last() =~= v.subrange(0, i as int));
        assert(v.subrange(0, i + 1).last() == entry_view(entries@[i as int]));
        let shown = entries[i].scope();
        let hit = match shown {
            Some(s) => s.same(scope),
            None => false,
        };
        if hit {
            proof {
                assert(v[i as int] == entry_view(entries@[i as int]));
                assert(p(v[i as int]));
                lemma_first_where_prefix(v, p, i as int);
            }
            return Some(i);
        }
        i = i + 1;
    }
    assert(v.subrange(0, entries@.len() as int) =~= v);
    None
}

/// Where `entries` first has the heading of the folder `name`.
fn find_folder(entries: &[Entry], name: &str) -> (r: Option<usize>)
    ensures
        match r {
            Some(i) => i as int == first_where(entries_view(entries@), heading(name@)),
            None => first_where(entries_view(entries@), heading(name@)) == -1,
        },
{
    let ghost p = heading(name@);
    let ghost v = entries_view(entries@);
    let mut i: usize = 0;
    while i < entries.len()
        invariant
            i <= entries@.len(),
            p == heading(name@),
            v == entries_view(entries@),
            first_where(v.subrange(0, i as int), p) == -1,
        decreases entries.len() - i,
    {
        assert(v.subrange(0, i + 1).drop_last() =~= v.subrange(0, i as int));
        assert(v.subrange(0, i + 1).last() == entry_view(entries@[i as int]));
        let hit = match &entries[i] {
            Entry::Folder { name: n, .. } => str_eq(n.as_str(), name),
            _ => false,
        };
        if hit {
            proof {
                assert(v[i as int] == entry_view(entries@[i as int]));
                assert(p(v[i as int]));
                lemma_first_where_prefix(v, p, i as int);
            }
            return Some(i);
        }
        i = i + 1;
    }
    assert(v.subrange(0, entries@.len() as int) =~= v);
    None
}

/// A row that holds of `p` right after a prefix none of whose rows does
/// is the first row that does.
proof fn lemma_first_where_prefix(v: Seq<EntryV>, p: spec_fn(EntryV) -> bool, i: int)
    requires
        0 <= i < v.len(),
        first_where(v.subrange(0, i), p) == -1,
        p(v[i]),
    ensures
        first_where(v, p) == i,
    decreases v.len(),
{
    if v.len() - 1 == i {
        assert(v.drop_last() =~= v.subrange(0, i));
    } else {
        assert(v.drop_last().subrange(0, i) =~= v.subrange(0, i));
        lemma_first_where_prefix(v.drop_last(), p, i);
    }
}

/// Where the sidebar's cursor goes after its rows changed: back on `row`,
/// else on the scope shown, `wanted`, else on the heading of the collapsed
/// folder that hides it; else where it was, within the rows.
pub fn sidebar_cursor(
    entries: &[Entry],
    row: Option<Entry>,
    wanted: Option<Scope>,
    lists: &[SidebarList],
    current: usize,
) -> (index: usize)
    ensures
        index as int == cursor_spec(
            entries_view(entries@),
            match row {
                Some(r) => Some(entry_view(r)),
                None => None,
            },
            match wanted {
                Some(w) => Some(scope_view(w)),
                None => None,
            },
            lists@,
            current as int,
        ),
{
    let mut found: Option<usize> = match &row {
        Some(r) => find_row(entries, r),
        None => None,
    };
    if found.is_none() {
        found = match &wanted {
            Some(w) => find_scope(entries, w),
            None => None,
        };
    }
    if found.is_none() {
        found = match &wanted {
            Some(Scope::List { id }) => match folder_of(lists, id.as_str()) {
                Some(folder) => find_folder(entries, folder),
                None => None,
            },
            _ => None,
        };
    }
    let at = match found {
        Some(i) => i,
        None => current,
    };
    let last = if entries.len() == 0 { 0 } else { entries.len() - 1 };
    if at < last { at } else { last }
}

/// The list "Move list to folder…" (and a rename or delete) acts on: the
/// one under the sidebar's cursor, else the one shown.
pub open spec fn list_to_move_spec(entries: Seq<EntryV>, index: int, shown: Option<ScopeV>) -> Option<Seq<char>> {
    if 0 <= index < entries.len() && entries[index] is List {
        Some(entries[index]->List_0)
    } else {
        match shown {
            Some(ScopeV::List(id)) => Some(id),
            _ => None,
        }
    }
}

/// The list "Move list to folder…" acts on.
pub fn list_to_move(entries: &[Entry], index: usize, shown: &Option<Scope>) -> (r: Option<String>)
    ensures
        match r {
            Some(id) => list_to_move_spec(
                entries_view(entries@),
                index as int,
                match shown {
                    Some(s) => Some(scope_view(*s)),
                    None => None,
                },
            ) == Some(id@),
            None => list_to_move_spec(
                entries_view(entries@),
                index as int,
                match shown {
                    Some(s) => Some(scope_view(*s)),
                    None => None,
                },
            ) is None,
        },
{
    if index < entries.len() {
        if let Entry::List { id, .. } = &entries[index] {
            return Some(id.clone());
        }
    }
    match shown {
        Some(Scope::List { id }) => Some(id.clone()),
        _ => None,
    }
}

} // verus!

verus! {

/// Where the last of `lists` in the folder `name` is, or -1.
pub open spec fn last_in_folder(lists: Seq<SidebarList>, name: Seq<char>) -> int
    decreases lists.len(),
{
    if lists.len() == 0 {
        -1
    } else if lists.last().folder matches Some(f) && f@ == name {
        lists.len() - 1
    } else {
        last_in_folder(lists.drop_last(), name)
    }
}

/// Where the first of `lists` in no folder is, or -1.
pub open spec fn first_loose(lists: Seq<SidebarList>) -> int
    decreases lists.len(),
{
    if lists.len() == 0 {
        -1
    } else {
        let before = first_loose(lists.drop_last());
        if before >= 0 {
            before
        } else if lists.last().folder is None {
            lists.len() - 1
        } else {
            -1
        }
    }
}

/// The sidebar's lists after the list `id` moved to `folder` (none: out
/// of its folder): last in its new folder, as the daemon will have it,
/// else before the lists in no folder, else last. A list not there, or
/// already in that folder, stays.
pub open spec fn moved_to_folder(lists: Seq<SidebarList>, id: Seq<char>, folder: Option<String>) -> Seq<SidebarList> {
    if exists|i: int| is_first(lists, id, i) {
        let at = choose|i: int| is_first(lists, id, i);
        let list = lists[at];
        if opt_view(list.folder) == opt_view(folder) {
            lists
        } else {
            let rest = lists.remove(at);
            let moved = SidebarList { id: list.id, name: list.name, folder: folder };
            let to = match folder {
                Some(name) => {
                    let last = last_in_folder(rest, name@);
                    if last >= 0 {
                        last + 1
                    } else {
                        let loose = first_loose(rest);
                        if loose >= 0 { loose } else { rest.len() as int }
                    }
                },
                None => rest.len() as int,
            };
            rest.insert(to, moved)
        }
    } else {
        lists
    }
}

pub open spec fn opt_view(o: Option<String>) -> Option<Seq<char>> {
    match o {
        Some(s) => Some(s@),
        None => None,
    }
}

proof fn lemma_last_in_folder(lists: Seq<SidebarList>, name: Seq<char>)
    ensures
        -1 <= last_in_folder(lists, name) < lists.len(),
    decreases lists.len(),
{
    if lists.len() > 0 {
        lemma_last_in_folder(lists.drop_last(), name);
    }
}

proof fn lemma_first_loose(lists: Seq<SidebarList>)
    ensures
        -1 <= first_loose(lists) < lists.len(),
    decreases lists.len(),
{
    if lists.len() > 0 {
        lemma_first_loose(lists.drop_last());
    }
}

/// Draw a folder change at once: the list `id` moves to `folder` (none:
/// out of its folder), last in its new folder, before the seed that
/// follows brings the daemon's order.
pub fn move_to_folder(lists: &mut Vec<SidebarList>, id: &str, folder: Option<String>)
    ensures
        final(lists)@ == moved_to_folder(old(lists)@, id@, folder),
{
    let at = match position_of(lists.as_slice(), id) {
        Some(at) => at,
        None => {
            return;
        },
    };
    proof {
        lemma_first_unique(lists@, id@, at as int);
        let k = choose|i: int| is_first(lists@, id@, i);
        if k != at as int {
            if k < at as int {
                assert(lists@[k].id@ != id@);
            } else {
                assert(lists@[at as int].id@ != id@);
            }
        }
    }
    let same = match (&lists[at].folder, &folder) {
        (Some(a), Some(b)) => str_eq(a.as_str(), b.as_str()),
        (None, None) => true,
        _ => false,
    };
    if same {
        return;
    }
    let ghost before = lists@;
    let list = lists.remove(at);
    let ghost rest = lists@;
    assert(rest == before.remove(at as int));
    let to = match &folder {
        Some(name) => {
            let mut last: Option<usize> = None;
            let mut i: usize = 0;
            while i < lists.len()
                invariant
                    i <= lists@.len(),
                    lists@ == rest,
                    match last {
                        Some(l) => l as int == last_in_folder(rest.subrange(0, i as int), name@),
                        None => last_in_folder(rest.subrange(0, i as int), name@) == -1,
                    },
                decreases lists.len() - i,
            {
                assert(rest.subrange(0, i + 1).drop_last() =~= rest.subrange(0, i as int));
                let hit = match &lists[i].folder {
                    Some(f) => str_eq(f.as_str(), name.as_str()),
                    None => false,
                };
                if hit {
                    last = Some(i);
                } else {
                    proof {
                        lemma_last_in_folder(rest.subrange(0, i as int), name@);
                    }
                }
                i = i + 1;
            }
            assert(rest.subrange(0, rest.len() as int) =~= rest);
            proof {
                lemma_last_in_folder(rest, name@);
            }
            match last {
                Some(l) => l + 1,
                None => {
                    let mut loose: Option<usize> = None;
                    let mut k: usize = 0;
                    while k < lists.len()
                        invariant
                            k <= lists@.len(),
                            lists@ == rest,
                            match loose {
                                Some(l) => l as int == first_loose(rest.subrange(0, k as int)),
                                None => first_loose(rest.subrange(0, k as int)) == -1,
                            },
                        decreases lists.len() - k,
                    {
                        assert(rest.subrange(0, k + 1).drop_last() =~= rest.subrange(0, k as int));
                        if loose.is_none() && lists[k].folder.is_none() {
                            loose = Some(k);
                        }
                        k = k + 1;
                    }
                    match loose {
                        Some(l) => l,
                        None => lists.len(),
                    }
                },
            }
        },
        None => lists.len(),
    };
    proof {
        lemma_last_in_folder(rest, match folder { Some(ref n) => n@, None => Seq::empty() });
        lemma_first_loose(rest);
    }
    let moved = SidebarList { id: list.id, name: list.name, folder };
    lists.insert(to, moved);
}

/// What the banner says of a folder change for the list `name`.
pub open spec fn folder_moved_text(name: Seq<char>, folder: Option<Seq<char>>) -> Seq<char> {
    match folder {
        Some(f) => "Moved "@ + name + " to "@ + f,
        None => "Took "@ + name + " out of its folder"@,
    }
}

/// What the banner says of a folder change for the list `name`.
pub fn folder_moved(name: &str, folder: Option<&str>) -> (text: String)
    ensures
        text@ == folder_moved_text(
            name@,
            match folder {
                Some(f) => Some(f@),
                None => None,
            },
        ),
{
    match folder {
        Some(f) => {
            let a = concat("Moved ", name);
            let b = concat(a.as_str(), " to ");
            concat(b.as_str(), f)
        },
        None => {
            let a = concat("Took ", name);
            concat(a.as_str(), " out of its folder")
        },
    }
}

} // verus!
