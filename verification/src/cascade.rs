//! Which queued operations a failed one takes down with it: every
//! operation not yet sent that waits on it, directly or through another.

use vstd::prelude::*;

use crate::ops::OpState;
use crate::text::str_eq;

verus! {

/// An outbox operation as the cascade reads it, in queue order.
#[derive(Clone, Debug, PartialEq, Eq)]
pub struct Waiting {
    pub op_id: String,
    /// The operation it waits on, if any.
    pub depends_on: Option<String>,
    pub state: OpState,
}

/// Whether `path` is a chain of rows of `ops` down to `target`: each
/// row's operation waits on the next one's, and the last one's waits on
/// `target`.
pub open spec fn is_chain(ops: Seq<Waiting>, path: Seq<int>, target: Seq<char>) -> bool {
    &&& path.len() > 0
    &&& forall|t: int| 0 <= t < path.len() ==> 0 <= #[trigger] path[t] < ops.len()
    &&& forall|t: int| 0 <= t < path.len() - 1 ==> #[trigger] links(ops, path, t)
    &&& ops[path.last()].depends_on matches Some(p) && p@ == target
}

/// Whether the operation of the chain's row `t` waits on that of row `t + 1`.
pub open spec fn links(ops: Seq<Waiting>, path: Seq<int>, t: int) -> bool {
    ops[path[t]].depends_on matches Some(p) && p@ == ops[path[t + 1]].op_id@
}

/// Whether the operation `x` waits on `target`, directly or through
/// others.
pub open spec fn waits_on(ops: Seq<Waiting>, x: Seq<char>, target: Seq<char>) -> bool {
    exists|path: Seq<int>| #[trigger] is_chain(ops, path, target) && ops[path[0]].op_id@ == x
}

/// Whether row `k` starts a chain down to `target`.
pub open spec fn row_waits(ops: Seq<Waiting>, k: int, target: Seq<char>) -> bool {
    exists|path: Seq<int>| #[trigger] is_chain(ops, path, target) && path[0] == k
}

/// Whether an operation in `state` hasn't been sent for good: it can
/// still be failed.
pub open spec fn unsent(state: OpState) -> bool {
    state == OpState::Pending || state == OpState::Unknown
}

/// The operations among `rows`, in order, that wait on `target` in `ops`
/// and haven't been sent.
pub open spec fn cascade_spec(rows: Seq<Waiting>, ops: Seq<Waiting>, target: Seq<char>) -> Seq<Seq<char>>
    decreases rows.len(),
{
    if rows.len() == 0 {
        Seq::empty()
    } else {
        let before = cascade_spec(rows.drop_last(), ops, target);
        if waits_on(ops, rows.last().op_id@, target) && unsent(rows.last().state) {
            before.push(rows.last().op_id@)
        } else {
            before
        }
    }
}

/// Whether row `k` waits on `target` directly, or on a marked row.
pub open spec fn hit(ops: Seq<Waiting>, k: int, target: Seq<char>, marked: Seq<bool>) -> bool {
    match ops[k].depends_on {
        Some(p) => p@ == target || exists|j: int| 0 <= j < ops.len() && #[trigger] marked[j] && ops[j].op_id@ == p@,
        None => false,
    }
}

/// How many rows are marked.
pub open spec fn count_marked(marked: Seq<bool>) -> nat
    decreases marked.len(),
{
    if marked.len() == 0 {
        0
    } else {
        count_marked(marked.drop_last()) + if marked.last() {
            1nat
        } else {
            0nat
        }
    }
}

pub proof fn lemma_count_bound(marked: Seq<bool>)
    ensures
        count_marked(marked) <= marked.len(),
    decreases marked.len(),
{
    if marked.len() > 0 {
        lemma_count_bound(marked.drop_last());
    }
}

pub proof fn lemma_count_mark(marked: Seq<bool>, i: int)
    requires
        0 <= i < marked.len(),
        !marked[i],
    ensures
        count_marked(marked.update(i, true)) == count_marked(marked) + 1,
    decreases marked.len(),
{
    let after = marked.update(i, true);
    if i == marked.len() - 1 {
        assert(after.drop_last() =~= marked.drop_last());
    } else {
        assert(after.drop_last() =~= marked.drop_last().update(i, true));
        lemma_count_mark(marked.drop_last(), i);
    }
}

/// When every row is marked, all of them are counted.
pub proof fn lemma_count_all(marked: Seq<bool>)
    requires
        forall|k: int| 0 <= k < marked.len() ==> marked[k],
    ensures
        count_marked(marked) == marked.len(),
    decreases marked.len(),
{
    if marked.len() > 0 {
        lemma_count_all(marked.drop_last());
    }
}

/// Once no unmarked row waits on `target` or on a marked row, every row
/// that starts a chain down to `target` is marked.
proof fn lemma_closed(ops: Seq<Waiting>, target: Seq<char>, marked: Seq<bool>, path: Seq<int>)
    requires
        marked.len() == ops.len(),
        forall|k: int| 0 <= k < ops.len() && hit(ops, k, target, marked) ==> #[trigger] marked[k],
        is_chain(ops, path, target),
    ensures
        marked[path[0]],
    decreases path.len(),
{
    if path.len() == 1 {
        assert(hit(ops, path[0], target, marked));
    } else {
        let rest = path.drop_first();
        assert forall|t: int| 0 <= t < rest.len() - 1 implies #[trigger] links(ops, rest, t) by {
            assert(rest[t] == path[t + 1]);
            assert(rest[t + 1] == path[t + 2]);
            assert(links(ops, path, t + 1));
        }
        assert forall|t: int| 0 <= t < rest.len() implies 0 <= #[trigger] rest[t] < ops.len() by {
            assert(rest[t] == path[t + 1]);
        }
        assert(rest.last() == path.last());
        assert(is_chain(ops, rest, target));
        lemma_closed(ops, target, marked, rest);
        assert(path[1] == rest[0]);
        assert(links(ops, path, 0));
        assert(marked[path[1]]);
        assert(hit(ops, path[0], target, marked));
    }
}

/// A row that waits on the first row of a chain starts a longer one.
proof fn lemma_extend(ops: Seq<Waiting>, target: Seq<char>, k: int, path: Seq<int>)
    requires
        is_chain(ops, path, target),
        0 <= k < ops.len(),
        ops[k].depends_on matches Some(p) && p@ == ops[path[0]].op_id@,
    ensures
        is_chain(ops, seq![k] + path, target),
        (seq![k] + path)[0] == k,
{
    let longer = seq![k] + path;
    assert forall|t: int| 0 <= t < longer.len() implies 0 <= #[trigger] longer[t] < ops.len() by {
        if t > 0 {
            assert(longer[t] == path[t - 1]);
        }
    }
    assert forall|t: int| 0 <= t < longer.len() - 1 implies #[trigger] links(ops, longer, t) by {
        if t > 0 {
            assert(longer[t] == path[t - 1]);
            assert(longer[t + 1] == path[t]);
            assert(links(ops, path, t - 1));
        } else {
            assert(longer[1] == path[0]);
        }
    }
    assert(longer.last() == path.last());
}

/// Whether a row waits on `target` directly, or on a marked row.
fn hits(ops: &Vec<Waiting>, k: usize, target: &str, marked: &Vec<bool>) -> (b: bool)
    requires
        k < ops@.len(),
        marked@.len() == ops@.len(),
    ensures
        b == hit(ops@, k as int, target@, marked@),
{
    match &ops[k].depends_on {
        None => false,
        Some(p) => {
            if str_eq(p.as_str(), target) {
                return true;
            }
            let mut j: usize = 0;
            while j < ops.len()
                invariant
                    j <= ops@.len(),
                    k < ops@.len(),
                    marked@.len() == ops@.len(),
                    ops@[k as int].depends_on matches Some(q) && q@ == p@,
                    p@ != target@,
                    forall|m: int| 0 <= m < j ==> !(#[trigger] marked@[m] && ops@[m].op_id@ == p@),
                decreases ops.len() - j,
            {
                if marked[j] && str_eq(ops[j].op_id.as_str(), p.as_str()) {
                    assert(marked@[j as int] && ops@[j as int].op_id@ == p@);
                    return true;
                }
                j = j + 1;
            }
            false
        },
    }
}

/// The operations not yet sent (`pending` or `unknown`) that wait on
/// `target`, directly or through others, in queue order: what fails with
/// it.
pub fn cascade(ops: &Vec<Waiting>, target: &str) -> (failed: Vec<String>)
    ensures
        failed@.map_values(|s: String| s@) == cascade_spec(ops@, ops@, target@),
{
    let n = ops.len();
    let mut marked: Vec<bool> = Vec::new();
    let mut i: usize = 0;
    while i < n
        invariant
            n == ops@.len(),
            i <= n,
            marked@.len() == i,
            forall|k: int| 0 <= k < i ==> !marked@[k],
        decreases n - i,
    {
        marked.push(false);
        i = i + 1;
    }
    loop
        invariant
            n == ops@.len(),
            marked@.len() == n,
            forall|k: int|
                0 <= k < n && #[trigger] marked@[k] ==> row_waits(ops@, k, target@),
        ensures
            marked@.len() == n,
            forall|k: int|
                0 <= k < n && #[trigger] marked@[k] ==> row_waits(ops@, k, target@),
            forall|k: int| 0 <= k < n && hit(ops@, k, target@, marked@) ==> #[trigger] marked@[k],
        decreases n - count_marked(marked@),
    {
        let ghost start = marked@;
        let mut changed = false;
        let mut k: usize = 0;
        while k < n
            invariant
                n == ops@.len(),
                marked@.len() == n,
                k <= n,
                forall|m: int|
                    0 <= m < n && #[trigger] marked@[m] ==> row_waits(ops@, m, target@),
                !changed ==> marked@ == start,
                changed ==> count_marked(marked@) > count_marked(start),
                !changed ==> forall|m: int| 0 <= m < k && hit(ops@, m, target@, marked@) ==> #[trigger] marked@[m],
            decreases n - k,
        {
            if !marked[k] && hits(ops, k, target, &marked) {
                proof {
                    let p = ops@[k as int].depends_on->Some_0;
                    if p@ == target@ {
                        let path = seq![k as int];
                        assert(is_chain(ops@, path, target@));
                    } else {
                        let j = choose|j: int| 0 <= j < ops@.len() && #[trigger] marked@[j] && ops@[j].op_id@ == p@;
                        let path = choose|path: Seq<int>| #[trigger] is_chain(ops@, path, target@) && path[0] == j;
                        lemma_extend(ops@, target@, k as int, path);
                        assert(is_chain(ops@, seq![k as int] + path, target@));
                    }
                    lemma_count_mark(marked@, k as int);
                }
                marked.set(k, true);
                changed = true;
            }
            k = k + 1;
        }
        if !changed {
            break;
        }
        proof {
            lemma_count_bound(marked@);
        }
    }
    let mut failed: Vec<String> = Vec::new();
    let mut r: usize = 0;
    while r < n
        invariant
            n == ops@.len(),
            marked@.len() == n,
            r <= n,
            forall|k: int|
                0 <= k < n && #[trigger] marked@[k] ==> row_waits(ops@, k, target@),
            forall|k: int| 0 <= k < n && hit(ops@, k, target@, marked@) ==> #[trigger] marked@[k],
            failed@.map_values(|s: String| s@) == cascade_spec(ops@.subrange(0, r as int), ops@, target@),
        decreases n - r,
    {
        assert(ops@.subrange(0, r + 1).drop_last() =~= ops@.subrange(0, r as int));
        assert(ops@.subrange(0, r + 1).last() == ops@[r as int]);
        let mut waiting = false;
        let mut j: usize = 0;
        while j < n
            invariant
                n == ops@.len(),
                marked@.len() == n,
                r < n,
                j <= n,
                waiting == exists|m: int| 0 <= m < j && #[trigger] marked@[m] && ops@[m].op_id@ == ops@[r as int].op_id@,
            decreases n - j,
        {
            if marked[j] && str_eq(ops[j].op_id.as_str(), ops[r].op_id.as_str()) {
                waiting = true;
            }
            j = j + 1;
        }
        proof {
            let x = ops@[r as int].op_id@;
            if waiting {
                let m = choose|m: int| 0 <= m < n && #[trigger] marked@[m] && ops@[m].op_id@ == x;
                let path = choose|path: Seq<int>| #[trigger] is_chain(ops@, path, target@) && path[0] == m;
                assert(is_chain(ops@, path, target@) && ops@[path[0]].op_id@ == x);
            } else if waits_on(ops@, x, target@) {
                let path = choose|path: Seq<int>| #[trigger] is_chain(ops@, path, target@) && ops@[path[0]].op_id@ == x;
                lemma_closed(ops@, target@, marked@, path);
                assert(marked@[path[0]] && ops@[path[0]].op_id@ == x);
                assert(false);
            }
        }
        let state = ops[r].state;
        if waiting && (state == OpState::Pending || state == OpState::Unknown) {
            let ghost prior = failed@.map_values(|s: String| s@);
            failed.push(ops[r].op_id.clone());
            assert(failed@.map_values(|s: String| s@) =~= prior.push(ops@[r as int].op_id@));
        }
        r = r + 1;
    }
    assert(ops@.subrange(0, n as int) =~= ops@);
    failed
}

} // verus!

verus! {

/// Whether an operation in `state` is still to be resolved.
pub open spec fn unresolved(state: OpState) -> bool {
    state == OpState::Pending || state == OpState::Inflight || state == OpState::Unknown
}

/// The operation a new one on an entity waits for: the last one queued on
/// it (`queued`, in queue order) that isn't resolved yet.
pub open spec fn depends_on_spec(queued: Seq<Waiting>) -> Option<Seq<char>>
    decreases queued.len(),
{
    if queued.len() == 0 {
        None
    } else if unresolved(queued.last().state) {
        Some(queued.last().op_id@)
    } else {
        depends_on_spec(queued.drop_last())
    }
}

/// The operation a new one on an entity waits for, given the entity's
/// operations in queue order.
pub fn depends_on(queued: &Vec<Waiting>) -> (r: Option<String>)
    ensures
        match r {
            Some(id) => depends_on_spec(queued@) == Some(id@),
            None => depends_on_spec(queued@) is None,
        },
{
    let mut i = queued.len();
    assert(queued@.subrange(0, i as int) =~= queued@);
    while i > 0
        invariant
            i <= queued@.len(),
            depends_on_spec(queued@) == depends_on_spec(queued@.subrange(0, i as int)),
        decreases i,
    {
        assert(queued@.subrange(0, i as int).drop_last() =~= queued@.subrange(0, i - 1));
        let state = queued[i - 1].state;
        if state == OpState::Pending || state == OpState::Inflight || state == OpState::Unknown {
            return Some(queued[i - 1].op_id.clone());
        }
        i = i - 1;
    }
    None
}

/// Whether an operation in `state` is settled for good: done or failed.
pub open spec fn settled(state: OpState) -> bool {
    state == OpState::Done || state == OpState::Failed
}

/// A new operation on an entity waits exactly for the last operation
/// queued on it that is still pending, being sent, or unknown: when the
/// last one queued is in one of those states it waits for that one; it
/// waits for nothing only when every operation on the entity is done or
/// failed; and whatever it waits for is such an operation with none but
/// settled ones after it.
pub proof fn law_a_new_write_waits_for_the_last_open_one(queued: Seq<Waiting>)
    ensures
        queued.len() > 0 && (queued.last().state == OpState::Pending || queued.last().state == OpState::Inflight
            || queued.last().state == OpState::Unknown) ==> depends_on_spec(queued) == Some(queued.last().op_id@),
        depends_on_spec(queued) is None <==> forall|k: int| 0 <= k < queued.len() ==> settled(#[trigger] queued[k].state),
        depends_on_spec(queued) matches Some(id) ==> exists|k: int|
            0 <= k < queued.len() && queued[k].op_id@ == id && !settled(queued[k].state) && forall|j: int|
                k < j < queued.len() ==> settled(#[trigger] queued[j].state),
    decreases queued.len(),
{
    if queued.len() > 0 {
        let rest = queued.drop_last();
        law_a_new_write_waits_for_the_last_open_one(rest);
        let last = queued.last();
        if !settled(last.state) {
            assert(queued[queued.len() - 1] == last);
        } else {
            assert forall|k: int| 0 <= k < rest.len() implies #[trigger] queued[k] == rest[k] by {}
            if depends_on_spec(rest) is None {
                assert forall|k: int| 0 <= k < queued.len() implies settled(#[trigger] queued[k].state) by {
                    if k < rest.len() {
                        assert(queued[k] == rest[k]);
                    }
                }
            } else {
                let id = depends_on_spec(rest)->Some_0;
                let k = choose|k: int|
                    0 <= k < rest.len() && rest[k].op_id@ == id && !settled(rest[k].state) && forall|j: int|
                        k < j < rest.len() ==> settled(#[trigger] rest[j].state);
                assert(queued[k] == rest[k]);
                assert forall|j: int| k < j < queued.len() implies settled(#[trigger] queued[j].state) by {
                    if j < rest.len() {
                        assert(queued[j] == rest[j]);
                    }
                }
                assert(!settled(queued[k].state));
            }
        }
    }
}

/// The operations of a list found gone that fail with it, in queue
/// order: those not sent for good (`pending` or `unknown`); one being sent
/// is left to the worker.
pub open spec fn failing_in_list(ops: Seq<Waiting>) -> Seq<Seq<char>>
    decreases ops.len(),
{
    if ops.len() == 0 {
        Seq::empty()
    } else if unsent(ops.last().state) {
        failing_in_list(ops.drop_last()).push(ops.last().op_id@)
    } else {
        failing_in_list(ops.drop_last())
    }
}

/// The operations of a list found gone that fail with it.
pub fn fail_in_list(ops: &Vec<Waiting>) -> (failed: Vec<String>)
    ensures
        failed@.map_values(|s: String| s@) == failing_in_list(ops@),
{
    let mut failed: Vec<String> = Vec::new();
    let mut i: usize = 0;
    while i < ops.len()
        invariant
            i <= ops@.len(),
            failed@.map_values(|s: String| s@) == failing_in_list(ops@.subrange(0, i as int)),
        decreases ops.len() - i,
    {
        assert(ops@.subrange(0, i + 1).drop_last() =~= ops@.subrange(0, i as int));
        assert(ops@.subrange(0, i + 1).last() == ops@[i as int]);
        let state = ops[i].state;
        if state == OpState::Pending || state == OpState::Unknown {
            let ghost prior = failed@.map_values(|s: String| s@);
            failed.push(ops[i].op_id.clone());
            assert(failed@.map_values(|s: String| s@) =~= prior.push(ops@[i as int].op_id@));
        }
        i = i + 1;
    }
    assert(ops@.subrange(0, ops@.len() as int) =~= ops@);
    failed
}

} // verus!
