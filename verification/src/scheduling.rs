//! Which queued operations the worker sends, when it wakes next, and what
//! a restart makes of an operation that was being sent. The outbox is
//! held in queueing order.

use vstd::prelude::*;

use crate::json::{Json, JsonV, field, get};
use crate::ops::{OpKind, OpState, OutboxRow};
use crate::text::str_eq;

verus! {

/// Whether the operation `op_id` is among `rows` and done.
pub open spec fn is_done(rows: Seq<OutboxRow>, op_id: Seq<char>) -> bool {
    exists|k: int| 0 <= k < rows.len() && (#[trigger] rows[k]).op_id@ == op_id && rows[k].state == OpState::Done
}

/// Whether the operation at `i` is sent now: pending, its backoff over,
/// and whatever it waits on done.
pub open spec fn is_ready(rows: Seq<OutboxRow>, i: int, now: i64) -> bool {
    let row = rows[i];
    &&& row.state == OpState::Pending
    &&& row.next_attempt_at <= now
    &&& match row.depends_on {
        None => true,
        Some(d) => is_done(rows, d@),
    }
}

/// The positions of the operations sent now, in queueing order.
pub open spec fn ready_spec(rows: Seq<OutboxRow>, n: int, now: i64) -> Seq<int>
    decreases n,
{
    if n <= 0 {
        Seq::empty()
    } else {
        let before = ready_spec(rows, n - 1, now);
        if is_ready(rows, n - 1, now) {
            before.push(n - 1)
        } else {
            before
        }
    }
}

fn done_among(rows: &Vec<OutboxRow>, op_id: &str) -> (b: bool)
    ensures
        b == is_done(rows@, op_id@),
{
    let mut k: usize = 0;
    while k < rows.len()
        invariant
            k <= rows.len(),
            forall|j: int| 0 <= j < k ==> !((#[trigger] rows@[j]).op_id@ == op_id@ && rows@[j].state == OpState::Done),
        decreases rows.len() - k,
    {
        if str_eq(rows[k].op_id.as_str(), op_id) && rows[k].state == OpState::Done {
            assert(rows@[k as int].op_id@ == op_id@);
            return true;
        }
        k = k + 1;
    }
    false
}

/// Whether the row at `i` comes before the one at `j` in `seq` order (the
/// position settling equal numbers).
pub open spec fn seq_before(rows: Seq<OutboxRow>, i: int, j: int) -> bool {
    rows[i].seq < rows[j].seq || (rows[i].seq == rows[j].seq && i < j)
}

/// Whether `order` goes through rows in increasing `seq`, each once.
pub open spec fn in_seq_order(rows: Seq<OutboxRow>, order: Seq<usize>) -> bool {
    forall|a: int, b: int|
        0 <= a < b < order.len() ==> seq_before(rows, #[trigger] order[a] as int, #[trigger] order[b] as int)
}

/// The ready positions among the first `n` rows, in the rows' order.
fn ready_in_row_order(rows: &Vec<OutboxRow>, now: i64) -> (ready: Vec<usize>)
    ensures
        ready@.map_values(|i: usize| i as int) == ready_spec(rows@, rows.len() as int, now),
{
    let mut ready: Vec<usize> = Vec::new();
    let mut i: usize = 0;
    while i < rows.len()
        invariant
            i <= rows.len(),
            ready@.map_values(|k: usize| k as int) == ready_spec(rows@, i as int, now),
        decreases rows.len() - i,
    {
        let row = &rows[i];
        let waits_done = match &row.depends_on {
            None => true,
            Some(d) => done_among(rows, d.as_str()),
        };
        if row.state == OpState::Pending && row.next_attempt_at <= now && waits_done {
            let ghost before = ready@;
            ready.push(i);
            assert(ready@.map_values(|k: usize| k as int) =~= before.map_values(|k: usize| k as int).push(i as int));
        }
        i = i + 1;
    }
    ready
}

/// `out` with `k` put at `p`, where everything before `p` comes before
/// `k` and `k` before everything from `p` on, stays in `seq` order.
proof fn lemma_insert_in_order(rows: Seq<OutboxRow>, out: Seq<usize>, p: int, k: usize)
    requires
        0 <= p <= out.len(),
        in_seq_order(rows, out),
        forall|a: int| 0 <= a < p ==> seq_before(rows, #[trigger] out[a] as int, k as int),
        forall|a: int| p <= a < out.len() ==> seq_before(rows, k as int, #[trigger] out[a] as int),
    ensures
        in_seq_order(rows, out.insert(p, k)),
{
    let n = out.insert(p, k);
    assert forall|a: int, b: int| 0 <= a < b < n.len() implies seq_before(rows, #[trigger] n[a] as int, #[trigger] n[b] as int) by {
        if b < p {
            assert(n[a] == out[a] && n[b] == out[b]);
        } else if b == p {
            assert(n[a] == out[a] && n[b] == k);
        } else if a < p {
            assert(n[a] == out[a] && n[b] == out[b - 1]);
            assert(seq_before(rows, out[a] as int, out[b - 1] as int));
        } else if a == p {
            assert(n[a] == k && n[b] == out[b - 1]);
        } else {
            assert(n[a] == out[a - 1] && n[b] == out[b - 1]);
        }
    }
}

/// Whether `order` lists exactly the ready operations, in increasing
/// `seq`.
pub open spec fn sends(rows: Seq<OutboxRow>, now: i64, order: Seq<usize>) -> bool {
    &&& forall|a: int| 0 <= a < order.len() ==> ready_spec(rows, rows.len() as int, now).contains(#[trigger] order[a] as int)
    &&& forall|k: int| ready_spec(rows, rows.len() as int, now).contains(k) ==> exists|a: int|
        0 <= a < order.len() && #[trigger] order[a] as int == k
    &&& in_seq_order(rows, order)
}

/// What the worker sends: each operation once, in increasing `seq`
/// whatever order the rows come in, each pending, due and waiting on
/// nothing or on a done operation; every such operation is sent, and one
/// waiting on an operation not done (failed, queued, or gone) never is.
pub proof fn law_sent_in_seq_order(rows: Seq<OutboxRow>, now: i64, order: Seq<usize>)
    requires
        sends(rows, now, order),
    ensures
        forall|a: int, b: int| 0 <= a < b < order.len() ==> rows[#[trigger] order[a] as int].seq <= rows[#[trigger] order[b] as int].seq
            && order[a] != order[b],
        forall|a: int| 0 <= a < order.len() ==> 0 <= #[trigger] order[a] < rows.len() && is_ready(rows, order[a] as int, now),
        forall|k: int| 0 <= k < rows.len() && #[trigger] is_ready(rows, k, now) ==> exists|a: int|
            0 <= a < order.len() && order[a] as int == k,
        forall|a: int|
            0 <= a < order.len() && (#[trigger] rows[order[a] as int]).depends_on is Some ==> is_done(
                rows,
                rows[order[a] as int].depends_on->Some_0@,
            ),
{
    law_ready_ops_in_queue_order(rows, rows.len() as int, now);
    let r = ready_spec(rows, rows.len() as int, now);
    assert forall|a: int| 0 <= a < order.len() implies 0 <= #[trigger] order[a] < rows.len() && is_ready(rows, order[a] as int, now) by {
        assert(r.contains(order[a] as int));
        let j = choose|j: int| 0 <= j < r.len() && r[j] == order[a] as int;
        assert(0 <= r[j] < rows.len());
    }
    assert forall|k: int| 0 <= k < rows.len() && #[trigger] is_ready(rows, k, now) implies exists|a: int|
        0 <= a < order.len() && order[a] as int == k by {
        assert(r.contains(k));
    }
    assert forall|a: int|
        0 <= a < order.len() && (#[trigger] rows[order[a] as int]).depends_on is Some implies is_done(
            rows,
            rows[order[a] as int].depends_on->Some_0@,
        ) by {
        assert(r.contains(order[a] as int));
        let j = choose|j: int| 0 <= j < r.len() && r[j] == order[a] as int;
        assert(0 <= r[j] < rows.len());
        assert(is_ready(rows, order[a] as int, now));
    }
}

/// `k` put into `out` where its `seq` puts it.
fn insert_by_seq(rows: &Vec<OutboxRow>, out: &mut Vec<usize>, k: usize)
    requires
        in_seq_order(rows@, old(out)@),
        k < rows.len(),
        !old(out)@.contains(k),
        forall|a: int| 0 <= a < old(out)@.len() ==> #[trigger] old(out)@[a] < rows.len(),
    ensures
        in_seq_order(rows@, final(out)@),
        forall|x: usize| final(out)@.contains(x) <==> (old(out)@.contains(x) || x == k),
        forall|a: int| 0 <= a < final(out)@.len() ==> #[trigger] final(out)@[a] < rows.len(),
{
    let mut p: usize = 0;
    while p < out.len() && (rows[out[p]].seq < rows[k].seq || (rows[out[p]].seq == rows[k].seq && out[p] < k))
        invariant
            p <= out@.len(),
            k < rows.len(),
            forall|a: int| 0 <= a < out@.len() ==> #[trigger] out@[a] < rows.len(),
            forall|a: int| 0 <= a < p ==> seq_before(rows@, #[trigger] out@[a] as int, k as int),
        decreases out@.len() - p,
    {
        p = p + 1;
    }
    proof {
        if p < out@.len() {
            assert(out@[p as int] != k);
            assert(seq_before(rows@, k as int, out@[p as int] as int));
            assert forall|a: int| p <= a < out@.len() implies seq_before(rows@, k as int, #[trigger] out@[a] as int) by {
                if a > p {
                    assert(seq_before(rows@, out@[p as int] as int, out@[a] as int));
                }
            }
        }
        lemma_insert_in_order(rows@, out@, p as int, k);
    }
    let ghost before = out@;
    out.insert(p, k);
    proof {
        assert forall|x: usize| out@.contains(x) <==> (before.contains(x) || x == k) by {
            if out@.contains(x) {
                let a = choose|a: int| 0 <= a < out@.len() && out@[a] == x;
                if a < p {
                    assert(before[a] == x);
                } else if a > p {
                    assert(before[a - 1] == x);
                }
            }
            if before.contains(x) {
                let a = choose|a: int| 0 <= a < before.len() && before[a] == x;
                if a < p {
                    assert(out@[a] == x);
                } else {
                    assert(out@[a + 1] == x);
                }
            }
            if x == k {
                assert(out@[p as int] == x);
            }
        }
        assert forall|a: int| 0 <= a < out@.len() implies #[trigger] out@[a] < rows.len() by {
            if a < p {
                assert(out@[a] == before[a]);
            } else if a > p {
                assert(out@[a] == before[a - 1]);
            }
        }
    }
}

/// The operations the worker sends at `now`: each pending one whose
/// backoff is over and whose dependency, if any, is done, in increasing
/// `seq`, whatever order the rows come in.
pub fn ready_ops(rows: &Vec<OutboxRow>, now: i64) -> (ready: Vec<usize>)
    ensures
        sends(rows@, now, ready@),
{
    let picked = ready_in_row_order(rows, now);
    let ghost want = ready_spec(rows@, rows.len() as int, now);
    proof {
        law_ready_ops_in_queue_order(rows@, rows.len() as int, now);
        assert forall|j: int| 0 <= j < picked@.len() implies #[trigger] picked@[j] as int == want[j] by {
            assert(picked@.map_values(|i: usize| i as int)[j] == picked@[j] as int);
        }
    }
    let mut out: Vec<usize> = Vec::new();
    let mut i: usize = 0;
    while i < picked.len()
        invariant
            i <= picked@.len(),
            want == ready_spec(rows@, rows.len() as int, now),
            picked@.len() == want.len(),
            forall|j: int| 0 <= j < picked@.len() ==> #[trigger] picked@[j] as int == want[j],
            forall|a: int, b: int| 0 <= a < b < want.len() ==> #[trigger] want[a] < #[trigger] want[b],
            forall|a: int| 0 <= a < want.len() ==> 0 <= #[trigger] want[a] < rows.len(),
            forall|x: usize| out@.contains(x) <==> picked@.take(i as int).contains(x),
            forall|a: int| 0 <= a < out@.len() ==> #[trigger] out@[a] < rows.len(),
            in_seq_order(rows@, out@),
        decreases picked@.len() - i,
    {
        let k = picked[i];
        proof {
            assert(picked@[i as int] as int == want[i as int]);
            let before = picked@.take(i as int);
            if out@.contains(k) {
                let j = choose|j: int| 0 <= j < before.len() && before[j] == k;
                assert(picked@[j] as int == want[j]);
                assert(want[j] < want[i as int]);
            }
        }
        insert_by_seq(rows, &mut out, k);
        proof {
            let before = picked@.take(i as int);
            let after = picked@.take(i + 1);
            assert(after =~= before.push(k));
            assert forall|x: usize| out@.contains(x) <==> after.contains(x) by {
                if after.contains(x) && x != k {
                    let j = choose|j: int| 0 <= j < after.len() && after[j] == x;
                    assert(before[j] == x);
                }
                if before.contains(x) {
                    let j = choose|j: int| 0 <= j < before.len() && before[j] == x;
                    assert(after[j] == x);
                }
                if x == k {
                    assert(after[i as int] == x);
                }
            }
        }
        i = i + 1;
    }
    proof {
        assert(picked@.take(picked@.len() as int) =~= picked@);
        assert forall|a: int| 0 <= a < out@.len() implies want.contains(#[trigger] out@[a] as int) by {
            assert(out@.contains(out@[a]));
            let j = choose|j: int| 0 <= j < picked@.len() && picked@[j] == out@[a];
            assert(picked@[j] as int == want[j]);
        }
        assert forall|k: int| want.contains(k) implies exists|a: int| 0 <= a < out@.len() && #[trigger] out@[a] as int == k by {
            let j = choose|j: int| 0 <= j < want.len() && want[j] == k;
            assert(picked@[j] as int == want[j]);
            assert(picked@.contains(picked@[j]));
            assert(out@.contains(picked@[j]));
            let a = choose|a: int| 0 <= a < out@.len() && out@[a] == picked@[j];
            assert(out@[a] as int == k);
        }
    }
    out
}

/// The earliest time after `now` a pending operation waiting out a
/// backoff is due, among the first `n` rows.
pub open spec fn next_due_spec(rows: Seq<OutboxRow>, n: int, now: i64) -> Option<i64>
    decreases n,
{
    if n <= 0 {
        None
    } else {
        let before = next_due_spec(rows, n - 1, now);
        let row = rows[n - 1];
        if row.state == OpState::Pending && row.next_attempt_at > now {
            match before {
                Some(t) => if row.next_attempt_at < t { Some(row.next_attempt_at) } else { Some(t) },
                None => Some(row.next_attempt_at),
            }
        } else {
            before
        }
    }
}

/// When the worker wakes next for a backoff: the earliest `next_attempt_at`
/// after `now` among pending operations, if any.
pub fn next_attempt_at(rows: &Vec<OutboxRow>, now: i64) -> (t: Option<i64>)
    ensures
        t == next_due_spec(rows@, rows.len() as int, now),
{
    let mut t: Option<i64> = None;
    let mut i: usize = 0;
    while i < rows.len()
        invariant
            i <= rows.len(),
            t == next_due_spec(rows@, i as int, now),
        decreases rows.len() - i,
    {
        let row = &rows[i];
        if row.state == OpState::Pending && row.next_attempt_at > now {
            t = match t {
                Some(e) => if row.next_attempt_at < e { Some(row.next_attempt_at) } else { Some(e) },
                None => Some(row.next_attempt_at),
            };
        }
        i = i + 1;
    }
    t
}

/// The operations sent are exactly the ready ones among the first `n`,
/// each once, in queueing order: with the rows in increasing `seq`, so
/// are the operations sent. One that waits on an operation not done
/// (failed, still queued, or no longer in the outbox) is never sent.
pub proof fn law_ready_ops_in_queue_order(rows: Seq<OutboxRow>, n: int, now: i64)
    requires
        0 <= n <= rows.len(),
    ensures
        forall|a: int, b: int|
            0 <= a < b < ready_spec(rows, n, now).len() ==> #[trigger] ready_spec(rows, n, now)[a]
                < #[trigger] ready_spec(rows, n, now)[b],
        forall|a: int|
            0 <= a < ready_spec(rows, n, now).len() ==> 0 <= #[trigger] ready_spec(rows, n, now)[a] < n,
        forall|k: int| 0 <= k < n ==> (ready_spec(rows, n, now).contains(k) <==> #[trigger] is_ready(rows, k, now)),
        (forall|i: int, j: int| 0 <= i < j < rows.len() ==> #[trigger] rows[i].seq < #[trigger] rows[j].seq) ==> forall|
            a: int,
            b: int,
        |
            0 <= a < b < ready_spec(rows, n, now).len() ==> rows[#[trigger] ready_spec(rows, n, now)[a]].seq
                < rows[#[trigger] ready_spec(rows, n, now)[b]].seq,
        forall|k: int|
            0 <= k < n && (#[trigger] rows[k]).depends_on is Some && !is_done(rows, rows[k].depends_on->Some_0@)
                ==> !ready_spec(rows, n, now).contains(k),
    decreases n,
{
    if n > 0 {
        law_ready_ops_in_queue_order(rows, n - 1, now);
        let before = ready_spec(rows, n - 1, now);
        let r = ready_spec(rows, n, now);
        if is_ready(rows, n - 1, now) {
            assert(r == before.push(n - 1));
            assert forall|k: int| 0 <= k < n implies (r.contains(k) <==> #[trigger] is_ready(rows, k, now)) by {
                if k < n - 1 {
                    if before.contains(k) {
                        let a = choose|a: int| 0 <= a < before.len() && before[a] == k;
                        assert(r[a] == k);
                    }
                    if r.contains(k) {
                        let a = choose|a: int| 0 <= a < r.len() && r[a] == k;
                        if a == before.len() {
                        } else {
                            assert(before[a] == k);
                        }
                    }
                } else {
                    assert(r[before.len() as int] == n - 1);
                }
            }
        } else {
            assert(r == before);
            assert forall|k: int| 0 <= k < n implies (r.contains(k) <==> #[trigger] is_ready(rows, k, now)) by {
                if k == n - 1 && r.contains(k) {
                    let a = choose|a: int| 0 <= a < r.len() && r[a] == k;
                    assert(0 <= before[a] < n - 1);
                }
            }
        }
        assert forall|k: int|
            0 <= k < n && (#[trigger] rows[k]).depends_on is Some && !is_done(rows, rows[k].depends_on->Some_0@)
                implies !r.contains(k) by {
            assert(!is_ready(rows, k, now));
        }
    }
}

/// The earliest due time is no later than any pending operation's.
pub proof fn law_next_due_is_the_earliest(rows: Seq<OutboxRow>, n: int, now: i64, k: int)
    requires
        0 <= k < n <= rows.len(),
        rows[k].state == OpState::Pending,
        rows[k].next_attempt_at > now,
    ensures
        next_due_spec(rows, n, now) matches Some(t) && t <= rows[k].next_attempt_at,
    decreases n,
{
    if k < n - 1 {
        law_next_due_is_the_earliest(rows, n - 1, now, k);
    }
}

/// Whether a field of a JSON value is `value`.
pub open spec fn flag_is(v: Option<Json>, key: Seq<char>, value: JsonV) -> bool {
    match v {
        Some(j) => field(j.model(), key) == value,
        None => false,
    }
}

/// Whether an operation that was being sent may have reached Graph: a
/// create, a recurring completion, a step or link created, or a move
/// whose progress says it's in doubt.
pub open spec fn may_have_landed(row: OutboxRow) -> bool {
    ||| row.op == OpKind::Create
    ||| field(row.payload.model(), "recurring"@) == JsonV::Bool(true)
    ||| (row.op == OpKind::Child && field(row.payload.model(), "verb"@) == JsonV::Str("create"@))
    ||| (row.op == OpKind::Move && flag_is(row.progress, "in_doubt"@, JsonV::Bool(true)))
}

/// What a restart makes of an operation: one that was being sent is
/// `unknown` when it may have reached Graph, else `pending` to send
/// again; any other keeps its state.
pub open spec fn recovered_spec(row: OutboxRow) -> OpState {
    if row.state != OpState::Inflight {
        row.state
    } else if may_have_landed(row) {
        OpState::Unknown
    } else {
        OpState::Pending
    }
}

fn is_true_at(value: &Json, key: &str) -> (b: bool)
    ensures
        b == (field(value.model(), key@) == JsonV::Bool(true)),
{
    match value {
        Json::Object(m) => match get(m, key) {
            Some(Json::Bool(true)) => true,
            _ => false,
        },
        _ => false,
    }
}

/// The state an operation has after a restart.
pub fn recovered(row: &OutboxRow) -> (state: OpState)
    ensures
        state == recovered_spec(*row),
{
    if row.state != OpState::Inflight {
        return row.state;
    }
    let verb_create = match &row.payload {
        Json::Object(m) => match get(m, "verb") {
            Some(v) => match v.as_str() {
                Some(s) => str_eq(s, "create"),
                None => false,
            },
            None => false,
        },
        _ => false,
    };
    let in_doubt = match &row.progress {
        Some(p) => is_true_at(p, "in_doubt"),
        None => false,
    };
    if row.op == OpKind::Create || is_true_at(&row.payload, "recurring") || (row.op == OpKind::Child && verb_create)
        || (row.op == OpKind::Move && in_doubt) {
        OpState::Unknown
    } else {
        OpState::Pending
    }
}

/// A restart leaves nothing being sent: no operation is `inflight` after.
pub proof fn law_nothing_is_inflight_after_a_restart(row: OutboxRow)
    ensures
        recovered_spec(row) != OpState::Inflight,
{
}

/// A restart never resends what may have reached Graph: such an
/// operation is never `pending` after it.
pub proof fn law_what_may_have_landed_is_not_resent(row: OutboxRow)
    requires
        row.state == OpState::Inflight,
        may_have_landed(row),
    ensures
        recovered_spec(row) == OpState::Unknown,
{
}

} // verus!
