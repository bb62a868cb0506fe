//! Per-scope sync state: a generation that only goes up, one per finished
//! pass even when nothing changed, so a waiter waits for a counter rather
//! than for a change or a clock tick; and each scope's delta cursor.

use vstd::prelude::*;

use crate::text::{concat, str_eq};

verus! {

/// The scope of the list collection itself.
pub const LISTS_SCOPE: &'static str = "lists";

/// What every tasks scope starts with.
pub open spec fn tasks_prefix() -> Seq<char> {
    "tasks:"@
}

/// The scope of the tasks of the list whose Graph ID is `list`.
pub open spec fn scope_of(list: Seq<char>) -> Seq<char> {
    tasks_prefix() + list
}

/// The list Graph ID a scope names, if it is a tasks scope.
pub open spec fn list_of_scope(scope: Seq<char>) -> Option<Seq<char>> {
    let n = tasks_prefix().len();
    if scope.len() >= n && scope.subrange(0, n as int) == tasks_prefix() {
        Some(scope.subrange(n as int, scope.len() as int))
    } else {
        None
    }
}

/// The scope of one list's tasks.
pub fn tasks_scope(list_graph_id: &str) -> (s: String)
    ensures
        s@ == scope_of(list_graph_id@),
{
    concat("tasks:", list_graph_id)
}

/// The list Graph ID of a scope from [`tasks_scope`].
pub fn scope_list(scope: &str) -> (r: Option<&str>)
    ensures
        r matches Some(list) ==> list_of_scope(scope@) == Some(list@),
        r is None ==> list_of_scope(scope@) is None,
{
    proof {
        reveal_strlit("tasks:");
    }
    let n = scope.unicode_len();
    if n < 6 {
        return None;
    }
    let head = scope.substring_char(0, 6);
    if str_eq(head, "tasks:") {
        Some(scope.substring_char(6, n))
    } else {
        None
    }
}

/// A list's tasks scope names that list back, and only a tasks scope names
/// a list: the two functions above undo each other.
pub proof fn lemma_scope_round_trip(list: Seq<char>, scope: Seq<char>)
    ensures
        list_of_scope(scope_of(list)) == Some(list),
        list_of_scope(scope) == Some(list) ==> scope_of(list) == scope,
{
    reveal_strlit("tasks:");
    let s = scope_of(list);
    assert(s.subrange(0, 6) =~= tasks_prefix());
    assert(s.subrange(6, s.len() as int) =~= list);
    if list_of_scope(scope) == Some(list) {
        assert(scope =~= scope.subrange(0, 6) + scope.subrange(6, scope.len() as int));
    }
}

/// One scope's row.
#[derive(Clone, Debug, PartialEq, Eq)]
pub struct ScopeRow {
    pub scope: String,
    pub generation: i64,
    pub in_progress: bool,
    pub last_success_at: Option<i64>,
    pub last_changed_count: i64,
    pub last_error: Option<String>,
    pub last_error_kind: Option<String>,
    pub last_error_at: Option<i64>,
    /// The delta link the last checkpoint saved. Without one the scope is
    /// in enumeration mode: its next pass reads it whole.
    pub delta_link: Option<String>,
    /// Unix seconds: when a pass last checkpointed by replaying a link.
    pub last_delta_at: Option<i64>,
}

/// How a pass read its scope, and the cursor it leaves behind.
#[derive(Clone, Debug, PartialEq, Eq)]
pub struct Cursor {
    /// The delta link to save when the pass checkpoints.
    pub delta_link: String,
    /// True when the pass replayed a saved link and so saw only changes;
    /// false when it read the whole scope (the first pass, or a reset),
    /// which lets it tombstone what it didn't see.
    pub replayed: bool,
}

impl ScopeRow {
    /// A scope is `initial` until its first pass finishes.
    pub fn is_ready(&self) -> (b: bool)
        ensures
            b == (self.generation > 0),
    {
        self.generation > 0
    }

    /// The generation as a count; a negative one, which no pass writes,
    /// reads as none.
    pub fn generation(&self) -> (g: u64)
        ensures
            self.generation >= 0 ==> g == self.generation,
            self.generation < 0 ==> g == 0,
    {
        if self.generation >= 0 {
            self.generation as u64
        } else {
            0
        }
    }

    /// Whether the next pass replays a delta link.
    pub fn is_delta(&self) -> (b: bool)
        ensures
            b == self.delta_link is Some,
    {
        self.delta_link.is_some()
    }
}

} // verus!
