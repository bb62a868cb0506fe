//! Keeping the detail cursor on the same step or link across refreshes.
//! [`DetailRow`] says where the cursor is drawn, by position; the anchor
//! says which step or link it's on, by ID. After every update the position
//! is found again from the ID, so a step deleted above it elsewhere doesn't
//! slide the cursor onto another. When the step itself is gone, or the link
//! has changed, the cursor moves to the nearest row and the next step or
//! link action does nothing but say so.

use vstd::prelude::*;

use crate::steps::DetailRow;
use crate::text::{has_prefix, has_prefix_spec, str_eq};

verus! {

/// The prefix of the ID a step or link ms-todo added has until Microsoft
/// To Do answers with its own.
pub const LOCAL_CHILD_PREFIX: &'static str = "local-";

pub open spec fn local_prefix() -> Seq<char> {
    "local-"@
}

/// Whether `id` is one ms-todo made up.
pub open spec fn is_local(id: Seq<char>) -> bool {
    has_prefix_spec(id, local_prefix())
}

fn local(id: &str) -> (b: bool)
    ensures
        b == is_local(id@),
{
    proof {
        reveal_strlit("local-");
    }
    has_prefix(id, LOCAL_CHILD_PREFIX)
}

/// A step as the cursor follows it: its ID and its text.
#[derive(Clone, Debug, PartialEq, Eq)]
pub struct StepKey {
    pub id: String,
    pub name: String,
}

/// What the cursor reads of the selected task: its local ID, its steps in
/// order, and its link's ID.
#[derive(Clone, Debug, PartialEq, Eq)]
pub struct TaskChildren {
    pub id: String,
    pub steps: Vec<StepKey>,
    pub link_id: Option<String>,
}

/// Which step or link the detail cursor is on, and whose.
#[derive(Clone, Debug, PartialEq, Eq)]
pub struct Anchor {
    /// The task's local ID.
    pub task: String,
    pub child: Child,
}

#[derive(Clone, Debug, PartialEq, Eq)]
pub enum Child {
    /// A field or the Steps heading: nothing to follow.
    Unanchored,
    /// A step by ID, and its text, to find it again once a local ID
    /// becomes Graph's.
    Step { id: String, name: String },
    /// The link, by ID (`None` when there's no link yet).
    Link(Option<String>),
}

/// An anchor as the contracts read it.
pub enum AnchorV {
    Unanchored(Seq<char>),
    Step(Seq<char>, Seq<char>, Seq<char>),
    Link(Seq<char>, Option<Seq<char>>),
}

pub open spec fn opt_view(o: Option<String>) -> Option<Seq<char>> {
    match o {
        Some(s) => Some(s@),
        None => None,
    }
}

pub open spec fn anchor_view(a: Anchor) -> AnchorV {
    match a.child {
        Child::Unanchored => AnchorV::Unanchored(a.task@),
        Child::Step { id, name } => AnchorV::Step(a.task@, id@, name@),
        Child::Link(id) => AnchorV::Link(a.task@, opt_view(id)),
    }
}

/// Whether step `s` has the text `name` and Graph's ID.
pub open spec fn named(s: StepKey, name: Seq<char>) -> bool {
    s.name@ == name && !is_local(s.id@)
}

/// The first of `steps` with the ID `id`, or -1.
pub open spec fn first_with_id(steps: Seq<StepKey>, id: Seq<char>) -> int
    decreases steps.len(),
{
    if steps.len() == 0 {
        -1
    } else {
        let before = first_with_id(steps.drop_last(), id);
        if before >= 0 {
            before
        } else if steps.last().id@ == id {
            steps.len() - 1
        } else {
            -1
        }
    }
}

/// How many of `steps` are named `name`, with Graph's ID.
pub open spec fn count_named(steps: Seq<StepKey>, name: Seq<char>) -> nat
    decreases steps.len(),
{
    if steps.len() == 0 {
        0
    } else if named(steps.last(), name) {
        count_named(steps.drop_last(), name) + 1
    } else {
        count_named(steps.drop_last(), name)
    }
}

/// The last of `steps` named `name`, with Graph's ID, or -1.
pub open spec fn last_named(steps: Seq<StepKey>, name: Seq<char>) -> int
    decreases steps.len(),
{
    if steps.len() == 0 {
        -1
    } else if named(steps.last(), name) {
        steps.len() - 1
    } else {
        last_named(steps.drop_last(), name)
    }
}

/// Where the step `id` is now. A step ms-todo added has a local ID until
/// Microsoft To Do answers, then Graph's: that's the same step if it has
/// the same text, where it was or the only one with that text.
pub open spec fn find_step_spec(steps: Seq<StepKey>, id: Seq<char>, name: Seq<char>, was: DetailRow) -> Option<int> {
    let at = first_with_id(steps, id);
    if at >= 0 {
        Some(at)
    } else if !is_local(id) {
        None
    } else if was matches DetailRow::Step(w) && w < steps.len() && named(steps[w as int], name) {
        Some(was->Step_0 as int)
    } else if count_named(steps, name) == 1 {
        Some(last_named(steps, name))
    } else {
        None
    }
}

proof fn lemma_last_named(steps: Seq<StepKey>, name: Seq<char>)
    ensures
        -1 <= last_named(steps, name) < steps.len(),
        count_named(steps, name) > 0 <==> last_named(steps, name) >= 0,
    decreases steps.len(),
{
    if steps.len() > 0 {
        lemma_last_named(steps.drop_last(), name);
    }
}

/// Where the step `id` is now.
fn find_step(steps: &Vec<StepKey>, id: &str, name: &str, was: DetailRow) -> (r: Option<usize>)
    ensures
        match r {
            Some(at) => find_step_spec(steps@, id@, name@, was) == Some(at as int) && at < steps@.len(),
            None => find_step_spec(steps@, id@, name@, was) is None,
        },
{
    let mut i: usize = 0;
    while i < steps.len()
        invariant
            i <= steps@.len(),
            first_with_id(steps@.subrange(0, i as int), id@) == -1,
        decreases steps.len() - i,
    {
        assert(steps@.subrange(0, i + 1).drop_last() =~= steps@.subrange(0, i as int));
        if str_eq(steps[i].id.as_str(), id) {
            proof {
                lemma_first_with_id_prefix(steps@, id@, i as int);
            }
            return Some(i);
        }
        i = i + 1;
    }
    assert(steps@.subrange(0, steps@.len() as int) =~= steps@);
    if !local(id) {
        return None;
    }
    if let DetailRow::Step(at) = was {
        if at < steps.len() && str_eq(steps[at].name.as_str(), name) && !local(steps[at].id.as_str()) {
            return Some(at);
        }
    }
    let mut count: usize = 0;
    let mut last: usize = 0;
    let mut k: usize = 0;
    while k < steps.len()
        invariant
            k <= steps@.len(),
            count == count_named(steps@.subrange(0, k as int), name@),
            count <= k,
            count > 0 ==> last as int == last_named(steps@.subrange(0, k as int), name@),
        decreases steps.len() - k,
    {
        assert(steps@.subrange(0, k + 1).drop_last() =~= steps@.subrange(0, k as int));
        if str_eq(steps[k].name.as_str(), name) && !local(steps[k].id.as_str()) {
            count = count + 1;
            last = k;
        }
        k = k + 1;
    }
    assert(steps@.subrange(0, steps@.len() as int) =~= steps@);
    proof {
        lemma_last_named(steps@, name@);
    }
    if count == 1 {
        Some(last)
    } else {
        None
    }
}

proof fn lemma_first_with_id_prefix(steps: Seq<StepKey>, id: Seq<char>, i: int)
    requires
        0 <= i < steps.len(),
        first_with_id(steps.subrange(0, i), id) == -1,
        steps[i].id@ == id,
    ensures
        first_with_id(steps, id) == i,
    decreases steps.len(),
{
    if steps.len() - 1 == i {
        assert(steps.drop_last() =~= steps.subrange(0, i));
    } else {
        assert(steps.drop_last().subrange(0, i) =~= steps.subrange(0, i));
        lemma_first_with_id_prefix(steps.drop_last(), id, i);
    }
}

/// The anchor for `row` of `task`: the step there, by ID and text; the
/// link, by ID; or nothing to follow.
pub open spec fn anchor_for_spec(task: TaskChildren, row: DetailRow) -> AnchorV {
    match row {
        DetailRow::Step(at) => if at < task.steps@.len() {
            AnchorV::Step(task.id@, task.steps@[at as int].id@, task.steps@[at as int].name@)
        } else {
            AnchorV::Unanchored(task.id@)
        },
        DetailRow::Link => AnchorV::Link(task.id@, opt_view(task.link_id)),
        _ => AnchorV::Unanchored(task.id@),
    }
}

fn copy_opt(o: &Option<String>) -> (c: Option<String>)
    ensures
        opt_view(c) == opt_view(*o),
{
    match o {
        Some(s) => Some(s.clone()),
        None => None,
    }
}

/// The anchor for `row` of `task`.
pub fn anchor_for(task: &TaskChildren, row: DetailRow) -> (a: Anchor)
    ensures
        anchor_view(a) == anchor_for_spec(*task, row),
{
    let child = match row {
        DetailRow::Step(at) => if at < task.steps.len() {
            Child::Step { id: task.steps[at].id.clone(), name: task.steps[at].name.clone() }
        } else {
            Child::Unanchored
        },
        DetailRow::Link => Child::Link(copy_opt(&task.link_id)),
        _ => Child::Unanchored,
    };
    Anchor { task: task.id.clone(), child }
}

/// The steps' count, as a row reads it.
pub open spec fn on_spec(row: DetailRow, steps: nat) -> DetailRow {
    match row {
        DetailRow::Step(at) => if at >= steps {
            if steps == 0 {
                DetailRow::Steps
            } else {
                DetailRow::Step((steps - 1) as usize)
            }
        } else {
            row
        },
        _ => row,
    }
}

/// The detail cursor: where it's drawn, what it's on, and whether what it
/// was on has changed since an action was last refused for it.
#[derive(Clone, Debug, PartialEq, Eq)]
pub struct DetailCursor {
    pub row: DetailRow,
    pub anchor: Option<Anchor>,
    pub stale: bool,
}

pub open spec fn anchor_opt_view(a: Option<Anchor>) -> Option<AnchorV> {
    match a {
        Some(x) => Some(anchor_view(x)),
        None => None,
    }
}

/// The task an anchor is for.
pub open spec fn anchor_task(a: AnchorV) -> Seq<char> {
    match a {
        AnchorV::Unanchored(t) => t,
        AnchorV::Step(t, _, _) => t,
        AnchorV::Link(t, _) => t,
    }
}

/// Where the cursor follows its anchor to on `task`, whose step or link
/// it's on (`anchor`, the same task's), and whether what it was on is
/// gone or has changed; `None` when it follows nothing.
pub open spec fn follow_spec(anchor: AnchorV, row: DetailRow, task: TaskChildren) -> Option<(DetailRow, bool)> {
    match anchor {
        AnchorV::Unanchored(_) => None,
        AnchorV::Step(_, id, name) => match find_step_spec(task.steps@, id, name, row) {
            Some(at) => Some((DetailRow::Step(at as usize), false)),
            None => Some((on_spec(row, task.steps@.len()), true)),
        },
        AnchorV::Link(_, id) => Some((DetailRow::Link, id != opt_view(task.link_id))),
    }
}

impl DetailCursor {
    /// Put the cursor on `row` of `task`, following whatever is there now.
    pub fn set(&mut self, task: Option<&TaskChildren>, row: DetailRow)
        ensures
            final(self).row == row,
            !final(self).stale,
            match task {
                Some(t) => anchor_opt_view(final(self).anchor) == Some(anchor_for_spec(*t, on_spec(row, t.steps@.len()))),
                None => final(self).anchor is None,
            },
    {
        self.row = row;
        self.stale = false;
        self.anchor = match task {
            Some(t) => Some(anchor_for(t, row.on(t.steps.len()))),
            None => None,
        };
    }

    /// After anything changed, with `task` selected: find the anchored
    /// step or link again. Another task than the anchor's gets the row at
    /// the same position.
    pub fn follow(&mut self, task: Option<&TaskChildren>)
        ensures
            match task {
                None => *final(self) == *old(self),
                Some(t) => match anchor_opt_view(old(self).anchor) {
                    Some(a) if anchor_task(a) == t.id@ => match follow_spec(a, old(self).row, *t) {
                        None => *final(self) == *old(self),
                        Some((row, stale)) => {
                            &&& final(self).row == row
                            &&& anchor_opt_view(final(self).anchor) == Some(anchor_for_spec(*t, row))
                            &&& final(self).stale == (old(self).stale || stale)
                        },
                    },
                    _ => {
                        &&& final(self).row == on_spec(old(self).row, t.steps@.len())
                        &&& !final(self).stale
                        &&& anchor_opt_view(final(self).anchor) == Some(
                            anchor_for_spec(*t, on_spec(on_spec(old(self).row, t.steps@.len()), t.steps@.len())),
                        )
                    },
                },
            },
    {
        let task = match task {
            Some(t) => t,
            None => {
                return;
            },
        };
        let same_task = match &self.anchor {
            Some(anchor) => str_eq(anchor.task.as_str(), task.id.as_str()),
            None => false,
        };
        if !same_task {
            let row = self.row.on(task.steps.len());
            self.set(Some(task), row);
            return;
        }
        let (row, stale) = match &self.anchor {
            Some(anchor) => match &anchor.child {
                Child::Unanchored => {
                    return;
                },
                Child::Step { id, name } => match find_step(&task.steps, id.as_str(), name.as_str(), self.row) {
                    Some(at) => (DetailRow::Step(at), false),
                    None => (self.row.on(task.steps.len()), true),
                },
                Child::Link(id) => {
                    let same = match (id, &task.link_id) {
                        (Some(a), Some(b)) => str_eq(a.as_str(), b.as_str()),
                        (None, None) => true,
                        _ => false,
                    };
                    (DetailRow::Link, !same)
                },
            },
            None => {
                return;
            },
        };
        let anchor = anchor_for(task, row);
        self.row = row;
        self.anchor = Some(anchor);
        self.stale = self.stale || stale;
    }

    /// Whether a step or link action must wait: what the cursor was on
    /// has changed since. Says why, once, and clears it.
    pub fn refuse_if_stale(&mut self) -> (why: Option<String>)
        ensures
            final(self).row == old(self).row,
            final(self).anchor == old(self).anchor,
            !final(self).stale,
            match why {
                Some(w) => old(self).stale && w@ == (if old(self).row == DetailRow::Link {
                    "The link changed; nothing was done"@
                } else {
                    "That step changed; nothing was done"@
                }),
                None => !old(self).stale,
            },
    {
        if !self.stale {
            return None;
        }
        self.stale = false;
        if self.row == DetailRow::Link {
            Some("The link changed; nothing was done".to_owned())
        } else {
            Some("That step changed; nothing was done".to_owned())
        }
    }
}

} // verus!
