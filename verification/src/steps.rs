//! A task's steps and link in the detail pane: the cursor moves down the
//! fields, then the Steps heading, each step and the link, then the
//! notes, in the order they're drawn.

use vstd::prelude::*;

use crate::action::{Action, Field, all_fields};

verus! {

/// A row of the detail pane the cursor can be on, in the order drawn.
#[derive(Clone, Copy, Debug, PartialEq, Eq, Hash, Structural)]
pub enum DetailRow {
    Field(Field),
    /// The Steps heading: where the first step is added.
    Steps,
    /// The step at this index.
    Step(usize),
    /// The task's one link, or where one is added.
    Link,
}

impl Default for DetailRow {
    fn default() -> (row: DetailRow)
        ensures
            row == DetailRow::Field(Field::Title),
    {
        DetailRow::Field(Field::first())
    }
}

/// Every row a task with `steps` steps shows, in order: the fields but
/// its notes, the Steps heading, each step, the link, then the notes.
pub open spec fn all_rows_spec(steps: nat) -> Seq<DetailRow> {
    seq![
        DetailRow::Field(Field::Title),
        DetailRow::Field(Field::Due),
        DetailRow::Field(Field::Reminder),
        DetailRow::Field(Field::Importance),
        DetailRow::Field(Field::Assignee),
        DetailRow::Steps,
    ] + Seq::new(steps, |i: int| DetailRow::Step(i as usize)) + seq![
        DetailRow::Link,
        DetailRow::Field(Field::Notes),
    ]
}

impl DetailRow {
    /// Every row a task with `steps` steps shows, in order.
    pub fn all(steps: usize) -> (rows: Vec<DetailRow>)
        ensures
            rows@ == all_rows_spec(steps as nat),
    {
        let fields = Field::all();
        let mut rows: Vec<DetailRow> = Vec::new();
        let mut i: usize = 0;
        while i < fields.len()
            invariant
                fields@ == all_fields(),
                i <= fields.len(),
                rows@ == Seq::new(
                    if i <= 5 {
                        i as nat
                    } else {
                        5
                    },
                    |j: int| DetailRow::Field(all_fields()[j]),
                ),
            decreases fields.len() - i,
        {
            if fields[i] != Field::Notes {
                rows.push(DetailRow::Field(fields[i]));
            }
            i = i + 1;
            assert(rows@ =~= Seq::new(
                if i <= 5 {
                    i as nat
                } else {
                    5
                },
                |j: int| DetailRow::Field(all_fields()[j]),
            ));
        }
        rows.push(DetailRow::Steps);
        let mut k: usize = 0;
        while k < steps
            invariant
                k <= steps,
                rows@ == seq![
                    DetailRow::Field(Field::Title),
                    DetailRow::Field(Field::Due),
                    DetailRow::Field(Field::Reminder),
                    DetailRow::Field(Field::Importance),
                    DetailRow::Field(Field::Assignee),
                    DetailRow::Steps,
                ] + Seq::new(k as nat, |j: int| DetailRow::Step(j as usize)),
            decreases steps - k,
        {
            rows.push(DetailRow::Step(k));
            k = k + 1;
            assert(rows@ =~= seq![
                DetailRow::Field(Field::Title),
                DetailRow::Field(Field::Due),
                DetailRow::Field(Field::Reminder),
                DetailRow::Field(Field::Importance),
                DetailRow::Field(Field::Assignee),
                DetailRow::Steps,
            ] + Seq::new(k as nat, |j: int| DetailRow::Step(j as usize)));
        }
        rows.push(DetailRow::Link);
        rows.push(DetailRow::Field(Field::Notes));
        assert(rows@ =~= all_rows_spec(steps as nat));
        rows
    }

    /// This row on a task with `steps` steps: a step past its last is its
    /// last, or the heading when it has none.
    pub fn on(self, steps: usize) -> (row: DetailRow)
        ensures
            row == (match self {
                DetailRow::Step(at) => if at >= steps {
                    if steps == 0 {
                        DetailRow::Steps
                    } else {
                        DetailRow::Step((steps - 1) as usize)
                    }
                } else {
                    self
                },
                _ => self,
            }),
    {
        match self {
            DetailRow::Step(at) => if at >= steps {
                if steps == 0 {
                    DetailRow::Steps
                } else {
                    DetailRow::Step(steps - 1)
                }
            } else {
                self
            },
            _ => self,
        }
    }

    /// Whether this row is the steps' or the link's.
    pub fn is_child(self) -> (b: bool)
        ensures
            b == (self is Steps || self is Step || self is Link),
    {
        match self {
            DetailRow::Steps | DetailRow::Step(_) | DetailRow::Link => true,
            DetailRow::Field(_) => false,
        }
    }
}

/// Where `row` is among the rows of a task with `steps` steps.
pub open spec fn row_index(row: DetailRow, steps: nat) -> int {
    match row {
        DetailRow::Field(Field::Title) => 0,
        DetailRow::Field(Field::Due) => 1,
        DetailRow::Field(Field::Reminder) => 2,
        DetailRow::Field(Field::Importance) => 3,
        DetailRow::Field(Field::Assignee) => 4,
        DetailRow::Steps => 5,
        DetailRow::Step(i) => 6 + i,
        DetailRow::Link => 6 + steps as int,
        DetailRow::Field(Field::Notes) => 7 + steps as int,
    }
}

proof fn lemma_row_index(row: DetailRow, steps: nat)
    requires
        !(row matches DetailRow::Step(i) && i >= steps),
    ensures
        0 <= row_index(row, steps) < all_rows_spec(steps).len(),
        all_rows_spec(steps)[row_index(row, steps)] == row,
{
    let rows = all_rows_spec(steps);
    let head = seq![
        DetailRow::Field(Field::Title),
        DetailRow::Field(Field::Due),
        DetailRow::Field(Field::Reminder),
        DetailRow::Field(Field::Importance),
        DetailRow::Field(Field::Assignee),
        DetailRow::Steps,
    ];
    let mid = Seq::new(steps, |i: int| DetailRow::Step(i as usize));
    let tail = seq![DetailRow::Link, DetailRow::Field(Field::Notes)];
    assert(rows == head + mid + tail);
    assert(rows.len() == steps + 8);
    match row {
        DetailRow::Step(i) => {
            assert(rows[6 + i] == mid[i as int]);
        },
        DetailRow::Link => {
            assert(rows[6 + steps as int] == tail[0]);
        },
        DetailRow::Field(Field::Notes) => {
            assert(rows[7 + steps as int] == tail[1]);
        },
        _ => {},
    }
}

/// Where `j`, `k`, `g` and `G` take the detail cursor on `row` of a task
/// with `steps` steps: through the rows in the order drawn, no further
/// than the first or the last.
pub open spec fn detail_moved_spec(row: DetailRow, steps: nat, action: Action) -> DetailRow {
    let now = match row {
        DetailRow::Step(at) => if at >= steps {
            if steps == 0 {
                DetailRow::Steps
            } else {
                DetailRow::Step((steps - 1) as usize)
            }
        } else {
            row
        },
        _ => row,
    };
    let at = row_index(now, steps);
    let last: int = steps as int + 7;
    let to = match action {
        Action::MoveDown => if at + 1 < last { at + 1 } else { last },
        Action::MoveUp => if at == 0 { 0 } else { at - 1 },
        Action::JumpTop => 0,
        Action::JumpBottom => last,
        _ => at,
    };
    all_rows_spec(steps)[to]
}

impl DetailRow {
    /// Where `action` takes the detail cursor on this row of a task with
    /// `steps` steps.
    pub fn moved(self, steps: usize, action: Action) -> (row: DetailRow)
        ensures
            row == detail_moved_spec(self, steps as nat, action),
    {
        let rows = DetailRow::all(steps);
        let now = self.on(steps);
        proof {
            lemma_row_index(now, steps as nat);
        }
        let mut i: usize = 0;
        while i < rows.len() && rows[i] != now
            invariant
                rows@ == all_rows_spec(steps as nat),
                i <= rows@.len(),
                forall|j: int| 0 <= j < i ==> rows@[j] != now,
            decreases rows.len() - i,
        {
            i = i + 1;
        }
        proof {
            lemma_row_positions(steps as nat);
            let k = row_index(now, steps as nat);
            assert(rows@[k] == now);
            assert(i < rows@.len());
            assert(row_index(rows@[i as int], steps as nat) == i);
        }
        let at = i;
        let last = rows.len() - 1;
        let to = match action {
            Action::MoveDown => if at < last { at + 1 } else { last },
            Action::MoveUp => if at == 0 { 0 } else { at - 1 },
            Action::JumpTop => 0,
            Action::JumpBottom => last,
            _ => at,
        };
        rows[to]
    }
}

/// Each row of a task's rows is at the place its index says.
proof fn lemma_row_positions(steps: nat)
    requires
        steps <= usize::MAX,
    ensures
        forall|i: int| 0 <= i < all_rows_spec(steps).len() ==> row_index(#[trigger] all_rows_spec(steps)[i], steps) == i,
{
    let rows = all_rows_spec(steps);
    let head = seq![
        DetailRow::Field(Field::Title),
        DetailRow::Field(Field::Due),
        DetailRow::Field(Field::Reminder),
        DetailRow::Field(Field::Importance),
        DetailRow::Field(Field::Assignee),
        DetailRow::Steps,
    ];
    let mid = Seq::new(steps, |i: int| DetailRow::Step(i as usize));
    let tail = seq![DetailRow::Link, DetailRow::Field(Field::Notes)];
    assert(rows == head + mid + tail);
    assert forall|i: int| 0 <= i < rows.len() implies row_index(#[trigger] rows[i], steps) == i by {
        if i < 6 {
            assert(rows[i] == head[i]);
        } else if i < 6 + steps {
            assert(rows[i] == mid[i - 6]);
            assert(rows[i] == DetailRow::Step((i - 6) as usize));
        } else {
            assert(rows[i] == tail[i - 6 - steps]);
        }
    }
}

/// What a step or link prompt writes to.
#[derive(Clone, Debug, PartialEq, Eq)]
pub enum ChildTarget {
    /// A new step, added last.
    NewStep,
    /// The step with this ID.
    Step(String),
    /// The link with this ID, or a new one.
    Link(Option<String>),
}

/// What the hint bar calls each prompt.
pub open spec fn child_target_label(target: ChildTarget) -> Seq<char> {
    match target {
        ChildTarget::NewStep => "New step"@,
        ChildTarget::Step(_) => "Edit step"@,
        ChildTarget::Link(None) => "Link URL"@,
        ChildTarget::Link(Some(_)) => "Edit link URL"@,
    }
}

impl ChildTarget {
    /// What the hint bar calls the prompt.
    pub fn label(&self) -> (s: &'static str)
        ensures
            s@ == child_target_label(*self),
    {
        match self {
            ChildTarget::NewStep => "New step",
            ChildTarget::Step(_) => "Edit step",
            ChildTarget::Link(None) => "Link URL",
            ChildTarget::Link(Some(_)) => "Edit link URL",
        }
    }
}

} // verus!
