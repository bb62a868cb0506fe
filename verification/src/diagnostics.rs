//! The diagnostics page (`D`): what the daemon reports of sign-in, the
//! scopes' sync and the outbox, and what of it needs attention, worded as
//! `ms-todo doctor` words it.

use vstd::prelude::*;

use crate::text::{concat, decimal, decimal_spec};

verus! {

/// Which of the page's requests an answer is for.
#[derive(Clone, Copy, Debug, PartialEq, Eq, Structural)]
pub enum Part {
    Status,
    Doctor,
    Unknown,
}

/// What the page reads of the daemon's status.
#[derive(Clone, Copy, Debug, PartialEq, Eq, Structural)]
pub struct DaemonStatus {
    /// Whether the daemon holds a credential.
    pub signed_in: bool,
}

/// One scope's sync, as the doctor report gives it.
#[derive(Clone, Debug, PartialEq, Eq)]
pub struct ScopeStatus {
    pub scope: String,
    /// Why its last sync failed, if it did.
    pub last_error: Option<String>,
}

/// How many outbox operations are in each state.
#[derive(Clone, Copy, Debug, PartialEq, Eq, Structural)]
pub struct OutboxDepth {
    pub pending: u64,
    pub inflight: u64,
    pub done: u64,
    pub unknown: u64,
    /// Unknown for over a day.
    pub flagged: u64,
    pub failed: u64,
}

impl Default for OutboxDepth {
    /// An empty outbox.
    fn default() -> (d: OutboxDepth)
        ensures
            d == (OutboxDepth { pending: 0, inflight: 0, done: 0, unknown: 0, flagged: 0, failed: 0 }),
    {
        OutboxDepth { pending: 0, inflight: 0, done: 0, unknown: 0, flagged: 0, failed: 0 }
    }
}

/// The doctor report: the scopes' sync and the outbox.
#[derive(Clone, Debug, PartialEq, Eq)]
pub struct DoctorReport {
    /// A sync is running now.
    pub syncing: bool,
    pub scopes: Vec<ScopeStatus>,
    pub outbox: OutboxDepth,
}

/// An outbox operation as the page lists it.
#[derive(Clone, Debug, PartialEq, Eq)]
pub struct OutboxOp {
    pub op_id: String,
    pub title: String,
    /// Unknown for over a day.
    pub flagged: bool,
}

/// What the daemon answered a request with.
#[derive(Clone, Debug, PartialEq, Eq)]
pub enum PartData {
    Status(DaemonStatus),
    Doctor(DoctorReport),
    Outbox(Vec<OutboxOp>),
    /// An answer of another kind.
    Other,
}

/// The page's data, each part as last answered: the answer, or why it
/// failed. Kept while a refresh is out, so the page doesn't blank.
#[derive(Clone, Debug, PartialEq, Eq)]
pub struct Diagnostics {
    pub status: Option<Result<DaemonStatus, String>>,
    pub report: Option<Result<DoctorReport, String>>,
    pub unknown: Option<Result<Vec<OutboxOp>, String>>,
    /// Answers still to come.
    pub waiting: usize,
    pub scroll: u16,
}

impl Default for Diagnostics {
    /// Nothing asked or answered yet.
    fn default() -> (d: Diagnostics)
        ensures
            d.status is None,
            d.report is None,
            d.unknown is None,
            d.waiting == 0,
            d.scroll == 0,
    {
        Diagnostics { status: None, report: None, unknown: None, waiting: 0, scroll: 0 }
    }
}

/// The operations among `ops` that are flagged, in order.
pub open spec fn flagged_spec(ops: Seq<OutboxOp>) -> Seq<OutboxOp>
    decreases ops.len(),
{
    if ops.len() == 0 {
        ops
    } else if ops.last().flagged {
        flagged_spec(ops.drop_last()).push(ops.last())
    } else {
        flagged_spec(ops.drop_last())
    }
}

/// How many of `scopes` failed their last sync.
pub open spec fn failing_spec(scopes: Seq<ScopeStatus>) -> nat
    decreases scopes.len(),
{
    if scopes.len() == 0 {
        0
    } else if scopes.last().last_error is Some {
        failing_spec(scopes.drop_last()) + 1
    } else {
        failing_spec(scopes.drop_last())
    }
}

proof fn lemma_failing_at_most(scopes: Seq<ScopeStatus>)
    ensures
        failing_spec(scopes) <= scopes.len(),
    decreases scopes.len(),
{
    if scopes.len() > 0 {
        lemma_failing_at_most(scopes.drop_last());
    }
}

pub open spec fn not_signed_in_text() -> Seq<char> {
    "not signed in; run `ms-todo auth login`"@
}

pub open spec fn unavailable_text(why: Seq<char>) -> Seq<char> {
    "the daemon isn't available: "@ + why
}

pub open spec fn no_report_text(why: Seq<char>) -> Seq<char> {
    "the daemon couldn't report: "@ + why
}

pub open spec fn failing_text(failing: nat, scopes: nat) -> Seq<char> {
    decimal_spec(failing) + " of "@ + decimal_spec(scopes) + " scopes failed their last sync"@
}

pub open spec fn unknown_text(unknown: nat, flagged: nat) -> Seq<char> {
    decimal_spec(unknown) + " write(s) may or may not have reached Microsoft To Do ("@ + decimal_spec(flagged)
        + " for over a day); don't resend them yourself: see `ms-todo outbox list --state unknown`"@
}

pub open spec fn failed_text(failed: nat) -> Seq<char> {
    decimal_spec(failed) + " write(s) were rejected and kept; see `ms-todo outbox list --state failed`"@
}

pub open spec fn never_synced_text() -> Seq<char> {
    "nothing has synced yet; run `ms-todo sync --wait`"@
}

/// What a doctor report says needs attention.
pub open spec fn report_problems(r: DoctorReport) -> Seq<Seq<char>> {
    let failing = failing_spec(r.scopes@);
    let a: Seq<Seq<char>> = if failing > 0 {
        seq![failing_text(failing, r.scopes@.len())]
    } else {
        seq![]
    };
    let b = if r.outbox.unknown > 0 {
        a.push(unknown_text(r.outbox.unknown as nat, r.outbox.flagged as nat))
    } else {
        a
    };
    let c = if r.outbox.failed > 0 {
        b.push(failed_text(r.outbox.failed as nat))
    } else {
        b
    };
    if r.scopes@.len() == 0 && !r.syncing {
        c.push(never_synced_text())
    } else {
        c
    }
}

/// What the page says needs attention: sign-in and the daemon first,
/// then the report.
pub open spec fn problems_spec(d: Diagnostics) -> Seq<Seq<char>> {
    let first: Seq<Seq<char>> = match d.status {
        Some(Ok(s)) => if s.signed_in {
            seq![]
        } else {
            seq![not_signed_in_text()]
        },
        Some(Err(why)) => seq![unavailable_text(why@)],
        None => seq![],
    };
    match d.report {
        Some(Ok(r)) => first + report_problems(r),
        Some(Err(why)) => first.push(no_report_text(why@)),
        None => first,
    }
}

/// The operations the page flags.
pub open spec fn page_flagged(d: Diagnostics) -> Seq<OutboxOp> {
    match d.unknown {
        Some(Ok(ops)) => flagged_spec(ops@),
        _ => seq![],
    }
}

/// How many scopes the report lists.
pub open spec fn scope_count_spec(d: Diagnostics) -> nat {
    match d.report {
        Some(Ok(r)) => r.scopes@.len(),
        _ => 0,
    }
}

/// The last row the page scrolls to: past the scopes, problems and
/// flagged operations, the page's fixed rows and headings, at most what
/// a `u16` holds.
pub open spec fn last_row(d: Diagnostics) -> int {
    let rows: int = (scope_count_spec(d) + problems_spec(d).len() + page_flagged(d).len() + 12) as int;
    if rows <= 65535 {
        rows
    } else {
        65535
    }
}

/// A part's answer, or why there's none.
pub open spec fn answer_spec(part: Part, result: Result<PartData, String>) -> PartAnswer {
    match result {
        Err(why) => PartAnswer::Failed(why),
        Ok(data) => match (part, data) {
            (Part::Status, PartData::Status(s)) => PartAnswer::Status(s),
            (Part::Doctor, PartData::Doctor(r)) => PartAnswer::Doctor(r),
            (Part::Unknown, PartData::Outbox(ops)) => PartAnswer::Outbox(ops),
            _ => PartAnswer::Unexpected,
        },
    }
}

/// A part's answer sorted out: the data the part asked for, the daemon's
/// reason for none, or an answer of the wrong kind.
pub enum PartAnswer {
    Status(DaemonStatus),
    Doctor(DoctorReport),
    Outbox(Vec<OutboxOp>),
    Failed(String),
    Unexpected,
}

pub open spec fn unexpected_text() -> Seq<char> {
    "the daemon sent an unexpected answer"@
}

fn answer(part: Part, result: Result<PartData, String>) -> (a: PartAnswer)
    ensures
        a == answer_spec(part, result),
{
    match result {
        Err(why) => PartAnswer::Failed(why),
        Ok(data) => match (part, data) {
            (Part::Status, PartData::Status(s)) => PartAnswer::Status(s),
            (Part::Doctor, PartData::Doctor(r)) => PartAnswer::Doctor(r),
            (Part::Unknown, PartData::Outbox(ops)) => PartAnswer::Outbox(ops),
            _ => PartAnswer::Unexpected,
        },
    }
}

impl Diagnostics {
    /// The operations `outbox list` flags: unknown for over a day.
    pub fn flagged(&self) -> (ops: Vec<&OutboxOp>)
        ensures
            ops@.map_values(|o: &OutboxOp| *o) == page_flagged(*self),
    {
        let mut out: Vec<&OutboxOp> = Vec::new();
        match &self.unknown {
            Some(Ok(ops)) => {
                let mut i: usize = 0;
                while i < ops.len()
                    invariant
                        i <= ops@.len(),
                        out@.map_values(|o: &OutboxOp| *o) == flagged_spec(ops@.subrange(0, i as int)),
                    decreases ops.len() - i,
                {
                    assert(ops@.subrange(0, i + 1).drop_last() =~= ops@.subrange(0, i as int));
                    let ghost before = out@.map_values(|o: &OutboxOp| *o);
                    if ops[i].flagged {
                        out.push(&ops[i]);
                        assert(out@.map_values(|o: &OutboxOp| *o) =~= before.push(ops@[i as int]));
                    }
                    i = i + 1;
                }
                assert(ops@.subrange(0, ops@.len() as int) =~= ops@);
            },
            _ => {
                assert(out@.map_values(|o: &OutboxOp| *o) =~= seq![]);
            },
        }
        out
    }

    /// How many scopes the report lists.
    pub fn scope_count(&self) -> (n: usize)
        ensures
            n == scope_count_spec(*self),
    {
        match &self.report {
            Some(Ok(report)) => report.scopes.len(),
            _ => 0,
        }
    }

    /// What needs attention, for people, worded as `ms-todo doctor` words it.
    pub fn problems(&self) -> (p: Vec<String>)
        ensures
            p@.map_values(|s: String| s@) == problems_spec(*self),
    {
        let mut problems: Vec<String> = Vec::new();
        match &self.status {
            Some(Ok(status)) => {
                if !status.signed_in {
                    problems.push("not signed in; run `ms-todo auth login`".to_owned());
                }
            },
            Some(Err(why)) => {
                problems.push(concat("the daemon isn't available: ", why.as_str()));
            },
            None => {},
        }
        let ghost first = problems@.map_values(|s: String| s@);
        assert(first =~= match self.status {
            Some(Ok(s)) => if s.signed_in {
                seq![]
            } else {
                seq![not_signed_in_text()]
            },
            Some(Err(why)) => seq![unavailable_text(why@)],
            None => seq![],
        });
        let report = match &self.report {
            Some(Ok(report)) => report,
            Some(Err(why)) => {
                problems.push(concat("the daemon couldn't report: ", why.as_str()));
                assert(problems@.map_values(|s: String| s@) =~= first.push(no_report_text(why@)));
                return problems;
            },
            None => {
                return problems;
            },
        };
        let failing = failing_count(&report.scopes);
        proof {
            lemma_failing_at_most(report.scopes@);
        }
        let ghost a: Seq<Seq<char>> = if failing > 0 {
            seq![failing_text(failing as nat, report.scopes@.len())]
        } else {
            seq![]
        };
        if failing > 0 {
            let head = concat(decimal(failing as u64).as_str(), " of ");
            let mid = concat(head.as_str(), decimal(report.scopes.len() as u64).as_str());
            problems.push(concat(mid.as_str(), " scopes failed their last sync"));
        }
        assert(problems@.map_values(|s: String| s@) =~= first + a);
        let outbox = report.outbox;
        let ghost b = if outbox.unknown > 0 {
            a.push(unknown_text(outbox.unknown as nat, outbox.flagged as nat))
        } else {
            a
        };
        if outbox.unknown > 0 {
            let head = concat(
                decimal(outbox.unknown).as_str(),
                " write(s) may or may not have reached Microsoft To Do (",
            );
            let mid = concat(head.as_str(), decimal(outbox.flagged).as_str());
            problems.push(
                concat(
                    mid.as_str(),
                    " for over a day); don't resend them yourself: see `ms-todo outbox list --state unknown`",
                ),
            );
        }
        assert(problems@.map_values(|s: String| s@) =~= first + b);
        let ghost c = if outbox.failed > 0 {
            b.push(failed_text(outbox.failed as nat))
        } else {
            b
        };
        if outbox.failed > 0 {
            problems.push(
                concat(
                    decimal(outbox.failed).as_str(),
                    " write(s) were rejected and kept; see `ms-todo outbox list --state failed`",
                ),
            );
        }
        assert(problems@.map_values(|s: String| s@) =~= first + c);
        if report.scopes.len() == 0 && !report.syncing {
            problems.push("nothing has synced yet; run `ms-todo sync --wait`".to_owned());
        }
        assert(problems@.map_values(|s: String| s@) =~= first + report_problems(*report));
        problems
    }

    /// `D`: show the page from its top and ask for its data; the parts
    /// to ask for, in order.
    pub fn open(&mut self) -> (parts: Vec<Part>)
        ensures
            final(self).scroll == 0,
            final(self).waiting == 3,
            final(self).status == old(self).status,
            final(self).report == old(self).report,
            final(self).unknown == old(self).unknown,
            parts@ == seq![Part::Status, Part::Doctor, Part::Unknown],
    {
        self.scroll = 0;
        self.refresh()
    }

    /// `r` on the page: ask again, keeping what's shown until it's answered.
    pub fn refresh(&mut self) -> (parts: Vec<Part>)
        ensures
            final(self).scroll == old(self).scroll,
            final(self).waiting == 3,
            final(self).status == old(self).status,
            final(self).report == old(self).report,
            final(self).unknown == old(self).unknown,
            parts@ == seq![Part::Status, Part::Doctor, Part::Unknown],
    {
        let parts = vec![Part::Status, Part::Doctor, Part::Unknown];
        self.waiting = parts.len();
        parts
    }

    /// A part answered: keep its data, or why there's none.
    pub fn diagnosed(&mut self, part: Part, result: Result<PartData, String>)
        ensures
            final(self).waiting == if old(self).waiting == 0 { 0 } else { old(self).waiting - 1 },
            final(self).scroll == old(self).scroll,
            part == Part::Status ==> keeps_status(final(self).status, answer_spec(part, result)),
            part != Part::Status ==> final(self).status == old(self).status,
            part == Part::Doctor ==> keeps_report(final(self).report, answer_spec(part, result)),
            part != Part::Doctor ==> final(self).report == old(self).report,
            part == Part::Unknown ==> keeps_outbox(final(self).unknown, answer_spec(part, result)),
            part != Part::Unknown ==> final(self).unknown == old(self).unknown,
    {
        self.waiting = if self.waiting == 0 { 0 } else { self.waiting - 1 };
        let a = answer(part, result);
        match part {
            Part::Status => {
                self.status = Some(match a {
                    PartAnswer::Status(s) => Ok(s),
                    PartAnswer::Failed(why) => Err(why),
                    _ => Err("the daemon sent an unexpected answer".to_owned()),
                });
            },
            Part::Doctor => {
                self.report = Some(match a {
                    PartAnswer::Doctor(r) => Ok(r),
                    PartAnswer::Failed(why) => Err(why),
                    _ => Err("the daemon sent an unexpected answer".to_owned()),
                });
            },
            Part::Unknown => {
                self.unknown = Some(match a {
                    PartAnswer::Outbox(ops) => Ok(ops),
                    PartAnswer::Failed(why) => Err(why),
                    _ => Err("the daemon sent an unexpected answer".to_owned()),
                });
            },
        }
    }

    /// j and k on the page, no further than its last row.
    pub fn scroll(&mut self, down: bool)
        ensures
            final(self).status == old(self).status,
            final(self).report == old(self).report,
            final(self).unknown == old(self).unknown,
            final(self).waiting == old(self).waiting,
            final(self).scroll == if down {
                let next = if old(self).scroll < 65535 { old(self).scroll + 1 } else { 65535 };
                if next <= last_row(*old(self)) { next } else { last_row(*old(self)) }
            } else if old(self).scroll == 0 {
                0
            } else {
                old(self).scroll - 1
            },
    {
        let scopes = self.scope_count();
        let problems = self.problems();
        let flagged = self.flagged();
        proof {
            assert(problems@.len() == problems_spec(*self).len()) by {
                assert(problems@.map_values(|s: String| s@).len() == problems@.len());
            }
            assert(flagged@.len() == page_flagged(*self).len()) by {
                assert(flagged@.map_values(|o: &OutboxOp| *o).len() == flagged@.len());
            }
        }
        let rows: u128 = scopes as u128 + problems.len() as u128 + flagged.len() as u128 + 12;
        let last: u16 = if rows <= 65535 { rows as u16 } else { 65535 };
        if down {
            let next: u16 = if self.scroll < 65535 { self.scroll + 1 } else { 65535 };
            self.scroll = if next <= last { next } else { last };
        } else {
            self.scroll = if self.scroll == 0 { 0 } else { self.scroll - 1 };
        }
    }
}

/// The page shown from its top, its three parts asked for again.
pub open spec fn opened_spec(d: Diagnostics) -> Diagnostics {
    Diagnostics { scroll: 0, waiting: 3, ..d }
}

/// The page's parts asked for again, the page kept as it is.
pub open spec fn refreshed_spec(d: Diagnostics) -> Diagnostics {
    Diagnostics { waiting: 3, ..d }
}

/// The page scrolled a row down (`down`) or up, no further than its last
/// row.
pub open spec fn scrolled_page(d: Diagnostics, down: bool) -> Diagnostics {
    Diagnostics {
        scroll: if down {
            let next = if d.scroll < 65535 { (d.scroll + 1) as u16 } else { 65535u16 };
            if next <= last_row(d) { next } else { last_row(d) as u16 }
        } else if d.scroll == 0 {
            0u16
        } else {
            (d.scroll - 1) as u16
        },
        ..d
    }
}

/// Whether `after` is the page `before` once `part` is answered with
/// `result`: one answer fewer to wait for, and that part's data kept.
pub open spec fn diagnosed_spec(before: Diagnostics, after: Diagnostics, part: Part, result: Result<PartData, String>) -> bool {
    &&& after.waiting == if before.waiting == 0 { 0 } else { before.waiting - 1 }
    &&& after.scroll == before.scroll
    &&& (part == Part::Status ==> keeps_status(after.status, answer_spec(part, result)))
    &&& (part != Part::Status ==> after.status == before.status)
    &&& (part == Part::Doctor ==> keeps_report(after.report, answer_spec(part, result)))
    &&& (part != Part::Doctor ==> after.report == before.report)
    &&& (part == Part::Unknown ==> keeps_outbox(after.unknown, answer_spec(part, result)))
    &&& (part != Part::Unknown ==> after.unknown == before.unknown)
}

/// Whether `kept` is what a status part keeps of answer `a`.
pub open spec fn keeps_status(kept: Option<Result<DaemonStatus, String>>, a: PartAnswer) -> bool {
    match a {
        PartAnswer::Status(s) => kept == Some(Ok::<DaemonStatus, String>(s)),
        PartAnswer::Failed(why) => kept == Some(Err::<DaemonStatus, String>(why)),
        _ => kept matches Some(Err(w)) && w@ == unexpected_text(),
    }
}

/// Whether `kept` is what a doctor part keeps of answer `a`.
pub open spec fn keeps_report(kept: Option<Result<DoctorReport, String>>, a: PartAnswer) -> bool {
    match a {
        PartAnswer::Doctor(r) => kept == Some(Ok::<DoctorReport, String>(r)),
        PartAnswer::Failed(why) => kept == Some(Err::<DoctorReport, String>(why)),
        _ => kept matches Some(Err(w)) && w@ == unexpected_text(),
    }
}

/// Whether `kept` is what an outbox part keeps of answer `a`.
pub open spec fn keeps_outbox(kept: Option<Result<Vec<OutboxOp>, String>>, a: PartAnswer) -> bool {
    match a {
        PartAnswer::Outbox(ops) => kept == Some(Ok::<Vec<OutboxOp>, String>(ops)),
        PartAnswer::Failed(why) => kept == Some(Err::<Vec<OutboxOp>, String>(why)),
        _ => kept matches Some(Err(w)) && w@ == unexpected_text(),
    }
}

/// How many of `scopes` failed their last sync.
fn failing_count(scopes: &Vec<ScopeStatus>) -> (n: usize)
    ensures
        n == failing_spec(scopes@),
{
    let mut n: usize = 0;
    let mut i: usize = 0;
    while i < scopes.len()
        invariant
            i <= scopes@.len(),
            n == failing_spec(scopes@.subrange(0, i as int)),
            n <= i,
        decreases scopes.len() - i,
    {
        assert(scopes@.subrange(0, i + 1).drop_last() =~= scopes@.subrange(0, i as int));
        if scopes[i].last_error.is_some() {
            n = n + 1;
        }
        i = i + 1;
    }
    assert(scopes@.subrange(0, scopes@.len() as int) =~= scopes@);
    n
}

} // verus!
