//! Idempotency keys: each key is kept with a fingerprint of the operation
//! and its payload, while the operation runs and for a day after it
//! finishes. The daemon decides what a fingerprint covers and what a
//! result is; here both are opaque strings.

use vstd::prelude::*;

use crate::text::str_eq;

verus! {

/// How long a finished operation's key is kept, in seconds.
pub const IDEMPOTENCY_WINDOW_SECS: i64 = 24 * 60 * 60;

/// What a key means for a new request carrying it.
#[derive(Clone, Debug, PartialEq, Eq)]
pub enum Claim {
    /// Unused: it's now held for this request, which runs.
    Fresh,
    /// Used before for the same request, which finished with this result.
    Replay(String),
    /// Used before for the same request, which hasn't finished.
    Running { op_id: String },
    /// Used before for a different request.
    Mismatch,
}

/// A key as it is stored: the fingerprint it was taken with, the
/// operation holding it, and that operation's result once it finished.
#[derive(Clone, Debug, PartialEq, Eq)]
pub struct KeyRecord {
    pub fingerprint: String,
    pub op_id: String,
    pub result: Option<String>,
}

/// What a request with `fingerprint` is told about a key stored as
/// `existing` (none if the key is unused).
pub open spec fn claim_spec(existing: Option<KeyRecord>, fingerprint: Seq<char>) -> Claim {
    match existing {
        None => Claim::Fresh,
        Some(record) => if record.fingerprint@ != fingerprint {
            Claim::Mismatch
        } else {
            match record.result {
                Some(result) => Claim::Replay(result),
                None => Claim::Running { op_id: record.op_id },
            }
        },
    }
}

/// Decide what a key means for a new request: a key held for another
/// fingerprint is a mismatch; one held for the same request replays its
/// result or says it is still running; an unused key is fresh (and the
/// caller then holds it for the request).
pub fn claim_of(existing: Option<KeyRecord>, fingerprint: &str) -> (c: Claim)
    ensures
        c == claim_spec(existing, fingerprint@),
{
    match existing {
        None => Claim::Fresh,
        Some(record) => {
            if !str_eq(record.fingerprint.as_str(), fingerprint) {
                Claim::Mismatch
            } else {
                match record.result {
                    Some(result) => Claim::Replay(result),
                    None => Claim::Running { op_id: record.op_id },
                }
            }
        },
    }
}

/// Whether a key whose operation finished at `finished_at` (none while it
/// runs) has outlived the window at `now`, and so is forgotten.
pub open spec fn expired_spec(finished_at: Option<i64>, now: i64) -> bool {
    match finished_at {
        Some(at) => at <= now - IDEMPOTENCY_WINDOW_SECS,
        None => false,
    }
}

/// The expiry test the store applies before it looks a key up.
pub fn is_expired(finished_at: Option<i64>, now: i64) -> (b: bool)
    ensures
        b == expired_spec(finished_at, now),
{
    match finished_at {
        Some(at) => (at as i128) + (IDEMPOTENCY_WINDOW_SECS as i128) <= now as i128,
        None => false,
    }
}

} // verus!
