//! Which users are sent to the rework queue.
//!
//! A user is queued for a rework only when they set an eligible score in the
//! last 60 days and no queue row blocks them. A row blocks while its request
//! is in flight (no processing time yet) and once it was processed under the
//! rework's current version; a row processed before the rework's last update
//! is stale, and the user is queued again.
use crate::errors::{Error, ErrorCode};
use crate::models::{QueueResponse, Rework};
use vstd::prelude::*;

verus! {

pub const SECONDS_PER_DAY: i64 = 86400;

/// Users whose last eligible score is this many days old are inactive.
pub const INACTIVITY_DAYS: i64 = 60;

/// Days since `last_score_time` at `now`, truncated toward zero; a user with
/// no eligible score counts as exactly `INACTIVITY_DAYS` days inactive.
pub open spec fn inactive_days_of(last_score_time: Option<i64>, now: i64) -> int {
    match last_score_time {
        None => INACTIVITY_DAYS as int,
        Some(t) => if now >= t {
            (now - t) / (SECONDS_PER_DAY as int)
        } else {
            -((t - now) / (SECONDS_PER_DAY as int))
        },
    }
}

pub open spec fn is_active(last_score_time: Option<i64>, now: i64) -> bool {
    inactive_days_of(last_score_time, now) < INACTIVITY_DAYS
}

/// Days since the user's last eligible score, as `inactive_days_of` states.
pub fn inactive_days(last_score_time: Option<i64>, now: i64) -> (r: i64)
    ensures
        r == inactive_days_of(last_score_time, now),
{
    match last_score_time {
        None => INACTIVITY_DAYS,
        Some(t) => {
            let diff: i128 = now as i128 - t as i128;
            if diff >= 0 {
                (diff / (SECONDS_PER_DAY as i128)) as i64
            } else {
                let back: i128 = -diff;
                -((back / (SECONDS_PER_DAY as i128)) as i64)
            }
        },
    }
}

/// What the queue table holds for one (user, rework) pair.
#[derive(Clone, Copy, Debug, PartialEq, Eq, Structural)]
pub enum QueueEntry {
    /// No row.
    Absent,
    /// A row whose request has not been processed yet.
    InFlight,
    /// A row processed at the given unix second.
    ProcessedAt(i64),
}

/// Whether a queue row keeps the user from being queued again.
pub open spec fn entry_blocks(entry: QueueEntry, updated_at: i64) -> bool {
    match entry {
        QueueEntry::Absent => false,
        QueueEntry::InFlight => true,
        QueueEntry::ProcessedAt(t) => t >= updated_at,
    }
}

/// The outcome of the queueing check for one user.
#[derive(Clone, Copy, Debug, PartialEq, Eq, Structural)]
pub enum QueueDecision {
    /// The user set no eligible score in the last 60 days.
    SkipInactive,
    /// A queue row blocks the user.
    SkipQueued,
    /// Write the queue row (in flight) and publish the request.
    Enqueue,
}

pub open spec fn decide(
    last_score_time: Option<i64>,
    now: i64,
    entry: QueueEntry,
    updated_at: i64,
) -> QueueDecision {
    if !is_active(last_score_time, now) {
        QueueDecision::SkipInactive
    } else if entry_blocks(entry, updated_at) {
        QueueDecision::SkipQueued
    } else {
        QueueDecision::Enqueue
    }
}

/// The queue row after a check: queuing leaves a row in flight.
pub open spec fn entry_after(entry: QueueEntry, decision: QueueDecision) -> QueueEntry {
    if decision == QueueDecision::Enqueue {
        QueueEntry::InFlight
    } else {
        entry
    }
}

/// Decides whether a user is queued for `rework`, from the time of their last
/// eligible score, the current time and the user's queue row.
pub fn queue_user(
    last_score_time: Option<i64>,
    now: i64,
    entry: QueueEntry,
    rework: &Rework,
) -> (r: QueueDecision)
    ensures
        r == decide(last_score_time, now, entry, rework.updated_at),
{
    let days = inactive_days(last_score_time, now);
    if days >= INACTIVITY_DAYS {
        return QueueDecision::SkipInactive;
    }
    let blocked = match entry {
        QueueEntry::Absent => false,
        QueueEntry::InFlight => true,
        QueueEntry::ProcessedAt(t) => t >= rework.updated_at,
    };
    if blocked {
        QueueDecision::SkipQueued
    } else {
        QueueDecision::Enqueue
    }
}

/// The queue row after a check, as `entry_after` states.
pub fn next_entry(entry: QueueEntry, decision: QueueDecision) -> (r: QueueEntry)
    ensures
        r == entry_after(entry, decision),
{
    match decision {
        QueueDecision::Enqueue => QueueEntry::InFlight,
        _ => entry,
    }
}

/// Checking the same user twice in a row publishes at most one request: the
/// second check never queues, and the first queues exactly when the user is
/// active and no row blocks them.
pub proof fn lemma_queue_user_dedup(
    last_score_time: Option<i64>,
    now: i64,
    entry: QueueEntry,
    updated_at: i64,
)
    ensures
        ({
            let first = decide(last_score_time, now, entry, updated_at);
            let second = decide(last_score_time, now, entry_after(entry, first), updated_at);
            &&& second != QueueDecision::Enqueue
            &&& (first == QueueDecision::Enqueue <==> is_active(last_score_time, now)
                && !entry_blocks(entry, updated_at))
        }),
{
}

/// Once a rework's version moves past the time a user's request was
/// processed, an active user is queued again.
pub proof fn lemma_queue_user_after_update(
    last_score_time: Option<i64>,
    now: i64,
    processed_at: i64,
    updated_at: i64,
)
    requires
        is_active(last_score_time, now),
        processed_at < updated_at,
    ensures
        decide(last_score_time, now, QueueEntry::ProcessedAt(processed_at), updated_at)
            == QueueDecision::Enqueue,
{
}

/// What a user's own queue request found, step by step. Each lookup is only
/// made when the steps before it passed; the later fields are then ignored.
pub struct EnqueueLookups {
    /// The user the session token belongs to, if the session exists.
    pub session_user: Option<i32>,
    /// The user's privilege bits, if the user exists.
    pub privileges: Option<i32>,
    /// Whether the rework exists.
    pub rework_found: bool,
    /// The queueing check for the user on the rework.
    pub decision: QueueDecision,
}

/// The answer to a user's own queue request, for each way it can go.
pub enum EnqueueOutcome {
    InvalidSession,
    UserMissing,
    Restricted,
    ReworkMissing,
    Inactive,
    AlreadyQueued,
    Queued,
}

pub open spec fn enqueue_outcome_of(l: EnqueueLookups) -> EnqueueOutcome {
    if l.session_user is None {
        EnqueueOutcome::InvalidSession
    } else if l.privileges is None {
        EnqueueOutcome::UserMissing
    } else if l.privileges->0 & 1 == 0 {
        EnqueueOutcome::Restricted
    } else if !l.rework_found {
        EnqueueOutcome::ReworkMissing
    } else if l.decision == QueueDecision::SkipInactive {
        EnqueueOutcome::Inactive
    } else if l.decision == QueueDecision::SkipQueued {
        EnqueueOutcome::AlreadyQueued
    } else {
        EnqueueOutcome::Queued
    }
}

/// Classifies a user's own queue request from what its lookups found.
pub fn enqueue_outcome(l: &EnqueueLookups) -> (r: EnqueueOutcome)
    ensures
        r == enqueue_outcome_of(*l),
{
    match l.session_user {
        None => EnqueueOutcome::InvalidSession,
        Some(_) => match l.privileges {
            None => EnqueueOutcome::UserMissing,
            Some(p) => {
                if p & 1 == 0 {
                    EnqueueOutcome::Restricted
                } else if !l.rework_found {
                    EnqueueOutcome::ReworkMissing
                } else {
                    match l.decision {
                        QueueDecision::SkipInactive => EnqueueOutcome::Inactive,
                        QueueDecision::SkipQueued => EnqueueOutcome::AlreadyQueued,
                        QueueDecision::Enqueue => EnqueueOutcome::Queued,
                    }
                }
            },
        },
    }
}

/// `r` refuses the request with the given message.
pub open spec fn refuses_with(r: Result<QueueResponse, Error>, text: Seq<char>) -> bool {
    match r {
        Ok(q) => !q.success && match q.message {
            Some(m) => m@ == text,
            None => false,
        },
        Err(_) => false,
    }
}

fn refused(text: &str) -> (q: QueueResponse)
    ensures
        !q.success,
        q.message matches Some(m) && m@ == text@,
{
    QueueResponse { success: false, message: Some(String::from_str(text)) }
}

/// The answer sent for an outcome: success only when the user was queued, a
/// message saying why it was turned down otherwise, and an error when the
/// rework does not exist.
pub fn enqueue_response(outcome: &EnqueueOutcome) -> (r: Result<QueueResponse, Error>)
    ensures
        match *outcome {
            EnqueueOutcome::Queued => r matches Ok(q) && q.success && q.message is None,
            EnqueueOutcome::ReworkMissing => r matches Err(e) && e.error_code
                == ErrorCode::NotFound && e.user_feedback@ == "Rework not found"@,
            EnqueueOutcome::InvalidSession => refuses_with(r, "Invalid session token"@),
            EnqueueOutcome::UserMissing => refuses_with(r, "User does not exist"@),
            EnqueueOutcome::Restricted => refuses_with(r, "User is restricted"@),
            EnqueueOutcome::Inactive => refuses_with(r, "User is inactive"@),
            EnqueueOutcome::AlreadyQueued => refuses_with(r, "Already in queue"@),
        },
{
    match outcome {
        EnqueueOutcome::Queued => Ok(QueueResponse { success: true, message: None }),
        EnqueueOutcome::ReworkMissing => Err(Error::new(ErrorCode::NotFound, "Rework not found")),
        EnqueueOutcome::InvalidSession => Ok(refused("Invalid session token")),
        EnqueueOutcome::UserMissing => Ok(refused("User does not exist")),
        EnqueueOutcome::Restricted => Ok(refused("User is restricted")),
        EnqueueOutcome::Inactive => Ok(refused("User is inactive")),
        EnqueueOutcome::AlreadyQueued => Ok(refused("Already in queue")),
    }
}

} // verus!
