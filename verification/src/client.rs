//! The pipeline client's decision logic: classifying the submission
//! answer and driving the poll loop.
//!
//! Transport stays outside this crate.  The caller performs one fetch
//! per attempt, hands the snapshot in, and acts on the returned step;
//! because every wait happens between calls, the caller can abort a
//! session at any step — nothing here blocks.

use vstd::prelude::*;
use vstd::string::StringExecFns;
use crate::document::DecodeError;
use crate::document::FieldName;
use crate::error::AtlanticSdkError;
use crate::models::JobResponse;
use crate::models::QueryResponse;
use crate::models::sp_query_id_of;
use crate::tracker::sp_current_stage;

verus! {

/// The status code the service answers an accepted submission with.
pub const CREATED_STATUS: u16 = 201;

/// Classify the service's answer to a submission: status 201 with a
/// readable query id is success; any other status surfaces the body
/// text verbatim as the rejection diagnostic, with no retry here.
pub fn handle_submit_response(status: u16, body: &str) -> (r: Result<
    QueryResponse,
    AtlanticSdkError,
>)
    requires
        body@.len() < usize::MAX,
    ensures
        status == 201 ==> (match r {
            Ok(q) => sp_query_id_of(body@) == Some(q.atlantic_query_id@),
            Err(e) => sp_query_id_of(body@) is None
                && e == AtlanticSdkError::Decode(
                    if crate::json::sp_parse(body@) is None {
                        DecodeError::InvalidJson
                    } else {
                        DecodeError::MissingField(FieldName::AtlanticQueryId)
                    }),
        }),
        status != 201 ==> (r matches Err(AtlanticSdkError::SubmissionRejected(b))
            && b@ == body@),
{
    if status == CREATED_STATUS {
        match QueryResponse::parse(body) {
            Ok(q) => Ok(q),
            Err(e) => Err(AtlanticSdkError::Decode(e)),
        }
    } else {
        Err(AtlanticSdkError::SubmissionRejected(String::from_str(body)))
    }
}

/// Caller-supplied polling configuration: the attempt budget and how
/// many time units to wait between attempts.  Tests may use a zero
/// interval; nothing here is hard-coded.
#[derive(Debug, Clone, Copy, PartialEq, Eq, Structural)]
pub struct PollConfig {
    pub max_attempts: u64,
    pub interval_units: u64,
}

/// One polling session's progress: how many snapshots were taken.
#[derive(Debug, Clone, Copy, PartialEq, Eq, Structural)]
pub struct PollState {
    pub attempts_used: u64,
}

/// What the caller does after one snapshot.
#[derive(Debug, Clone, Copy, PartialEq, Eq, Structural)]
pub enum PollStep {
    /// The declared pipeline is complete: stop polling and fetch the
    /// artifact.
    Done,
    /// Not terminal: wait `interval_units`, then fetch the next
    /// snapshot under the new state.
    Wait(PollState),
    /// Attempt `max_attempts` was taken and was still not terminal:
    /// the budget is exhausted, report `TimeoutExceeded`.
    TimedOut,
}

/// Is this snapshot terminal: every declared stage completed?
pub open spec fn sp_terminal(jr: JobResponse) -> bool {
    sp_current_stage(jr.jobs@, jr.steps@) is None
}

/// Decide after one fresh snapshot — the `attempts_used + 1`-th.
pub fn poll_step(config: &PollConfig, state: &PollState, snapshot: &JobResponse) -> (r:
    PollStep)
    requires
        state.attempts_used < config.max_attempts,
    ensures
        sp_terminal(*snapshot) ==> r == PollStep::Done,
        !sp_terminal(*snapshot) && state.attempts_used + 1 == config.max_attempts
            ==> r == PollStep::TimedOut,
        !sp_terminal(*snapshot) && state.attempts_used + 1 < config.max_attempts
            ==> r == PollStep::Wait(PollState {
                attempts_used: (state.attempts_used + 1) as u64,
            }),
{
    match snapshot.current_stage() {
        None => PollStep::Done,
        Some(_) => {
            if state.attempts_used + 1 >= config.max_attempts {
                PollStep::TimedOut
            } else {
                PollStep::Wait(PollState { attempts_used: state.attempts_used + 1 })
            }
        },
    }
}

/// Interpret the snapshots of one polling session, in the order they
/// were fetched: the first terminal snapshot within the attempt budget
/// wins, and a full budget of non-terminal snapshots is
/// `TimeoutExceeded` — reported after attempt `max_attempts`, never
/// later.
pub fn poll_session(snapshots: &Vec<JobResponse>, max_attempts: usize) -> (r: Result<
    usize,
    AtlanticSdkError,
>)
    ensures
        match r {
            Ok(i) => i < snapshots@.len() && i < max_attempts
                && sp_terminal(snapshots@[i as int])
                && (forall|j: int| 0 <= j < i ==> !sp_terminal(#[trigger] snapshots@[j])),
            Err(e) => e == AtlanticSdkError::TimeoutExceeded
                && (forall|j: int|
                    0 <= j < snapshots@.len() && j < max_attempts
                        ==> !sp_terminal(#[trigger] snapshots@[j])),
        },
{
    let n: usize = if snapshots.len() < max_attempts {
        snapshots.len()
    } else {
        max_attempts
    };
    let mut i: usize = 0;
    while i < n
        invariant
            0 <= i <= n,
            n == if snapshots@.len() < max_attempts {
                snapshots@.len() as int
            } else {
                max_attempts as int
            },
            forall|j: int| 0 <= j < i ==> !sp_terminal(#[trigger] snapshots@[j]),
        decreases n - i,
    {
        if snapshots[i].current_stage().is_none() {
            return Ok(i);
        }
        i += 1;
    }
    Err(AtlanticSdkError::TimeoutExceeded)
}

} // verus!
