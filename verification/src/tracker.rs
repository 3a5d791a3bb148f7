//! The job/stage tracker: interpreting one immutable job-status
//! snapshot.
//!
//! A job's status is opaque text; the tracker recognizes exactly one
//! terminal-success token, `COMPLETED`, and treats every other value —
//! including tokens the service may introduce later — as still pending,
//! so new intermediate statuses never break polling.  A `JobResponse`
//! snapshot is never mutated: each poll replaces it wholesale.

use vstd::prelude::*;
use crate::models::Job;
use crate::models::JobResponse;
use crate::models::StageName;
use crate::json::str_eq;

verus! {

broadcast use vstd::seq::group_seq_axioms;

/// Does this job report terminal success?
pub open spec fn sp_job_completed(j: Job) -> bool {
    j.status@ == "COMPLETED"@
}

/// Does some job of this stage report terminal success?
pub open spec fn sp_stage_completed(jobs: Seq<Job>, s: StageName) -> bool {
    exists|i: int| 0 <= i < jobs.len() && (#[trigger] jobs[i]).job_name == s
        && sp_job_completed(jobs[i])
}

/// The earliest declared stage with no completed job; `None` when every
/// declared stage has one.
pub open spec fn sp_current_stage(jobs: Seq<Job>, steps: Seq<StageName>) -> Option<StageName>
    decreases steps.len(),
{
    if steps.len() == 0 {
        None
    } else if !sp_stage_completed(jobs, steps.first()) {
        Some(steps.first())
    } else {
        sp_current_stage(jobs, steps.drop_first())
    }
}

/// The proof storage path recorded by the first `PROOF_GENERATION` job
/// whose context carries one.
pub open spec fn sp_proof_path(jobs: Seq<Job>) -> Option<Seq<char>>
    decreases jobs.len(),
{
    if jobs.len() == 0 {
        None
    } else if jobs.first().job_name == StageName::ProofGeneration
        && (jobs.first().context matches Some(c) && c.proof_path is Some) {
        Some(jobs.first().context.unwrap().proof_path.unwrap()@)
    } else {
        sp_proof_path(jobs.drop_first())
    }
}

/// Does some completed job of stage `s` stand among the jobs?
fn stage_completed(jobs: &Vec<Job>, s: StageName) -> (r: bool)
    ensures
        r == sp_stage_completed(jobs@, s),
{
    let mut i: usize = 0;
    while i < jobs.len()
        invariant
            0 <= i <= jobs@.len(),
            forall|k: int| 0 <= k < i
                ==> !((#[trigger] jobs@[k]).job_name == s && sp_job_completed(jobs@[k])),
        decreases jobs@.len() - i,
    {
        if jobs[i].job_name == s && str_eq(jobs[i].status.as_str(), "COMPLETED") {
            return true;
        }
        i += 1;
    }
    false
}

impl JobResponse {
    /// The first stage, in the declared `steps` order, whose job is not
    /// yet `COMPLETED`; `None` means the whole declared pipeline is
    /// complete.
    #[verifier::loop_isolation(false)]
    pub fn current_stage(&self) -> (r: Option<StageName>)
        ensures
            r == sp_current_stage(self.jobs@, self.steps@),
    {
        proof {
            assert(self.steps@.skip(0) =~= self.steps@);
        }
        let mut i: usize = 0;
        while i < self.steps.len()
            invariant
                0 <= i <= self.steps@.len(),
                sp_current_stage(self.jobs@, self.steps@)
                    == sp_current_stage(self.jobs@, self.steps@.skip(i as int)),
            decreases self.steps@.len() - i,
        {
            proof {
                assert(self.steps@.skip(i as int).first() == self.steps@[i as int]);
                assert(self.steps@.skip(i as int).drop_first() =~= self.steps@.skip(i + 1));
            }
            if !stage_completed(&self.jobs, self.steps[i]) {
                return Some(self.steps[i]);
            }
            i += 1;
        }
        proof {
            assert(self.steps@.skip(self.steps@.len() as int).len() == 0);
        }
        None
    }

    /// The storage path recorded in the `PROOF_GENERATION` stage's
    /// context, once present; `None` while absent.  Absence does not
    /// distinguish "not started" from "not applicable": callers needing
    /// that distinction consult `current_stage` as well.
    #[verifier::loop_isolation(false)]
    pub fn proof_path(&self) -> (r: Option<&String>)
        ensures
            match r {
                Some(p) => sp_proof_path(self.jobs@) == Some(p@),
                None => sp_proof_path(self.jobs@) is None,
            },
    {
        proof {
            assert(self.jobs@.skip(0) =~= self.jobs@);
        }
        let mut i: usize = 0;
        while i < self.jobs.len()
            invariant
                0 <= i <= self.jobs@.len(),
                sp_proof_path(self.jobs@) == sp_proof_path(self.jobs@.skip(i as int)),
            decreases self.jobs@.len() - i,
        {
            proof {
                assert(self.jobs@.skip(i as int).first() == self.jobs@[i as int]);
                assert(self.jobs@.skip(i as int).drop_first() =~= self.jobs@.skip(i + 1));
            }
            if self.jobs[i].job_name == StageName::ProofGeneration {
                match &self.jobs[i].context {
                    Some(c) => match &c.proof_path {
                        Some(p) => {
                            return Some(p);
                        },
                        None => {},
                    },
                    None => {},
                }
            }
            i += 1;
        }
        proof {
            assert(self.jobs@.skip(self.jobs@.len() as int).len() == 0);
        }
        None
    }
}

/// Stage ordering: `current_stage` is the earliest non-completed stage
/// in the declared order — every declared stage before it is completed,
/// and it is not — and `None` only when every declared stage is
/// completed, even if later stages happen to report `COMPLETED` out of
/// order.
pub proof fn lemma_stage_ordering(jobs: Seq<Job>, steps: Seq<StageName>)
    ensures
        match sp_current_stage(jobs, steps) {
            Some(s) => exists|i: int| 0 <= i < steps.len() && steps[i] == s
                && !sp_stage_completed(jobs, s)
                && (forall|j: int| 0 <= j < i
                    ==> sp_stage_completed(jobs, #[trigger] steps[j])),
            None => forall|i: int| 0 <= i < steps.len()
                ==> sp_stage_completed(jobs, #[trigger] steps[i]),
        },
    decreases steps.len(),
{
    if steps.len() == 0 {
    } else if !sp_stage_completed(jobs, steps.first()) {
        let i: int = 0;
        assert(steps[i] == sp_current_stage(jobs, steps).unwrap());
    } else {
        lemma_stage_ordering(jobs, steps.drop_first());
        match sp_current_stage(jobs, steps.drop_first()) {
            Some(s) => {
                let i0 = choose|i0: int| 0 <= i0 < steps.drop_first().len()
                    && steps.drop_first()[i0] == s
                    && !sp_stage_completed(jobs, s)
                    && (forall|j: int| 0 <= j < i0
                        ==> sp_stage_completed(jobs, #[trigger] steps.drop_first()[j]));
                let i: int = i0 + 1;
                assert(steps[i] == s);
                assert(forall|j: int| 0 <= j < i
                    ==> sp_stage_completed(jobs, #[trigger] steps[j])) by {
                    assert forall|j: int| 0 <= j < i
                        implies sp_stage_completed(jobs, #[trigger] steps[j]) by {
                        if j > 0 {
                            assert(steps[j] == steps.drop_first()[j - 1]);
                        }
                    }
                }
            },
            None => {
                assert forall|i: int| 0 <= i < steps.len()
                    implies sp_stage_completed(jobs, #[trigger] steps[i]) by {
                    if i > 0 {
                        assert(steps[i] == steps.drop_first()[i - 1]);
                    }
                }
            },
        }
    }
}

/// Does some job carry this stage's name?
pub open spec fn sp_some_job_of(jobs: Seq<Job>, s: StageName) -> bool {
    exists|i: int| 0 <= i < jobs.len() && (#[trigger] jobs[i]).job_name == s
}

/// A well-formed snapshot: every job belongs to a declared stage, no two
/// jobs share a stage, and every declared stage has begun (has a job).
pub open spec fn sp_wf_jobset(jobs: Seq<Job>, steps: Seq<StageName>) -> bool {
    &&& (forall|i: int| 0 <= i < jobs.len()
        ==> exists|k: int| 0 <= k < steps.len()
            && steps[k] == (#[trigger] jobs[i]).job_name)
    &&& (forall|i: int, j: int| 0 <= i < j < jobs.len()
        ==> (#[trigger] jobs[i]).job_name != (#[trigger] jobs[j]).job_name)
    &&& (forall|k: int| 0 <= k < steps.len()
        ==> sp_some_job_of(jobs, #[trigger] steps[k]))
}

/// Terminal detection: on a well-formed snapshot, `current_stage` is
/// `None` exactly when every job reports `COMPLETED`.
pub proof fn lemma_terminal_detection(jobs: Seq<Job>, steps: Seq<StageName>)
    requires
        sp_wf_jobset(jobs, steps),
    ensures
        (sp_current_stage(jobs, steps) is None
            <==> forall|i: int| 0 <= i < jobs.len()
                ==> sp_job_completed(#[trigger] jobs[i])),
{
    lemma_stage_ordering(jobs, steps);
    if sp_current_stage(jobs, steps) is None {
        assert forall|i: int| 0 <= i < jobs.len()
            implies sp_job_completed(#[trigger] jobs[i]) by {
            let k = choose|k: int| 0 <= k < steps.len() && steps[k] == jobs[i].job_name;
            assert(sp_stage_completed(jobs, steps[k]));
            let w = choose|w: int| 0 <= w < jobs.len()
                && (#[trigger] jobs[w]).job_name == steps[k] && sp_job_completed(jobs[w]);
            if w < i {
                assert(jobs[w].job_name != jobs[i].job_name);
            } else if i < w {
                assert(jobs[i].job_name != jobs[w].job_name);
            }
        }
    }
    if forall|i: int| 0 <= i < jobs.len() ==> sp_job_completed(#[trigger] jobs[i]) {
        match sp_current_stage(jobs, steps) {
            Some(s) => {
                let i = choose|i: int| 0 <= i < steps.len() && steps[i] == s
                    && !sp_stage_completed(jobs, s)
                    && (forall|j: int| 0 <= j < i
                        ==> sp_stage_completed(jobs, #[trigger] steps[j]));
                let w = choose|w: int| 0 <= w < jobs.len()
                    && (#[trigger] jobs[w]).job_name == steps[i];
                assert(sp_job_completed(jobs[w]));
                assert(sp_stage_completed(jobs, s));
            },
            None => {},
        }
    }
}

} // verus!
