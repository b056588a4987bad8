//! In-process job state machine: cancellation, owner closing, deadlines and the acceptance step through
//! which a worker's result must pass before it may touch application state.
//!
//! The supervisor runs no workers. A caller registers a job and receives a `JobTicket`; the
//! adapter that runs the work polls the ticket's cancellation token, and a result that comes
//! back to the event loop is first submitted to `accept_result`.

use crate::cancellation::JobCancellation;
use crate::model::{
    AssetRef, ErrorCode, JobId, JobOwner, JobResultRef, JobSpec, JobTerminalState, PinoraError,
};
use crate::text::{decimal, push_decimal, push_text};
use vstd::prelude::*;

verus! {

/// Identity and cancellation token handed to a worker.
#[derive(Debug, Clone)]
pub struct JobTicket {
    pub id: JobId,
    pub cancellation: JobCancellation,
}

impl JobTicket {
    /// The job's cancellation token, sharing its flag with the ticket's.
    pub fn cancellation(&self) -> (c: JobCancellation)
        ensures
            c == self.cancellation,
    {
        self.cancellation.share()
    }
}

/// Current state of a job. A finished job never changes state again.
#[derive(Debug, Clone, Copy, PartialEq, Eq, Structural)]
pub enum JobState {
    Running,
    Finished(JobTerminalState),
}

/// Frozen metadata of a result that `accept_result` accepted.
#[derive(Debug, Clone, Copy, PartialEq, Eq, Structural)]
pub struct AcceptedJobResult {
    pub id: JobId,
    pub owner: JobOwner,
    pub asset: AssetRef,
}

/// The verdict of `accept_result` on a submitted result. A rejection also leaves the job finished.
#[derive(Debug, Clone, Copy, PartialEq, Eq, Structural)]
pub enum JobResultDisposition {
    Accepted(AcceptedJobResult),
    Rejected(JobTerminalState),
}

/// What the supervisor knows of one job.
#[derive(Debug, Clone, Copy, PartialEq, Eq, Structural)]
pub struct JobRecord {
    pub spec: JobSpec,
    pub state: JobState,
    /// Whether the supervisor raised the job's cancellation token.
    pub cancel_requested: bool,
}

/// Abstract state of a supervisor: its jobs in submission order and the closed owners.
pub struct SupervisorView {
    pub jobs: Seq<JobRecord>,
    pub closed: Set<JobOwner>,
}

pub open spec fn is_running(r: JobRecord) -> bool {
    r.state == JobState::Running
}

/// A running job cancelled by a caller.
pub open spec fn cancelled_record(r: JobRecord) -> JobRecord {
    if is_running(r) {
        JobRecord {
            spec: r.spec,
            state: JobState::Finished(JobTerminalState::Cancelled),
            cancel_requested: true,
        }
    } else {
        r
    }
}

/// A running job whose worker reported failure.
pub open spec fn failed_record(r: JobRecord) -> JobRecord {
    if is_running(r) {
        JobRecord {
            spec: r.spec,
            state: JobState::Finished(JobTerminalState::Failed),
            cancel_requested: r.cancel_requested,
        }
    } else {
        r
    }
}

/// A job after its owner was closed.
pub open spec fn owner_closed_record(r: JobRecord, owner: JobOwner) -> JobRecord {
    if is_running(r) && r.spec.owner == owner {
        JobRecord {
            spec: r.spec,
            state: JobState::Finished(JobTerminalState::OwnerClosed),
            cancel_requested: true,
        }
    } else {
        r
    }
}

/// A job after the clock reached `now_ms`.
pub open spec fn expired_record(r: JobRecord, now_ms: u64) -> JobRecord {
    if is_running(r) && r.spec.spec_is_expired_at(now_ms) {
        JobRecord {
            spec: r.spec,
            state: JobState::Finished(JobTerminalState::TimedOut),
            cancel_requested: true,
        }
    } else {
        r
    }
}

pub open spec fn close_owner_all(jobs: Seq<JobRecord>, owner: JobOwner) -> Seq<JobRecord> {
    jobs.map_values(|r: JobRecord| owner_closed_record(r, owner))
}

pub open spec fn cancel_all_records(jobs: Seq<JobRecord>) -> Seq<JobRecord> {
    jobs.map_values(|r: JobRecord| cancelled_record(r))
}

pub open spec fn expire_all(jobs: Seq<JobRecord>, now_ms: u64) -> Seq<JobRecord> {
    jobs.map_values(|r: JobRecord| expired_record(r, now_ms))
}

/// Number of running jobs that belong to `owner`.
pub open spec fn count_running_owned(jobs: Seq<JobRecord>, owner: JobOwner) -> nat
    decreases jobs.len(),
{
    if jobs.len() == 0 {
        0
    } else {
        count_running_owned(jobs.drop_last(), owner) + (if is_running(jobs.last())
            && jobs.last().spec.owner == owner {
            1nat
        } else {
            0nat
        })
    }
}

/// Number of running jobs.
pub open spec fn count_running(jobs: Seq<JobRecord>) -> nat
    decreases jobs.len(),
{
    if jobs.len() == 0 {
        0
    } else {
        count_running(jobs.drop_last()) + (if is_running(jobs.last()) {
            1nat
        } else {
            0nat
        })
    }
}

/// Identities of the running jobs that are expired at `now_ms`, in submission order.
pub open spec fn expiring_ids(jobs: Seq<JobRecord>, now_ms: u64) -> Seq<JobId>
    decreases jobs.len(),
{
    if jobs.len() == 0 {
        Seq::empty()
    } else {
        expiring_ids(jobs.drop_last(), now_ms) + (if is_running(jobs.last())
            && jobs.last().spec.spec_is_expired_at(now_ms) {
            seq![jobs.last().spec.id]
        } else {
            Seq::empty()
        })
    }
}

/// Whether a job with this identity is registered.
pub open spec fn has_job(jobs: Seq<JobRecord>, id: JobId) -> bool {
    exists|i: int| 0 <= i < jobs.len() && (#[trigger] jobs[i]).spec.id == id
}

/// Position of the job with this identity (meaningful when `has_job`).
pub open spec fn job_index(jobs: Seq<JobRecord>, id: JobId) -> int {
    choose|i: int| 0 <= i < jobs.len() && (#[trigger] jobs[i]).spec.id == id
}

/// No two jobs share an identity.
pub open spec fn unique_ids(jobs: Seq<JobRecord>) -> bool {
    forall|i: int, j: int|
        0 <= i < jobs.len() && 0 <= j < jobs.len() && i != j ==> (#[trigger] jobs[i]).spec.id
            != (#[trigger] jobs[j]).spec.id
}

/// Whether `submit` refuses a job: its owner is closed or its identity is taken.
pub open spec fn submit_refused(v: SupervisorView, spec: JobSpec) -> bool {
    v.closed.contains(spec.owner) || has_job(v.jobs, spec.id)
}

/// The abstract state after `close_owner`.
pub open spec fn closed_view(v: SupervisorView, owner: JobOwner) -> SupervisorView {
    SupervisorView { jobs: close_owner_all(v.jobs, owner), closed: v.closed.insert(owner) }
}

/// The record at `id` after `accept_result` looked at it (already past expiry).
pub open spec fn accepted_record(r: JobRecord, result: JobResultRef, current: AssetRef) -> JobRecord {
    if !is_running(r) {
        r
    } else if r.spec.asset != result.asset || !current.spec_accepts_result(result.asset) {
        JobRecord {
            spec: r.spec,
            state: JobState::Finished(JobTerminalState::StaleAsset),
            cancel_requested: true,
        }
    } else {
        JobRecord {
            spec: r.spec,
            state: JobState::Finished(JobTerminalState::Completed),
            cancel_requested: r.cancel_requested,
        }
    }
}

/// The verdict of `accept_result` on a record (already past expiry).
pub open spec fn accept_verdict(r: JobRecord, result: JobResultRef, current: AssetRef) -> JobResultDisposition {
    match r.state {
        JobState::Finished(t) => JobResultDisposition::Rejected(t),
        JobState::Running => if r.spec.asset != result.asset || !current.spec_accepts_result(
            result.asset,
        ) {
            JobResultDisposition::Rejected(JobTerminalState::StaleAsset)
        } else {
            JobResultDisposition::Accepted(
                AcceptedJobResult { id: r.spec.id, owner: r.spec.owner, asset: r.spec.asset },
            )
        },
    }
}

proof fn lemma_index_unique(jobs: Seq<JobRecord>, id: JobId, i: int)
    requires
        unique_ids(jobs),
        0 <= i < jobs.len(),
        jobs[i].spec.id == id,
    ensures
        has_job(jobs, id),
        job_index(jobs, id) == i,
{
    assert(jobs[i].spec.id == id);
    let k = job_index(jobs, id);
    assert(0 <= k < jobs.len() && jobs[k].spec.id == id);
}

proof fn lemma_map_keeps_ids(jobs: Seq<JobRecord>, out: Seq<JobRecord>)
    requires
        unique_ids(jobs),
        out.len() == jobs.len(),
        forall|k: int| 0 <= k < jobs.len() ==> (#[trigger] out[k]).spec == jobs[k].spec,
    ensures
        unique_ids(out),
        forall|id: JobId| has_job(out, id) == has_job(jobs, id),
{
    assert forall|id: JobId| has_job(out, id) == has_job(jobs, id) by {
        if has_job(out, id) {
            let k = choose|k: int| 0 <= k < out.len() && (#[trigger] out[k]).spec.id == id;
            assert(jobs[k].spec.id == id);
        }
        if has_job(jobs, id) {
            let k = choose|k: int| 0 <= k < jobs.len() && (#[trigger] jobs[k]).spec.id == id;
            assert(out[k].spec.id == id);
        }
    }
    assert forall|i: int, j: int|
        0 <= i < out.len() && 0 <= j < out.len() && i != j implies (#[trigger] out[i]).spec.id
        != (#[trigger] out[j]).spec.id by {
        assert(jobs[i].spec.id != jobs[j].spec.id);
    }
}

/// The message for a job identity the supervisor does not know.
pub open spec fn not_found_text(id: JobId) -> Seq<char> {
    "job not found: "@ + decimal(id.raw as nat)
}

fn job_not_found(id: JobId) -> (e: PinoraError)
    ensures
        e.code == ErrorCode::NotFound,
        e.message@ == not_found_text(id),
{
    let mut message = String::new();
    push_text(&mut message, "job not found: ");
    push_decimal(&mut message, id.raw);
    PinoraError { code: ErrorCode::NotFound, message }
}

/// The process's job state machine.
#[derive(Debug)]
pub struct JobSupervisor {
    jobs: Vec<JobRecord>,
    tokens: Vec<JobCancellation>,
    closed_owners: Vec<JobOwner>,
}

impl JobSupervisor {
    /// The abstract state.
    pub closed spec fn view(&self) -> SupervisorView {
        SupervisorView { jobs: self.jobs@, closed: self.closed_owners@.to_set() }
    }

    /// Internal consistency: one token per job and unique job identities.
    pub closed spec fn wf(&self) -> bool {
        &&& self.jobs@.len() == self.tokens@.len()
        &&& unique_ids(self.jobs@)
    }

    pub fn new() -> (s: JobSupervisor)
        ensures
            s.wf(),
            s.view().jobs == Seq::<JobRecord>::empty(),
            s.view().closed == Set::<JobOwner>::empty(),
    {
        let s = JobSupervisor { jobs: Vec::new(), tokens: Vec::new(), closed_owners: Vec::new() };
        assert(s.closed_owners@.to_set() =~= Set::<JobOwner>::empty());
        s
    }

    fn find(&self, id: JobId) -> (r: Option<usize>)
        requires
            self.wf(),
        ensures
            match r {
                Some(i) => i < self.jobs@.len() && has_job(self.view().jobs, id) && job_index(
                    self.view().jobs,
                    id,
                ) == i,
                None => !has_job(self.view().jobs, id),
            },
    {
        let mut i: usize = 0;
        while i < self.jobs.len()
            invariant
                self.wf(),
                i <= self.jobs@.len(),
                forall|k: int| 0 <= k < i ==> (#[trigger] self.jobs@[k]).spec.id != id,
            decreases self.jobs@.len() - i,
        {
            if self.jobs[i].spec.id.raw == id.raw {
                proof {
                    lemma_index_unique(self.jobs@, id, i as int);
                }
                return Some(i);
            }
            i += 1;
        }
        None
    }

    fn owner_is_closed(&self, owner: JobOwner) -> (b: bool)
        ensures
            b == self.view().closed.contains(owner),
    {
        let mut i: usize = 0;
        while i < self.closed_owners.len()
            invariant
                i <= self.closed_owners@.len(),
                forall|k: int| 0 <= k < i ==> self.closed_owners@[k] != owner,
            decreases self.closed_owners@.len() - i,
        {
            if self.closed_owners[i].same_as(&owner) {
                assert(self.closed_owners@[i as int] == owner);
                return true;
            }
            i += 1;
        }
        false
    }

    /// Registers a job that has not started yet.
    ///
    /// Refused with `InvalidState` when the owner is closed or the identity is taken.
    pub fn submit(&mut self, spec: JobSpec) -> (res: Result<JobTicket, PinoraError>)
        requires
            old(self).wf(),
        ensures
            final(self).wf(),
            final(self).view().closed == old(self).view().closed,
            res is Err <==> submit_refused(old(self).view(), spec),
            old(self).view().closed.contains(spec.owner) ==> res is Err && res->Err_0.code
                == ErrorCode::InvalidState && final(self).view().jobs == old(self).view().jobs,
            !old(self).view().closed.contains(spec.owner) && has_job(old(self).view().jobs, spec.id)
                ==> res is Err && res->Err_0.code == ErrorCode::InvalidState && final(self).view().jobs
                == old(self).view().jobs,
            !old(self).view().closed.contains(spec.owner) && !has_job(
                old(self).view().jobs,
                spec.id,
            ) ==> res is Ok && res->Ok_0.id == spec.id && final(self).view().jobs == old(
                self,
            ).view().jobs.push(
                JobRecord { spec, state: JobState::Running, cancel_requested: false },
            ),
    {
        if self.owner_is_closed(spec.owner) {
            return Err(PinoraError::new(ErrorCode::InvalidState, "job owner is closed"));
        }
        if self.find(spec.id).is_some() {
            return Err(PinoraError::new(ErrorCode::InvalidState, "job already registered"));
        }
        let cancellation = JobCancellation::standalone();
        let record = JobRecord { spec, state: JobState::Running, cancel_requested: false };
        let ghost before = self.jobs@;
        self.jobs.push(record);
        self.tokens.push(cancellation.clone());
        proof {
            assert forall|i: int, j: int|
                0 <= i < self.jobs@.len() && 0 <= j < self.jobs@.len() && i != j implies (
                #[trigger] self.jobs@[i]).spec.id != (#[trigger] self.jobs@[j]).spec.id by {
                if i < before.len() && j < before.len() {
                    assert(before[i] == self.jobs@[i]);
                    assert(before[j] == self.jobs@[j]);
                } else if i < before.len() {
                    assert(before[i] == self.jobs@[i]);
                } else {
                    assert(before[j] == self.jobs@[j]);
                }
            }
        }
        Ok(JobTicket { id: spec.id, cancellation })
    }

    /// Current state of a registered job.
    pub fn state(&self, id: JobId) -> (res: Option<JobState>)
        requires
            self.wf(),
        ensures
            res == (if has_job(self.view().jobs, id) {
                Some(self.view().jobs[job_index(self.view().jobs, id)].state)
            } else {
                None::<JobState>
            }),
    {
        match self.find(id) {
            Some(i) => Some(self.jobs[i].state),
            None => None,
        }
    }

    /// Frozen description of a registered job. It gives no way around `accept_result`.
    pub fn spec(&self, id: JobId) -> (res: Option<JobSpec>)
        requires
            self.wf(),
        ensures
            res == (if has_job(self.view().jobs, id) {
                Some(self.view().jobs[job_index(self.view().jobs, id)].spec)
            } else {
                None::<JobSpec>
            }),
    {
        match self.find(id) {
            Some(i) => Some(self.jobs[i].spec),
            None => None,
        }
    }

    /// Cancels one running job; cancelling again returns the state it already ended in.
    pub fn cancel(&mut self, id: JobId) -> (res: Result<JobState, PinoraError>)
        requires
            old(self).wf(),
        ensures
            final(self).wf(),
            final(self).view().closed == old(self).view().closed,
            !has_job(old(self).view().jobs, id) ==> res is Err && res->Err_0.code
                == ErrorCode::NotFound && res->Err_0.message@ == not_found_text(id)
                && final(self).view().jobs == old(self).view().jobs,
            has_job(old(self).view().jobs, id) ==> ({
                let i = job_index(old(self).view().jobs, id);
                let r = cancelled_record(old(self).view().jobs[i]);
                &&& final(self).view().jobs == old(self).view().jobs.update(i, r)
                &&& res == Ok::<JobState, PinoraError>(r.state)
            }),
    {
        match self.find(id) {
            None => Err(job_not_found(id)),
            Some(i) => {
                let r = self.jobs[i];
                if r.state == JobState::Running {
                    self.tokens[i].cancel();
                    let n = JobRecord {
                        spec: r.spec,
                        state: JobState::Finished(JobTerminalState::Cancelled),
                        cancel_requested: true,
                    };
                    let ghost before = self.jobs@;
                    self.jobs.set(i, n);
                    proof {
                        lemma_map_keeps_ids(before, self.jobs@);
                    }
                    Ok(n.state)
                } else {
                    assert(self.jobs@.update(i as int, r) =~= self.jobs@);
                    Ok(r.state)
                }
            },
        }
    }

    /// Records a worker failure; a job that already ended keeps its terminal state.
    pub fn fail(&mut self, id: JobId) -> (res: Result<JobState, PinoraError>)
        requires
            old(self).wf(),
        ensures
            final(self).wf(),
            final(self).view().closed == old(self).view().closed,
            !has_job(old(self).view().jobs, id) ==> res is Err && res->Err_0.code
                == ErrorCode::NotFound && res->Err_0.message@ == not_found_text(id)
                && final(self).view().jobs == old(self).view().jobs,
            has_job(old(self).view().jobs, id) ==> ({
                let i = job_index(old(self).view().jobs, id);
                let r = failed_record(old(self).view().jobs[i]);
                &&& final(self).view().jobs == old(self).view().jobs.update(i, r)
                &&& res == Ok::<JobState, PinoraError>(r.state)
            }),
    {
        match self.find(id) {
            None => Err(job_not_found(id)),
            Some(i) => {
                let r = self.jobs[i];
                if r.state == JobState::Running {
                    let n = JobRecord {
                        spec: r.spec,
                        state: JobState::Finished(JobTerminalState::Failed),
                        cancel_requested: r.cancel_requested,
                    };
                    let ghost before = self.jobs@;
                    self.jobs.set(i, n);
                    proof {
                        lemma_map_keeps_ids(before, self.jobs@);
                    }
                    Ok(n.state)
                } else {
                    assert(self.jobs@.update(i as int, r) =~= self.jobs@);
                    Ok(r.state)
                }
            },
        }
    }

    /// Closes an owner for good and cancels its running jobs; returns how many it cancelled.
    pub fn close_owner(&mut self, owner: JobOwner) -> (n: usize)
        requires
            old(self).wf(),
        ensures
            final(self).wf(),
            final(self).view().closed == old(self).view().closed.insert(owner),
            final(self).view().jobs == close_owner_all(old(self).view().jobs, owner),
            n == count_running_owned(old(self).view().jobs, owner),
    {
        let ghost old_closed = self.closed_owners@;
        self.closed_owners.push(owner);
        proof {
            assert forall|o: JobOwner| #[trigger] self.closed_owners@.contains(o) == old_closed.to_set().insert(owner).contains(o) by {
                if self.closed_owners@.contains(o) {
                    let k = choose|k: int| 0 <= k < self.closed_owners@.len() && self.closed_owners@[k] == o;
                    if k < old_closed.len() {
                        assert(old_closed[k] == o);
                    }
                }
                if old_closed.contains(o) {
                    let k = choose|k: int| 0 <= k < old_closed.len() && old_closed[k] == o;
                    assert(self.closed_owners@[k] == o);
                }
                if o == owner {
                    assert(self.closed_owners@[old_closed.len() as int] == o);
                }
            }
            assert(self.closed_owners@.to_set() =~= old_closed.to_set().insert(owner));
        }
        let ghost closed_now = self.closed_owners@;
        let ghost start = self.jobs@;
        let mut cancelled: usize = 0;
        let mut i: usize = 0;
        while i < self.jobs.len()
            invariant
                self.wf(),
                self.closed_owners@ == closed_now,
                i <= self.jobs@.len(),
                self.jobs@.len() == start.len(),
                unique_ids(start),
                forall|k: int|
                    0 <= k < i ==> #[trigger] self.jobs@[k] == owner_closed_record(start[k], owner),
                forall|k: int| i <= k < start.len() ==> #[trigger] self.jobs@[k] == start[k],
                cancelled == count_running_owned(start.subrange(0, i as int), owner),
                cancelled <= i,
            decreases start.len() - i,
        {
            let r = self.jobs[i];
            assert(start.subrange(0, i + 1).drop_last() =~= start.subrange(0, i as int));
            if r.state == JobState::Running && r.spec.owner.same_as(&owner) {
                self.tokens[i].cancel();
                let n = JobRecord {
                    spec: r.spec,
                    state: JobState::Finished(JobTerminalState::OwnerClosed),
                    cancel_requested: true,
                };
                let ghost before = self.jobs@;
                self.jobs.set(i, n);
                proof {
                    lemma_map_keeps_ids(before, self.jobs@);
                }
                cancelled += 1;
            }
            i += 1;
        }
        proof {
            assert(start.subrange(0, start.len() as int) =~= start);
            assert(self.jobs@ =~= close_owner_all(start, owner));
        }
        cancelled
    }

    /// Cancels every running job, for application shutdown; returns how many it cancelled.
    pub fn cancel_all(&mut self) -> (n: usize)
        requires
            old(self).wf(),
        ensures
            final(self).wf(),
            final(self).view().closed == old(self).view().closed,
            final(self).view().jobs == cancel_all_records(old(self).view().jobs),
            n == count_running(old(self).view().jobs),
    {
        let ghost start = self.jobs@;
        let ghost closed_now = self.closed_owners@;
        let mut cancelled: usize = 0;
        let mut i: usize = 0;
        while i < self.jobs.len()
            invariant
                self.wf(),
                self.closed_owners@ == closed_now,
                i <= self.jobs@.len(),
                self.jobs@.len() == start.len(),
                unique_ids(start),
                forall|k: int| 0 <= k < i ==> #[trigger] self.jobs@[k] == cancelled_record(start[k]),
                forall|k: int| i <= k < start.len() ==> #[trigger] self.jobs@[k] == start[k],
                cancelled == count_running(start.subrange(0, i as int)),
                cancelled <= i,
            decreases start.len() - i,
        {
            let r = self.jobs[i];
            assert(start.subrange(0, i + 1).drop_last() =~= start.subrange(0, i as int));
            if r.state == JobState::Running {
                self.tokens[i].cancel();
                let n = JobRecord {
                    spec: r.spec,
                    state: JobState::Finished(JobTerminalState::Cancelled),
                    cancel_requested: true,
                };
                let ghost before = self.jobs@;
                self.jobs.set(i, n);
                proof {
                    lemma_map_keeps_ids(before, self.jobs@);
                }
                cancelled += 1;
            }
            i += 1;
        }
        proof {
            assert(start.subrange(0, start.len() as int) =~= start);
            assert(self.jobs@ =~= cancel_all_records(start));
        }
        cancelled
    }

    /// Times out every running job whose deadline is reached at `now_ms` and requests its
    /// cancellation; returns their identities in submission order.
    pub fn expire_at(&mut self, now_ms: u64) -> (ids: Vec<JobId>)
        requires
            old(self).wf(),
        ensures
            final(self).wf(),
            final(self).view().closed == old(self).view().closed,
            final(self).view().jobs == expire_all(old(self).view().jobs, now_ms),
            ids@ == expiring_ids(old(self).view().jobs, now_ms),
    {
        let ghost start = self.jobs@;
        let ghost closed_now = self.closed_owners@;
        let mut timed_out: Vec<JobId> = Vec::new();
        let mut i: usize = 0;
        while i < self.jobs.len()
            invariant
                self.wf(),
                self.closed_owners@ == closed_now,
                i <= self.jobs@.len(),
                self.jobs@.len() == start.len(),
                unique_ids(start),
                forall|k: int|
                    0 <= k < i ==> #[trigger] self.jobs@[k] == expired_record(start[k], now_ms),
                forall|k: int| i <= k < start.len() ==> #[trigger] self.jobs@[k] == start[k],
                timed_out@ == expiring_ids(start.subrange(0, i as int), now_ms),
            decreases start.len() - i,
        {
            let r = self.jobs[i];
            assert(start.subrange(0, i + 1).drop_last() =~= start.subrange(0, i as int));
            if r.state == JobState::Running && r.spec.is_expired_at(now_ms) {
                self.tokens[i].cancel();
                let n = JobRecord {
                    spec: r.spec,
                    state: JobState::Finished(JobTerminalState::TimedOut),
                    cancel_requested: true,
                };
                let ghost before = self.jobs@;
                self.jobs.set(i, n);
                proof {
                    lemma_map_keeps_ids(before, self.jobs@);
                }
                timed_out.push(r.spec.id);
            } else {
                assert(timed_out@ =~= timed_out@ + Seq::<JobId>::empty());
            }
            i += 1;
        }
        proof {
            assert(start.subrange(0, start.len() as int) =~= start);
            assert(self.jobs@ =~= expire_all(start, now_ms));
        }
        timed_out
    }

    /// Result acceptance. Jobs due at `now_ms` time out first; then the result is accepted only
    /// for a running job whose submitted asset equals the result's asset and is still the
    /// caller's current asset. Any other answer leaves the job finished.
    pub fn accept_result(
        &mut self,
        result: JobResultRef,
        current_asset: AssetRef,
        now_ms: u64,
    ) -> (res: Result<JobResultDisposition, PinoraError>)
        requires
            old(self).wf(),
        ensures
            final(self).wf(),
            final(self).view().closed == old(self).view().closed,
            ({
                let e = expire_all(old(self).view().jobs, now_ms);
                if has_job(old(self).view().jobs, result.job_id) {
                    let i = job_index(old(self).view().jobs, result.job_id);
                    &&& final(self).view().jobs == e.update(
                        i,
                        accepted_record(e[i], result, current_asset),
                    )
                    &&& res == Ok::<JobResultDisposition, PinoraError>(
                        accept_verdict(e[i], result, current_asset),
                    )
                } else {
                    &&& final(self).view().jobs == e
                    &&& res is Err
                    &&& res->Err_0.code == ErrorCode::NotFound
                    &&& res->Err_0.message@ == not_found_text(result.job_id)
                }
            }),
    {
        let ghost start = self.jobs@;
        let _ = self.expire_at(now_ms);
        proof {
            lemma_map_keeps_ids(start, self.jobs@);
        }
        match self.find(result.job_id) {
            None => Err(job_not_found(result.job_id)),
            Some(i) => {
                proof {
                    lemma_index_unique(start, result.job_id, i as int);
                }
                let r = self.jobs[i];
                match r.state {
                    JobState::Finished(terminal) => {
                        assert(self.jobs@.update(i as int, r) =~= self.jobs@);
                        Ok(JobResultDisposition::Rejected(terminal))
                    },
                    JobState::Running => {
                        if !r.spec.asset.same_as(&result.asset) || !current_asset.accepts_result(
                            result.asset,
                        ) {
                            self.tokens[i].cancel();
                            let n = JobRecord {
                                spec: r.spec,
                                state: JobState::Finished(JobTerminalState::StaleAsset),
                                cancel_requested: true,
                            };
                            let ghost before = self.jobs@;
                            self.jobs.set(i, n);
                            proof {
                                lemma_map_keeps_ids(before, self.jobs@);
                            }
                            Ok(JobResultDisposition::Rejected(JobTerminalState::StaleAsset))
                        } else {
                            let n = JobRecord {
                                spec: r.spec,
                                state: JobState::Finished(JobTerminalState::Completed),
                                cancel_requested: r.cancel_requested,
                            };
                            let ghost before = self.jobs@;
                            self.jobs.set(i, n);
                            proof {
                                lemma_map_keeps_ids(before, self.jobs@);
                            }
                            Ok(
                                JobResultDisposition::Accepted(
                                    AcceptedJobResult {
                                        id: r.spec.id,
                                        owner: r.spec.owner,
                                        asset: r.spec.asset,
                                    },
                                ),
                            )
                        }
                    },
                }
            },
        }
    }
}


/// How the event loop must treat one worker report after `accept_result` looked at it.
#[derive(Debug, Clone, Copy, PartialEq, Eq, Structural)]
pub enum WorkerSettlement {
    /// The result may update application state.
    Completed(AcceptedJobResult),
    /// The worker's own error is to be reported to its owner.
    WorkerFailed { job_id: JobId, owner: JobOwner },
    /// The supervisor refused the report; its error code is to be reported.
    SupervisorFailed { job_id: JobId, owner: JobOwner, code: ErrorCode },
    /// The report is stale and must be dropped.
    Discarded { job_id: JobId, owner: JobOwner, terminal: JobTerminalState },
}

impl JobSupervisor {
    /// Settles one report of an export, clipboard or OCR worker (see `poll` of those
    /// services). `current_asset` is the owner's asset as the caller sees it now, `None`
    /// when the owner is gone. Returns `None` for a job the supervisor does not know.
    ///
    /// * success, owner gone: the owner is closed and the report discarded (`OwnerClosed`);
    /// * success: the report goes through `accept_result`;
    /// * failure, owner gone: as above;
    /// * failure for an asset that is no longer current: the job fails, and the report is
    ///   discarded as `StaleAsset`;
    /// * failure: a running job fails; the worker's error is reported when the job then
    ///   stands failed, and otherwise the report is discarded with the job's terminal state.
    pub fn settle_worker_report(
        &mut self,
        reference: JobResultRef,
        worker_succeeded: bool,
        current_asset: Option<AssetRef>,
        now_ms: u64,
    ) -> (out: Option<WorkerSettlement>)
        requires
            old(self).wf(),
        ensures
            final(self).wf(),
            ({
                let v = old(self).view();
                let id = reference.job_id;
                if !has_job(v.jobs, id) {
                    &&& out is None
                    &&& final(self).view() == v
                } else {
                    let i = job_index(v.jobs, id);
                    let r = v.jobs[i];
                    let owner = r.spec.owner;
                    match current_asset {
                        None => {
                            &&& final(self).view() == closed_view(v, owner)
                            &&& out == Some(
                                WorkerSettlement::Discarded {
                                    job_id: id,
                                    owner,
                                    terminal: JobTerminalState::OwnerClosed,
                                },
                            )
                        },
                        Some(asset) => if worker_succeeded {
                            let e = expire_all(v.jobs, now_ms);
                            &&& final(self).view().closed == v.closed
                            &&& final(self).view().jobs == e.update(
                                i,
                                accepted_record(e[i], reference, asset),
                            )
                            &&& out == Some(
                                match accept_verdict(e[i], reference, asset) {
                                    JobResultDisposition::Accepted(j) => WorkerSettlement::Completed(
                                        j,
                                    ),
                                    JobResultDisposition::Rejected(t) => WorkerSettlement::Discarded {
                                        job_id: id,
                                        owner,
                                        terminal: t,
                                    },
                                },
                            )
                        } else {
                            let f = failed_record(r);
                            &&& final(self).view().closed == v.closed
                            &&& final(self).view().jobs == v.jobs.update(i, f)
                            &&& out == Some(
                                if asset != reference.asset {
                                    WorkerSettlement::Discarded {
                                        job_id: id,
                                        owner,
                                        terminal: JobTerminalState::StaleAsset,
                                    }
                                } else if f.state == JobState::Finished(JobTerminalState::Failed) {
                                    WorkerSettlement::WorkerFailed { job_id: id, owner }
                                } else {
                                    WorkerSettlement::Discarded {
                                        job_id: id,
                                        owner,
                                        terminal: match f.state {
                                            JobState::Finished(t) => t,
                                            JobState::Running => JobTerminalState::Failed,
                                        },
                                    }
                                },
                            )
                        },
                    }
                }
            }),
    {
        let id = reference.job_id;
        let spec = match self.spec(id) {
            Some(spec) => spec,
            None => {
                return None;
            },
        };
        let owner = spec.owner;
        match current_asset {
            None => {
                let _ = self.close_owner(owner);
                Some(
                    WorkerSettlement::Discarded {
                        job_id: id,
                        owner,
                        terminal: JobTerminalState::OwnerClosed,
                    },
                )
            },
            Some(asset) => {
                if worker_succeeded {
                    match self.accept_result(reference, asset, now_ms) {
                        Ok(JobResultDisposition::Accepted(job)) => Some(
                            WorkerSettlement::Completed(job),
                        ),
                        Ok(JobResultDisposition::Rejected(terminal)) => Some(
                            WorkerSettlement::Discarded { job_id: id, owner, terminal },
                        ),
                        Err(error) => Some(
                            WorkerSettlement::SupervisorFailed { job_id: id, owner, code: error.code },
                        ),
                    }
                } else if !asset.same_as(&reference.asset) {
                    let _ = self.fail(id);
                    Some(
                        WorkerSettlement::Discarded {
                            job_id: id,
                            owner,
                            terminal: JobTerminalState::StaleAsset,
                        },
                    )
                } else {
                    match self.fail(id) {
                        Ok(JobState::Finished(JobTerminalState::Failed)) => {
                            Some(WorkerSettlement::WorkerFailed { job_id: id, owner })
                        },
                        Ok(JobState::Finished(terminal)) => Some(
                            WorkerSettlement::Discarded { job_id: id, owner, terminal },
                        ),
                        Ok(JobState::Running) => None,
                        Err(error) => Some(
                            WorkerSettlement::SupervisorFailed { job_id: id, owner, code: error.code },
                        ),
                    }
                }
            },
        }
    }
}

/// The terminal state carried by a finished job's state (`Failed` stands in for `Running`,
/// which the callers below never pass).
pub open spec fn terminal_of(state: JobState) -> JobTerminalState {
    match state {
        JobState::Finished(t) => t,
        JobState::Running => JobTerminalState::Failed,
    }
}

/// What a failure report settles to once the job's record is `f`.
pub open spec fn failure_settlement(f: JobRecord) -> WorkerSettlement {
    if f.state == JobState::Finished(JobTerminalState::Failed) {
        WorkerSettlement::WorkerFailed { job_id: f.spec.id, owner: f.spec.owner }
    } else {
        WorkerSettlement::Discarded {
            job_id: f.spec.id,
            owner: f.spec.owner,
            terminal: terminal_of(f.state),
        }
    }
}

/// What a success report settles to given the verdict of `accept_result`.
pub open spec fn success_settlement(r: JobRecord, verdict: JobResultDisposition) -> WorkerSettlement {
    match verdict {
        JobResultDisposition::Accepted(j) => WorkerSettlement::Completed(j),
        JobResultDisposition::Rejected(t) => WorkerSettlement::Discarded {
            job_id: r.spec.id,
            owner: r.spec.owner,
            terminal: t,
        },
    }
}

impl JobSupervisor {
    /// Settles one report of the history image loader. `current_asset` is the asset of the
    /// history entry that is selected now, `None` when the selection moved away. Returns
    /// `None` for a job the supervisor does not know.
    ///
    /// * success with a selection: the report goes through `accept_result`;
    /// * success without one: the job is cancelled and the report discarded with the job's
    ///   terminal state;
    /// * failure: the job fails; the error is reported when the job then stands failed.
    pub fn settle_history_load_report(
        &mut self,
        reference: JobResultRef,
        worker_succeeded: bool,
        current_asset: Option<AssetRef>,
        now_ms: u64,
    ) -> (out: Option<WorkerSettlement>)
        requires
            old(self).wf(),
        ensures
            final(self).wf(),
            final(self).view().closed == old(self).view().closed,
            ({
                let v = old(self).view();
                let id = reference.job_id;
                if !has_job(v.jobs, id) {
                    &&& out is None
                    &&& final(self).view().jobs == v.jobs
                } else {
                    let i = job_index(v.jobs, id);
                    let r = v.jobs[i];
                    if worker_succeeded {
                        match current_asset {
                            Some(asset) => {
                                let e = expire_all(v.jobs, now_ms);
                                &&& final(self).view().jobs == e.update(
                                    i,
                                    accepted_record(e[i], reference, asset),
                                )
                                &&& out == Some(
                                    success_settlement(r, accept_verdict(e[i], reference, asset)),
                                )
                            },
                            None => {
                                let c = cancelled_record(r);
                                &&& final(self).view().jobs == v.jobs.update(i, c)
                                &&& out == Some(
                                    WorkerSettlement::Discarded {
                                        job_id: id,
                                        owner: r.spec.owner,
                                        terminal: terminal_of(c.state),
                                    },
                                )
                            },
                        }
                    } else {
                        let f = failed_record(r);
                        &&& final(self).view().jobs == v.jobs.update(i, f)
                        &&& out == Some(failure_settlement(f))
                    }
                }
            }),
    {
        let id = reference.job_id;
        let spec = match self.spec(id) {
            Some(spec) => spec,
            None => {
                return None;
            },
        };
        let owner = spec.owner;
        if worker_succeeded {
            match current_asset {
                Some(asset) => match self.accept_result(reference, asset, now_ms) {
                    Ok(JobResultDisposition::Accepted(job)) => Some(WorkerSettlement::Completed(job)),
                    Ok(JobResultDisposition::Rejected(terminal)) => Some(
                        WorkerSettlement::Discarded { job_id: id, owner, terminal },
                    ),
                    Err(error) => Some(
                        WorkerSettlement::SupervisorFailed { job_id: id, owner, code: error.code },
                    ),
                },
                None => match self.cancel(id) {
                    Ok(JobState::Finished(terminal)) => Some(
                        WorkerSettlement::Discarded { job_id: id, owner, terminal },
                    ),
                    Ok(JobState::Running) => Some(
                        WorkerSettlement::Discarded {
                            job_id: id,
                            owner,
                            terminal: JobTerminalState::Cancelled,
                        },
                    ),
                    Err(error) => Some(
                        WorkerSettlement::SupervisorFailed { job_id: id, owner, code: error.code },
                    ),
                },
            }
        } else {
            match self.fail(id) {
                Ok(JobState::Finished(JobTerminalState::Failed)) => {
                    Some(WorkerSettlement::WorkerFailed { job_id: id, owner })
                },
                Ok(JobState::Finished(terminal)) => Some(
                    WorkerSettlement::Discarded { job_id: id, owner, terminal },
                ),
                Ok(JobState::Running) => None,
                Err(error) => Some(
                    WorkerSettlement::SupervisorFailed { job_id: id, owner, code: error.code },
                ),
            }
        }
    }
}

/// A finished job is final: no operation of the supervisor changes its record.
pub proof fn finished_job_is_final(
    r: JobRecord,
    owner: JobOwner,
    now_ms: u64,
    result: JobResultRef,
    current: AssetRef,
)
    requires
        !is_running(r),
    ensures
        cancelled_record(r) == r,
        failed_record(r) == r,
        owner_closed_record(r, owner) == r,
        expired_record(r, now_ms) == r,
        accepted_record(r, result, current) == r,
{
}

/// `accept_result` accepts a result only for a job that was running and not yet due when the
/// result arrived, and whose submitted asset, the result's asset and the caller's current
/// asset are one and the same.
pub proof fn accepted_result_is_fresh(
    r: JobRecord,
    result: JobResultRef,
    current: AssetRef,
    now_ms: u64,
)
    requires
        accept_verdict(expired_record(r, now_ms), result, current) is Accepted,
    ensures
        is_running(r),
        !r.spec.spec_is_expired_at(now_ms),
        r.spec.asset == result.asset,
        current == result.asset,
        accept_verdict(expired_record(r, now_ms), result, current) == JobResultDisposition::Accepted(
            AcceptedJobResult { id: r.spec.id, owner: r.spec.owner, asset: r.spec.asset },
        ),
{
}

/// Once an owner is closed, `submit` refuses every job of that owner, and later closes of
/// other owners keep it closed.
pub proof fn closed_owner_admits_no_job(v: SupervisorView, owner: JobOwner, other: JobOwner, spec: JobSpec)
    requires
        spec.owner == owner,
    ensures
        submit_refused(closed_view(v, owner), spec),
        submit_refused(closed_view(closed_view(v, owner), other), spec),
{
}

/// Closing an owner leaves every job of other owners untouched.
pub proof fn close_owner_spares_other_owners(r: JobRecord, owner: JobOwner)
    requires
        r.spec.owner != owner,
    ensures
        owner_closed_record(r, owner) == r,
{
}

/// Cancelling twice is the same as cancelling once.
pub proof fn cancel_is_idempotent(r: JobRecord)
    ensures
        cancelled_record(cancelled_record(r)) == cancelled_record(r),
        !is_running(cancelled_record(r)),
{
}

/// Every job that a shutdown, an owner close, an expiry or a stale result ends has had its
/// worker's cancellation requested.
pub proof fn ending_a_running_job_requests_cancellation(
    r: JobRecord,
    owner: JobOwner,
    now_ms: u64,
    result: JobResultRef,
    current: AssetRef,
)
    requires
        is_running(r),
    ensures
        cancelled_record(r).cancel_requested,
        r.spec.owner == owner ==> owner_closed_record(r, owner).cancel_requested,
        r.spec.spec_is_expired_at(now_ms) ==> expired_record(r, now_ms).cancel_requested,
        accept_verdict(r, result, current) == JobResultDisposition::Rejected(
            JobTerminalState::StaleAsset,
        ) ==> accepted_record(r, result, current).cancel_requested,
{
}

impl JobSupervisor {
    /// A well-formed supervisor never holds two jobs with one identity.
    pub proof fn lemma_ids_unique(&self)
        requires
            self.wf(),
        ensures
            unique_ids(self.view().jobs),
    {
    }
}

/// Replacing the record of job `id` by one with the same identity keeps every identity
/// unique and keeps the job where it was, so `state(id)` then reports the new record.
pub proof fn updated_job_keeps_its_place(jobs: Seq<JobRecord>, id: JobId, r: JobRecord)
    requires
        unique_ids(jobs),
        has_job(jobs, id),
        r.spec.id == id,
    ensures
        ({
            let i = job_index(jobs, id);
            let after = jobs.update(i, r);
            &&& unique_ids(after)
            &&& has_job(after, id)
            &&& job_index(after, id) == i
            &&& after[job_index(after, id)] == r
        }),
{
    let i = job_index(jobs, id);
    let after = jobs.update(i, r);
    assert(0 <= i < jobs.len() && jobs[i].spec.id == id);
    assert forall|a: int, b: int|
        0 <= a < after.len() && 0 <= b < after.len() && a != b implies (#[trigger] after[a]).spec.id
        != (#[trigger] after[b]).spec.id by {
        if a != i && b != i {
            assert(after[a] == jobs[a] && after[b] == jobs[b]);
        } else if a == i {
            assert(after[b] == jobs[b]);
            assert(jobs[b].spec.id != jobs[i].spec.id);
        } else {
            assert(after[a] == jobs[a]);
            assert(jobs[a].spec.id != jobs[i].spec.id);
        }
    }
    lemma_index_unique(after, id, i);
}

/// After `cancel(id)` the job reports `Cancelled` if it was running and its old terminal
/// state otherwise; cancelling again changes nothing.
pub proof fn cancel_sets_the_state(jobs: Seq<JobRecord>, id: JobId)
    requires
        unique_ids(jobs),
        has_job(jobs, id),
    ensures
        ({
            let i = job_index(jobs, id);
            let after = jobs.update(i, cancelled_record(jobs[i]));
            &&& after[job_index(after, id)].state == (if is_running(jobs[i]) {
                JobState::Finished(JobTerminalState::Cancelled)
            } else {
                jobs[i].state
            })
            &&& after.update(job_index(after, id), cancelled_record(after[job_index(after, id)]))
                == after
        }),
{
    let i = job_index(jobs, id);
    assert(0 <= i < jobs.len() && jobs[i].spec.id == id);
    updated_job_keeps_its_place(jobs, id, cancelled_record(jobs[i]));
    let after = jobs.update(i, cancelled_record(jobs[i]));
    assert(after.update(i, cancelled_record(after[i])) =~= after);
}

/// After `fail(id)` the job reports `Failed` if it was running and its old terminal state
/// otherwise; failing never requests cancellation.
pub proof fn fail_sets_the_state(jobs: Seq<JobRecord>, id: JobId)
    requires
        unique_ids(jobs),
        has_job(jobs, id),
    ensures
        ({
            let i = job_index(jobs, id);
            let after = jobs.update(i, failed_record(jobs[i]));
            &&& after[job_index(after, id)].state == (if is_running(jobs[i]) {
                JobState::Finished(JobTerminalState::Failed)
            } else {
                jobs[i].state
            })
            &&& after[job_index(after, id)].cancel_requested == jobs[i].cancel_requested
        }),
{
    let i = job_index(jobs, id);
    assert(0 <= i < jobs.len() && jobs[i].spec.id == id);
    updated_job_keeps_its_place(jobs, id, failed_record(jobs[i]));
}

/// A late result for a job that already ended is rejected with the state it ended in, and
/// the job keeps that state.
pub proof fn finished_job_rejects_results(r: JobRecord, result: JobResultRef, current: AssetRef, now_ms: u64)
    requires
        r.state is Finished,
    ensures
        accept_verdict(expired_record(r, now_ms), result, current) == JobResultDisposition::Rejected(
            terminal_of(r.state),
        ),
        accepted_record(expired_record(r, now_ms), result, current) == r,
{
}

} // verus!
