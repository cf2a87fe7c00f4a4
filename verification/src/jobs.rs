//! The background job state machine. A job row is created `Pending` by a
//! trigger, flipped to `Running` by the executor when its message is
//! dequeued, and ends `Completed` or `Failed`; a failed job is terminal and
//! keeps its error text. The queue itself and the task spawning live with the
//! runtime outside the library; the transitions below are everything the
//! executor decides.

use vstd::prelude::*;

use crate::enums::{JobStatus, JobType};

verus! {

/// A message on the job queue: which job row to run, and what kind of work.
#[derive(Debug, Clone)]
pub struct JobMessage {
    pub job_id: u64,
    pub job_type: JobType,
    pub entity_id: Option<u64>,
}

/// A background job row.
#[derive(Debug, Clone)]
pub struct Job {
    pub id: u64,
    pub job_type: JobType,
    pub status: JobStatus,
    pub entity_id: Option<u64>,
    pub progress: Option<i32>,
    pub total_items: Option<i32>,
    pub processed_items: Option<i32>,
    pub error_message: Option<String>,
    pub started_at: Option<u64>,
    pub completed_at: Option<u64>,
    pub created_at: u64,
    pub updated_at: u64,
}

impl Job {
    /// Lifecycle invariant: a pending job carries no timestamps or error; a
    /// running job has started and not completed; a completed job has a
    /// completion time and no error; a failed job has both a completion time
    /// and an error message.
    pub open spec fn wf(self) -> bool {
        match self.status {
            JobStatus::Pending => self.started_at is None && self.completed_at is None
                && self.error_message is None,
            JobStatus::Running => self.started_at is Some && self.completed_at is None
                && self.error_message is None,
            JobStatus::Completed => self.started_at is Some && self.completed_at is Some
                && self.error_message is None,
            JobStatus::Failed => self.started_at is Some && self.completed_at is Some
                && self.error_message is Some,
        }
    }

    /// A fresh pending row, as a trigger creates it.
    pub fn new_pending(id: u64, job_type: JobType, entity_id: Option<u64>, now: u64) -> (r: Job)
        ensures
            r == (Job {
                id,
                job_type,
                status: JobStatus::Pending,
                entity_id,
                progress: None,
                total_items: None,
                processed_items: None,
                error_message: None,
                started_at: None,
                completed_at: None,
                created_at: now,
                updated_at: now,
            }),
            r.wf(),
    {
        Job {
            id,
            job_type,
            status: JobStatus::Pending,
            entity_id,
            progress: None,
            total_items: None,
            processed_items: None,
            error_message: None,
            started_at: None,
            completed_at: None,
            created_at: now,
            updated_at: now,
        }
    }

    /// The executor dequeued this job's message: flip it to `Running` and
    /// stamp the start time.
    pub fn mark_running(&mut self, now: u64)
        requires
            old(self).wf(),
            old(self).status == JobStatus::Pending,
        ensures
            *final(self) == (Job {
                status: JobStatus::Running,
                started_at: Some(now),
                updated_at: now,
                ..*old(self)
            }),
            final(self).wf(),
    {
        self.status = JobStatus::Running;
        self.started_at = Some(now);
        self.updated_at = now;
    }

    /// The task function returned successfully: terminal `Completed`.
    pub fn mark_completed(&mut self, now: u64)
        requires
            old(self).wf(),
            old(self).status == JobStatus::Running,
        ensures
            *final(self) == (Job {
                status: JobStatus::Completed,
                completed_at: Some(now),
                updated_at: now,
                ..*old(self)
            }),
            final(self).wf(),
    {
        self.status = JobStatus::Completed;
        self.completed_at = Some(now);
        self.updated_at = now;
    }

    /// The task function failed: terminal `Failed`, with the error text
    /// captured verbatim. No automatic retry follows; a new trigger must
    /// resubmit.
    pub fn mark_failed(&mut self, error: String, now: u64)
        requires
            old(self).wf(),
            old(self).status == JobStatus::Running,
        ensures
            *final(self) == (Job {
                status: JobStatus::Failed,
                error_message: Some(error),
                completed_at: Some(now),
                updated_at: now,
                ..*old(self)
            }),
            final(self).wf(),
            final(self).error_message is Some,
            final(self).completed_at is Some,
    {
        self.status = JobStatus::Failed;
        self.error_message = Some(error);
        self.completed_at = Some(now);
        self.updated_at = now;
    }

    /// Settle a finished task: an error message means `Failed`, none means
    /// `Completed` — the executor's last step for every job.
    pub fn finish(&mut self, outcome: Option<String>, now: u64)
        requires
            old(self).wf(),
            old(self).status == JobStatus::Running,
        ensures
            final(self).wf(),
            outcome is Some ==> final(self).status == JobStatus::Failed
                && final(self).error_message == outcome,
            outcome is None ==> final(self).status == JobStatus::Completed,
            final(self).completed_at == Some(now),
            final(self).started_at == old(self).started_at,
            final(self).id == old(self).id,
            final(self).job_type == old(self).job_type,
            final(self).created_at == old(self).created_at,
    {
        match outcome {
            Some(err) => self.mark_failed(err, now),
            None => self.mark_completed(now),
        }
    }
}

/// The transition relation of the job lifecycle: `Pending` is dequeued into
/// `Running`, which terminates in `Completed` or `Failed`. Nothing else.
pub open spec fn job_step_allowed(pre: JobStatus, post: JobStatus) -> bool {
    ||| (pre == JobStatus::Pending && post == JobStatus::Running)
    ||| (pre == JobStatus::Running && post == JobStatus::Completed)
    ||| (pre == JobStatus::Running && post == JobStatus::Failed)
}

/// Job lifecycle law: a job only ever moves `Pending` to `Running` to a
/// terminal state; the terminal states have no outgoing step, so no job
/// re-enters `Running`; and `Running` is entered from `Pending` alone.
pub proof fn lemma_job_lifecycle(pre: JobStatus, post: JobStatus)
    ensures
        job_step_allowed(pre, post) ==> pre != JobStatus::Completed && pre != JobStatus::Failed,
        job_step_allowed(pre, post) && post == JobStatus::Running ==> pre == JobStatus::Pending,
        !job_step_allowed(JobStatus::Completed, post),
        !job_step_allowed(JobStatus::Failed, post),
{
}

} // verus!
