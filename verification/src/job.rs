//! The life of a review job: pending, analysing, reviewing, and then
//! complete or failed. A job moves forward only.

use vstd::prelude::*;
use crate::text::{push_str, text_of};

verus! {

/// Where a review job stands.
#[derive(Debug, Clone, Copy, PartialEq, Eq, Structural)]
pub enum JobStatus {
    Pending,
    Analyzing,
    Reviewing,
    Complete,
    Failed,
}

impl JobStatus {
    /// How far the job has come: 0 for a pending job, 3 for one that has
    /// ended either way.
    pub open spec fn stage(self) -> nat {
        match self {
            JobStatus::Pending => 0,
            JobStatus::Analyzing => 1,
            JobStatus::Reviewing => 2,
            JobStatus::Complete => 3,
            JobStatus::Failed => 3,
        }
    }

    /// Whether the job has ended.
    pub open spec fn is_final(self) -> bool {
        self == JobStatus::Complete || self == JobStatus::Failed
    }

    /// The name of the status in snake case.
    pub open spec fn label_spec(self) -> Seq<char> {
        match self {
            JobStatus::Pending => "pending"@,
            JobStatus::Analyzing => "analyzing"@,
            JobStatus::Reviewing => "reviewing"@,
            JobStatus::Complete => "complete"@,
            JobStatus::Failed => "failed"@,
        }
    }

    /// The name of the status in snake case.
    pub fn label(&self) -> (r: &'static str)
        ensures
            r@ == self.label_spec(),
    {
        match self {
            JobStatus::Pending => "pending",
            JobStatus::Analyzing => "analyzing",
            JobStatus::Reviewing => "reviewing",
            JobStatus::Complete => "complete",
            JobStatus::Failed => "failed",
        }
    }
}

/// How long the phases of a job took, in milliseconds.
#[derive(Debug, Clone, Copy, PartialEq, Eq, Structural)]
pub struct TimingInfo {
    pub triage_ms: u64,
    pub review_ms: u64,
    pub total_ms: u64,
}

/// What happens to a job.
#[derive(Debug, Clone, Copy, PartialEq, Eq, Structural)]
pub enum JobEvent {
    /// The analysis has begun.
    Started,
    /// The triage is done and the review begins.
    Triaged,
    /// The review is done.
    Reviewed,
    /// A step has failed.
    Broke,
}

/// The status of a job after an event. Each event moves the job from one
/// status to the next; a failure ends a job that has not ended; any other
/// event leaves the job where it is.
pub open spec fn next_status(status: JobStatus, event: JobEvent) -> JobStatus {
    match (status, event) {
        (JobStatus::Pending, JobEvent::Started) => JobStatus::Analyzing,
        (JobStatus::Analyzing, JobEvent::Triaged) => JobStatus::Reviewing,
        (JobStatus::Reviewing, JobEvent::Reviewed) => JobStatus::Complete,
        (JobStatus::Pending, JobEvent::Broke) => JobStatus::Failed,
        (JobStatus::Analyzing, JobEvent::Broke) => JobStatus::Failed,
        (JobStatus::Reviewing, JobEvent::Broke) => JobStatus::Failed,
        _ => status,
    }
}

/// The status of a job after an event.
pub fn advance(status: JobStatus, event: JobEvent) -> (next: JobStatus)
    ensures
        next == next_status(status, event),
        next.stage() >= status.stage(),
        next != status ==> next.stage() > status.stage(),
{
    match (status, event) {
        (JobStatus::Pending, JobEvent::Started) => JobStatus::Analyzing,
        (JobStatus::Analyzing, JobEvent::Triaged) => JobStatus::Reviewing,
        (JobStatus::Reviewing, JobEvent::Reviewed) => JobStatus::Complete,
        (JobStatus::Pending, JobEvent::Broke) => JobStatus::Failed,
        (JobStatus::Analyzing, JobEvent::Broke) => JobStatus::Failed,
        (JobStatus::Reviewing, JobEvent::Broke) => JobStatus::Failed,
        _ => status,
    }
}

/// The status of a job after the first `n` of a run of events.
pub open spec fn status_after(start: JobStatus, events: Seq<JobEvent>, n: int) -> JobStatus
    decreases n,
{
    if n <= 0 {
        start
    } else {
        next_status(status_after(start, events, n - 1), events[n - 1])
    }
}

/// A job moves forward only: over any run of events its stage never falls,
/// a job that has ended stays as it is, and a status that the job has left
/// does not come back.
pub proof fn lemma_job_moves_forward(start: JobStatus, events: Seq<JobEvent>, i: int, j: int)
    requires
        0 <= i <= j <= events.len(),
    ensures
        status_after(start, events, i).stage() <= status_after(start, events, j).stage(),
        status_after(start, events, i).is_final() ==> status_after(start, events, j)
            == status_after(start, events, i),
        status_after(start, events, i) != status_after(start, events, j) ==> status_after(
            start,
            events,
            i,
        ).stage() < status_after(start, events, j).stage(),
    decreases j - i,
{
    if i < j {
        lemma_job_moves_forward(start, events, i, j - 1);
    }
}

/// A review job: where it stands, why it failed if it did, and how long it
/// took once it is complete.
#[derive(Debug, Clone)]
pub struct JobRecord {
    pub status: JobStatus,
    pub error: Option<String>,
    pub timing: Option<TimingInfo>,
}

impl JobRecord {
    /// A failed job says why, and only a failed job does; a complete job
    /// says how long it took, and only a complete job does.
    pub open spec fn wf(&self) -> bool {
        &&& self.error is Some <==> self.status == JobStatus::Failed
        &&& self.timing is Some <==> self.status == JobStatus::Complete
    }

    /// A pending job.
    pub fn new() -> (job: Self)
        ensures
            job.wf(),
            job.status == JobStatus::Pending,
    {
        JobRecord { status: JobStatus::Pending, error: None, timing: None }
    }

    /// The analysis begins.
    pub fn start(&mut self)
        requires
            old(self).wf(),
        ensures
            final(self).wf(),
            final(self).status == next_status(old(self).status, JobEvent::Started),
            final(self).error == old(self).error,
            final(self).timing == old(self).timing,
    {
        self.status = advance(self.status, JobEvent::Started);
    }

    /// The triage is done.
    pub fn triaged(&mut self)
        requires
            old(self).wf(),
        ensures
            final(self).wf(),
            final(self).status == next_status(old(self).status, JobEvent::Triaged),
            final(self).error == old(self).error,
            final(self).timing == old(self).timing,
    {
        self.status = advance(self.status, JobEvent::Triaged);
    }

    /// The review is done after the times of `timing`. A job that was not
    /// under review stays as it is.
    pub fn complete(&mut self, timing: TimingInfo)
        requires
            old(self).wf(),
        ensures
            final(self).wf(),
            final(self).status == next_status(old(self).status, JobEvent::Reviewed),
            final(self).error == old(self).error,
            old(self).status == JobStatus::Reviewing ==> final(self).timing == Some(timing),
            old(self).status != JobStatus::Reviewing ==> final(self).timing == old(self).timing,
    {
        match self.status {
            JobStatus::Reviewing => {
                self.status = JobStatus::Complete;
                self.timing = Some(timing);
            },
            _ => {},
        }
    }

    /// A step has failed for the reason `error`. A job that has ended
    /// stays as it is.
    pub fn fail(&mut self, error: String)
        requires
            old(self).wf(),
        ensures
            final(self).wf(),
            final(self).status == next_status(old(self).status, JobEvent::Broke),
            final(self).timing == old(self).timing,
            !old(self).status.is_final() ==> final(self).error == Some(error),
            old(self).status.is_final() ==> final(self).error == old(self).error,
    {
        match self.status {
            JobStatus::Complete => {},
            JobStatus::Failed => {},
            _ => {
                self.status = JobStatus::Failed;
                self.error = Some(error);
            },
        }
    }
}

/// The steps of a job that can fail.
#[derive(Debug, Clone, Copy, PartialEq, Eq, Structural)]
pub enum JobStep {
    Authenticate,
    FetchPullRequest,
    Analyze,
    FetchDiff,
}

impl JobStep {
    /// What is said of a failure of the step, before its cause.
    pub open spec fn failure_prefix(self) -> Seq<char> {
        match self {
            JobStep::Authenticate => "GitHub auth failed: "@,
            JobStep::FetchPullRequest => "Failed to fetch PR: "@,
            JobStep::Analyze => "Analysis failed: "@,
            JobStep::FetchDiff => "Failed to fetch diff: "@,
        }
    }
}

/// The reason that a job gives for the failure of a step.
pub fn failure_message(step: JobStep, cause: &str) -> (r: String)
    ensures
        r@ == step.failure_prefix() + cause@,
{
    let mut out: Vec<char> = Vec::new();
    match step {
        JobStep::Authenticate => {
            push_str(&mut out, "GitHub auth failed: ");
        },
        JobStep::FetchPullRequest => {
            push_str(&mut out, "Failed to fetch PR: ");
        },
        JobStep::Analyze => {
            push_str(&mut out, "Analysis failed: ");
        },
        JobStep::FetchDiff => {
            push_str(&mut out, "Failed to fetch diff: ");
        },
    }
    push_str(&mut out, cause);
    text_of(out.as_slice())
}

} // verus!
