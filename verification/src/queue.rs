//! The queue of rebuild jobs.

use crate::status::BuildStatus;
use crate::time::{
    at_or_before, elapsed_is_difference, in_leap_second, nanos_between, representable, Elapsed,
    Timestamp,
};
use vstd::prelude::*;

verus! {

/// How urgent a job is.
#[derive(Debug, Clone, Copy, PartialEq, Eq, Structural)]
pub struct Priority(pub i32);

#[derive(Debug)]
pub struct QueueFilter {
    /// If true, only return jobs that have been picked up by a worker (`started_at` is set).
    /// If false or omitted, return all queued jobs.
    pub started: Option<bool>,
}

impl Default for QueueFilter {
    fn default() -> (r: QueueFilter)
        ensures
            r.started is None,
    {
        QueueFilter { started: None }
    }
}

#[derive(Debug)]
pub struct QueueJobRequest {
    pub distribution: Option<String>,
    pub release: Option<String>,
    pub component: Option<String>,
    pub name: Option<String>,
    pub version: Option<String>,
    pub architecture: Option<String>,
    pub status: Option<BuildStatus>,
    pub priority: Option<Priority>,
    /// Reset the current build status to UNKWN immediately so the package appears as pending
    /// rather than retaining the old FAIL/BAD result.
    pub reset: bool,
}

#[derive(Debug)]
pub struct PopQueuedJobRequest {
    pub supported_backends: Vec<String>,
    pub architecture: String,
    pub supported_architectures: Vec<String>,
}

#[derive(Debug, Clone, PartialEq, Eq)]
pub struct QueuedJob {
    pub id: i32,
    pub name: String,
    pub version: String,
    pub distribution: String,
    pub release: Option<String>,
    pub component: Option<String>,
    pub architecture: String,
    pub backend: String,
    pub url: String,
    pub next_retry: Option<Timestamp>,
    pub priority: Priority,
    pub queued_at: Timestamp,
    pub started_at: Option<Timestamp>,
}

#[derive(Debug, Clone, PartialEq, Eq)]
pub struct QueuedJobArtifact {
    pub name: String,
    pub version: String,
    pub architecture: String,
    pub url: String,
}

#[derive(Debug, Clone, PartialEq, Eq)]
pub struct QueuedJobWithArtifacts {
    pub job: QueuedJob,
    pub artifacts: Vec<QueuedJobArtifact>,
}

#[derive(Debug, Clone, PartialEq, Eq)]
pub enum JobAssignment {
    Nothing,
    Rebuild(Box<QueuedJobWithArtifacts>),
}

impl QueuedJob {
    /// A job is due once its retry time has come; one without a retry time always is.
    pub open spec fn due_at(self, now: (int, int)) -> bool {
        match self.next_retry {
            Some(next_retry) => at_or_before(next_retry@, now),
            None => true,
        }
    }

    /// Whether the job may be started now.
    pub fn is_due(&self, now: Timestamp) -> (r: bool)
        ensures
            r == self.due_at(now@),
    {
        match self.next_retry {
            Some(next_retry) => next_retry.at_or_before(&now),
            None => true,
        }
    }

    /// For how long the job has been running, if it has been started.
    pub fn running_since(&self, now: Timestamp) -> (r: Option<Elapsed>)
        ensures
            r is Some <==> self.started_at is Some,
            r matches Some(elapsed) ==> elapsed.wf() && elapsed.total_nanos() == nanos_between(
                now@,
                self.started_at->0@,
            ),
    {
        match self.started_at {
            Some(started_at) => Some(now.since(&started_at)),
            None => None,
        }
    }

    /// A job that is due stays due.
    pub proof fn due_stays_due(self, earlier: (int, int), later: (int, int))
        requires
            at_or_before(earlier, later),
            self.due_at(earlier),
        ensures
            self.due_at(later),
    {
    }
}

/// Outside of leap seconds, a job that is still running has been running for longer, by as
/// much as time has passed.
pub proof fn running_time_grows(started: (int, int), earlier: (int, int), later: (int, int))
    requires
        representable(started.0, started.1),
        representable(earlier.0, earlier.1),
        representable(later.0, later.1),
        !in_leap_second(started),
        !in_leap_second(earlier),
        !in_leap_second(later),
        at_or_before(earlier, later),
    ensures
        nanos_between(later, started) == nanos_between(earlier, started) + nanos_between(
            later,
            earlier,
        ),
        nanos_between(later, started) >= nanos_between(earlier, started),
{
    elapsed_is_difference(later, earlier, started);
}

} // verus!
