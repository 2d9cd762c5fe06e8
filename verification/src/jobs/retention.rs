//! The queue's own housekeeping: deleting settled rows once they are old.

use super::sweep::{cutoff, days_before};
use super::{JobHandler, JobOutcome, JobSpec};
use crate::json::Json;
use crate::time::Duration;
use vstd::prelude::*;

verus! {

/// Deletes settled job rows older than `retention_days`.
#[derive(Debug, Clone, Copy, PartialEq, Eq, Structural)]
pub struct JobRetention {
    pub retention_days: u64,
}

impl JobRetention {
    pub fn new(retention_days: u64) -> (r: JobRetention)
        ensures
            r.retention_days == retention_days,
    {
        JobRetention { retention_days }
    }

    /// Settled rows from before this instant go, in epoch seconds.
    pub fn cutoff(&self, now: i64) -> (r: i64)
        ensures
            r == days_before(now, self.retention_days),
    {
        cutoff(now, self.retention_days)
    }

    /// What an attempt ends with, whatever came of the deletion: the next one,
    /// a day later. Never a failure, which would stop the sweep for good.
    pub fn run(&self) -> (r: JobOutcome)
        ensures
            r matches JobOutcome::Reschedule(span) && span@ == 86_400_000_000_000,
    {
        JobOutcome::Reschedule(Duration::from_secs(86_400))
    }

    /// The single occurrence to put back in the queue at startup.
    pub fn recover(&self, now: i64) -> (r: JobSpec)
        ensures
            r.kind@ == "job_retention_sweep"@,
            r.key@ == "all"@,
            r.run_at == now,
            r.payload matches Json::Object(members) && members@.len() == 0,
            r.deadline is None,
            r.max_attempts is None,
    {
        JobSpec::now(self.kind(), "all", now)
    }
}

impl JobHandler for JobRetention {
    open spec fn kind_name(&self) -> Seq<char> {
        "job_retention_sweep"@
    }

    fn kind(&self) -> (r: &'static str) {
        "job_retention_sweep"
    }
}

} // verus!
