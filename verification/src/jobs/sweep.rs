//! The periodic table sweeps, as jobs.
//!
//! Four tables accumulate rows nobody deletes on the way past: spent nonces,
//! audit rows past their retention, expired admin sessions, and settled jobs.
//! A sweep never fails for good, because a retired periodic job does not come
//! back by itself.

use super::{clamp_i64, JobHandler, JobOutcome, JobSpec};
use crate::json::Json;
use crate::level::Level;
use crate::time::{greatest, Duration};
use vstd::prelude::*;
use vstd::string::*;

verus! {

/// Which table a sweep deletes from, and what it needs to know to do it.
#[derive(Debug, Clone, Copy, PartialEq, Eq, Structural)]
pub enum SweepTarget {
    /// Expired nonces.
    Nonces { ttl: Duration },
    /// Audit rows past `audit.retention_days`.
    AuditLog { retention_days: u64 },
    /// Admin sessions past their absolute or idle deadline.
    AdminSessions { idle_timeout: Duration },
    /// Settled job rows past `jobs.retention_days`.
    Jobs { retention_days: u64 },
}

/// One deletion.
#[derive(Debug, Clone, Copy, PartialEq, Eq, Structural)]
pub enum Deletion {
    /// Nonces older than this.
    Nonces { ttl: Duration },
    /// Audit rows from before this instant, in epoch seconds.
    AuditLog { cutoff: i64 },
    /// Admin sessions idle for longer than this, or expired.
    AdminSessions { idle_timeout: Duration },
    /// Settled jobs from before this instant, in epoch seconds.
    Jobs { cutoff: i64 },
}

/// What is logged of a sweep.
#[derive(Debug, Clone, PartialEq, Eq)]
pub struct SweepReport {
    pub level: Level,
    pub event: &'static str,
    /// How many rows went, after a success.
    pub rows_removed: Option<u64>,
    /// The cutoff, where a report names it.
    pub cutoff: Option<i64>,
    /// What went wrong, after a failure.
    pub error: Option<String>,
}

/// The instant so many days before `now`, in epoch seconds.
pub open spec fn days_before(now: i64, days: u64) -> i64 {
    clamp_i64(now - days * 86_400)
}

/// The instant so many days before `now`, in epoch seconds.
pub fn cutoff(now: i64, days: u64) -> (r: i64)
    ensures
        r == days_before(now, days),
{
    let at: i128 = now as i128 - days as i128 * 86_400;
    if at < i64::MIN as i128 {
        i64::MIN
    } else {
        at as i64
    }
}

/// One periodic table sweep.
#[derive(Debug, Clone, Copy, PartialEq, Eq, Structural)]
pub struct SweepJob {
    target: SweepTarget,
    interval: Duration,
}

/// The kind that a sweep of a table runs under.
pub open spec fn sweep_kind(target: SweepTarget) -> Seq<char> {
    match target {
        SweepTarget::Nonces { .. } => "nonce_sweep"@,
        SweepTarget::AuditLog { .. } => "audit_sweep"@,
        SweepTarget::AdminSessions { .. } => "admin_session_sweep"@,
        SweepTarget::Jobs { .. } => "job_retention_sweep"@,
    }
}

/// What a sweep of a table deletes at a given time.
pub open spec fn deletion_at(target: SweepTarget, now: i64) -> Deletion {
    match target {
        SweepTarget::Nonces { ttl } => Deletion::Nonces { ttl },
        SweepTarget::AuditLog { retention_days } => Deletion::AuditLog {
            cutoff: days_before(now, retention_days),
        },
        SweepTarget::AdminSessions { idle_timeout } => Deletion::AdminSessions { idle_timeout },
        SweepTarget::Jobs { retention_days } => Deletion::Jobs {
            cutoff: days_before(now, retention_days),
        },
    }
}

impl SweepJob {
    /// The table that is swept.
    pub closed spec fn table(&self) -> SweepTarget {
        self.target
    }

    /// How often, in nanoseconds.
    pub closed spec fn every(&self) -> nat {
        self.interval@
    }

    /// The expired-nonce sweep.
    ///
    /// Every half lifetime, so that no row outlives one and a half of them, but
    /// not more often than every 30 seconds.
    pub fn nonces(ttl: Duration) -> (r: SweepJob)
        ensures
            r.table() == (SweepTarget::Nonces { ttl }),
            r.every() == greatest(ttl@ / 2, 30_000_000_000),
    {
        SweepJob {
            target: SweepTarget::Nonces { ttl },
            interval: ttl.half().max(Duration::from_secs(30)),
        }
    }

    /// The audit-retention sweep, once a day.
    pub fn audit(retention_days: u64) -> (r: SweepJob)
        ensures
            r.table() == (SweepTarget::AuditLog { retention_days }),
            r.every() == 86_400_000_000_000,
    {
        SweepJob {
            target: SweepTarget::AuditLog { retention_days },
            interval: Duration::from_secs(86_400),
        }
    }

    /// The admin-session sweep: every quarter lifetime of a session, but not
    /// more often than once a minute.
    pub fn admin_sessions(idle_timeout: Duration, ttl_seconds: u64) -> (r: SweepJob)
        ensures
            r.table() == (SweepTarget::AdminSessions { idle_timeout }),
            r.every() == greatest((ttl_seconds / 4) as nat, 60) * 1_000_000_000,
    {
        let quarter: u64 = ttl_seconds / 4;
        let secs: u64 = if quarter > 60 {
            quarter
        } else {
            60
        };
        SweepJob {
            target: SweepTarget::AdminSessions { idle_timeout },
            interval: Duration::from_secs(secs),
        }
    }

    /// The queue's own sweep, once a day.
    pub fn jobs(retention_days: u64) -> (r: SweepJob)
        ensures
            r.table() == (SweepTarget::Jobs { retention_days }),
            r.every() == 86_400_000_000_000,
    {
        SweepJob {
            target: SweepTarget::Jobs { retention_days },
            interval: Duration::from_secs(86_400),
        }
    }

    /// How often this sweep runs.
    pub fn interval(&self) -> (r: Duration)
        ensures
            r@ == self.every(),
    {
        self.interval
    }

    /// What is to be deleted now.
    pub fn deletion(&self, now: i64) -> (r: Deletion)
        ensures
            r == deletion_at(self.table(), now),
    {
        match self.target {
            SweepTarget::Nonces { ttl } => Deletion::Nonces { ttl },
            SweepTarget::AuditLog { retention_days } => Deletion::AuditLog {
                cutoff: cutoff(now, retention_days),
            },
            SweepTarget::AdminSessions { idle_timeout } => Deletion::AdminSessions {
                idle_timeout,
            },
            SweepTarget::Jobs { retention_days } => Deletion::Jobs {
                cutoff: cutoff(now, retention_days),
            },
        }
    }

    /// What is logged once the deletion was tried: what went, or what went
    /// wrong. A successful sweep of the queue itself is not worth a line.
    pub fn sweep(&self, now: i64, deleted: Result<u64, String>) -> (r: Option<SweepReport>)
        ensures
            match (self.table(), deleted) {
                (SweepTarget::Nonces { .. }, Ok(n)) => r matches Some(s) && s.level == Level::Debug
                    && s.event@ == "nonce_reaper_swept"@ && s.rows_removed == Some(n)
                    && s.cutoff is None && s.error is None,
                (SweepTarget::AuditLog { retention_days }, Ok(n)) => r matches Some(s) && s.level
                    == Level::Info && s.event@ == "audit_reaper_swept"@ && s.rows_removed == Some(n)
                    && s.cutoff == Some(days_before(now, retention_days)) && s.error is None,
                (SweepTarget::AdminSessions { .. }, Ok(n)) => r matches Some(s) && s.level
                    == Level::Debug && s.event@ == "admin_session_reaper_swept"@ && s.rows_removed
                    == Some(n) && s.cutoff is None && s.error is None,
                (SweepTarget::Jobs { .. }, Ok(_)) => r is None,
                (target, Err(e)) => r matches Some(s) && s.level == (if target is Jobs {
                    Level::Warn
                } else {
                    Level::Error
                }) && s.event@ == (match target {
                    SweepTarget::Nonces { .. } => "nonce_reaper_failed"@,
                    SweepTarget::AuditLog { .. } => "audit_reaper_failed"@,
                    SweepTarget::AdminSessions { .. } => "admin_session_reaper_failed"@,
                    SweepTarget::Jobs { .. } => "job_retention_sweep_failed"@,
                }) && s.rows_removed is None && s.cutoff is None && s.error == Some(e),
            },
    {
        let (level, event) = match (self.target, &deleted) {
            (SweepTarget::Nonces { .. }, Ok(_)) => (Level::Debug, "nonce_reaper_swept"),
            (SweepTarget::Nonces { .. }, Err(_)) => (Level::Error, "nonce_reaper_failed"),
            (SweepTarget::AuditLog { .. }, Ok(_)) => (Level::Info, "audit_reaper_swept"),
            (SweepTarget::AuditLog { .. }, Err(_)) => (Level::Error, "audit_reaper_failed"),
            (SweepTarget::AdminSessions { .. }, Ok(_)) => (
                Level::Debug,
                "admin_session_reaper_swept",
            ),
            (SweepTarget::AdminSessions { .. }, Err(_)) => (
                Level::Error,
                "admin_session_reaper_failed",
            ),
            (SweepTarget::Jobs { .. }, Ok(_)) => {
                return None;
            },
            (SweepTarget::Jobs { .. }, Err(_)) => (Level::Warn, "job_retention_sweep_failed"),
        };
        match deleted {
            Ok(n) => {
                let at = match self.deletion(now) {
                    Deletion::AuditLog { cutoff } => Some(cutoff),
                    _ => None,
                };
                Some(SweepReport { level, event, rows_removed: Some(n), cutoff: at, error: None })
            },
            Err(e) => Some(
                SweepReport { level, event, rows_removed: None, cutoff: None, error: Some(e) },
            ),
        }
    }

    /// What an attempt ends with, whatever came of the deletion: the next
    /// occurrence. Never a failure, which would stop the sweep for good.
    pub fn run(&self) -> (r: JobOutcome)
        ensures
            r matches JobOutcome::Reschedule(span) && span@ == self.every(),
    {
        JobOutcome::Reschedule(self.interval)
    }

    /// The single occurrence to put back in the queue at startup.
    pub fn recover(&self, now: i64) -> (r: JobSpec)
        ensures
            r.kind@ == self.kind_name(),
            r.key@ == "all"@,
            r.run_at == now,
            r.payload matches Json::Object(members) && members@.len() == 0,
            r.deadline is None,
            r.max_attempts is None,
    {
        JobSpec::now(self.kind(), "all", now)
    }
}

impl JobHandler for SweepJob {
    closed spec fn kind_name(&self) -> Seq<char> {
        sweep_kind(self.target)
    }

    fn kind(&self) -> (r: &'static str) {
        match self.target {
            SweepTarget::Nonces { .. } => "nonce_sweep",
            SweepTarget::AuditLog { .. } => "audit_sweep",
            SweepTarget::AdminSessions { .. } => "admin_session_sweep",
            SweepTarget::Jobs { .. } => "job_retention_sweep",
        }
    }
}

/// A sweep answers for the kind of its table.
pub proof fn a_sweep_answers_for_its_table(job: SweepJob)
    ensures
        job.kind_name() == sweep_kind(job.table()),
{
}

/// Sweeps of different tables run under different kinds, so a registry holds
/// all four side by side.
pub proof fn sweep_kinds_differ(a: SweepTarget, b: SweepTarget)
    requires
        sweep_kind(a) == sweep_kind(b),
    ensures
        a is Nonces <==> b is Nonces,
        a is AuditLog <==> b is AuditLog,
        a is AdminSessions <==> b is AdminSessions,
        a is Jobs <==> b is Jobs,
{
    reveal_strlit("nonce_sweep");
    reveal_strlit("audit_sweep");
    reveal_strlit("admin_session_sweep");
    reveal_strlit("job_retention_sweep");
    let (x, y) = (sweep_kind(a), sweep_kind(b));
    assert(x.len() == y.len() && x[0] == y[0]);
}

/// What a sweep deletes is its own table's: nonces by their lifetime, sessions by
/// their idle time, and the other two by what is older than so many days of 86400
/// seconds.
pub proof fn a_sweep_deletes_from_its_own_table(
    now: i64,
    span: Duration,
    days: u64,
)
    ensures
        deletion_at(SweepTarget::Nonces { ttl: span }, now) == (Deletion::Nonces { ttl: span }),
        deletion_at(SweepTarget::AdminSessions { idle_timeout: span }, now) == (
        Deletion::AdminSessions { idle_timeout: span }),
        deletion_at(SweepTarget::AuditLog { retention_days: days }, now) == (Deletion::AuditLog {
            cutoff: days_before(now, days),
        }),
        deletion_at(SweepTarget::Jobs { retention_days: days }, now) == (Deletion::Jobs {
            cutoff: days_before(now, days),
        }),
        now - days * 86_400 >= i64::MIN ==> days_before(now, days) == now - days * 86_400,
        now - days * 86_400 < i64::MIN ==> days_before(now, days) == i64::MIN,
        days_before(now, 0) == now,
{
}

/// Each table is swept under a kind of its own name.
pub proof fn sweeps_are_named_for_their_tables(span: Duration, days: u64)
    ensures
        sweep_kind(SweepTarget::Nonces { ttl: span }) == "nonce_sweep"@,
        sweep_kind(SweepTarget::AuditLog { retention_days: days }) == "audit_sweep"@,
        sweep_kind(SweepTarget::AdminSessions { idle_timeout: span }) == "admin_session_sweep"@,
        sweep_kind(SweepTarget::Jobs { retention_days: days }) == "job_retention_sweep"@,
{
}

} // verus!
