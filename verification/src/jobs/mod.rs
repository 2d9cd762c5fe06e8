//! The durable job queue: background work that survives the process.
//!
//! The schedule is a row. An attempt that fails writes its next `run_at` and
//! goes back in the queue; a process that dies leaves a lease that expires and a
//! row another runner takes.
//!
//! A job's handler may be run again from scratch, tells a failure that may pass
//! ([`JobOutcome::Retry`]) from one that will not ([`JobOutcome::Failed`]), and
//! is told exactly once, when its job is retired for good.

pub mod registry;
pub mod retention;
pub mod runner;
pub mod sweep;

use crate::ids::{fresh_uuid, uuid_text};
use crate::json::Json;
use crate::text::same;
use crate::time::Duration;
use vstd::multiset::Multiset;
use vstd::prelude::*;
use vstd::string::*;

verus! {

/// How one attempt ended.
#[derive(Debug, PartialEq, Eq)]
pub enum JobOutcome {
    /// Finished. Terminal, and nothing else runs.
    Done,
    /// This attempt failed for a reason that may not recur.
    Retry(String),
    /// This will never succeed. Terminal, and the handler is told.
    Failed(String),
    /// This occurrence is finished; run again after the given delay. The row
    /// stays live, so nothing can queue a second copy.
    Reschedule(Duration),
}

/// The `[jobs]` section.
#[derive(Debug, Clone, Copy, PartialEq, Eq)]
pub struct JobsConfig {
    pub poll_interval_ms: u64,
    pub lease_seconds: u64,
    pub retry_base_seconds: u64,
    pub retry_max_seconds: u64,
    pub max_attempts: u32,
    pub max_concurrent: usize,
    pub retention_days: u64,
}

/// What to queue.
#[derive(Debug, PartialEq, Eq)]
pub struct JobSpec {
    /// Which handler runs it.
    pub kind: String,
    /// The identity of the work within its kind.
    pub key: String,
    /// The identity of the subject, never a snapshot of its state.
    pub payload: Json,
    /// Not before this instant, in epoch seconds.
    pub run_at: i64,
    /// The outer bound on retrying, in epoch seconds.
    pub deadline: Option<i64>,
    /// Overrides `jobs.max_attempts` for this one job.
    pub max_attempts: Option<u32>,
}

/// A sum of epoch seconds that stops at the ends of `i64`.
pub open spec fn clamp_i64(n: int) -> i64 {
    if n > i64::MAX {
        i64::MAX
    } else if n < i64::MIN {
        i64::MIN
    } else {
        n as i64
    }
}

/// An instant with a number of seconds added, stopping at the ends of `i64`.
pub fn later(now: i64, secs: i64) -> (r: i64)
    ensures
        r == clamp_i64(now + secs),
{
    match now.checked_add(secs) {
        Some(n) => n,
        None => if secs > 0 {
            i64::MAX
        } else {
            i64::MIN
        },
    }
}

/// A span in whole seconds, as many as an `i64` holds.
pub open spec fn whole_seconds(span: nat) -> i64 {
    clamp_i64((span / 1_000_000_000) as int)
}

/// A `Duration` as whole seconds, saturating. Schedules are epoch seconds, and
/// every span that enters one goes through here.
pub fn seconds(duration: Duration) -> (r: i64)
    ensures
        r == whole_seconds(duration@),
{
    let secs: u64 = duration.as_secs();
    if secs > 0x7fff_ffff_ffff_ffff {
        i64::MAX
    } else {
        secs as i64
    }
}

impl JobSpec {
    /// A job to run as soon as the runner can take it.
    pub fn now(kind: &str, key: &str, now: i64) -> (r: JobSpec)
        ensures
            r.kind@ == kind@,
            r.key@ == key@,
            r.payload matches Json::Object(members) && members@.len() == 0,
            r.run_at == now,
            r.deadline is None,
            r.max_attempts is None,
    {
        JobSpec {
            kind: kind.to_owned(),
            key: key.to_owned(),
            payload: Json::Object(Vec::new()),
            run_at: now,
            deadline: None,
            max_attempts: None,
        }
    }

    pub fn with_payload(self, payload: Json) -> (r: JobSpec)
        ensures
            r == (JobSpec { payload, ..self }),
    {
        JobSpec {
            kind: self.kind,
            key: self.key,
            payload,
            run_at: self.run_at,
            deadline: self.deadline,
            max_attempts: self.max_attempts,
        }
    }

    pub fn with_deadline(self, deadline: Option<i64>) -> (r: JobSpec)
        ensures
            r == (JobSpec { deadline, ..self }),
    {
        JobSpec {
            kind: self.kind,
            key: self.key,
            payload: self.payload,
            run_at: self.run_at,
            deadline,
            max_attempts: self.max_attempts,
        }
    }

    /// Not before `delay` has passed.
    pub fn with_delay(self, delay: Duration, now: i64) -> (r: JobSpec)
        ensures
            r == (JobSpec { run_at: clamp_i64(now + whole_seconds(delay@)), ..self }),
    {
        JobSpec {
            kind: self.kind,
            key: self.key,
            payload: self.payload,
            run_at: later(now, seconds(delay)),
            deadline: self.deadline,
            max_attempts: self.max_attempts,
        }
    }
}

/// One row of the queue, as a runner that claimed it sees it.
#[derive(Debug, PartialEq, Eq)]
pub struct Job {
    pub id: String,
    pub kind: String,
    pub key: String,
    pub payload: Json,
    /// How often it was claimed, this time included.
    pub attempts: i64,
    pub max_attempts: i64,
    pub deadline: Option<i64>,
}

/// One kind of background work.
pub trait JobHandler {
    /// The `jobs.kind` this handler answers for.
    spec fn kind_name(&self) -> Seq<char>;

    /// The `jobs.kind` this handler answers for.
    fn kind(&self) -> (r: &'static str)
        ensures
            r@ == self.kind_name(),
    ;

    /// How long one attempt may take; `None` takes `jobs.lease_seconds`, and so
    /// does a handler that does not say. It is asked when the handler is
    /// registered.
    fn lease(&self) -> (r: Option<Duration>)
        default_ensures
            r is None,
    {
        None
    }
}

/// A handler made of its kind, its budget and the work it does.
#[derive(Debug, Clone, Copy, PartialEq, Eq)]
pub struct Handler<T> {
    pub kind: &'static str,
    pub lease: Option<Duration>,
    pub work: T,
}

impl<T> JobHandler for Handler<T> {
    open spec fn kind_name(&self) -> Seq<char> {
        self.kind@
    }

    fn kind(&self) -> (r: &'static str) {
        self.kind
    }

    fn lease(&self) -> (r: Option<Duration>)
        ensures
            r == self.lease,
    {
        self.lease
    }
}

/// A row to write for a job that was asked for.
#[derive(Debug, PartialEq, Eq)]
pub struct NewJob {
    pub id: String,
    pub kind: String,
    pub key: String,
    pub payload: Json,
    pub run_at: i64,
    pub deadline: Option<i64>,
    pub max_attempts: i64,
}

/// What tells one piece of work from another: its kind, and its key within it.
pub type Identity = (Seq<char>, Seq<char>);

/// The identities of rows, given by their kinds and keys.
pub open spec fn identities(rows: Seq<(String, String)>) -> Seq<Identity> {
    rows.map_values(|row: (String, String)| (row.0@, row.1@))
}

/// Whether no live row holds an identity.
pub open spec fn free_in(live: Multiset<Identity>, identity: Identity) -> bool {
    live.count(identity) == 0
}

/// What happens to the queue.
pub enum QueueStep {
    /// A job of this identity is asked for.
    Enqueue(Identity),
    /// A live row of this identity is settled.
    Settle(Identity),
}

/// The identities of the live rows after a step: a row is added for an identity
/// that no live row holds, and for no other.
pub open spec fn after_step(live: Multiset<Identity>, step: QueueStep) -> Multiset<Identity> {
    match step {
        QueueStep::Enqueue(identity) => if free_in(live, identity) {
            live.insert(identity)
        } else {
            live
        },
        QueueStep::Settle(identity) => live.remove(identity),
    }
}

/// The identities of the live rows after several steps.
pub open spec fn after_steps(live: Multiset<Identity>, steps: Seq<QueueStep>) -> Multiset<Identity>
    decreases steps.len(),
{
    if steps.len() == 0 {
        live
    } else {
        after_step(after_steps(live, steps.drop_last()), steps.last())
    }
}

/// At most one live row holds an identity, whatever happens to the queue.
pub proof fn an_identity_is_live_once(steps: Seq<QueueStep>, identity: Identity)
    ensures
        after_steps(Multiset::empty(), steps).count(identity) <= 1,
    decreases steps.len(),
{
    if steps.len() > 0 {
        an_identity_is_live_once(steps.drop_last(), identity);
    }
}

/// Of two requests for one identity with no settlement of it between them, the
/// second is refused and changes nothing.
pub proof fn a_second_request_is_refused(
    live: Multiset<Identity>,
    identity: Identity,
    between: Seq<QueueStep>,
)
    requires
        forall|i: int|
            0 <= i < between.len() ==> (#[trigger] between[i]) != QueueStep::Settle(identity),
    ensures
        ({
            let first = after_step(live, QueueStep::Enqueue(identity));
            let later = after_steps(first, between);
            &&& !free_in(later, identity)
            &&& after_step(later, QueueStep::Enqueue(identity)) == later
        }),
    decreases between.len(),
{
    if between.len() > 0 {
        let rest = between.drop_last();
        assert forall|i: int| 0 <= i < rest.len() implies (#[trigger] rest[i])
            != QueueStep::Settle(identity) by {
            assert(rest[i] == between[i]);
        }
        a_second_request_is_refused(live, identity, rest);
        assert(between.last() != QueueStep::Settle(identity));
    }
}

/// The enqueue side of the queue.
#[derive(Debug, Clone, Copy, PartialEq, Eq)]
pub struct JobQueue {
    pub default_max_attempts: u32,
}

impl JobQueue {
    /// Whether a row is the one for a job, whatever its id. Its attempts are its
    /// own, or else the configured ones.
    pub open spec fn writes(&self, row: NewJob, spec: JobSpec) -> bool {
        &&& row.kind == spec.kind
        &&& row.key == spec.key
        &&& row.payload == spec.payload
        &&& row.run_at == spec.run_at
        &&& row.deadline == spec.deadline
        &&& row.max_attempts == match spec.max_attempts {
            Some(n) => n as i64,
            None => self.default_max_attempts as i64,
        }
    }

    pub fn new(config: &JobsConfig) -> (r: JobQueue)
        ensures
            r.default_max_attempts == config.max_attempts,
    {
        JobQueue { default_max_attempts: config.max_attempts }
    }

    /// The row for one job, under the given id.
    pub fn row(&self, id: String, spec: JobSpec) -> (r: NewJob)
        ensures
            r.id == id,
            self.writes(r, spec),
    {
        let max_attempts: i64 = match spec.max_attempts {
            Some(n) => n as i64,
            None => self.default_max_attempts as i64,
        };
        NewJob {
            id,
            kind: spec.kind,
            key: spec.key,
            payload: spec.payload,
            run_at: spec.run_at,
            deadline: spec.deadline,
            max_attempts,
        }
    }

    /// The row for one job, under an id of its own.
    pub fn enqueue(&self, spec: JobSpec) -> (r: NewJob)
        ensures
            uuid_text(r.id@),
            self.writes(r, spec),
    {
        self.row(fresh_uuid(), spec)
    }

    /// Whether a job may be queued beside the live rows, given by their kinds and
    /// keys: none of them holds its identity.
    pub fn admits(live: &Vec<(String, String)>, spec: &JobSpec) -> (r: bool)
        ensures
            r == !identities(live@).contains((spec.kind@, spec.key@)),
            r == free_in(identities(live@).to_multiset(), (spec.kind@, spec.key@)),
    {
        let ghost held = identities(live@);
        let mut i: usize = 0;
        while i < live.len()
            invariant
                i <= live@.len(),
                held == identities(live@),
                forall|j: int| 0 <= j < i ==> held[j] != (spec.kind@, spec.key@),
            decreases live@.len() - i,
        {
            if same(live[i].0.as_str(), spec.kind.as_str()) && same(
                live[i].1.as_str(),
                spec.key.as_str(),
            ) {
                assert(held[i as int] == (spec.kind@, spec.key@));
                proof {
                    held.to_multiset_ensures();
                }
                return false;
            }
            i += 1;
        }
        proof {
            held.to_multiset_ensures();
        }
        true
    }

    /// The row to write for a job beside the live rows; none where one of them
    /// already holds its identity.
    pub fn offer(&self, live: &Vec<(String, String)>, spec: JobSpec) -> (r: Option<NewJob>)
        ensures
            match r {
                Some(row) => {
                    &&& free_in(identities(live@).to_multiset(), (spec.kind@, spec.key@))
                    &&& uuid_text(row.id@)
                    &&& self.writes(row, spec)
                },
                None => !free_in(identities(live@).to_multiset(), (spec.kind@, spec.key@)),
            },
    {
        if JobQueue::admits(live, &spec) {
            Some(self.enqueue(spec))
        } else {
            None
        }
    }

    /// Whether the runner is to be woken: a row was written. `Ok(false)` means
    /// that a live job already holds this kind and key.
    pub fn wakes(written: &Result<bool, String>) -> (r: bool)
        ensures
            r == (*written matches Ok(queued) && queued),
    {
        match written {
            Ok(queued) => *queued,
            Err(_) => false,
        }
    }

    /// Whether a job was queued, for the callers with nowhere to report a
    /// database failure.
    pub fn enqueue_or_log(written: Result<bool, String>) -> (r: bool)
        ensures
            r == (written matches Ok(queued) && queued),
    {
        JobQueue::wakes(&written)
    }
}

/// An instant is exact wherever an `i64` holds it, and stops at the nearer end
/// elsewhere.
pub proof fn an_instant_stops_at_the_ends(n: int)
    ensures
        i64::MIN <= n <= i64::MAX ==> clamp_i64(n) == n,
        n > i64::MAX ==> clamp_i64(n) == 0x7fff_ffff_ffff_ffff,
        n < i64::MIN ==> clamp_i64(n) == -0x8000_0000_0000_0000,
{
}

/// A span is counted in whole seconds of a billion nanoseconds, and what is left
/// over is dropped.
pub proof fn a_span_is_counted_in_whole_seconds(secs: nat, rest: nat)
    requires
        rest < 1_000_000_000,
    ensures
        secs <= i64::MAX ==> whole_seconds(secs * 1_000_000_000 + rest) == secs,
        secs > i64::MAX ==> whole_seconds(secs * 1_000_000_000 + rest) == i64::MAX,
{
    assert((secs * 1_000_000_000 + rest) / 1_000_000_000 == secs);
}

/// The row of a job is the job: its kind, key, payload, time and deadline
/// unchanged, and its attempts its own or else the configured ones.
pub proof fn a_row_is_the_job_it_is_for(queue: JobQueue, row: NewJob, spec: JobSpec)
    requires
        queue.writes(row, spec),
    ensures
        row.kind@ == spec.kind@,
        row.key@ == spec.key@,
        row.payload == spec.payload,
        row.run_at == spec.run_at,
        row.deadline == spec.deadline,
        spec.max_attempts matches Some(n) ==> row.max_attempts == n,
        spec.max_attempts is None ==> row.max_attempts == queue.default_max_attempts,
{
}

/// An identity is free exactly when no live row holds it, by kind and by key.
pub proof fn an_identity_is_kind_and_key(rows: Seq<(String, String)>, kind: Seq<char>, key: Seq<char>)
    ensures
        free_in(identities(rows).to_multiset(), (kind, key)) <==> forall|i: int|
            0 <= i < rows.len() ==> !((#[trigger] rows[i]).0@ == kind && rows[i].1@ == key),
{
    let held = identities(rows);
    held.to_multiset_ensures();
    if held.contains((kind, key)) {
        let i = choose|i: int| 0 <= i < held.len() && held[i] == (kind, key);
        assert(rows[i].0@ == kind && rows[i].1@ == key);
    }
    if exists|i: int| 0 <= i < rows.len() && (#[trigger] rows[i]).0@ == kind && rows[i].1@ == key {
        let i = choose|i: int|
            0 <= i < rows.len() && (#[trigger] rows[i]).0@ == kind && rows[i].1@ == key;
        assert(held[i] == (kind, key));
    }
}

} // verus!
