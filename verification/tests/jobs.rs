use acme_proxy::jobs::registry::JobRegistry;
use acme_proxy::jobs::retention::JobRetention;
use acme_proxy::jobs::runner::{
    attempt_budget, attempt_outcome, backoff, backoff_drawn, drain_begins, lease_until, on_claim,
    on_slot, report_settlement, retire, retired_unrun, run_one, settle_after, AttemptEnd, Claimed,
    resized, surplus, unknown_kind, Drain, Permits, RunLoop, RunnerConfig, Settlement, Wake,
};
use acme_proxy::jobs::sweep::{cutoff, Deletion, SweepJob};
use acme_proxy::jobs::{
    later, seconds, Handler, Job, JobHandler, JobOutcome, JobQueue, JobSpec, JobsConfig,
};
use acme_proxy::json::Json;
use acme_proxy::level::Level;
use acme_proxy::pool::Slot;
use acme_proxy::time::Duration;

#[test]
fn seconds_saturates_rather_than_wrapping() {
    assert_eq!(seconds(Duration::from_secs(90)), 90);
    assert_eq!(seconds(Duration::longest()), i64::MAX);
}

#[test]
fn an_instant_stops_at_the_ends() {
    assert_eq!(later(10, 5), 15);
    assert_eq!(later(i64::MAX, 1), i64::MAX);
    assert_eq!(later(i64::MIN, -1), i64::MIN);
}

// ----------------------------------------------------------------- registry

fn stub(kind: &'static str) -> Handler<()> {
    Handler {
        kind,
        lease: None,
        work: (),
    }
}

#[test]
fn a_registry_reports_its_kinds_and_resolves_them() {
    let mut registry = JobRegistry::new();
    assert!(registry.is_empty());
    registry.register(stub("relay")).unwrap();
    registry.register(stub("sweep")).unwrap();

    assert_eq!(registry.kinds(), vec!["relay", "sweep"]);
    assert!(registry.get("relay").is_some());
    assert!(registry.get("nothing-registered").is_none());
    assert_eq!(registry.handlers().len(), 2);
    assert!(!registry.is_empty());
}

#[test]
fn a_second_handler_for_one_kind_is_a_startup_error() {
    let mut registry = JobRegistry::new();
    registry.register(stub("relay")).unwrap();
    let error = registry
        .register(stub("relay"))
        .expect_err("a duplicate kind must not be accepted");
    assert!(
        error.contains("kind `relay`"),
        "the error must name the kind: {error}"
    );
    assert_eq!(registry.kinds(), vec!["relay"]);
}

#[test]
fn kinds_come_in_ascending_order() {
    let mut registry = JobRegistry::new();
    for kind in ["b", "a", "ab", "c"] {
        registry.register(stub(kind)).unwrap();
    }
    assert_eq!(registry.kinds(), vec!["a", "ab", "b", "c"]);
    let handlers: Vec<&str> = registry.handlers().iter().map(|h| h.kind()).collect();
    assert_eq!(handlers, vec!["a", "ab", "b", "c"]);
}

// -------------------------------------------------------------------- queue

fn config() -> JobsConfig {
    JobsConfig {
        poll_interval_ms: 1_000,
        lease_seconds: 300,
        retry_base_seconds: 30,
        retry_max_seconds: 3_600,
        max_attempts: 5,
        max_concurrent: 4,
        retention_days: 7,
    }
}

#[test]
fn a_spec_becomes_a_row_with_its_own_id() {
    let queue = JobQueue::new(&config());
    let spec = JobSpec::now("k", "key", 100)
        .with_payload(Json::Text("p".to_string()))
        .with_deadline(Some(500))
        .with_delay(Duration::from_secs(20), 100);
    let row = queue.enqueue(spec);
    assert_eq!(row.id.len(), 36);
    assert_eq!((row.kind.as_str(), row.key.as_str()), ("k", "key"));
    assert_eq!(row.payload, Json::Text("p".to_string()));
    assert_eq!((row.run_at, row.deadline, row.max_attempts), (120, Some(500), 5));

    let own = JobSpec {
        max_attempts: Some(2),
        ..JobSpec::now("k", "key", 0)
    };
    assert_eq!(own.payload, Json::Object(vec![]));
    let row = queue.row("id".to_string(), own);
    assert_eq!((row.id.as_str(), row.max_attempts), ("id", 2));

    let another = queue.enqueue(JobSpec::now("k", "key", 0));
    let yet_another = queue.enqueue(JobSpec::now("k", "key", 0));
    assert_ne!(another.id, yet_another.id);
}

#[test]
fn only_a_written_row_wakes_the_runner() {
    assert!(JobQueue::wakes(&Ok(true)));
    assert!(!JobQueue::wakes(&Ok(false)));
    assert!(!JobQueue::wakes(&Err("locked".to_string())));
    assert!(!JobQueue::enqueue_or_log(Err("locked".to_string())));
    assert!(JobQueue::enqueue_or_log(Ok(true)));
}

// ------------------------------------------------------------------ backoff

#[test]
fn backoff_doubles_from_the_base_and_stops_at_the_ceiling() {
    let base = Duration::from_secs(30);
    let max = Duration::from_secs(3_600);

    for (attempts, centre) in [(1_i64, 30_u64), (2, 60), (3, 120), (4, 240), (5, 480)] {
        let delay = backoff(attempts, base, max).as_secs();
        assert!(
            delay >= centre * 3 / 4 && delay <= centre,
            "attempt {attempts}: {delay}s is outside the jitter window below {centre}s"
        );
    }
}

#[test]
fn backoff_never_exceeds_the_ceiling_however_many_attempts_have_gone() {
    let base = Duration::from_secs(30);
    let max = Duration::from_secs(3_600);

    for attempts in [1_i64, 5, 10, 20, 40, 1_000, i64::MAX] {
        let delay = backoff(attempts, base, max);
        assert!(
            delay <= max,
            "attempt {attempts}: {delay:?} is past the ceiling {max:?}"
        );
    }
    assert!(backoff(20, base, max).as_secs() >= 2_700);
}

#[test]
fn backoff_of_zero_stays_zero_rather_than_dividing_by_it() {
    assert_eq!(
        backoff(1, Duration::zero(), Duration::zero()),
        Duration::zero(),
        "a zero base is what the tests use to retry immediately"
    );
}

#[test]
fn backoff_treats_a_zeroth_attempt_as_the_first() {
    let delay = backoff(0, Duration::from_secs(30), Duration::from_secs(3_600));
    assert!(delay.as_secs() >= 22 && delay.as_secs() <= 30);
}

#[test]
fn backoff_draws_are_taken_off() {
    let base = Duration::from_secs(30);
    let max = Duration::from_secs(3_600);
    let drawn = |attempts, draw| backoff_drawn(attempts, base, max, draw).as_millis();
    assert_eq!(drawn(1, None), 30_000);
    assert_eq!(drawn(1, Some(0)), 30_000);
    assert_eq!(drawn(1, Some(7_499)), 22_501);
    assert_eq!(drawn(1, Some(7_500)), 30_000);
    assert_eq!(drawn(3, Some(1)), 119_999);
    assert_eq!(drawn(i64::MIN, Some(1)), 29_999);
    assert_eq!(drawn(33, None), 3_600_000);
    let long = Duration::longest();
    assert_eq!(backoff_drawn(33, long, long, None), long);
    let tiny = Duration::from_millis(3);
    assert_eq!(backoff_drawn(1, tiny, max, Some(1)), tiny);
}

#[test]
fn jitter_spreads_a_backlog() {
    let base = Duration::from_secs(3_600);
    let drawn: Vec<u128> = (0..20).map(|_| backoff(1, base, base).as_millis()).collect();
    assert!(drawn.iter().any(|delay| *delay != drawn[0]));
}

// ------------------------------------------------------------------- pacing

#[test]
fn the_pool_is_clamped() {
    let pacing = |max_concurrent| {
        RunnerConfig::from_config(&JobsConfig {
            max_concurrent,
            ..config()
        })
        .max_concurrent
    };
    assert_eq!(pacing(0), 1);
    assert_eq!(pacing(4), 4);
    assert_eq!(pacing(usize::MAX), usize::MAX >> 3);
    let derived = RunnerConfig::from_config(&config());
    assert_eq!(derived.poll_interval, Duration::from_millis(1_000));
    assert_eq!(derived.lease, Duration::from_secs(300));
    assert_eq!(derived.retry_base, Duration::from_secs(30));
    assert_eq!(derived.retry_max, Duration::from_secs(3_600));
}

#[test]
fn resize_grows_at_once_and_shrinks_as_slots_come_back() {
    let mut permits = Permits::new(2);

    permits.resize(5);
    assert_eq!(permits.capacity(), 5);
    assert_eq!(permits.available(), 5);

    // Every slot busy: a shrink has nothing to take yet.
    let mut held: Vec<Slot> = (0..5).map(|_| permits.take_slot(5)).collect();
    assert!(held.iter().all(|slot| matches!(slot, Slot::Taken(_))));
    permits.resize(1);
    assert_eq!(
        permits.capacity(),
        5,
        "a shrink must not pretend to have taken back a slot somebody is using",
    );

    // Two jobs finish; the next pass reclaims exactly those two.
    held.truncate(3);
    permits.resize(1);
    assert_eq!(permits.capacity(), 3, "it converges by whatever came back");
    assert_eq!(permits.available(), 0);

    // The rest finish: the pool finally reaches the configured size.
    drop(held);
    permits.resize(1);
    assert_eq!(permits.capacity(), 1);
    assert_eq!(permits.available(), 1);
}

#[test]
fn a_full_pool_gives_no_slot_and_a_stop_waits_for_all() {
    let mut permits = Permits::new(2);
    let first = permits.take_slot(2);
    let second = permits.take_slot(2);
    assert!(matches!(first, Slot::Taken(_)));
    assert!(matches!(second, Slot::Taken(_)));
    assert!(matches!(permits.take_slot(2), Slot::Full));

    assert!(matches!(permits.take_slot(1), Slot::Full));
    assert_eq!(permits.stop_permits(), 2, "both slots are still out");
    drop(first);
    assert!(!permits.drained(permits.available()));
    drop(second);
    assert!(permits.drained(permits.available()));
    assert_eq!(Permits::new(0).stop_permits(), 1);
    assert!(matches!(Permits::new(0).take_slot(0), Slot::Full));
}

#[test]
fn a_shrink_ends_at_what_was_taken_back() {
    assert_eq!(resized(2, 5, 0), 5);
    assert_eq!(resized(5, 1, 0), 5);
    assert_eq!(resized(5, 1, 2), 3);
    assert_eq!(resized(5, 1, 4), 1);
    assert_eq!(resized(3, 3, 0), 3);
    assert_eq!(surplus(5, 1), 4);
    assert_eq!(surplus(2, 5), 0);
}

#[test]
fn a_lease_outlasts_the_longest_attempt() {
    let pacing = RunnerConfig::from_config(&config());
    let mut registry = JobRegistry::new();
    assert_eq!(registry.longest_lease(), Duration::zero());
    registry.register(stub("sweep")).unwrap();
    registry
        .register(Handler {
            lease: Some(Duration::from_secs(1_000)),
            ..stub("relay")
        })
        .unwrap();
    registry
        .register(Handler {
            lease: Some(Duration::from_secs(7)),
            ..stub("brief")
        })
        .unwrap();
    assert_eq!(registry.lease("relay"), Some(Duration::from_secs(1_000)));
    assert_eq!(registry.lease("sweep"), None);
    assert_eq!(registry.lease("nobody"), None);
    let longest = registry.longest_lease();
    assert_eq!(longest, Duration::from_secs(1_000));
    assert_eq!(lease_until(&pacing, longest, 1_000), 2_030);
    assert_eq!(lease_until(&pacing, Duration::longest(), 1_000), i64::MAX);
}

#[test]
fn enqueue_reports_whether_it_took_the_identity() {
    let queue = JobQueue::new(&config());
    let mut live = Vec::new();
    let mut enqueue = |key: &str| match queue.offer(&live, JobSpec::now("test", key, 0)) {
        Some(row) => {
            live.push((row.kind, row.key));
            true
        }
        None => false,
    };
    assert!(enqueue("k"));
    assert!(
        !enqueue("k"),
        "a second live job for one key is refused, not duplicated"
    );
    assert!(enqueue("other"));
    let held = vec![("test".to_string(), "k".to_string())];
    assert!(!JobQueue::admits(&held, &JobSpec::now("test", "k", 0)));
    assert!(JobQueue::admits(&held, &JobSpec::now("k", "test", 0)));
}

#[test]
fn a_slot_comes_before_a_claim() {
    let mut permits = Permits::new(1);
    let taken = permits.take_slot(1);
    assert_eq!(on_slot(&taken), Drain::Claim);
    assert_eq!(on_slot(&permits.take_slot(1)), Drain::Stop { saturated: true });
    assert_eq!(on_slot(&Slot::Closed), Drain::Stop { saturated: false });
    assert!(!drain_begins(&vec![]));
    assert!(drain_begins(&vec!["k".to_string()]));
}

fn names(values: &[&str]) -> Vec<String> {
    values.iter().map(|v| (*v).to_string()).collect()
}

#[test]
fn each_kind_recovers_once() {
    let pacing = RunnerConfig::from_config(&config());
    let first = RunLoop::first_pass(&names(&["a", "b"]));
    assert_eq!(first.recover, names(&["a", "b"]));
    assert!(!first.retuned);
    let mut run = RunLoop::start(&names(&["a", "b"]), pacing);
    let pass = run.begin_pass(&names(&["a", "b"]), pacing);
    assert!(pass.recover.is_empty());
    assert!(!pass.retuned);

    let slower = RunnerConfig {
        poll_interval: Duration::from_secs(9),
        ..pacing
    };
    let pass = run.begin_pass(&names(&["b", "c", "d"]), slower);
    assert_eq!(pass.recover, names(&["c", "d"]));
    assert!(pass.retuned);
    assert_eq!(run.config(), slower);

    let pass = run.begin_pass(&names(&["a", "d"]), slower);
    assert!(pass.recover.is_empty(), "a kind that comes back is not new");
    assert!(!pass.retuned);

    let idle = run.idle(true, false, true);
    assert_eq!(idle.poll_interval, Duration::from_secs(9));
    assert!(idle.permit && !idle.registry && idle.config);
}

#[test]
fn only_a_shutdown_ends_the_loop() {
    for wake in [
        Wake::Notified,
        Wake::Elapsed,
        Wake::PermitFree,
        Wake::RegistryChanged,
        Wake::ConfigChanged,
    ] {
        assert!(RunLoop::goes_on(wake, false));
        assert!(!RunLoop::goes_on(wake, true));
    }
    assert!(!RunLoop::goes_on(Wake::ShutdownChanged, false));
}

// ------------------------------------------------------------------- claims

fn job(attempts: i64, max_attempts: i64, deadline: Option<i64>) -> Job {
    Job {
        id: "job-1".to_string(),
        kind: "relay".to_string(),
        key: "k".to_string(),
        payload: Json::Null,
        attempts,
        max_attempts,
        deadline,
    }
}

#[test]
fn a_claim_runs_within_the_handlers_budget() {
    let pacing = RunnerConfig::from_config(&config());
    let mut registry = JobRegistry::new();
    registry
        .register(Handler {
            lease: Some(Duration::from_secs(7)),
            ..stub("relay")
        })
        .unwrap();
    match on_claim(Ok(Some(job(1, 5, None))), &registry, &pacing) {
        Claimed::Start { job, budget, retry } => {
            assert_eq!(job.id, "job-1");
            assert_eq!(budget, Duration::from_secs(7));
            assert_eq!(retry, (Duration::from_secs(30), Duration::from_secs(3_600)));
        }
        other => panic!("{other:?}"),
    }
    let mut stray = job(1, 5, None);
    stray.kind = "nobody".to_string();
    assert!(matches!(
        on_claim(Ok(Some(stray)), &registry, &pacing),
        Claimed::Unknown(_)
    ));
    assert_eq!(on_claim(Ok(None), &registry, &pacing), Claimed::Nothing);
    assert_eq!(
        on_claim(Err("locked".to_string()), &registry, &pacing),
        Claimed::Nothing
    );
    assert_eq!(attempt_budget(None, &pacing), Duration::from_secs(300));
    assert_eq!(lease_until(&pacing, registry.longest_lease(), 1_000), 1_330);
}

// ----------------------------------------------------------------- attempts

#[test]
fn a_panic_a_cancellation_and_a_timeout_are_retried() {
    let budget = Duration::from_millis(1_900);
    assert_eq!(
        attempt_outcome(AttemptEnd::Finished(JobOutcome::Done), budget),
        JobOutcome::Done
    );
    assert_eq!(
        attempt_outcome(AttemptEnd::Panicked, budget),
        JobOutcome::Retry("the handler panicked".to_string())
    );
    assert_eq!(
        attempt_outcome(AttemptEnd::Cancelled, budget),
        JobOutcome::Retry("the attempt was cancelled".to_string())
    );
    assert_eq!(
        attempt_outcome(AttemptEnd::TimedOut, budget),
        JobOutcome::Retry("the attempt timed out after 1s".to_string())
    );
}

fn retry_later() -> JobOutcome {
    JobOutcome::Retry("503".to_string())
}

#[test]
fn a_job_is_settled_by_its_outcome() {
    let minute = Duration::from_secs(60);
    let settle = |job: &Job, outcome| settle_after(job, outcome, 1_000, minute);

    assert_eq!(settle(&job(1, 5, None), JobOutcome::Done), Settlement::Complete);
    assert_eq!(
        settle(&job(1, 5, None), JobOutcome::Reschedule(Duration::from_secs(10))),
        Settlement::Reschedule { run_at: 1_010 }
    );
    assert_eq!(
        settle(&job(1, 5, None), JobOutcome::Failed("no".to_string())),
        Settlement::Abandon {
            reason: "no".to_string()
        }
    );
    assert_eq!(
        settle(&job(1, 5, None), retry_later()),
        Settlement::Retry {
            run_at: 1_060,
            reason: "503".to_string()
        }
    );
    assert_eq!(
        settle(&job(5, 5, None), retry_later()),
        Settlement::Abandon {
            reason: "503 (no attempts left after 5)".to_string()
        }
    );
    assert_eq!(
        settle(&job(1, 5, Some(1_060)), retry_later()),
        Settlement::Retry {
            run_at: 1_060,
            reason: "503".to_string()
        }
    );
    assert_eq!(
        settle(&job(1, 5, Some(1_059)), retry_later()),
        Settlement::Abandon {
            reason: "503 (the next attempt would fall past the deadline)".to_string()
        }
    );
}

#[test]
fn a_job_claimed_past_its_deadline_is_retired_without_running() {
    assert_eq!(
        retired_unrun(&job(1, 5, Some(999)), 1_000),
        Some(Settlement::Abandon {
            reason: "the job's deadline passed".to_string()
        })
    );
    assert_eq!(retired_unrun(&job(1, 5, Some(1_000)), 1_000), None);
    assert_eq!(retired_unrun(&job(1, 5, None), 1_000), None);
}

#[test]
fn a_settled_attempt_backs_off() {
    let retry = (Duration::from_secs(30), Duration::from_secs(3_600));
    for attempts in 1..4 {
        match run_one(&job(attempts, 5, None), retry_later(), 0, retry) {
            Settlement::Retry { run_at, reason } => {
                let centre = 30 << (attempts - 1);
                assert!(run_at <= centre && run_at >= centre * 3 / 4 - 1, "{run_at}");
                assert_eq!(reason, "503");
            }
            other => panic!("{other:?}"),
        }
    }
    assert_eq!(
        run_one(&job(1, 5, None), JobOutcome::Done, 0, retry),
        Settlement::Complete
    );
}

#[test]
fn a_handler_is_told_of_a_retirement_that_landed_and_of_nothing_else() {
    let abandon = Settlement::Abandon {
        reason: "why".to_string(),
    };
    let again = Settlement::Retry {
        run_at: 1,
        reason: "why".to_string(),
    };
    assert_eq!(retire(&abandon, &Ok(true)), Some("why"));
    assert_eq!(retire(&abandon, &Ok(false)), None);
    assert_eq!(retire(&abandon, &Err("locked".to_string())), None);
    assert_eq!(retire(&again, &Ok(true)), None);
    assert_eq!(retire(&Settlement::Complete, &Ok(true)), None);
    assert!(report_settlement(&Ok(true)));
    assert!(!report_settlement(&Ok(false)));
    assert!(!report_settlement(&Err("locked".to_string())));
}

// ------------------------------------------------------------------- sweeps

#[test]
fn each_target_answers_its_own_kind() {
    let kinds = [
        SweepJob::nonces(Duration::from_secs(300)).kind(),
        SweepJob::audit(7).kind(),
        SweepJob::admin_sessions(Duration::from_secs(3600), 43200).kind(),
        SweepJob::jobs(7).kind(),
    ];
    assert_eq!(
        kinds,
        ["nonce_sweep", "audit_sweep", "admin_session_sweep", "job_retention_sweep"]
    );
}

#[test]
fn the_intervals_keep_their_floors() {
    assert_eq!(
        SweepJob::nonces(Duration::from_secs(300)).interval(),
        Duration::from_secs(150)
    );
    assert_eq!(
        SweepJob::nonces(Duration::from_secs(10)).interval(),
        Duration::from_secs(30)
    );
    assert_eq!(
        SweepJob::admin_sessions(Duration::from_secs(3600), 43200).interval(),
        Duration::from_secs(10800)
    );
    assert_eq!(
        SweepJob::admin_sessions(Duration::from_secs(3600), 4).interval(),
        Duration::from_secs(60)
    );
    assert_eq!(SweepJob::audit(7).interval(), Duration::from_secs(86_400));
    assert_eq!(SweepJob::jobs(7).interval(), Duration::from_secs(86_400));
}

#[test]
fn a_sweep_never_fails_for_good() {
    let sweep = SweepJob::audit(7);
    assert_eq!(sweep.run(), JobOutcome::Reschedule(Duration::from_secs(86_400)));
    let spec = sweep.recover(5);
    assert_eq!((spec.kind.as_str(), spec.key.as_str(), spec.run_at), ("audit_sweep", "all", 5));

    let retention = JobRetention::new(7);
    assert_eq!(retention.kind(), "job_retention_sweep");
    assert_eq!(retention.run(), JobOutcome::Reschedule(Duration::from_secs(86_400)));
    assert_eq!(retention.cutoff(1_000_000), 395_200);
    assert_eq!(retention.recover(5).key, "all");
}

#[test]
fn a_sweep_deletes_what_is_past_its_time() {
    let now = 1_000_000;
    assert_eq!(
        SweepJob::audit(7).deletion(now),
        Deletion::AuditLog { cutoff: 395_200 }
    );
    assert_eq!(
        SweepJob::jobs(7).deletion(now),
        Deletion::Jobs { cutoff: 395_200 }
    );
    let ttl = Duration::from_secs(300);
    assert_eq!(SweepJob::nonces(ttl).deletion(now), Deletion::Nonces { ttl });
    assert_eq!(
        SweepJob::admin_sessions(ttl, 4).deletion(now),
        Deletion::AdminSessions { idle_timeout: ttl }
    );
    assert_eq!(cutoff(0, u64::MAX), i64::MIN);
}

#[test]
fn a_sweep_reports_under_its_own_events() {
    let now = 1_000_000;
    let swept = SweepJob::audit(7).sweep(now, Ok(3)).unwrap();
    assert_eq!((swept.level, swept.event), (Level::Info, "audit_reaper_swept"));
    assert_eq!((swept.rows_removed, swept.cutoff), (Some(3), Some(395_200)));

    let swept = SweepJob::nonces(Duration::from_secs(300)).sweep(now, Ok(3)).unwrap();
    assert_eq!((swept.level, swept.event), (Level::Debug, "nonce_reaper_swept"));

    let failed = SweepJob::admin_sessions(Duration::from_secs(1), 4)
        .sweep(now, Err("locked".to_string()))
        .unwrap();
    assert_eq!(
        (failed.level, failed.event),
        (Level::Error, "admin_session_reaper_failed")
    );
    assert_eq!(failed.error.as_deref(), Some("locked"));

    assert_eq!(SweepJob::jobs(7).sweep(now, Ok(3)), None);
    let failed = SweepJob::jobs(7).sweep(now, Err("locked".to_string())).unwrap();
    assert_eq!(
        (failed.level, failed.event),
        (Level::Warn, "job_retention_sweep_failed")
    );
}

#[test]
fn a_row_that_nobody_answers_for_goes_back_at_once() {
    assert_eq!(
        unknown_kind(1_000),
        Settlement::Retry {
            run_at: 1_000,
            reason: "no handler".to_string(),
        }
    );
}
