//! The loop that drains the queue: claim, run, settle, back off.
//!
//! Everything the loop decides stands here. Claiming a row, running its handler
//! and writing its settlement are done by the caller, which hands back what came
//! of it.

use super::registry::{longest_of, JobRegistry};
use super::{clamp_i64, later, seconds, whole_seconds, Job, JobHandler, JobOutcome, JobsConfig};
use crate::pool::{
    add_slots, forget_slots, free_slots, issued_by, max_permits, most_permits, new_slots, try_take,
    Slot, Slots,
};
use crate::sorted::StringSet;
use crate::text::{cat2, cat3, cat4, decimal, number, signed_decimal, signed_number, texts, texts_push};
use crate::time::{greatest, least, Duration, MAX_NANOS};
use vstd::prelude::*;
use vstd::string::*;

verus! {

/// How much longer than its own timeout a job's lease runs, in seconds. The
/// deadline of the attempt must fire first, or a second runner could claim a
/// row this one is still working.
pub const LEASE_SLACK_SECONDS: u64 = 30;

/// How long a graceful stop waits for in-flight jobs, in seconds.
pub const DRAIN_BUDGET_SECONDS: u64 = 5;

// ------------------------------------------------------------------ backoff
/// A number from the operating system's generator, by `ring`'s
/// `SystemRandom::fill` over eight bytes, or nothing where the generator fails.
/// Nothing is promised of the number.
#[verifier::external_body]
fn random_u64() -> (r: Option<u64>) {
    let mut bytes = [0_u8; 8];
    match ring::rand::SecureRandom::fill(&ring::rand::SystemRandom::new(), &mut bytes) {
        Ok(()) => Some(u64::from_be_bytes(bytes)),
        Err(_) => None,
    }
}

/// How many times the base delay doubles before an attempt: once for each
/// attempt after the first, and at most 32 times.
pub open spec fn doublings(attempts: i64) -> nat {
    if attempts <= 1 {
        0
    } else {
        least((attempts - 1) as nat, 32)
    }
}

/// Two to the given power.
pub open spec fn pow2(n: nat) -> nat
    decreases n,
{
    if n == 0 {
        1
    } else {
        2 * pow2((n - 1) as nat)
    }
}

/// The factor of a number of doublings: a power of two, as far as a `u32`
/// holds it.
pub open spec fn factor(n: nat) -> nat {
    least(pow2(n), u32::MAX as nat)
}

/// The delay after an attempt before any jitter, in nanoseconds: exponential,
/// up to the ceiling.
pub open spec fn capped_delay(attempts: i64, base: nat, max: nat) -> nat {
    least(least(base * factor(doublings(attempts)), MAX_NANOS as nat), max)
}

/// The whole milliseconds of a span, as many as a `u64` holds.
pub open spec fn whole_millis(span: nat) -> nat {
    least(span / 1_000_000, u64::MAX as nat)
}

/// The delay after an attempt, in nanoseconds: up to a quarter of its whole
/// milliseconds taken off by the number drawn.
pub open spec fn delay_drawn(capped: nat, draw: Option<u64>) -> nat {
    let millis = whole_millis(capped);
    let spread = millis / 4;
    match draw {
        Some(n) if spread > 0 => ((millis - n as nat % spread) * 1_000_000) as nat,
        _ => capped,
    }
}

proof fn pow2_grows(a: nat, b: nat)
    requires
        a <= b,
    ensures
        pow2(a) <= pow2(b),
        pow2(a) >= 1,
    decreases b,
{
    if a < b {
        pow2_grows(a, (b - 1) as nat);
    } else if a > 0 {
        pow2_grows((a - 1) as nat, (a - 1) as nat);
    }
}

fn doubled(n: u32) -> (r: u32)
    requires
        n <= 32,
    ensures
        r == factor(n as nat),
{
    let mut out: u32 = 1;
    let mut i: u32 = 0;
    assert(pow2(32) == 4294967296) by {
        reveal_with_fuel(pow2, 33);
    }
    while i < n
        invariant
            i <= n <= 32,
            out == factor(i as nat),
            pow2(32) == 4294967296,
        decreases n - i,
    {
        proof {
            pow2_grows(i as nat, 32);
            pow2_grows(i as nat + 1, 32);
            pow2_grows(0, i as nat);
            if i < 31 {
                pow2_grows(i as nat + 1, 31);
            }
            assert(pow2(i as nat + 1) == 2 * pow2(i as nat));
            assert(pow2(32) == 2 * pow2(31));
        }
        out = match out.checked_mul(2) {
            Some(v) => v,
            None => u32::MAX,
        };
        i += 1;
    }
    out
}

/// The delay before the next attempt, for a given draw.
pub fn backoff_drawn(attempts: i64, base: Duration, max: Duration, draw: Option<u64>) -> (r:
    Duration)
    ensures
        r@ == delay_drawn(capped_delay(attempts, base@, max@), draw),
{
    let steps: u32 = if attempts <= 1 {
        0
    } else if attempts >= 33 {
        32
    } else {
        (attempts - 1) as u32
    };
    let capped = base.saturating_mul(doubled(steps)).min(max);
    let whole: u128 = capped.as_millis();
    let millis: u64 = if whole > u64::MAX as u128 {
        u64::MAX
    } else {
        whole as u64
    };
    let spread: u64 = millis / 4;
    if spread == 0 {
        return capped;
    }
    match draw {
        None => capped,
        Some(n) => Duration::from_millis(millis - n % spread),
    }
}

/// The delay before the next attempt: exponential, capped, jittered.
///
/// The jitter keeps jobs that failed together from retrying together for ever.
/// It only ever subtracts, so the ceiling is an honest one.
pub fn backoff(attempts: i64, base: Duration, max: Duration) -> (r: Duration)
    ensures
        exists|draw: Option<u64>| r@ == #[trigger] delay_drawn(
            capped_delay(attempts, base@, max@),
            draw,
        ),
        r@ <= capped_delay(attempts, base@, max@) <= max@,
{
    let draw = random_u64();
    let r = backoff_drawn(attempts, base, max, draw);
    proof {
        jitter_only_subtracts(capped_delay(attempts, base@, max@), draw);
    }
    r
}

/// The jitter only ever subtracts, and takes off less than a quarter: what is
/// left is more than three quarters of the whole milliseconds.
pub proof fn jitter_only_subtracts(capped: nat, draw: Option<u64>)
    ensures
        delay_drawn(capped, draw) <= capped,
        capped > 0 ==> 4 * delay_drawn(capped, draw) > 3 * whole_millis(capped) * 1_000_000,
{
    let millis = whole_millis(capped);
    let spread = millis / 4;
    match draw {
        Some(n) if spread > 0 => {
            let off = n as nat % spread;
            assert(off < spread);
            assert(4 * (millis - off) > 3 * millis);
            assert(millis * 1_000_000 <= capped);
        },
        _ => {
            assert(millis * 1_000_000 <= capped);
        },
    }
}

/// More attempts never make the delay shorter, and the ceiling always holds.
pub proof fn backoff_grows_to_the_ceiling(a: i64, b: i64, base: nat, max: nat)
    requires
        a <= b,
    ensures
        capped_delay(a, base, max) <= capped_delay(b, base, max) <= max,
{
    pow2_grows(doublings(a), doublings(b));
    let (x, y) = (factor(doublings(a)), factor(doublings(b)));
    assert(base * x <= base * y) by (nonlinear_arith)
        requires
            x <= y,
    ;
}

/// Below the ceiling each attempt doubles the delay of the one before.
pub proof fn backoff_doubles(attempts: i64, base: nat, max: nat)
    requires
        1 <= attempts < 32,
        capped_delay((attempts + 1) as i64, base, max) < max,
        capped_delay((attempts + 1) as i64, base, max) < MAX_NANOS,
    ensures
        capped_delay((attempts + 1) as i64, base, max) == 2 * capped_delay(attempts, base, max),
        capped_delay(1, base, max) == base,
{
    let n = doublings(attempts);
    assert(doublings((attempts + 1) as i64) == n + 1);
    assert(pow2(31) == 2147483648) by {
        reveal_with_fuel(pow2, 32);
    }
    pow2_grows(n, 31);
    pow2_grows(n + 1, 31);
    pow2_grows(0, n);
    let (x, y) = (factor(n), factor(n + 1));
    assert(y == 2 * x);
    assert(base * y == 2 * (base * x)) by (nonlinear_arith)
        requires
            y == 2 * x,
    ;
    assert(base * x <= base * y);
    assert(doublings(1) == 0 && factor(0) == 1);
    assert(base * 1 == base);
    assert(base <= base * y) by (nonlinear_arith)
        requires
            y >= 1,
    ;
}

// ------------------------------------------------------------------- pacing
/// The pacing derived from `[jobs]`.
#[derive(Debug, Clone, Copy, PartialEq, Eq, Structural)]
pub struct RunnerConfig {
    pub poll_interval: Duration,
    pub lease: Duration,
    pub retry_base: Duration,
    pub retry_max: Duration,
    pub max_concurrent: usize,
}

impl RunnerConfig {
    /// The pacing a section asks for, with at least one slot and no more than a
    /// pool can hold.
    pub fn from_config(config: &JobsConfig) -> (r: RunnerConfig)
        ensures
            r.poll_interval@ == config.poll_interval_ms * 1_000_000,
            r.lease@ == config.lease_seconds * 1_000_000_000,
            r.retry_base@ == config.retry_base_seconds * 1_000_000_000,
            r.retry_max@ == config.retry_max_seconds * 1_000_000_000,
            r.max_concurrent == if config.max_concurrent < 1 {
                1
            } else if config.max_concurrent > most_permits() {
                most_permits()
            } else {
                config.max_concurrent
            },
    {
        let most: usize = max_permits();
        let max_concurrent: usize = if config.max_concurrent < 1 {
            1
        } else if config.max_concurrent > most {
            most
        } else {
            config.max_concurrent
        };
        RunnerConfig {
            poll_interval: Duration::from_millis(config.poll_interval_ms),
            lease: Duration::from_secs(config.lease_seconds),
            retry_base: Duration::from_secs(config.retry_base_seconds),
            retry_max: Duration::from_secs(config.retry_max_seconds),
            max_concurrent,
        }
    }
}

// ------------------------------------------------------------------ permits
/// How many slots are out after a resize of a pool of `capacity` towards
/// `target`, when `free` of them are free: a pool grows at once, and shrinks by
/// what nobody is using.
pub open spec fn resized_to(capacity: nat, target: nat, free: nat) -> nat {
    if target >= capacity {
        target
    } else {
        greatest(target, (capacity - free) as nat)
    }
}

/// How many slots a pool has too many: what a shrink asks to have back.
pub fn surplus(capacity: usize, target: usize) -> (r: usize)
    ensures
        r == if target < capacity {
            capacity - target
        } else {
            0
        },
{
    if target < capacity {
        capacity - target
    } else {
        0
    }
}

/// The size of a pool after a resize that took back `taken` slots.
pub fn resized(capacity: usize, target: usize, taken: usize) -> (r: usize)
    requires
        target < capacity ==> taken <= capacity - target,
    ensures
        r == if target >= capacity {
            target as int
        } else {
            capacity - taken
        },
{
    if target >= capacity {
        target
    } else {
        capacity - taken
    }
}

/// A shrink takes back no slot that is in use: those in use are as many after it
/// as before, and the pool ends at the larger of the target and those.
pub proof fn a_shrink_takes_no_slot_in_use(capacity: nat, target: nat, free: nat)
    requires
        target < capacity,
        free <= capacity,
    ensures
        ({
            let taken = least(free, (capacity - target) as nat);
            let in_use = capacity - free;
            &&& capacity - taken == resized_to(capacity, target, free)
            &&& (capacity - taken) - (free - taken) == in_use
            &&& resized_to(capacity, target, free) == greatest(target, in_use as nat)
        }),
{
}

/// The concurrency pool, and how large it currently really is.
///
/// Growing always lands, but shrinking can only take back slots that are free.
/// So a pool made smaller while every slot is busy takes what it can and
/// converges as running jobs return theirs; running work is never cut short.
pub struct Permits {
    slots: Slots,
    capacity: usize,
}

impl Permits {
    /// The count is that of the slots that were issued, which are no more than a
    /// semaphore can hold.
    pub closed spec fn wf(&self) -> bool {
        &&& self.capacity == issued_by(self.slots)
        &&& self.capacity <= most_permits()
    }

    /// How many slots the pool has really issued.
    pub closed spec fn issued(&self) -> nat {
        issued_by(self.slots)
    }

    pub fn new(capacity: usize) -> (r: Permits)
        requires
            capacity <= most_permits(),
        ensures
            r.wf(),
            r.issued() == capacity,
    {
        Permits { slots: new_slots(capacity), capacity }
    }

    /// How many slots the pool has really issued, which may still be above what
    /// it was last resized to.
    pub fn capacity(&self) -> (r: usize)
        requires
            self.wf(),
        ensures
            r == self.issued(),
    {
        self.capacity
    }

    /// How many slots are free. How many those are depends on who holds the
    /// others.
    pub fn available(&self) -> (r: usize)
        ensures
            r <= self.issued(),
    {
        free_slots(&self.slots)
    }

    /// Moves the pool towards `target`, as far as it can go right now: up to it
    /// at once, and down towards it by as many slots as are free.
    pub fn resize(&mut self, target: usize)
        requires
            old(self).wf(),
            target <= most_permits(),
        ensures
            final(self).wf(),
            exists|free: nat|
                free <= old(self).issued() && final(self).issued() == #[trigger] resized_to(
                    old(self).issued(),
                    target as nat,
                    free,
                ),
    {
        let ghost before = self.issued();
        let mut taken: usize = 0;
        let ghost mut idle: nat = 0;
        if target > self.capacity {
            add_slots(&mut self.slots, target - self.capacity);
        } else if target < self.capacity {
            let owed: usize = surplus(self.capacity, target);
            taken = forget_slots(&mut self.slots, owed);
            proof {
                idle = choose|free: nat|
                    free <= before && taken == #[trigger] least(free, owed as nat);
            }
        }
        self.capacity = resized(self.capacity, target, taken);
        assert(self.issued() == resized_to(before, target as nat, idle));
    }

    /// Asks for a slot, after giving back those that the pool owes: a shrink
    /// cannot be overtaken by the admissions it was meant to stop. Whether one is
    /// free depends on who holds the others.
    pub fn take_slot(&mut self, target: usize) -> (r: Slot)
        requires
            old(self).wf(),
            target <= most_permits(),
        ensures
            final(self).wf(),
            exists|free: nat|
                free <= old(self).issued() && final(self).issued() == #[trigger] resized_to(
                    old(self).issued(),
                    target as nat,
                    free,
                ),
            r is Taken ==> final(self).issued() > 0,
    {
        self.resize(target);
        try_take(&self.slots)
    }

    /// How many slots a graceful stop waits for.
    pub open spec fn owed(&self) -> nat {
        if self.issued() < 1 {
            1
        } else {
            least(self.issued(), u32::MAX as nat)
        }
    }

    /// How many slots a graceful stop waits for: all that were issued, and not
    /// merely those the pool was last resized to.
    pub fn stop_permits(&self) -> (r: u32)
        requires
            self.wf(),
        ensures
            r == self.owed(),
    {
        if self.capacity < 1 {
            1
        } else if self.capacity > u32::MAX as usize {
            u32::MAX
        } else {
            self.capacity as u32
        }
    }

    /// Whether a graceful stop has seen its slots come back, when so many are
    /// free.
    pub fn drained(&self, free: usize) -> (r: bool)
        requires
            self.wf(),
        ensures
            r == (free >= self.owed()),
    {
        free >= self.stop_permits() as usize
    }
}

// ----------------------------------------------------------------- the loop
/// What the loop carries from pass to pass.
#[derive(Debug)]
pub struct RunLoop {
    recovered: StringSet,
    config: RunnerConfig,
}

/// What a pass does before it claims anything.
#[derive(Debug, PartialEq, Eq)]
pub struct Pass {
    /// The kinds whose handlers are to recover now, in this order.
    pub recover: Vec<String>,
    /// Whether the pacing moved.
    pub retuned: bool,
}

/// The members of a list that are not in a set, in order.
pub open spec fn missing(list: Seq<Seq<char>>, known: Set<Seq<char>>) -> Seq<Seq<char>>
    decreases list.len(),
{
    if list.len() == 0 {
        Seq::empty()
    } else {
        let front = missing(list.drop_last(), known);
        if known.union(list.drop_last().to_set()).contains(list.last()) {
            front
        } else {
            front.push(list.last())
        }
    }
}

/// What ended the idle wait of a pass.
#[derive(Debug, Clone, Copy, PartialEq, Eq, Structural)]
pub enum Wake {
    /// A job was queued.
    Notified,
    /// The poll interval elapsed.
    Elapsed,
    /// A slot of a full pool came free.
    PermitFree,
    RegistryChanged,
    ConfigChanged,
    ShutdownChanged,
}

/// What an idle wait listens to, beside a queued job and the shutdown.
#[derive(Debug, Clone, Copy, PartialEq, Eq, Structural)]
pub struct Idle {
    pub poll_interval: Duration,
    /// A free slot, after a pass that ran out of them.
    pub permit: bool,
    pub registry: bool,
    pub config: bool,
}

impl RunLoop {
    /// The kinds whose handlers have recovered.
    pub closed spec fn known(&self) -> Set<Seq<char>> {
        self.recovered@
    }

    /// The pacing of the current pass.
    pub closed spec fn pacing(&self) -> RunnerConfig {
        self.config
    }

    /// A loop whose registered handlers are all about to recover.
    pub fn start(kinds: &Vec<String>, config: RunnerConfig) -> (r: RunLoop)
        ensures
            r.known() == texts(kinds@).to_set(),
            r.pacing() == config,
    {
        RunLoop { recovered: StringSet::from_list(kinds), config }
    }

    /// What is to be done when a loop starts: every registered handler recovers.
    pub fn first_pass(kinds: &Vec<String>) -> (r: Pass)
        ensures
            texts(r.recover@) == texts(kinds@),
            !r.retuned,
    {
        Pass { recover: crate::text::copies(kinds), retuned: false }
    }

    /// The pacing of the current pass.
    pub fn config(&self) -> (r: RunnerConfig)
        ensures
            r == self.pacing(),
    {
        self.config
    }

    /// Begins a pass over the newest registry and the newest pacing.
    ///
    /// Only kinds that this loop has not yet recovered for are to recover.
    pub fn begin_pass(&mut self, kinds: &Vec<String>, next: RunnerConfig) -> (r: Pass)
        ensures
            texts(r.recover@) == missing(texts(kinds@), old(self).known()),
            r.retuned == (next != old(self).pacing()),
            final(self).known() == old(self).known().union(texts(kinds@).to_set()),
            final(self).pacing() == next,
    {
        let recover = self.recover_new_kinds(kinds);
        let retuned = next != self.config;
        self.config = next;
        Pass { recover, retuned }
    }

    /// The kinds that this loop has not yet recovered for, which from now on it
    /// has.
    fn recover_new_kinds(&mut self, kinds: &Vec<String>) -> (r: Vec<String>)
        ensures
            texts(r@) == missing(texts(kinds@), old(self).known()),
            final(self).known() == old(self).known().union(texts(kinds@).to_set()),
            final(self).pacing() == old(self).pacing(),
    {
        let ghost all = texts(kinds@);
        let ghost start = self.recovered@;
        let mut out: Vec<String> = Vec::new();
        let mut i: usize = 0;
        proof {
            assert(all.take(0) == Seq::<Seq<char>>::empty());
            assert(start.union(all.take(0).to_set()) =~= start);
            assert(texts(out@) == missing(all.take(0), start));
        }
        while i < kinds.len()
            invariant
                i <= kinds@.len(),
                all == texts(kinds@),
                start == old(self).known(),
                self.config == old(self).config,
                self.recovered@ == start.union(all.take(i as int).to_set()),
                texts(out@) == missing(all.take(i as int), start),
            decreases kinds@.len() - i,
        {
            let ghost upto = all.take(i as int + 1);
            proof {
                assert(upto.drop_last() == all.take(i as int));
                assert(upto.last() == kinds@[i as int]@);
                crate::sorted::to_set_take(all, i as int);
                assert(start.union(upto.to_set()) =~= start.union(
                    all.take(i as int).to_set(),
                ).insert(kinds@[i as int]@));
            }
            if self.recovered.insert(kinds[i].clone()) {
                let one = kinds[i].clone();
                proof {
                    texts_push(out@, one);
                }
                out.push(one);
            }
            i += 1;
        }
        assert(all.take(i as int) == all);
        out
    }

    /// What the idle wait after a pass listens to. A cell whose last sender has
    /// gone is ready at once and for ever, so it is not listened to at all.
    pub fn idle(&self, saturated: bool, watching_registry: bool, watching_config: bool) -> (r: Idle)
        ensures
            r == (Idle {
                poll_interval: self.pacing().poll_interval,
                permit: saturated,
                registry: watching_registry,
                config: watching_config,
            }),
    {
        Idle {
            poll_interval: self.config.poll_interval,
            permit: saturated,
            registry: watching_registry,
            config: watching_config,
        }
    }

    /// Whether the loop goes on after a wait.
    pub fn goes_on(wake: Wake, shutting_down: bool) -> (r: bool)
        ensures
            r == (wake != Wake::ShutdownChanged && !shutting_down),
    {
        wake != Wake::ShutdownChanged && !shutting_down
    }
}

/// What is missing from a set is new to it, comes from the list, is said once,
/// and leaves nothing out.
proof fn missing_members(list: Seq<Seq<char>>, known: Set<Seq<char>>)
    ensures
        forall|i: int|
            0 <= i < missing(list, known).len() ==> list.contains(#[trigger] missing(list, known)[i])
                && !known.contains(missing(list, known)[i]),
        missing(list, known).no_duplicates(),
        forall|k: Seq<char>| #[trigger]
            list.contains(k) && !known.contains(k) ==> missing(list, known).contains(k),
    decreases list.len(),
{
    if list.len() > 0 {
        let front = list.drop_last();
        missing_members(front, known);
        let (a, b) = (missing(front, known), missing(list, known));
        assert forall|i: int| 0 <= i < b.len() implies list.contains(#[trigger] b[i])
            && !known.contains(b[i]) by {
            if i < a.len() {
                assert(front.contains(a[i]));
                let k = choose|k: int| 0 <= k < front.len() && front[k] == a[i];
                assert(list[k] == a[i]);
            } else {
                assert(list[list.len() - 1] == list.last());
            }
        }
        assert forall|i: int, j: int| 0 <= i < j < b.len() implies b[i] != b[j] by {
            if j == a.len() {
                assert(front.contains(a[i]));
            }
        }
        assert forall|k: Seq<char>| #[trigger] list.contains(k) && !known.contains(k) implies
            b.contains(k) by {
            if front.contains(k) {
                let i = choose|i: int| 0 <= i < a.len() && a[i] == k;
                assert(b[i] == k);
            } else {
                let i = choose|i: int| 0 <= i < list.len() && list[i] == k;
                if i < front.len() {
                    assert(front[i] == k);
                }
                assert(k == list.last());
                assert(b[b.len() - 1] == k);
            }
        }
    }
}

/// A handler recovers at most once in the life of a loop, and every registered
/// one has recovered once its pass has begun: what a pass recovers is new to
/// the loop, no kind is recovered twice in one pass, and afterwards every kind
/// of the registry is known.
pub proof fn each_kind_recovers_once(kinds: Seq<Seq<char>>, known: Set<Seq<char>>)
    ensures
        missing(kinds, known).no_duplicates(),
        forall|k: Seq<char>| #[trigger]
            missing(kinds, known).contains(k) <==> kinds.contains(k) && !known.contains(k),
        missing(kinds, known.union(kinds.to_set())).len() == 0,
{
    missing_members(kinds, known);
    let after = known.union(kinds.to_set());
    missing_members(kinds, after);
    if missing(kinds, after).len() > 0 {
        assert(kinds.contains(missing(kinds, after)[0]));
    }
    assert forall|k: Seq<char>| #[trigger] missing(kinds, known).contains(k) implies kinds.contains(
        k,
    ) && !known.contains(k) by {
        let i = choose|i: int| 0 <= i < missing(kinds, known).len() && missing(kinds, known)[i] == k;
        assert(kinds.contains(missing(kinds, known)[i]));
    }
}

// -------------------------------------------------------------------- claims
/// What a pass does next.
#[derive(Debug, Clone, Copy, PartialEq, Eq, Structural)]
pub enum Drain {
    /// Claims a row, with the slot that was taken.
    Claim,
    /// Ends, because the pool is full or else because there is nothing to do.
    Stop { saturated: bool },
}

/// Whether a pass has anything to look for.
pub fn drain_begins(kinds: &Vec<String>) -> (r: bool)
    ensures
        r == (kinds@.len() > 0),
{
    kinds.len() > 0
}

/// What follows from asking for a slot. A slot is taken before the claim: a row
/// claimed first would have its lease tick while it waits.
pub fn on_slot(slot: &Slot) -> (r: Drain)
    ensures
        r == match slot {
            Slot::Taken(_) => Drain::Claim,
            Slot::Full => Drain::Stop { saturated: true },
            Slot::Closed => Drain::Stop { saturated: false },
        },
{
    match slot {
        Slot::Taken(_) => Drain::Claim,
        Slot::Full => Drain::Stop { saturated: true },
        Slot::Closed => Drain::Stop { saturated: false },
    }
}

/// The slack of a lease in nanoseconds.
pub open spec fn slack() -> nat {
    30_000_000_000
}

/// When a lease taken now runs out, in epoch seconds. `longest` is the longest
/// that any handler's attempts may take: which handler will answer is not known
/// until the row comes back.
pub fn lease_until(config: &RunnerConfig, longest: Duration, now: i64) -> (r: i64)
    ensures
        r == clamp_i64(now + whole_seconds(greatest(config.lease@, longest@) + slack())),
{
    let budget = config.lease.max(longest);
    let lease = budget.saturating_add(Duration::from_secs(LEASE_SLACK_SECONDS));
    later(now, seconds(lease))
}

/// What a claim leads to.
#[derive(Debug, PartialEq, Eq)]
pub enum Claimed {
    /// The pass ends: nothing is eligible, or the claim failed.
    Nothing,
    /// A row that no handler answers for, which goes back at once.
    Unknown(Job),
    /// A row to run, within this budget and with this backoff.
    Start { job: Job, budget: Duration, retry: (Duration, Duration) },
}

/// What a claim leads to: its handler runs it within its own budget, or within
/// the configured one.
pub fn on_claim<H: JobHandler>(
    claimed: Result<Option<Job>, String>,
    registry: &JobRegistry<H>,
    config: &RunnerConfig,
) -> (r: Claimed)
    ensures
        match claimed {
            Ok(Some(job)) => if registry@.handlers.dom().contains(job.kind@) {
                r matches Claimed::Start { job: j, budget, retry } && {
                    &&& j == job
                    &&& retry == (config.retry_base, config.retry_max)
                    &&& budget == budget_of(registry.leases()[job.kind@], *config)
                }
            } else {
                r == Claimed::Unknown(job)
            },
            _ => r == Claimed::Nothing,
        },
{
    match claimed {
        Ok(Some(job)) => if registry.get(job.kind.as_str()).is_some() {
            proof {
                registry.each_handler_has_a_lease();
            }
            let lease = registry.lease(job.kind.as_str());
            Claimed::Start {
                job,
                budget: attempt_budget(lease, config),
                retry: (config.retry_base, config.retry_max),
            }
        } else {
            Claimed::Unknown(job)
        },
        _ => Claimed::Nothing,
    }
}

/// What a row is settled with that no handler answers for: it goes back at once,
/// or it would stay leased for a whole lease.
pub fn unknown_kind(now: i64) -> (r: Settlement)
    ensures
        r@ == (SettlementModel::Retry { run_at: now, reason: "no handler"@ }),
{
    Settlement::Retry { run_at: now, reason: "no handler".to_owned() }
}

/// How long an attempt may take: what the handler asks for, or the configured
/// lease.
pub open spec fn budget_of(lease: Option<Duration>, config: RunnerConfig) -> Duration {
    match lease {
        Some(d) => d,
        None => config.lease,
    }
}

/// How long an attempt may take.
pub fn attempt_budget(lease: Option<Duration>, config: &RunnerConfig) -> (r: Duration)
    ensures
        r == budget_of(lease, *config),
{
    match lease {
        Some(d) => d,
        None => config.lease,
    }
}

/// The attempt's own deadline fires before another runner could take the row,
/// whichever registered handler answers for it: the lease that was written
/// outlasts the attempt by at least the slack.
pub proof fn the_attempt_ends_before_its_lease<H: JobHandler>(
    registry: JobRegistry<H>,
    kind: Seq<char>,
    longest: Duration,
    config: RunnerConfig,
    now: i64,
)
    requires
        registry@.handlers.dom().contains(kind),
        longest_of(registry.leases(), longest),
        0 <= now,
    ensures
        clamp_i64(now + whole_seconds(greatest(config.lease@, longest@) + slack())) >= clamp_i64(
            now + whole_seconds(budget_of(registry.leases()[kind], config)@) + 30,
        ),
{
    registry.each_handler_has_a_lease();
    assert(registry.leases().dom().contains(kind));
    let (b, l) = (
        budget_of(registry.leases()[kind], config)@,
        greatest(config.lease@, longest@),
    );
    assert(b <= l);
    assert((l + slack()) / 1_000_000_000 == l / 1_000_000_000 + 30);
    assert(b / 1_000_000_000 <= l / 1_000_000_000);
}

// ------------------------------------------------------------------ attempts
/// How the task of an attempt ended.
#[derive(Debug, PartialEq, Eq)]
pub enum AttemptEnd {
    Finished(JobOutcome),
    Panicked,
    Cancelled,
    TimedOut,
}

/// What an attempt amounts to. A panic, a cancellation and a timeout decide
/// nothing about the work, so each is worth another attempt.
pub fn attempt_outcome(end: AttemptEnd, budget: Duration) -> (r: JobOutcome)
    ensures
        match end {
            AttemptEnd::Finished(outcome) => r == outcome,
            AttemptEnd::Panicked => r matches JobOutcome::Retry(why) && why@
                == "the handler panicked"@,
            AttemptEnd::Cancelled => r matches JobOutcome::Retry(why) && why@
                == "the attempt was cancelled"@,
            AttemptEnd::TimedOut => r matches JobOutcome::Retry(why) && why@
                == "the attempt timed out after "@ + decimal(budget@ / 1_000_000_000) + "s"@,
        },
{
    match end {
        AttemptEnd::Finished(outcome) => outcome,
        AttemptEnd::Panicked => JobOutcome::Retry("the handler panicked".to_owned()),
        AttemptEnd::Cancelled => JobOutcome::Retry("the attempt was cancelled".to_owned()),
        AttemptEnd::TimedOut => JobOutcome::Retry(
            cat3(
                "the attempt timed out after ",
                number(budget.as_secs() as u128).as_str(),
                "s",
            ),
        ),
    }
}

/// What is written of a job after an attempt.
#[derive(Debug, PartialEq, Eq)]
pub enum Settlement {
    Complete,
    Reschedule { run_at: i64 },
    Retry { run_at: i64, reason: String },
    /// Retired for good.
    Abandon { reason: String },
}

/// A settlement, in terms of sequences.
pub enum SettlementModel {
    Complete,
    Reschedule { run_at: i64 },
    Retry { run_at: i64, reason: Seq<char> },
    Abandon { reason: Seq<char> },
}

impl View for Settlement {
    type V = SettlementModel;

    open spec fn view(&self) -> SettlementModel {
        match self {
            Settlement::Complete => SettlementModel::Complete,
            Settlement::Reschedule { run_at } => SettlementModel::Reschedule { run_at: *run_at },
            Settlement::Retry { run_at, reason } => SettlementModel::Retry {
                run_at: *run_at,
                reason: reason@,
            },
            Settlement::Abandon { reason } => SettlementModel::Abandon { reason: reason@ },
        }
    }
}

/// Whether a job's deadline lies before an instant.
pub open spec fn overdue(job: Job, at: i64) -> bool {
    job.deadline matches Some(deadline) && deadline < at
}

/// How a job is settled after an attempt, given the delay that a retry would
/// wait.
pub open spec fn settled(job: Job, outcome: JobOutcome, now: i64, delay: nat) -> SettlementModel {
    match outcome {
        JobOutcome::Done => SettlementModel::Complete,
        JobOutcome::Reschedule(span) => SettlementModel::Reschedule {
            run_at: clamp_i64(now + whole_seconds(span@)),
        },
        JobOutcome::Failed(reason) => SettlementModel::Abandon { reason: reason@ },
        JobOutcome::Retry(reason) => {
            let run_at = clamp_i64(now + whole_seconds(delay));
            if job.attempts >= job.max_attempts {
                SettlementModel::Abandon {
                    reason: reason@ + " (no attempts left after "@ + signed_decimal(
                        job.attempts as int,
                    ) + ")"@,
                }
            } else if overdue(job, run_at) {
                SettlementModel::Abandon {
                    reason: reason@ + " (the next attempt would fall past the deadline)"@,
                }
            } else {
                SettlementModel::Retry { run_at, reason: reason@ }
            }
        },
    }
}

/// Whether a job is retired without running: claimed after its deadline, its
/// work is pointless.
pub fn retired_unrun(job: &Job, now: i64) -> (r: Option<Settlement>)
    ensures
        match r {
            Some(s) => overdue(*job, now) && s@ == (SettlementModel::Abandon {
                reason: "the job's deadline passed"@,
            }),
            None => !overdue(*job, now),
        },
{
    match job.deadline {
        Some(deadline) => if deadline < now {
            Some(Settlement::Abandon { reason: "the job's deadline passed".to_owned() })
        } else {
            None
        },
        None => None,
    }
}

/// Settles a job after an attempt, given the delay that a retry would wait.
pub fn settle_after(job: &Job, outcome: JobOutcome, now: i64, delay: Duration) -> (r: Settlement)
    ensures
        r@ == settled(*job, outcome, now, delay@),
{
    match outcome {
        JobOutcome::Done => Settlement::Complete,
        JobOutcome::Reschedule(span) => Settlement::Reschedule {
            run_at: later(now, seconds(span)),
        },
        JobOutcome::Failed(reason) => Settlement::Abandon { reason },
        JobOutcome::Retry(reason) => {
            let run_at: i64 = later(now, seconds(delay));
            let past_deadline = match job.deadline {
                Some(deadline) => deadline < run_at,
                None => false,
            };
            if job.attempts >= job.max_attempts {
                Settlement::Abandon {
                    reason: cat4(
                        reason.as_str(),
                        " (no attempts left after ",
                        signed_number(job.attempts).as_str(),
                        ")",
                    ),
                }
            } else if past_deadline {
                Settlement::Abandon {
                    reason: cat2(
                        reason.as_str(),
                        " (the next attempt would fall past the deadline)",
                    ),
                }
            } else {
                Settlement::Retry { run_at, reason }
            }
        },
    }
}

/// Settles a job after an attempt that ended as `outcome`: done, on again
/// later, once more after a backoff, or retired for good.
pub fn run_one(job: &Job, outcome: JobOutcome, now: i64, retry: (Duration, Duration)) -> (r:
    Settlement)
    ensures
        exists|draw: Option<u64>|
            r@ == settled(
                *job,
                outcome,
                now,
                #[trigger] delay_drawn(capped_delay(job.attempts, retry.0@, retry.1@), draw),
            ),
        outcome !is Retry ==> r@ == settled(*job, outcome, now, 0),
        job.attempts >= job.max_attempts ==> r@ == settled(*job, outcome, now, 0),
{
    let delay = backoff(job.attempts, retry.0, retry.1);
    let r = settle_after(job, outcome, now, delay);
    proof {
        let draw = choose|draw: Option<u64>|
            delay@ == #[trigger] delay_drawn(
                capped_delay(job.attempts, retry.0@, retry.1@),
                draw,
            );
        assert(r@ == settled(
            *job,
            outcome,
            now,
            delay_drawn(capped_delay(job.attempts, retry.0@, retry.1@), draw),
        ));
    }
    r
}

/// Whether a settlement landed. `Ok(false)` means that the lease ran out and
/// another runner took the row.
pub fn report_settlement(written: &Result<bool, String>) -> (r: bool)
    ensures
        r == (*written matches Ok(landed) && landed),
{
    match written {
        Ok(landed) => *landed,
        Err(_) => false,
    }
}

/// Whether the handler is told that its job is retired: after the row was
/// settled so, and only when that landed.
pub open spec fn tells_handler(settlement: SettlementModel, written: Result<bool, String>) -> bool {
    settlement is Abandon && (written matches Ok(landed) && landed)
}

/// Whether the handler is told that its job is retired, and why.
pub fn retire<'a>(settlement: &'a Settlement, written: &Result<bool, String>) -> (r: Option<
    &'a str,
>)
    ensures
        match r {
            Some(why) => tells_handler(settlement@, *written) && why@ == settlement@->Abandon_reason,
            None => !tells_handler(settlement@, *written),
        },
{
    if !report_settlement(written) {
        return None;
    }
    match settlement {
        Settlement::Abandon { reason } => Some(reason.as_str()),
        _ => None,
    }
}

/// A job is retired for good by its own verdict, by running out of attempts or
/// by its deadline, and by nothing else; and a handler is told of nothing but
/// that. In particular a retry never tells the handler anything.
pub proof fn only_a_retired_job_is_abandoned(
    job: Job,
    outcome: JobOutcome,
    now: i64,
    delay: nat,
    written: Result<bool, String>,
)
    ensures
        settled(job, outcome, now, delay) is Abandon <==> (outcome is Failed || (outcome is Retry
            && (job.attempts >= job.max_attempts || overdue(
            job,
            clamp_i64(now + whole_seconds(delay)),
        )))),
        tells_handler(settled(job, outcome, now, delay), written) ==> settled(
            job,
            outcome,
            now,
            delay,
        ) is Abandon && written == Ok::<bool, String>(true),
        settled(job, outcome, now, delay) is Retry ==> !tells_handler(
            settled(job, outcome, now, delay),
            written,
        ),
{
}

/// A retry is never scheduled past the job's deadline, and never without an
/// attempt left for it.
pub proof fn a_retry_keeps_to_the_deadline(job: Job, outcome: JobOutcome, now: i64, delay: nat)
    requires
        settled(job, outcome, now, delay) is Retry,
    ensures
        job.attempts < job.max_attempts,
        job.deadline matches Some(deadline) ==> settled(
            job,
            outcome,
            now,
            delay,
        )->Retry_run_at <= deadline,
        now <= settled(job, outcome, now, delay)->Retry_run_at,
{
}

/// A periodic job that keeps rescheduling is never retired, whatever its
/// attempts and its deadline.
pub proof fn a_rescheduled_job_stays_live(job: Job, span: Duration, now: i64, delay: nat)
    ensures
        settled(job, JobOutcome::Reschedule(span), now, delay) is Reschedule,
{
}

/// The delay before the first retry is the base, as far as the ceiling lets it; each
/// later one is twice the one before, as far as the ceiling lets it, up to the 32nd
/// attempt; and from the 33rd on it is the base 4294967295 times over, as far as the
/// ceiling lets it.
pub proof fn the_delay_by_attempt(attempts: i64, base: nat, max: nat)
    ensures
        attempts <= 1 ==> capped_delay(attempts, base, max) == least(
            least(base, MAX_NANOS as nat),
            max,
        ),
        1 <= attempts < 32 ==> capped_delay((attempts + 1) as i64, base, max) == least(
            least(2 * capped_delay(attempts, base, max), MAX_NANOS as nat),
            max,
        ),
        attempts >= 33 ==> capped_delay(attempts, base, max) == least(
            least(base * 4_294_967_295, MAX_NANOS as nat),
            max,
        ),
{
    assert(pow2(0) == 1);
    assert(pow2(31) == 2147483648 && pow2(32) == 4294967296) by {
        reveal_with_fuel(pow2, 33);
    }
    if attempts <= 1 {
        assert(factor(0) == 1);
        assert(base * 1 == base);
    } else if attempts >= 33 {
        assert(doublings(attempts) == 32);
        assert(factor(32) == 4_294_967_295);
    }
    if 1 <= attempts < 32 {
        let n = doublings(attempts);
        assert(doublings((attempts + 1) as i64) == n + 1);
        pow2_grows(n, 31);
        pow2_grows(n + 1, 31);
        let (x, y) = (factor(n), factor(n + 1));
        assert(y == 2 * x);
        assert(base * y == 2 * (base * x)) by (nonlinear_arith)
            requires
                y == 2 * x,
        ;
    }
}

/// What is drawn takes whole milliseconds off, fewer than a quarter of them; with
/// nothing drawn, or fewer than four milliseconds to draw from, the delay stays as it
/// is.
pub proof fn a_draw_takes_off_its_rest(capped: nat, n: u64)
    ensures
        delay_drawn(capped, None) == capped,
        capped < 4_000_000 ==> delay_drawn(capped, Some(n)) == capped,
        4_000_000 <= capped && capped / 1_000_000 <= u64::MAX ==> delay_drawn(capped, Some(n))
            == (capped / 1_000_000 - n as nat % (capped / 1_000_000 / 4)) * 1_000_000,
{
}

/// A pass recovers the kinds of its list that were not yet known and did not come
/// before in the list, in the order of the list.
pub proof fn new_kinds_keep_their_order(
    kinds: Seq<Seq<char>>,
    known: Set<Seq<char>>,
    kind: Seq<char>,
)
    ensures
        missing(Seq::empty(), known).len() == 0,
        known.contains(kind) || kinds.contains(kind) ==> missing(kinds.push(kind), known)
            == missing(kinds, known),
        !known.contains(kind) && !kinds.contains(kind) ==> missing(kinds.push(kind), known)
            == missing(kinds, known).push(kind),
{
    assert(kinds.push(kind).drop_last() =~= kinds);
}

/// A lease outlasts what it is for by 30 seconds; a stop waits for 5.
pub proof fn the_two_spans_of_grace()
    ensures
        slack() == 30 * 1_000_000_000,
        LEASE_SLACK_SECONDS == 30,
        DRAIN_BUDGET_SECONDS == 5,
{
}

/// A handler's own budget goes before the configured one.
pub proof fn a_handlers_budget_is_its_own(d: Duration, config: RunnerConfig)
    ensures
        budget_of(Some(d), config) == d,
        budget_of(None, config) == config.lease,
{
}

/// How each outcome is settled. A job that is done is completed; one that asks to run
/// again does so after its span; one that failed is retired with its reason. One to be
/// tried again is, after the delay, as long as it has attempts left and its deadline is
/// not before then.
pub proof fn outcomes_are_settled(
    job: Job,
    span: Duration,
    reason: String,
    now: i64,
    delay: nat,
)
    ensures
        settled(job, JobOutcome::Done, now, delay) == SettlementModel::Complete,
        settled(job, JobOutcome::Reschedule(span), now, delay) == (SettlementModel::Reschedule {
            run_at: clamp_i64(now + whole_seconds(span@)),
        }),
        settled(job, JobOutcome::Failed(reason), now, delay) == (SettlementModel::Abandon {
            reason: reason@,
        }),
        ({
            let next = clamp_i64(now + whole_seconds(delay));
            let late = job.deadline is Some && job.deadline->Some_0 < next;
            &&& job.attempts >= job.max_attempts ==> settled(
                job,
                JobOutcome::Retry(reason),
                now,
                delay,
            ) == (SettlementModel::Abandon {
                reason: reason@ + " (no attempts left after "@ + signed_decimal(
                    job.attempts as int,
                ) + ")"@,
            })
            &&& job.attempts < job.max_attempts && late ==> settled(
                job,
                JobOutcome::Retry(reason),
                now,
                delay,
            ) == (SettlementModel::Abandon {
                reason: reason@ + " (the next attempt would fall past the deadline)"@,
            })
            &&& job.attempts < job.max_attempts && !late ==> settled(
                job,
                JobOutcome::Retry(reason),
                now,
                delay,
            ) == (SettlementModel::Retry { run_at: next, reason: reason@ })
        }),
{
}

/// A job is overdue exactly when it has a deadline and that is past.
pub proof fn a_deadline_is_past_when_it_is_before(job: Job, at: i64)
    ensures
        overdue(job, at) <==> job.deadline is Some && job.deadline->Some_0 < at,
{
}

/// A handler is told exactly when its job was retired and the row took it.
pub proof fn a_handler_is_told_when_the_row_took_it(
    settlement: SettlementModel,
    written: Result<bool, String>,
)
    ensures
        tells_handler(settlement, written) <==> settlement is Abandon && written is Ok
            && written->Ok_0,
{
}

/// A settlement is what it says.
pub proof fn a_settlement_is_what_it_says(at: i64, why: String)
    ensures
        Settlement::Complete@ == SettlementModel::Complete,
        (Settlement::Reschedule { run_at: at })@ == (SettlementModel::Reschedule { run_at: at }),
        (Settlement::Retry { run_at: at, reason: why })@ == (SettlementModel::Retry {
            run_at: at,
            reason: why@,
        }),
        (Settlement::Abandon { reason: why })@ == (SettlementModel::Abandon { reason: why@ }),
{
}

/// A pool grows at once, and shrinks to the larger of its target and what is in use.
pub proof fn a_pool_grows_at_once(capacity: nat, target: nat, free: nat)
    requires
        free <= capacity,
    ensures
        target >= capacity ==> resized_to(capacity, target, free) == target,
        target < capacity && capacity - free <= target ==> resized_to(capacity, target, free)
            == target,
        target < capacity && capacity - free > target ==> resized_to(capacity, target, free)
            == capacity - free,
{
}

/// A stop waits for every slot that was issued, and for one at least.
pub proof fn a_stop_waits_for_every_slot(permits: Permits)
    ensures
        1 <= permits.issued() <= u32::MAX ==> permits.owed() == permits.issued(),
        permits.issued() == 0 ==> permits.owed() == 1,
        permits.issued() > u32::MAX ==> permits.owed() == u32::MAX,
{
}

} // verus!
