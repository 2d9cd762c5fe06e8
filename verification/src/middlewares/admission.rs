//! Admission control: a fixed number of slots, a short wait for one of them,
//! and a deadline. Past the limit a request is refused, not parked.

use crate::pool::{free_slots, issued_by, most_permits, new_slots, try_take, Slot, Slots};
use crate::problem::{server_internal, service_unavailable, Problem};
use crate::time::Duration;
use vstd::prelude::*;

verus! {

/// The slots, and the two budgets that decide what happens when they are all
/// taken.
pub struct Admission {
    slots: Slots,
    wait: Duration,
    deadline: Duration,
}

impl Admission {
    /// How many requests are served at once.
    pub closed spec fn limit(&self) -> nat {
        issued_by(self.slots)
    }

    /// How long a request waits for a slot, in nanoseconds.
    pub closed spec fn waits(&self) -> nat {
        self.wait@
    }

    /// How long a request may take, in nanoseconds.
    pub closed spec fn bound(&self) -> nat {
        self.deadline@
    }

    /// A limit of zero would refuse every request for ever, so it means one.
    pub fn new(max_concurrent: usize, wait_ms: u64, deadline_ms: u64) -> (r: Admission)
        requires
            max_concurrent <= most_permits(),
        ensures
            r.limit() == if max_concurrent == 0 {
                1
            } else {
                max_concurrent as nat
            },
            r.waits() == wait_ms * 1_000_000,
            r.bound() == deadline_ms * 1_000_000,
    {
        let limit: usize = if max_concurrent == 0 {
            1
        } else {
            max_concurrent
        };
        Admission {
            slots: new_slots(limit),
            wait: Duration::from_millis(wait_ms),
            deadline: Duration::from_millis(deadline_ms),
        }
    }

    /// Slots currently free. How many those are depends on the requests that are
    /// being served.
    pub fn available(&self) -> (r: usize)
        ensures
            r <= self.limit(),
    {
        free_slots(&self.slots)
    }

    /// Takes a slot for a request, where one is free right now.
    pub fn enter(&self) -> (r: Slot)
        ensures
            r is Taken ==> self.limit() > 0,
    {
        try_take(&self.slots)
    }

    /// How long a request waits for a slot.
    pub fn wait(&self) -> (r: Duration)
        ensures
            r@ == self.waits(),
    {
        self.wait
    }

    /// How long a request may take.
    pub fn deadline(&self) -> (r: Duration)
        ensures
            r@ == self.bound(),
    {
        self.deadline
    }
}

/// What became of a request.
#[derive(Debug, Clone, Copy, PartialEq, Eq, Structural)]
pub enum Passage {
    /// No slot came free in time.
    Shed,
    /// The handler answered.
    Answered,
    /// The deadline came first.
    Overdue,
}

/// What a request is answered that did not get through, and the `Retry-After`
/// that goes with it, in seconds.
#[derive(Debug, Clone, PartialEq, Eq)]
pub struct Refusal {
    pub problem: Problem,
    pub retry_after: Option<&'static str>,
}

/// What the layer answers itself; nothing where the handler answered.
pub fn refusal(passage: Passage) -> (r: Option<Refusal>)
    ensures
        match passage {
            Passage::Answered => r is None,
            Passage::Shed => r matches Some(refused) && {
                &&& refused.problem@ == service_unavailable(
                    "The server is at capacity and did not process this request; retry shortly"@,
                )
                &&& refused.retry_after matches Some(seconds) && seconds@ == "5"@
            },
            Passage::Overdue => r matches Some(refused) && {
                &&& refused.problem@ == server_internal("The request took too long to process"@)
                &&& refused.retry_after is None
            },
        },
{
    match passage {
        Passage::Answered => None,
        Passage::Shed => Some(
            Refusal {
                problem: Problem::service_unavailable(
                    "The server is at capacity and did not process this request; retry shortly",
                ),
                retry_after: Some("5"),
            },
        ),
        Passage::Overdue => Some(
            Refusal {
                problem: Problem::server_internal("The request took too long to process"),
                retry_after: None,
            },
        ),
    }
}

} // verus!
