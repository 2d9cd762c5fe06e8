//! A counting semaphore of `tokio`, with the number of slots it has issued.

use crate::time::least;
use std::sync::Arc;
use vstd::prelude::*;

verus! {

/// The most slots a semaphore can hold.
pub open spec fn most_permits() -> usize {
    usize::MAX / 8
}

/// `tokio::sync::Semaphore::MAX_PERMITS`: the largest `usize`, shifted right by
/// three bits.
#[verifier::external_body]
pub(crate) fn max_permits() -> (r: usize)
    ensures
        r == most_permits(),
{
    tokio::sync::Semaphore::MAX_PERMITS
}

/// A `tokio::sync::Semaphore` that nothing else can reach. It is never handed out
/// itself, and a `Permit` of it gives no way back to it, so its slots are issued
/// and taken back only through the functions below.
#[verifier::external_body]
pub struct Slots {
    semaphore: Arc<tokio::sync::Semaphore>,
}

/// One permit of a semaphore.
#[verifier::external_type_specification]
#[verifier::external_body]
pub struct ExOwnedSemaphorePermit(tokio::sync::OwnedSemaphorePermit);

/// One slot, given back when it is dropped.
pub struct Permit {
    held: tokio::sync::OwnedSemaphorePermit,
}

/// How many slots a semaphore has issued: those that are free, and those that
/// somebody holds.
pub uninterp spec fn issued_by(slots: Slots) -> nat;

/// `tokio::sync::Semaphore::new`, which panics above `MAX_PERMITS`: a semaphore
/// with so many permits.
#[verifier::external_body]
pub(crate) fn new_slots(n: usize) -> (r: Slots)
    requires
        n <= most_permits(),
    ensures
        issued_by(r) == n,
{
    Slots { semaphore: Arc::new(tokio::sync::Semaphore::new(n)) }
}

/// `tokio::sync::Semaphore::add_permits`: so many permits more. It panics when
/// the free ones would exceed `MAX_PERMITS`, and no more are ever free than were
/// issued.
#[verifier::external_body]
pub(crate) fn add_slots(slots: &mut Slots, n: usize)
    requires
        issued_by(*old(slots)) + n <= most_permits(),
    ensures
        issued_by(*final(slots)) == issued_by(*old(slots)) + n,
{
    slots.semaphore.add_permits(n)
}

/// `tokio::sync::Semaphore::forget_permits`: takes back `n` permits, or as many
/// as are free where those are fewer, and says how many it took. A permit that
/// somebody holds is never taken back.
#[verifier::external_body]
pub(crate) fn forget_slots(slots: &mut Slots, n: usize) -> (r: usize)
    ensures
        exists|free: nat| free <= issued_by(*old(slots)) && r == #[trigger] least(free, n as nat),
        issued_by(*final(slots)) == issued_by(*old(slots)) - r,
{
    slots.semaphore.forget_permits(n)
}

/// `tokio::sync::Semaphore::available_permits`. How many are free depends on who
/// holds the others; they are never more than were issued.
#[verifier::external_body]
pub(crate) fn free_slots(slots: &Slots) -> (r: usize)
    ensures
        r <= issued_by(*slots),
{
    slots.semaphore.available_permits()
}

/// What came of asking for a slot.
pub enum Slot {
    Taken(Permit),
    /// Every slot is busy.
    Full,
    /// The semaphore is going away.
    Closed,
}

/// `tokio::sync::Semaphore::try_acquire_owned`, which never waits. Whether a slot
/// is free depends on who holds the others; where none was issued, none is taken.
#[verifier::external_body]
pub(crate) fn try_take(slots: &Slots) -> (r: Slot)
    ensures
        r is Taken ==> issued_by(*slots) > 0,
{
    match Arc::clone(&slots.semaphore).try_acquire_owned() {
        Ok(held) => Slot::Taken(Permit { held }),
        Err(tokio::sync::TryAcquireError::NoPermits) => Slot::Full,
        Err(tokio::sync::TryAcquireError::Closed) => Slot::Closed,
    }
}

/// A semaphore holds as many slots as fit eight times in the largest `usize`, and no more.
pub proof fn slots_fit_eight_times()
    ensures
        most_permits() * 8 <= usize::MAX,
        usize::MAX < (most_permits() + 1) * 8,
{
}

} // verus!
