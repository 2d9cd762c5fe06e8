//! The first fault of a list, which decides.

use vstd::prelude::*;

verus! {

/// The first fault among the items of a list; none where no item has one.
pub open spec fn first_of<A>(
    items: Seq<A>,
    fault: spec_fn(A) -> Option<Seq<char>>,
) -> Option<Seq<char>>
    decreases items.len(),
{
    if items.len() == 0 {
        None
    } else {
        match first_of(items.drop_last(), fault) {
            Some(first) => Some(first),
            None => fault(items.last()),
        }
    }
}

/// Where the items before one have no fault, those up to it have the one that it
/// has; and that one, if there is any, is the fault of the whole list.
pub proof fn first_of_next<A>(
    items: Seq<A>,
    fault: spec_fn(A) -> Option<Seq<char>>,
    i: int,
)
    requires
        0 <= i < items.len(),
        first_of(items.take(i), fault) is None,
    ensures
        first_of(items.take(i + 1), fault) == fault(items[i]),
        fault(items[i]) is Some ==> first_of(items, fault) == fault(items[i]),
{
    assert(items.take(i + 1).drop_last() == items.take(i));
    assert(items.take(i + 1).last() == items[i]);
    if fault(items[i]) is Some {
        first_of_stands(items, fault, i + 1);
    }
}

/// A fault among the first items is the fault of the whole list.
proof fn first_of_stands<A>(items: Seq<A>, fault: spec_fn(A) -> Option<Seq<char>>, n: int)
    requires
        0 <= n <= items.len(),
        first_of(items.take(n), fault) is Some,
    ensures
        first_of(items, fault) == first_of(items.take(n), fault),
    decreases items.len(),
{
    if n == items.len() {
        assert(items.take(n) == items);
    } else {
        assert(items.drop_last().take(n) == items.take(n));
        first_of_stands(items.drop_last(), fault, n);
    }
}

/// A list has no fault where none of its items has one, and only there.
pub proof fn first_of_none<A>(items: Seq<A>, fault: spec_fn(A) -> Option<Seq<char>>)
    ensures
        first_of(items, fault) is None <==> forall|i: int|
            0 <= i < items.len() ==> fault(#[trigger] items[i]) is None,
    decreases items.len(),
{
    if items.len() > 0 {
        let front = items.drop_last();
        first_of_none(front, fault);
        assert(items[items.len() - 1] == items.last());
        if first_of(items, fault) is None {
            assert forall|i: int| 0 <= i < items.len() implies fault(#[trigger] items[i]) is None by {
                if i < front.len() {
                    assert(front[i] == items[i]);
                }
            }
        }
        if forall|i: int| 0 <= i < items.len() ==> fault(#[trigger] items[i]) is None {
            assert forall|i: int| 0 <= i < front.len() implies fault(#[trigger] front[i]) is None by {
                assert(front[i] == items[i]);
            }
        }
    }
}

/// Where an item has a fault and none before it has one, that fault is the whole
/// list's.
pub proof fn the_first_fault_decides<A>(
    items: Seq<A>,
    fault: spec_fn(A) -> Option<Seq<char>>,
    i: int,
)
    requires
        0 <= i < items.len(),
        fault(items[i]) is Some,
        forall|j: int| 0 <= j < i ==> fault(#[trigger] items[j]) is None,
    ensures
        first_of(items, fault) == fault(items[i]),
{
    let front = items.take(i);
    first_of_none(front, fault);
    assert forall|j: int| 0 <= j < front.len() implies fault(#[trigger] front[j]) is None by {
        assert(front[j] == items[j]);
    }
    first_of_next(items, fault, i);
}

} // verus!
