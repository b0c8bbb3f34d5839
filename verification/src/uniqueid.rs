//! A source of numeric ids, counted by an `atomic-counter` counter.

use vstd::prelude::*;
use atomic_counter::RelaxedCounter;

verus! {

#[verifier::external_type_specification]
#[verifier::external_body]
pub struct ExRelaxedCounter(RelaxedCounter);

/// The count that a `atomic_counter::RelaxedCounter` holds.
pub uninterp spec fn relaxed_count(counter: RelaxedCounter) -> usize;

/// Calls `atomic_counter::RelaxedCounter::new`, which makes a counter that
/// holds `initial_count`.
#[verifier::external_body]
fn relaxed_counter_new(initial_count: usize) -> (counter: RelaxedCounter)
    ensures
        relaxed_count(counter) == initial_count,
{
    RelaxedCounter::new(initial_count)
}

/// The count after one increment of `count`: one more, wrapping to zero past
/// `usize::MAX`.
pub open spec fn next_count(count: usize) -> usize {
    if count == usize::MAX {
        0
    } else {
        (count + 1) as usize
    }
}

/// Calls `atomic_counter::AtomicCounter::inc` on a `RelaxedCounter`, which is
/// `fetch_add(1)` on the atomic inside: it returns the count from before and
/// adds one, wrapping. The counter is borrowed exclusively, so no other handle
/// can change the count meanwhile.
#[verifier::external_body]
fn relaxed_counter_inc(counter: &mut RelaxedCounter) -> (previous: usize)
    ensures
        previous == relaxed_count(*old(counter)),
        relaxed_count(*final(counter)) == next_count(previous),
{
    atomic_counter::AtomicCounter::inc(counter)
}

/// Hands out ids from a counter that starts at zero.
pub struct UniqueIdGen {
    counter: RelaxedCounter,
}

impl UniqueIdGen {
    /// The id that the next call of `next_id` hands out.
    pub closed spec fn count(&self) -> usize {
        relaxed_count(self.counter)
    }

    /// A generator whose counter starts at zero.
    pub fn new() -> (g: UniqueIdGen)
        ensures
            g.count() == 0,
    {
        UniqueIdGen { counter: relaxed_counter_new(0) }
    }

    /// The next id: the counter's value, which is then advanced by one
    /// (wrapping to zero past `usize::MAX`).
    pub fn next_id(&mut self) -> (id: usize)
        ensures
            id == old(self).count(),
            final(self).count() == next_count(id),
    {
        relaxed_counter_inc(&mut self.counter)
    }
}

} // verus!
