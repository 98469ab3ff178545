//! The monotonic tick counter, advanced once per timer interrupt.

use vstd::prelude::*;

verus! {

/// The kernel's only notion of elapsed time: a 64-bit count of timer
/// interrupts. It has one writer, the timer handler, and never decreases;
/// at the top of its range it stays where it is.
pub struct TickCounter {
    ticks: u64,
}

impl TickCounter {
    /// The number of ticks counted so far.
    pub closed spec fn view(&self) -> u64 {
        self.ticks
    }

    /// A counter that has seen no tick yet.
    pub fn new() -> (counter: Self)
        ensures
            counter@ == 0,
    {
        TickCounter { ticks: 0 }
    }

    /// Reads the counter without changing it.
    pub fn now(&self) -> (ticks: u64)
        ensures
            ticks == self@,
    {
        self.ticks
    }

    /// Counts one timer interrupt.
    pub fn advance(&mut self)
        ensures
            final(self)@ == next_tick(old(self)@),
            final(self)@ >= old(self)@,
    {
        if self.ticks < u64::MAX {
            self.ticks = self.ticks + 1;
        }
    }
}

/// The counter's value after one more timer interrupt.
pub open spec fn next_tick(ticks: u64) -> u64 {
    if ticks < u64::MAX {
        (ticks + 1) as u64
    } else {
        ticks
    }
}

/// The counter's value after `count` more timer interrupts.
pub open spec fn after_ticks(ticks: u64, count: nat) -> u64
    decreases count,
{
    if count == 0 {
        ticks
    } else {
        next_tick(after_ticks(ticks, (count - 1) as nat))
    }
}

/// The counter never decreases: of two reads, the later one, with any
/// number of timer interrupts in between, gives at least what the earlier
/// one gave. Below the top of its range it counts every timer interrupt.
pub proof fn lemma_ticks_monotonic(ticks: u64, count: nat)
    ensures
        after_ticks(ticks, count) >= ticks,
        ticks + count <= u64::MAX ==> after_ticks(ticks, count) == ticks + count,
    decreases count,
{
    if count > 0 {
        lemma_ticks_monotonic(ticks, (count - 1) as nat);
    }
}

} // verus!
