//! Cooperative tasks: the tick-based sleep, the scancode bridge and the
//! executor.

use vstd::prelude::*;
use crate::ticks::TickCounter;

pub mod keyboard;
pub mod simple_executor;

verus! {

/// What polling a suspendable computation gives: its value, or the notice
/// that it is not ready and has to be polled again.
#[derive(Debug, PartialEq, Eq, Structural)]
pub enum Poll<T> {
    Ready(T),
    Pending,
}

/// A computation that can be suspended: it is polled until it reports that
/// it is finished. Each poll runs it to its next suspension point.
pub trait Suspendable: Sized {
    /// What a poll may read and change besides the computation itself.
    type Context;

    /// What has to hold of the computation between polls. Unless a
    /// computation says otherwise, nothing.
    open spec fn wf(self) -> bool {
        true
    }

    /// What has to hold of the context between polls. Unless a computation
    /// says otherwise, nothing.
    open spec fn context_wf(context: Self::Context) -> bool {
        true
    }

    /// What one poll does: it takes the computation from `before` to
    /// `after` and the context from `context` to `context_after`, and
    /// reports `poll`. Unless a computation says otherwise, a poll may do
    /// anything.
    open spec fn polled(
        before: Self,
        context: Self::Context,
        after: Self,
        context_after: Self::Context,
        poll: Poll<()>,
    ) -> bool {
        true
    }

    /// Runs the computation to its next suspension point, or to its end.
    fn poll(&mut self, context: &mut Self::Context) -> (poll: Poll<()>)
        requires
            old(self).wf(),
            Self::context_wf(*old(context)),
        ensures
            final(self).wf(),
            Self::context_wf(*final(context)),
            Self::polled(*old(self), *old(context), *final(self), *final(context), poll),
    ;
}

/// A unit of work for the executor: a suspendable computation that the
/// executor owns from the moment it is spawned until it completes.
pub struct Task<F: Suspendable> {
    future: F,
}

impl<F: Suspendable> Task<F> {
    /// The computation in its present state.
    pub closed spec fn view(&self) -> F {
        self.future
    }

    /// The computation is fit to be polled.
    pub open spec fn wf(&self) -> bool {
        self@.wf()
    }

    /// Wraps a computation as a task.
    pub fn new(future: F) -> (task: Task<F>)
        ensures
            task@ == future,
    {
        Task { future }
    }

    /// Polls the computation once.
    pub fn poll(&mut self, context: &mut F::Context) -> (poll: Poll<()>)
        requires
            old(self).wf(),
            F::context_wf(*old(context)),
        ensures
            final(self).wf(),
            F::context_wf(*final(context)),
            F::polled(old(self)@, *old(context), final(self)@, *final(context), poll),
    {
        self.future.poll(context)
    }
}

/// A suspension point that becomes ready once the tick counter has reached a
/// deadline. It registers with no waker: whoever waits on it polls it again.
#[derive(Debug, Clone, Copy)]
pub struct SleepFuture {
    target_tick: u128,
}

impl SleepFuture {
    /// The tick at which the sleep ends: the tick of its creation plus the
    /// delay asked for. It is kept in 128 bits, so the sum is exact.
    pub closed spec fn target(&self) -> nat {
        self.target_tick as nat
    }

    /// The sleep of `ms` ticks that starts at the tick `now`.
    pub closed spec fn starting(now: u64, ms: u64) -> SleepFuture {
        SleepFuture { target_tick: (now + ms) as u128 }
    }

    /// A sleep ends at the tick of its start plus its length.
    pub proof fn lemma_starting(now: u64, ms: u64)
        ensures
            Self::starting(now, ms).target() == now + ms,
    {
    }

    /// Whether the sleep is over when the tick counter shows `now`.
    pub open spec fn is_ready(&self, now: u64) -> bool {
        now >= self.target()
    }

    /// Compares the tick counter with the deadline: `Ready` once the counter
    /// has reached it, `Pending` before.
    pub fn poll(&self, ticks: &TickCounter) -> (poll: Poll<()>)
        ensures
            poll == if self.is_ready(ticks@) {
                Poll::Ready(())
            } else {
                Poll::<()>::Pending
            },
    {
        if ticks.now() as u128 >= self.target_tick {
            Poll::Ready(())
        } else {
            Poll::Pending
        }
    }
}

/// A sleep is a computation of its own: a task made of it completes at the
/// first poll at which the sleep is over.
impl Suspendable for SleepFuture {
    type Context = TickCounter;

    /// A poll compares the tick counter with the deadline and changes
    /// neither the sleep nor the counter: it reports `Ready` once the
    /// counter has reached the deadline, and `Pending` before.
    open spec fn polled(
        before: Self,
        context: TickCounter,
        after: Self,
        context_after: TickCounter,
        poll: Poll<()>,
    ) -> bool {
        &&& after == before
        &&& context_after@ == context@
        &&& (poll is Ready) == before.is_ready(context@)
    }

    fn poll(&mut self, context: &mut TickCounter) -> (poll: Poll<()>) {
        SleepFuture::poll(&*self, &*context)
    }
}

/// Starts a sleep of `ms` ticks from now: it is ready once the tick counter
/// has advanced by `ms` from the value it shows at this call.
pub fn sleep(ticks: &TickCounter, ms: u64) -> (future: SleepFuture)
    ensures
        future == SleepFuture::starting(ticks@, ms),
        future.target() == ticks@ + ms,
{
    let target_tick: u128 = ticks.now() as u128 + ms as u128;
    SleepFuture { target_tick }
}

/// A sleep of no ticks is ready at once, at the tick of its creation, and a
/// sleep of `ms` ticks is ready exactly when the tick counter has advanced
/// by at least `ms` since its creation.
pub proof fn lemma_sleep_ready(future: SleepFuture, created: u64, ms: u64, now: u64)
    requires
        future.target() == created + ms,
        now >= created,
    ensures
        future.is_ready(created) <==> ms == 0,
        future.is_ready(now) <==> now - created >= ms,
{
}

} // verus!
