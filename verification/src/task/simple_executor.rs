//! The round-robin executor: it polls every task in turn, whatever wakers
//! say, puts a task that is not finished back at the end of its queue and
//! drops one that is.

use vstd::prelude::*;
use std::collections::VecDeque;
use crate::task::{Poll, SleepFuture, Suspendable, Task};
use crate::ticks::TickCounter;

verus! {

/// The queue after the task that was just polled has been dealt with: a
/// pending task goes to the end, a finished one is dropped.
pub open spec fn settled<T>(queue: Seq<T>, task: T, outcome: Poll<()>) -> Seq<T> {
    match outcome {
        Poll::Pending => queue.push(task),
        Poll::Ready(_) => queue,
    }
}

/// What one step of the executor did.
#[derive(Debug, PartialEq, Eq)]
pub enum RunStep {
    /// There was no task to poll: the core may halt until the next
    /// interrupt.
    Idle,
    /// The task at the head of the queue was polled, with this outcome.
    Polled(Poll<()>),
}

/// The executor: a queue of tasks that are polled in turn.
pub struct SimpleExecutor<F: Suspendable> {
    task_queue: VecDeque<Task<F>>,
}

impl<F: Suspendable> SimpleExecutor<F> {
    /// The tasks in the order in which they will be polled.
    pub closed spec fn view(&self) -> Seq<Task<F>> {
        self.task_queue@
    }

    /// Every task of the queue is fit to be polled.
    pub open spec fn wf(&self) -> bool {
        forall|i: int| 0 <= i < self@.len() ==> (#[trigger] self@[i]).wf()
    }

    /// An executor without tasks.
    pub fn new() -> (executor: Self)
        ensures
            executor@ == Seq::<Task<F>>::empty(),
    {
        SimpleExecutor { task_queue: VecDeque::new() }
    }

    /// Puts a task at the end of the queue.
    pub fn spawn(&mut self, task: Task<F>)
        ensures
            final(self)@ == old(self)@.push(task),
    {
        self.task_queue.push_back(task);
    }

    /// Takes the task at the head of the queue, if there is one.
    pub fn next_task(&mut self) -> (task: Option<Task<F>>)
        ensures
            old(self)@.len() == 0 ==> task.is_none() && final(self)@ == old(self)@,
            old(self)@.len() > 0 ==> task == Some(old(self)@.first()) && final(self)@ == old(self)@.drop_first(),
    {
        let task = self.task_queue.pop_front();
        proof {
            if old(self)@.len() > 0 {
                assert(self@ =~= old(self)@.drop_first());
            }
        }
        task
    }

    /// Deals with a task that was just polled: a pending one goes to the end
    /// of the queue, a finished one is dropped and never polled again.
    pub fn settle(&mut self, task: Task<F>, outcome: Poll<()>)
        ensures
            final(self)@ == settled(old(self)@, task, outcome),
    {
        match outcome {
            Poll::Pending => {
                self.task_queue.push_back(task);
            },
            Poll::Ready(_) => {},
        }
    }

    /// What one step does to the queue and the context. With no task in the
    /// queue nothing changes and the step reports `Idle`. Else the task at
    /// the head is polled once, as its own poll says, and the step reports
    /// the outcome: a pending task is at the end of the queue afterwards, a
    /// finished one is gone, and the other tasks have moved up in their
    /// order.
    pub open spec fn stepped(
        before: Seq<Task<F>>,
        context: F::Context,
        after: Seq<Task<F>>,
        context_after: F::Context,
        done: RunStep,
    ) -> bool {
        if before.len() == 0 {
            done == RunStep::Idle && after == before
        } else {
            done matches RunStep::Polled(outcome) && match outcome {
                Poll::Pending => {
                    &&& after.len() == before.len()
                    &&& after.drop_last() == before.drop_first()
                    &&& F::polled(before.first()@, context, after.last()@, context_after, outcome)
                },
                Poll::Ready(_) => {
                    &&& after == before.drop_first()
                    &&& exists|polled: F|
                        F::polled(before.first()@, context, polled, context_after, outcome)
                },
            }
        }
    }

    /// Polls the task at the head of the queue once and settles it: see
    /// [`SimpleExecutor::stepped`].
    pub fn step(&mut self, context: &mut F::Context) -> (done: RunStep)
        requires
            old(self).wf(),
            F::context_wf(*old(context)),
        ensures
            final(self).wf(),
            F::context_wf(*final(context)),
            Self::stepped(old(self)@, *old(context), final(self)@, *final(context), done),
    {
        match self.next_task() {
            None => RunStep::Idle,
            Some(mut task) => {
                let ghost head = task@;
                assert(head == old(self)@.first()@);
                let outcome = task.poll(context);
                let ghost rest = self@;
                match outcome {
                    Poll::Pending => {
                        self.settle(task, Poll::Pending);
                        assert(self@.drop_last() =~= rest);
                        assert(self@.last() == task);
                        RunStep::Polled(Poll::Pending)
                    },
                    Poll::Ready(unit) => {
                        assert(F::polled(head, *old(context), task@, *context, Poll::Ready(unit)));
                        self.settle(task, Poll::Ready(unit));
                        RunStep::Polled(Poll::Ready(unit))
                    },
                }
            },
        }
    }
}

/// A task as the scheduler sees it: a name, and the number of polls after
/// which it completes.
pub struct Countdown {
    pub id: nat,
    pub left: nat,
}

/// One poll of such a task: its last poll completes it, any other leaves it
/// pending with one poll less to go.
pub open spec fn poll_countdown(task: Countdown) -> (Countdown, Poll<()>) {
    if task.left <= 1 {
        (Countdown { left: 0, ..task }, Poll::Ready(()))
    } else {
        (Countdown { left: (task.left - 1) as nat, ..task }, Poll::Pending)
    }
}

/// One step of the executor on a queue of such tasks.
pub open spec fn step_queue(queue: Seq<Countdown>) -> Seq<Countdown> {
    if queue.len() == 0 {
        queue
    } else {
        let (after, outcome) = poll_countdown(queue.first());
        settled(queue.drop_first(), after, outcome)
    }
}

/// The queue after a number of steps.
pub open spec fn run_queue(queue: Seq<Countdown>, steps: nat) -> Seq<Countdown>
    decreases steps,
{
    if steps == 0 {
        queue
    } else {
        run_queue(step_queue(queue), (steps - 1) as nat)
    }
}

/// The number of times that the task named `id` is polled in the first
/// `steps` steps.
pub open spec fn polls_of(queue: Seq<Countdown>, steps: nat, id: nat) -> nat
    decreases steps,
{
    if steps == 0 || queue.len() == 0 {
        0
    } else {
        let this: nat = if queue.first().id == id {
            1
        } else {
            0
        };
        this + polls_of(step_queue(queue), (steps - 1) as nat, id)
    }
}

/// The number of polls that the tasks of a queue need together.
pub open spec fn total_left(queue: Seq<Countdown>) -> nat
    decreases queue.len(),
{
    if queue.len() == 0 {
        0
    } else {
        queue.first().left + total_left(queue.drop_first())
    }
}

/// No two tasks of the queue have the same name, and each still needs a
/// poll.
pub open spec fn runnable(queue: Seq<Countdown>) -> bool {
    &&& forall|i: int, j: int|
        0 <= i < j < queue.len() ==> (#[trigger] queue[i]).id != (#[trigger] queue[j]).id
    &&& forall|i: int| 0 <= i < queue.len() ==> (#[trigger] queue[i]).left >= 1
}

proof fn lemma_total_push(queue: Seq<Countdown>, task: Countdown)
    ensures
        total_left(queue.push(task)) == total_left(queue) + task.left,
    decreases queue.len(),
{
    if queue.len() == 0 {
        assert(queue.push(task).drop_first() =~= queue);
    } else {
        assert(queue.push(task).drop_first() =~= queue.drop_first().push(task));
        lemma_total_push(queue.drop_first(), task);
    }
}

proof fn lemma_total_bounds(queue: Seq<Countdown>, i: int)
    requires
        0 <= i < queue.len(),
    ensures
        queue[i].left <= total_left(queue),
    decreases queue.len(),
{
    if i > 0 {
        lemma_total_bounds(queue.drop_first(), i - 1);
    }
}

proof fn lemma_step_runnable(queue: Seq<Countdown>)
    requires
        runnable(queue),
        queue.len() > 0,
    ensures
        runnable(step_queue(queue)),
        total_left(step_queue(queue)) + 1 == total_left(queue),
{
    let head = queue.first();
    let rest = queue.drop_first();
    assert(forall|i: int| 0 <= i < rest.len() ==> rest[i] == queue[i + 1]);
    if head.left > 1 {
        let after = poll_countdown(head).0;
        lemma_total_push(rest, after);
        let next = rest.push(after);
        assert forall|i: int, j: int| 0 <= i < j < next.len() implies (#[trigger] next[i]).id != (
        #[trigger] next[j]).id by {
            if j < rest.len() {
                assert(queue[i + 1].id != queue[j + 1].id);
            } else {
                assert(queue[0].id != queue[i + 1].id);
            }
        }
    }
}

proof fn lemma_absent_never_polled(queue: Seq<Countdown>, steps: nat, id: nat)
    requires
        forall|i: int| 0 <= i < queue.len() ==> (#[trigger] queue[i]).id != id,
    ensures
        polls_of(queue, steps, id) == 0,
    decreases steps,
{
    if steps > 0 && queue.len() > 0 {
        let rest = queue.drop_first();
        assert(forall|i: int| 0 <= i < rest.len() ==> rest[i] == queue[i + 1]);
        lemma_absent_never_polled(step_queue(queue), (steps - 1) as nat, id);
    }
}

/// Once every task has had the polls that it needs, the queue is empty, and
/// it stays so.
pub proof fn lemma_run_empties(queue: Seq<Countdown>, steps: nat)
    requires
        runnable(queue),
        steps >= total_left(queue),
    ensures
        run_queue(queue, steps).len() == 0,
    decreases steps,
{
    if steps > 0 {
        if queue.len() > 0 {
            lemma_step_runnable(queue);
        }
        lemma_run_empties(step_queue(queue), (steps - 1) as nat);
    } else if queue.len() > 0 {
        lemma_total_bounds(queue, 0);
    }
}

/// A task that completes after exactly `k` polls is polled exactly `k`
/// times and never again: in a queue of tasks with distinct names, at no
/// time has the executor polled a task more often than the task needs, and
/// from the step at which all tasks are done the count is exactly that
/// number, however many steps follow.
pub proof fn lemma_polled_exactly(queue: Seq<Countdown>, i: int, steps: nat)
    requires
        runnable(queue),
        0 <= i < queue.len(),
    ensures
        polls_of(queue, steps, queue[i].id) <= queue[i].left,
        steps >= total_left(queue) ==> polls_of(queue, steps, queue[i].id) == queue[i].left,
    decreases steps,
{
    lemma_total_bounds(queue, i);
    if steps > 0 {
        let head = queue.first();
        let rest = queue.drop_first();
        let next = step_queue(queue);
        let id = queue[i].id;
        lemma_step_runnable(queue);
        assert(forall|k: int| 0 <= k < rest.len() ==> rest[k] == queue[k + 1]);
        if i == 0 {
            if head.left == 1 {
                assert forall|k: int| 0 <= k < next.len() implies (#[trigger] next[k]).id != id by {
                    assert(queue[0].id != queue[k + 1].id);
                }
                lemma_absent_never_polled(next, (steps - 1) as nat, id);
            } else {
                assert(next[next.len() - 1] == poll_countdown(head).0);
                lemma_polled_exactly(next, next.len() - 1, (steps - 1) as nat);
            }
        } else {
            assert(next[i - 1] == queue[i]);
            assert(queue[0].id != queue[i].id);
            lemma_polled_exactly(next, i - 1, (steps - 1) as nat);
        }
    }
}

/// A queue of tasks as the scheduler sees it, where `countdown` tells of
/// each computation its name and the number of polls that it still needs.
pub open spec fn queue_model<F: Suspendable>(
    queue: Seq<Task<F>>,
    countdown: spec_fn(F) -> Countdown,
) -> Seq<Countdown> {
    Seq::new(queue.len(), |i: int| countdown(queue[i]@))
}

/// The computations of type `F` count down as `countdown` says: a poll
/// completes a computation that needs one poll more, or none, and leaves
/// any other pending, under its name, with one poll less to go.
pub open spec fn counts_down<F: Suspendable>(countdown: spec_fn(F) -> Countdown) -> bool {
    forall|before: F, context: F::Context, after: F, context_after: F::Context, poll: Poll<()>|
        #[trigger] F::polled(before, context, after, context_after, poll) ==> {
            &&& (poll is Pending) == (countdown(before).left > 1)
            &&& poll is Pending ==> countdown(after) == poll_countdown(countdown(before)).0
        }
}

/// For computations that count down, a step of the executor is a step of
/// the scheduler's queue. So what holds of every run of that queue holds of
/// the executor: it polls a task exactly as often as the task needs, and
/// never again.
pub proof fn lemma_step_counts_down<F: Suspendable>(
    before: Seq<Task<F>>,
    context: F::Context,
    after: Seq<Task<F>>,
    context_after: F::Context,
    done: RunStep,
    countdown: spec_fn(F) -> Countdown,
)
    requires
        SimpleExecutor::<F>::stepped(before, context, after, context_after, done),
        counts_down::<F>(countdown),
    ensures
        queue_model(after, countdown) == step_queue(queue_model(before, countdown)),
{
    let model = queue_model(before, countdown);
    if before.len() > 0 {
        let outcome = done->Polled_0;
        let rest = before.drop_first();
        assert(queue_model(rest, countdown) =~= model.drop_first());
        match outcome {
            Poll::Pending => {
                assert(F::polled(before.first()@, context, after.last()@, context_after, outcome));
                assert(queue_model(after, countdown) =~= model.drop_first().push(
                    countdown(after.last()@),
                )) by {
                    assert forall|i: int| 0 <= i < after.len() - 1 implies after[i] == rest[i] by {
                        assert(after.drop_last()[i] == rest[i]);
                    }
                }
            },
            Poll::Ready(_) => {
                let polled = choose|polled: F|
                    F::polled(before.first()@, context, polled, context_after, outcome);
                assert(F::polled(before.first()@, context, polled, context_after, outcome));
            },
        }
    }
    assert(queue_model(after, countdown) =~= step_queue(model));
}

/// A task that sleeps and then completes: while the tick counter is below
/// the sleep's deadline, a step of the executor finds the task pending and
/// puts it back unchanged; at the first step at which the counter has
/// reached the deadline the task completes and leaves the queue. The step
/// leaves the counter alone.
pub proof fn lemma_sleep_task_step(
    before: Seq<Task<SleepFuture>>,
    context: TickCounter,
    after: Seq<Task<SleepFuture>>,
    context_after: TickCounter,
    done: RunStep,
)
    requires
        before.len() == 1,
        SimpleExecutor::<SleepFuture>::stepped(before, context, after, context_after, done),
    ensures
        context_after@ == context@,
        done matches RunStep::Polled(outcome) && (outcome is Ready) == before[0]@.is_ready(
            context@,
        ),
        !before[0]@.is_ready(context@) ==> after.len() == 1 && after[0]@ == before[0]@,
        before[0]@.is_ready(context@) ==> after.len() == 0,
{
}

} // verus!
