use std::cell::Cell;
use std::rc::Rc;

use tm_os::interrupts::timer_interrupt_handler;
use tm_os::task::simple_executor::{RunStep, SimpleExecutor};
use tm_os::task::{sleep, Poll, SleepFuture, Suspendable, Task};
use tm_os::ticks::TickCounter;

/// Completes at its `needed`-th poll and counts every poll it gets.
struct CountedTask {
    needed: usize,
    polls: Rc<Cell<usize>>,
    log: Rc<Cell<u64>>,
    digit: u64,
}

impl Suspendable for CountedTask {
    type Context = TickCounter;

    fn poll(&mut self, _context: &mut TickCounter) -> Poll<()> {
        self.polls.set(self.polls.get() + 1);
        self.log.set(self.log.get() * 10 + self.digit);
        if self.polls.get() >= self.needed {
            Poll::Ready(())
        } else {
            Poll::Pending
        }
    }
}

fn counted(needed: usize, digit: u64, log: &Rc<Cell<u64>>) -> (Rc<Cell<usize>>, Task<CountedTask>) {
    let polls = Rc::new(Cell::new(0));
    let task = Task::new(CountedTask { needed, polls: polls.clone(), log: log.clone(), digit });
    (polls, task)
}

/// Sleeps for `ms` ticks from its first poll and then completes.
struct SleepThenDone {
    ms: u64,
    nap: Option<SleepFuture>,
}

impl Suspendable for SleepThenDone {
    type Context = TickCounter;

    fn poll(&mut self, ticks: &mut TickCounter) -> Poll<()> {
        if self.nap.is_none() {
            self.nap = Some(sleep(ticks, self.ms));
        }
        match &self.nap {
            Some(nap) => nap.poll(ticks),
            None => unreachable!(),
        }
    }
}

#[test]
fn an_executor_without_tasks_is_idle() {
    let mut ticks = TickCounter::new();
    let mut executor: SimpleExecutor<CountedTask> = SimpleExecutor::new();
    assert_eq!(executor.step(&mut ticks), RunStep::Idle);
    assert_eq!(executor.step(&mut ticks), RunStep::Idle);
}

#[test]
fn task_poll_reports_what_the_computation_reports() {
    let mut ticks = TickCounter::new();
    let log = Rc::new(Cell::new(0));
    let (polls, mut task) = counted(2, 1, &log);
    assert_eq!(task.poll(&mut ticks), Poll::Pending);
    assert_eq!(task.poll(&mut ticks), Poll::Ready(()));
    assert_eq!(polls.get(), 2);
}

#[test]
fn a_task_that_needs_k_polls_is_polled_exactly_k_times() {
    for k in 1..=6usize {
        let mut ticks = TickCounter::new();
        let log = Rc::new(Cell::new(0));
        let mut executor = SimpleExecutor::new();
        let (polls, task) = counted(k, 1, &log);
        executor.spawn(task);
        for _ in 1..k {
            assert_eq!(executor.step(&mut ticks), RunStep::Polled(Poll::Pending));
        }
        assert_eq!(executor.step(&mut ticks), RunStep::Polled(Poll::Ready(())));
        assert_eq!(polls.get(), k);
        for _ in 0..10 {
            assert_eq!(executor.step(&mut ticks), RunStep::Idle);
        }
        assert_eq!(polls.get(), k);
    }
}

#[test]
fn tasks_are_polled_in_turn_and_pending_ones_go_to_the_end() {
    let mut ticks = TickCounter::new();
    let log = Rc::new(Cell::new(0));
    let mut executor = SimpleExecutor::new();
    let (first, task) = counted(3, 1, &log);
    executor.spawn(task);
    let (second, task) = counted(1, 2, &log);
    executor.spawn(task);
    let (third, task) = counted(2, 3, &log);
    executor.spawn(task);
    let mut steps = 0;
    while executor.step(&mut ticks) != RunStep::Idle {
        steps += 1;
    }
    assert_eq!(steps, 6);
    assert_eq!(log.get(), 123131);
    assert_eq!((first.get(), second.get(), third.get()), (3, 1, 2));
}

#[test]
fn next_task_and_settle_move_tasks_through_the_queue() {
    let log = Rc::new(Cell::new(0));
    let mut executor = SimpleExecutor::new();
    assert!(executor.next_task().is_none());
    let (_a, task) = counted(5, 1, &log);
    executor.spawn(task);
    let (_b, task) = counted(5, 2, &log);
    executor.spawn(task);
    let head = executor.next_task().expect("a task");
    executor.settle(head, Poll::Pending);
    let mut ticks = TickCounter::new();
    assert_eq!(executor.step(&mut ticks), RunStep::Polled(Poll::Pending));
    assert_eq!(log.get(), 2);
    let head = executor.next_task().expect("a task");
    executor.settle(head, Poll::Ready(()));
    assert_eq!(executor.step(&mut ticks), RunStep::Polled(Poll::Pending));
    assert_eq!(log.get(), 22);
}

#[test]
fn scenario_sleep_of_fifty_ticks() {
    let mut ticks = TickCounter::new();
    let mut executor = SimpleExecutor::new();
    executor.spawn(Task::new(SleepThenDone { ms: 50, nap: None }));
    assert_eq!(executor.step(&mut ticks), RunStep::Polled(Poll::Pending));
    for tick in 1..=49u64 {
        let _ = timer_interrupt_handler(&mut ticks);
        assert_eq!(ticks.now(), tick);
        assert_eq!(executor.step(&mut ticks), RunStep::Polled(Poll::Pending));
    }
    let _ = timer_interrupt_handler(&mut ticks);
    assert_eq!(ticks.now(), 50);
    assert_eq!(executor.step(&mut ticks), RunStep::Polled(Poll::Ready(())));
    assert_eq!(executor.step(&mut ticks), RunStep::Idle);
}

#[test]
fn a_sleep_is_a_task_of_its_own() {
    let mut ticks = TickCounter::new();
    let mut executor = SimpleExecutor::new();
    executor.spawn(Task::new(sleep(&ticks, 50)));
    for tick in 0..50u64 {
        assert_eq!(ticks.now(), tick);
        assert_eq!(executor.step(&mut ticks), RunStep::Polled(Poll::Pending));
        let _ = timer_interrupt_handler(&mut ticks);
    }
    assert_eq!(ticks.now(), 50);
    assert_eq!(executor.step(&mut ticks), RunStep::Polled(Poll::Ready(())));
    assert_eq!(executor.step(&mut ticks), RunStep::Idle);
}

#[test]
fn polling_a_sleep_as_a_task_changes_neither_sleep_nor_counter() {
    let mut ticks = TickCounter::new();
    let mut task = Task::new(sleep(&ticks, 2));
    assert_eq!(task.poll(&mut ticks), Poll::Pending);
    assert_eq!(task.poll(&mut ticks), Poll::Pending);
    assert_eq!(ticks.now(), 0);
    ticks.advance();
    ticks.advance();
    assert_eq!(task.poll(&mut ticks), Poll::Ready(()));
    assert_eq!(task.poll(&mut ticks), Poll::Ready(()));
    assert_eq!(ticks.now(), 2);
}

#[test]
fn sleeps_of_different_lengths_complete_in_the_order_of_their_deadlines() {
    let mut ticks = TickCounter::new();
    let mut executor = SimpleExecutor::new();
    executor.spawn(Task::new(sleep(&ticks, 3)));
    executor.spawn(Task::new(sleep(&ticks, 1)));
    assert_eq!(executor.step(&mut ticks), RunStep::Polled(Poll::Pending));
    assert_eq!(executor.step(&mut ticks), RunStep::Polled(Poll::Pending));
    ticks.advance();
    // the longer sleep is at the head again
    assert_eq!(executor.step(&mut ticks), RunStep::Polled(Poll::Pending));
    assert_eq!(executor.step(&mut ticks), RunStep::Polled(Poll::Ready(())));
    ticks.advance();
    assert_eq!(executor.step(&mut ticks), RunStep::Polled(Poll::Pending));
    ticks.advance();
    assert_eq!(executor.step(&mut ticks), RunStep::Polled(Poll::Ready(())));
    assert_eq!(executor.step(&mut ticks), RunStep::Idle);
}
