use std::sync::atomic::{AtomicUsize, Ordering};
use std::sync::Arc;
use std::task::{Wake, Waker};

use tm_os::interrupts::{keyboard_interrupt_handler, InterruptIndex};
use tm_os::task::keyboard::{add_scancode, ScancodeStream, SCANCODE_QUEUE_CAPACITY};
use tm_os::task::Poll;

struct WakeCount {
    wakes: AtomicUsize,
}

impl Wake for WakeCount {
    fn wake(self: Arc<Self>) {
        self.wakes.fetch_add(1, Ordering::SeqCst);
    }
}

fn counting_waker() -> (Arc<WakeCount>, Waker) {
    let count = Arc::new(WakeCount { wakes: AtomicUsize::new(0) });
    let waker = Waker::from(count.clone());
    (count, waker)
}

fn drain(stream: &mut ScancodeStream, waker: &Waker) -> Vec<u8> {
    let mut seen = Vec::new();
    while let Poll::Ready(Some(scancode)) = stream.poll_next(waker) {
        seen.push(scancode);
    }
    seen
}

#[test]
fn capacity_is_one_hundred() {
    assert_eq!(SCANCODE_QUEUE_CAPACITY, 100);
}

#[test]
fn empty_bridge_reports_pending() {
    let (_count, waker) = counting_waker();
    let mut stream = ScancodeStream::new();
    assert_eq!(stream.poll_next(&waker), Poll::Pending);
}

#[test]
fn scancodes_are_read_in_the_order_pushed() {
    let (_count, waker) = counting_waker();
    let mut stream = ScancodeStream::new();
    let pushed: Vec<u8> = vec![0x1e, 0x30, 0x2e, 0x9e, 0xb0, 0xae, 0x00, 0xff];
    for &scancode in &pushed {
        add_scancode(&mut stream, scancode);
    }
    for &scancode in &pushed {
        assert_eq!(stream.poll_next(&waker), Poll::Ready(Some(scancode)));
    }
    assert_eq!(stream.poll_next(&waker), Poll::Pending);
}

#[test]
fn pushes_and_polls_may_alternate() {
    let (_count, waker) = counting_waker();
    let mut stream = ScancodeStream::new();
    add_scancode(&mut stream, 1);
    add_scancode(&mut stream, 2);
    assert_eq!(stream.poll_next(&waker), Poll::Ready(Some(1)));
    add_scancode(&mut stream, 3);
    assert_eq!(stream.poll_next(&waker), Poll::Ready(Some(2)));
    assert_eq!(stream.poll_next(&waker), Poll::Ready(Some(3)));
    assert_eq!(stream.poll_next(&waker), Poll::Pending);
}

#[test]
fn the_push_into_a_full_queue_is_dropped() {
    let (_count, waker) = counting_waker();
    let mut stream = ScancodeStream::new();
    let pushed: Vec<u8> = (0..=100u8).collect();
    assert_eq!(pushed.len(), 101);
    for &scancode in &pushed {
        add_scancode(&mut stream, scancode);
    }
    let seen = drain(&mut stream, &waker);
    assert_eq!(seen.len(), 100);
    assert_eq!(seen, pushed[..100].to_vec());
    assert!(!seen.contains(&100));
}

#[test]
fn a_full_queue_takes_scancodes_again_once_it_is_read() {
    let (_count, waker) = counting_waker();
    let mut stream = ScancodeStream::new();
    for scancode in 0..100u8 {
        add_scancode(&mut stream, scancode);
    }
    add_scancode(&mut stream, 200);
    assert_eq!(stream.poll_next(&waker), Poll::Ready(Some(0)));
    add_scancode(&mut stream, 201);
    let seen = drain(&mut stream, &waker);
    assert_eq!(seen.len(), 100);
    assert_eq!(seen[0], 1);
    assert_eq!(seen[99], 201);
}

#[test]
fn a_push_after_a_pending_poll_wakes_the_reader_once() {
    let (count, waker) = counting_waker();
    let mut stream = ScancodeStream::new();
    assert_eq!(stream.poll_next(&waker), Poll::Pending);
    assert_eq!(count.wakes.load(Ordering::SeqCst), 0);
    add_scancode(&mut stream, 0x1e);
    assert_eq!(count.wakes.load(Ordering::SeqCst), 1);
    assert_eq!(stream.poll_next(&waker), Poll::Ready(Some(0x1e)));
    add_scancode(&mut stream, 0x9e);
    assert_eq!(count.wakes.load(Ordering::SeqCst), 1);
}

#[test]
fn a_push_before_the_poll_is_delivered_by_that_poll() {
    let (count, waker) = counting_waker();
    let mut stream = ScancodeStream::new();
    add_scancode(&mut stream, 0x2a);
    assert_eq!(count.wakes.load(Ordering::SeqCst), 0);
    assert_eq!(stream.poll_next(&waker), Poll::Ready(Some(0x2a)));
}

#[test]
fn a_push_with_nobody_waiting_wakes_nobody() {
    let (count, _waker) = counting_waker();
    let mut stream = ScancodeStream::new();
    add_scancode(&mut stream, 7);
    add_scancode(&mut stream, 8);
    assert_eq!(count.wakes.load(Ordering::SeqCst), 0);
}

#[test]
fn a_dropped_push_wakes_nobody() {
    let (count, waker) = counting_waker();
    let mut stream = ScancodeStream::new();
    assert_eq!(stream.poll_next(&waker), Poll::Pending);
    add_scancode(&mut stream, 0);
    assert_eq!(count.wakes.load(Ordering::SeqCst), 1);
    for scancode in 1..100u8 {
        add_scancode(&mut stream, scancode);
    }
    assert_eq!(stream.poll_next(&waker), Poll::Ready(Some(0)));
    add_scancode(&mut stream, 100);
    assert_eq!(count.wakes.load(Ordering::SeqCst), 1);
    add_scancode(&mut stream, 101);
    assert_eq!(count.wakes.load(Ordering::SeqCst), 1);
    let seen = drain(&mut stream, &waker);
    assert_eq!(seen.len(), 100);
    assert_eq!(seen[99], 100);
}

#[test]
fn a_later_reader_takes_the_place_of_an_earlier_one() {
    let (first_count, first) = counting_waker();
    let (second_count, second) = counting_waker();
    let mut stream = ScancodeStream::new();
    assert_eq!(stream.poll_next(&first), Poll::Pending);
    assert_eq!(stream.poll_next(&second), Poll::Pending);
    add_scancode(&mut stream, 9);
    assert_eq!(first_count.wakes.load(Ordering::SeqCst), 0);
    assert_eq!(second_count.wakes.load(Ordering::SeqCst), 1);
}

#[test]
fn a_push_between_the_first_look_and_the_registration_is_delivered() {
    let (count, waker) = counting_waker();
    let mut stream = ScancodeStream::new();
    assert_eq!(stream.pop(), None);
    add_scancode(&mut stream, 0x1e);
    stream.register(&waker);
    assert_eq!(stream.recheck(), Poll::Ready(Some(0x1e)));
    assert_eq!(count.wakes.load(Ordering::SeqCst), 0);
    // the waker was taken back: a later push wakes nobody
    add_scancode(&mut stream, 0x9e);
    assert_eq!(count.wakes.load(Ordering::SeqCst), 0);
    assert_eq!(stream.poll_next(&waker), Poll::Ready(Some(0x9e)));
}

#[test]
fn a_push_between_the_registration_and_the_second_look_is_delivered() {
    let (count, waker) = counting_waker();
    let mut stream = ScancodeStream::new();
    assert_eq!(stream.pop(), None);
    stream.register(&waker);
    add_scancode(&mut stream, 0x1e);
    assert_eq!(count.wakes.load(Ordering::SeqCst), 1);
    assert_eq!(stream.recheck(), Poll::Ready(Some(0x1e)));
}

#[test]
fn a_push_after_the_second_look_wakes_the_reader_for_its_next_poll() {
    let (count, waker) = counting_waker();
    let mut stream = ScancodeStream::new();
    assert_eq!(stream.pop(), None);
    stream.register(&waker);
    assert_eq!(stream.recheck(), Poll::Pending);
    add_scancode(&mut stream, 0x1e);
    assert_eq!(count.wakes.load(Ordering::SeqCst), 1);
    assert_eq!(stream.poll_next(&waker), Poll::Ready(Some(0x1e)));
}

#[test]
fn every_place_of_a_push_among_the_steps_of_a_poll_delivers() {
    for place in 0..4 {
        let (count, waker) = counting_waker();
        let mut stream = ScancodeStream::new();
        let mut got = None;
        if place == 0 {
            add_scancode(&mut stream, 7);
        }
        if let Some(scancode) = stream.pop() {
            got = Some(scancode);
        } else {
            if place == 1 {
                add_scancode(&mut stream, 7);
            }
            stream.register(&waker);
            if place == 2 {
                add_scancode(&mut stream, 7);
            }
            if let Poll::Ready(Some(scancode)) = stream.recheck() {
                got = Some(scancode);
            }
        }
        if place == 3 {
            assert_eq!(got, None);
            add_scancode(&mut stream, 7);
            assert_eq!(count.wakes.load(Ordering::SeqCst), 1);
            if let Poll::Ready(Some(scancode)) = stream.poll_next(&waker) {
                got = Some(scancode);
            }
        }
        assert_eq!(got, Some(7), "push at place {}", place);
    }
}

#[test]
fn keyboard_interrupt_pushes_and_names_its_vector() {
    let (count, waker) = counting_waker();
    let mut stream = ScancodeStream::new();
    assert_eq!(stream.poll_next(&waker), Poll::Pending);
    let done = keyboard_interrupt_handler(&mut stream, 0x1e);
    assert_eq!(done.vector, 33);
    assert_eq!(done.vector, InterruptIndex::Keyboard.as_u8());
    assert_eq!(count.wakes.load(Ordering::SeqCst), 1);
    assert_eq!(stream.poll_next(&waker), Poll::Ready(Some(0x1e)));
}

#[test]
fn scenario_overflow_of_one_hundred_and_one_bytes() {
    let (_count, waker) = counting_waker();
    let mut stream = ScancodeStream::new();
    let pushed: Vec<u8> = (0..101u32).map(|i| (i * 2 % 251) as u8).collect();
    for &scancode in &pushed {
        add_scancode(&mut stream, scancode);
    }
    let mut seen = Vec::new();
    for _ in 0..100 {
        match stream.poll_next(&waker) {
            Poll::Ready(Some(scancode)) => seen.push(scancode),
            other => panic!("expected a scancode, got {:?}", other),
        }
    }
    assert_eq!(stream.poll_next(&waker), Poll::Pending);
    assert_eq!(seen.len(), 100);
    assert_eq!(seen, pushed[..100].to_vec());
}

#[test]
fn a_poll_that_finds_a_scancode_registers_no_waker() {
    let (count, waker) = counting_waker();
    let mut stream = ScancodeStream::new();
    add_scancode(&mut stream, 1);
    assert_eq!(stream.poll_next(&waker), Poll::Ready(Some(1)));
    add_scancode(&mut stream, 2);
    assert_eq!(count.wakes.load(Ordering::SeqCst), 0);
}

#[test]
fn a_poll_that_finds_a_scancode_leaves_an_earlier_registration_alone() {
    let (first_count, first) = counting_waker();
    let (second_count, second) = counting_waker();
    let mut stream = ScancodeStream::new();
    assert_eq!(stream.poll_next(&first), Poll::Pending);
    add_scancode(&mut stream, 1);
    assert_eq!(first_count.wakes.load(Ordering::SeqCst), 1);
    stream.register(&first);
    assert_eq!(stream.poll_next(&second), Poll::Ready(Some(1)));
    add_scancode(&mut stream, 2);
    assert_eq!(first_count.wakes.load(Ordering::SeqCst), 2);
    assert_eq!(second_count.wakes.load(Ordering::SeqCst), 0);
}

#[test]
fn registering_the_same_waker_twice_wakes_it_once() {
    let (count, waker) = counting_waker();
    let mut stream = ScancodeStream::new();
    stream.register(&waker);
    stream.register(&waker);
    stream.register(&waker.clone());
    add_scancode(&mut stream, 1);
    assert_eq!(count.wakes.load(Ordering::SeqCst), 1);
    add_scancode(&mut stream, 2);
    assert_eq!(count.wakes.load(Ordering::SeqCst), 1);
}

#[test]
fn the_second_look_takes_the_waker_back_unwoken() {
    let (count, waker) = counting_waker();
    let mut stream = ScancodeStream::new();
    stream.register(&waker);
    assert_eq!(stream.recheck(), Poll::Pending);
    add_scancode(&mut stream, 1);
    assert_eq!(count.wakes.load(Ordering::SeqCst), 1);
    stream.register(&waker);
    add_scancode(&mut stream, 2);
    assert_eq!(count.wakes.load(Ordering::SeqCst), 2);
    stream.register(&waker);
    assert_eq!(stream.recheck(), Poll::Ready(Some(1)));
    assert_eq!(count.wakes.load(Ordering::SeqCst), 2);
    add_scancode(&mut stream, 3);
    assert_eq!(count.wakes.load(Ordering::SeqCst), 2);
}
