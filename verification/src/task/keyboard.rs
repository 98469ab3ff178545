//! From the keyboard to the shell task: the bridge that takes scancodes
//! from the keyboard interrupt, a bounded queue with a slot for the waker of
//! the one task that waits for them; the decoder that turns scancodes into
//! keys; and the shell task, which edits a line and runs it as a command.

use vstd::prelude::*;
use core::task::Waker;
use crossbeam_queue::ArrayQueue;
use futures_util::task::AtomicWaker;
use pc_keyboard::layouts::Us104Key;
use pc_keyboard::{DecodedKey, HandleControl, KeyCode, KeyEvent, Keyboard, ScancodeSet1};
use vstd::string::StringSliceAdditionalSpecFns;
use crate::fs::{file_table, find_file, list_files, listing_shown, lookup};
use crate::task::{sleep, Poll, SleepFuture, Suspendable};
use crate::text::{
    args_of, command_of, decimal, parse_number, parse_u64, split_command, sum_to, sum_up_to,
    to_decimal, trim, trimmed, word_is,
};
use crate::ticks::TickCounter;
use crate::vga_buffer::{Screen, Writer};

verus! {

/// `crossbeam_queue::ArrayQueue`, the bounded queue. Its contents are
/// known to the verifier only through [`queue_items`] and [`queue_limit`].
#[verifier::external_type_specification]
#[verifier::external_body]
#[verifier::reject_recursive_types(T)]
pub struct ExArrayQueue<T>(ArrayQueue<T>);

/// `core::task::Waker`, carried through unopened.
#[verifier::external_type_specification]
#[verifier::external_body]
pub struct ExWaker(Waker);

/// `pc_keyboard::KeyEvent`, carried from one call of the decoder to the
/// next unopened.
#[verifier::external_type_specification]
#[verifier::external_body]
pub struct ExKeyEvent(KeyEvent);

/// `pc_keyboard::Error`, the decoder's refusal of a scancode.
#[verifier::external_type_specification]
#[verifier::external_body]
pub struct ExKeyboardError(pc_keyboard::Error);

/// The scancodes that a queue holds, oldest first.
pub uninterp spec fn queue_items(queue: ArrayQueue<u8>) -> Seq<u8>;

/// The number of scancodes that a queue was made to hold.
pub uninterp spec fn queue_limit(queue: ArrayQueue<u8>) -> nat;

/// The slot for the waker of the one task that waits for scancodes. It
/// holds a `futures_util::task::AtomicWaker`, which the verifier does not
/// see. Its state here is the waker that the `AtomicWaker` holds, by the
/// task that this waker wakes, and the wakes that were made through it,
/// which the `AtomicWaker` itself keeps no record of.
#[verifier::external_body]
pub struct WakerSlot {
    slot: AtomicWaker,
}

/// The task that a waker wakes. Two wakers with the same task wake the same
/// task, whichever of them is woken; a clone of a waker has the waker's
/// task.
pub uninterp spec fn waker_task(waker: Waker) -> int;

/// The task whose waker a slot holds; `None` for an empty slot.
pub uninterp spec fn slot_task(slot: WakerSlot) -> Option<int>;

/// The tasks that were woken through a slot since it was made, one entry
/// for each wake, oldest first.
pub uninterp spec fn slot_woken(slot: WakerSlot) -> Seq<int>;

/// `ArrayQueue::new`: an empty queue that holds up to `limit` items. It
/// panics for a limit of zero and for one so large that the next power of
/// two does not fit the queue's index; both are left out here.
#[verifier::external_body]
fn queue_new(limit: usize) -> (queue: ArrayQueue<u8>)
    requires
        0 < limit < 0x4000_0000,
    ensures
        queue_items(queue) == Seq::<u8>::empty(),
        queue_limit(queue) == limit,
{
    ArrayQueue::new(limit)
}

/// `ArrayQueue::push`: on a queue with room the item joins at the end; a
/// full queue stays as it is and hands the item back.
#[verifier::external_body]
fn queue_push(queue: &mut ArrayQueue<u8>, item: u8) -> (pushed: Result<(), u8>)
    ensures
        queue_limit(*final(queue)) == queue_limit(*old(queue)),
        queue_items(*old(queue)).len() < queue_limit(*old(queue)) ==> pushed.is_ok()
            && queue_items(*final(queue)) == queue_items(*old(queue)).push(item),
        queue_items(*old(queue)).len() >= queue_limit(*old(queue)) ==> (pushed matches Err(back)
            && back == item) && queue_items(*final(queue)) == queue_items(*old(queue)),
{
    queue.push(item)
}

/// `ArrayQueue::pop`: the oldest item leaves the queue and is returned; an
/// empty queue stays as it is and gives `None`.
#[verifier::external_body]
fn queue_pop(queue: &mut ArrayQueue<u8>) -> (popped: Option<u8>)
    ensures
        queue_limit(*final(queue)) == queue_limit(*old(queue)),
        queue_items(*old(queue)).len() > 0 ==> popped == Some(queue_items(*old(queue)).first())
            && queue_items(*final(queue)) == queue_items(*old(queue)).drop_first(),
        queue_items(*old(queue)).len() == 0 ==> popped.is_none() && queue_items(*final(queue))
            == queue_items(*old(queue)),
{
    queue.pop()
}

/// `AtomicWaker::new`: a slot with no waker in it, through which nobody
/// has been woken.
#[verifier::external_body]
fn slot_new() -> (slot: WakerSlot)
    ensures
        slot_task(slot).is_none(),
        slot_woken(slot) == Seq::<int>::empty(),
{
    WakerSlot { slot: AtomicWaker::new() }
}

/// `AtomicWaker::register`: afterwards the slot holds a waker for the task
/// of the given waker, in place of any that it held before: a clone of the
/// given one, or the one it held before where that wakes the same task.
/// Nobody is woken.
#[verifier::external_body]
fn slot_register(slot: &mut WakerSlot, waker: &Waker)
    ensures
        slot_task(*final(slot)) == Some(waker_task(*waker)),
        slot_woken(*final(slot)) == slot_woken(*old(slot)),
{
    slot.slot.register(waker)
}

/// `AtomicWaker::take`: the waker that the slot holds, if any, is taken out
/// and returned, unwoken; the slot is empty afterwards.
#[verifier::external_body]
fn slot_take(slot: &mut WakerSlot) -> (taken: Option<Waker>)
    ensures
        slot_task(*final(slot)).is_none(),
        slot_woken(*final(slot)) == slot_woken(*old(slot)),
        match slot_task(*old(slot)) {
            Some(task) => taken matches Some(waker) && waker_task(waker) == task,
            None => taken.is_none(),
        },
{
    slot.slot.take()
}

/// `AtomicWaker::wake`: the waker that the slot holds, if any, is taken out
/// and woken, once; the slot is empty afterwards. On an empty slot nothing
/// happens.
#[verifier::external_body]
fn slot_wake(slot: &mut WakerSlot)
    ensures
        slot_task(*final(slot)).is_none(),
        slot_woken(*final(slot)) == match slot_task(*old(slot)) {
            Some(task) => slot_woken(*old(slot)).push(task),
            None => slot_woken(*old(slot)),
        },
{
    slot.slot.wake()
}

/// A key as the shells tell keys apart.
#[derive(Debug, Clone, Copy, PartialEq, Eq, Structural)]
pub enum Key {
    /// A key that stands for a character.
    Unicode(char),
    /// The return key, where it comes without a character.
    Return,
    /// The backspace key, where it comes without a character.
    Backspace,
    /// Any other key without a character.
    Other,
}

/// The keyboard decoder: it turns the scancodes of the keyboard, one byte
/// at a time, into keys. It holds a `Keyboard` for scancode set 1 and the
/// US layout with 104 keys, whose state the verifier does not see. That
/// state has two parts that do not touch each other: where the decoder is
/// within a scancode sequence, which follows from the scancodes fed to it,
/// and which modifier keys are held, which follows from the key events it
/// has turned into keys.
#[verifier::external_body]
pub struct KeyDecoder {
    keyboard: Keyboard<Us104Key, ScancodeSet1>,
}

/// The scancodes that a decoder has been fed since it was made, oldest
/// first.
pub uninterp spec fn decoder_fed(decoder: KeyDecoder) -> Seq<u8>;

/// The key events that a decoder has turned into keys since it was made,
/// oldest first.
pub uninterp spec fn decoder_processed(decoder: KeyDecoder) -> Seq<KeyEvent>;

/// What `Keyboard::add_byte` returns for `byte` on a keyboard for scancode
/// set 1 that has been fed the scancodes `fed` before.
pub uninterp spec fn scanned(fed: Seq<u8>, byte: u8) -> Result<Option<KeyEvent>, pc_keyboard::Error>;

/// The key that `Keyboard::process_keyevent` gives for `event` on a keyboard
/// with the US layout that has turned the events `processed` into keys
/// before.
pub uninterp spec fn typed_key(processed: Seq<KeyEvent>, event: KeyEvent) -> Option<Key>;

/// `Keyboard::new`: a decoder that has seen no scancode and no key event
/// yet, and that leaves letters typed with the control key as they are.
#[verifier::external_body]
fn keyboard_new() -> (decoder: KeyDecoder)
    ensures
        decoder_fed(decoder) == Seq::<u8>::empty(),
        decoder_processed(decoder) == Seq::<KeyEvent>::empty(),
{
    KeyDecoder { keyboard: Keyboard::new(ScancodeSet1::new(), Us104Key, HandleControl::Ignore) }
}

/// `Keyboard::add_byte`: feeds one scancode to the decoder. What comes back
/// follows from that scancode and the scancodes fed before, and from
/// nothing else; the modifier keys are not touched.
#[verifier::external_body]
fn keyboard_add_byte(decoder: &mut KeyDecoder, byte: u8) -> (event: Result<
    Option<KeyEvent>,
    pc_keyboard::Error,
>)
    ensures
        event == scanned(decoder_fed(*old(decoder)), byte),
        decoder_fed(*final(decoder)) == decoder_fed(*old(decoder)).push(byte),
        decoder_processed(*final(decoder)) == decoder_processed(*old(decoder)),
{
    decoder.keyboard.add_byte(byte)
}

/// `Keyboard::process_keyevent`: turns a key event into the key that was
/// typed, with the modifier keys held at the time. The key follows from that
/// event and the events turned into keys before, and from nothing else; the
/// place within the scancode sequence is not touched. The key is handed on
/// as a [`Key`].
#[verifier::external_body]
fn keyboard_process_keyevent(decoder: &mut KeyDecoder, event: KeyEvent) -> (key: Option<Key>)
    ensures
        key == typed_key(decoder_processed(*old(decoder)), event),
        decoder_processed(*final(decoder)) == decoder_processed(*old(decoder)).push(event),
        decoder_fed(*final(decoder)) == decoder_fed(*old(decoder)),
{
    match decoder.keyboard.process_keyevent(event) {
        Some(DecodedKey::Unicode(character)) => Some(Key::Unicode(character)),
        Some(DecodedKey::RawKey(KeyCode::Return)) => Some(Key::Return),
        Some(DecodedKey::RawKey(KeyCode::Backspace)) => Some(Key::Backspace),
        Some(DecodedKey::RawKey(_)) => Some(Key::Other),
        None => None,
    }
}

/// What a decoder has taken in since it was made: the scancodes fed to it,
/// and the key events that it has turned into keys.
pub struct KeyLog {
    pub fed: Seq<u8>,
    pub processed: Seq<KeyEvent>,
}

impl KeyLog {
    /// The log of a decoder that has taken in nothing.
    pub open spec fn fresh() -> KeyLog {
        KeyLog { fed: Seq::empty(), processed: Seq::empty() }
    }

    /// One scancode more: it is fed to the decoder, and where it completes a
    /// key event, that event is turned into a key. A scancode that the
    /// decoder rejects, or that completes no event yet, gives no key.
    pub open spec fn decode(self, scancode: u8) -> (Option<Key>, KeyLog) {
        match scanned(self.fed, scancode) {
            Ok(Some(event)) => (
                typed_key(self.processed, event),
                KeyLog { fed: self.fed.push(scancode), processed: self.processed.push(event) },
            ),
            _ => (None, KeyLog { fed: self.fed.push(scancode), processed: self.processed }),
        }
    }
}

impl KeyDecoder {
    /// What the decoder has taken in since it was made.
    pub closed spec fn view(&self) -> KeyLog {
        KeyLog { fed: decoder_fed(*self), processed: decoder_processed(*self) }
    }

    /// A decoder that has seen no scancode yet.
    pub fn new() -> (decoder: Self)
        ensures
            decoder@ == KeyLog::fresh(),
    {
        keyboard_new()
    }

    /// Feeds one scancode to the decoder and returns the key that it
    /// completes, if it completes one. A scancode that the decoder rejects
    /// gives no key.
    pub fn decode(&mut self, scancode: u8) -> (key: Option<Key>)
        ensures
            (key, final(self)@) == old(self)@.decode(scancode),
    {
        if let Ok(Some(key_event)) = keyboard_add_byte(self, scancode) {
            keyboard_process_keyevent(self, key_event)
        } else {
            None
        }
    }
}

/// The number of scancodes that the bridge holds at most.
pub const SCANCODE_QUEUE_CAPACITY: usize = 100;

/// The bridge as a value: the scancodes waiting in the queue, oldest first;
/// the most it holds; the task whose waker is registered, if any; and the
/// tasks that pushes have woken so far, one entry for each wake, oldest
/// first.
pub struct Bridge {
    pub queue: Seq<u8>,
    pub capacity: nat,
    pub registered: Option<int>,
    pub woken: Seq<int>,
}

impl Bridge {
    /// An empty bridge with no waker registered, through which nobody has
    /// been woken.
    pub open spec fn empty(capacity: nat) -> Bridge {
        Bridge { queue: Seq::empty(), capacity, registered: None, woken: Seq::empty() }
    }

    /// Whether one more scancode fits.
    pub open spec fn has_room(self) -> bool {
        self.queue.len() < self.capacity
    }

    /// Whether a push at this moment wakes a task: there is room and a waker
    /// is registered.
    pub open spec fn push_wakes(self) -> bool {
        self.has_room() && self.registered.is_some()
    }

    /// The keyboard handler's push. With room the scancode joins the queue,
    /// and the registered waker, if any, is taken out of its slot and woken,
    /// once. On a full queue the scancode is dropped and nothing changes:
    /// nobody is woken and the waker stays registered.
    pub open spec fn push(self, scancode: u8) -> Bridge {
        if self.has_room() {
            Bridge {
                queue: self.queue.push(scancode),
                registered: None,
                woken: match self.registered {
                    Some(task) => self.woken.push(task),
                    None => self.woken,
                },
                ..self
            }
        } else {
            self
        }
    }

    /// The scancodes of `scancodes` are pushed one after the other.
    pub open spec fn push_all(self, scancodes: Seq<u8>) -> Bridge
        decreases scancodes.len(),
    {
        if scancodes.len() == 0 {
            self
        } else {
            self.push_all(scancodes.drop_last()).push(scancodes.last())
        }
    }

    /// The reader's first step: it takes the oldest scancode if there is
    /// one. No waker is registered, taken out or woken.
    pub open spec fn pop(self) -> (Option<u8>, Bridge) {
        if self.queue.len() > 0 {
            (Some(self.queue.first()), Bridge { queue: self.queue.drop_first(), ..self })
        } else {
            (None, self)
        }
    }

    /// The reader's second step, after it found the queue empty: it
    /// registers the waker of its task, in place of any other. Nobody is
    /// woken.
    pub open spec fn register(self, task: int) -> Bridge {
        Bridge { registered: Some(task), ..self }
    }

    /// The reader's third step: it looks at the queue once more. A scancode
    /// that has arrived is taken, and the waker is taken back out of the
    /// slot, unwoken; else the reader is to be suspended, with its waker
    /// registered.
    pub open spec fn recheck(self) -> (Poll<Option<u8>>, Bridge) {
        match self.pop() {
            (Some(scancode), after) => (
                Poll::Ready(Some(scancode)),
                Bridge { registered: None, ..after },
            ),
            (None, after) => (Poll::Pending, after),
        }
    }

    /// One poll on behalf of `task` with nothing happening in between: the
    /// three steps in order, the last two only if the first found nothing.
    /// So a poll that finds a scancode at once leaves the slot as it is,
    /// and a poll that reports `Pending` leaves the waker of `task` in it.
    pub open spec fn poll(self, task: int) -> (Poll<Option<u8>>, Bridge) {
        match self.pop() {
            (Some(scancode), after) => (Poll::Ready(Some(scancode)), after),
            (None, after) => after.register(task).recheck(),
        }
    }
}

/// The reading end of the bridge, which owns the queue and the waker slot.
/// There is one slot, so one task at a time can wait for scancodes.
pub struct ScancodeStream {
    queue: ArrayQueue<u8>,
    waker: WakerSlot,
}

impl ScancodeStream {
    /// The bridge as a value.
    pub closed spec fn view(&self) -> Bridge {
        Bridge {
            queue: queue_items(self.queue),
            capacity: queue_limit(self.queue),
            registered: slot_task(self.waker),
            woken: slot_woken(self.waker),
        }
    }

    /// An empty bridge for a hundred scancodes, with no waker registered.
    pub fn new() -> (stream: Self)
        ensures
            stream@ == Bridge::empty(SCANCODE_QUEUE_CAPACITY as nat),
    {
        ScancodeStream { queue: queue_new(SCANCODE_QUEUE_CAPACITY), waker: slot_new() }
    }

    /// The first step of a poll: takes the oldest scancode out of the queue,
    /// if there is one.
    pub fn pop(&mut self) -> (scancode: Option<u8>)
        ensures
            (scancode, final(self)@) == old(self)@.pop(),
    {
        queue_pop(&mut self.queue)
    }

    /// The second step of a poll: registers the waker of the task that
    /// waits for scancodes, in place of any other.
    pub fn register(&mut self, waker: &Waker)
        ensures
            final(self)@ == old(self)@.register(waker_task(*waker)),
    {
        slot_register(&mut self.waker, waker);
    }

    /// The third step of a poll: looks at the queue once more. A scancode
    /// that has arrived since the first step is returned, and the waker is
    /// taken back out of its slot; else the task is to be suspended.
    pub fn recheck(&mut self) -> (poll: Poll<Option<u8>>)
        ensures
            (poll, final(self)@) == old(self)@.recheck(),
    {
        match queue_pop(&mut self.queue) {
            Some(scancode) => {
                let _ = slot_take(&mut self.waker);
                Poll::Ready(Some(scancode))
            },
            None => Poll::Pending,
        }
    }

    /// Asks for the next scancode on behalf of the task that `waker` wakes.
    ///
    /// A scancode that waits in the queue is returned at once. If there is
    /// none, the waker is registered and the queue is looked at once more,
    /// so that a scancode pushed in between is not missed; only then does
    /// the poll report `Pending`, and the next push wakes the task.
    pub fn poll_next(&mut self, waker: &Waker) -> (poll: Poll<Option<u8>>)
        ensures
            (poll, final(self)@) == old(self)@.poll(waker_task(*waker)),
    {
        if let Some(scancode) = self.pop() {
            return Poll::Ready(Some(scancode));
        }
        self.register(waker);
        self.recheck()
    }
}

/// Hands one scancode from the keyboard interrupt handler to the bridge. It
/// neither blocks nor allocates. With room in the queue the scancode is
/// queued first, and then the waker that is registered, if any, is taken
/// out of its slot and woken, once; on a full queue the scancode is
/// dropped, and nobody is told.
pub fn add_scancode(stream: &mut ScancodeStream, scancode: u8)
    ensures
        final(stream)@ == old(stream)@.push(scancode),
{
    if let Ok(_) = queue_push(&mut stream.queue, scancode) {
        slot_wake(&mut stream.waker);
    }
}

impl Bridge {
    /// What `count` polls in a row on behalf of `task` report, with no push
    /// in between.
    pub open spec fn read(self, count: nat, task: int) -> Seq<Poll<Option<u8>>>
        decreases count,
    {
        if count == 0 {
            Seq::empty()
        } else {
            seq![self.poll(task).0] + self.poll(task).1.read((count - 1) as nat, task)
        }
    }

    /// The reports of polls that find the given scancodes, in their order.
    pub open spec fn delivered(scancodes: Seq<u8>) -> Seq<Poll<Option<u8>>> {
        Seq::new(scancodes.len(), |i: int| Poll::Ready(Some(scancodes[i])))
    }
}

/// Pushing never reorders and never overwrites: after a run of pushes the
/// queue holds what it held before, then the pushed scancodes in their
/// order, cut off where the queue was full.
pub proof fn lemma_push_all(bridge: Bridge, scancodes: Seq<u8>)
    requires
        bridge.queue.len() <= bridge.capacity,
    ensures
        bridge.push_all(scancodes).capacity == bridge.capacity,
        bridge.push_all(scancodes).queue == if bridge.queue.len() + scancodes.len()
            <= bridge.capacity {
            bridge.queue + scancodes
        } else {
            (bridge.queue + scancodes).take(bridge.capacity as int)
        },
    decreases scancodes.len(),
{
    if scancodes.len() == 0 {
        assert(bridge.queue + scancodes =~= bridge.queue);
    } else {
        let front = scancodes.drop_last();
        lemma_push_all(bridge, front);
        let before = bridge.push_all(front);
        if bridge.queue.len() + scancodes.len() <= bridge.capacity {
            assert(before.queue.push(scancodes.last()) =~= bridge.queue + scancodes);
        } else if bridge.queue.len() + front.len() <= bridge.capacity {
            assert(before.queue =~= (bridge.queue + scancodes).take(bridge.capacity as int));
        } else {
            assert((bridge.queue + front).take(bridge.capacity as int) =~= (bridge.queue
                + scancodes).take(bridge.capacity as int));
        }
    }
}

/// Polls in a row hand out the scancodes of the queue from the oldest on.
pub proof fn lemma_read_in_order(bridge: Bridge, count: nat, task: int)
    requires
        count <= bridge.queue.len(),
    ensures
        bridge.read(count, task) == Bridge::delivered(bridge.queue.take(count as int)),
    decreases count,
{
    if count > 0 {
        let after = bridge.poll(task).1;
        lemma_read_in_order(after, (count - 1) as nat, task);
        assert(after.queue.take(count - 1) =~= bridge.queue.take(count as int).drop_first());
    }
    assert(bridge.read(count, task) =~= Bridge::delivered(bridge.queue.take(count as int)));
}

/// First in, first out: scancodes that are pushed into an empty bridge
/// without overflow are read in the order in which they were pushed, and
/// after them the reader is told to wait.
pub proof fn lemma_fifo(bridge: Bridge, scancodes: Seq<u8>, task: int)
    requires
        bridge.queue.len() == 0,
        scancodes.len() <= bridge.capacity,
    ensures
        bridge.push_all(scancodes).read(scancodes.len(), task) == Bridge::delivered(scancodes),
        bridge.push_all(scancodes).read(scancodes.len() + 1, task).last() == Poll::<
            Option<u8>,
        >::Pending,
{
    lemma_push_all(bridge, scancodes);
    let full = bridge.push_all(scancodes);
    assert(bridge.queue + scancodes =~= scancodes);
    lemma_read_in_order(full, scancodes.len(), task);
    assert(full.queue.take(scancodes.len() as int) =~= scancodes);
    lemma_read_then_pending(full, task);
}

/// Once the queue has been read empty, the next poll reports `Pending`.
pub proof fn lemma_read_then_pending(bridge: Bridge, task: int)
    ensures
        bridge.read(bridge.queue.len() + 1, task).last() == Poll::<Option<u8>>::Pending,
    decreases bridge.queue.len(),
{
    let count = bridge.queue.len() + 1;
    let after = bridge.poll(task).1;
    if bridge.queue.len() > 0 {
        lemma_read_then_pending(after, task);
        let tail = after.read((count - 1) as nat, task);
        assert(bridge.read(count, task).last() == tail.last());
    } else {
        assert(after.read(0, task) =~= Seq::empty());
        assert(bridge.read(1, task) =~= seq![bridge.poll(task).0]);
    }
}

/// Drop on full: of one scancode more than the bridge holds, pushed into an
/// empty bridge with no poll in between, all but the last are kept, in the
/// order in which they were pushed, and the last one is lost.
pub proof fn lemma_overflow_drops_last(bridge: Bridge, scancodes: Seq<u8>, task: int)
    requires
        bridge.queue.len() == 0,
        scancodes.len() == bridge.capacity + 1,
    ensures
        bridge.push_all(scancodes).queue == scancodes.drop_last(),
        bridge.push_all(scancodes).read(bridge.capacity, task) == Bridge::delivered(
            scancodes.drop_last(),
        ),
        bridge.push_all(scancodes).read(bridge.capacity + 1, task).last() == Poll::<
            Option<u8>,
        >::Pending,
{
    lemma_push_all(bridge, scancodes);
    let full = bridge.push_all(scancodes);
    assert((bridge.queue + scancodes).take(bridge.capacity as int) =~= scancodes.drop_last());
    lemma_read_in_order(full, bridge.capacity, task);
    assert(full.queue.take(bridge.capacity as int) =~= scancodes.drop_last());
    lemma_read_then_pending(full, task);
}

/// What a poll does to the waker slot. A poll that finds a scancode at once
/// registers no waker and takes none out. A poll that finds the queue empty
/// and reports `Pending` leaves the waker of its own task in the slot, in
/// place of any earlier one. No poll wakes anybody.
pub proof fn lemma_poll_and_slot(bridge: Bridge, task: int)
    ensures
        bridge.poll(task).1.woken == bridge.woken,
        bridge.queue.len() > 0 ==> bridge.poll(task).1.registered == bridge.registered,
        bridge.queue.len() == 0 ==> bridge.poll(task).0 == Poll::<Option<u8>>::Pending
            && bridge.poll(task).1.registered == Some(task),
        bridge.poll(task).0 == Poll::<Option<u8>>::Pending ==> bridge.queue.len() == 0,
{
}

/// What a push does to the waker slot. A push with room wakes the task
/// whose waker is registered, exactly once, and takes that waker out of the
/// slot; where none is registered, nobody is woken. A push into a full
/// queue wakes nobody and leaves the slot as it is.
pub proof fn lemma_push_and_slot(bridge: Bridge, scancode: u8)
    ensures
        bridge.has_room() ==> bridge.push(scancode).registered.is_none(),
        bridge.push_wakes() ==> bridge.push(scancode).woken == bridge.woken.push(
            bridge.registered->0,
        ),
        !bridge.push_wakes() ==> bridge.push(scancode).woken == bridge.woken,
        !bridge.has_room() ==> bridge.push(scancode) == bridge,
{
}

/// No wake-up is lost. A reader, on behalf of `task`, finds the queue empty
/// and goes on to register its waker and to look again; one scancode is
/// pushed, into a bridge with room, at any moment of that. Whatever the
/// moment, the scancode reaches the reader: the poll under way returns it,
/// or, where the push comes after that poll has reported `Pending`, the
/// push wakes `task`, once, and the reader's next poll returns it. A push
/// that comes after the registration wakes `task`; one that comes before it
/// wakes whoever was registered before, and nobody else.
pub proof fn lemma_no_lost_wakeup(bridge: Bridge, scancode: u8, task: int)
    requires
        bridge.queue.len() == 0,
        bridge.capacity > 0,
    ensures
        // the push comes before the reader's first look
        bridge.push(scancode).poll(task).0 == Poll::Ready(Some(scancode)),
        // between the first look and the registration
        bridge.pop().1.push(scancode).register(task).recheck().0 == Poll::Ready(Some(scancode)),
        // between the registration and the second look
        bridge.pop().1.register(task).push(scancode).recheck().0 == Poll::Ready(Some(scancode)),
        bridge.pop().1.register(task).push(scancode).woken == bridge.woken.push(task),
        // after the poll
        bridge.poll(task).0 == Poll::<Option<u8>>::Pending,
        bridge.poll(task).1.registered == Some(task),
        bridge.poll(task).1.push_wakes(),
        bridge.poll(task).1.push(scancode).woken == bridge.woken.push(task),
        bridge.poll(task).1.push(scancode).poll(task).0 == Poll::Ready(Some(scancode)),
{
    assert(bridge.queue.push(scancode).first() == scancode);
}

/// The console after a line has been run as a command of the shell task,
/// at the tick `now`. The line is trimmed; an empty one does nothing. Its
/// first word, up to the first space, is the command, and what follows that
/// space is the argument. `sleep` writes nothing, and neither does `sum`
/// with an argument that is no number.
pub open spec fn command_shown(line: Seq<char>, now: u64, screen: Screen) -> Screen {
    let input = trim(line);
    let command = command_of(input);
    let args = args_of(input);
    if input.len() == 0 {
        screen
    } else if command == "help"@ {
        screen.write_bytes(
            "Commands: ls, cat <file>, help, clear, uptime, sum <n>, sleep <ms>\n".spec_bytes(),
        )
    } else if command == "clear"@ {
        Screen::cleared(screen.color)
    } else if command == "ls"@ {
        listing_shown(screen)
    } else if command == "cat"@ {
        match lookup(file_table(), trim(args)) {
            Some(file) => screen.write_bytes(file.content.spec_bytes()).write_bytes(
                "\n".spec_bytes(),
            ),
            None => screen.write_bytes("File not found: ".spec_bytes()).write_chars(
                args,
            ).write_bytes("\n".spec_bytes()),
        }
    } else if command == "uptime"@ {
        screen.write_bytes("Ticks: ".spec_bytes()).write_bytes(decimal(now as nat)).write_bytes(
            "\n".spec_bytes(),
        )
    } else if command == "sum"@ {
        match parse_u64(args) {
            Some(n) => screen.write_bytes("Sum: ".spec_bytes()).write_bytes(
                decimal(sum_to(n) as nat),
            ).write_bytes("\n".spec_bytes()),
            None => screen,
        }
    } else if command == "sleep"@ {
        screen
    } else {
        screen.write_bytes("Unknown command: ".spec_bytes()).write_chars(command).write_bytes(
            "\n".spec_bytes(),
        )
    }
}

/// The number of ticks for which a line asks the shell task to sleep: the
/// argument of `sleep`, where it is a number.
pub open spec fn command_sleep(line: Seq<char>) -> Option<u64> {
    let input = trim(line);
    if input.len() > 0 && command_of(input) == "sleep"@ {
        parse_u64(args_of(input))
    } else {
        None
    }
}

/// The sleep that a line asks the shell task for, at the tick `now`.
pub open spec fn command_nap(line: Seq<char>, now: u64) -> Option<SleepFuture> {
    match command_sleep(line) {
        Some(ms) => Some(SleepFuture::starting(now, ms)),
        None => None,
    }
}

/// Runs one line as a command of the shell task: writes its answer on the
/// console and, for `sleep`, returns the sleep that the task has to wait
/// for, started at the present tick.
pub fn execute_command(input: &[char], ticks: &TickCounter, writer: &mut Writer) -> (nap: Option<
    SleepFuture,
>)
    requires
        old(writer).wf(),
    ensures
        final(writer).wf(),
        final(writer)@ == command_shown(input@, ticks@, old(writer)@),
        nap == command_nap(input@, ticks@),
{
    let input = trimmed(input);
    if input.len() == 0 {
        return None;
    }
    let (command, args) = split_command(input);
    proof {
        reveal_strlit("help");
        reveal_strlit("clear");
        reveal_strlit("ls");
        reveal_strlit("cat");
        reveal_strlit("uptime");
        reveal_strlit("sum");
        reveal_strlit("sleep");
        assert("sleep"@.len() == 5 && "help"@.len() == 4 && "ls"@.len() == 2);
        assert("cat"@.len() == 3 && "uptime"@.len() == 6 && "sum"@.len() == 3);
        assert("clear"@[0] != "sleep"@[0]);
    }

    if word_is(command, "help") {
        writer.write_string("Commands: ls, cat <file>, help, clear, uptime, sum <n>, sleep <ms>\n");
    } else if word_is(command, "clear") {
        writer.clear_screen();
    } else if word_is(command, "ls") {
        list_files(writer);
    } else if word_is(command, "cat") {
        match find_file(trimmed(args)) {
            Some(file) => {
                writer.write_string(file.content);
                writer.write_string("\n");
            },
            None => {
                writer.write_string("File not found: ");
                writer.write_chars(args);
                writer.write_string("\n");
            },
        }
    } else if word_is(command, "uptime") {
        writer.write_string("Ticks: ");
        writer.write_text(to_decimal(ticks.now()).as_slice());
        writer.write_string("\n");
    } else if word_is(command, "sum") {
        match parse_number(args) {
            Some(n) => {
                writer.write_string("Sum: ");
                writer.write_text(to_decimal(sum_up_to(n)).as_slice());
                writer.write_string("\n");
            },
            None => {},
        }
    } else if word_is(command, "sleep") {
        match parse_number(args) {
            Some(ms) => {
                return Some(sleep(ticks, ms));
            },
            None => {},
        }
    } else {
        writer.write_string("Unknown command: ");
        writer.write_chars(command);
        writer.write_string("\n");
    }
    None
}

/// Where the shell task stands between two polls.
#[derive(Debug, Clone, Copy)]
pub enum ShellState {
    /// It has not run yet and has shown no prompt.
    Start,
    /// It waits for keys.
    Reading,
    /// It waits for the end of a sleep that a command asked for; the line of
    /// that command is still in its buffer.
    Sleeping(SleepFuture),
}

/// The shell task as a value: the line typed so far and where the task
/// stands.
pub struct ShellLine {
    pub line: Seq<char>,
    pub state: ShellState,
}

/// What the shell task works with: the bridge that the keyboard handler
/// pushes into, the tick counter, the console, and the waker that wakes the
/// task.
pub struct ShellContext {
    pub stream: ScancodeStream,
    pub ticks: TickCounter,
    pub writer: Writer,
    pub waker: Waker,
}

/// The shell task: it reads scancodes from the bridge, decodes them, edits a
/// line, echoes it on the console, and runs the line as a command when it is
/// entered.
pub struct ShellTask {
    decoder: KeyDecoder,
    buffer: Vec<char>,
    state: ShellState,
}

impl ShellTask {
    /// The task as a value.
    pub closed spec fn view(&self) -> ShellLine {
        ShellLine { line: self.buffer@, state: self.state }
    }

    /// What the task's keyboard decoder has taken in.
    pub closed spec fn keys(&self) -> KeyLog {
        self.decoder@
    }

    /// The task after a line has been dealt with: the line is empty again,
    /// the prompt is shown, and the task waits for keys.
    pub open spec fn prompted(screen: Screen) -> (ShellLine, Screen) {
        (
            ShellLine { line: Seq::empty(), state: ShellState::Reading },
            screen.write_bytes("> ".spec_bytes()),
        )
    }

    /// The task and the console after the line has been entered, at the tick
    /// `now`. The console starts a new line and shows the command's answer.
    /// A command that asks for a sleep leaves the task sleeping, with the
    /// line kept until the sleep is over; after any other the task is
    /// prompted again.
    pub open spec fn entered(line: Seq<char>, now: u64, screen: Screen) -> (ShellLine, Screen) {
        let shown = command_shown(line, now, screen.write_bytes("\n".spec_bytes()));
        match command_nap(line, now) {
            Some(future) => (ShellLine { line, state: ShellState::Sleeping(future) }, shown),
            None => Self::prompted(shown),
        }
    }

    /// The line and the console after a key that does not enter the line: a
    /// backspace takes the last character off the line and off the console,
    /// if there is one; any other character joins the line and is echoed; a
    /// key without a character does nothing.
    pub open spec fn edited(line: Seq<char>, key: Key, screen: Screen) -> (Seq<char>, Screen) {
        match key {
            Key::Unicode(c) => if c == '\u{0008}' {
                if line.len() > 0 {
                    (line.drop_last(), screen.backspace())
                } else {
                    (line, screen)
                }
            } else {
                (line.push(c), screen.write_char(c))
            },
            _ => (line, screen),
        }
    }

    /// Whether a key enters the line: the line feed character, or the
    /// return key where it comes without a character.
    pub open spec fn enters(key: Key) -> bool {
        key == Key::Unicode('\n') || key == Key::Return
    }

    /// The task and the console after one key, at the tick `now`: a key
    /// that enters the line runs it, any other edits it.
    pub open spec fn keyed(task: ShellLine, key: Key, now: u64, screen: Screen) -> (
        ShellLine,
        Screen,
    ) {
        if Self::enters(key) {
            Self::entered(task.line, now, screen)
        } else {
            let (line, shown) = Self::edited(task.line, key, screen);
            (ShellLine { line, state: task.state }, shown)
        }
    }

    /// A task that has not run yet: its line is empty and its decoder has
    /// seen no scancode.
    pub fn new() -> (task: Self)
        ensures
            task@.line == Seq::<char>::empty(),
            task@.state is Start,
            task.keys() == KeyLog::fresh(),
    {
        ShellTask { decoder: KeyDecoder::new(), buffer: Vec::new(), state: ShellState::Start }
    }

    /// The line typed so far.
    pub fn buffer(&self) -> (line: &Vec<char>)
        ensures
            line@ == self@.line,
    {
        &self.buffer
    }

    /// Where the task stands.
    pub fn state(&self) -> (state: ShellState)
        ensures
            state == self@.state,
    {
        self.state
    }

    /// Takes one decoded key while the task waits for keys: see
    /// [`ShellTask::keyed`].
    pub fn handle_key(&mut self, key: Key, ticks: &TickCounter, writer: &mut Writer)
        requires
            old(writer).wf(),
        ensures
            final(writer).wf(),
            final(self).keys() == old(self).keys(),
            (final(self)@, final(writer)@) == Self::keyed(old(self)@, key, ticks@, old(writer)@),
    {
        match key {
            Key::Unicode(character) => {
                if character == '\n' {
                    self.enter(ticks, writer);
                } else if character == '\u{0008}' {
                    let ghost line = self.buffer@;
                    if self.buffer.pop().is_some() {
                        assert(line.drop_last() =~= self.buffer@);
                        writer.backspace();
                    }
                } else {
                    self.buffer.push(character);
                    writer.write_char(character);
                }
            },
            Key::Return => {
                self.enter(ticks, writer);
            },
            _ => {},
        }
    }

    /// Runs the line typed so far and goes to sleep or shows the prompt.
    fn enter(&mut self, ticks: &TickCounter, writer: &mut Writer)
        requires
            old(writer).wf(),
        ensures
            final(writer).wf(),
            final(self).keys() == old(self).keys(),
            (final(self)@, final(writer)@) == Self::entered(old(self)@.line, ticks@, old(writer)@),
    {
        writer.write_string("\n");
        let nap = execute_command(self.buffer.as_slice(), ticks, writer);
        match nap {
            Some(future) => {
                self.state = ShellState::Sleeping(future);
            },
            None => {
                self.finish_line(writer);
            },
        }
    }

    /// Empties the line, shows the prompt and waits for keys.
    fn finish_line(&mut self, writer: &mut Writer)
        requires
            old(writer).wf(),
        ensures
            final(writer).wf(),
            final(self).keys() == old(self).keys(),
            (final(self)@, final(writer)@) == Self::prompted(old(writer)@),
    {
        self.buffer.clear();
        self.state = ShellState::Reading;
        writer.write_string("> ");
        assert(self.buffer@ =~= Seq::<char>::empty());
    }
}

/// The shell task, not yet started: its line is empty, its decoder has
/// seen no scancode, and it shows its prompt at its first poll. The
/// executor polls it from here on.
pub fn shell_task() -> (task: ShellTask)
    ensures
        task@.line == Seq::<char>::empty(),
        task@.state is Start,
        task.keys() == KeyLog::fresh(),
{
    ShellTask::new()
}

/// All that a poll of the shell task reads and changes, as a value: the
/// task, what its decoder has taken in, the bridge and the console.
pub struct ShellRun {
    pub task: ShellLine,
    pub keys: KeyLog,
    pub bridge: Bridge,
    pub screen: Screen,
}

impl ShellTask {
    /// The start of a poll: a task that has not run yet shows its prompt and
    /// waits for keys.
    pub open spec fn started(run: ShellRun) -> ShellRun {
        if run.task.state is Start {
            ShellRun {
                task: ShellLine { line: run.task.line, state: ShellState::Reading },
                screen: run.screen.write_bytes("> ".spec_bytes()),
                ..run
            }
        } else {
            run
        }
    }

    /// A poll from its start to its suspension, at the tick `now`, where
    /// `waker` is the task that the poll's waker wakes. While a sleep is not
    /// over, nothing happens. Else the task, prompted again if a sleep has
    /// just ended, asks the bridge for a scancode: if there is none, it
    /// suspends, with that waker registered; if there is one, it decodes
    /// it, handles the key that it completes, if any, and goes on in the
    /// same way.
    pub open spec fn ran(run: ShellRun, now: u64, waker: int) -> ShellRun
        decreases run.bridge.queue.len(),
    {
        if run.task.state matches ShellState::Sleeping(nap) && !nap.is_ready(now) {
            run
        } else {
            let (task, screen) = if run.task.state is Sleeping {
                Self::prompted(run.screen)
            } else {
                (run.task, run.screen)
            };
            if run.bridge.queue.len() > 0 {
                let (key, keys) = run.keys.decode(run.bridge.queue.first());
                let (task, screen) = match key {
                    Some(key) => Self::keyed(task, key, now, screen),
                    None => (task, screen),
                };
                Self::ran(
                    ShellRun { task, keys, bridge: run.bridge.poll(waker).1, screen },
                    now,
                    waker,
                )
            } else {
                ShellRun { task, keys: run.keys, bridge: run.bridge.poll(waker).1, screen }
            }
        }
    }
}

impl Suspendable for ShellTask {
    type Context = ShellContext;

    open spec fn wf(self) -> bool {
        true
    }

    open spec fn context_wf(context: ShellContext) -> bool {
        context.writer.wf()
    }

    /// A poll of the shell task runs it from its start to its suspension:
    /// see [`ShellTask::started`] and [`ShellTask::ran`]. The task never
    /// completes; it leaves the tick counter alone and wakes nobody; and it
    /// suspends only while a sleep is not over, or with the queue read empty
    /// and the context's waker registered, so that the next push wakes it.
    open spec fn polled(
        before: Self,
        context: ShellContext,
        after: Self,
        context_after: ShellContext,
        poll: Poll<()>,
    ) -> bool {
        &&& poll == Poll::<()>::Pending
        &&& context_after.ticks@ == context.ticks@
        &&& (ShellRun {
            task: after@,
            keys: after.keys(),
            bridge: context_after.stream@,
            screen: context_after.writer@,
        }) == ShellTask::ran(
            ShellTask::started(
                ShellRun {
                    task: before@,
                    keys: before.keys(),
                    bridge: context.stream@,
                    screen: context.writer@,
                },
            ),
            context.ticks@,
            waker_task(context.waker),
        )
        &&& waker_task(context_after.waker) == waker_task(context.waker)
        &&& context_after.stream@.capacity == context.stream@.capacity
        &&& context_after.stream@.woken == context.stream@.woken
        &&& match after@.state {
            ShellState::Start => false,
            ShellState::Reading => context_after.stream@.queue.len() == 0
                && context_after.stream@.registered == Some(waker_task(context.waker)),
            ShellState::Sleeping(future) => !future.is_ready(context.ticks@),
        }
    }

    fn poll(&mut self, context: &mut ShellContext) -> (poll: Poll<()>) {
        let ghost now = context.ticks@;
        let ghost waker = waker_task(context.waker);
        let ghost goal = ShellTask::ran(
            ShellTask::started(
                ShellRun {
                    task: self@,
                    keys: self.keys(),
                    bridge: context.stream@,
                    screen: context.writer@,
                },
            ),
            now,
            waker,
        );
        if let ShellState::Start = self.state {
            context.writer.write_string("> ");
            self.state = ShellState::Reading;
        }
        loop
            invariant
                context.writer.wf(),
                context.ticks@ == now,
                now == old(context).ticks@,
                waker == waker_task(context.waker),
                waker == waker_task(old(context).waker),
                context.stream@.capacity == old(context).stream@.capacity,
                context.stream@.woken == old(context).stream@.woken,
                !(self@.state is Start),
                goal == ShellTask::ran(
                    ShellRun {
                        task: self@,
                        keys: self.keys(),
                        bridge: context.stream@,
                        screen: context.writer@,
                    },
                    now,
                    waker,
                ),
                goal == ShellTask::ran(
                    ShellTask::started(
                        ShellRun {
                            task: old(self)@,
                            keys: old(self).keys(),
                            bridge: old(context).stream@,
                            screen: old(context).writer@,
                        },
                    ),
                    now,
                    waker,
                ),
            decreases context.stream@.queue.len(),
        {
            if let ShellState::Sleeping(nap) = self.state {
                match nap.poll(&context.ticks) {
                    Poll::Pending => {
                        return Poll::Pending;
                    },
                    Poll::Ready(_) => {
                        self.finish_line(&mut context.writer);
                    },
                }
            }
            match context.stream.poll_next(&context.waker) {
                Poll::Pending => {
                    return Poll::Pending;
                },
                Poll::Ready(None) => {
                    return Poll::Ready(());
                },
                Poll::Ready(Some(scancode)) => {
                    if let Some(key) = self.decoder.decode(scancode) {
                        self.handle_key(key, &context.ticks, &mut context.writer);
                    }
                },
            }
        }
    }
}

} // verus!
