//! A bounded first-in, first-out buffer with an open/closed flag.
//!
//! One side produces values into the buffer, the other consumes them. The
//! buffer never grows: when it is full a producer is told so and has to come
//! back later. Closing the buffer tells the consumer that nothing more will
//! be produced; what is still inside can be consumed after the close.
//!
//! The contracts speak of the buffer in two ways. Its view is the queue of
//! pending values with the open flag, which is all that a producer or a
//! consumer can observe. `reader`, `writer` and `slots` say where the values
//! lie in the ring: both indices start at 0 and each moves on by one slot,
//! modulo the number of slots, for every value that passes it.

use vstd::prelude::*;
use vstd::std_specs::iter::IteratorSpec;

verus! {

/// What a [`RingBuffer`] stands for: the values waiting to be consumed,
/// oldest first, and whether producers may still add to them.
pub struct Queue<T> {
    pub pending: Seq<T>,
    pub open: bool,
}

/// What one attempt to take a value out of the buffer found.
pub enum Consumed<T> {
    /// The oldest pending value.
    Item(T),
    /// Nothing is pending, but the buffer is open: a value may still come.
    Empty,
    /// Nothing is pending and the buffer is closed: the stream has ended.
    Closed,
}

/// How many of `offered` values a buffer of `capacity` slots takes in when
/// `pending` values are already waiting in it.
pub open spec fn accepted(capacity: int, pending: int, offered: int) -> int {
    if offered <= capacity - pending {
        offered
    } else {
        capacity - pending
    }
}

impl<T> Queue<T> {
    /// The queue of a buffer that was just made.
    pub open spec fn fresh() -> Self {
        Queue { pending: Seq::empty(), open: true }
    }

    /// Whether a buffer of `capacity` slots has a free one.
    pub open spec fn has_room(self, capacity: int) -> bool {
        self.pending.len() < capacity
    }

    /// The queue after one value was offered to a buffer of `capacity`
    /// slots: the value is behind the others if there was room, and the
    /// queue is as before if there was none.
    pub open spec fn offer(self, capacity: int, item: T) -> Self {
        if self.has_room(capacity) {
            Queue { pending: self.pending.push(item), open: self.open }
        } else {
            self
        }
    }

    /// The queue after `items` were offered together: as many of them as
    /// there was room for are behind the others, in their order.
    pub open spec fn offer_many(self, capacity: int, items: Seq<T>) -> Self {
        Queue {
            pending: self.pending + items.take(
                accepted(capacity, self.pending.len() as int, items.len() as int),
            ),
            open: self.open,
        }
    }

    /// What a consumer finds at the front.
    pub open spec fn front(self) -> Consumed<T> {
        if self.pending.len() > 0 {
            Consumed::Item(self.pending[0])
        } else if self.open {
            Consumed::Empty
        } else {
            Consumed::Closed
        }
    }

    /// The queue after a consumer took what was at the front.
    pub open spec fn advance(self) -> Self {
        if self.pending.len() > 0 {
            Queue { pending: self.pending.skip(1), open: self.open }
        } else {
            self
        }
    }

    /// The queue after it was closed.
    pub open spec fn shut(self) -> Self {
        Queue { pending: self.pending, open: false }
    }

    /// The queue after `items` were offered one after the other.
    pub open spec fn offer_each(self, capacity: int, items: Seq<T>) -> Self
        decreases items.len(),
    {
        if items.len() == 0 {
            self
        } else {
            self.offer(capacity, items[0]).offer_each(capacity, items.skip(1))
        }
    }

    /// The queue after a consumer took from the front `n` times.
    pub open spec fn advance_by(self, n: nat) -> Self
        decreases n,
    {
        if n == 0 {
            self
        } else {
            self.advance().advance_by((n - 1) as nat)
        }
    }
}

/// A queue of at most `S` values kept in `S` slots that are used round-robin.
pub struct RingBuffer<T, const S: usize> {
    buf: Vec<Option<T>>,
    open: bool,
    writer_index: usize,
    reader_index: usize,
}

/// The slot that lies `i` places behind slot `start` in a ring of `size`
/// slots.
pub open spec fn ring_slot(start: int, i: int, size: int) -> int {
    if start + i < size {
        start + i
    } else {
        start + i - size
    }
}

/// How many places slot `j` lies behind slot `start` in a ring of `size`
/// slots.
pub open spec fn ring_offset(start: int, j: int, size: int) -> int {
    if j >= start {
        j - start
    } else {
        j + size - start
    }
}

/// The slot `i` places behind slot `start` is slot `(start + i) % size`.
pub proof fn ring_slot_wraps(start: int, i: int, size: int)
    requires
        0 <= start < size,
        0 <= i <= size,
    ensures
        ring_slot(start, i, size) == (start + i) % size,
        0 <= ring_slot(start, i, size) < size,
{
    if start + i < size {
        vstd::arithmetic::div_mod::lemma_small_mod((start + i) as nat, size as nat);
    } else {
        vstd::arithmetic::div_mod::lemma_fundamental_div_mod_converse(
            start + i,
            size,
            1,
            start + i - size,
        );
    }
}

impl<T, const S: usize> RingBuffer<T, S> {
    /// The number of occupied slots.
    pub closed spec fn count(&self) -> int {
        if self.buf@[self.reader_index as int] is None {
            0
        } else if self.writer_index > self.reader_index {
            self.writer_index - self.reader_index
        } else {
            self.writer_index + S - self.reader_index
        }
    }

    /// The occupied slots are exactly the `count()` slots from the reader
    /// index on, and the writer index is the slot behind them.
    pub closed spec fn wf(&self) -> bool {
        &&& S > 0
        &&& self.buf@.len() == S
        &&& self.reader_index < S
        &&& self.writer_index < S
        &&& (self.buf@[self.reader_index as int] is None ==> self.writer_index
            == self.reader_index)
        &&& forall|j: int|
            0 <= j < S ==> ((#[trigger] self.buf@[j]) is Some <==> ring_offset(
                self.reader_index as int,
                j,
                S as int,
            ) < self.count())
    }

    /// The pending values, oldest first.
    pub closed spec fn pending(&self) -> Seq<T> {
        Seq::new(
            self.count() as nat,
            |i: int| self.buf@[ring_slot(self.reader_index as int, i, S as int)]->0,
        )
    }

    /// Whether the buffer has not been closed.
    pub closed spec fn is_open(&self) -> bool {
        self.open
    }

    /// The reader index: the slot that the next value is taken from.
    pub closed spec fn reader(&self) -> int {
        self.reader_index as int
    }

    /// The writer index: the slot that the next value is put into.
    pub closed spec fn writer(&self) -> int {
        self.writer_index as int
    }

    /// The slots: `Some` where a value waits, `None` where the slot is free.
    pub closed spec fn slots(&self) -> Seq<Option<T>> {
        self.buf@
    }

    /// An empty, open buffer.
    pub fn new() -> (rb: Self)
        requires
            S > 0,
        ensures
            rb.wf(),
            rb@ == Queue::<T>::fresh(),
            rb.reader() == 0,
            rb.writer() == 0,
            rb.slots().len() == S,
            forall|j: int| 0 <= j < S ==> (#[trigger] rb.slots()[j]) is None,
    {
        let mut buf: Vec<Option<T>> = Vec::new();
        let mut i: usize = 0;
        while i < S
            invariant
                i <= S,
                buf@.len() == i,
                forall|j: int| 0 <= j < i ==> (#[trigger] buf@[j]) is None,
            decreases S - i,
        {
            buf.push(None);
            i += 1;
        }
        let rb = Self { buf, open: true, writer_index: 0, reader_index: 0 };
        assert(rb.pending() =~= Seq::<T>::empty());
        rb
    }

    /// Closes the buffer. What is pending stays; closing twice is closing
    /// once.
    pub fn close(&mut self)
        requires
            old(self).wf(),
        ensures
            final(self).wf(),
            final(self)@ == old(self)@.shut(),
            final(self).reader() == old(self).reader(),
            final(self).writer() == old(self).writer(),
            final(self).slots() == old(self).slots(),
    {
        self.open = false;
        assert(self.pending() =~= old(self).pending());
    }

    /// Puts `item` behind the pending values if a slot is free, and hands it
    /// back if the buffer is full.
    pub fn produce_one(&mut self, item: T) -> (rejected: Option<T>)
        requires
            old(self).wf(),
        ensures
            final(self).wf(),
            final(self)@ == old(self)@.offer(S as int, item),
            rejected == if old(self)@.has_room(S as int) {
                None
            } else {
                Some(item)
            },
            final(self).reader() == old(self).reader(),
            final(self).writer() == if old(self)@.has_room(S as int) {
                (old(self).writer() + 1) % (S as int)
            } else {
                old(self).writer()
            },
            final(self).slots() == if old(self)@.has_room(S as int) {
                old(self).slots().update(old(self).writer(), Some(item))
            } else {
                old(self).slots()
            },
    {
        let w = self.writer_index;
        if self.buf[w].is_some() {
            return Some(item);
        }
        proof {
            ring_slot_wraps(w as int, 1, S as int);
        }
        self.buf.set(w, Some(item));
        self.writer_index = if w + 1 == S {
            0
        } else {
            w + 1
        };
        proof {
            let before = old(self).pending();
            let after = self.pending();
            assert(after.len() == before.len() + 1);
            assert forall|i: int| 0 <= i < after.len() implies after[i] == before.push(item)[i] by {
                let slot = ring_slot(self.reader_index as int, i, S as int);
                if i < before.len() {
                    assert(slot != w);
                }
            }
            assert(after =~= before.push(item));
        }
        None
    }

    /// Moves values from `iter` into the free slots, in the order in which
    /// the iterator yields them, until the buffer is full or the iterator is
    /// exhausted. No value is taken from the iterator that is not stored.
    /// Returns how many values were stored.
    ///
    /// Of an iterator that keeps to the iterator laws the result is exact:
    /// the first `stored` of the values it had left are now pending and the
    /// rest is still in it.
    pub fn produce_many<I: Iterator<Item = T>>(&mut self, iter: &mut I) -> (stored: usize)
        requires
            old(self).wf(),
        ensures
            final(self).wf(),
            final(self)@.open == old(self)@.open,
            stored <= S - old(self)@.pending.len(),
            final(self)@.pending.len() == old(self)@.pending.len() + stored,
            final(self)@.pending.take(old(self)@.pending.len() as int) == old(self)@.pending,
            final(self).reader() == old(self).reader(),
            final(self).writer() == (old(self).writer() + stored) % (S as int),
            stored == 0 ==> final(self).slots() == old(self).slots(),
            forall|j: int|
                0 <= j < S ==> #[trigger] final(self).slots()[j] == if ring_offset(
                    old(self).writer(),
                    j,
                    S as int,
                ) < stored {
                    Some(
                        final(self)@.pending[old(self)@.pending.len() + ring_offset(
                            old(self).writer(),
                            j,
                            S as int,
                        )],
                    )
                } else {
                    old(self).slots()[j]
                },
            <I as IteratorSpec>::obeys_prophetic_iter_laws(old(iter)) ==> {
                let offered = <I as IteratorSpec>::remaining(old(iter));
                &&& final(self)@ == old(self)@.offer_many(S as int, offered)
                &&& stored == accepted(
                    S as int,
                    old(self)@.pending.len() as int,
                    offered.len() as int,
                )
                &&& <I as IteratorSpec>::remaining(final(iter)) == offered.skip(stored as int)
            },
    {
        let mut stored: usize = 0;
        loop
            invariant
                self.wf(),
                self@.open == old(self)@.open,
                stored <= S - old(self)@.pending.len(),
                self@.pending.len() == old(self)@.pending.len() + stored,
                self@.pending.take(old(self)@.pending.len() as int) == old(self)@.pending,
                old(self).wf(),
                self.reader() == old(self).reader(),
                self.writer() == ring_slot(old(self).writer(), stored as int, S as int),
                self.slots().len() == S,
                forall|j: int|
                    0 <= j < S ==> #[trigger] self.slots()[j] == if ring_offset(
                        old(self).writer(),
                        j,
                        S as int,
                    ) < stored {
                        Some(
                            self@.pending[old(self)@.pending.len() + ring_offset(
                                old(self).writer(),
                                j,
                                S as int,
                            )],
                        )
                    } else {
                        old(self).slots()[j]
                    },
                <I as IteratorSpec>::obeys_prophetic_iter_laws(iter)
                    == <I as IteratorSpec>::obeys_prophetic_iter_laws(old(iter)),
                <I as IteratorSpec>::obeys_prophetic_iter_laws(old(iter)) ==> {
                    let offered = <I as IteratorSpec>::remaining(old(iter));
                    &&& stored <= offered.len()
                    &&& self@.pending == old(self)@.pending + offered.take(stored as int)
                    &&& <I as IteratorSpec>::remaining(iter) == offered.skip(stored as int)
                },
            ensures
                <I as IteratorSpec>::obeys_prophetic_iter_laws(old(iter)) ==> stored == accepted(
                    S as int,
                    old(self)@.pending.len() as int,
                    <I as IteratorSpec>::remaining(old(iter)).len() as int,
                ),
            decreases S - self@.pending.len(),
        {
            if self.buf[self.writer_index].is_some() {
                break;
            }
            let ghost before = self@.pending;
            let ghost at = self.writer();
            let ghost rest = <I as IteratorSpec>::remaining(iter);
            match iter.next() {
                None => {
                    break;
                },
                Some(item) => {
                    self.produce_one(item);
                    stored += 1;
                    proof {
                        let kept = old(self)@.pending.len() as int;
                        assert(self@.pending.take(kept) =~= before.take(kept));
                        assert(self@.pending == before.push(item));
                        ring_slot_wraps(at, 1, S as int);
                        assert forall|j: int| 0 <= j < S implies #[trigger] self.slots()[j]
                            == if ring_offset(old(self).writer(), j, S as int) < stored {
                            Some(
                                self@.pending[kept + ring_offset(
                                    old(self).writer(),
                                    j,
                                    S as int,
                                )],
                            )
                        } else {
                            old(self).slots()[j]
                        } by {}
                        if <I as IteratorSpec>::obeys_prophetic_iter_laws(old(iter)) {
                            let offered = <I as IteratorSpec>::remaining(old(iter));
                            assert(item == offered[stored - 1]);
                            assert(offered.take(stored as int) =~= offered.take(stored - 1).push(
                                item,
                            ));
                            assert(rest.drop_first() =~= offered.skip(stored as int));
                        }
                    }
                },
            }
        }
        proof {
            ring_slot_wraps(old(self).writer(), stored as int, S as int);
            if stored == 0 {
                assert(self.slots() =~= old(self).slots());
            }
        }
        stored
    }

    /// Takes the oldest pending value out. With nothing pending, says
    /// whether more may come (`Empty`) or the stream has ended (`Closed`).
    pub fn consume_one(&mut self) -> (got: Consumed<T>)
        requires
            old(self).wf(),
        ensures
            final(self).wf(),
            got == old(self)@.front(),
            final(self)@ == old(self)@.advance(),
            final(self).writer() == old(self).writer(),
            final(self).reader() == if old(self)@.pending.len() > 0 {
                (old(self).reader() + 1) % (S as int)
            } else {
                old(self).reader()
            },
            final(self).slots() == if old(self)@.pending.len() > 0 {
                old(self).slots().update(old(self).reader(), None)
            } else {
                old(self).slots()
            },
    {
        let r = self.reader_index;
        proof {
            ring_slot_wraps(r as int, 1, S as int);
        }
        if self.buf[r].is_none() {
            return if self.open {
                Consumed::Empty
            } else {
                Consumed::Closed
            };
        }
        let taken = self.buf[r].take();
        self.reader_index = if r + 1 == S {
            0
        } else {
            r + 1
        };
        proof {
            let before = old(self).pending();
            let after = self.pending();
            assert(after.len() == before.len() - 1);
            assert forall|i: int| 0 <= i < after.len() implies after[i] == before.skip(1)[i] by {
                let slot = ring_slot(self.reader_index as int, i, S as int);
                assert(slot == ring_slot(r as int, i + 1, S as int));
                assert(slot != r);
            }
            assert(after =~= before.skip(1));
        }
        match taken {
            Some(v) => Consumed::Item(v),
            None => Consumed::Empty,
        }
    }

    /// Where the pending values lie: in the slots from the reader index on,
    /// one after the other and round the end of the ring, with the writer
    /// index behind the last of them. Every other slot is free.
    pub proof fn lemma_span(&self)
        requires
            self.wf(),
        ensures
            S > 0,
            self.slots().len() == S,
            0 <= self.reader() < S,
            0 <= self.writer() < S,
            self@.pending.len() <= S,
            self.writer() == (self.reader() + self@.pending.len()) % (S as int),
            forall|i: int|
                0 <= i < self@.pending.len() ==> self.slots()[(self.reader() + i) % (S as int)]
                    == Some(#[trigger] self@.pending[i]),
            forall|j: int|
                0 <= j < S ==> ((#[trigger] self.slots()[j]) is Some <==> ring_offset(
                    self.reader(),
                    j,
                    S as int,
                ) < self@.pending.len()),
    {
        let len = self@.pending.len() as int;
        ring_slot_wraps(self.reader(), len, S as int);
        assert forall|i: int| 0 <= i < len implies self.slots()[(self.reader() + i) % (S as int)]
            == Some(#[trigger] self@.pending[i]) by {
            ring_slot_wraps(self.reader(), i, S as int);
            let slot = ring_slot(self.reader(), i, S as int);
            assert(ring_offset(self.reader(), slot, S as int) == i);
            assert(self.buf@[slot] is Some);
        }
    }

    /// A well-formed buffer never holds more than `S` values.
    pub proof fn lemma_bounded(&self)
        requires
            self.wf(),
        ensures
            self@.pending.len() <= S,
    {
    }
}

impl<T, const S: usize> View for RingBuffer<T, S> {
    type V = Queue<T>;

    open spec fn view(&self) -> Queue<T> {
        Queue { pending: self.pending(), open: self.is_open() }
    }
}

/// One thing that happens to a buffer: a producer offers a value, a consumer
/// takes from the front, or the buffer is closed.
pub enum Event<T> {
    Offer(T),
    Take,
    Close,
}

/// A buffer together with the record of what went in and what came out.
pub struct Trace<T> {
    /// The buffer's queue.
    pub queue: Queue<T>,
    /// The values that the buffer took in, in the order of the offers.
    pub stored: Seq<T>,
    /// The values that the consumer got, in the order in which it got them.
    pub consumed: Seq<T>,
}

impl<T> Trace<T> {
    /// A fresh buffer with nothing on record.
    pub open spec fn start() -> Self {
        Trace { queue: Queue::fresh(), stored: Seq::empty(), consumed: Seq::empty() }
    }

    /// The trace after one event on a buffer of `capacity` slots.
    pub open spec fn step(self, capacity: int, event: Event<T>) -> Self {
        match event {
            Event::Offer(item) => Trace {
                queue: self.queue.offer(capacity, item),
                stored: if self.queue.has_room(capacity) {
                    self.stored.push(item)
                } else {
                    self.stored
                },
                consumed: self.consumed,
            },
            Event::Take => Trace {
                queue: self.queue.advance(),
                stored: self.stored,
                consumed: match self.queue.front() {
                    Consumed::Item(item) => self.consumed.push(item),
                    _ => self.consumed,
                },
            },
            Event::Close => Trace {
                queue: self.queue.shut(),
                stored: self.stored,
                consumed: self.consumed,
            },
        }
    }

    /// The trace after `events`, the first of them first.
    pub open spec fn run(self, capacity: int, events: Seq<Event<T>>) -> Self
        decreases events.len(),
    {
        if events.len() == 0 {
            self
        } else {
            self.run(capacity, events.drop_last()).step(capacity, events.last())
        }
    }

    /// Nothing is lost, doubled or reordered: what came out, followed by what
    /// is pending, is what went in; and no more is pending than there are
    /// slots.
    pub open spec fn in_order(self, capacity: int) -> bool {
        &&& self.consumed + self.queue.pending == self.stored
        &&& self.queue.pending.len() <= capacity
    }
}

/// Offering values one after the other fills the buffer exactly as offering
/// them together does.
pub proof fn offer_each_is_offer_many<T>(queue: Queue<T>, capacity: int, items: Seq<T>)
    requires
        queue.pending.len() <= capacity,
    ensures
        queue.offer_each(capacity, items) == queue.offer_many(capacity, items),
    decreases items.len(),
{
    if items.len() == 0 {
        assert(queue.offer_many(capacity, items).pending =~= queue.pending);
    } else {
        let next = queue.offer(capacity, items[0]);
        let rest = items.skip(1);
        offer_each_is_offer_many(next, capacity, rest);
        let room = accepted(capacity, queue.pending.len() as int, items.len() as int);
        if queue.has_room(capacity) {
            assert(items.take(room) =~= seq![items[0]] + rest.take(room - 1));
            assert(next.offer_many(capacity, rest).pending =~= queue.offer_many(
                capacity,
                items,
            ).pending);
        } else {
            assert(next.offer_many(capacity, rest).pending =~= queue.offer_many(
                capacity,
                items,
            ).pending);
        }
    }
}

/// A fresh buffer of `capacity` slots takes in `capacity` values with no
/// consumer at work: there is room before each of them, all of them are
/// pending afterwards in the order of the offers, and there is no room for
/// one more.
pub proof fn fresh_buffer_holds_capacity<T>(capacity: int, items: Seq<T>)
    requires
        capacity > 0,
        items.len() == capacity,
    ensures
        forall|k: int|
            0 <= k < capacity ==> (#[trigger] Queue::<T>::fresh().offer_each(
                capacity,
                items.take(k),
            )).has_room(capacity),
        Queue::<T>::fresh().offer_each(capacity, items).pending == items,
        !Queue::<T>::fresh().offer_each(capacity, items).has_room(capacity),
{
    let fresh = Queue::<T>::fresh();
    assert forall|k: int| 0 <= k < capacity implies (#[trigger] fresh.offer_each(
        capacity,
        items.take(k),
    )).has_room(capacity) by {
        offer_each_is_offer_many(fresh, capacity, items.take(k));
    }
    offer_each_is_offer_many(fresh, capacity, items);
    assert(fresh.offer_many(capacity, items).pending =~= items);
}

/// Whatever producer, consumer and closer do to a fresh buffer, and in
/// whatever order: the consumer gets the values that the buffer took in, in
/// the order in which it took them in, each once; those it has not got yet
/// are pending; and the buffer never holds more than `capacity` of them, so
/// that never more than `capacity` values are stored ahead of the consumer.
pub proof fn values_leave_in_arrival_order<T>(capacity: int, events: Seq<Event<T>>)
    requires
        capacity > 0,
    ensures
        Trace::<T>::start().run(capacity, events).in_order(capacity),
        Trace::<T>::start().run(capacity, events).stored.len() <= Trace::<T>::start().run(
            capacity,
            events,
        ).consumed.len() + capacity,
    decreases events.len(),
{
    let start = Trace::<T>::start();
    if events.len() == 0 {
        assert(start.consumed + start.queue.pending =~= start.stored);
    } else {
        values_leave_in_arrival_order(capacity, events.drop_last());
        let before = start.run(capacity, events.drop_last());
        let after = before.step(capacity, events.last());
        assert(after == start.run(capacity, events));
        assert(after.consumed + after.queue.pending =~= after.stored);
    }
}

/// After a close with no further offers the consumer still gets every value
/// that was pending, oldest first, and from then on is told that the stream
/// has ended.
pub proof fn closed_buffer_drains_then_ends<T>(queue: Queue<T>, n: nat)
    ensures
        queue.shut().advance_by(n).front() == if n < queue.pending.len() {
            Consumed::Item(queue.pending[n as int])
        } else {
            Consumed::Closed
        },
        !queue.shut().advance_by(n).open,
    decreases n,
{
    if n > 0 {
        let next = queue.shut().advance();
        let rest = Queue { pending: queue.pending.skip(1), open: queue.open };
        if queue.pending.len() > 0 {
            assert(next == rest.shut());
            closed_buffer_drains_then_ends(rest, (n - 1) as nat);
        } else {
            assert(next == queue.shut());
            closed_buffer_drains_then_ends(queue, (n - 1) as nat);
        }
    }
}

} // verus!
