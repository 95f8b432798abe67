//! The queue shared between one producer and one consumer.
//!
//! A `CyclicQueue` keeps the same scheme as `UnsafeCyclicQueue`, with the two
//! indices in atomics so that the producer and the consumer may run on
//! different threads, or one of them in an interrupt of the other:
//!
//! - a push reads the end and begin indices, stops with `FullQueueError` when
//!   `is_capacity_reached` says the queue is full, writes its element into the
//!   slot of the end index, and only then publishes the advanced end index;
//! - a pop reads the begin and end indices, stops with `None` when they are
//!   equal, takes the element out of the slot of the begin index, and only
//!   then publishes the advanced begin index.
//!
//! Only the producer writes the end index and only the consumer the begin
//! index. Each slot sits in a cell of its own (vstd's verified lock, used only
//! to move the element in or out; taking it spins while the other side holds
//! it). The design intends that the two sides never want the same cell at the
//! same time, so that neither waits: the producer only touches the slot of an
//! index the consumer has not yet been shown, and the consumer only one the
//! producer has already published and not yet been shown free again. That
//! argument is not proved here; what is verified is memory safety, the absence
//! of panics and overflow, and the decisions below.
//! Two flags record whether a producer and a consumer currently exist, so that
//! at most one of each is handed out at a time; dropping one clears its flag.
//!
//! What the other side does between two calls is not known to the caller, so
//! the results of `is_empty`, `is_full`, `push` and `pop` are not tied to any
//! earlier call. The decisions they make are those of `indices_show_empty`,
//! `is_capacity_reached` and `increment_rollover`, whose contracts are exact,
//! on the indices as they are read.
use vstd::prelude::*;
use vstd::rwlock::{RwLock, RwLockPredicate};
use std::sync::atomic::AtomicBool;
use std::sync::atomic::AtomicUsize;
use std::sync::atomic::Ordering;
use std::sync::Arc;
use crate::FullQueueError;
use crate::ring::UnsafeCyclicQueue;

verus! {

/// The cell of one slot may hold any value.
pub struct AnySlot;

impl<T> RwLockPredicate<Option<T>> for AnySlot {
    open spec fn inv(self, slot: Option<T>) -> bool {
        true
    }
}

/// Clears a claim flag: calls `AtomicBool::store(false, Ordering::Release)`.
/// Trusted to return normally and to open no invariant: std documents that
/// `store` panics only for the orderings `Acquire` and `AcqRel`. Nothing is
/// stated of the flag's value, which other threads may change at any time.
#[verifier::external_body]
fn release_claim(flag: &AtomicBool)
    opens_invariants none
    no_unwind
{
    flag.store(false, Ordering::Release);
}

/// Sets `flag` if it is clear, and reports whether this call set it.
fn try_claim(flag: &AtomicBool) -> (r: bool) {
    match flag.compare_exchange(false, true, Ordering::Acquire, Ordering::Relaxed) {
        Ok(_) => true,
        Err(_) => false,
    }
}

/// A cyclic queue of at most `SIZE` elements for one `Producer` and one
/// `Consumer`, which need not be on the same thread.
pub struct CyclicQueue<T, const SIZE: usize> {
    slots: Vec<RwLock<Option<T>, AnySlot>>,
    begin_index: AtomicUsize,
    end_index: AtomicUsize,
    has_producer: AtomicBool,
    has_consumer: AtomicBool,
}

impl<T, const SIZE: usize> CyclicQueue<T, SIZE> {
    /// A queue whose size allows a ring has one cell per slot.
    #[verifier::type_invariant]
    spec fn slots_fit(&self) -> bool {
        UnsafeCyclicQueue::<T, SIZE>::valid_size() ==> self.slots@.len() == SIZE
    }

    /// The number of slot cells of the queue.
    pub closed spec fn slot_count(&self) -> nat {
        self.slots@.len()
    }
}

impl<T, const SIZE: usize> Default for CyclicQueue<T, SIZE> {
    /// An empty queue with neither producer nor consumer: `SIZE` empty slots
    /// and both indices at zero. For a `SIZE` outside
    /// `UnsafeCyclicQueue::valid_size`, for which no ring can exist, the queue
    /// has no slot and stores nothing: it reports itself empty and full, every
    /// push fails and every pop gives `None`.
    fn default() -> (r: Self)
        ensures
            UnsafeCyclicQueue::<T, SIZE>::valid_size() ==> r.slot_count() == SIZE,
            !UnsafeCyclicQueue::<T, SIZE>::valid_size() ==> r.slot_count() == 0,
    {
        let mut slots: Vec<RwLock<Option<T>, AnySlot>> = Vec::new();
        if UnsafeCyclicQueue::<T, SIZE>::size_is_valid() {
            let mut i: usize = 0;
            while i < SIZE
                invariant
                    i <= SIZE,
                    slots@.len() == i,
                decreases SIZE - i,
            {
                slots.push(RwLock::new(None, Ghost(AnySlot)));
                i = i + 1;
            }
        }
        CyclicQueue {
            slots,
            begin_index: AtomicUsize::new(0),
            end_index: AtomicUsize::new(0),
            has_producer: AtomicBool::new(false),
            has_consumer: AtomicBool::new(false),
        }
    }
}

impl<T, const SIZE: usize> CyclicQueue<T, SIZE> {
    /// Creates an empty queue behind an `Arc`, ready to be handed to a
    /// `Producer` and a `Consumer`.
    pub fn new() -> (r: Arc<Self>)
        requires
            UnsafeCyclicQueue::<T, SIZE>::valid_size(),
        ensures
            (*r).slot_count() == SIZE,
    {
        Arc::new(Self::default())
    }

    /// Whether the queue held no element when it was looked at: whether
    /// `indices_show_empty` held of the indices read. A queue of a size for which no ring
    /// can exist holds nothing.
    pub fn is_empty(&self) -> (r: bool)
        ensures
            !UnsafeCyclicQueue::<T, SIZE>::valid_size() ==> r,
    {
        if !UnsafeCyclicQueue::<T, SIZE>::size_is_valid() {
            return true;
        }
        let begin_index: usize = self.begin_index.load(Ordering::Acquire);
        let end_index: usize = self.end_index.load(Ordering::Acquire);
        UnsafeCyclicQueue::<T, SIZE>::indices_show_empty(begin_index, end_index)
    }

    /// Whether the queue held `SIZE` elements when it was looked at: whether
    /// `is_capacity_reached` held of the indices read. A queue of a size for
    /// which no ring can exist takes nothing.
    pub fn is_full(&self) -> (r: bool)
        ensures
            !UnsafeCyclicQueue::<T, SIZE>::valid_size() ==> r,
    {
        if !UnsafeCyclicQueue::<T, SIZE>::size_is_valid() {
            return true;
        }
        let begin_index: usize = self.begin_index.load(Ordering::Acquire);
        let end_index: usize = self.end_index.load(Ordering::Acquire);
        UnsafeCyclicQueue::<T, SIZE>::is_capacity_reached(begin_index, end_index)
    }

    /// Reads the indices and appends `value`, or reports that the queue was full.
    fn push_value(&self, value: T) -> (r: Result<(), FullQueueError>)
        ensures
            !UnsafeCyclicQueue::<T, SIZE>::valid_size() ==> r is Err,
    {
        if !UnsafeCyclicQueue::<T, SIZE>::size_is_valid() {
            return Err(FullQueueError);
        }
        let end_index: usize = self.end_index.load(Ordering::Acquire);
        let begin_index: usize = self.begin_index.load(Ordering::Acquire);
        self.push_at(begin_index, end_index, value)
    }

    /// Appends `value` given the indices read as `begin_index` and
    /// `end_index`: fails exactly when they show a full queue, and otherwise
    /// stores `value` in the slot of `end_index` and then publishes the end
    /// index advanced by one with roll-over.
    fn push_at(&self, begin_index: usize, end_index: usize, value: T) -> (r: Result<(), FullQueueError>)
        requires
            UnsafeCyclicQueue::<T, SIZE>::valid_size(),
        ensures
            r is Err <==> UnsafeCyclicQueue::<T, SIZE>::spec_capacity_reached_at(begin_index, end_index),
            r is Err ==> r == Err::<(), FullQueueError>(FullQueueError),
    {
        if UnsafeCyclicQueue::<T, SIZE>::is_capacity_reached(begin_index, end_index) {
            return Err(FullQueueError);
        }
        proof {
            use_type_invariant(self);
        }
        let cell = &self.slots[end_index % SIZE];
        let (_, handle) = cell.acquire_write();
        handle.release_write(Some(value));
        self.end_index.store(
            UnsafeCyclicQueue::<T, SIZE>::increment_rollover(end_index),
            Ordering::Release,
        );
        Ok(())
    }

    /// Reads the indices and removes the oldest element, if there is one.
    fn pop_value(&self) -> (r: Option<T>)
        ensures
            !UnsafeCyclicQueue::<T, SIZE>::valid_size() ==> r is None,
    {
        if !UnsafeCyclicQueue::<T, SIZE>::size_is_valid() {
            return None;
        }
        let begin_index: usize = self.begin_index.load(Ordering::Acquire);
        let end_index: usize = self.end_index.load(Ordering::Acquire);
        self.pop_at(begin_index, end_index)
    }

    /// Removes the oldest element given the indices read as `begin_index`
    /// and `end_index`: gives `None` when they are equal, and otherwise takes
    /// the element out of the slot of `begin_index`, leaving it empty, and
    /// then publishes the begin index advanced by one with roll-over.
    fn pop_at(&self, begin_index: usize, end_index: usize) -> (r: Option<T>)
        requires
            UnsafeCyclicQueue::<T, SIZE>::valid_size(),
        ensures
            begin_index == end_index ==> r is None,
    {
        if UnsafeCyclicQueue::<T, SIZE>::indices_show_empty(begin_index, end_index) {
            return None;
        }
        proof {
            use_type_invariant(self);
        }
        let cell = &self.slots[begin_index % SIZE];
        let (data, handle) = cell.acquire_write();
        handle.release_write(None);
        self.begin_index.store(
            UnsafeCyclicQueue::<T, SIZE>::increment_rollover(begin_index),
            Ordering::Release,
        );
        data
    }
}

/// The single producer of a `CyclicQueue`: it enqueues new elements for the
/// `Consumer`.
pub struct Producer<T, const SIZE: usize> {
    cyclic_queue: Arc<CyclicQueue<T, SIZE>>,
}

impl<T, const SIZE: usize> Producer<T, SIZE> {
    /// The queue this producer feeds.
    pub closed spec fn spec_queue(&self) -> Arc<CyclicQueue<T, SIZE>> {
        self.cyclic_queue
    }

    /// Creates the producer of `queue` if it has none at this moment; while
    /// the producer exists no other can be created.
    pub fn new(queue: Arc<CyclicQueue<T, SIZE>>) -> (r: Option<Self>)
        ensures
            r matches Some(p) ==> p.spec_queue() == queue,
    {
        if try_claim(&queue.has_producer) {
            Some(Producer { cyclic_queue: queue })
        } else {
            None
        }
    }

    /// Enqueues `value`, or returns `FullQueueError` if the queue is full.
    pub fn push(&mut self, value: T) -> (r: Result<(), FullQueueError>)
        ensures
            final(self).spec_queue() == old(self).spec_queue(),
            !UnsafeCyclicQueue::<T, SIZE>::valid_size() ==> r is Err,
    {
        self.cyclic_queue.push_value(value)
    }

    /// The queue this producer feeds.
    pub fn queue(&self) -> (r: &Arc<CyclicQueue<T, SIZE>>)
        ensures
            *r == self.spec_queue(),
    {
        &self.cyclic_queue
    }
}

impl<T, const SIZE: usize> Drop for Producer<T, SIZE> {
    /// Lets the queue take a new producer.
    fn drop(&mut self)
        opens_invariants none
        no_unwind
    {
        release_claim(&self.cyclic_queue.has_producer);
    }
}

/// The single consumer of a `CyclicQueue`: it takes the elements the
/// `Producer` enqueued, oldest first.
pub struct Consumer<T, const SIZE: usize> {
    cyclic_queue: Arc<CyclicQueue<T, SIZE>>,
}

impl<T, const SIZE: usize> Consumer<T, SIZE> {
    /// The queue this consumer drains.
    pub closed spec fn spec_queue(&self) -> Arc<CyclicQueue<T, SIZE>> {
        self.cyclic_queue
    }

    /// Creates the consumer of `queue` if it has none at this moment; while
    /// the consumer exists no other can be created.
    pub fn new(queue: Arc<CyclicQueue<T, SIZE>>) -> (r: Option<Self>)
        ensures
            r matches Some(c) ==> c.spec_queue() == queue,
    {
        if try_claim(&queue.has_consumer) {
            Some(Consumer { cyclic_queue: queue })
        } else {
            None
        }
    }

    /// Removes and returns the oldest element, or `None` if the queue is empty.
    pub fn pop(&mut self) -> (r: Option<T>)
        ensures
            final(self).spec_queue() == old(self).spec_queue(),
            !UnsafeCyclicQueue::<T, SIZE>::valid_size() ==> r is None,
    {
        self.cyclic_queue.pop_value()
    }

    /// The queue this consumer drains.
    pub fn queue(&self) -> (r: &Arc<CyclicQueue<T, SIZE>>)
        ensures
            *r == self.spec_queue(),
    {
        &self.cyclic_queue
    }
}

impl<T, const SIZE: usize> Drop for Consumer<T, SIZE> {
    /// Lets the queue take a new consumer.
    fn drop(&mut self)
        opens_invariants none
        no_unwind
    {
        release_claim(&self.cyclic_queue.has_consumer);
    }
}

} // verus!
