//! The ring storage behind a cyclic queue.
//!
//! `UnsafeCyclicQueue` holds `SIZE` slots and two logical indices, `begin` and
//! `end`, both kept in `[0, roll_over)` where `roll_over` is the largest
//! multiple of `SIZE` that fits in a `usize`. Because the indices run over a
//! range twice as large as the slot array (at least), a full queue
//! (`end == begin + SIZE` modulo `roll_over`) and an empty one (`end == begin`)
//! are told apart without sacrificing a slot. An index names the slot
//! `index % SIZE`; as `roll_over` is a multiple of `SIZE`, rolling an index over
//! keeps the slots in order.
//!
//! The type itself does no synchronisation: `push` and `pop` take `&mut self`,
//! so whoever shares it must serialise access.
use vstd::prelude::*;
use crate::FullQueueError;
use crate::arith::{
    lemma_distance_after_begin_step,
    lemma_distance_after_end_step,
    lemma_distance_is,
    lemma_distance_zero,
    lemma_mod_of_multiple,
    lemma_roll_over_bounds,
    lemma_slot_after_step,
    lemma_slot_of_distance,
    lemma_slots_distinct,
};
use vstd::arithmetic::div_mod::lemma_small_mod;
use vstd::pervasive::VecAdditionalExecFns;

verus! {

/// A cyclic queue of at most `SIZE` elements over a fixed array of slots.
#[derive(Debug)]
pub struct UnsafeCyclicQueue<T, const SIZE: usize> {
    slots: Vec<Option<T>>,
    begin_index: usize,
    end_index: usize,
}

impl<T, const SIZE: usize> View for UnsafeCyclicQueue<T, SIZE> {
    type V = Seq<T>;

    /// The stored elements, oldest first.
    closed spec fn view(&self) -> Seq<T> {
        Seq::new(self.spec_len() as nat, |k: int| self.slots@[self.slot_of(k)]->0)
    }
}

impl<T, const SIZE: usize> UnsafeCyclicQueue<T, SIZE> {
    /// The sizes for which a queue can be built: at least one slot, and the
    /// indices must be able to count to twice the size.
    pub open spec fn valid_size() -> bool {
        0 < SIZE && usize::MAX / SIZE > 1
    }

    /// The value at which the indices roll over to zero: the largest multiple
    /// of `SIZE` not above `usize::MAX`.
    pub open spec fn spec_roll_over() -> int {
        usize::MAX - usize::MAX % SIZE
    }

    /// Whether a queue whose indices are `begin` and `end` holds `SIZE` elements.
    pub open spec fn spec_is_capacity_reached(begin: int, end: int) -> bool {
        end == (begin + SIZE) % Self::spec_roll_over()
    }

    /// Whether indices read as `begin` and `end` show a full queue, with a
    /// `begin` at or above the roll-over value first reduced below it.
    pub open spec fn spec_capacity_reached_at(begin: usize, end: usize) -> bool {
        Self::spec_is_capacity_reached(begin as int % Self::spec_roll_over(), end as int)
    }

    /// The next position after `current`, rolling over to zero.
    pub open spec fn spec_increment_rollover(current: int) -> int {
        (current + 1) % Self::spec_roll_over()
    }

    /// The index of the oldest element (the next one to pop).
    pub closed spec fn spec_begin_index(&self) -> usize {
        self.begin_index
    }

    /// The index at which the next element is pushed.
    pub closed spec fn spec_end_index(&self) -> usize {
        self.end_index
    }

    /// The contents of the slot array.
    pub closed spec fn spec_slots(&self) -> Seq<Option<T>> {
        self.slots@
    }

    /// Number of stored elements: the distance from `begin` to `end`.
    spec fn spec_len(&self) -> int {
        (self.end_index - self.begin_index) % Self::spec_roll_over()
    }

    /// The slot that holds the element `k` places after the oldest one.
    spec fn slot_of(&self, k: int) -> int {
        (self.begin_index + k) % (SIZE as int)
    }

    /// Whether the slot `k` places after the oldest element is filled.
    spec fn occupied(&self, k: int) -> bool {
        self.slots@[self.slot_of(k)] is Some
    }

    /// The well-formedness of a queue: the indices lie below the roll-over
    /// value, at most `SIZE` elements are stored, and exactly the slots of the
    /// stored elements are filled.
    pub closed spec fn wf(&self) -> bool {
        &&& Self::valid_size()
        &&& self.slots@.len() == SIZE
        &&& self.begin_index < Self::spec_roll_over()
        &&& self.end_index < Self::spec_roll_over()
        &&& self.spec_len() <= SIZE
        &&& forall|k: int| 0 <= k < SIZE ==> (#[trigger] self.occupied(k) <==> k < self.spec_len())
    }

    proof fn lemma_roll_over()
        requires
            Self::valid_size(),
        ensures
            Self::spec_roll_over() % (SIZE as int) == 0,
            2 * SIZE <= Self::spec_roll_over() <= usize::MAX,
    {
        lemma_roll_over_bounds(usize::MAX as int, SIZE as int);
    }

    /// Every stored element sits in a filled slot, and every filled slot holds
    /// a stored element.
    proof fn lemma_view_len(&self)
        requires
            self.wf(),
        ensures
            self@.len() == self.spec_len(),
            0 <= self.spec_len() <= SIZE,
    {
        Self::lemma_roll_over();
    }

    /// The roll-over value of the indices.
    pub fn roll_over() -> (r: usize)
        requires
            Self::valid_size(),
        ensures
            r == Self::spec_roll_over(),
    {
        usize::MAX - (usize::MAX % SIZE)
    }

    /// The position after `current`, rolling over to zero at the roll-over
    /// value. It accepts any `usize`; `usize::MAX` wraps to zero first.
    pub fn increment_rollover(current: usize) -> (r: usize)
        requires
            Self::valid_size(),
        ensures
            r == (if current == usize::MAX {
                0
            } else {
                Self::spec_increment_rollover(current as int)
            }),
            r < Self::spec_roll_over(),
            current + 1 < Self::spec_roll_over() ==> r == current + 1,
            current + 1 == Self::spec_roll_over() ==> r == 0,
    {
        proof {
            Self::lemma_roll_over();
            let ro = Self::spec_roll_over();
            if current + 1 < ro {
                lemma_small_mod((current + 1) as nat, ro as nat);
            } else if current + 1 == ro {
                vstd::arithmetic::div_mod::lemma_mod_self_0(ro);
            } else if current == usize::MAX {
                lemma_small_mod(0, ro as nat);
            }
        }
        let next = current.wrapping_add(1);
        assert(current == usize::MAX ==> next == 0);
        assert(current < usize::MAX ==> next == current + 1);
        next % Self::roll_over()
    }

    /// Whether the queue is full when its indices are `begin_index` and
    /// `end_index`: that is, when `end_index` is `SIZE` positions past
    /// `begin_index`, counted with roll-over. A `begin_index` at or above the
    /// roll-over value is first reduced below it.
    pub fn is_capacity_reached(begin_index: usize, end_index: usize) -> (r: bool)
        requires
            Self::valid_size(),
        ensures
            r == Self::spec_capacity_reached_at(begin_index, end_index),
            begin_index < Self::spec_roll_over() ==> r == Self::spec_is_capacity_reached(
                begin_index as int,
                end_index as int,
            ),
    {
        proof {
            Self::lemma_roll_over();
            if begin_index < Self::spec_roll_over() {
                lemma_small_mod(begin_index as nat, Self::spec_roll_over() as nat);
            }
        }
        let roll_over = Self::roll_over();
        let begin = begin_index % roll_over;
        let room = roll_over - SIZE;
        if begin < room {
            proof {
                lemma_small_mod((begin + SIZE) as nat, roll_over as nat);
            }
            begin + SIZE == end_index
        } else {
            proof {
                vstd::arithmetic::div_mod::lemma_fundamental_div_mod_converse_mod(
                    begin + SIZE,
                    roll_over as int,
                    1,
                    begin - room,
                );
            }
            begin - room == end_index
        }
    }

    /// A queue with no elements whose next element goes to position `start`.
    /// Both indices are set to `start`; every slot is empty.
    pub fn with_start(start: usize) -> (r: Self)
        requires
            Self::valid_size(),
            start < Self::spec_roll_over(),
        ensures
            r.wf(),
            r@ == Seq::<T>::empty(),
            r.spec_begin_index() == start,
            r.spec_end_index() == start,
            r.spec_slots() == Seq::new(SIZE as nat, |i: int| None::<T>),
    {
        let mut slots: Vec<Option<T>> = Vec::new();
        let mut i: usize = 0;
        while i < SIZE
            invariant
                i <= SIZE,
                slots@.len() == i,
                forall|j: int| 0 <= j < i ==> slots@[j] is None,
            decreases SIZE - i,
        {
            slots.push(None);
            i = i + 1;
        }
        let r = UnsafeCyclicQueue { slots, begin_index: start, end_index: start };
        proof {
            Self::lemma_roll_over();
            lemma_distance_zero(start as int, start as int, Self::spec_roll_over());
            assert forall|k: int| 0 <= k < SIZE implies !(#[trigger] r.occupied(k)) by {
                vstd::arithmetic::div_mod::lemma_mod_bound(start + k, SIZE as int);
            }
            assert(r@ =~= Seq::<T>::empty());
            assert(r.slots@ =~= Seq::new(SIZE as nat, |i: int| None::<T>));
        }
        r
    }

    /// Creates an empty queue with all slots empty and both indices at zero.
    pub fn new() -> (r: Self)
        requires
            Self::valid_size(),
        ensures
            r.wf(),
            r@ == Seq::<T>::empty(),
            r.spec_begin_index() == 0,
            r.spec_end_index() == 0,
            r.spec_slots() == Seq::new(SIZE as nat, |i: int| None::<T>),
    {
        Self::with_start(0)
    }

    /// The index of the oldest element.
    pub fn begin_index(&self) -> (r: usize)
        ensures
            r == self.spec_begin_index(),
    {
        self.begin_index
    }

    /// The index at which the next element will be stored.
    pub fn end_index(&self) -> (r: usize)
        ensures
            r == self.spec_end_index(),
    {
        self.end_index
    }

    /// The slot array.
    pub fn slots(&self) -> (r: &Vec<Option<T>>)
        ensures
            r@ == self.spec_slots(),
    {
        &self.slots
    }

    /// Whether the queue holds no element.
    pub fn is_empty(&self) -> (r: bool)
        requires
            self.wf(),
        ensures
            r == (self@.len() == 0),
    {
        proof {
            self.lemma_view_len();
            lemma_distance_zero(
                self.begin_index as int,
                self.end_index as int,
                Self::spec_roll_over(),
            );
        }
        Self::indices_show_empty(self.begin_index, self.end_index)
    }

    /// Whether indices read as `begin_index` and `end_index` show an empty
    /// queue: whether they are equal.
    pub fn indices_show_empty(begin_index: usize, end_index: usize) -> (r: bool)
        ensures
            r == (begin_index == end_index),
    {
        begin_index == end_index
    }

    /// Whether the queue holds `SIZE` elements.
    pub fn is_full(&self) -> (r: bool)
        requires
            self.wf(),
        ensures
            r == (self@.len() == SIZE),
    {
        let begin_index = self.begin_index;
        let end_index = self.end_index;
        proof {
            self.lemma_view_len();
            Self::lemma_roll_over();
            lemma_distance_is(
                begin_index as int,
                end_index as int,
                SIZE as int,
                Self::spec_roll_over(),
            );
        }
        Self::is_capacity_reached(begin_index, end_index)
    }

    /// What a push of `value` does to the queue `before`, leaving `after` and
    /// returning `r`: on a full queue it returns `FullQueueError` and changes
    /// nothing; otherwise it stores `value` in the slot of the end index,
    /// advances the end index by one with roll-over, and leaves the begin
    /// index and every other slot as they were.
    pub open spec fn push_step(before: Self, value: T, after: Self, r: Result<(), FullQueueError>) -> bool {
        &&& after.wf()
        &&& before@.len() == SIZE ==> {
            &&& r == Err::<(), FullQueueError>(FullQueueError)
            &&& after == before
        }
        &&& before@.len() < SIZE ==> {
            &&& r == Ok::<(), FullQueueError>(())
            &&& after@ == before@.push(value)
            &&& after.spec_begin_index() == before.spec_begin_index()
            &&& after.spec_end_index() == Self::spec_increment_rollover(
                before.spec_end_index() as int,
            )
            &&& after.spec_slots() == before.spec_slots().update(
                (before.spec_end_index() % SIZE) as int,
                Some(value),
            )
        }
    }

    /// What a pop does to the queue `before`, leaving `after` and returning
    /// `r`: on an empty queue it returns `None` and changes nothing; otherwise
    /// it returns the oldest element, empties the slot of the begin index,
    /// advances the begin index by one with roll-over, and leaves the end
    /// index and every other slot as they were.
    pub open spec fn pop_step(before: Self, after: Self, r: Option<T>) -> bool {
        &&& after.wf()
        &&& before@.len() == 0 ==> {
            &&& r == None::<T>
            &&& after == before
        }
        &&& before@.len() > 0 ==> {
            &&& r == Some(before@[0])
            &&& after@ == before@.drop_first()
            &&& after.spec_begin_index() == Self::spec_increment_rollover(
                before.spec_begin_index() as int,
            )
            &&& after.spec_end_index() == before.spec_end_index()
            &&& after.spec_slots() == before.spec_slots().update(
                (before.spec_begin_index() % SIZE) as int,
                None,
            )
        }
    }

    /// Appends `value` after the newest element. On a full queue nothing
    /// changes and `FullQueueError` is returned.
    pub fn push(&mut self, value: T) -> (r: Result<(), FullQueueError>)
        requires
            old(self).wf(),
        ensures
            Self::push_step(*old(self), value, *final(self), r),
    {
        let end_index: usize = self.end_index;
        let begin_index: usize = self.begin_index;
        proof {
            self.lemma_view_len();
            Self::lemma_roll_over();
            lemma_distance_is(
                begin_index as int,
                end_index as int,
                SIZE as int,
                Self::spec_roll_over(),
            );
        }
        if Self::is_capacity_reached(begin_index, end_index) {
            return Err(FullQueueError);
        }
        let ghost old_q = *self;
        let ghost c = old_q.spec_len();
        let slot: usize = end_index % SIZE;
        self.slots.set(slot, Some(value));
        self.end_index = Self::increment_rollover(end_index);
        proof {
            let ro = Self::spec_roll_over();
            lemma_slot_of_distance(begin_index as int, end_index as int, c, ro, SIZE as int);
            assert(slot == old_q.slot_of(c));
            lemma_distance_after_end_step(begin_index as int, end_index as int, ro);
            assert(self.spec_len() == c + 1);
            assert forall|k: int| 0 <= k < SIZE implies (#[trigger] self.occupied(k) <==> k
                < self.spec_len()) by {
                assert(self.slot_of(k) == old_q.slot_of(k));
                if k != c {
                    lemma_slots_distinct(begin_index as int, k, c, SIZE as int);
                    assert(self.occupied(k) == old_q.occupied(k));
                }
            }
            assert forall|k: int| 0 <= k < c implies self@[k] == old_q@[k] by {
                assert(self.slot_of(k) == old_q.slot_of(k));
                lemma_slots_distinct(begin_index as int, k, c, SIZE as int);
            }
            assert(self@ =~= old_q@.push(value));
            assert(self.slots@ =~= old_q.slots@.update(slot as int, Some(value)));
        }
        Ok(())
    }

    /// Removes and returns the oldest element, or returns `None` on an empty
    /// queue, which is then left unchanged.
    pub fn pop(&mut self) -> (r: Option<T>)
        requires
            old(self).wf(),
        ensures
            Self::pop_step(*old(self), *final(self), r),
    {
        let begin_index: usize = self.begin_index;
        let end_index: usize = self.end_index;
        proof {
            self.lemma_view_len();
            lemma_distance_zero(begin_index as int, end_index as int, Self::spec_roll_over());
        }
        if begin_index == end_index {
            return None;
        }
        let ghost old_q = *self;
        let ghost c = old_q.spec_len();
        let slot: usize = begin_index % SIZE;
        let mut data: Option<T> = None;
        self.slots.set_and_swap(slot, &mut data);
        self.begin_index = Self::increment_rollover(begin_index);
        proof {
            let ro = Self::spec_roll_over();
            let s = SIZE as int;
            Self::lemma_roll_over();
            assert(slot == old_q.slot_of(0));
            assert(old_q.occupied(0));
            lemma_distance_after_begin_step(begin_index as int, end_index as int, ro);
            assert(self.spec_len() == c - 1);
            assert forall|k: int| 0 <= k < SIZE implies (#[trigger] self.occupied(k) <==> k
                < self.spec_len()) by {
                lemma_slot_after_step(begin_index as int, k, ro, s);
                if k < s - 1 {
                    assert(self.slot_of(k) == old_q.slot_of(k + 1));
                    lemma_slots_distinct(begin_index as int, k + 1, 0, s);
                    assert(old_q.occupied(k + 1) <==> k + 1 < c);
                } else {
                    vstd::arithmetic::div_mod::lemma_mod_add_multiples_vanish(begin_index as int, s);
                    assert(self.slot_of(k) == old_q.slot_of(0));
                }
            }
            assert forall|k: int| 0 <= k < c - 1 implies self@[k] == old_q@[k + 1] by {
                lemma_slot_after_step(begin_index as int, k, ro, s);
                assert(self.slot_of(k) == old_q.slot_of(k + 1));
                lemma_slots_distinct(begin_index as int, k + 1, 0, s);
            }
            assert(self@ =~= old_q@.drop_first());
            assert(self.slots@ =~= old_q.slots@.update(slot as int, None));
        }
        data
    }

    /// Whether `SIZE` is one for which a queue can be built.
    pub fn size_is_valid() -> (r: bool)
        ensures
            r == Self::valid_size(),
    {
        SIZE > 0 && usize::MAX / SIZE > 1
    }
}

impl<T, const SIZE: usize> Default for UnsafeCyclicQueue<T, SIZE> {
    /// The same queue as `new`. For a `SIZE` outside `valid_size`, for which
    /// no queue can be built, the result has no slots and is not well formed,
    /// so that no operation accepts it.
    fn default() -> (r: Self)
        ensures
            Self::valid_size() ==> {
                &&& r.wf()
                &&& r@ == Seq::<T>::empty()
                &&& r.spec_begin_index() == 0
                &&& r.spec_end_index() == 0
                &&& r.spec_slots() == Seq::new(SIZE as nat, |i: int| None::<T>)
            },
            !Self::valid_size() ==> !r.wf(),
    {
        if Self::size_is_valid() {
            Self::new()
        } else {
            UnsafeCyclicQueue { slots: Vec::new(), begin_index: 0, end_index: 0 }
        }
    }
}

impl<T, const SIZE: usize> UnsafeCyclicQueue<T, SIZE> {
    /// A queue never holds more than `SIZE` elements.
    pub proof fn law_len_at_most_size(q: &Self)
        requires
            q.wf(),
        ensures
            q@.len() <= SIZE,
    {
        q.lemma_view_len();
    }

    /// A well-formed queue has exactly `SIZE` slots.
    pub proof fn law_slot_count(q: &Self)
        requires
            q.wf(),
        ensures
            q.spec_slots().len() == SIZE,
    {
    }

    /// The indices stay below the roll-over value, and the number of stored
    /// elements is the distance from the begin index to the end index,
    /// counted with roll-over.
    pub proof fn law_len_is_index_distance(q: &Self)
        requires
            q.wf(),
        ensures
            q.spec_begin_index() < Self::spec_roll_over(),
            q.spec_end_index() < Self::spec_roll_over(),
            q@.len() == (q.spec_end_index() - q.spec_begin_index()) % Self::spec_roll_over(),
    {
        q.lemma_view_len();
    }

    /// The empty condition (`begin == end`) and the capacity condition never
    /// hold together, so an empty queue and a full one are always told apart.
    pub proof fn law_empty_and_full_differ(begin_index: int, end_index: int)
        requires
            Self::valid_size(),
            0 <= begin_index < Self::spec_roll_over(),
            0 <= end_index < Self::spec_roll_over(),
        ensures
            !(begin_index == end_index && Self::spec_is_capacity_reached(begin_index, end_index)),
    {
        Self::lemma_roll_over();
        lemma_distance_is(begin_index, end_index, SIZE as int, Self::spec_roll_over());
        lemma_distance_zero(begin_index, end_index, Self::spec_roll_over());
    }

    /// How the decisions on indices relate across calls: on indices that lie
    /// below the roll-over value and at most `SIZE` apart, a push that
    /// `is_capacity_reached` lets through advances the end index to a
    /// position that shows a queue with one more element, which is never
    /// empty, so the pop that follows finds the pushed element; and it shows
    /// a full queue exactly when the push took the last free slot.
    pub proof fn law_accepted_push_is_poppable(begin_index: int, end_index: int)
        requires
            Self::valid_size(),
            0 <= begin_index < Self::spec_roll_over(),
            0 <= end_index < Self::spec_roll_over(),
            (end_index - begin_index) % Self::spec_roll_over() <= SIZE,
            !Self::spec_is_capacity_reached(begin_index, end_index),
        ensures
            ({
                let next = Self::spec_increment_rollover(end_index);
                let count = (end_index - begin_index) % Self::spec_roll_over();
                &&& 0 <= next < Self::spec_roll_over()
                &&& next != begin_index
                &&& (next - begin_index) % Self::spec_roll_over() == count + 1
                &&& Self::spec_is_capacity_reached(begin_index, next) <==> count + 1 == SIZE
            }),
    {
        let ro = Self::spec_roll_over();
        Self::lemma_roll_over();
        lemma_distance_is(begin_index, end_index, SIZE as int, ro);
        lemma_distance_after_end_step(begin_index, end_index, ro);
        let next = Self::spec_increment_rollover(end_index);
        vstd::arithmetic::div_mod::lemma_mod_bound(end_index + 1, ro);
        lemma_distance_zero(begin_index, next, ro);
        lemma_distance_is(begin_index, next, SIZE as int, ro);
    }

    /// Rolling an index over to zero keeps the slots in order: the slot of the
    /// next index is the slot after the slot of the current one.
    pub proof fn law_rollover_keeps_slot_order(current: int)
        requires
            Self::valid_size(),
            0 <= current < Self::spec_roll_over(),
        ensures
            Self::spec_increment_rollover(current) % (SIZE as int) == (current + 1) % (SIZE as int),
    {
        Self::lemma_roll_over();
        lemma_mod_of_multiple(current + 1, Self::spec_roll_over(), SIZE as int);
    }

    /// The queues and results of `values.len()` pushes onto a queue that holds
    /// no element, followed by `values.len() + 1` pops: entry `i` of `queues`
    /// is the queue before step `i` (pushes first, then pops) and after step
    /// `i - 1`.
    pub open spec fn pushes_then_pops(
        queues: Seq<Self>,
        values: Seq<T>,
        pushed: Seq<Result<(), FullQueueError>>,
        popped: Seq<Option<T>>,
    ) -> bool {
        let n = values.len() as int;
        &&& pushed.len() == n
        &&& popped.len() == n + 1
        &&& queues.len() == 2 * n + 2
        &&& queues[0].wf()
        &&& queues[0]@.len() == 0
        &&& forall|i: int|
            0 <= i < n ==> Self::push_step(queues[i], values[i], queues[i + 1], #[trigger] pushed[i])
        &&& forall|j: int|
            0 <= j <= n ==> Self::pop_step(queues[n + j], queues[n + j + 1], #[trigger] popped[j])
    }

    /// First in, first out: pushing at most `SIZE` values onto a queue that
    /// holds no element succeeds each time, and the pops that follow return
    /// the values in the order they were pushed, then `None`.
    pub proof fn law_first_in_first_out(
        queues: Seq<Self>,
        values: Seq<T>,
        pushed: Seq<Result<(), FullQueueError>>,
        popped: Seq<Option<T>>,
    )
        requires
            values.len() <= SIZE,
            Self::pushes_then_pops(queues, values, pushed, popped),
        ensures
            forall|i: int| 0 <= i < values.len() ==> #[trigger] pushed[i] == Ok::<(), FullQueueError>(()),
            forall|j: int| 0 <= j < values.len() ==> #[trigger] popped[j] == Some(values[j]),
            popped[values.len() as int] == None::<T>,
    {
        let n = values.len() as int;
        Self::lemma_pushes(queues, values, pushed, popped, n);
        Self::lemma_pops(queues, values, pushed, popped, n);
        assert forall|i: int| 0 <= i < n implies #[trigger] pushed[i] == Ok::<(), FullQueueError>(()) by {
            Self::lemma_pushes(queues, values, pushed, popped, i);
        }
        assert forall|j: int| 0 <= j < n implies #[trigger] popped[j] == Some(values[j]) by {
            Self::lemma_pops(queues, values, pushed, popped, j);
            assert(queues[n + j]@[0] == values.skip(j)[0]);
        }
    }

    /// After the first `k` pushes the queue holds the first `k` values.
    proof fn lemma_pushes(
        queues: Seq<Self>,
        values: Seq<T>,
        pushed: Seq<Result<(), FullQueueError>>,
        popped: Seq<Option<T>>,
        k: int,
    )
        requires
            values.len() <= SIZE,
            Self::pushes_then_pops(queues, values, pushed, popped),
            0 <= k <= values.len(),
        ensures
            queues[k].wf(),
            queues[k]@ == values.take(k),
            k < values.len() ==> pushed[k] == Ok::<(), FullQueueError>(()),
        decreases k,
    {
        if k > 0 {
            Self::lemma_pushes(queues, values, pushed, popped, k - 1);
            assert(Self::push_step(queues[k - 1], values[k - 1], queues[k], pushed[k - 1]));
            assert(values.take(k - 1).push(values[k - 1]) =~= values.take(k));
        } else {
            assert(queues[0]@ =~= values.take(0));
        }
        if k < values.len() {
            assert(Self::push_step(queues[k], values[k], queues[k + 1], pushed[k]));
        }
    }

    /// After all pushes and the first `j` pops the queue holds the values
    /// from the `j`-th on, and each of those pops returned its value.
    proof fn lemma_pops(
        queues: Seq<Self>,
        values: Seq<T>,
        pushed: Seq<Result<(), FullQueueError>>,
        popped: Seq<Option<T>>,
        j: int,
    )
        requires
            values.len() <= SIZE,
            Self::pushes_then_pops(queues, values, pushed, popped),
            0 <= j <= values.len() + 1,
        ensures
            j <= values.len() ==> queues[values.len() + j].wf(),
            j <= values.len() ==> queues[values.len() + j]@ == values.skip(j),
            j < values.len() ==> popped[j] == Some(values[j]),
            j == values.len() ==> popped[j] == None::<T>,
        decreases j,
    {
        let n = values.len() as int;
        if j == 0 {
            Self::lemma_pushes(queues, values, pushed, popped, n);
            assert(values.take(n) =~= values.skip(0));
        } else {
            Self::lemma_pops(queues, values, pushed, popped, j - 1);
            assert(Self::pop_step(queues[n + j - 1], queues[n + j], popped[j - 1]));
            if j <= n {
                assert(values.skip(j - 1).drop_first() =~= values.skip(j));
            }
        }
        if j <= n {
            assert(Self::pop_step(queues[n + j], queues[n + j + 1], popped[j]));
        }
    }
}

} // verus!
