//! Bounded ring queue: a fixed-capacity circular buffer with a read cursor
//! (`head`) and a write cursor (`tail`).
//!
//! One slot is kept as a guard, so a buffer of capacity `C` holds at most
//! `C - 1` elements: the queue is empty exactly when `head == tail`, and full
//! exactly when the successor of `tail` is `head`. Both cursors only ever
//! advance (modulo the capacity); `push` writes at `tail` and `pop` takes the
//! element at `head`, so elements leave in the order they entered.

use vstd::prelude::*;

verus! {

use vstd::pervasive::VecAdditionalExecFns;

/// The slot index that lies `i` places after `head` in a buffer of `cap`
/// slots, for `0 <= i < cap` and `0 <= head < cap`.
pub open spec fn slot_of(head: int, i: int, cap: int) -> int {
    if head + i < cap {
        head + i
    } else {
        head + i - cap
    }
}

/// How far slot `i` lies ahead of `head`, going forward around a buffer of
/// `cap` slots: the inverse of [`slot_of`].
pub open spec fn offset_of(head: int, i: int, cap: int) -> int {
    if i >= head {
        i - head
    } else {
        i + cap - head
    }
}

/// The cursor value one step forward of `i` around a buffer of `cap` slots.
pub open spec fn next_index(i: int, cap: int) -> int {
    if i + 1 == cap {
        0
    } else {
        i + 1
    }
}

/// For a value below twice the capacity, reducing modulo the capacity either
/// keeps it or subtracts the capacity once.
proof fn lemma_mod_shape(v: int, cap: int)
    requires
        0 < cap,
        0 <= v < 2 * cap,
    ensures
        v % cap == if v < cap {
            v
        } else {
            v - cap
        },
{
    if v < cap {
        vstd::arithmetic::div_mod::lemma_small_mod(v as nat, cap as nat);
    } else {
        vstd::arithmetic::div_mod::lemma_mod_multiples_vanish(1, v - cap, cap);
        vstd::arithmetic::div_mod::lemma_small_mod((v - cap) as nat, cap as nat);
    }
}

/// The branch-free successor of a cursor agrees with the modulo form.
pub proof fn lemma_next_index_is_mod(i: int, cap: int)
    requires
        1 < cap,
        0 <= i < cap,
    ensures
        next_index(i, cap) == (i + 1) % cap,
{
    lemma_mod_shape(i + 1, cap);
}

/// The distance-based fullness formula — "pushing once more would make the
/// write cursor catch the read cursor" — agrees with the successor form.
pub proof fn lemma_full_formula(tail: int, head: int, cap: int)
    requires
        1 < cap,
        0 <= tail < cap,
        0 <= head < cap,
    ensures
        (tail + 1 + cap - head) % cap == 0 <==> next_index(tail, cap) == head,
{
    let v = tail + 1 + cap - head;
    if v == 2 * cap {
        vstd::arithmetic::div_mod::lemma_mod_multiples_basic(2, cap);
    } else {
        lemma_mod_shape(v, cap);
    }
}

/// What a producer decides after reading both cursors: either the queue is
/// full, or the producer may claim the slot under the write cursor and
/// advance that cursor to `next_tail`.
#[derive(Clone, Copy, Debug, PartialEq, Eq)]
pub enum PushDecision {
    Full,
    Claim { slot: usize, next_tail: usize },
}

/// What a consumer decides after reading both cursors: either the queue is
/// empty, or the consumer may claim the slot under the read cursor and
/// advance that cursor to `next_head`.
#[derive(Clone, Copy, Debug, PartialEq, Eq)]
pub enum PopDecision {
    Empty,
    Claim { slot: usize, next_head: usize },
}

/// Decides a push attempt from one observation of the cursors: full exactly
/// when advancing `tail` would make it catch `head` (equivalently, when the
/// circular distance formula comes out to zero), and otherwise a claim on the
/// slot under `tail`.
pub fn push_decide(tail: usize, head: usize, capacity: usize) -> (d: PushDecision)
    requires
        1 < capacity,
        tail < capacity,
        head < capacity,
    ensures
        d is Full <==> next_index(tail as int, capacity as int) == head,
        d is Full <==> (tail + 1 + capacity - head) % (capacity as int) == 0,
        d matches PushDecision::Claim { slot, next_tail }
            ==> slot == tail && next_tail == next_index(tail as int, capacity as int) && next_tail
            == (tail + 1) % (capacity as int),
{
    proof {
        lemma_full_formula(tail as int, head as int, capacity as int);
        lemma_next_index_is_mod(tail as int, capacity as int);
    }
    let next_tail: usize = if tail + 1 == capacity {
        0
    } else {
        tail + 1
    };
    if next_tail == head {
        PushDecision::Full
    } else {
        PushDecision::Claim { slot: tail, next_tail }
    }
}

/// Decides a pop attempt from one observation of the cursors: empty exactly
/// when the cursors coincide, and otherwise a claim on the slot under `head`.
pub fn pop_decide(head: usize, tail: usize, capacity: usize) -> (d: PopDecision)
    requires
        1 < capacity,
        head < capacity,
        tail < capacity,
    ensures
        d is Empty <==> head == tail,
        d matches PopDecision::Claim { slot, next_head }
            ==> slot == head && next_head == next_index(head as int, capacity as int) && next_head
            == (head + 1) % (capacity as int),
{
    proof {
        lemma_next_index_is_mod(head as int, capacity as int);
    }
    let next_head: usize = if head + 1 == capacity {
        0
    } else {
        head + 1
    };
    if head == tail {
        PopDecision::Empty
    } else {
        PopDecision::Claim { slot: head, next_head }
    }
}

/// A bounded multi-producer/multi-consumer queue over a circular buffer.
///
/// `arr` has a fixed length (the capacity, chosen at construction); the
/// elements currently queued sit in the slots from `head` (inclusive) to
/// `tail` (exclusive), going forward circularly, and every other slot is
/// vacant.
pub struct RingBuffer<T> {
    arr: Vec<Option<T>>,
    head: usize,
    tail: usize,
}

impl<T> View for RingBuffer<T> {
    type V = Seq<T>;

    /// The elements currently queued, oldest first.
    closed spec fn view(&self) -> Seq<T> {
        Seq::new(
            self.live_len() as nat,
            |i: int| self.arr@[slot_of(self.head as int, i, self.capacity())].unwrap(),
        )
    }
}

impl<T> RingBuffer<T> {
    /// The fixed number of slots, chosen at construction; the queue holds at
    /// most `capacity() - 1` elements at once.
    pub closed spec fn capacity(self) -> int {
        self.arr@.len() as int
    }

    /// The number of elements currently queued.
    pub closed spec fn live_len(self) -> int {
        offset_of(self.head as int, self.tail as int, self.capacity())
    }

    /// Well-formedness: the cursors index into the buffer, the capacity
    /// leaves room for the guard slot, and a slot is occupied exactly when it
    /// lies between `head` and `tail`.
    pub closed spec fn wf(self) -> bool {
        &&& self.capacity() > 1
        &&& self.head < self.capacity()
        &&& self.tail < self.capacity()
        &&& forall|i: int|
            0 <= i < self.capacity() ==> (self.arr@[i] is Some <==> offset_of(
                self.head as int,
                i,
                self.capacity(),
            ) < self.live_len())
    }

    /// Constructs an empty queue of `size` slots, able to hold `size - 1`
    /// elements at once. A buffer of one slot could not tell full from empty,
    /// so `size` must be at least two.
    pub fn new(size: usize) -> (r: Self)
        requires
            size > 1,
        ensures
            r.wf(),
            r@ == Seq::<T>::empty(),
            r.capacity() == size,
    {
        let mut arr: Vec<Option<T>> = Vec::new();
        let mut i: usize = 0;
        while i < size
            invariant
                i <= size,
                arr@.len() == i,
                forall|j: int| 0 <= j < i ==> arr@[j] is None,
            decreases size - i,
        {
            arr.push(None);
            i += 1;
        }
        let r = RingBuffer { arr, head: 0, tail: 0 };
        proof {
            assert(r@ =~= Seq::<T>::empty());
        }
        r
    }

    /// Appends `val` at the write cursor, unless the queue already holds its
    /// maximum of `capacity() - 1` elements; a full queue rejects the push
    /// and hands the value back unchanged.
    pub fn push(&mut self, val: T) -> (r: Result<(), T>)
        requires
            old(self).wf(),
        ensures
            final(self).wf(),
            final(self).capacity() == old(self).capacity(),
            old(self)@.len() == old(self).capacity() - 1 ==> r == Err::<(), T>(val) && final(self)@ == old(self)@,
            old(self)@.len() < old(self).capacity() - 1 ==> r == Ok::<(), T>(()) && final(self)@
                == old(self)@.push(val),
    {
        let size = self.arr.len();
        match push_decide(self.tail, self.head, size) {
            PushDecision::Full => {
                proof {
                    assert(old(self)@.len() == old(self).capacity() - 1);
                }
                Err(val)
            },
            PushDecision::Claim { slot, next_tail } => {
                self.arr.set(slot, Some(val));
                self.tail = next_tail;
                proof {
                    assert(self.live_len() == old(self).live_len() + 1);
                    assert forall|i: int| 0 <= i < self.capacity() implies (self.arr@[i] is Some
                        <==> offset_of(self.head as int, i, self.capacity())
                        < self.live_len()) by {
                        assert(self.arr@[i] == if i == slot {
                            Some(val)
                        } else {
                            old(self).arr@[i]
                        });
                    }
                    assert(self@ =~= old(self)@.push(val)) by {
                        assert forall|i: int| 0 <= i < self@.len() implies self@[i] == old(self)@.push(val)[i] by {
                            assert(slot_of(self.head as int, i, self.capacity()) == slot ==> i
                                == old(self).live_len());
                        }
                    }
                }
                Ok(())
            },
        }
    }

    /// Removes and returns the oldest element; an empty queue — read cursor
    /// equal to write cursor — reports emptiness and changes nothing.
    pub fn pop(&mut self) -> (r: Result<T, ()>)
        requires
            old(self).wf(),
        ensures
            final(self).wf(),
            final(self).capacity() == old(self).capacity(),
            old(self)@.len() == 0 ==> r == Err::<T, ()>(()) && final(self)@ == old(self)@,
            old(self)@.len() > 0 ==> r == Ok::<T, ()>(old(self)@[0]) && final(self)@ == old(self)@.drop_first(),
    {
        let size = self.arr.len();
        match pop_decide(self.head, self.tail, size) {
            PopDecision::Empty => Err(()),
            PopDecision::Claim { slot, next_head } => {
                proof {
                    assert(old(self)@.len() > 0);
                    assert(offset_of(self.head as int, slot as int, self.capacity()) == 0);
                }
                let mut taken: Option<T> = None;
                self.arr.set_and_swap(slot, &mut taken);
                self.head = next_head;
                match taken {
                    Some(v) => {
                        proof {
                            assert(v == old(self)@[0]);
                            assert(self.live_len() == old(self).live_len() - 1);
                            assert forall|i: int| 0 <= i < self.capacity() implies (self.arr@[i]
                                is Some <==> offset_of(self.head as int, i, self.capacity())
                                < self.live_len()) by {
                                assert(self.arr@[i] == if i == slot {
                                    None
                                } else {
                                    old(self).arr@[i]
                                });
                                assert(i != slot ==> offset_of(self.head as int, i, self.capacity())
                                    == offset_of(old(self).head as int, i, self.capacity()) - 1);
                            }
                            assert(self@ =~= old(self)@.drop_first()) by {
                                assert forall|i: int| 0 <= i < self@.len() implies self@[i] == old(self)@.drop_first()[i] by {
                                    assert(slot_of(self.head as int, i, self.capacity()) == slot_of(
                                        old(self).head as int,
                                        i + 1,
                                        self.capacity(),
                                    ));
                                    assert(slot_of(old(self).head as int, i + 1, self.capacity())
                                        != slot);
                                }
                            }
                        }
                        Ok(v)
                    },
                    None => {
                        // The invariant puts an element under a claimed read
                        // cursor, so this arm cannot be reached.
                        proof {
                            assert(false);
                        }
                        Err(())
                    },
                }
            },
        }
    }

    /// Capacity invariant: a well-formed queue never holds more than
    /// `capacity() - 1` elements — one slot always stays vacant as the guard
    /// that tells a full buffer from an empty one. Together with the contract
    /// of [`RingBuffer::push`], a queue that already holds `capacity() - 1`
    /// elements rejects the next push.
    pub proof fn lemma_capacity_invariant(self)
        requires
            self.wf(),
        ensures
            self@.len() <= self.capacity() - 1,
    {
    }

    /// The fixed capacity of the buffer (the slot count, not the number of
    /// elements currently queued: the cursors move independently, so there is
    /// no single consistent occupancy snapshot to report).
    pub fn size(&self) -> (r: usize)
        ensures
            r == self.capacity(),
    {
        self.arr.len()
    }
}

} // verus!
