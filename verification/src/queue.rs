//! A generic bounded FIFO queue backed by a circular buffer.
//!
//! The queue owns a fixed-length slot array; `push` and `pop` are O(1)
//! index arithmetic with wraparound, and no allocation happens after
//! construction. A full queue rejects `push` and hands the item back to
//! the caller. The queue is single-threaded by contract: it has no
//! internal synchronization, so concurrent mutation requires external
//! locking by the caller.

use vstd::arithmetic::div_mod::lemma_small_mod;
use vstd::prelude::*;

verus! {

/// Error returned by `Queue::push` when the queue is at capacity.
/// It carries the rejected item back, so a failed push never drops
/// the caller's value.
#[derive(Debug, PartialEq, Eq)]
pub enum Error<T> {
    Full(T),
}

impl<T> Error<T> {
    /// A human-readable description of the error.
    pub fn message(&self) -> (r: String)
        ensures
            r@ == "queue is full"@,
    {
        String::from_str("queue is full")
    }

    /// Takes the rejected item back out of the error.
    pub fn into_item(self) -> (r: T)
        ensures
            self matches Error::Full(item) && r == item,
    {
        match self {
            Error::Full(item) => item,
        }
    }
}

/// Position of the `k`-th slot of a window that starts at `head` and wraps
/// modulo `cap`. Meaningful for `0 <= head < cap` and `0 <= k <= cap`.
pub open spec fn slot_index(head: int, k: int, cap: int) -> int {
    if head + k < cap {
        head + k
    } else {
        head + k - cap
    }
}

/// Whether buffer position `j` lies inside the occupied window of `len`
/// slots that starts at `head` and wraps modulo `cap`.
pub open spec fn in_window(head: int, len: int, cap: int, j: int) -> bool {
    if head + len <= cap {
        head <= j < head + len
    } else {
        head <= j < cap || 0 <= j < head + len - cap
    }
}

/// A bounded FIFO queue with fixed capacity.
///
/// Its abstract value (the view `self@`) is the sequence of queued items,
/// oldest first. `spec_capacity` gives the fixed slot count.
pub struct Queue<T> {
    buffer: Vec<Option<T>>,
    head: usize,
    tail: usize,
    len: usize,
}

impl<T> View for Queue<T> {
    type V = Seq<T>;

    closed spec fn view(&self) -> Seq<T> {
        Seq::new(
            self.len as nat,
            |k: int| self.buffer@[slot_index(self.head as int, k, self.buffer@.len() as int)]->Some_0,
        )
    }
}

impl<T> Queue<T> {
    /// The fixed capacity chosen at construction.
    pub closed spec fn spec_capacity(&self) -> nat {
        self.buffer@.len()
    }

    /// Validity of the representation: indices stay below the capacity,
    /// the count never exceeds it, `tail` is where the window ends, the
    /// `len` slots from `head` onward hold values, and every slot outside
    /// that window is vacant (a popped value is never retained).
    pub closed spec fn well_formed(&self) -> bool {
        let cap = self.buffer@.len() as int;
        &&& 0 < cap
        &&& (self.head as int) < cap
        &&& (self.tail as int) < cap
        &&& (self.len as int) <= cap
        &&& self.tail as int == slot_index(self.head as int, self.len as int, cap)
        &&& forall|j: int|
            0 <= j < cap ==> ((#[trigger] self.buffer@[j]) is Some <==> in_window(
                self.head as int,
                self.len as int,
                cap,
                j,
            ))
    }

    /// Creates an empty queue with exactly `capacity` vacant slots.
    ///
    /// A zero capacity is a contract violation: the precondition rejects
    /// it, so no zero-capacity queue can ever be constructed through
    /// verified code.
    pub fn new(capacity: usize) -> (r: Self)
        requires
            capacity > 0,
        ensures
            r.well_formed(),
            r.spec_capacity() == capacity,
            r@ == Seq::<T>::empty(),
    {
        let mut buffer: Vec<Option<T>> = Vec::with_capacity(capacity);
        let mut i: usize = 0;
        while i < capacity
            invariant
                i <= capacity,
                buffer@.len() == i,
                forall|j: int| 0 <= j < i ==> (#[trigger] buffer@[j]) is None,
            decreases capacity - i,
        {
            buffer.push(None);
            i = i + 1;
        }
        let r = Self { buffer, head: 0, tail: 0, len: 0 };
        proof {
            assert(r@ =~= Seq::<T>::empty());
        }
        r
    }

    /// Adds an item at the back of the queue.
    ///
    /// When the queue is full the push fails, the queue is unchanged and
    /// the item comes back inside the error; otherwise the item becomes
    /// the newest element of the queue.
    pub fn push(&mut self, item: T) -> (r: Result<(), Error<T>>)
        requires
            old(self).well_formed(),
        ensures
            final(self).well_formed(),
            final(self).spec_capacity() == old(self).spec_capacity(),
            old(self)@.len() < old(self).spec_capacity() ==> {
                &&& r is Ok
                &&& final(self)@ == old(self)@.push(item)
            },
            old(self)@.len() == old(self).spec_capacity() ==> {
                &&& r matches Err(e) && e == Error::Full(item)
                &&& final(self)@ == old(self)@
            },
    {
        if self.is_full() {
            return Err(Error::Full(item));
        }
        let cap = self.buffer.len();
        let ghost old_self = *self;
        self.buffer[self.tail] = Some(item);
        self.tail = (self.tail + 1) % cap;
        self.len = self.len + 1;
        proof {
            let c = cap as int;
            assert(self.tail as int == slot_index(old_self.tail as int, 1, c)) by {
                if old_self.tail as int + 1 < c {
                    lemma_small_mod((old_self.tail + 1) as nat, cap as nat);
                } else {
                    assert((old_self.tail + 1) as int % c == 0) by (nonlinear_arith)
                        requires old_self.tail as int + 1 == c, c > 0;
                }
            }
            assert(self.well_formed());
            assert(self@ =~= old_self@.push(item));
        }
        Ok(())
    }

    /// Removes and returns the oldest item, or returns `None` and leaves
    /// the queue unchanged when it is empty. The vacated slot gives up
    /// ownership of the value entirely.
    pub fn pop(&mut self) -> (r: Option<T>)
        requires
            old(self).well_formed(),
        ensures
            final(self).well_formed(),
            final(self).spec_capacity() == old(self).spec_capacity(),
            old(self)@.len() == 0 ==> r is None && final(self)@ == old(self)@,
            old(self)@.len() > 0 ==> {
                &&& r == Some(old(self)@[0])
                &&& final(self)@ == old(self)@.drop_first()
            },
    {
        if self.is_empty() {
            return None;
        }
        let cap = self.buffer.len();
        let ghost old_self = *self;
        let mut taken: Option<T> = None;
        let slot = &mut self.buffer[self.head];
        core::mem::swap(&mut taken, slot);
        self.head = (self.head + 1) % cap;
        self.len = self.len - 1;
        proof {
            let c = cap as int;
            assert(self.head as int == slot_index(old_self.head as int, 1, c)) by {
                if old_self.head as int + 1 < c {
                    lemma_small_mod((old_self.head + 1) as nat, cap as nat);
                } else {
                    assert((old_self.head + 1) as int % c == 0) by (nonlinear_arith)
                        requires old_self.head as int + 1 == c, c > 0;
                }
            }
            assert(self.well_formed());
            assert(self@ =~= old_self@.drop_first());
            assert(taken == Some(old_self@[0]));
        }
        taken
    }

    /// Returns the number of items currently queued.
    pub fn len(&self) -> (r: usize)
        ensures
            r == self@.len(),
    {
        self.len
    }

    /// Returns `true` when the queue holds no items.
    pub fn is_empty(&self) -> (r: bool)
        ensures
            r == (self@.len() == 0),
    {
        self.len == 0
    }

    /// Returns `true` when the queue is at capacity.
    pub fn is_full(&self) -> (r: bool)
        ensures
            r == (self@.len() == self.spec_capacity()),
    {
        self.len == self.buffer.len()
    }

    /// Returns the fixed capacity chosen at construction.
    pub fn capacity(&self) -> (r: usize)
        ensures
            r == self.spec_capacity(),
    {
        self.buffer.len()
    }
}

/// The count of queued items never leaves `[0, capacity]` for any queue
/// that verified code can hold, whatever sequence of pushes and pops
/// produced it.
pub proof fn lemma_len_bounded<T>(q: &Queue<T>)
    requires
        q.well_formed(),
    ensures
        0 <= q@.len() <= q.spec_capacity(),
{
}

/// FIFO law: pushing the elements of `items` into an empty queue that has
/// room for all of them, then popping until the queue is empty again,
/// returns exactly `items` in push order. Running such fill/drain cycles
/// back to back always ends each cycle on an empty queue.
pub fn fifo_round_trip<T>(q: &mut Queue<T>, items: Vec<T>) -> (popped: Vec<T>)
    requires
        old(q).well_formed(),
        old(q)@.len() == 0,
        items@.len() <= old(q).spec_capacity(),
    ensures
        final(q).well_formed(),
        final(q).spec_capacity() == old(q).spec_capacity(),
        final(q)@.len() == 0,
        popped@ == items@,
{
    let ghost items0 = items@;
    let mut rest = items;
    while rest.len() > 0
        invariant
            q.well_formed(),
            q.spec_capacity() == old(q).spec_capacity(),
            items0.len() <= q.spec_capacity(),
            rest@.len() <= items0.len(),
            q@ == items0.take(items0.len() - rest@.len()),
            rest@ == items0.skip(items0.len() - rest@.len()),
        decreases rest@.len(),
    {
        let x = rest.remove(0);
        let ghost k: int = items0.len() - rest@.len() - 1;
        assert(x == items0[k as int]);
        let _ = q.push(x);
        proof {
            assert(q@ =~= items0.take(k as int + 1));
            assert(rest@ =~= items0.skip(k as int + 1));
        }
    }
    assert(q@ =~= items0);
    let mut popped: Vec<T> = Vec::new();
    while q.len() > 0
        invariant
            q.well_formed(),
            q.spec_capacity() == old(q).spec_capacity(),
            popped@.len() <= items0.len(),
            popped@ == items0.take(popped@.len() as int),
            q@ == items0.skip(popped@.len() as int),
        decreases q@.len(),
    {
        let ghost j: int = popped@.len() as int;
        match q.pop() {
            Some(x) => {
                assert(x == items0[j as int]);
                popped.push(x);
                proof {
                    assert(popped@ =~= items0.take(j as int + 1));
                    assert(q@ =~= items0.skip(j as int + 1));
                }
            },
            None => {
                proof {
                    assert(false);
                }
            },
        }
    }
    proof {
        assert(popped@ =~= items0);
    }
    popped
}

/// Wraparound law: feeding `items` one by one through a queue that has
/// room for one more element - push one, pop one, arbitrarily many times -
/// hands the elements out in exactly first-in-first-out order, however
/// often the internal indices wrap. What comes out is the oldest prefix of
/// everything ever queued; what stays is the newest suffix.
pub fn relay<T>(q: &mut Queue<T>, items: Vec<T>) -> (popped: Vec<T>)
    requires
        old(q).well_formed(),
        old(q)@.len() < old(q).spec_capacity(),
    ensures
        final(q).well_formed(),
        final(q).spec_capacity() == old(q).spec_capacity(),
        popped@ == (old(q)@ + items@).take(items@.len() as int),
        final(q)@ == (old(q)@ + items@).skip(items@.len() as int),
{
    let ghost start = old(q)@;
    let ghost items0 = items@;
    let mut rest = items;
    let mut popped: Vec<T> = Vec::new();
    while rest.len() > 0
        invariant
            q.well_formed(),
            q.spec_capacity() == old(q).spec_capacity(),
            q@.len() == start.len() < q.spec_capacity(),
            rest@.len() <= items0.len(),
            popped@.len() == items0.len() - rest@.len(),
            rest@ == items0.skip(popped@.len() as int),
            popped@ == (start + items0.take(popped@.len() as int)).take(popped@.len() as int),
            q@ == (start + items0.take(popped@.len() as int)).skip(popped@.len() as int),
        decreases rest@.len(),
    {
        let ghost k: int = popped@.len() as int;
        let ghost all_k = start + items0.take(k as int);
        let x = rest.remove(0);
        assert(x == items0[k as int]);
        let _ = q.push(x);
        let ghost all_k1 = start + items0.take(k as int + 1);
        proof {
            assert(all_k1 =~= all_k.push(items0[k as int]));
            assert(q@ =~= all_k1.skip(k as int));
        }
        match q.pop() {
            Some(y) => {
                assert(y == all_k1[k as int]);
                popped.push(y);
                proof {
                    assert(popped@ =~= all_k1.take(k as int + 1));
                    assert(q@ =~= all_k1.skip(k as int + 1));
                    assert(rest@ =~= items0.skip(k as int + 1));
                }
            },
            None => {
                proof {
                    assert(false);
                }
            },
        }
    }
    proof {
        assert(items0.take(items0.len() as int) =~= items0);
        assert(popped@ =~= (start + items0).take(items0.len() as int));
        assert(q@ =~= (start + items0).skip(items0.len() as int));
    }
    popped
}

} // verus!
