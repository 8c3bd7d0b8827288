//! A fixed-capacity FIFO ring buffer.
//!
//! [`RingBuffer`] is a circular buffer that supports pushing at its head and popping at its
//! tail in constant time. Its contents are modelled as a sequence, oldest element first.

use vstd::prelude::*;
use std::collections::TryReserveError;
use crate::error::Error;

verus! {

/// Allocation flags, in the kernel's bit encoding.
///
/// The global allocator that backs this library takes no flags: they are carried so that
/// callers written against the kernel interface keep their shape.
pub type Flags = u32;

/// Allocation flags for ordinary, possibly sleeping allocations.
pub const GFP_KERNEL: Flags = 0xcc0;

/// A fixed-capacity FIFO ring buffer.
///
/// Values are pushed at the head and popped at the tail. A buffer made for `capacity`
/// elements has `capacity + 1` slots: one slot always stays empty, so that an empty buffer
/// (`head == tail`) and a full one can be told apart.
pub struct RingBuffer<T> {
    nodes: Vec<Option<T>>,
    head: usize,
    tail: usize,
}

/// A [`RingBuffer`] that kernel code backs with `kmalloc`; here all buffers use the global allocator.
pub type KRingBuffer<T> = RingBuffer<T>;

/// A [`RingBuffer`] that kernel code backs with `vmalloc`; here all buffers use the global allocator.
pub type VRingBuffer<T> = RingBuffer<T>;

/// A [`RingBuffer`] that kernel code backs with `kvmalloc`; here all buffers use the global allocator.
pub type KVRingBuffer<T> = RingBuffer<T>;

/// The slot `k` when `k` may have run one lap past the end of `slots` slots.
pub open spec fn wrap(k: int, slots: int) -> int {
    if k < slots {
        k
    } else {
        k - slots
    }
}

/// Advancing an index by one slot with `%` wraps it round to the first slot.
proof fn lemma_step_mod(k: int, slots: int)
    requires
        0 < k <= slots,
    ensures
        k % slots == wrap(k, slots),
{
    if k < slots {
        vstd::arithmetic::div_mod::lemma_small_mod(k as nat, slots as nat);
    } else {
        vstd::arithmetic::div_mod::lemma_mod_self_0(slots);
    }
}

impl<T> RingBuffer<T> {
    /// Number of slots of the backing storage.
    pub closed spec fn slots(&self) -> nat {
        self.nodes@.len()
    }

    /// Number of elements the buffer can hold.
    pub closed spec fn capacity(&self) -> nat {
        (self.nodes@.len() - 1) as nat
    }

    /// Number of elements held, counted from the tail round to the head.
    closed spec fn count(&self) -> nat {
        if self.tail <= self.head {
            (self.head - self.tail) as nat
        } else {
            (self.nodes@.len() - self.tail + self.head) as nat
        }
    }

    /// The slot of the `i`-th oldest element.
    closed spec fn slot_of(&self, i: int) -> int {
        wrap(self.tail + i, self.nodes@.len() as int)
    }

    /// The elements held, oldest first.
    pub closed spec fn contents(&self) -> Seq<T> {
        Seq::new(self.count(), |i: int| self.nodes@[self.slot_of(i)].unwrap())
    }

    /// Well-formedness: the indices lie within the storage, and every slot between the tail
    /// and the head holds a value.
    pub closed spec fn wf(&self) -> bool {
        &&& 1 <= self.nodes@.len() <= usize::MAX
        &&& self.head < self.nodes@.len()
        &&& self.tail < self.nodes@.len()
        &&& forall|i: int| 0 <= i < self.count() ==> (#[trigger] self.nodes@[self.slot_of(i)]) is Some
    }

    /// The buffer holds as many elements as it can.
    pub open spec fn is_full(&self) -> bool {
        self@.len() == self.capacity()
    }

    /// The buffer holds no element.
    pub open spec fn is_empty(&self) -> bool {
        self@.len() == 0
    }

    /// Number of elements that can still be pushed.
    pub open spec fn free_slots(&self) -> nat {
        (self.capacity() - self@.len()) as nat
    }

    proof fn lemma_wf_facts(&self)
        requires
            self.wf(),
        ensures
            self@.len() == self.count(),
            self.count() <= self.capacity(),
            self.head == self.slot_of(self.count() as int),
            self.slots() == self.capacity() + 1,
    {
    }

    /// Creates a buffer that can hold exactly `capacity` elements.
    ///
    /// Fails with [`Error::ENOMEM`] when `capacity + 1` slots cannot be counted in a `usize`
    /// or the storage cannot be allocated, and for no other reason: a failure with a countable
    /// number of slots comes from a reservation of exactly `capacity + 1` slots that was
    /// refused.
    pub fn new(capacity: usize, _flags: Flags) -> (r: Result<Self, Error>)
        ensures
            capacity == usize::MAX ==> r is Err,
            r is Err && capacity < usize::MAX ==> exists|
                v: &mut Vec<Option<T>>,
                res: Result<(), TryReserveError>,
            |
                #[trigger] call_ensures(Vec::<Option<T>>::try_reserve, (v, (capacity + 1) as usize), res)
                    && res is Err,
            match r {
                Ok(rb) => rb.wf() && rb@ == Seq::<T>::empty() && rb.capacity() == capacity,
                Err(e) => e == Error::ENOMEM,
            },
    {
        let slots = match capacity.checked_add(1) {
            Some(s) => s,
            None => return Err(Error::ENOMEM),
        };
        let mut nodes: Vec<Option<T>> = Vec::new();
        if nodes.try_reserve(slots).is_err() {
            return Err(Error::ENOMEM);
        }
        let mut i: usize = 0;
        while i < slots
            invariant
                i <= slots,
                nodes@.len() == i,
            decreases slots - i,
        {
            nodes.push(None);
            i = i + 1;
        }
        let rb = RingBuffer { nodes, head: 0, tail: 0 };
        assert(rb@ =~= Seq::<T>::empty());
        Ok(rb)
    }

    /// Returns `true` if the buffer is full.
    ///
    /// When the buffer is full, any call to [`RingBuffer::push_head`] returns an error.
    pub fn full(&self) -> (r: bool)
        requires
            self.wf(),
        ensures
            r == self.is_full(),
    {
        proof {
            self.lemma_wf_facts();
            lemma_step_mod(self.head + 1, self.nodes@.len() as int);
        }
        (self.head + 1) % self.nodes.len() == self.tail
    }

    /// Returns `true` if the buffer holds no element.
    pub fn empty(&self) -> (r: bool)
        requires
            self.wf(),
        ensures
            r == self.is_empty(),
    {
        proof {
            self.lemma_wf_facts();
        }
        self.head == self.tail
    }

    /// Returns the number of elements that can be pushed before the buffer becomes full.
    pub fn free_count(&self) -> (r: usize)
        requires
            self.wf(),
        ensures
            r == self.free_slots(),
    {
        proof {
            self.lemma_wf_facts();
        }
        (if self.head >= self.tail {
            self.nodes.len() - (self.head - self.tail)
        } else {
            self.tail - self.head
        } - 1)
    }

    /// Pushes a value at the head of the buffer.
    ///
    /// Fails with [`Error::ENOSPC`], and leaves the buffer unchanged, when the buffer is full;
    /// otherwise the value joins the contents as the newest one (see [`push_outcome`]).
    pub fn push_head(&mut self, value: T) -> (r: Result<(), Error>)
        requires
            old(self).wf(),
        ensures
            push_outcome(*old(self), value, r, *final(self)),
    {
        proof {
            self.lemma_wf_facts();
        }
        if self.full() {
            return Err(Error::ENOSPC);
        }
        let ghost old_self = *self;
        let head = self.head;
        self.nodes.set(head, Some(value));
        self.head = (head + 1) % self.nodes.len();
        proof {
            lemma_step_mod(head + 1, self.nodes@.len() as int);
            assert(self.count() == old_self.count() + 1);
            assert forall|i: int| 0 <= i < self.count() implies (#[trigger] self.nodes@[self.slot_of(i)]) is Some by {
                if i < old_self.count() {
                    assert(self.slot_of(i) == old_self.slot_of(i));
                    assert(old_self.nodes@[old_self.slot_of(i)] is Some);
                }
            }
            assert(self@ =~= old_self@.push(value));
        }
        Ok(())
    }

    /// Pops the value at the tail of the buffer, the oldest one.
    ///
    /// Returns `None`, and leaves the buffer unchanged, when the buffer is empty; otherwise
    /// returns the oldest value and drops it from the contents (see [`pop_outcome`]).
    pub fn pop_tail(&mut self) -> (r: Option<T>)
        requires
            old(self).wf(),
        ensures
            pop_outcome(*old(self), r, *final(self)),
    {
        proof {
            self.lemma_wf_facts();
        }
        if self.empty() {
            return None;
        }
        let ghost old_self = *self;
        let tail = self.tail;
        let value = self.nodes[tail].take();
        self.tail = (tail + 1) % self.nodes.len();
        proof {
            lemma_step_mod(tail + 1, self.nodes@.len() as int);
            assert(self.count() + 1 == old_self.count());
            assert forall|i: int| 0 <= i < self.count() implies (#[trigger] self.nodes@[self.slot_of(i)]) is Some by {
                assert(self.slot_of(i) == old_self.slot_of(i + 1));
                assert(old_self.nodes@[old_self.slot_of(i + 1)] is Some);
            }
            assert forall|i: int| 0 <= i < self.count() implies self@[i] == old_self@.drop_first()[i] by {
                assert(self.slot_of(i) == old_self.slot_of(i + 1));
            }
            assert(self@ =~= old_self@.drop_first());
            assert(old_self.slot_of(0) == tail);
        }
        value
    }
}

impl<T> RingBuffer<T> {
    /// How full and free relate: the elements held and the slots left add up to the
    /// capacity, the buffer is full exactly when no slot is left and empty exactly when all
    /// of them are, and the storage keeps one slot more than the capacity.
    pub proof fn lemma_free_count_law(&self)
        requires
            self.wf(),
        ensures
            self@.len() + self.free_slots() == self.capacity(),
            self@.len() <= self.capacity(),
            self.is_full() <==> self.free_slots() == 0,
            self.is_empty() <==> self.free_slots() == self.capacity(),
            self.slots() == self.capacity() + 1,
    {
        self.lemma_wf_facts();
    }
}

/// The contents after pushing each element of `xs` in turn, all of them fitting.
pub open spec fn after_pushes<T>(q: Seq<T>, xs: Seq<T>) -> Seq<T>
    decreases xs.len(),
{
    if xs.len() == 0 {
        q
    } else {
        after_pushes(q.push(xs[0]), xs.drop_first())
    }
}

/// The contents after `k` pops of a buffer that holds at least `k` elements.
pub open spec fn after_pops<T>(q: Seq<T>, k: nat) -> Seq<T>
    decreases k,
{
    if k == 0 {
        q
    } else {
        after_pops(q.drop_first(), (k - 1) as nat)
    }
}

proof fn lemma_after_pushes_concat<T>(q: Seq<T>, xs: Seq<T>)
    ensures
        after_pushes(q, xs) == q + xs,
    decreases xs.len(),
{
    if xs.len() > 0 {
        lemma_after_pushes_concat(q.push(xs[0]), xs.drop_first());
        assert(q.push(xs[0]) + xs.drop_first() =~= q + xs);
    } else {
        assert(q + xs =~= q);
    }
}

proof fn lemma_after_pops_skip<T>(q: Seq<T>, k: nat)
    requires
        k <= q.len(),
    ensures
        after_pops(q, k) == q.skip(k as int),
    decreases k,
{
    if k > 0 {
        lemma_after_pops_skip(q.drop_first(), (k - 1) as nat);
        assert(q.drop_first().skip(k - 1) =~= q.skip(k as int));
    } else {
        assert(q.skip(0) =~= q);
    }
}

/// First in, first out: after the values `xs` are pushed behind the contents `q`, the pops
/// that follow the ones that empty `q` hand the values of `xs` back in the order in which they
/// were pushed, and popping all of them leaves the buffer empty.
pub proof fn lemma_fifo_order<T>(q: Seq<T>, xs: Seq<T>)
    ensures
        forall|i: int|
            0 <= i < xs.len() ==> (#[trigger] after_pops(after_pushes(q, xs), (q.len() + i) as nat))[0]
                == xs[i],
        after_pops(after_pushes(q, xs), q.len() + xs.len()) == Seq::<T>::empty(),
{
    lemma_after_pushes_concat(q, xs);
    assert forall|i: int| 0 <= i < xs.len() implies (#[trigger] after_pops(
        after_pushes(q, xs),
        (q.len() + i) as nat,
    ))[0] == xs[i] by {
        lemma_after_pops_skip(q + xs, (q.len() + i) as nat);
    }
    lemma_after_pops_skip(q + xs, q.len() + xs.len());
    assert((q + xs).skip((q.len() + xs.len()) as int) =~= Seq::<T>::empty());
}

/// `r` and `after` are what a call `push_head(value)` on the buffer `before` returns and
/// leaves, as its contract states.
pub open spec fn push_outcome<T>(before: RingBuffer<T>, value: T, r: Result<(), Error>, after: RingBuffer<T>) -> bool {
    &&& after.wf()
    &&& after.capacity() == before.capacity()
    &&& before.is_full() ==> r == Err::<(), Error>(Error::ENOSPC) && after@ == before@
    &&& !before.is_full() ==> r == Ok::<(), Error>(()) && after@ == before@.push(value)
}

/// `r` and `after` are what a call `pop_tail()` on the buffer `before` returns and leaves, as
/// its contract states.
pub open spec fn pop_outcome<T>(before: RingBuffer<T>, r: Option<T>, after: RingBuffer<T>) -> bool {
    &&& after.wf()
    &&& after.capacity() == before.capacity()
    &&& before.is_empty() ==> r is None && after@ == before@
    &&& !before.is_empty() ==> r == Some(before@[0]) && after@ == before@.drop_first()
}

/// First in, first out, over a run of calls: take an empty buffer `states[0]` with room for
/// the values `s`; push them one after another (call `i` turns `states[i]` into
/// `states[i + 1]` and returns `pushed[i]`), then pop once more than there are values (pop `j`
/// turns `states[n + j]` into `states[n + j + 1]` and returns `popped[j]`). Then every push
/// succeeds, the pops hand back the values of `s` in the order they were pushed, the buffer
/// is then empty with all of its capacity free, and the last pop finds nothing.
pub proof fn lemma_fifo_over_calls<T>(
    s: Seq<T>,
    states: Seq<RingBuffer<T>>,
    pushed: Seq<Result<(), Error>>,
    popped: Seq<Option<T>>,
)
    requires
        states.len() == 2 * s.len() + 2,
        pushed.len() == s.len(),
        popped.len() == s.len() + 1,
        states[0].wf(),
        states[0].is_empty(),
        s.len() <= states[0].capacity(),
        forall|i: int| 0 <= i < s.len() ==> push_outcome(#[trigger] states[i], s[i], pushed[i], states[i + 1]),
        forall|j: int|
            0 <= j <= s.len() ==> pop_outcome(#[trigger] states[s.len() + j], popped[j], states[s.len() + j + 1]),
    ensures
        forall|i: int| 0 <= i < s.len() ==> #[trigger] pushed[i] == Ok::<(), Error>(()),
        forall|j: int| 0 <= j < s.len() ==> #[trigger] popped[j] == Some(s[j]),
        popped[s.len() as int] is None,
        states[2 * s.len() as int].is_empty(),
        states[2 * s.len() as int].free_slots() == states[0].capacity(),
{
    let n = s.len() as int;
    assert forall|i: int| 0 <= i < n implies #[trigger] pushed[i] == Ok::<(), Error>(()) by {
        lemma_pushed_prefix(s, states, pushed, popped, i);
    }
    assert forall|j: int| 0 <= j < n implies #[trigger] popped[j] == Some(s[j]) by {
        lemma_popped_suffix(s, states, pushed, popped, j);
    }
    lemma_popped_suffix(s, states, pushed, popped, n);
    assert(s.skip(n) =~= Seq::<T>::empty());
    states[2 * n].lemma_free_count_law();
}

proof fn lemma_pushed_prefix<T>(
    s: Seq<T>,
    states: Seq<RingBuffer<T>>,
    pushed: Seq<Result<(), Error>>,
    popped: Seq<Option<T>>,
    i: int,
)
    requires
        states.len() == 2 * s.len() + 2,
        pushed.len() == s.len(),
        states[0].wf(),
        states[0].is_empty(),
        s.len() <= states[0].capacity(),
        forall|k: int| 0 <= k < s.len() ==> push_outcome(#[trigger] states[k], s[k], pushed[k], states[k + 1]),
        0 <= i <= s.len(),
    ensures
        states[i].wf(),
        states[i]@ == s.take(i),
        states[i].capacity() == states[0].capacity(),
        i < s.len() ==> pushed[i] == Ok::<(), Error>(()),
    decreases i,
{
    if i > 0 {
        lemma_pushed_prefix(s, states, pushed, popped, i - 1);
        assert(push_outcome(states[i - 1], s[i - 1], pushed[i - 1], states[(i - 1) + 1]));
        assert(s.take(i - 1).push(s[i - 1]) =~= s.take(i));
    } else {
        assert(s.take(0) =~= Seq::<T>::empty());
    }
    if i < s.len() {
        assert(push_outcome(states[i], s[i], pushed[i], states[i + 1]));
    }
}

proof fn lemma_popped_suffix<T>(
    s: Seq<T>,
    states: Seq<RingBuffer<T>>,
    pushed: Seq<Result<(), Error>>,
    popped: Seq<Option<T>>,
    j: int,
)
    requires
        states.len() == 2 * s.len() + 2,
        pushed.len() == s.len(),
        popped.len() == s.len() + 1,
        states[0].wf(),
        states[0].is_empty(),
        s.len() <= states[0].capacity(),
        forall|k: int| 0 <= k < s.len() ==> push_outcome(#[trigger] states[k], s[k], pushed[k], states[k + 1]),
        forall|k: int|
            0 <= k <= s.len() ==> pop_outcome(#[trigger] states[s.len() + k], popped[k], states[s.len() + k + 1]),
        0 <= j <= s.len(),
    ensures
        states[s.len() + j].wf(),
        states[s.len() + j]@ == s.skip(j),
        states[s.len() + j].capacity() == states[0].capacity(),
        j < s.len() ==> popped[j] == Some(s[j]),
        j == s.len() ==> popped[j] is None,
    decreases j,
{
    let n = s.len() as int;
    if j > 0 {
        lemma_popped_suffix(s, states, pushed, popped, j - 1);
        assert(pop_outcome(states[n + (j - 1)], popped[j - 1], states[n + (j - 1) + 1]));
        assert(s.skip(j - 1).drop_first() =~= s.skip(j));
    } else {
        lemma_pushed_prefix(s, states, pushed, popped, n);
        assert(s.take(n) =~= s.skip(0));
    }
    assert(pop_outcome(states[n + j], popped[j], states[n + j + 1]));
}

impl<T> View for RingBuffer<T> {
    type V = Seq<T>;

    open spec fn view(&self) -> Seq<T> {
        self.contents()
    }
}

} // verus!
