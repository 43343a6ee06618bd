use std::collections::VecDeque;
use std::collections::vec_deque::Iter;
use vstd::prelude::*;

verus! {

/// How many samples a buffer made with `capacity` keeps at most: a buffer
/// made with capacity zero still keeps the latest sample.
pub open spec fn retained(capacity: nat) -> nat {
    if capacity == 0 { 1 } else { capacity }
}

/// The contents after one push: once the buffer holds `capacity` samples (or
/// more), the oldest is dropped before the new one is appended.
pub open spec fn pushed<T>(s: Seq<T>, capacity: nat, v: T) -> Seq<T> {
    if s.len() >= capacity && s.len() > 0 {
        s.drop_first().push(v)
    } else {
        s.push(v)
    }
}

/// The most recent samples of `all` that a buffer of `capacity` retains,
/// oldest first.
pub open spec fn latest<T>(all: Seq<T>, capacity: nat) -> Seq<T> {
    if all.len() <= retained(capacity) {
        all
    } else {
        all.subrange(all.len() - retained(capacity), all.len() as int)
    }
}

/// The contents after pushing every sample of `vals` in order.
pub open spec fn pushed_all<T>(s: Seq<T>, capacity: nat, vals: Seq<T>) -> Seq<T>
    decreases vals.len(),
{
    if vals.len() == 0 {
        s
    } else {
        pushed_all(pushed(s, capacity, vals[0]), capacity, vals.drop_first())
    }
}

/// Fixed-size history of samples, oldest first, for the live plots.
#[derive(Debug)]
pub struct RingBuffer<T> {
    capacity: usize,
    buffer: VecDeque<T>,
}

impl<T> View for RingBuffer<T> {
    type V = Seq<T>;

    closed spec fn view(&self) -> Seq<T> {
        self.buffer@
    }
}

impl<T> RingBuffer<T> {
    /// The capacity the buffer was made with.
    pub closed spec fn spec_capacity(&self) -> nat {
        self.capacity as nat
    }

    #[verifier::type_invariant]
    closed spec fn inv(&self) -> bool {
        self.buffer@.len() <= retained(self.capacity as nat)
    }

    /// An empty buffer that will keep the latest `capacity` samples.
    pub fn new(capacity: usize) -> (r: Self)
        ensures
            r@ == Seq::<T>::empty(),
            r.spec_capacity() == capacity,
    {
        RingBuffer { capacity, buffer: VecDeque::with_capacity(capacity) }
    }

    /// The capacity the buffer was made with.
    pub fn capacity(&self) -> (c: usize)
        ensures
            c == self.spec_capacity(),
    {
        self.capacity
    }

    /// Number of samples held.
    pub fn len(&self) -> (n: usize)
        ensures
            n == self@.len(),
            n <= retained(self.spec_capacity()),
    {
        proof {
            use_type_invariant(self);
        }
        self.buffer.len()
    }

    /// Appends a sample, dropping the oldest one when the buffer is full.
    pub fn push(&mut self, val: T)
        ensures
            final(self)@ == pushed(old(self)@, old(self).spec_capacity(), val),
            final(self).spec_capacity() == old(self).spec_capacity(),
            final(self)@.len() <= retained(final(self).spec_capacity()),
            final(self)@.last() == val,
    {
        proof {
            use_type_invariant(&*self);
        }
        let mut buf: VecDeque<T> = VecDeque::new();
        std::mem::swap(&mut buf, &mut self.buffer);
        if buf.len() >= self.capacity {
            buf.pop_front();
        }
        buf.push_back(val);
        self.buffer = buf;
    }

    /// The samples, oldest first.
    pub fn values(&self) -> (it: Iter<'_, T>)
        ensures
            vstd::std_specs::iter::IteratorSpec::remaining(&it) == self@.as_ref(),
    {
        broadcast use vstd::std_specs::vecdeque::group_vec_dequeue_axioms;
        self.buffer.iter()
    }
}

impl<T: Copy> RingBuffer<T> {
    /// The samples, oldest first, copied into a vector.
    pub fn as_slice(&self) -> (v: Vec<T>)
        ensures
            v@ == self@,
    {
        let mut v: Vec<T> = Vec::new();
        let n = self.buffer.len();
        for i in 0..n
            invariant
                n == self.buffer@.len(),
                v@ == self.buffer@.subrange(0, i as int),
        {
            v.push(self.buffer[i]);
            assert(self.buffer@.subrange(0, i + 1) == self.buffer@.subrange(0, i as int).push(
                self.buffer@[i as int],
            ));
        }
        assert(self.buffer@.subrange(0, n as int) == self.buffer@);
        v
    }

    /// A second buffer with the same capacity and the same samples.
    pub fn duplicate(&self) -> (r: Self)
        ensures
            r@ == self@,
            r.spec_capacity() == self.spec_capacity(),
    {
        proof {
            use_type_invariant(self);
        }
        let mut copy: VecDeque<T> = VecDeque::new();
        let n = self.buffer.len();
        for i in 0..n
            invariant
                n == self.buffer@.len(),
                copy@ == self.buffer@.subrange(0, i as int),
        {
            copy.push_back(self.buffer[i]);
            assert(self.buffer@.subrange(0, i + 1) == self.buffer@.subrange(0, i as int).push(
                self.buffer@[i as int],
            ));
        }
        assert(self.buffer@.subrange(0, n as int) == self.buffer@);
        RingBuffer { capacity: self.capacity, buffer: copy }
    }
}

impl<T: Copy> RingBuffer<T> {
    /// The history a refreshed item starts from: a copy of the history kept
    /// for it at the previous refresh, or an empty one of `capacity` when the
    /// item is new.
    pub fn continue_from(previous: Option<&RingBuffer<T>>, capacity: usize) -> (r: Self)
        ensures
            match previous {
                Some(p) => r@ == p@ && r.spec_capacity() == p.spec_capacity(),
                None => r@ == Seq::<T>::empty() && r.spec_capacity() == capacity,
            },
    {
        match previous {
            Some(p) => p.duplicate(),
            None => RingBuffer::new(capacity),
        }
    }
}

impl<T: Copy + Default> RingBuffer<T> {
    /// The newest sample, or the type's default value when the buffer is empty.
    pub fn last(&self) -> (x: T)
        ensures
            self@.len() > 0 ==> x == self@.last(),
            self@.len() == 0 ==> call_ensures(T::default, (), x),
    {
        let n = self.buffer.len();
        if n > 0 {
            self.buffer[n - 1]
        } else {
            T::default()
        }
    }
}

impl<T: Copy> Clone for RingBuffer<T> {
    fn clone(&self) -> (r: Self)
        ensures
            r@ == self@,
            r.spec_capacity() == self.spec_capacity(),
    {
        self.duplicate()
    }
}

/// One push onto a buffer that holds at most what it retains appends the
/// new sample and keeps the newest samples: the result is the last
/// `min(len + 1, capacity)` samples of the old contents followed by `v`
/// (a buffer made with capacity zero keeps one).
pub proof fn lemma_push_keeps_newest<T>(s: Seq<T>, capacity: nat, v: T)
    requires
        s.len() <= (if capacity == 0 { 1 } else { capacity }),
    ensures
        ({
            let r = pushed(s, capacity, v);
            let full = s.push(v);
            let keep: int = if capacity == 0 { 1 } else { capacity as int };
            &&& r.len() == (if full.len() > keep { keep } else { full.len() as int })
            &&& r.last() == v
            &&& forall|k: int| 0 <= k < r.len() ==> #[trigger] r[k] == full[full.len() - r.len() + k]
        }),
{
}

/// A buffer never holds more than it retains, whatever was pushed.
pub proof fn lemma_push_bounded<T>(s: Seq<T>, capacity: nat, v: T)
    requires
        s.len() <= retained(capacity),
    ensures
        pushed(s, capacity, v).len() <= retained(capacity),
        pushed(s, capacity, v).len() == if s.len() < retained(capacity) {
            s.len() + 1
        } else {
            s.len()
        },
{
}

/// Pushing onto the retained window of a history gives the retained window of
/// the history extended by the new sample.
pub proof fn lemma_push_slides_window<T>(all: Seq<T>, capacity: nat, v: T)
    ensures
        pushed(latest(all, capacity), capacity, v) == latest(all.push(v), capacity),
{
    let w = latest(all, capacity);
    let r = retained(capacity);
    if all.len() < r {
        assert(latest(all.push(v), capacity) == all.push(v));
    } else {
        assert(w.len() == r);
        assert(pushed(w, capacity, v) == w.drop_first().push(v));
        assert(w.drop_first().push(v) =~= all.push(v).subrange(all.push(v).len() - r, all.push(v).len() as int));
    }
}

/// The central promise of the history buffer: starting empty, after any
/// sequence of pushes it holds exactly the latest samples it can retain,
/// oldest first.
pub proof fn lemma_holds_latest_samples<T>(capacity: nat, vals: Seq<T>)
    ensures
        pushed_all(Seq::<T>::empty(), capacity, vals) == latest(vals, capacity),
{
    lemma_pushed_all_window(Seq::<T>::empty(), capacity, vals);
    assert(Seq::<T>::empty() + vals =~= vals);
    assert(latest(Seq::<T>::empty(), capacity) =~= Seq::<T>::empty());
}

proof fn lemma_pushed_all_window<T>(prefix: Seq<T>, capacity: nat, vals: Seq<T>)
    ensures
        pushed_all(latest(prefix, capacity), capacity, vals) == latest(prefix + vals, capacity),
    decreases vals.len(),
{
    if vals.len() == 0 {
        assert(prefix + vals =~= prefix);
    } else {
        lemma_push_slides_window(prefix, capacity, vals[0]);
        lemma_pushed_all_window(prefix.push(vals[0]), capacity, vals.drop_first());
        assert(prefix.push(vals[0]) + vals.drop_first() =~= prefix + vals);
    }
}

} // verus!
