//! Fixed-capacity FIFO history buffers.
//!
//! A [`Queue`] keeps at most `capacity` items in insertion order; pushing
//! onto a full queue silently evicts the oldest item first.  The session
//! keeps two of them, one for executed command lines and one for reported
//! errors, and the render engine copies their contents into panels each
//! frame.

use vstd::prelude::*;

verus! {

/// What one push leaves in a buffer of capacity `cap` that held `s`:
/// the new item is appended, and the oldest item leaves first when the
/// buffer is already full.
pub open spec fn ring_push<T>(s: Seq<T>, cap: nat, e: T) -> Seq<T> {
    if s.len() < cap {
        s.push(e)
    } else {
        s.drop_first().push(e)
    }
}

/// The contents of a buffer of capacity `cap` after pushing every item of
/// `items`, in order, starting from empty.
pub open spec fn ring_of<T>(items: Seq<T>, cap: nat) -> Seq<T>
    decreases items.len(),
{
    if items.len() == 0 {
        Seq::empty()
    } else {
        ring_push(ring_of(items.drop_last(), cap), cap, items.last())
    }
}

/// A bounded FIFO buffer: its view is the sequence of items currently held,
/// oldest first, never longer than its capacity.
pub struct Queue<T> {
    elements: Vec<T>,
    capacity: usize,
}

impl<T> View for Queue<T> {
    type V = Seq<T>;

    closed spec fn view(&self) -> Seq<T> {
        self.elements@
    }
}

impl<T> Queue<T> {
    /// The fixed bound on how many items the buffer holds.
    pub closed spec fn cap(&self) -> nat {
        self.capacity as nat
    }

    /// The buffer invariant: a positive capacity that the length never
    /// exceeds.
    pub open spec fn wf(&self) -> bool {
        &&& self@.len() <= self.cap()
        &&& self.cap() >= 1
    }

    /// An empty buffer that will hold at most `capacity` items.
    pub fn new(capacity: usize) -> (q: Queue<T>)
        requires
            capacity >= 1,
        ensures
            q.wf(),
            q@ == Seq::<T>::empty(),
            q.cap() == capacity,
    {
        Queue { elements: Vec::new(), capacity }
    }

    /// Append `e`, evicting the oldest item first when the buffer is full.
    pub fn push(&mut self, e: T)
        requires
            old(self).wf(),
        ensures
            final(self).wf(),
            final(self).cap() == old(self).cap(),
            final(self)@ == ring_push(old(self)@, old(self).cap(), e),
    {
        if self.elements.len() >= self.capacity {
            self.elements.remove(0);
            assert(self.elements@ =~= old(self)@.drop_first());
        }
        self.elements.push(e);
    }
}

impl<T: Clone> Queue<T> {
    /// A read-only copy of the current contents, oldest first.
    pub fn clone_elements(&self) -> (r: Vec<T>)
        ensures
            r@.len() == self@.len(),
            forall|i: int| 0 <= i < r@.len() ==> cloned(self@[i], #[trigger] r@[i]),
    {
        let mut res = Vec::<T>::new();
        let mut i: usize = 0;
        while i < self.elements.len()
            invariant
                i <= self.elements.len(),
                self.elements@ == self@,
                res@.len() == i,
                forall|j: int| 0 <= j < i ==> cloned(self@[j], #[trigger] res@[j]),
            decreases self.elements.len() - i,
        {
            res.push(self.elements[i].clone());
            i += 1;
        }
        res
    }
}

/// After pushing a sequence of `items` into an initially empty buffer of
/// capacity `cap`, exactly the last `min(items.len(), cap)` items remain,
/// in order.
pub proof fn lemma_ring_of_keeps_newest<T>(items: Seq<T>, cap: nat)
    requires
        cap >= 1,
    ensures
        ring_of(items, cap).len() == if items.len() <= cap {
            items.len()
        } else {
            cap
        },
        ring_of(items, cap) == items.skip(if items.len() <= cap {
            0
        } else {
            items.len() - cap
        }),
    decreases items.len(),
{
    if items.len() == 0 {
        assert(ring_of(items, cap) =~= items.skip(0));
    } else {
        let prefix = items.drop_last();
        lemma_ring_of_keeps_newest(prefix, cap);
        let prev = ring_of(prefix, cap);
        if prev.len() < cap {
            assert(ring_of(items, cap) =~= items.skip(0));
        } else {
            assert(ring_of(items, cap) =~= items.skip(items.len() - cap));
        }
    }
}

} // verus!
