//! A bounded buffer that drops its oldest entry on overflow.
use vstd::prelude::*;
use vstd::pervasive::cloned;

verus! {

/// A first-in first-out buffer of fixed capacity: pushing onto a full
/// buffer evicts the single oldest entry.
pub struct RingBuf<T> {
    inner: Vec<T>,
    cap: usize,
}

impl<T> RingBuf<T> {
    /// The retained entries, oldest first.
    pub closed spec fn contents(&self) -> Seq<T> {
        self.inner@
    }

    /// The fixed capacity.
    pub closed spec fn capacity(&self) -> int {
        self.cap as int
    }

    /// The buffer never outgrows its capacity, which is at least one.
    pub open spec fn wf(&self) -> bool {
        self.contents().len() <= self.capacity() && self.capacity() >= 1
    }

    /// An empty buffer of the given fixed capacity.
    pub fn new(cap: usize) -> (r: RingBuf<T>)
        requires
            cap >= 1,
        ensures
            r.wf(),
            r.capacity() == cap,
            r.contents() == Seq::<T>::empty(),
    {
        RingBuf { inner: Vec::new(), cap }
    }

    /// Appends one entry, evicting the oldest when the buffer is full.
    pub fn push(&mut self, v: T)
        requires
            old(self).wf(),
        ensures
            final(self).wf(),
            final(self).capacity() == old(self).capacity(),
            final(self).contents() == if old(self).contents().len() >= old(self).capacity() {
                old(self).contents().drop_first().push(v)
            } else {
                old(self).contents().push(v)
            },
    {
        if self.inner.len() >= self.cap {
            self.inner.remove(0);
            proof {
                assert(self.inner@ =~= old(self).inner@.drop_first());
            }
        }
        self.inner.push(v);
    }
}

impl<T: Clone> RingBuf<T> {
    /// A copy of the retained entries, oldest first; each element is a
    /// clone of the stored one.
    pub fn snapshot(&self) -> (r: Vec<T>)
        ensures
            r@.len() == self.contents().len(),
            forall|i: int| 0 <= i < r@.len() ==> cloned::<T>(self.contents()[i], #[trigger] r@[i]),
    {
        self.inner.clone()
    }
}

} // verus!
