//! Core of a host-metrics sampling service: snapshot construction with
//! derived throughput, a bounded history store, a publish/subscribe
//! fan-out, and the supervisor state that ties one sampling tick together.
pub mod alerts;
pub mod anomaly;
pub mod cfg;
pub mod collectors;
pub mod export;
pub mod fanout;
pub mod history;
pub mod ringbuf;
pub mod supervisor;
pub mod tui_state;
pub mod utils;

use vstd::prelude::*;
use vstd::pervasive::cloned;

verus! {

/// The element-wise mathematical model of a sequence of values.
pub open spec fn seq_view<T: View>(s: Seq<T>) -> Seq<T::V> {
    s.map_values(|x: T| x@)
}

/// Copies a vector whose element type's `clone` is known to preserve
/// the element's model, preserving the vector's model.
pub fn clone_vec_view<T: View + Clone>(v: &Vec<T>) -> (r: Vec<T>)
    requires
        forall|x: T, y: T| call_ensures(T::clone, (&x,), y) ==> y@ == x@,
    ensures
        r@.len() == v@.len(),
        seq_view(r@) == seq_view(v@),
{
    let r = v.clone();
    proof {
        assert forall|k: int| 0 <= k < v@.len() implies r@[k]@ == v@[k]@ by {
            assert(cloned::<T>(v@[k], r@[k]));
        }
        assert(seq_view(r@) =~= seq_view(v@));
    }
    r
}

/// A mutable borrow of one element of a vector, with the final vector
/// pinned to the final element.
pub(crate) fn element_at_mut<T>(v: &mut Vec<T>, i: usize) -> (e: &mut T)
    requires
        i < old(v).len(),
    ensures
        *e == old(v)@[i as int],
        final(v)@ == old(v)@.update(i as int, *final(e)),
{
    &mut v[i]
}

/// Copies a vector of plain 32-bit values element by element.
pub fn copy_u32s(v: &Vec<u32>) -> (r: Vec<u32>)
    ensures
        r@ == v@,
{
    let mut r: Vec<u32> = Vec::new();
    let mut i: usize = 0;
    while i < v.len()
        invariant
            i <= v.len(),
            r@ == v@.take(i as int),
        decreases v.len() - i,
    {
        r.push(v[i]);
        proof {
            assert(v@.take(i + 1 as int) =~= v@.take(i as int).push(v@[i as int]));
        }
        i = i + 1;
    }
    proof {
        assert(v@.take(v@.len() as int) =~= v@);
    }
    r
}

} // verus!
