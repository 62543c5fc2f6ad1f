use vstd::prelude::*;

verus! {

/// Reads a shared value; the value read is the one stored.
pub fn load_shared<T: Copy>(p: &T) -> (v: T)
    ensures
        v == *p,
{
    *p
}

/// Stores `v` into a shared location.
pub fn store_shared<T>(x: &mut T, v: T)
    ensures
        *final(x) == v,
{
    *x = v;
}

/// Full memory barrier: `std::sync::atomic::fence` with sequential consistency.
/// Nothing is stated of it: it orders memory accesses and computes nothing.
#[verifier::external_body]
pub fn barrier() {
    std::sync::atomic::fence(std::sync::atomic::Ordering::SeqCst);
}

} // verus!
