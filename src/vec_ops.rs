//! Operations of std's `Vec` that the library calls and that vstd gives no
//! specification, each with what std's documentation promises of it.
use vstd::prelude::*;

verus! {

/// Relies on `Vec::capacity`: never below the length.
#[verifier::external_body]
pub(crate) fn vec_capacity<T>(v: &Vec<T>) -> (r: usize)
    ensures
        r >= v@.len(),
{
    v.capacity()
}

/// Relies on `Vec::reserve_exact`: only the allocation changes.
#[verifier::external_body]
pub(crate) fn vec_reserve_exact<T>(v: &mut Vec<T>, additional: usize)
    ensures
        final(v)@ == old(v)@,
{
    v.reserve_exact(additional)
}

/// Relies on `Vec::try_reserve_exact`: only the allocation changes, whether it
/// succeeds or not.
#[verifier::external_body]
pub(crate) fn vec_try_reserve_exact<T>(v: &mut Vec<T>, additional: usize) -> (r: Result<(), std::collections::TryReserveError>)
    ensures
        final(v)@ == old(v)@,
{
    v.try_reserve_exact(additional)
}

/// Relies on `Vec::shrink_to`: only the allocation changes.
#[verifier::external_body]
pub(crate) fn vec_shrink_to<T>(v: &mut Vec<T>, min_capacity: usize)
    ensures
        final(v)@ == old(v)@,
{
    v.shrink_to(min_capacity)
}

/// Relies on `Vec::shrink_to_fit`: only the allocation changes.
#[verifier::external_body]
pub(crate) fn vec_shrink_to_fit<T>(v: &mut Vec<T>)
    ensures
        final(v)@ == old(v)@,
{
    v.shrink_to_fit()
}

/// Relies on `Vec::into_boxed_slice`: the same elements.
#[verifier::external_body]
pub(crate) fn vec_into_boxed_slice<T>(v: Vec<T>) -> (r: Box<[T]>)
    ensures
        r@ == v@,
{
    v.into_boxed_slice()
}

/// Relies on `Vec::leak`: the same elements, never freed.
#[verifier::external_body]
pub(crate) fn vec_leak<'a, T>(v: Vec<T>) -> (r: &'a mut [T])
    ensures
        r@ == v@,
{
    v.leak()
}

/// Relies on `Vec`'s `Hash`: it feeds the length, then the elements, to `state`.
#[verifier::external_body]
pub(crate) fn vec_hash<T: core::hash::Hash, H: core::hash::Hasher>(v: &Vec<T>, state: &mut H) {
    core::hash::Hash::hash(v, state)
}

} // verus!
