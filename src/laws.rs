//! Properties that hold of every well-formed vector, stated over the same spec
//! functions that the operations' contracts use.
use vstd::prelude::*;
use crate::{Sign, Signable};
use crate::model::{positions, synced, lemma_positions_count, SignVecModel};
use crate::signvec::SignVec;

verus! {

/// In a well-formed vector the two indices partition the positions: every position
/// below the length is in exactly one of them, none at or above it is in either, a
/// position is in the index of the class of its element, and the indices are
/// exactly what a full resynchronisation would compute from the elements.
pub proof fn lemma_indices_partition<T: Signable + Clone>(v: SignVec<T>)
    requires
        v.wf(),
    ensures
        v.model() == synced(v.model()),
        forall|i: usize| (i as int) < v@.len() <==> (#[trigger] v.members(Sign::Plus).contains(i) || v.members(Sign::Minus).contains(i)),
        forall|i: usize| !(#[trigger] v.members(Sign::Plus).contains(i) && v.members(Sign::Minus).contains(i)),
        forall|i: usize, sign: Sign| #[trigger] v.members(sign).contains(i) <==> (i as int) < v@.len() && v@[i as int].sign_spec() == sign,
{
    assert forall|i: usize, sign: Sign| #[trigger] v.members(sign).contains(i) <==> (i as int) < v@.len() && v@[i as int].sign_spec() == sign by {
        match sign {
            Sign::Plus => assert(v.members(sign) == positions(v@, Sign::Plus)),
            Sign::Minus => assert(v.members(sign) == positions(v@, Sign::Minus)),
        }
    }
}

/// Resynchronising twice gives the same state as resynchronising once.
pub proof fn lemma_sync_idempotent<T: Signable>(m: SignVecModel<T>)
    ensures
        synced(synced(m)) == synced(m),
{
}

/// Two well-formed vectors with the same elements have the same indices: taking a
/// vector apart and rebuilding it from its elements gives back its elements and its
/// partition membership.
pub proof fn lemma_indices_determined_by_elements<T: Signable + Clone>(v: SignVec<T>, w: SignVec<T>)
    requires
        v.wf(),
        w.wf(),
        w@ == v@,
    ensures
        w.model() == v.model(),
        w.members(Sign::Plus) == v.members(Sign::Plus),
        w.members(Sign::Minus) == v.members(Sign::Minus),
{
}

/// In a well-formed vector the counts of the two classes add up to the length.
pub proof fn lemma_count_conservation<T: Signable + Clone>(v: SignVec<T>)
    requires
        v.wf(),
    ensures
        v.members(Sign::Plus).len() + v.members(Sign::Minus).len() == v@.len(),
        positions(v@, Sign::Plus).len() + positions(v@, Sign::Minus).len() == v@.len(),
{
    lemma_positions_count(v@);
}

} // verus!
