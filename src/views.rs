//! Views that borrow a vector: one that drains a range of it, one that hands out
//! the elements of one class.
use vstd::prelude::*;
use crate::{Sign, Signable};
use crate::index_set::set_elements;
use crate::model::positions;
use crate::signvec::SignVec;

verus! {

/// A view that removes the elements of a range from its vector one at a time. Its
/// fields are public so that contracts can speak of the vector it leaves behind;
/// changing them by hand voids those contracts.
pub struct SignVecDrain<'a, T: 'a + Signable + Clone> {
    pub sign_vec: &'a mut SignVec<T>,
    pub current_index: usize,
    pub drain_end: usize,
}

impl<'a, T: Signable + Clone> SignVecDrain<'a, T> {
    /// The vector being drained, as it stands.
    pub open spec fn host(&self) -> SignVec<T> {
        *self.sign_vec
    }

    /// The position of the next element to hand out.
    pub open spec fn cursor(&self) -> usize {
        self.current_index
    }

    /// The position just after the last element to hand out, as it stands.
    pub open spec fn end(&self) -> usize {
        self.drain_end
    }

    /// The vector is well formed and the range lies within it.
    pub open spec fn wf(&self) -> bool {
        &&& self.host().wf()
        &&& self.cursor() <= self.end() <= self.host()@.len()
    }

    /// The view over positions `start` up to `end` of `sign_vec`.
    pub(crate) fn over(sign_vec: &'a mut SignVec<T>, start: usize, end: usize) -> (r: Self)
        requires
            old(sign_vec).wf(),
            start <= end <= old(sign_vec)@.len(),
        ensures
            r.wf(),
            r.host() == *old(sign_vec),
            r.cursor() == start,
            r.end() == end,
            *final(sign_vec) == *final(r.sign_vec),
    {
        SignVecDrain { sign_vec, current_index: start, drain_end: end }
    }

    /// Removes and returns the next element of the range, or `None` once the
    /// range is used up.
    pub fn next(&mut self) -> (r: Option<T>)
        requires
            old(self).wf(),
        ensures
            final(self).wf(),
            final(self).cursor() == old(self).cursor(),
            *final(final(self).sign_vec) == *final(old(self).sign_vec),
            old(self).cursor() < old(self).end() ==> {
                &&& r == Some(old(self).host()@[old(self).cursor() as int])
                &&& final(self).host()@ == old(self).host()@.remove(old(self).cursor() as int)
                &&& final(self).end() == old(self).end() - 1
            },
            old(self).cursor() >= old(self).end() ==> {
                &&& r is None
                &&& final(self).host() == old(self).host()
                &&& final(self).end() == old(self).end()
            },
    {
        if self.current_index >= self.drain_end {
            return None;
        }
        let result = self.sign_vec.remove(self.current_index);
        self.drain_end = self.drain_end - 1;
        Some(result)
    }
}

/// A view that hands out the elements of one class of a vector, in the order in
/// which that class's index lists them.
pub struct SignVecValues<'a, T: 'a + Signable + Clone> {
    sign_vec: &'a SignVec<T>,
    indices: Vec<usize>,
    next_index: usize,
}

impl<'a, T: Signable + Clone> SignVecValues<'a, T> {
    /// The vector whose elements are handed out.
    pub closed spec fn host(&self) -> SignVec<T> {
        *self.sign_vec
    }

    /// The positions to hand out, in order.
    pub closed spec fn order(&self) -> Vec<usize> {
        self.indices
    }

    /// How many elements were handed out already.
    pub closed spec fn taken(&self) -> int {
        self.next_index as int
    }

    /// The positions are distinct and all lie within the vector.
    pub open spec fn wf(&self) -> bool {
        &&& self.order()@.no_duplicates()
        &&& forall|k: int| 0 <= k < self.order()@.len() ==> (#[trigger] self.order()@[k] as int) < self.host()@.len()
        &&& 0 <= self.taken() <= self.order()@.len()
    }

    /// The view over the elements of class `sign` of `sign_vec`.
    pub fn new(sign_vec: &'a SignVec<T>, sign: Sign) -> (r: Self)
        requires
            sign_vec.wf(),
        ensures
            r.wf(),
            r.host() == *sign_vec,
            r.order()@ == sign_vec.order_of(sign),
            r.order()@.to_set() == positions(sign_vec@, sign),
            r.taken() == 0,
    {
        let indices = match sign {
            Sign::Plus => set_elements(&sign_vec.pos),
            Sign::Minus => set_elements(&sign_vec.neg),
        };
        proof {
            assert forall|k: int| 0 <= k < indices@.len() implies (#[trigger] indices@[k] as int) < sign_vec@.len() by {
                assert(indices@.to_set().contains(indices@[k]));
            }
        }
        SignVecValues { sign_vec, indices, next_index: 0 }
    }

    /// The next element, or `None` once all were handed out.
    pub fn next(&mut self) -> (r: Option<&'a T>)
        requires
            old(self).wf(),
        ensures
            final(self).wf(),
            final(self).host() == old(self).host(),
            final(self).order() == old(self).order(),
            old(self).taken() < old(self).order()@.len() ==> {
                &&& r == Some(&old(self).host()@[old(self).order()@[old(self).taken()] as int])
                &&& final(self).taken() == old(self).taken() + 1
            },
            old(self).taken() >= old(self).order()@.len() ==> r is None && final(self).taken() == old(self).taken(),
    {
        if self.next_index >= self.indices.len() {
            return None;
        }
        let idx = self.indices[self.next_index];
        self.next_index = self.next_index + 1;
        Some(&self.sign_vec.vals[idx])
    }
}

} // verus!
