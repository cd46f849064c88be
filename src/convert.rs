//! std's conversion and comparison traits on `SignVec`. Equality looks at the
//! elements only: the indices are derived from them.
use vstd::prelude::*;
use crate::Signable;
use crate::signvec::SignVec;
use crate::vec_ops::vec_hash;
use vstd::std_specs::cmp::{PartialEqSpec, PartialOrdSpec};
use core::cmp::Ordering;

verus! {

impl<T: Signable + Clone> Default for SignVec<T> {
    fn default() -> (r: Self)
        ensures
            r.wf(),
            r@ == Seq::<T>::empty(),
    {
        SignVec::new()
    }
}

impl<T: Signable + Clone> AsRef<Vec<T>> for SignVec<T> {
    fn as_ref(&self) -> (r: &Vec<T>) {
        &self.vals
    }
}

impl<T: Signable + Clone> core::ops::Deref for SignVec<T> {
    type Target = [T];

    fn deref(&self) -> (r: &[T]) {
        self.vals.as_slice()
    }
}

impl<T: Signable + Clone> core::borrow::Borrow<[T]> for SignVec<T> {
    fn borrow(&self) -> (r: &[T]) {
        self.vals.as_slice()
    }
}

impl<T: Signable + Clone + PartialEq> PartialEq for SignVec<T> {
    fn eq(&self, other: &Self) -> (r: bool) {
        self.vals == other.vals
    }
}

impl<T: Signable + Clone + PartialEq> vstd::std_specs::cmp::PartialEqSpecImpl for SignVec<T> {
    open spec fn obeys_eq_spec() -> bool {
        <Vec<T> as vstd::std_specs::cmp::PartialEqSpec>::obeys_eq_spec()
    }

    open spec fn eq_spec(&self, other: &Self) -> bool {
        <Vec<T> as vstd::std_specs::cmp::PartialEqSpec>::eq_spec(&self.vals, &other.vals)
    }
}

impl<T: Signable + Clone + Eq> Eq for SignVec<T> {
}

impl<T: Signable + Clone + PartialEq<U>, U> PartialEq<Vec<U>> for SignVec<T> {
    fn eq(&self, other: &Vec<U>) -> (r: bool) {
        self.vals == *other
    }
}

impl<T: Signable + Clone + PartialEq<U>, U> vstd::std_specs::cmp::PartialEqSpecImpl<Vec<U>> for SignVec<T> {
    open spec fn obeys_eq_spec() -> bool {
        <Vec<T> as vstd::std_specs::cmp::PartialEqSpec<Vec<U>>>::obeys_eq_spec()
    }

    open spec fn eq_spec(&self, other: &Vec<U>) -> bool {
        <Vec<T> as vstd::std_specs::cmp::PartialEqSpec<Vec<U>>>::eq_spec(&self.vals, other)
    }
}


/// The elements of `a` and `b` compare equal pair by pair.
pub open spec fn seq_eq_spec<T: PartialEq<U>, U>(a: Seq<T>, b: Seq<U>) -> bool {
    &&& a.len() == b.len()
    &&& forall|i: int| #![auto] 0 <= i < a.len() ==> a[i].eq_spec(&b[i])
}

/// Whether the elements of `vals` and `other` compare equal pair by pair.
fn elements_eq<T: PartialEq<U>, U>(vals: &Vec<T>, other: &[U]) -> (r: bool)
    ensures
        T::obeys_eq_spec() ==> r == seq_eq_spec(vals@, other@),
{
    if vals.len() != other.len() {
        return false;
    }
    let n = vals.len();
    let mut i: usize = 0;
    while i < n
        invariant
            n == vals@.len(),
            n == other@.len(),
            i <= n,
            T::obeys_eq_spec() ==> forall|j: int| #![auto] 0 <= j < i ==> vals@[j].eq_spec(&other@[j]),
        decreases n - i,
    {
        if !(vals[i] == other[i]) {
            return false;
        }
        i = i + 1;
    }
    true
}

impl<T: Signable + Clone + PartialEq<U>, U> PartialEq<&[U]> for SignVec<T> {
    fn eq(&self, other: &&[U]) -> (r: bool) {
        elements_eq(&self.vals, *other)
    }
}

impl<T: Signable + Clone + PartialEq<U>, U> vstd::std_specs::cmp::PartialEqSpecImpl<&[U]> for SignVec<T> {
    open spec fn obeys_eq_spec() -> bool {
        T::obeys_eq_spec()
    }

    open spec fn eq_spec(&self, other: &&[U]) -> bool {
        seq_eq_spec(self@, other@)
    }
}

impl<T: Signable + Clone + PartialEq<U>, U> PartialEq<&mut [U]> for SignVec<T> {
    fn eq(&self, other: &&mut [U]) -> (r: bool) {
        elements_eq(&self.vals, &**other)
    }
}

impl<T: Signable + Clone + PartialEq<U>, U> vstd::std_specs::cmp::PartialEqSpecImpl<&mut [U]> for SignVec<T> {
    open spec fn obeys_eq_spec() -> bool {
        T::obeys_eq_spec()
    }

    open spec fn eq_spec(&self, other: &&mut [U]) -> bool {
        seq_eq_spec(self@, (**other)@)
    }
}

impl<T: Signable + Clone + PartialEq<U>, U, const N: usize> PartialEq<[U; N]> for SignVec<T> {
    fn eq(&self, other: &[U; N]) -> (r: bool) {
        elements_eq(&self.vals, other.as_slice())
    }
}

impl<T: Signable + Clone + PartialEq<U>, U, const N: usize> vstd::std_specs::cmp::PartialEqSpecImpl<[U; N]> for SignVec<T> {
    open spec fn obeys_eq_spec() -> bool {
        T::obeys_eq_spec()
    }

    open spec fn eq_spec(&self, other: &[U; N]) -> bool {
        seq_eq_spec(self@, other@)
    }
}

impl<T: Signable + Clone + core::hash::Hash> core::hash::Hash for SignVec<T> {
    fn hash<H: core::hash::Hasher>(&self, state: &mut H) {
        vec_hash(&self.vals, state)
    }
}

impl<T: Signable + Clone> IntoIterator for SignVec<T> {
    type Item = T;
    type IntoIter = std::vec::IntoIter<T>;

    fn into_iter(self) -> (r: std::vec::IntoIter<T>) {
        self.vals.into_iter()
    }
}

impl<'a, T: Signable + Clone> IntoIterator for &'a SignVec<T> {
    type Item = &'a T;
    type IntoIter = std::slice::Iter<'a, T>;

    fn into_iter(self) -> (r: std::slice::Iter<'a, T>) {
        self.vals.as_slice().iter()
    }
}

/// How two lengths compare.
pub open spec fn length_cmp(a: int, b: int) -> Option<Ordering> {
    if a < b {
        Some(Ordering::Less)
    } else if a == b {
        Some(Ordering::Equal)
    } else {
        Some(Ordering::Greater)
    }
}

/// The lexicographic comparison of `a` and `b` from position `i` on: the first
/// pair of elements that does not compare equal decides, and where one sequence
/// is a prefix of the other, the lengths decide.
pub open spec fn lex_partial_cmp<T: PartialOrd>(a: Seq<T>, b: Seq<T>, i: int) -> Option<Ordering>
    decreases a.len() - i,
{
    if 0 <= i && i < a.len() && i < b.len() {
        match a[i].partial_cmp_spec(&b[i]) {
            Some(Ordering::Equal) => lex_partial_cmp(a, b, i + 1),
            ordering => ordering,
        }
    } else {
        length_cmp(a.len() as int, b.len() as int)
    }
}

impl<T: Signable + Clone + PartialOrd> PartialOrd for SignVec<T> {
    fn partial_cmp(&self, other: &Self) -> (r: Option<Ordering>) {
        let n = if self.vals.len() < other.vals.len() { self.vals.len() } else { other.vals.len() };
        let mut i: usize = 0;
        while i < n
            invariant
                n <= self@.len(),
                n <= other@.len(),
                n == self@.len() || n == other@.len(),
                i <= n,
                T::obeys_partial_cmp_spec() ==> lex_partial_cmp(self@, other@, 0) == lex_partial_cmp(self@, other@, i as int),
            decreases n - i,
        {
            let c = self.vals[i].partial_cmp(&other.vals[i]);
            match c {
                Some(Ordering::Equal) => {},
                _ => {
                    return c;
                },
            }
            i = i + 1;
        }
        if self.vals.len() < other.vals.len() {
            Some(Ordering::Less)
        } else if self.vals.len() == other.vals.len() {
            Some(Ordering::Equal)
        } else {
            Some(Ordering::Greater)
        }
    }
}

impl<T: Signable + Clone + PartialOrd> vstd::std_specs::cmp::PartialOrdSpecImpl for SignVec<T> {
    open spec fn obeys_partial_cmp_spec() -> bool {
        T::obeys_partial_cmp_spec()
    }

    open spec fn partial_cmp_spec(&self, other: &Self) -> Option<Ordering> {
        lex_partial_cmp(self@, other@, 0)
    }
}

impl<T: Signable + Clone> From<Vec<T>> for SignVec<T> {
    fn from(vec: Vec<T>) -> (r: Self)
        ensures
            r@ == vec@,
    {
        SignVec::from_vec(vec)
    }
}

impl<T: Signable + Clone> vstd::std_specs::convert::FromSpecImpl<Vec<T>> for SignVec<T> {
    open spec fn obeys_from_spec() -> bool {
        false
    }

    open spec fn from_spec(v: Vec<T>) -> Self {
        arbitrary()
    }
}

impl<T: Signable + Clone> From<&[T]> for SignVec<T> {
    fn from(slice: &[T]) -> (r: Self)
        ensures
            r@.len() == slice@.len(),
            forall|i: int| 0 <= i < slice@.len() ==> cloned(slice@[i], #[trigger] r@[i]),
    {
        SignVec::from_slice(slice)
    }
}

impl<T: Signable + Clone> vstd::std_specs::convert::FromSpecImpl<&[T]> for SignVec<T> {
    open spec fn obeys_from_spec() -> bool {
        false
    }

    open spec fn from_spec(v: &[T]) -> Self {
        arbitrary()
    }
}

impl<T: Signable + Clone> From<&Vec<T>> for SignVec<T> {
    fn from(vec: &Vec<T>) -> (r: Self)
        ensures
            r@.len() == vec@.len(),
            forall|i: int| 0 <= i < vec@.len() ==> cloned(vec@[i], #[trigger] r@[i]),
    {
        SignVec::from_slice(vec.as_slice())
    }
}

impl<T: Signable + Clone> vstd::std_specs::convert::FromSpecImpl<&Vec<T>> for SignVec<T> {
    open spec fn obeys_from_spec() -> bool {
        false
    }

    open spec fn from_spec(v: &Vec<T>) -> Self {
        arbitrary()
    }
}

impl<T: Signable + Clone> From<&mut [T]> for SignVec<T> {
    fn from(slice: &mut [T]) -> (r: Self)
        ensures
            r@.len() == old(slice)@.len(),
            forall|i: int| 0 <= i < old(slice)@.len() ==> cloned(old(slice)@[i], #[trigger] r@[i]),
    {
        SignVec::from_slice(slice)
    }
}

impl<T: Signable + Clone> vstd::std_specs::convert::FromSpecImpl<&mut [T]> for SignVec<T> {
    open spec fn obeys_from_spec() -> bool {
        false
    }

    open spec fn from_spec(v: &mut [T]) -> Self {
        arbitrary()
    }
}

impl<T: Signable + Clone, const N: usize> From<&[T; N]> for SignVec<T> {
    fn from(array: &[T; N]) -> (r: Self) {
        SignVec::from_slice(array.as_slice())
    }
}

impl<T: Signable + Clone, const N: usize> vstd::std_specs::convert::FromSpecImpl<&[T; N]> for SignVec<T> {
    open spec fn obeys_from_spec() -> bool {
        false
    }

    open spec fn from_spec(v: &[T; N]) -> Self {
        arbitrary()
    }
}

impl<T: Signable + Clone, const N: usize> From<&mut [T; N]> for SignVec<T> {
    fn from(array: &mut [T; N]) -> (r: Self) {
        SignVec::from_slice(array.as_slice())
    }
}

impl<T: Signable + Clone, const N: usize> vstd::std_specs::convert::FromSpecImpl<&mut [T; N]> for SignVec<T> {
    open spec fn obeys_from_spec() -> bool {
        false
    }

    open spec fn from_spec(v: &mut [T; N]) -> Self {
        arbitrary()
    }
}

impl<T: Signable + Clone, const N: usize> From<[T; N]> for SignVec<T> {
    fn from(array: [T; N]) -> (r: Self) {
        SignVec::from_slice(array.as_slice())
    }
}

impl<T: Signable + Clone, const N: usize> vstd::std_specs::convert::FromSpecImpl<[T; N]> for SignVec<T> {
    open spec fn obeys_from_spec() -> bool {
        false
    }

    open spec fn from_spec(v: [T; N]) -> Self {
        arbitrary()
    }
}

impl<T: Signable + Clone> From<SignVec<T>> for Vec<T> {
    fn from(sign_vec: SignVec<T>) -> (r: Self) {
        sign_vec.vals
    }
}

impl<T: Signable + Clone> vstd::std_specs::convert::FromSpecImpl<SignVec<T>> for Vec<T> {
    open spec fn obeys_from_spec() -> bool {
        true
    }

    open spec fn from_spec(v: SignVec<T>) -> Self {
        v.vals
    }
}

impl<T: Signable + Clone> From<&SignVec<T>> for Vec<T> {
    fn from(sign_vec: &SignVec<T>) -> (r: Self) {
        sign_vec.vals.clone()
    }
}

impl<T: Signable + Clone> vstd::std_specs::convert::FromSpecImpl<&SignVec<T>> for Vec<T> {
    open spec fn obeys_from_spec() -> bool {
        false
    }

    open spec fn from_spec(v: &SignVec<T>) -> Self {
        arbitrary()
    }
}

} // verus!
