//! A vector that keeps, beside its elements, the set of positions of each class.
use vstd::prelude::*;
use vstd::std_specs::cmp::PartialEqSpec;
use crate::{Sign, Signable, flip_spec};
use crate::model::{
    positions, SignVecModel, synced, positions_below, ascending_below, lemma_positions_push, lemma_positions_update, shift_up,
    shift_down, lemma_positions_insert, lemma_positions_remove, kept, kept_prefix, dedup_flags, dedup_by_key_flags_ok,
    key_flag_ok, last_kept_before, lemma_last_kept_push, dedup_by_flags_ok, lemma_key_flag_witness, retain_flags_ok, lemma_kept_len, lemma_positions_count,
};
use crate::views::{SignVecDrain, SignVecValues};
use crate::index_set::{set_members, set_order, set_sound, set_elements, set_from_vec, INDEX_LIMIT};
use crate::vec_ops::{vec_capacity, vec_reserve_exact, vec_try_reserve_exact, vec_shrink_to, vec_shrink_to_fit, vec_into_boxed_slice, vec_leak};

verus! {

/// The number of positions that a new vector's indices are made for.
pub const DEFAULT_SET_SIZE: usize = 1000;

/// A dense sequence of elements together with the positions of the elements of
/// each class.
#[derive(Debug, Clone)]
pub struct SignVec<T> where T: Signable + Clone {
    pub vals: Vec<T>,
    pub pos: fastset::Set,
    pub neg: fastset::Set,
}

impl<T: Signable + Clone> View for SignVec<T> {
    type V = Seq<T>;

    open spec fn view(&self) -> Seq<T> {
        self.vals@
    }
}

impl<T: Signable + Clone> SignVec<T> {
    /// The state as mathematical values.
    pub open spec fn model(&self) -> SignVecModel<T> {
        SignVecModel { vals: self.vals@, plus: set_members(self.pos), minus: set_members(self.neg) }
    }

    /// The positions that the index of class `sign` holds.
    pub open spec fn members(&self, sign: Sign) -> Set<usize> {
        match sign {
            Sign::Plus => set_members(self.pos),
            Sign::Minus => set_members(self.neg),
        }
    }

    /// The order in which the index of class `sign` lists its positions.
    pub open spec fn order_of(&self, sign: Sign) -> Seq<usize> {
        match sign {
            Sign::Plus => set_order(self.pos),
            Sign::Minus => set_order(self.neg),
        }
    }

    /// Both indices agree with the elements, and every position fits the index sets.
    pub open spec fn wf(&self) -> bool {
        &&& self.model() == synced(self.model())
        &&& self.vals@.len() <= INDEX_LIMIT
        &&& set_sound(self.pos)
        &&& set_sound(self.neg)
    }

    /// Each index lists its positions in rising order, as a vector built or
    /// resynchronised from its elements has them.
    pub open spec fn ordered(&self) -> bool {
        &&& ascending_below(set_order(self.pos), self@.len() as int)
        &&& ascending_below(set_order(self.neg), self@.len() as int)
    }
}

/// A new index set holding the positions of `s` moved as `shift_up` (when `up`)
/// or `shift_down` says.
fn shifted(s: &fastset::Set, at: usize, up: bool, limit: usize) -> (r: fastset::Set)
    requires
        set_sound(*s),
        limit <= INDEX_LIMIT,
        up ==> limit < INDEX_LIMIT,
        forall|x: usize| set_members(*s).contains(x) ==> x < limit,
    ensures
        set_sound(r),
        set_members(r) == if up { shift_up(set_members(*s), at) } else { shift_down(set_members(*s), at) },
{
    let elems = set_elements(s);
    let mut moved: Vec<usize> = Vec::new();
    let mut k: usize = 0;
    proof {
        assert(elems@.subrange(0, 0).to_set() =~= Set::<usize>::empty());
        assert(moved@.to_set() =~= shift_up(Set::<usize>::empty(), at));
        assert(moved@.to_set() =~= shift_down(Set::<usize>::empty(), at));
    }
    while k < elems.len()
        invariant
            limit <= INDEX_LIMIT,
            up ==> limit < INDEX_LIMIT,
            forall|x: usize| set_members(*s).contains(x) ==> x < limit,
            elems@.to_set() == set_members(*s),
            k <= elems@.len(),
            forall|i: int| 0 <= i < moved@.len() ==> moved@[i] <= INDEX_LIMIT,
            moved@.to_set() == if up {
                shift_up(elems@.subrange(0, k as int).to_set(), at)
            } else {
                shift_down(elems@.subrange(0, k as int).to_set(), at)
            },
        decreases elems@.len() - k,
    {
        let y = elems[k];
        let ghost done = elems@.subrange(0, k as int);
        let ghost before = moved@;
        proof {
            assert(elems@.to_set().contains(y));
            assert(elems@.subrange(0, k + 1) =~= done.push(y));
            done.lemma_push_to_set_commute(y);
        }
        if y < at {
            moved.push(y);
        } else if up {
            moved.push(y + 1);
        } else if y > at {
            moved.push(y - 1);
        }
        proof {
            let t = done.to_set().insert(y);
            if moved@.len() > before.len() {
                before.lemma_push_to_set_commute(moved@.last());
                assert(moved@ == before.push(moved@.last()));
            }
            if up {
                assert(moved@.to_set() =~= shift_up(t, at));
            } else {
                assert(moved@.to_set() =~= shift_down(t, at));
            }
        }
        k = k + 1;
    }
    proof {
        assert(elems@.subrange(0, elems@.len() as int) =~= elems@);
    }
    set_from_vec(moved)
}

impl<T: Signable + Clone> SignVec<T> {
    /// An empty vector whose indices are made for `capacity` positions; the index
    /// sets take no capacity above `INDEX_LIMIT`.
    pub fn with_capacity(capacity: usize) -> (r: Self)
        requires
            capacity <= INDEX_LIMIT,
        ensures
            r.wf(),
            r@ == Seq::<T>::empty(),
    {
        let r = SignVec {
            vals: Vec::with_capacity(capacity),
            pos: fastset::Set::with_max(capacity),
            neg: fastset::Set::with_max(capacity),
        };
        proof {
            assert(positions(r.vals@, Sign::Plus) =~= Set::<usize>::empty());
            assert(positions(r.vals@, Sign::Minus) =~= Set::<usize>::empty());
        }
        r
    }

    /// An empty vector.
    pub fn new() -> (r: Self)
        ensures
            r.wf(),
            r@ == Seq::<T>::empty(),
    {
        Self::with_capacity(DEFAULT_SET_SIZE)
    }

    /// The number of elements.
    pub fn len(&self) -> (r: usize)
        ensures
            r == self@.len(),
    {
        self.vals.len()
    }

    /// Whether there is no element.
    pub fn is_empty(&self) -> (r: bool)
        ensures
            r == (self@.len() == 0),
    {
        self.vals.is_empty()
    }

    /// The elements, in order.
    pub fn as_slice(&self) -> (r: &[T])
        ensures
            r@ == self@,
    {
        self.vals.as_slice()
    }

    /// How many elements fall in class `sign`.
    pub fn count(&self, sign: Sign) -> (r: usize)
        requires
            self.wf(),
        ensures
            r == positions(self@, sign).len(),
    {
        match sign {
            Sign::Plus => self.pos.len(),
            Sign::Minus => self.neg.len(),
        }
    }

    /// The index that holds the positions of class `sign`.
    pub fn indices(&self, sign: Sign) -> (r: &fastset::Set)
        requires
            self.wf(),
        ensures
            set_members(*r) == positions(self@, sign),
    {
        match sign {
            Sign::Plus => &self.pos,
            Sign::Minus => &self.neg,
        }
    }

    /// Removes every element.
    pub fn clear(&mut self)
        requires
            old(self).wf(),
        ensures
            final(self).wf(),
            final(self)@ == Seq::<T>::empty(),
    {
        self.vals.clear();
        self.pos.clear();
        self.neg.clear();
        proof {
            assert(positions(self.vals@, Sign::Plus) =~= Set::<usize>::empty());
            assert(positions(self.vals@, Sign::Minus) =~= Set::<usize>::empty());
        }
    }

    /// Appends one element at the end; the index sets hold positions below
    /// `INDEX_LIMIT` only.
    pub fn push(&mut self, element: T)
        requires
            old(self).wf(),
            old(self)@.len() < INDEX_LIMIT,
        ensures
            final(self).wf(),
            final(self)@ == old(self)@.push(element),
    {
        let ghost s = self.vals@;
        let index = self.vals.len();
        match element.sign() {
            Sign::Plus => {
                self.pos.insert(index);
            },
            Sign::Minus => {
                self.neg.insert(index);
            },
        };
        self.vals.push(element);
        proof {
            lemma_positions_push(s, element);
        }
    }

    /// Removes the last element and returns it, or `None` when there is none.
    pub fn pop(&mut self) -> (r: Option<T>)
        requires
            old(self).wf(),
        ensures
            final(self).wf(),
            old(self)@.len() == 0 ==> r is None && final(self)@ == old(self)@,
            old(self)@.len() > 0 ==> r == Some(old(self)@.last())
                && final(self)@ == old(self)@.drop_last(),
    {
        let ghost s = self.vals@;
        if let Some(topop) = self.vals.pop() {
            let idx = self.vals.len();
            match topop.sign() {
                Sign::Plus => {
                    self.pos.remove(&idx);
                },
                Sign::Minus => {
                    self.neg.remove(&idx);
                },
            };
            proof {
                assert(s == self.vals@.push(topop));
                lemma_positions_push(self.vals@, topop);
                assert(positions(s, Sign::Plus).remove(idx) =~= positions(self.vals@, Sign::Plus)) by {
                    assert forall|i: usize| positions(self.vals@, Sign::Plus).contains(i) implies i != idx by {}
                }
                assert(positions(s, Sign::Minus).remove(idx) =~= positions(self.vals@, Sign::Minus)) by {
                    assert forall|i: usize| positions(self.vals@, Sign::Minus).contains(i) implies i != idx by {}
                }
            }
            Some(topop)
        } else {
            None
        }
    }

    /// Replaces the element at `idx` by `val`; the caller must keep `idx` in bounds.
    pub fn set_unchecked(&mut self, idx: usize, val: T)
        requires
            old(self).wf(),
            idx < old(self)@.len(),
        ensures
            final(self).wf(),
            final(self)@ == old(self)@.update(idx as int, val),
    {
        let ghost s = self.vals@;
        let old_sign = self.vals[idx].sign();
        let new_sign = val.sign();
        self.vals.set(idx, val);
        if old_sign != new_sign {
            match new_sign {
                Sign::Plus => {
                    self.neg.remove(&idx);
                    self.pos.insert(idx);
                },
                Sign::Minus => {
                    self.pos.remove(&idx);
                    self.neg.insert(idx);
                },
            }
        }
        proof {
            lemma_positions_update(s, idx, val, Sign::Plus);
            lemma_positions_update(s, idx, val, Sign::Minus);
            if old_sign == new_sign {
                assert(positions(s, new_sign).insert(idx) =~= positions(s, new_sign));
                assert(positions(s, flip_spec(new_sign)).remove(idx) =~= positions(s, flip_spec(new_sign)));
            }
        }
    }

    /// Replaces the element at `idx` by `val`.
    pub fn set(&mut self, idx: usize, val: T)
        requires
            old(self).wf(),
            idx < old(self)@.len(),
        ensures
            final(self).wf(),
            final(self)@ == old(self)@.update(idx as int, val),
    {
        self.set_unchecked(idx, val);
    }

    /// Keeps the first `len` elements and drops the rest; a `len` at or above the
    /// length changes nothing.
    pub fn truncate(&mut self, len: usize)
        requires
            old(self).wf(),
        ensures
            final(self).wf(),
            len <= old(self)@.len() ==> final(self)@ == old(self)@.subrange(0, len as int),
            len > old(self)@.len() ==> final(self)@ == old(self)@,
    {
        if len < self.vals.len() {
            let ghost s = self.vals@;
            let old_len = self.vals.len();
            let mut i: usize = len;
            while i < old_len
                invariant
                    set_sound(self.pos),
                    set_sound(self.neg),
                    self.vals@ == s,
                    old_len == s.len(),
                    s.len() <= INDEX_LIMIT,
                    len <= i <= old_len,
                    set_members(self.pos) == Set::new(|j: usize| positions(s, Sign::Plus).contains(j) && (j < len || j >= i)),
                    set_members(self.neg) == Set::new(|j: usize| positions(s, Sign::Minus).contains(j) && (j < len || j >= i)),
                decreases old_len - i,
            {
                match self.vals[i].sign() {
                    Sign::Plus => {
                        self.pos.remove(&i);
                    },
                    Sign::Minus => {
                        self.neg.remove(&i);
                    },
                };
                proof {
                    assert(set_members(self.pos) =~= Set::new(|j: usize| positions(s, Sign::Plus).contains(j) && (j < len || j >= i + 1)));
                    assert(set_members(self.neg) =~= Set::new(|j: usize| positions(s, Sign::Minus).contains(j) && (j < len || j >= i + 1)));
                }
                i = i + 1;
            }
            self.vals.truncate(len);
            proof {
                assert(set_members(self.pos) =~= positions(self.vals@, Sign::Plus));
                assert(set_members(self.neg) =~= positions(self.vals@, Sign::Minus));
            }
        }
    }

    /// Sets the length to `new_len`, which may only shorten the vector: positions at
    /// and above it leave both indices.
    pub fn set_len(&mut self, new_len: usize)
        requires
            old(self).wf(),
            new_len <= old(self)@.len(),
        ensures
            final(self).wf(),
            final(self)@ == old(self)@.subrange(0, new_len as int),
    {
        self.truncate(new_len);
    }

    /// Removes the element at `index` and puts the last element in its place.
    pub fn swap_remove(&mut self, index: usize) -> (r: T)
        requires
            old(self).wf(),
            index < old(self)@.len(),
        ensures
            final(self).wf(),
            r == old(self)@[index as int],
            final(self)@ == old(self)@.update(index as int, old(self)@.last()).drop_last(),
    {
        let ghost s = self.vals@;
        let removed_element = self.vals.swap_remove(index);
        match removed_element.sign() {
            Sign::Plus => {
                self.pos.remove(&index);
            },
            Sign::Minus => {
                self.neg.remove(&index);
            },
        };
        let n = self.vals.len();
        if index < n {
            match self.vals[index].sign() {
                Sign::Plus => {
                    self.pos.remove(&n);
                    self.pos.insert(index);
                },
                Sign::Minus => {
                    self.neg.remove(&n);
                    self.neg.insert(index);
                },
            }
        }
        proof {
            let last = s.last();
            let u = s.update(index as int, last);
            lemma_positions_update(s, index, last, Sign::Plus);
            lemma_positions_update(s, index, last, Sign::Minus);
            assert(u =~= self.vals@.push(last));
            lemma_positions_push(self.vals@, last);
            assert(!positions(self.vals@, Sign::Plus).contains(n));
            assert(!positions(self.vals@, Sign::Minus).contains(n));
            assert(set_members(self.pos) =~= positions(self.vals@, Sign::Plus));
            assert(set_members(self.neg) =~= positions(self.vals@, Sign::Minus));
        }
        removed_element
    }

    /// Appends clones of the elements of `other`, in order.
    pub fn append(&mut self, other: &[T])
        requires
            old(self).wf(),
            old(self)@.len() + other@.len() <= INDEX_LIMIT,
        ensures
            final(self).wf(),
            final(self)@.len() == old(self)@.len() + other@.len(),
            final(self)@.subrange(0, old(self)@.len() as int) == old(self)@,
            forall|i: int| 0 <= i < other@.len() ==> cloned(other@[i], #[trigger] final(self)@[old(self)@.len() + i]),
    {
        let ghost s = self.vals@;
        let start_len = self.vals.len();
        let n = other.len();
        let mut index: usize = 0;
        while index < n
            invariant
                self.wf(),
                n == other@.len(),
                start_len == s.len(),
                start_len + n <= INDEX_LIMIT,
                index <= n,
                self.vals@.len() == start_len + index,
                self.vals@.subrange(0, start_len as int) == s,
                forall|i: int| 0 <= i < index ==> cloned(other@[i], #[trigger] self.vals@[start_len + i]),
            decreases n - index,
        {
            let e = other[index].clone();
            let ghost before = self.vals@;
            self.push(e);
            proof {
                assert(self.vals@.subrange(0, start_len as int) =~= before.subrange(0, start_len as int));
                assert(self.vals@[start_len + index as int] == e);
            }
            index = index + 1;
        }
    }

    /// Appends clones of the elements of `other`, in order.
    pub fn extend_from_slice(&mut self, other: &[T])
        requires
            old(self).wf(),
            old(self)@.len() + other@.len() <= INDEX_LIMIT,
        ensures
            final(self).wf(),
            final(self)@.len() == old(self)@.len() + other@.len(),
            final(self)@.subrange(0, old(self)@.len() as int) == old(self)@,
            forall|i: int| 0 <= i < other@.len() ==> cloned(other@[i], #[trigger] final(self)@[old(self)@.len() + i]),
    {
        self.append(other);
    }

    /// Puts `element` in at position `index`, moving the later elements up by one.
    pub fn insert(&mut self, index: usize, element: T)
        requires
            old(self).wf(),
            index <= old(self)@.len(),
            old(self)@.len() < INDEX_LIMIT,
        ensures
            final(self).wf(),
            final(self)@ == old(self)@.insert(index as int, element),
    {
        let ghost s = self.vals@;
        let n = self.vals.len();
        self.pos = shifted(&self.pos, index, true, n);
        self.neg = shifted(&self.neg, index, true, n);
        match element.sign() {
            Sign::Plus => {
                self.pos.insert(index);
            },
            Sign::Minus => {
                self.neg.insert(index);
            },
        };
        self.vals.insert(index, element);
        proof {
            lemma_positions_insert(s, index, element, Sign::Plus);
            lemma_positions_insert(s, index, element, Sign::Minus);
        }
    }

    /// Takes out the element at `index` and returns it, moving the later elements
    /// down by one.
    pub fn remove(&mut self, index: usize) -> (r: T)
        requires
            old(self).wf(),
            index < old(self)@.len(),
        ensures
            final(self).wf(),
            r == old(self)@[index as int],
            final(self)@ == old(self)@.remove(index as int),
    {
        let ghost s = self.vals@;
        let n = self.vals.len();
        self.pos = shifted(&self.pos, index, false, n);
        self.neg = shifted(&self.neg, index, false, n);
        let removed = self.vals.remove(index);
        proof {
            lemma_positions_remove(s, index, Sign::Plus);
            lemma_positions_remove(s, index, Sign::Minus);
        }
        removed
    }

    /// Moves the elements from `at` on into a new vector, which it returns.
    pub fn split_off(&mut self, at: usize) -> (r: Self)
        requires
            old(self).wf(),
            at <= old(self)@.len(),
        ensures
            final(self).wf(),
            r.wf(),
            final(self)@ == old(self)@.subrange(0, at as int),
            r@ == old(self)@.subrange(at as int, old(self)@.len() as int),
    {
        let ghost s = self.vals@;
        let new_vals = self.vals.split_off(at);
        let n = new_vals.len();
        let mut new_pos = fastset::Set::with_max(n);
        let mut new_neg = fastset::Set::with_max(n);
        let mut i: usize = 0;
        proof {
            assert(set_members(self.pos) =~= Set::new(|j: usize| positions(s, Sign::Plus).contains(j) && (j < at || j >= at + i)));
            assert(set_members(self.neg) =~= Set::new(|j: usize| positions(s, Sign::Minus).contains(j) && (j < at || j >= at + i)));
            assert(set_members(new_pos) =~= positions_below(new_vals@, Sign::Plus, 0));
            assert(set_members(new_neg) =~= positions_below(new_vals@, Sign::Minus, 0));
        }
        while i < n
            invariant
                set_sound(self.pos),
                set_sound(self.neg),
                set_sound(new_pos),
                set_sound(new_neg),
                s.len() <= INDEX_LIMIT,
                at + n == s.len(),
                i <= n,
                n == new_vals@.len(),
                new_vals@ == s.subrange(at as int, s.len() as int),
                self.vals@ == s.subrange(0, at as int),
                set_members(self.pos) == Set::new(|j: usize| positions(s, Sign::Plus).contains(j) && (j < at || j >= at + i)),
                set_members(self.neg) == Set::new(|j: usize| positions(s, Sign::Minus).contains(j) && (j < at || j >= at + i)),
                set_members(new_pos) == positions_below(new_vals@, Sign::Plus, i as int),
                set_members(new_neg) == positions_below(new_vals@, Sign::Minus, i as int),
            decreases n - i,
        {
            if self.pos.contains(&(at + i)) {
                self.pos.remove(&(at + i));
                new_pos.insert(i);
            } else if self.neg.remove(&(at + i)) {
                new_neg.insert(i);
            }
            proof {
                assert(new_vals@[i as int] == s[at + i]);
                assert(set_members(self.pos) =~= Set::new(|j: usize| positions(s, Sign::Plus).contains(j) && (j < at || j >= at + i + 1)));
                assert(set_members(self.neg) =~= Set::new(|j: usize| positions(s, Sign::Minus).contains(j) && (j < at || j >= at + i + 1)));
                assert(set_members(new_pos) =~= positions_below(new_vals@, Sign::Plus, i + 1));
                assert(set_members(new_neg) =~= positions_below(new_vals@, Sign::Minus, i + 1));
            }
            i = i + 1;
        }
        proof {
            assert(set_members(self.pos) =~= positions(self.vals@, Sign::Plus));
            assert(set_members(self.neg) =~= positions(self.vals@, Sign::Minus));
            assert(set_members(new_pos) =~= positions(new_vals@, Sign::Plus));
            assert(set_members(new_neg) =~= positions(new_vals@, Sign::Minus));
        }
        SignVec { vals: new_vals, pos: new_pos, neg: new_neg }
    }

    /// Indexes the positions from `start` on, those below being indexed already.
    fn index_from(&mut self, start: usize)
        requires
            start <= old(self).vals@.len() <= INDEX_LIMIT,
            set_members(old(self).pos) == positions_below(old(self).vals@, Sign::Plus, start as int),
            set_members(old(self).neg) == positions_below(old(self).vals@, Sign::Minus, start as int),
            set_sound(old(self).pos),
            set_sound(old(self).neg),
        ensures
            final(self).wf(),
            final(self).vals@ == old(self).vals@,
            ascending_below(set_order(old(self).pos), start as int) ==> ascending_below(set_order(final(self).pos), final(self)@.len() as int),
            ascending_below(set_order(old(self).neg), start as int) ==> ascending_below(set_order(final(self).neg), final(self)@.len() as int),
    {
        let n = self.vals.len();
        let mut idx: usize = start;
        while idx < n
            invariant
                set_sound(self.pos),
                set_sound(self.neg),
                ascending_below(set_order(old(self).pos), start as int) ==> ascending_below(set_order(self.pos), idx as int),
                ascending_below(set_order(old(self).neg), start as int) ==> ascending_below(set_order(self.neg), idx as int),
                n == self.vals@.len(),
                n <= INDEX_LIMIT,
                idx <= n,
                self.vals@ == old(self).vals@,
                set_members(self.pos) == positions_below(self.vals@, Sign::Plus, idx as int),
                set_members(self.neg) == positions_below(self.vals@, Sign::Minus, idx as int),
            decreases n - idx,
        {
            match self.vals[idx].sign() {
                Sign::Plus => {
                    self.pos.insert(idx);
                },
                Sign::Minus => {
                    self.neg.insert(idx);
                },
            };
            proof {
                assert(set_members(self.pos) =~= positions_below(self.vals@, Sign::Plus, idx + 1));
                assert(set_members(self.neg) =~= positions_below(self.vals@, Sign::Minus, idx + 1));
            }
            idx = idx + 1;
        }
        proof {
            assert(positions(self.vals@, Sign::Plus) =~= positions_below(self.vals@, Sign::Plus, n as int));
            assert(positions(self.vals@, Sign::Minus) =~= positions_below(self.vals@, Sign::Minus, n as int));
        }
    }

    /// Makes the length `new_len`: cuts the tail, or appends clones of `value`.
    pub fn resize(&mut self, new_len: usize, value: T)
        requires
            old(self).wf(),
            new_len <= INDEX_LIMIT,
        ensures
            final(self).wf(),
            new_len <= old(self)@.len() ==> final(self)@ == old(self)@.subrange(0, new_len as int),
            new_len > old(self)@.len() ==> {
                &&& final(self)@.len() == new_len
                &&& final(self)@.subrange(0, old(self)@.len() as int) == old(self)@
                &&& forall|i: int| old(self)@.len() <= i < new_len ==> cloned(value, #[trigger] final(self)@[i])
            },
    {
        let old_len = self.vals.len();
        if new_len > old_len {
            let ghost s = self.vals@;
            self.vals.resize(new_len, value);
            proof {
                assert(set_members(self.pos) =~= positions_below(self.vals@, Sign::Plus, old_len as int)) by {
                    assert(self.vals@.subrange(0, old_len as int) == s);
                    assert forall|j: int| 0 <= j < old_len implies self.vals@[j] == s[j] by {
                        assert(self.vals@.subrange(0, old_len as int)[j] == self.vals@[j]);
                    }
                }
                assert(set_members(self.neg) =~= positions_below(self.vals@, Sign::Minus, old_len as int)) by {
                    assert forall|j: int| 0 <= j < old_len implies self.vals@[j] == s[j] by {
                        assert(self.vals@.subrange(0, old_len as int)[j] == self.vals@[j]);
                    }
                }
            }
            self.index_from(old_len);
        } else {
            self.truncate(new_len);
        }
    }

    /// Makes the length `new_len`: cuts the tail, or appends values made by `f`,
    /// called once for each new position.
    pub fn resize_with<F>(&mut self, new_len: usize, mut f: F)
        where
            F: FnMut() -> T,
        requires
            old(self).wf(),
            new_len <= INDEX_LIMIT,
            f.requires(()),
        ensures
            final(self).wf(),
            new_len <= old(self)@.len() ==> final(self)@ == old(self)@.subrange(0, new_len as int),
            new_len > old(self)@.len() ==> {
                &&& final(self)@.len() == new_len
                &&& final(self)@.subrange(0, old(self)@.len() as int) == old(self)@
                &&& forall|i: int| old(self)@.len() <= i < new_len ==> f.ensures((), #[trigger] final(self)@[i])
            },
    {
        let old_len = self.vals.len();
        if new_len > old_len {
            let ghost s = self.vals@;
            let ghost f0 = f;
            let mut i: usize = old_len;
            while i < new_len
                invariant
                    self.wf(),
                    old_len == s.len(),
                    old_len <= i <= new_len <= INDEX_LIMIT,
                    f == f0,
                    f.requires(()),
                    self.vals@.len() == i,
                    self.vals@.subrange(0, old_len as int) == s,
                    forall|j: int| old_len <= j < i ==> f0.ensures((), #[trigger] self.vals@[j]),
                decreases new_len - i,
            {
                let value = f();
                let ghost before = self.vals@;
                self.push(value);
                proof {
                    assert(self.vals@.subrange(0, old_len as int) =~= before.subrange(0, old_len as int));
                }
                i = i + 1;
            }
        } else {
            self.truncate(new_len);
        }
    }

    /// A position drawn with `rng` among those of class `sign`, or `None` when
    /// there is none.
    pub fn random(&self, sign: Sign, rng: &mut nanorand::WyRand) -> (r: Option<usize>)
        requires
            self.wf(),
        ensures
            r is None <==> positions(self@, sign).len() == 0,
            r is Some ==> positions(self@, sign).contains(r->0),
    {
        proof {
            lemma_positions_count(self@);
        }
        match sign {
            Sign::Plus => self.pos.random(rng),
            Sign::Minus => self.neg.random(rng),
        }
    }

    /// A position drawn with `rng` among those of class `Plus`, or `None` when
    /// there is none.
    pub fn random_pos(&self, rng: &mut nanorand::WyRand) -> (r: Option<usize>)
        requires
            self.wf(),
        ensures
            r is None <==> positions(self@, Sign::Plus).len() == 0,
            r is Some ==> positions(self@, Sign::Plus).contains(r->0),
    {
        proof {
            lemma_positions_count(self@);
        }
        self.pos.random(rng)
    }

    /// A position drawn with `rng` among those of class `Minus`, or `None` when
    /// there is none.
    pub fn random_neg(&self, rng: &mut nanorand::WyRand) -> (r: Option<usize>)
        requires
            self.wf(),
        ensures
            r is None <==> positions(self@, Sign::Minus).len() == 0,
            r is Some ==> positions(self@, Sign::Minus).contains(r->0),
    {
        proof {
            lemma_positions_count(self@);
        }
        self.neg.random(rng)
    }

    /// The number of elements the storage holds without growing.
    pub fn capacity(&self) -> (r: usize)
        ensures
            r >= self@.len(),
    {
        vec_capacity(&self.vals)
    }

    /// Makes room for at least `additional` more elements.
    pub fn reserve(&mut self, additional: usize)
        requires
            old(self).wf(),
            old(self)@.len() + additional < usize::MAX,
        ensures
            final(self).wf(),
            final(self)@ == old(self)@,
    {
        let new_capacity = self.vals.len() + additional;
        self.vals.reserve(additional);
        self.pos.reserve(new_capacity);
        self.neg.reserve(new_capacity);
    }

    /// Makes room for exactly `additional` more elements.
    pub fn reserve_exact(&mut self, additional: usize)
        requires
            old(self).wf(),
            old(self)@.len() + additional < usize::MAX,
        ensures
            final(self).wf(),
            final(self)@ == old(self)@,
    {
        let new_capacity = self.vals.len() + additional;
        vec_reserve_exact(&mut self.vals, additional);
        self.pos.reserve(new_capacity);
        self.neg.reserve(new_capacity);
    }

    /// Tries to make room for at least `additional` more elements; the error
    /// comes from the allocator. The elements stay as they were either way.
    pub fn try_reserve(&mut self, additional: usize) -> (r: Result<(), std::collections::TryReserveError>)
        requires
            old(self).wf(),
            old(self)@.len() + additional < usize::MAX,
        ensures
            final(self).wf(),
            final(self)@ == old(self)@,
    {
        match self.vals.try_reserve(additional) {
            Ok(()) => {
                let new_capacity = self.vals.len() + additional;
                self.pos.reserve(new_capacity);
                self.neg.reserve(new_capacity);
                Ok(())
            },
            Err(e) => Err(e),
        }
    }

    /// Tries to make room for exactly `additional` more elements; the error
    /// comes from the allocator. The elements stay as they were either way.
    pub fn try_reserve_exact(&mut self, additional: usize) -> (r: Result<(), std::collections::TryReserveError>)
        requires
            old(self).wf(),
            old(self)@.len() + additional < usize::MAX,
        ensures
            final(self).wf(),
            final(self)@ == old(self)@,
    {
        match vec_try_reserve_exact(&mut self.vals, additional) {
            Ok(()) => {
                let new_capacity = self.vals.len() + additional;
                self.pos.reserve(new_capacity);
                self.neg.reserve(new_capacity);
                Ok(())
            },
            Err(e) => Err(e),
        }
    }

    /// Lets the storage shrink, down to `min_capacity` at the least.
    pub fn shrink_to(&mut self, min_capacity: usize)
        requires
            old(self).wf(),
            min_capacity < usize::MAX,
        ensures
            final(self).wf(),
            final(self)@ == old(self)@,
    {
        vec_shrink_to(&mut self.vals, min_capacity);
        self.pos.shrink_to(min_capacity);
        self.neg.shrink_to(min_capacity);
    }

    /// Lets the storage shrink as far as it can.
    pub fn shrink_to_fit(&mut self)
        requires
            old(self).wf(),
        ensures
            final(self).wf(),
            final(self)@ == old(self)@,
    {
        vec_shrink_to_fit(&mut self.vals);
        self.pos.shrink_to_fit();
        self.neg.shrink_to_fit();
    }

    /// The elements, as a boxed slice.
    pub fn into_boxed_slice(self) -> (r: Box<[T]>)
        ensures
            r@ == self@,
    {
        vec_into_boxed_slice(self.vals)
    }

    /// The elements, in storage that is never freed.
    pub fn leak<'a>(self) -> (r: &'a mut [T])
        ensures
            r@ == self@,
    {
        vec_leak(self.vals)
    }

    /// Keeps the elements whose flag is set, in order, and reindexes.
    fn keep_flagged(&mut self, keep: &Vec<bool>)
        requires
            old(self).vals@.len() == keep@.len(),
            old(self).vals@.len() <= INDEX_LIMIT,
        ensures
            final(self).wf(),
            final(self)@ == kept(old(self)@, keep@),
    {
        let ghost s = self.vals@;
        let mut rest: Vec<T> = Vec::new();
        std::mem::swap(&mut self.vals, &mut rest);
        let n = rest.len();
        let mut i: usize = 0;
        for x in it: rest.into_iter()
            invariant
                n == s.len(),
                keep@.len() == n,
                it.seq() == s,
                i == it.index(),
                self.vals@ == kept_prefix(s, keep@, i as int),
                self.vals@.len() <= i,
        {
            if keep[i] {
                self.vals.push(x);
            }
            i = i + 1;
        }
        self.sync();
    }

    /// Removes each element equal to the one just before it.
    pub fn dedup(&mut self)
        where
            T: PartialEq,
        requires
            old(self).wf(),
        ensures
            final(self).wf(),
            T::obeys_eq_spec() ==> final(self)@ == kept(old(self)@, dedup_flags(old(self)@)),
    {
        let n = self.vals.len();
        let mut keep: Vec<bool> = Vec::new();
        let mut i: usize = 0;
        while i < n
            invariant
                self.wf(),
                self@ == old(self)@,
                n == self.vals@.len(),
                i <= n,
                keep@.len() == i,
                T::obeys_eq_spec() ==> forall|j: int| 0 <= j < i ==> #[trigger] keep@[j] == dedup_flags(self@)[j],
            decreases n - i,
        {
            let k = if i == 0 {
                true
            } else {
                !(self.vals[i] == self.vals[i - 1])
            };
            keep.push(k);
            i = i + 1;
        }
        proof {
            if T::obeys_eq_spec() {
                assert(keep@ =~= dedup_flags(self@));
            }
        }
        self.keep_flagged(&keep);
    }

    /// Removes each element whose key, as `key` gives it, equals the key of the
    /// last element kept before it.
    pub fn dedup_by_key<F, K>(&mut self, mut key: F)
        where
            F: FnMut(&T) -> K,
            K: PartialEq,
        requires
            old(self).wf(),
            forall|x: &T| key.requires((x,)),
        ensures
            final(self).wf(),
            exists|keep: Seq<bool>| dedup_by_key_flags_ok(old(self)@, key, keep) && final(self)@ == kept(old(self)@, keep),
    {
        let n = self.vals.len();
        let mut keep: Vec<bool> = Vec::new();
        let mut i: usize = 0;
        let mut last: usize = 0;
        let ghost key0 = key;
        while i < n
            invariant
                self.wf(),
                self@ == old(self)@,
                n == self.vals@.len(),
                i <= n,
                keep@.len() == i,
                key == key0,
                forall|x: &T| key.requires((x,)),
                i > 0 ==> keep@[0],
                i > 0 ==> last < i && last == last_kept_before(keep@, i as int),
                forall|j: int| 0 < j < i ==> key_flag_ok(self@, key0, #[trigger] keep@[j], last_kept_before(keep@, j), j),
            decreases n - i,
        {
            let ghost prev = keep@;
            if i == 0 {
                keep.push(true);
                last = 0;
            } else {
                let a = key(&self.vals[last]);
                let b = key(&self.vals[i]);
                let k = !(a == b);
                keep.push(k);
                proof {
                    lemma_last_kept_push(prev, k, i as int);
                    lemma_key_flag_witness(self@, key0, k, last as int, i as int, a, b);
                }
                if k {
                    last = i;
                }
            }
            proof {
                assert forall|j: int| 0 < j < i + 1 implies key_flag_ok(self@, key0, #[trigger] keep@[j], last_kept_before(keep@, j), j) by {
                    if j < i {
                        assert(keep@[j] == prev[j]);
                        lemma_last_kept_push(prev, keep@[i as int], j);
                        assert(keep@ == prev.push(keep@[i as int]));
                    }
                }
                assert(keep@ == prev.push(keep@[i as int]));
                assert(last_kept_before(keep@, i + 1) == if keep@[i as int] { i as int } else { last_kept_before(keep@, i as int) });
                lemma_last_kept_push(prev, keep@[i as int], i as int);
            }
            i = i + 1;
        }
        proof {
            assert(dedup_by_key_flags_ok(self@, key0, keep@));
        }
        self.keep_flagged(&keep);
    }

    /// Removes each element for which `same_bucket`, given an element kept before
    /// it and then it, holds; the first element of each such group stays.
    pub fn dedup_by<F>(&mut self, mut same_bucket: F)
        where
            F: FnMut(&T, &T) -> bool,
        requires
            old(self).wf(),
            forall|x: &T, y: &T| same_bucket.requires((x, y)),
        ensures
            final(self).wf(),
            exists|keep: Seq<bool>| dedup_by_flags_ok(old(self)@, same_bucket, keep) && final(self)@ == kept(old(self)@, keep),
    {
        let n = self.vals.len();
        let mut keep: Vec<bool> = Vec::new();
        let mut j: usize = 0;
        let ghost f0 = same_bucket;
        while j < n
            invariant
                self.wf(),
                self@ == old(self)@,
                n == self.vals@.len(),
                j <= n,
                keep@.len() == j,
                same_bucket == f0,
                forall|x: &T, y: &T| same_bucket.requires((x, y)),
                forall|jj: int| #![trigger keep@[jj]] 0 <= jj < j && keep@[jj] ==>
                    forall|i: int| 0 <= i < jj && keep@[i] ==> f0.ensures((&self@[i], &self@[jj]), false),
                forall|jj: int| #![trigger keep@[jj]] 0 <= jj < j && !keep@[jj] ==>
                    exists|i: int| 0 <= i < jj && keep@[i] && f0.ensures((&self@[i], &self@[jj]), true),
            decreases n - j,
        {
            let mut stays = true;
            let mut i: usize = 0;
            while i < j && stays
                invariant
                    self@ == old(self)@,
                    n == self.vals@.len(),
                    i <= j < n,
                    keep@.len() == j,
                    same_bucket == f0,
                    forall|x: &T, y: &T| same_bucket.requires((x, y)),
                    stays ==> forall|ii: int| 0 <= ii < i && keep@[ii] ==> f0.ensures((&self@[ii], &self@[j as int]), false),
                    !stays ==> exists|ii: int| 0 <= ii < i && keep@[ii] && f0.ensures((&self@[ii], &self@[j as int]), true),
                decreases j - i,
            {
                if keep[i] {
                    let same = same_bucket(&self.vals[i], &self.vals[j]);
                    if same {
                        stays = false;
                    }
                }
                i = i + 1;
            }
            let ghost prev = keep@;
            keep.push(stays);
            proof {
                assert(keep@[j as int] == stays);
                assert forall|jj: int| 0 <= jj < j implies keep@[jj] == prev[jj] by {}
                assert forall|jj: int| #![trigger keep@[jj]] 0 <= jj < j + 1 && !keep@[jj] implies
                    exists|i: int| 0 <= i < jj && keep@[i] && f0.ensures((&self@[i], &self@[jj]), true) by {
                    let w = choose|i: int| 0 <= i < jj && prev[i] && f0.ensures((&self@[i], &self@[jj]), true);
                    assert(keep@[w] == prev[w]);
                }
                assert forall|jj: int| #![trigger keep@[jj]] 0 <= jj < j + 1 && keep@[jj] implies
                    forall|i: int| 0 <= i < jj && keep@[i] ==> f0.ensures((&self@[i], &self@[jj]), false) by {
                    assert forall|i: int| 0 <= i < jj && keep@[i] implies f0.ensures((&self@[i], &self@[jj]), false) by {
                        assert(keep@[i] == prev[i]);
                    }
                }
            }
            j = j + 1;
        }
        proof {
            assert(dedup_by_flags_ok(self@, f0, keep@));
        }
        self.keep_flagged(&keep);
    }

    /// Keeps the elements for which `f` holds, in order.
    pub fn retain<F>(&mut self, mut f: F)
        where
            F: FnMut(&T) -> bool,
        requires
            old(self).wf(),
            forall|x: &T| f.requires((x,)),
        ensures
            final(self).wf(),
            exists|keep: Seq<bool>| retain_flags_ok(old(self)@, f, keep) && final(self)@ == kept(old(self)@, keep),
    {
        let n = self.vals.len();
        let mut keep: Vec<bool> = Vec::new();
        let mut i: usize = 0;
        let ghost f0 = f;
        while i < n
            invariant
                self.wf(),
                self@ == old(self)@,
                n == self.vals@.len(),
                i <= n,
                keep@.len() == i,
                f == f0,
                forall|x: &T| f.requires((x,)),
                forall|j: int| 0 <= j < i ==> f0.ensures((&self.vals@[j],), #[trigger] keep@[j]),
            decreases n - i,
        {
            let k = f(&self.vals[i]);
            keep.push(k);
            i = i + 1;
        }
        proof {
            assert(retain_flags_ok(self@, f, keep@));
        }
        self.keep_flagged(&keep);
    }

    /// Keeps the elements for which `f` holds, in order; `f` receives each element
    /// mutably, and what it stores stays. The contract states only that the result
    /// is a filter, in order, of a sequence as long as the input, with consistent
    /// indices: it does not tie the answers or the stored values to `f`.
    pub fn retain_mut<F>(&mut self, mut f: F)
        where
            F: FnMut(&mut T) -> bool,
        requires
            old(self).wf(),
            forall|x: &mut T| f.requires((x,)),
        ensures
            final(self).wf(),
            final(self)@.len() <= old(self)@.len(),
            exists|changed: Seq<T>, keep: Seq<bool>|
                changed.len() == old(self)@.len() && keep.len() == changed.len() && final(self)@ == kept(changed, keep),
    {
        let n = self.vals.len();
        let mut keep: Vec<bool> = Vec::new();
        let mut i: usize = 0;
        while i < n
            invariant
                n == self.vals@.len(),
                n == old(self)@.len(),
                n <= INDEX_LIMIT,
                i <= n,
                keep@.len() == i,
                forall|x: &mut T| f.requires((x,)),
            decreases n - i,
        {
            let k = f(&mut self.vals[i]);
            keep.push(k);
            i = i + 1;
        }
        let ghost mid = self.vals@;
        self.keep_flagged(&keep);
        proof {
            lemma_kept_len(mid, keep@, n as int);
            assert(mid.len() == old(self)@.len() && keep@.len() == mid.len() && self@ == kept(mid, keep@));
        }
    }

    /// Appends clones of the elements in positions `src.start` up to `src.end`.
    pub fn extend_from_within(&mut self, src: std::ops::Range<usize>)
        requires
            old(self).wf(),
            src.start <= src.end <= old(self)@.len(),
            old(self)@.len() + (src.end - src.start) <= INDEX_LIMIT,
        ensures
            final(self).wf(),
            final(self)@.len() == old(self)@.len() + (src.end - src.start),
            final(self)@.subrange(0, old(self)@.len() as int) == old(self)@,
            forall|i: int| 0 <= i < src.end - src.start ==> cloned(old(self)@[src.start + i], #[trigger] final(self)@[old(self)@.len() + i]),
    {
        let ghost s = self.vals@;
        let start = src.start;
        let end = src.end;
        let offset = self.vals.len();
        let mut k: usize = start;
        while k < end
            invariant
                self.wf(),
                start <= k <= end <= offset,
                offset == s.len(),
                offset + (end - start) <= INDEX_LIMIT,
                self.vals@.len() == offset + (k - start),
                self.vals@.subrange(0, offset as int) == s,
                forall|i: int| 0 <= i < k - start ==> cloned(s[start + i], #[trigger] self.vals@[offset + i]),
            decreases end - k,
        {
            proof {
                assert(self.vals@[k as int] == self.vals@.subrange(0, offset as int)[k as int]);
            }
            let e = self.vals[k].clone();
            let ghost before = self.vals@;
            self.push(e);
            proof {
                assert(self.vals@.subrange(0, offset as int) =~= before.subrange(0, offset as int));
                assert(self.vals@[offset + (k - start)] == e);
            }
            k = k + 1;
        }
    }

    /// A view that removes the elements in positions `range.start` up to
    /// `range.end` one at a time and hands them out in order.
    pub fn drain(&mut self, range: std::ops::Range<usize>) -> (r: SignVecDrain<'_, T>)
        requires
            old(self).wf(),
            range.start <= range.end <= old(self)@.len(),
        ensures
            r.wf(),
            r.host() == *old(self),
            r.cursor() == range.start,
            r.end() == range.end,
            *final(self) == *final(r.sign_vec),
    {
        SignVecDrain::over(self, range.start, range.end)
    }

    /// A vector holding the elements of `vals`, with both indices built from them.
    /// Past the length that the index sets take, the indices are not promised.
    fn build(vals: Vec<T>) -> (r: Self)
        ensures
            r@ == vals@,
            vals@.len() <= INDEX_LIMIT ==> r.wf() && r.ordered(),
    {
        let mut r = SignVec {
            vals,
            pos: fastset::Set::with_max(DEFAULT_SET_SIZE),
            neg: fastset::Set::with_max(DEFAULT_SET_SIZE),
        };
        let n = r.vals.len();
        let mut idx: usize = 0;
        proof {
            assert(set_members(r.pos) =~= positions_below(r.vals@, Sign::Plus, 0));
            assert(set_members(r.neg) =~= positions_below(r.vals@, Sign::Minus, 0));
        }
        while idx < n
            invariant
                set_sound(r.pos),
                set_sound(r.neg),
                n <= INDEX_LIMIT ==> ascending_below(set_order(r.pos), idx as int),
                n <= INDEX_LIMIT ==> ascending_below(set_order(r.neg), idx as int),
                n == r.vals@.len(),
                r.vals@ == vals@,
                idx <= n,
                n <= INDEX_LIMIT ==> set_members(r.pos) == positions_below(r.vals@, Sign::Plus, idx as int),
                n <= INDEX_LIMIT ==> set_members(r.neg) == positions_below(r.vals@, Sign::Minus, idx as int),
            decreases n - idx,
        {
            match r.vals[idx].sign() {
                Sign::Plus => {
                    r.pos.insert(idx);
                },
                Sign::Minus => {
                    r.neg.insert(idx);
                },
            };
            proof {
                if n <= INDEX_LIMIT {
                    assert(set_members(r.pos) =~= positions_below(r.vals@, Sign::Plus, idx + 1));
                    assert(set_members(r.neg) =~= positions_below(r.vals@, Sign::Minus, idx + 1));
                }
            }
            idx = idx + 1;
        }
        proof {
            assert(positions(r.vals@, Sign::Plus) =~= positions_below(r.vals@, Sign::Plus, n as int));
            assert(positions(r.vals@, Sign::Minus) =~= positions_below(r.vals@, Sign::Minus, n as int));
        }
        r
    }

    /// A vector that takes over the elements of `vals`, each classified once.
    pub fn from_vec(vals: Vec<T>) -> (r: Self)
        ensures
            r@ == vals@,
            vals@.len() <= INDEX_LIMIT ==> r.wf() && r.ordered(),
    {
        Self::build(vals)
    }

    /// A vector holding clones of the elements of `slice`, each classified once.
    pub fn from_slice(slice: &[T]) -> (r: Self)
        ensures
            r@.len() == slice@.len(),
            forall|i: int| 0 <= i < slice@.len() ==> cloned(slice@[i], #[trigger] r@[i]),
            slice@.len() <= INDEX_LIMIT ==> r.wf() && r.ordered(),
    {
        let mut vals: Vec<T> = Vec::new();
        let n = slice.len();
        let mut i: usize = 0;
        while i < n
            invariant
                n == slice@.len(),
                i <= n,
                vals@.len() == i,
                forall|j: int| 0 <= j < i ==> cloned(slice@[j], #[trigger] vals@[j]),
            decreases n - i,
        {
            vals.push(slice[i].clone());
            i = i + 1;
        }
        Self::build(vals)
    }

    /// The three parts of the vector: elements, positions of `Plus`, positions of
    /// `Minus`.
    pub fn into_parts(self) -> (r: (Vec<T>, fastset::Set, fastset::Set))
        ensures
            r.0@ == self@,
            set_members(r.1) == self.members(Sign::Plus),
            set_members(r.2) == self.members(Sign::Minus),
    {
        (self.vals, self.pos, self.neg)
    }

    /// A view that hands out, one at a time, the elements of class `sign`.
    pub fn values(&self, sign: Sign) -> (r: SignVecValues<'_, T>)
        requires
            self.wf(),
        ensures
            r.wf(),
            r.host() == *self,
            r.order()@ == self.order_of(sign),
            r.order()@.to_set() == positions(self@, sign),
            r.taken() == 0,
    {
        SignVecValues::new(self, sign)
    }

    /// Recomputes both indices from the elements, in new index sets. This is the
    /// recovery after the elements were changed directly; it asks nothing of the
    /// indices it replaces.
    pub fn sync(&mut self)
        requires
            old(self).vals@.len() <= INDEX_LIMIT,
        ensures
            final(self).model() == synced(old(self).model()),
            final(self).wf(),
            final(self).ordered(),
    {
        let n = self.vals.len();
        self.pos = fastset::Set::with_max(n);
        self.neg = fastset::Set::with_max(n);
        proof {
            assert(set_members(self.pos) =~= positions_below(self.vals@, Sign::Plus, 0));
            assert(set_members(self.neg) =~= positions_below(self.vals@, Sign::Minus, 0));
        }
        self.index_from(0);
    }
}

} // verus!
