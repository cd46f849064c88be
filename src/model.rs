//! The mathematical model of a vector with its two partition indices: which
//! positions hold which class, and how those positions move when elements are
//! put in, taken out or filtered.
use vstd::prelude::*;
use vstd::std_specs::cmp::PartialEqSpec;
use crate::{Sign, Signable};
use crate::index_set::INDEX_LIMIT;

verus! {

/// The positions of `s` whose element falls in class `sign`.
pub open spec fn positions<T: Signable>(s: Seq<T>, sign: Sign) -> Set<usize> {
    Set::new(|i: usize| (i as int) < s.len() && s[i as int].sign_spec() == sign)
}

/// A vector with its two partition indices, seen as mathematical values.
pub struct SignVecModel<T> {
    pub vals: Seq<T>,
    pub plus: Set<usize>,
    pub minus: Set<usize>,
}

/// What a full resynchronisation makes of a state: the same elements, and the
/// indices computed from them alone.
pub open spec fn synced<T: Signable>(m: SignVecModel<T>) -> SignVecModel<T> {
    SignVecModel { vals: m.vals, plus: positions(m.vals, Sign::Plus), minus: positions(m.vals, Sign::Minus) }
}

/// The positions in `s` rise strictly, and all lie below `n`.
pub open spec fn ascending_below(s: Seq<usize>, n: int) -> bool {
    &&& forall|i: int, j: int| 0 <= i < j < s.len() ==> s[i] < s[j]
    &&& forall|i: int| 0 <= i < s.len() ==> s[i] < n
}

/// The positions below `n` whose element in `s` falls in class `sign`.
pub open spec fn positions_below<T: Signable>(s: Seq<T>, sign: Sign, n: int) -> Set<usize> {
    Set::new(|i: usize| (i as int) < n && (i as int) < s.len() && s[i as int].sign_spec() == sign)
}

pub(crate) proof fn lemma_positions_push<T: Signable>(s: Seq<T>, x: T)
    requires
        s.len() < usize::MAX,
    ensures
        x.sign_spec() == Sign::Plus ==> positions(s.push(x), Sign::Plus) == positions(s, Sign::Plus).insert(s.len() as usize)
            && positions(s.push(x), Sign::Minus) == positions(s, Sign::Minus),
        x.sign_spec() == Sign::Minus ==> positions(s.push(x), Sign::Minus) == positions(s, Sign::Minus).insert(s.len() as usize)
            && positions(s.push(x), Sign::Plus) == positions(s, Sign::Plus),
{
    let t = s.push(x);
    assert forall|sign: Sign| #![auto] positions(t, sign) =~= if x.sign_spec() == sign {
        positions(s, sign).insert(s.len() as usize)
    } else {
        positions(s, sign)
    } by {
        assert forall|i: usize| (i as int) < s.len() implies t[i as int] == s[i as int] by {}
    }
}

pub(crate) proof fn lemma_positions_update<T: Signable>(s: Seq<T>, k: usize, x: T, sign: Sign)
    requires
        (k as int) < s.len(),
    ensures
        positions(s.update(k as int, x), sign) == if x.sign_spec() == sign {
            positions(s, sign).insert(k)
        } else {
            positions(s, sign).remove(k)
        },
{
    let t = s.update(k as int, x);
    assert(positions(t, sign) =~= if x.sign_spec() == sign {
        positions(s, sign).insert(k)
    } else {
        positions(s, sign).remove(k)
    });
}

/// The positions of `s` after an element is put in at `at`: those from `at` on move up by one.
pub open spec fn shift_up(s: Set<usize>, at: usize) -> Set<usize> {
    Set::new(|x: usize| (x < at && s.contains(x)) || (x > at && s.contains((x - 1) as usize)))
}

/// The positions of `s` after the element at `at` is taken out: `at` leaves, and
/// those above it move down by one.
pub open spec fn shift_down(s: Set<usize>, at: usize) -> Set<usize> {
    Set::new(|x: usize| (x < at && s.contains(x)) || (x >= at && x < usize::MAX && s.contains((x + 1) as usize)))
}

pub(crate) proof fn lemma_positions_insert<T: Signable>(s: Seq<T>, k: usize, x: T, sign: Sign)
    requires
        (k as int) <= s.len(),
        s.len() < usize::MAX,
    ensures
        positions(s.insert(k as int, x), sign) == if x.sign_spec() == sign {
            shift_up(positions(s, sign), k).insert(k)
        } else {
            shift_up(positions(s, sign), k)
        },
{
    let t = s.insert(k as int, x);
    assert(positions(t, sign) =~= if x.sign_spec() == sign {
        shift_up(positions(s, sign), k).insert(k)
    } else {
        shift_up(positions(s, sign), k)
    });
}

pub(crate) proof fn lemma_positions_remove<T: Signable>(s: Seq<T>, k: usize, sign: Sign)
    requires
        (k as int) < s.len(),
        s.len() < usize::MAX,
    ensures
        positions(s.remove(k as int), sign) == shift_down(positions(s, sign), k),
{
    let t = s.remove(k as int);
    assert(positions(t, sign) =~= shift_down(positions(s, sign), k));
}

/// The elements of the first `n` positions of `s` whose flag in `keep` is set, in order.
pub open spec fn kept_prefix<T>(s: Seq<T>, keep: Seq<bool>, n: int) -> Seq<T>
    decreases n,
{
    if n <= 0 {
        Seq::empty()
    } else if keep[n - 1] {
        kept_prefix(s, keep, n - 1).push(s[n - 1])
    } else {
        kept_prefix(s, keep, n - 1)
    }
}

/// The elements of `s` whose flag in `keep` is set, in order.
pub open spec fn kept<T>(s: Seq<T>, keep: Seq<bool>) -> Seq<T> {
    kept_prefix(s, keep, s.len() as int)
}

/// The flags of a plain deduplication: an element stays unless it equals the one
/// just before it.
pub open spec fn dedup_flags<T: PartialEq>(s: Seq<T>) -> Seq<bool> {
    Seq::new(s.len(), |i: int| i == 0 || !s[i].eq_spec(&s[i - 1]))
}

/// The flags of a deduplication by key: an element stays unless its key and the
/// key of the last element kept before it, as `key` gives them, compare equal.
pub open spec fn dedup_by_key_flags_ok<T, K: PartialEq, F: FnMut(&T) -> K>(s: Seq<T>, key: F, keep: Seq<bool>) -> bool {
    &&& keep.len() == s.len()
    &&& s.len() > 0 ==> keep[0]
    &&& forall|i: int| 0 < i < s.len() ==> key_flag_ok(s, key, #[trigger] keep[i], last_kept_before(keep, i), i)
}

/// The last position before `i` whose flag is set; 0 when there is none.
pub open spec fn last_kept_before(keep: Seq<bool>, i: int) -> int
    decreases i,
{
    if i <= 0 {
        0
    } else if keep[i - 1] {
        i - 1
    } else {
        last_kept_before(keep, i - 1)
    }
}

pub(crate) proof fn lemma_last_kept_push(keep: Seq<bool>, x: bool, i: int)
    requires
        i <= keep.len(),
    ensures
        last_kept_before(keep.push(x), i) == last_kept_before(keep, i),
    decreases i,
{
    if i > 0 {
        lemma_last_kept_push(keep, x, i - 1);
    }
}

/// The flag at position `i` of a deduplication by key agrees with the keys that
/// `key` gives the element at `p`, the last one kept before `i`, and the element at `i`.
pub open spec fn key_flag_ok<T, K: PartialEq, F: FnMut(&T) -> K>(s: Seq<T>, key: F, flag: bool, p: int, i: int) -> bool {
    exists|a: K, b: K| #![trigger key.ensures((&s[p],), a), key.ensures((&s[i],), b)] {
        &&& key.ensures((&s[p],), a)
        &&& key.ensures((&s[i],), b)
        &&& K::obeys_eq_spec() ==> (flag == !a.eq_spec(&b))
    }
}

/// The flags of a deduplication by a predicate: an element stays when the predicate
/// gave `false` between each element kept before it and it, and leaves when it gave
/// `true` for one of them.
pub open spec fn dedup_by_flags_ok<T, F: FnMut(&T, &T) -> bool>(s: Seq<T>, same_bucket: F, keep: Seq<bool>) -> bool {
    &&& keep.len() == s.len()
    &&& forall|j: int| #![trigger keep[j]] 0 <= j < s.len() && keep[j] ==>
            forall|i: int| 0 <= i < j && keep[i] ==> same_bucket.ensures((&s[i], &s[j]), false)
    &&& forall|j: int| #![trigger keep[j]] 0 <= j < s.len() && !keep[j] ==>
            exists|i: int| 0 <= i < j && keep[i] && same_bucket.ensures((&s[i], &s[j]), true)
}

pub(crate) proof fn lemma_key_flag_witness<T, K: PartialEq, F: FnMut(&T) -> K>(s: Seq<T>, key: F, flag: bool, p: int, i: int, a: K, b: K)
    requires
        key.ensures((&s[p],), a),
        key.ensures((&s[i],), b),
        K::obeys_eq_spec() ==> (flag == !a.eq_spec(&b)),
    ensures
        key_flag_ok(s, key, flag, p, i),
{
}

/// The flags of a filter: an element stays when `f` says so.
pub open spec fn retain_flags_ok<T, F: FnMut(&T) -> bool>(s: Seq<T>, f: F, keep: Seq<bool>) -> bool {
    &&& keep.len() == s.len()
    &&& forall|i: int| #![trigger keep[i]] 0 <= i < s.len() ==> f.ensures((&s[i],), keep[i])
}

pub(crate) proof fn lemma_kept_len<T>(s: Seq<T>, keep: Seq<bool>, n: int)
    requires
        0 <= n,
    ensures
        kept_prefix(s, keep, n).len() <= n,
    decreases n,
{
    if n > 0 {
        lemma_kept_len(s, keep, n - 1);
    }
}

/// The two index sets of a sequence are finite, and their sizes add up to its length.
pub proof fn lemma_positions_count<T: Signable>(s: Seq<T>)
    requires
        s.len() <= INDEX_LIMIT,
    ensures
        positions(s, Sign::Plus).finite(),
        positions(s, Sign::Minus).finite(),
        positions(s, Sign::Plus).len() + positions(s, Sign::Minus).len() == s.len(),
    decreases s.len(),
{
    if s.len() == 0 {
        assert(positions(s, Sign::Plus) =~= Set::<usize>::empty());
        assert(positions(s, Sign::Minus) =~= Set::<usize>::empty());
    } else {
        let t = s.drop_last();
        lemma_positions_count(t);
        assert(s == t.push(s.last()));
        lemma_positions_push(t, s.last());
        assert(!positions(t, Sign::Plus).contains(t.len() as usize));
        assert(!positions(t, Sign::Minus).contains(t.len() as usize));
    }
}

} // verus!
