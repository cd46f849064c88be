//! The partition index: a set of positions kept by the `fastset` crate,
//! with what this library relies on of each of its operations.
use vstd::prelude::*;

verus! {

/// The bound below which `fastset::Set::insert` always stores its argument
/// (the crate's `MAX_CAPACITY`); `fastset::Set::with_max` refuses a larger maximum.
pub const INDEX_LIMIT: usize = 1_000_000_000;

/// `fastset::Set`, a set of positions, known to Verus only through what is
/// stated below.
#[verifier::external_type_specification]
#[verifier::external_body]
pub struct ExIndexSet(fastset::Set);

/// `nanorand::WyRand`, the generator that `fastset::Set::random` draws with; its
/// state is opaque.
#[verifier::external_type_specification]
#[verifier::external_body]
pub struct ExWyRand(nanorand::WyRand);

/// The positions that a `fastset::Set` holds: those whose bit is set in its
/// indicator, which is what `contains` reads.
pub uninterp spec fn set_members(s: fastset::Set) -> Set<usize>;

/// The element list of a `fastset::Set`: what `iter` walks and `random` draws from.
pub uninterp spec fn set_order(s: fastset::Set) -> Seq<usize>;

/// Whether the fields of a `fastset::Set` agree with each other: the indicator
/// covers `max`, the element list holds each set bit once, the pages locate each
/// element and `current_max` is the largest member. Sets built and changed through
/// fastset's own methods keep this; a deserialised set, or one whose elements were
/// changed through `&mut` iteration, may not.
pub uninterp spec fn set_sound(s: fastset::Set) -> bool;

/// Relies on `fastset::Set::with_max`: an empty, sound set; it panics above its limit.
pub assume_specification[ fastset::Set::with_max ](max_element: usize) -> (r: fastset::Set)
    requires
        max_element <= INDEX_LIMIT,
    ensures
        set_members(r) == Set::<usize>::empty(),
        set_order(r) == Seq::<usize>::empty(),
        set_sound(r),
;

/// Relies on `<fastset::Set as From<Vec<usize>>>::from`: `with_max` of the largest
/// value, which panics above the limit, then `insert` of each value in turn.
#[verifier::external_body]
pub(crate) fn set_from_vec(v: Vec<usize>) -> (r: fastset::Set)
    requires
        forall|i: int| 0 <= i < v@.len() ==> v@[i] <= INDEX_LIMIT,
    ensures
        set_members(r) == v@.to_set(),
        v@.no_duplicates() ==> set_order(r) == v@,
        set_sound(r),
{
    fastset::Set::from(v)
}

/// Relies on `fastset::Set::insert` on a sound set: below the limit the value is
/// stored, appended to the element list when new, and the result says whether it
/// was new; above it the value may or may not be stored.
pub assume_specification[ fastset::Set::insert ](s: &mut fastset::Set, value: usize) -> (r: bool)
    requires
        set_sound(*old(s)),
    ensures
        set_sound(*final(s)),
        value < INDEX_LIMIT ==> set_members(*final(s)) == set_members(*old(s)).insert(value),
        value < INDEX_LIMIT ==> r == !set_members(*old(s)).contains(value),
        value < INDEX_LIMIT ==> set_order(*final(s)) == if set_members(*old(s)).contains(value) {
            set_order(*old(s))
        } else {
            set_order(*old(s)).push(value)
        },
        value >= INDEX_LIMIT ==> set_members(*final(s)) == set_members(*old(s))
            || set_members(*final(s)) == set_members(*old(s)).insert(value),
;

/// Relies on `fastset::Set::remove` on a sound set: the value leaves the set, the
/// last element of the list taking its place there; the result says whether it was
/// there.
pub assume_specification[ fastset::Set::remove ](s: &mut fastset::Set, value: &usize) -> (r: bool)
    requires
        set_sound(*old(s)),
    ensures
        set_sound(*final(s)),
        set_members(*final(s)) == set_members(*old(s)).remove(*value),
        r == set_members(*old(s)).contains(*value),
        !set_members(*old(s)).contains(*value) ==> set_order(*final(s)) == set_order(*old(s)),
        set_members(*old(s)).contains(*value) ==> exists|k: int| 0 <= k < set_order(*old(s)).len()
            && set_order(*old(s))[k] == *value
            && set_order(*final(s)) == set_order(*old(s)).update(k, set_order(*old(s)).last()).drop_last(),
;

/// Relies on `fastset::Set::contains`: it reads the indicator bit.
pub assume_specification[ fastset::Set::contains ](s: &fastset::Set, value: &usize) -> (r: bool)
    ensures
        r == set_members(*s).contains(*value),
;

/// Relies on `fastset::Set::len` on a sound set: the number of members.
pub assume_specification[ fastset::Set::len ](s: &fastset::Set) -> (r: usize)
    requires
        set_sound(*s),
    ensures
        r == set_members(*s).len(),
;

/// Relies on `fastset::Set::clear`: no member is left and the list is empty; it
/// keeps `max` as it was.
pub assume_specification[ fastset::Set::clear ](s: &mut fastset::Set)
    ensures
        set_members(*final(s)) == Set::<usize>::empty(),
        set_order(*final(s)) == Seq::<usize>::empty(),
        set_sound(*old(s)) ==> set_sound(*final(s)),
;

/// Relies on `fastset::Set::reserve` on a sound set: grows the storage, members
/// and list unchanged; it computes `new_max_element + 1`.
pub assume_specification[ fastset::Set::reserve ](s: &mut fastset::Set, new_max_element: usize)
    requires
        set_sound(*old(s)),
        new_max_element < usize::MAX,
    ensures
        set_sound(*final(s)),
        set_members(*final(s)) == set_members(*old(s)),
        set_order(*final(s)) == set_order(*old(s)),
;

/// Relies on `fastset::Set::shrink_to` on a sound set: shrinks the storage down to
/// its largest member at the least, members and list unchanged; it computes
/// `min_capacity + 1`.
pub assume_specification[ fastset::Set::shrink_to ](s: &mut fastset::Set, min_capacity: usize)
    requires
        set_sound(*old(s)),
        min_capacity < usize::MAX,
    ensures
        set_sound(*final(s)),
        set_members(*final(s)) == set_members(*old(s)),
        set_order(*final(s)) == set_order(*old(s)),
;

/// Relies on `fastset::Set::shrink_to_fit` on a sound set: shrinks the storage to
/// its largest member, members and list unchanged.
pub assume_specification[ fastset::Set::shrink_to_fit ](s: &mut fastset::Set)
    requires
        set_sound(*old(s)),
    ensures
        set_sound(*final(s)),
        set_members(*final(s)) == set_members(*old(s)),
        set_order(*final(s)) == set_order(*old(s)),
;

/// Relies on `fastset::Set::random` on a sound set: `None` exactly on an empty
/// set, else an element of its list, drawn with the generator.
pub assume_specification[ fastset::Set::random ](s: &fastset::Set, rng: &mut nanorand::WyRand) -> (r: Option<usize>)
    requires
        set_sound(*s),
    ensures
        r is None <==> set_members(*s) == Set::<usize>::empty(),
        r is Some ==> set_members(*s).contains(r->0),
;

/// Relies on the derived `Clone` of `fastset::Set`: a field-by-field copy.
pub assume_specification[ <fastset::Set as Clone>::clone ](s: &fastset::Set) -> (r: fastset::Set)
    ensures
        set_members(r) == set_members(*s),
        set_order(r) == set_order(*s),
        set_sound(*s) ==> set_sound(r),
;

/// Relies on `fastset::Set::iter` on a sound set: it walks the element list, which
/// holds each member once.
#[verifier::external_body]
pub(crate) fn set_elements(s: &fastset::Set) -> (r: Vec<usize>)
    requires
        set_sound(*s),
    ensures
        r@ == set_order(*s),
        r@.to_set() == set_members(*s),
        r@.no_duplicates(),
{
    s.iter().copied().collect()
}

} // verus!
