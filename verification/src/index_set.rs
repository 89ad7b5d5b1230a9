//! Trusted view of indexmap's `IndexSet` over `String` elements.
//!
//! The roster and per-round bookkeeping of the combat state machine are
//! insertion-order-preserving sets of participant names. That container is
//! indexmap's `IndexSet`; this module declares the type for the verifier,
//! names its contents as a sequence of character sequences in insertion
//! order, and wraps each method the combat logic calls with a contract
//! that states what indexmap documents of it.

use indexmap::IndexSet;
use vstd::prelude::*;

verus! {

#[verifier::external_type_specification]
#[verifier::external_body]
#[verifier::reject_recursive_types(T)]
#[verifier::reject_recursive_types(S)]
pub struct ExIndexSet<T, S>(IndexSet<T, S>);

/// The contents of an `IndexSet` of names, as views of its elements in
/// insertion order.
pub uninterp spec fn iset_elems(s: IndexSet<String>) -> Seq<Seq<char>>;

/// Relies on `IndexSet::new`: a new set is empty.
#[verifier::external_body]
pub(crate) fn iset_new() -> (r: IndexSet<String>)
    ensures
        iset_elems(r) == Seq::<Seq<char>>::empty(),
{
    IndexSet::new()
}

/// Relies on `IndexSet::len`: the number of elements in the set.
#[verifier::external_body]
pub(crate) fn iset_len(s: &IndexSet<String>) -> (r: usize)
    ensures
        r == iset_elems(*s).len(),
{
    s.len()
}

/// Relies on `IndexSet::contains`: whether an equivalent element is in the
/// set.
#[verifier::external_body]
pub(crate) fn iset_contains(s: &IndexSet<String>, value: &String) -> (r: bool)
    ensures
        r == iset_elems(*s).contains(value@),
{
    s.contains(value)
}

/// Relies on `IndexSet::insert`: an element already present leaves the set
/// unchanged and returns false; otherwise the element is appended at the end
/// of the insertion order and true is returned.
#[verifier::external_body]
pub(crate) fn iset_insert(s: &mut IndexSet<String>, value: String) -> (r: bool)
    ensures
        r == !iset_elems(*old(s)).contains(value@),
        iset_elems(*old(s)).contains(value@) ==> iset_elems(*final(s)) == iset_elems(*old(s)),
        !iset_elems(*old(s)).contains(value@) ==> iset_elems(*final(s)) == iset_elems(
            *old(s),
        ).push(value@),
{
    s.insert(value)
}

/// Relies on `IndexSet::shift_remove`: an absent element leaves the set
/// unchanged and returns false; otherwise the element is removed, the
/// elements that follow it shift down preserving their relative order, and
/// true is returned.
#[verifier::external_body]
pub(crate) fn iset_shift_remove(s: &mut IndexSet<String>, value: &String) -> (r: bool)
    ensures
        r == iset_elems(*old(s)).contains(value@),
        !iset_elems(*old(s)).contains(value@) ==> iset_elems(*final(s)) == iset_elems(*old(s)),
        iset_elems(*old(s)).contains(value@) ==> exists|i: int|
            0 <= i < iset_elems(*old(s)).len() && iset_elems(*old(s))[i] == value@ && iset_elems(
                *final(s),
            ) == iset_elems(*old(s)).remove(i),
{
    s.shift_remove(value)
}

/// Relies on `IndexSet::clone`: the clone holds equal elements in the same
/// order.
#[verifier::external_body]
pub(crate) fn iset_clone(s: &IndexSet<String>) -> (r: IndexSet<String>)
    ensures
        iset_elems(r) == iset_elems(*s),
{
    s.clone()
}

/// Relies on `IndexSet::iter`: the elements in insertion order.
#[verifier::external_body]
pub(crate) fn iset_to_vec(s: &IndexSet<String>) -> (r: Vec<String>)
    ensures
        r.deep_view() == iset_elems(*s),
{
    s.iter().cloned().collect()
}

} // verus!
