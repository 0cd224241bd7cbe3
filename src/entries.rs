//! The insertion-ordered set that stores the pool's text, and what this
//! library relies on of it.

use std::borrow::Cow;

use indexmap::IndexSet;
use vstd::prelude::*;

verus! {

#[verifier::external_type_specification]
#[verifier::external_body]
#[verifier::reject_recursive_types(T)]
#[verifier::reject_recursive_types(S)]
pub struct ExIndexSet<T, S>(IndexSet<T, S>);

/// The items of a set of text, in insertion order.
pub uninterp spec fn set_items(s: IndexSet<Cow<'static, str>>) -> Seq<Seq<char>>;

/// Relies on `IndexSet::new`: a new set holds no items.
#[verifier::external_body]
pub(crate) fn set_new() -> (r: IndexSet<Cow<'static, str>>)
    ensures
        set_items(r) == Seq::<Seq<char>>::empty(),
{
    IndexSet::new()
}

/// Relies on `IndexSet::len`: the number of items held.
#[verifier::external_body]
pub(crate) fn set_len(s: &IndexSet<Cow<'static, str>>) -> (r: usize)
    ensures
        r == set_items(*s).len(),
{
    s.len()
}

/// Relies on `IndexSet::insert_full`: an item equal to one already held
/// leaves the set as it was and yields that item's index with `false`;
/// any other item is appended and yields the new last index with `true`.
#[verifier::external_body]
pub(crate) fn set_insert_full(s: &mut IndexSet<Cow<'static, str>>, v: Cow<'static, str>) -> (r: (
    usize,
    bool,
))
    ensures
        set_items(*old(s)).contains(v@) ==> {
            &&& set_items(*final(s)) == set_items(*old(s))
            &&& r.0 < set_items(*old(s)).len()
            &&& set_items(*old(s))[r.0 as int] == v@
            &&& !r.1
        },
        !set_items(*old(s)).contains(v@) ==> {
            &&& set_items(*final(s)) == set_items(*old(s)).push(v@)
            &&& r.0 == set_items(*old(s)).len()
            &&& r.1
        },
{
    s.insert_full(v)
}

/// Relies on `IndexSet::get_index`: the item at a position, if the position
/// is below the length.
#[verifier::external_body]
pub(crate) fn set_get_index<'a>(s: &'a IndexSet<Cow<'static, str>>, i: usize) -> (r: Option<
    &'a Cow<'static, str>,
>)
    ensures
        i < set_items(*s).len() ==> r is Some && r->0@ == set_items(*s)[i as int],
        i >= set_items(*s).len() ==> r is None,
{
    s.get_index(i)
}

} // verus!
