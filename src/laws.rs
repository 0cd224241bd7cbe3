//! Laws that relate the pool's operations to one another. Each is stated
//! over `interned`, the effect that every insertion (`put_static`,
//! `put_heap`, `put_str`, `put_bytes`, `put_empty`) has on the pool's
//! contents, and over the texts that `resolve`, `equal` and `compare` read.

use core::cmp::Ordering;

use vstd::prelude::*;

use crate::pool::interned;
use crate::text::{lemma_lex_cmp_equal, lex_cmp};

verus! {

/// The contents after inserting each text of `xs` in turn, first to last.
pub open spec fn interned_all(items: Seq<Seq<char>>, xs: Seq<Seq<char>>) -> Seq<Seq<char>>
    decreases xs.len(),
{
    if xs.len() == 0 {
        items
    } else {
        interned(interned_all(items, xs.drop_last()), xs.last())
    }
}

/// An insertion keeps every earlier entry where it was, keeps the entries
/// distinct, and leaves the inserted text present.
proof fn lemma_interned_extends(items: Seq<Seq<char>>, s: Seq<char>)
    ensures
        items.len() <= interned(items, s).len() <= items.len() + 1,
        forall|k: int| 0 <= k < items.len() ==> #[trigger] interned(items, s)[k] == items[k],
        interned(items, s).contains(s),
        items.no_duplicates() ==> interned(items, s).no_duplicates(),
{
    let r = interned(items, s);
    if !items.contains(s) {
        assert(r[items.len() as int] == s);
        if items.no_duplicates() {
            assert forall|i: int, j: int|
                0 <= i < r.len() && 0 <= j < r.len() && i != j implies r[i] != r[j] by {
                if i == items.len() as int {
                    assert(items[j] == r[j]);
                } else if j == items.len() as int {
                    assert(items[i] == r[i]);
                }
            }
        }
    }
}

/// Interning content that is already present changes nothing, and a
/// second interning of the same content finds the index of the first.
pub proof fn lemma_dedup_idempotent(items: Seq<Seq<char>>, s: Seq<char>, i: int, j: int)
    requires
        items.no_duplicates(),
        0 <= i < interned(items, s).len(),
        interned(items, s)[i] == s,
        0 <= j < interned(interned(items, s), s).len(),
        interned(interned(items, s), s)[j] == s,
    ensures
        interned(interned(items, s), s) == interned(items, s),
        i == j,
{
    lemma_interned_extends(items, s);
}

/// Handles obtained by interning `a` and then `b` name equal text, and are
/// the same index, exactly when `a` and `b` are the same text.
pub proof fn lemma_equal_iff_same_text(
    items: Seq<Seq<char>>,
    a: Seq<char>,
    b: Seq<char>,
    i: int,
    j: int,
)
    requires
        items.no_duplicates(),
        0 <= i < interned(items, a).len(),
        interned(items, a)[i] == a,
        0 <= j < interned(interned(items, a), b).len(),
        interned(interned(items, a), b)[j] == b,
    ensures
        (interned(interned(items, a), b)[i] == interned(interned(items, a), b)[j]) <==> (a == b),
        (i == j) <==> (a == b),
{
    lemma_interned_extends(items, a);
    lemma_interned_extends(interned(items, a), b);
}

/// A handle obtained by interning `s` still names `s` after any further
/// insertions.
pub proof fn lemma_round_trip(items: Seq<Seq<char>>, s: Seq<char>, i: int, later: Seq<Seq<char>>)
    requires
        0 <= i < interned(items, s).len(),
        interned(items, s)[i] == s,
    ensures
        i < interned_all(interned(items, s), later).len(),
        interned_all(interned(items, s), later)[i] == s,
    decreases later.len(),
{
    if later.len() > 0 {
        lemma_round_trip(items, s, i, later.drop_last());
        lemma_interned_extends(interned_all(interned(items, s), later.drop_last()), later.last());
    }
}

/// Handles obtained by interning `a` and then `b` compare as `a` and `b`
/// do, so one is less than the other exactly when its text is.
pub proof fn lemma_order_follows_text(
    items: Seq<Seq<char>>,
    a: Seq<char>,
    b: Seq<char>,
    i: int,
    j: int,
)
    requires
        0 <= i < interned(items, a).len(),
        interned(items, a)[i] == a,
        0 <= j < interned(interned(items, a), b).len(),
        interned(interned(items, a), b)[j] == b,
    ensures
        lex_cmp(interned(interned(items, a), b)[i], interned(interned(items, a), b)[j]) == lex_cmp(
            a,
            b,
        ),
        (lex_cmp(interned(interned(items, a), b)[i], interned(interned(items, a), b)[j])
            == Ordering::Less) <==> (lex_cmp(a, b) == Ordering::Less),
        (lex_cmp(interned(interned(items, a), b)[i], interned(interned(items, a), b)[j])
            == Ordering::Equal) <==> (a == b),
{
    lemma_interned_extends(interned(items, a), b);
    lemma_lex_cmp_equal(a, b);
}

/// Interning distinct texts into an empty pool leaves exactly those texts,
/// in that order; interning any of them again leaves the count unchanged.
pub proof fn lemma_growth(xs: Seq<Seq<char>>, k: int)
    requires
        xs.no_duplicates(),
        0 <= k < xs.len(),
    ensures
        interned_all(Seq::empty(), xs) == xs,
        interned_all(Seq::empty(), xs).len() == xs.len(),
        interned(interned_all(Seq::empty(), xs), xs[k]).len() == xs.len(),
{
    lemma_interned_all_distinct(xs);
    assert(xs.contains(xs[k]));
}

proof fn lemma_interned_all_distinct(xs: Seq<Seq<char>>)
    requires
        xs.no_duplicates(),
    ensures
        interned_all(Seq::empty(), xs) == xs,
    decreases xs.len(),
{
    if xs.len() == 0 {
        assert(xs =~= Seq::<Seq<char>>::empty());
    } else {
        let front = xs.drop_last();
        assert(front.no_duplicates()) by {
            assert forall|i: int, j: int|
                0 <= i < front.len() && 0 <= j < front.len() && i != j implies front[i]
                != front[j] by {
                assert(front[i] == xs[i] && front[j] == xs[j]);
            }
        }
        lemma_interned_all_distinct(front);
        if front.contains(xs.last()) {
            let w = choose|w: int| 0 <= w < front.len() && front[w] == xs.last();
            assert(xs[w] == xs[xs.len() - 1]);
        }
        assert(front.push(xs.last()) =~= xs);
    }
}

} // verus!
