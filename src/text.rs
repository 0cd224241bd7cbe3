//! Text-level facts the pool builds on: the order of strings, and turning
//! bytes into text.

use core::cmp::Ordering;
use core::str::Utf8Error;

use vstd::prelude::*;
use vstd::utf8::*;

verus! {

/// Lexicographic comparison of two character sequences, character by
/// character by scalar value; a proper prefix comes first.
pub open spec fn lex_cmp(a: Seq<char>, b: Seq<char>) -> Ordering
    decreases a.len(),
{
    if a.len() == 0 {
        if b.len() == 0 {
            Ordering::Equal
        } else {
            Ordering::Less
        }
    } else if b.len() == 0 {
        Ordering::Greater
    } else if (a[0] as int) < (b[0] as int) {
        Ordering::Less
    } else if (a[0] as int) > (b[0] as int) {
        Ordering::Greater
    } else {
        lex_cmp(a.drop_first(), b.drop_first())
    }
}

/// The comparison says `Equal` exactly for equal sequences.
pub proof fn lemma_lex_cmp_equal(a: Seq<char>, b: Seq<char>)
    ensures
        (lex_cmp(a, b) == Ordering::Equal) <==> (a == b),
    decreases a.len(),
{
    if a.len() == 0 && b.len() == 0 {
        assert(a =~= b);
    }
    if a.len() > 0 && b.len() > 0 {
        lemma_lex_cmp_equal(a.drop_first(), b.drop_first());
        if a[0] == b[0] && a.drop_first() == b.drop_first() {
            assert forall|i: int| 0 <= i < a.len() implies a[i] == b[i] by {
                if i > 0 {
                    assert(a[i] == a.drop_first()[i - 1]);
                    assert(b[i] == b.drop_first()[i - 1]);
                }
            }
            assert(a =~= b);
        }
        if a == b {
            assert(a.drop_first() == b.drop_first());
        }
    }
}

/// Swapping the operands reverses the comparison.
pub proof fn lemma_lex_cmp_swap(a: Seq<char>, b: Seq<char>)
    ensures
        (lex_cmp(a, b) == Ordering::Less) <==> (lex_cmp(b, a) == Ordering::Greater),
        (lex_cmp(a, b) == Ordering::Equal) <==> (lex_cmp(b, a) == Ordering::Equal),
    decreases a.len(),
{
    if a.len() > 0 && b.len() > 0 {
        lemma_lex_cmp_swap(a.drop_first(), b.drop_first());
    }
}

/// Relies on `str`'s `Ord::cmp`: strings are ordered lexicographically by
/// their UTF-8 bytes, which orders them by scalar value character by
/// character.
#[verifier::external_body]
pub(crate) fn str_cmp(a: &str, b: &str) -> (r: Ordering)
    ensures
        r == lex_cmp(a@, b@),
{
    a.cmp(b)
}

#[verifier::external_type_specification]
#[verifier::external_body]
pub struct ExUtf8Error(Utf8Error);

/// Relies on `Utf8Error::valid_up_to`: the length of the longest valid
/// prefix of the input, kept as a diagnostic.
pub assume_specification[ Utf8Error::valid_up_to ](e: &Utf8Error) -> usize;

/// Relies on `core::str::from_utf8`: success exactly on well-formed UTF-8,
/// and then a string slice over those same bytes.
#[verifier::external_body]
pub(crate) fn utf8_str(v: &[u8]) -> (r: Result<&str, Utf8Error>)
    ensures
        r is Ok <==> valid_utf8(v@),
        r is Ok ==> encode_utf8(r->Ok_0@) == v@,
{
    core::str::from_utf8(v)
}

/// Why text could not be taken into a pool.
#[derive(Clone, Copy, Debug, PartialEq, Eq, Structural)]
pub enum InternError {
    /// The bytes are not well-formed UTF-8; `valid_up_to` is the length of
    /// the longest well-formed prefix.
    InvalidEncoding { valid_up_to: usize },
}

} // verus!
