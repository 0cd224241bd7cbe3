//! The pool and its handles.

use std::borrow::Cow;

use core::cmp::Ordering;
use indexmap::IndexSet;
use vstd::prelude::*;
use vstd::utf8::*;

use crate::entries::{set_get_index, set_insert_full, set_items, set_len, set_new};
use crate::text::{lemma_lex_cmp_equal, lex_cmp, str_cmp, utf8_str, InternError};

verus! {

/// What inserting `s` into a pool holding `items` leaves in it: the same
/// items when `s` is already there, else `s` appended.
pub open spec fn interned(items: Seq<Seq<char>>, s: Seq<char>) -> Seq<Seq<char>> {
    if items.contains(s) {
        items
    } else {
        items.push(s)
    }
}

/// Deduplicating storage of text, addressed by insertion index.
///
/// Entries are never removed or reordered, so an index, once handed out,
/// names the same text for the life of the pool.
pub struct StrPool {
    pool: IndexSet<Cow<'static, str>>,
}

/// A handle to text held by a pool: the index of its entry.
///
/// Within one pool, two handles are equal exactly when they name equal
/// text (see `StrPool::equal`).
#[derive(Clone, Copy, PartialEq, Eq, Structural)]
pub struct StrRef {
    ptr: usize,
}

impl View for StrRef {
    type V = nat;

    closed spec fn view(&self) -> nat {
        self.ptr as nat
    }
}

impl View for StrPool {
    type V = Seq<Seq<char>>;

    /// The stored texts, in order of first insertion.
    closed spec fn view(&self) -> Seq<Seq<char>> {
        set_items(self.pool)
    }
}

impl StrPool {
    /// No text is stored twice.
    pub open spec fn wf(&self) -> bool {
        self@.no_duplicates()
    }

    /// `r` names an entry of this pool.
    pub open spec fn holds(&self, r: StrRef) -> bool {
        r@ < self@.len()
    }

    /// The text that `r` names in this pool.
    pub open spec fn text(&self, r: StrRef) -> Seq<char> {
        self@[r@ as int]
    }

    /// An empty pool.
    pub fn new() -> (r: Self)
        ensures
            r.wf(),
            r@ == Seq::<Seq<char>>::empty(),
    {
        StrPool { pool: set_new() }
    }

    fn insert(&mut self, v: Cow<'static, str>) -> (r: StrRef)
        requires
            old(self).wf(),
        ensures
            final(self).wf(),
            final(self)@ == interned(old(self)@, v@),
            final(self).holds(r),
            final(self).text(r) == v@,
    {
        let ghost before = self@;
        let ghost s = v@;
        let (ptr, _) = set_insert_full(&mut self.pool, v);
        proof {
            if !before.contains(s) {
                assert forall|i: int, j: int|
                    0 <= i < self@.len() && 0 <= j < self@.len() && i != j implies self@[i]
                    != self@[j] by {
                    if i == before.len() as int {
                        assert(before[j] == self@[j]);
                    } else if j == before.len() as int {
                        assert(before[i] == self@[i]);
                    } else {
                        assert(before[i] == self@[i] && before[j] == self@[j]);
                    }
                }
            }
        }
        StrRef { ptr }
    }

    /// Inserts text that lives for the whole program, without copying it.
    /// Text already present keeps its index.
    pub fn put_static(&mut self, str: &'static str) -> (r: StrRef)
        requires
            old(self).wf(),
        ensures
            final(self).wf(),
            final(self)@ == interned(old(self)@, str@),
            final(self).holds(r),
            final(self).text(r) == str@,
    {
        self.insert(Cow::Borrowed(str))
    }

    /// Inserts owned text, moving its buffer into the pool.
    /// Text already present keeps its index.
    pub fn put_heap(&mut self, str: String) -> (r: StrRef)
        requires
            old(self).wf(),
        ensures
            final(self).wf(),
            final(self)@ == interned(old(self)@, str@),
            final(self).holds(r),
            final(self).text(r) == str@,
    {
        self.insert(Cow::Owned(str))
    }

    /// The text at `r`'s index, or `None` when the index is out of range.
    pub fn get(&self, r: StrRef) -> (s: Option<&str>)
        ensures
            self.holds(r) ==> s is Some && s->0@ == self.text(r),
            !self.holds(r) ==> s is None,
    {
        match set_get_index(&self.pool, r.ptr) {
            Some(c) => match c {
                Cow::Borrowed(b) => Some(*b),
                Cow::Owned(o) => Some(o.as_str()),
            },
            None => None,
        }
    }

    /// Inserts a copy of borrowed text. Text already present keeps its index.
    pub fn put_str(&mut self, str: &str) -> (r: StrRef)
        requires
            old(self).wf(),
        ensures
            final(self).wf(),
            final(self)@ == interned(old(self)@, str@),
            final(self).holds(r),
            final(self).text(r) == str@,
    {
        self.put_heap(str.to_owned())
    }

    /// Inserts the text that `bytes` encode, or reports that they are not
    /// well-formed UTF-8, leaving the pool as it was.
    pub fn put_bytes(&mut self, bytes: &[u8]) -> (r: Result<StrRef, InternError>)
        requires
            old(self).wf(),
        ensures
            final(self).wf(),
            r is Ok <==> valid_utf8(bytes@),
            r is Ok ==> {
                &&& final(self)@ == interned(old(self)@, decode_utf8(bytes@))
                &&& final(self).holds(r->Ok_0)
                &&& final(self).text(r->Ok_0) == decode_utf8(bytes@)
            },
            r is Err ==> final(self)@ == old(self)@,
    {
        match utf8_str(bytes) {
            Ok(s) => {
                proof {
                    encode_utf8_decode_utf8(s@);
                }
                Ok(self.put_heap(s.to_owned()))
            },
            Err(e) => Err(InternError::InvalidEncoding { valid_up_to: e.valid_up_to() }),
        }
    }

    /// The handle of the empty text, inserting it if need be.
    pub fn put_empty(&mut self) -> (r: StrRef)
        requires
            old(self).wf(),
        ensures
            final(self).wf(),
            final(self)@ == interned(old(self)@, Seq::<char>::empty()),
            final(self).holds(r),
            final(self).text(r) == Seq::<char>::empty(),
    {
        let empty: &'static str = "";
        proof {
            reveal_strlit("");
            assert(empty@ =~= Seq::<char>::empty());
        }
        self.put_static(empty)
    }

    /// The number of distinct texts stored.
    pub fn len(&self) -> (n: usize)
        ensures
            n == self@.len(),
    {
        set_len(&self.pool)
    }

    /// The text that `r` names. A handle from another pool is a
    /// programming error, excluded here.
    pub fn resolve(&self, r: StrRef) -> (s: &str)
        requires
            self.holds(r),
        ensures
            s@ == self.text(r),
    {
        self.get(r).unwrap()
    }

    /// Whether two handles name equal text.
    pub fn equal(&self, a: StrRef, b: StrRef) -> (r: bool)
        requires
            self.wf(),
            self.holds(a),
            self.holds(b),
        ensures
            r == (self.text(a) == self.text(b)),
            r == (a == b),
    {
        a.ptr == b.ptr
    }

    /// Whether a handle names the given text.
    pub fn equal_str(&self, a: StrRef, other: &str) -> (r: bool)
        requires
            self.holds(a),
        ensures
            r == (self.text(a) == other@),
    {
        let s = self.resolve(a);
        let o = str_cmp(s, other);
        proof {
            lemma_lex_cmp_equal(s@, other@);
        }
        match o {
            Ordering::Equal => true,
            _ => false,
        }
    }

    /// The lexicographic order of the texts two handles name.
    pub fn compare(&self, a: StrRef, b: StrRef) -> (r: Ordering)
        requires
            self.holds(a),
            self.holds(b),
        ensures
            r == lex_cmp(self.text(a), self.text(b)),
    {
        str_cmp(self.resolve(a), self.resolve(b))
    }

    /// The UTF-8 bytes of the text that `r` names.
    pub fn as_bytes(&self, r: StrRef) -> (b: &[u8])
        requires
            self.holds(r),
        ensures
            b@ == encode_utf8(self.text(r)),
    {
        self.resolve(r).as_bytes()
    }

    /// An owned copy of the text that `r` names.
    pub fn to_string(&self, r: StrRef) -> (s: String)
        requires
            self.holds(r),
        ensures
            s@ == self.text(r),
    {
        self.resolve(r).to_owned()
    }
}

impl Default for StrPool {
    fn default() -> (r: Self)
        ensures
            r.wf(),
            r@ == Seq::<Seq<char>>::empty(),
    {
        StrPool::new()
    }
}

} // verus!
