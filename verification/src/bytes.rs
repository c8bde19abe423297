//! Byte-string helpers shared by the header, record and file modules.

use vstd::prelude::*;
use vstd::utf8::valid_utf8;
use crate::error::Slow5Error;

verus! {

/// Whether two byte strings hold the same bytes.
pub fn bytes_eq(a: &[u8], b: &[u8]) -> (same: bool)
    ensures
        same == (a@ == b@),
{
    if a.len() != b.len() {
        return false;
    }
    let mut i: usize = 0;
    while i < a.len()
        invariant
            a@.len() == b@.len(),
            i <= a@.len(),
            forall|k: int| 0 <= k < i ==> a@[k] == b@[k],
        decreases a@.len() - i,
    {
        if a[i] != b[i] {
            return false;
        }
        i += 1;
    }
    assert(a@ =~= b@);
    true
}

/// An owned copy of a slice of plain values.
pub fn copy_slice<T: Copy>(src: &[T]) -> (out: Vec<T>)
    ensures
        out@ == src@,
{
    let mut out: Vec<T> = Vec::new();
    let mut i: usize = 0;
    while i < src.len()
        invariant
            i <= src@.len(),
            out@ == src@.subrange(0, i as int),
        decreases src@.len() - i,
    {
        out.push(src[i]);
        i += 1;
        assert(out@ =~= src@.subrange(0, i as int));
    }
    assert(out@ =~= src@);
    out
}

/// An owned copy of a vector of plain values.
pub fn copy_vec<T: Copy>(src: &Vec<T>) -> (out: Vec<T>)
    ensures
        out@ == src@,
{
    copy_slice(src.as_slice())
}

/// A list of byte strings as a sequence of byte sequences.
pub open spec fn byte_seqs(list: Seq<Vec<u8>>) -> Seq<Seq<u8>> {
    list.map_values(|item: Vec<u8>| item@)
}

/// An owned copy of a list of byte strings.
pub fn copy_byte_list(src: &Vec<Vec<u8>>) -> (out: Vec<Vec<u8>>)
    ensures
        byte_seqs(out@) == byte_seqs(src@),
{
    let mut out: Vec<Vec<u8>> = Vec::new();
    let mut i: usize = 0;
    while i < src.len()
        invariant
            i <= src@.len(),
            out@.len() == i,
            forall|k: int| 0 <= k < i ==> out@[k]@ == src@[k]@,
        decreases src@.len() - i,
    {
        let item = copy_vec(&src[i]);
        out.push(item);
        i += 1;
    }
    assert(byte_seqs(out@) =~= byte_seqs(src@));
    out
}

/// Whether `s` is free of NUL bytes, which is what the file format asks of
/// every name and textual value.
pub open spec fn nul_free(s: Seq<u8>) -> bool {
    forall|i: int| 0 <= i < s.len() ==> s[i] != 0u8
}

/// Whether position `p` holds the first NUL byte of `s`.
pub open spec fn nul_at(s: Seq<u8>, p: int) -> bool {
    &&& 0 <= p < s.len()
    &&& s[p] == 0u8
    &&& nul_free(s.subrange(0, p))
}

/// A byte string has at most one first NUL byte, and none if it is NUL-free.
pub proof fn lemma_nul_at_unique(s: Seq<u8>, p: int, q: int)
    requires
        nul_at(s, p),
    ensures
        !nul_free(s),
        nul_at(s, q) ==> p == q,
{
    if nul_at(s, q) {
        if p < q {
            assert(s.subrange(0, q)[p] == s[p]);
        } else if q < p {
            assert(s.subrange(0, p)[q] == s[q]);
        }
    }
}

/// Position of the first NUL byte of a byte string that has one.
pub open spec fn nul_position(s: Seq<u8>) -> int {
    choose|p: int| nul_at(s, p)
}

/// Whether `n` is the largest length of a prefix of `bytes` that is valid
/// UTF-8.
pub open spec fn is_valid_up_to(bytes: Seq<u8>, n: int) -> bool {
    &&& 0 <= n <= bytes.len()
    &&& valid_utf8(bytes.subrange(0, n))
    &&& forall|m: int| n < m <= bytes.len() ==> !valid_utf8(#[trigger] bytes.subrange(0, m))
}

/// The largest length of a prefix of `bytes` that is valid UTF-8.
pub open spec fn valid_up_to(bytes: Seq<u8>) -> int {
    choose|n: int| is_valid_up_to(bytes, n)
}

/// The longest valid prefix has one length.
pub proof fn lemma_valid_up_to(bytes: Seq<u8>, n: int)
    requires
        is_valid_up_to(bytes, n),
    ensures
        valid_up_to(bytes) == n,
{
    let m = valid_up_to(bytes);
    assert(is_valid_up_to(bytes, m));
    if m < n {
        assert(!valid_utf8(bytes.subrange(0, n)));
    } else if n < m {
        assert(!valid_utf8(bytes.subrange(0, m)));
    }
}

/// Checks that `bytes` are UTF-8 with `core::str::from_utf8`. The result is
/// `None` exactly for valid UTF-8; otherwise it is what the error's
/// `valid_up_to` reports, the largest length of a prefix that decodes.
#[verifier::external_body]
pub(crate) fn utf8_error_position(bytes: &[u8]) -> (pos: Option<usize>)
    ensures
        pos.is_none() <==> valid_utf8(bytes@),
        pos matches Some(n) ==> is_valid_up_to(bytes@, n as int),
{
    match core::str::from_utf8(bytes) {
        Ok(_) => None,
        Err(e) => Some(e.valid_up_to()),
    }
}

/// The C string for `x`: its bytes followed by a terminating NUL. A byte
/// string that already holds a NUL byte has none, and the error names the
/// position of its first NUL byte.
pub fn to_cstring(x: &[u8]) -> (res: Result<Vec<u8>, Slow5Error>)
    ensures
        nul_free(x@) ==> res.is_ok() && res.unwrap()@ == x@.push(0u8),
        !nul_free(x@) ==> res == Err::<Vec<u8>, Slow5Error>(
            Slow5Error::InteriorNul(nul_position(x@) as usize),
        ),
{
    match find_nul(x) {
        Some(p) => Err(Slow5Error::InteriorNul(p)),
        None => {
            let mut out = copy_slice(x);
            out.push(0u8);
            Ok(out)
        },
    }
}

/// Finds the first NUL byte of a byte string.
pub fn find_nul(s: &[u8]) -> (pos: Option<usize>)
    ensures
        pos.is_none() <==> nul_free(s@),
        pos matches Some(p) ==> nul_at(s@, p as int) && p == nul_position(s@),
{
    let mut i: usize = 0;
    while i < s.len()
        invariant
            i <= s@.len(),
            nul_free(s@.subrange(0, i as int)),
        decreases s@.len() - i,
    {
        if s[i] == 0u8 {
            proof {
                lemma_nul_at_unique(s@, i as int, nul_position(s@));
            }
            return Some(i);
        }
        i += 1;
        assert forall|k: int| 0 <= k < i implies s@.subrange(0, i as int)[k] != 0u8 by {
            if k < i - 1 {
                assert(s@.subrange(0, i - 1)[k] != 0u8);
            }
        }
    }
    assert(s@.subrange(0, i as int) =~= s@);
    None
}

/// A forward walk over a list of byte strings.
#[derive(Debug)]
pub struct NameWalk<'a> {
    items: &'a Vec<Vec<u8>>,
    idx: usize,
}

impl<'a> NameWalk<'a> {
    /// The byte strings not yet handed out, in order.
    pub closed spec fn rest(&self) -> Seq<Seq<u8>> {
        if self.idx <= self.items@.len() {
            byte_seqs(self.items@).subrange(self.idx as int, self.items@.len() as int)
        } else {
            Seq::empty()
        }
    }

    /// A walk over all of `items`, from the first.
    pub fn new(items: &'a Vec<Vec<u8>>) -> (walk: Self)
        ensures
            walk.rest() == byte_seqs(items@),
    {
        let walk = NameWalk { items, idx: 0 };
        assert(walk.rest() =~= byte_seqs(items@));
        walk
    }

    /// Hands out the next byte string, or `None` when none is left.
    pub fn next(&mut self) -> (item: Option<&'a [u8]>)
        ensures
            old(self).rest().len() == 0 ==> item.is_none() && final(self).rest() == old(self).rest(),
            old(self).rest().len() > 0 ==> item.is_some() && item.unwrap()@ == old(self).rest()[0]
                && final(self).rest() == old(self).rest().drop_first(),
    {
        if self.idx < self.items.len() {
            let items: &'a Vec<Vec<u8>> = self.items;
            let item: &'a [u8] = items[self.idx].as_slice();
            self.idx += 1;
            assert(self.rest() =~= old(self).rest().drop_first());
            Some(item)
        } else {
            None
        }
    }

    /// Number of byte strings not yet handed out.
    pub fn count(&self) -> (n: usize)
        ensures
            n == self.rest().len(),
    {
        if self.idx <= self.items.len() {
            self.items.len() - self.idx
        } else {
            0
        }
    }
}

} // verus!
