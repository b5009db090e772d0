//! What is behind a pointer, and how memory changes.
use crate::heap::{BlockView, Memory, Pointer};
use vstd::prelude::*;
use vstd::utf8::encode_utf8;

verus! {

/// The block that `p` points at, if it points at one.
pub open spec fn at(p: Pointer) -> Set<usize> {
    match p {
        Pointer::To(a) => set![a],
        _ => Set::empty(),
    }
}

/// From `before` to `after` exactly the blocks `added` came to life, and nothing
/// that lived before has changed.
pub open spec fn grows(before: Memory, after: Memory, added: Set<usize>) -> bool {
    &&& after.dom() =~= before.dom().union(added)
    &&& added.disjoint(before.dom())
    &&& forall|k: usize| #[trigger] before.contains_key(k) ==> after[k] == before[k]
}

/// `p` and `len` give the buffer `bytes`. An empty buffer takes no block.
pub open spec fn bytes_at(m: Memory, p: Pointer, len: usize, bytes: Seq<u8>) -> bool {
    &&& len == bytes.len()
    &&& if len == 0 {
        p is Dangling
    } else {
        p matches Pointer::To(a) && m.contains_key(a) && m[a] == BlockView::Bytes(bytes)
    }
}

/// `p` and `len` give the buffer `bytes`, at the start of an allocation of
/// `capacity` bytes. No capacity takes no block.
pub open spec fn vector_at(
    m: Memory,
    p: Pointer,
    len: usize,
    bytes: Seq<u8>,
    capacity: usize,
) -> bool {
    if capacity <= len {
        bytes_at(m, p, len, bytes)
    } else {
        &&& len == bytes.len()
        &&& p matches Pointer::To(a)
        &&& m.contains_key(a)
        &&& m[a] == BlockView::Vector { bytes, capacity }
    }
}

/// `p` and `len` give a buffer of that length, in an allocation of that length.
pub open spec fn is_buffer(m: Memory, p: Pointer, len: usize) -> bool {
    &&& p matches Pointer::To(a)
    &&& m.contains_key(a)
    &&& m[a] matches BlockView::Bytes(bytes)
    &&& bytes.len() == len
}

/// `p` is a C string that reads `text`.
pub open spec fn c_str_at(m: Memory, p: Pointer, text: Seq<char>) -> bool {
    p matches Pointer::To(a) && m.contains_key(a) && m[a] == BlockView::CStr(
        encode_utf8(text).push(0),
    )
}

/// `p` is some C string.
pub open spec fn is_c_str(m: Memory, p: Pointer) -> bool {
    p matches Pointer::To(a) && m.contains_key(a) && m[a] is CStr
}

/// Each line as a sequence of characters.
pub open spec fn texts(lines: Seq<String>) -> Seq<Seq<char>> {
    Seq::new(lines.len(), |i: int| lines[i]@)
}

pub proof fn lemma_grows_none(m: Memory)
    ensures
        grows(m, m, Set::empty()),
{
}

/// Two steps of growth are one, and they add different blocks.
pub proof fn lemma_grows_twice(
    a: Memory,
    b: Memory,
    c: Memory,
    first: Set<usize>,
    second: Set<usize>,
)
    requires
        grows(a, b, first),
        grows(b, c, second),
    ensures
        grows(a, c, first.union(second)),
        first.disjoint(second),
{
    assert forall|k: usize| #[trigger] a.contains_key(k) implies c[k] == a[k] by {
        assert(b.contains_key(k));
    }
    assert forall|k: usize| first.contains(k) implies !second.contains(k) by {
        assert(b.dom().contains(k));
    }
}

} // verus!
