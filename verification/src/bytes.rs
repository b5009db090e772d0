//! Buffers and C strings.
use crate::heap::{Block, Heap, Memory, Pointer};
use crate::memory::{
    at, bytes_at, c_str_at, grows, is_buffer, is_c_str, lemma_grows_twice, texts, vector_at,
};
use crate::repr::{LogArray, LogRepr};
use vstd::prelude::*;
use vstd::utf8::encode_utf8;

verus! {

/// Hands the items of `v` over as a buffer, without the spare capacity of `v`.
pub fn boxed_to_leaked_bytes(heap: &mut Heap, v: Vec<u8>) -> (r: (Pointer, usize))
    ensures
        bytes_at(final(heap)@, r.0, r.1, v@),
        grows(old(heap)@, final(heap)@, at(r.0)),
{
    let len: usize = v.len();
    if len == 0 {
        (Pointer::Dangling, 0)
    } else {
        let ptr = heap.place(Block::Bytes(v));
        (ptr, len)
    }
}

/// `Vec::capacity`: how many items fit without another allocation, which is at
/// least how many there are. The rest is up to the allocator.
#[verifier::external_body]
fn vec_capacity(v: &Vec<u8>) -> (capacity: usize)
    ensures
        v@.len() <= capacity,
{
    v.capacity()
}

/// Hands `v` over as a buffer in its own allocation, which has `capacity` bytes.
pub fn allocation_to_leaked_bytes(heap: &mut Heap, v: Vec<u8>, capacity: usize) -> (r: (
    Pointer,
    usize,
))
    requires
        v@.len() <= capacity,
    ensures
        vector_at(final(heap)@, r.0, r.1, v@, capacity),
        grows(old(heap)@, final(heap)@, at(r.0)),
{
    let len: usize = v.len();
    if len == capacity {
        boxed_to_leaked_bytes(heap, v)
    } else {
        let ptr = heap.place(Block::Vector { bytes: v, capacity });
        (ptr, len)
    }
}

/// Hands `v` over as a buffer in its own allocation, whatever capacity that has.
pub fn vecu8_to_leaked_bytes(heap: &mut Heap, v: Vec<u8>) -> (r: (Pointer, usize))
    ensures
        exists|capacity: usize|
            v@.len() <= capacity && #[trigger] vector_at(
                final(heap)@,
                r.0,
                r.1,
                v@,
                capacity,
            ),
        grows(old(heap)@, final(heap)@, at(r.0)),
{
    let capacity: usize = vec_capacity(&v);
    allocation_to_leaked_bytes(heap, v, capacity)
}

/// Hands the UTF-8 bytes of `s` over as a buffer.
pub fn string_to_leaked_bytes(heap: &mut Heap, s: String) -> (r: (Pointer, usize))
    ensures
        bytes_at(final(heap)@, r.0, r.1, encode_utf8(s@)),
        grows(old(heap)@, final(heap)@, at(r.0)),
{
    boxed_to_leaked_bytes(heap, s.as_str().as_bytes_vec())
}

/// Memory after [`free_leaked_bytes`].
pub open spec fn without_bytes(m: Memory, ptr: Pointer, len: usize) -> Memory {
    match ptr {
        Pointer::To(a) if len > 0 => m.remove(a),
        _ => m,
    }
}

/// Frees a buffer. Null, and anything of length 0, is left alone.
pub fn free_leaked_bytes(heap: &mut Heap, ptr: Pointer, len: usize)
    requires
        ptr !is Null && len > 0 ==> is_buffer(old(heap)@, ptr, len),
    ensures
        final(heap)@ == without_bytes(old(heap)@, ptr, len),
{
    if !ptr.is_null() && len > 0 {
        if let Pointer::To(a) = ptr {
            heap.take(a);
        }
    }
}

/// Hands `text` over as a C string, which cannot hold a NUL of its own.
pub fn string_to_c_str(heap: &mut Heap, text: String) -> (ptr: Pointer)
    requires
        !text@.contains('\0'),
    ensures
        c_str_at(final(heap)@, ptr, text@),
        grows(old(heap)@, final(heap)@, at(ptr)),
{
    let mut bytes = text.as_str().as_bytes_vec();
    bytes.push(0);
    heap.place(Block::CStr(bytes))
}

/// Memory after [`free_err_msg`].
pub open spec fn without_c_str(m: Memory, ptr: Pointer) -> Memory {
    match ptr {
        Pointer::To(a) => m.remove(a),
        _ => m,
    }
}

/// Frees an error message. Null is left alone.
pub fn free_err_msg(heap: &mut Heap, ptr: Pointer)
    requires
        ptr !is Null ==> is_c_str(old(heap)@, ptr),
    ensures
        final(heap)@ == without_c_str(old(heap)@, ptr),
{
    if ptr.is_null() {
        return;
    }
    if let Pointer::To(a) = ptr {
        heap.take(a);
    }
}

/// The blocks of the lines of a log array.
pub open spec fn line_blocks(reprs: Seq<LogRepr>) -> Set<usize> {
    Set::new(
        |k: usize|
            exists|i: int| 0 <= i < reprs.len() && at(#[trigger] reprs[i].ptr).contains(k),
    )
}

/// Each entry gives the line at its place, from a buffer of its own.
pub open spec fn lines_at(m: Memory, reprs: Seq<LogRepr>, lines: Seq<Seq<char>>) -> bool {
    &&& reprs.len() == lines.len()
    &&& forall|i: int|
        0 <= i < lines.len() ==> bytes_at(
            m,
            (#[trigger] reprs[i]).ptr,
            reprs[i].len,
            encode_utf8(lines[i]),
        )
    &&& forall|i: int, j: int|
        0 <= i < j < reprs.len() ==> at((#[trigger] reprs[i]).ptr).disjoint(
            at((#[trigger] reprs[j]).ptr),
        )
}

/// The entries of a log array.
pub open spec fn log_entries(m: Memory, logs: LogArray) -> Seq<LogRepr> {
    match logs.ptr {
        Pointer::To(a) if m.contains_key(a) && m[a] is Logs => m[a]->Logs_0,
        _ => Seq::empty(),
    }
}

/// `logs` gives `lines`; no lines at all are null.
pub open spec fn logs_at(m: Memory, logs: LogArray, lines: Seq<Seq<char>>) -> bool {
    &&& logs.len == lines.len()
    &&& if lines.len() == 0 {
        logs.ptr is Null
    } else {
        &&& logs.ptr matches Pointer::To(a) && m.contains_key(a) && m[a] is Logs
        &&& lines_at(m, log_entries(m, logs), lines)
        &&& at(logs.ptr).disjoint(line_blocks(log_entries(m, logs)))
    }
}

/// Every block of a log array.
pub open spec fn log_blocks(m: Memory, logs: LogArray) -> Set<usize> {
    at(logs.ptr).union(line_blocks(log_entries(m, logs)))
}

/// A log array stays what it is while memory grows.
pub proof fn lemma_logs_kept(
    before: Memory,
    after: Memory,
    added: Set<usize>,
    logs: LogArray,
    lines: Seq<Seq<char>>,
)
    requires
        grows(before, after, added),
        logs_at(before, logs, lines),
    ensures
        logs_at(after, logs, lines),
        log_blocks(after, logs) == log_blocks(before, logs),
{
    assert(log_entries(after, logs) == log_entries(before, logs));
    let entries = log_entries(before, logs);
    assert forall|i: int| 0 <= i < entries.len() implies bytes_at(
        after,
        (#[trigger] entries[i]).ptr,
        entries[i].len,
        encode_utf8(lines[i]),
    ) by {
        assert(bytes_at(before, entries[i].ptr, entries[i].len, encode_utf8(lines[i])));
    }
}

/// Hands `logs` over as an array of buffers.
pub fn logs_to_logarray(heap: &mut Heap, logs: Vec<String>) -> (r: LogArray)
    ensures
        logs_at(final(heap)@, r, texts(logs@)),
        grows(old(heap)@, final(heap)@, log_blocks(final(heap)@, r)),
{
    let len: usize = logs.len();
    if len == 0 {
        let r = LogArray { ptr: Pointer::Null, len: 0 };
        assert(log_blocks(heap@, r) =~= Set::empty());
        return r;
    }
    let ghost lines = texts(logs@);
    let mut reprs: Vec<LogRepr> = Vec::new();
    assert(line_blocks(reprs@) =~= Set::empty());
    for s in it: logs
        invariant
            it.seq() == logs@,
            lines == texts(logs@),
            reprs@.len() == it.index(),
            lines_at(heap@, reprs@, lines.take(it.index() as int)),
            grows(old(heap)@, heap@, line_blocks(reprs@)),
    {
        let ghost before = heap@;
        let ghost done = reprs@;
        let (ptr, len) = string_to_leaked_bytes(heap, s);
        reprs.push(LogRepr { ptr, len });
        proof {
            lemma_grows_twice(old(heap)@, before, heap@, line_blocks(done), at(ptr));
            assert(line_blocks(reprs@) =~= line_blocks(done).union(at(ptr))) by {
                assert(reprs@[done.len() as int].ptr == ptr);
                assert forall|k: usize| line_blocks(done).contains(k) implies line_blocks(
                    reprs@,
                ).contains(k) by {
                    let i = choose|i: int|
                        0 <= i < done.len() && at(#[trigger] done[i].ptr).contains(k);
                    assert(reprs@[i].ptr == done[i].ptr);
                }
            }
        }
    }
    assert(lines.take(len as int) =~= lines);
    let ghost before = heap@;
    let ghost entries = reprs@;
    let ptr = heap.place(Block::Logs(reprs));
    let r = LogArray { ptr, len };
    proof {
        lemma_grows_twice(old(heap)@, before, heap@, line_blocks(entries), at(ptr));
        assert(log_blocks(heap@, r) =~= line_blocks(entries).union(at(ptr)));
    }
    r
}

} // verus!
