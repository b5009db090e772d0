//! Arrays of addresses that the other side passes in, and gives up.
use crate::heap::{Block, BlockView, Heap, Memory, Pointer};
use crate::repr::{Pubkey, PubkeyArray};
use vstd::prelude::*;

verus! {

/// An array with nothing to read: null, or of length 0.
pub open spec fn no_keys(array: PubkeyArray) -> bool {
    array.ptr is Null || array.len == 0
}

/// The entries of a live array of addresses of the given length.
pub open spec fn keys_at(m: Memory, array: PubkeyArray) -> bool {
    &&& array.ptr matches Pointer::To(a)
    &&& m.contains_key(a)
    &&& m[a] matches BlockView::Pubkeys(keys)
    &&& keys.len() == array.len
}

/// The addresses in `array`, in order.
pub open spec fn keys_of(m: Memory, array: PubkeyArray) -> Seq<Pubkey> {
    if no_keys(array) {
        Seq::empty()
    } else {
        let keys = m[array.ptr->To_0]->Pubkeys_0;
        Seq::new(keys.len(), |i: int| Pubkey { bytes: keys[i].bytes })
    }
}

/// Memory after [`free_pubkey_array`].
pub open spec fn without_keys(m: Memory, array: PubkeyArray) -> Memory {
    if no_keys(array) {
        m
    } else {
        m.remove(array.ptr->To_0)
    }
}

/// Frees `array`. Null, and an array of length 0, is left alone.
pub fn free_pubkey_array(heap: &mut Heap, array: PubkeyArray)
    requires
        !no_keys(array) ==> keys_at(old(heap)@, array),
    ensures
        final(heap)@ == without_keys(old(heap)@, array),
{
    if array.ptr.is_null() || array.len == 0 {
        return;
    }
    if let Pointer::To(a) = array.ptr {
        heap.take(a);
    }
}

/// Reads the addresses out of `array` and frees it.
pub fn ffi_to_vec_pubkey(heap: &mut Heap, array: PubkeyArray) -> (pks: Vec<Pubkey>)
    requires
        !no_keys(array) ==> keys_at(old(heap)@, array),
    ensures
        pks@ == keys_of(old(heap)@, array),
        array.ptr is Null || array.len == 0 ==> pks@.len() == 0,
        array.ptr !is Null && array.len > 0 ==> {
            let keys = old(heap)@[array.ptr->To_0]->Pubkeys_0;
            &&& pks@.len() == array.len
            &&& keys.len() == array.len
            &&& forall|i: int| 0 <= i < keys.len() ==> (#[trigger] pks@[i]).bytes == keys[i].bytes
        },
        final(heap)@ == without_keys(old(heap)@, array),
{
    if array.ptr.is_null() || array.len == 0 {
        return Vec::new();
    }
    let mut pks: Vec<Pubkey> = Vec::new();
    if let Pointer::To(a) = array.ptr {
        if let Block::Pubkeys(reprs) = heap.get(a) {
            let n: usize = reprs.len();
            for i in 0..n
                invariant
                    n == reprs@.len(),
                    pks@.len() == i,
                    forall|j: int|
                        0 <= j < i ==> #[trigger] pks@[j] == (Pubkey { bytes: reprs@[j].bytes }),
            {
                pks.push(Pubkey::new_from_array(reprs[i].bytes));
            }
        }
    }
    assert(pks@ =~= keys_of(heap@, array));
    free_pubkey_array(heap, array);
    pks
}

} // verus!
