//! What the functions promise, said of memory, of fields and of bytes alone.
use crate::accounts::{account_at, account_blocks, is_account, repr_at, without_account};
use crate::bytes::{line_blocks, log_blocks, logs_at, without_bytes, without_c_str};
use crate::codec::encodable;
use crate::heap::{Block, BlockView, Memory, Pointer};
use crate::memory::{at, bytes_at, c_str_at, grows, is_buffer, is_c_str, texts, vector_at};
use crate::posts::{account_views, box_blocks, data_blocks, post_entries, posts_boxed, reprs_at};
use crate::pubkeys::{keys_at, keys_of, no_keys, without_keys};
use crate::registry::{load_order, register_symbol, Callback};
use crate::repr::{AccountCRepr, LogArray, PostAccountArray, Pubkey, PubkeyArray};
use crate::service::{panic_text, ErrorReport, PanicPayload};
use crate::simulate::{failure_text, no_data, readable, request, Failure, Version};
use crate::transaction::{
    same_but_blockhash, CompiledInstruction, MessageAddressTableLookup, TransactionView,
    VersionedTransaction,
};
use crate::values::{AccountC, AccountSharedData, InnerInstruction, SimulateRes, SimulateResView};
use vstd::prelude::*;
use vstd::utf8::{decode_utf8, encode_utf8, valid_utf8};

verus! {

/// The view of an account has its fields.
pub proof fn law_account_view(a: AccountSharedData)
    ensures
        a@.lamports == a.lamports,
        a@.data == a.data@,
        a@.owner == a.owner,
        a@.executable == a.executable,
        a@.rent_epoch == a.rent_epoch,
{
}

/// The view of an account that is encoded has its fields.
pub proof fn law_account_c_view(a: AccountC)
    ensures
        a@.lamports == a.lamports,
        a@.data == a.data@,
        a@.owner == a.owner,
        a@.executable == a.executable,
        a@.rent_epoch == a.rent_epoch,
{
}

/// The view of an invoked instruction has its fields.
pub proof fn law_instruction_view(x: InnerInstruction)
    ensures
        x@.program_id_index == x.program_id_index,
        x@.accounts == x.accounts@,
        x@.data == x.data@,
        x@.stack_height == x.stack_height,
{
}

/// The view of what is encoded has its fields: the lines, the units, each account
/// under its address and each invoked instruction, all at their places.
pub proof fn law_simulate_res_view(r: SimulateRes)
    ensures
        r@.units_consumed == r.units_consumed,
        r@.logs.len() == r.logs@.len(),
        forall|i: int| 0 <= i < r.logs@.len() ==> #[trigger] r@.logs[i] == r.logs@[i]@,
        r@.post_accounts is Some <==> r.post_accounts is Some,
        r.post_accounts matches Some(list) ==> r@.post_accounts->0.len() == list@.len(),
        r.post_accounts matches Some(list) ==> forall|i: int|
            0 <= i < list@.len() ==> {
                let (key, a) = #[trigger] r@.post_accounts->0[i];
                &&& key == list@[i].0
                &&& a.lamports == list@[i].1.lamports
                &&& a.data == list@[i].1.data@
                &&& a.owner == list@[i].1.owner
                &&& a.executable == list@[i].1.executable
                &&& a.rent_epoch == list@[i].1.rent_epoch
            },
        r@.inner_instructions is Some <==> r.inner_instructions is Some,
        r.inner_instructions matches Some(lists) ==> r@.inner_instructions->0.len()
            == lists@.len(),
        r.inner_instructions matches Some(lists) ==> forall|i: int|
            0 <= i < lists@.len() ==> (#[trigger] r@.inner_instructions->0[i]).len()
                == lists@[i]@.len(),
        r.inner_instructions matches Some(lists) ==> forall|i: int, j: int|
            0 <= i < lists@.len() && 0 <= j < lists@[i]@.len() ==> {
                let x = #[trigger] r@.inner_instructions->0[i][j];
                &&& x.program_id_index == lists@[i]@[j].program_id_index
                &&& x.accounts == lists@[i]@[j].accounts@
                &&& x.data == lists@[i]@[j].data@
                &&& x.stack_height == lists@[i]@[j].stack_height
            },
{
}

/// The view of an instruction has its fields, and so has that of a table lookup.
pub proof fn law_message_parts_view(x: CompiledInstruction, l: MessageAddressTableLookup)
    ensures
        x@.program_id_index == x.program_id_index,
        x@.accounts == x.accounts@,
        x@.data == x.data@,
        l@.account_key == l.account_key,
        l@.writable_indexes == l.writable_indexes@,
        l@.readonly_indexes == l.readonly_indexes@,
{
}

/// The view of a transaction has its fields.
pub proof fn law_transaction_view(t: VersionedTransaction)
    ensures
        t@.signatures == t.signatures@,
        t@.message.header == t.message.header,
        t@.message.account_keys == t.message.account_keys@,
        t@.message.recent_blockhash == t.message.recent_blockhash,
        t@.message.instructions.len() == t.message.instructions@.len(),
        forall|i: int|
            0 <= i < t.message.instructions@.len() ==> {
                let x = #[trigger] t@.message.instructions[i];
                let own = t.message.instructions@[i];
                &&& x.program_id_index == own.program_id_index
                &&& x.accounts == own.accounts@
                &&& x.data == own.data@
            },
        t@.message.address_table_lookups is Some <==> t.message.address_table_lookups is Some,
        t.message.address_table_lookups matches Some(list)
            ==> t@.message.address_table_lookups->0.len() == list@.len(),
        t.message.address_table_lookups matches Some(list) ==> forall|i: int|
            0 <= i < list@.len() ==> {
                let x = #[trigger] t@.message.address_table_lookups->0[i];
                &&& x.account_key == list@[i].account_key
                &&& x.writable_indexes == list@[i].writable_indexes@
                &&& x.readonly_indexes == list@[i].readonly_indexes@
            },
{
}

/// Two transactions are the same but for the blockhash exactly where all other
/// fields are the same.
pub proof fn law_same_but_blockhash(a: TransactionView, b: TransactionView)
    ensures
        same_but_blockhash(a, b) <==> a.signatures == b.signatures && a.message.header
            == b.message.header && a.message.account_keys == b.message.account_keys
            && a.message.instructions == b.message.instructions && a.message.address_table_lookups
            == b.message.address_table_lookups,
{
}

/// The view of a block has what the block has.
pub proof fn law_block_view(b: Block)
    ensures
        match b {
            Block::Bytes(v) => b@ == BlockView::Bytes(v@) && b@.bytes() == Some(v@),
            Block::Vector { bytes, capacity } => b@ == (BlockView::Vector {
                bytes: bytes@,
                capacity,
            }) && b@.bytes() == Some(bytes@),
            Block::CStr(v) => b@ == BlockView::CStr(v@) && b@.bytes() == Some(v@),
            Block::Account(c) => b@ == BlockView::Account(c) && b@.bytes() is None,
            Block::Pubkeys(v) => b@ == BlockView::Pubkeys(v@) && b@.bytes() is None,
            Block::Accounts(v) => b@ == BlockView::Accounts(v@) && b@.bytes() is None,
            Block::Logs(v) => b@ == BlockView::Logs(v@) && b@.bytes() is None,
            Block::PostAccounts(v) => b@ == BlockView::PostAccounts(v@) && b@.bytes() is None,
        },
{
}

/// A buffer that is handed over is one new block with exactly its bytes, or no
/// block at all where it is empty.
pub proof fn law_buffer_handed_over(
    before: Memory,
    after: Memory,
    p: Pointer,
    len: usize,
    bytes: Seq<u8>,
)
    requires
        bytes_at(after, p, len, bytes),
        grows(before, after, at(p)),
    ensures
        len == bytes.len(),
        len == 0 ==> p is Dangling && after == before,
        len > 0 ==> {
            &&& p matches Pointer::To(a)
            &&& !before.contains_key(a)
            &&& after == before.insert(a, BlockView::Bytes(bytes))
        },
{
    if let Pointer::To(a) = p {
        assert(after =~= before.insert(a, after[a]));
    } else {
        assert(after =~= before);
    }
}

/// A vector that is handed over in its own allocation is one new block with
/// exactly its bytes and that capacity, or no block where it has no capacity.
pub proof fn law_vector_handed_over(
    before: Memory,
    after: Memory,
    p: Pointer,
    len: usize,
    bytes: Seq<u8>,
    capacity: usize,
)
    requires
        len <= capacity,
        vector_at(after, p, len, bytes, capacity),
        grows(before, after, at(p)),
    ensures
        len == bytes.len(),
        capacity == 0 ==> p is Dangling && after == before,
        capacity > 0 ==> {
            &&& p matches Pointer::To(a)
            &&& !before.contains_key(a)
            &&& after == before.insert(
                a,
                if capacity == len {
                    BlockView::Bytes(bytes)
                } else {
                    BlockView::Vector { bytes, capacity }
                },
            )
        },
{
    if let Pointer::To(a) = p {
        assert(after =~= before.insert(a, after[a]));
    } else {
        assert(after =~= before);
    }
}

/// A C string that is handed over is one new block with the UTF-8 bytes of the
/// text and a zero behind them.
pub proof fn law_c_str_handed_over(before: Memory, after: Memory, p: Pointer, text: Seq<char>)
    requires
        c_str_at(after, p, text),
        grows(before, after, at(p)),
    ensures
        p matches Pointer::To(a) && !before.contains_key(a) && after == before.insert(
            a,
            BlockView::CStr(encode_utf8(text).push(0)),
        ),
{
    assert(after =~= before.insert(p->To_0, after[p->To_0]));
}

/// A buffer can be freed exactly where the pointer is that of a live buffer of
/// that length. Freeing it removes that block and nothing else.
pub proof fn law_free_bytes(m: Memory, p: Pointer, len: usize)
    ensures
        is_buffer(m, p, len) <==> {
            &&& p matches Pointer::To(a)
            &&& m.contains_key(a)
            &&& m[a] matches BlockView::Bytes(bytes)
            &&& bytes.len() == len
        },
        len > 0 ==> (p matches Pointer::To(a) ==> without_bytes(m, p, len) == m.remove(a)),
        len == 0 || p !is To ==> without_bytes(m, p, len) == m,
{
}

/// A message can be freed exactly where the pointer is that of a live C string.
/// Freeing it removes that block and nothing else.
pub proof fn law_free_c_str(m: Memory, p: Pointer)
    ensures
        is_c_str(m, p) <==> {
            &&& p matches Pointer::To(a)
            &&& m.contains_key(a)
            &&& m[a] matches BlockView::CStr(_)
        },
        p matches Pointer::To(a) ==> without_c_str(m, p) == m.remove(a),
        p !is To ==> without_c_str(m, p) == m,
{
}

/// An account can be freed where its data, unless null or empty, is a live buffer
/// of its length. Freeing it removes the account and that buffer, and nothing else.
pub proof fn law_free_account(m: Memory, a: usize, c: AccountCRepr)
    requires
        m.contains_key(a),
        m[a] == BlockView::Account(c),
    ensures
        c.data_ptr is Null || c.data_len == 0 ==> is_account(m, Pointer::To(a)) && without_account(
            m,
            Pointer::To(a),
        ) == m.remove(a),
        c.data_ptr is Dangling && c.data_len > 0 ==> !is_account(m, Pointer::To(a)),
        c.data_len > 0 ==> (c.data_ptr matches Pointer::To(d) ==> {
            &&& is_account(m, Pointer::To(a)) <==> {
                &&& m.contains_key(d)
                &&& m[d] matches BlockView::Bytes(bytes)
                &&& bytes.len() == c.data_len
            }
            &&& without_account(m, Pointer::To(a)) == m.remove(a).remove(d)
        }),
{
}

/// The addresses read out of a live array are those in it, byte for byte and in
/// order, and reading them frees that block and nothing else. Null, and an array
/// of length 0, has none and is left alone.
pub proof fn law_keys_read(m: Memory, array: PubkeyArray)
    ensures
        no_keys(array) <==> array.ptr is Null || array.len == 0,
        array.ptr is Null || array.len == 0 ==> keys_of(m, array).len() == 0 && without_keys(
            m,
            array,
        ) == m,
        keys_at(m, array) <==> {
            &&& array.ptr matches Pointer::To(a)
            &&& m.contains_key(a)
            &&& m[a] matches BlockView::Pubkeys(keys)
            &&& keys.len() == array.len
        },
        array.len > 0 ==> (array.ptr matches Pointer::To(a) ==> without_keys(m, array) == m.remove(
            a,
        )),
        array.len > 0 ==> (array.ptr matches Pointer::To(a) ==> (
        m[a] matches BlockView::Pubkeys(keys) ==> {
            &&& keys_of(m, array).len() == keys.len()
            &&& forall|i: int|
                0 <= i < keys.len() ==> (#[trigger] keys_of(m, array)[i]).bytes == keys[i].bytes
        })),
{
}

/// What a log array is: as many entries as lines, each the UTF-8 bytes of the line
/// at its place in a new block of its own; an empty line takes no block, no lines
/// at all are null.
pub proof fn law_line_handed_over(
    before: Memory,
    after: Memory,
    r: LogArray,
    logs: Vec<String>,
    i: int,
)
    requires
        logs_at(after, r, texts(logs@)),
        grows(before, after, log_blocks(after, r)),
    ensures
        r.len == logs@.len(),
        logs@.len() == 0 ==> r.ptr is Null && after == before,
        logs@.len() > 0 ==> {
            &&& r.ptr matches Pointer::To(p)
            &&& !before.contains_key(p)
            &&& after.contains_key(p)
            &&& after[p] matches BlockView::Logs(lines)
            &&& lines.len() == logs@.len()
            &&& forall|k: usize| #[trigger]
                after.contains_key(k) && !before.contains_key(k) && k != p ==> exists|j: int|
                    0 <= j < lines.len() && (#[trigger] lines[j]).ptr == Pointer::To(k)
            &&& 0 <= i < logs@.len() ==> {
                let bytes = encode_utf8(logs@[i]@);
                &&& lines[i].len == bytes.len()
                &&& bytes.len() == 0 ==> lines[i].ptr is Dangling
                &&& bytes.len() > 0 ==> {
                    &&& lines[i].ptr matches Pointer::To(a)
                    &&& a != p
                    &&& !before.contains_key(a)
                    &&& after.contains_key(a)
                    &&& after[a] == BlockView::Bytes(bytes)
                    &&& forall|j: int|
                        0 <= j < lines.len() && j != i ==> (#[trigger] lines[j]).ptr
                            != Pointer::To(a)
                }
            }
        },
        forall|k: usize| #[trigger] before.contains_key(k) ==> after.contains_key(k) && after[k]
            == before[k],
{
    if logs@.len() == 0 {
        assert(after =~= before);
    } else {
        let p = r.ptr->To_0;
        assert(at(r.ptr).contains(p));
        assert(log_blocks(after, r).contains(p));
        let lines = after[p]->Logs_0;
        assert forall|k: usize| #[trigger]
            after.contains_key(k) && !before.contains_key(k) && k != p implies exists|j: int|
            0 <= j < lines.len() && (#[trigger] lines[j]).ptr == Pointer::To(k) by {
            assert(line_blocks(lines).contains(k));
            let j = choose|j: int| 0 <= j < lines.len() && at(#[trigger] lines[j].ptr).contains(k);
            assert(lines[j].ptr == Pointer::To(k));
        }
        if 0 <= i < logs@.len() {
            assert(texts(logs@)[i] == logs@[i]@);
            assert(bytes_at(after, lines[i].ptr, lines[i].len, encode_utf8(logs@[i]@)));
            if let Pointer::To(a) = lines[i].ptr {
                assert(at(lines[i].ptr).contains(a));
                assert(line_blocks(lines).contains(a));
                assert(log_blocks(after, r).contains(a));
                assert forall|j: int| 0 <= j < lines.len() && j != i implies (
                #[trigger] lines[j]).ptr != Pointer::To(a) by {
                    if j < i {
                        assert(at(lines[j].ptr).disjoint(at(lines[i].ptr)));
                    } else {
                        assert(at(lines[i].ptr).disjoint(at(lines[j].ptr)));
                    }
                }
            }
        }
    }
}

/// An account that is described has its own fields, 1 or 0 for whether it is
/// executable, and its data in a new block of its own, unless empty.
pub proof fn law_account_described(
    before: Memory,
    after: Memory,
    c: AccountCRepr,
    a: AccountSharedData,
)
    requires
        repr_at(after, c, a@),
        grows(before, after, at(c.data_ptr)),
    ensures
        c.lamports == a.lamports,
        c.owner == a.owner.bytes,
        a.executable ==> c.executable == 1,
        !a.executable ==> c.executable == 0,
        c.rent_epoch == a.rent_epoch,
        c.data_len == a.data@.len(),
        a.data@.len() == 0 ==> c.data_ptr is Dangling && after == before,
        a.data@.len() > 0 ==> {
            &&& c.data_ptr matches Pointer::To(d)
            &&& !before.contains_key(d)
            &&& after == before.insert(d, BlockView::Bytes(a.data@))
        },
{
    law_buffer_handed_over(before, after, c.data_ptr, c.data_len, a.data@);
}

/// An account that is handed over is a new block with its own fields, 1 or 0 for
/// whether it is executable, and its data in another new block, unless empty.
pub proof fn law_account_handed_over(
    before: Memory,
    after: Memory,
    p: Pointer,
    a: AccountSharedData,
)
    requires
        account_at(after, p, a@),
        grows(before, after, account_blocks(after, p)),
    ensures
        ({
            &&& p matches Pointer::To(q)
            &&& !before.contains_key(q)
            &&& after.contains_key(q)
            &&& after[q] matches BlockView::Account(c)
            &&& c.lamports == a.lamports
            &&& c.owner == a.owner.bytes
            &&& a.executable ==> c.executable == 1
            &&& !a.executable ==> c.executable == 0
            &&& c.rent_epoch == a.rent_epoch
            &&& c.data_len == a.data@.len()
            &&& a.data@.len() == 0 ==> c.data_ptr is Dangling && after == before.insert(
                q,
                BlockView::Account(c),
            )
            &&& a.data@.len() > 0 ==> {
                &&& c.data_ptr matches Pointer::To(d)
                &&& d != q
                &&& !before.contains_key(d)
                &&& after == before.insert(d, BlockView::Bytes(a.data@)).insert(
                    q,
                    BlockView::Account(c),
                )
            }
        }),
{
    let q = p->To_0;
    let c = after[q]->Account_0;
    assert(account_blocks(after, p).contains(q));
    if let Pointer::To(d) = c.data_ptr {
        assert(account_blocks(after, p).contains(d));
        assert(after =~= before.insert(d, after[d]).insert(q, after[q]));
    } else {
        assert(after =~= before.insert(q, after[q]));
    }
}

/// Accounts that are described stay under their own addresses, in order, each
/// with its own fields and its data in a new block of its own, unless empty.
pub proof fn law_accounts_described(
    before: Memory,
    after: Memory,
    reprs: Seq<(Pubkey, AccountCRepr)>,
    accounts: Vec<(Pubkey, AccountSharedData)>,
    i: int,
)
    requires
        reprs_at(after, reprs, account_views(accounts@)),
        grows(before, after, data_blocks(reprs)),
    ensures
        reprs.len() == accounts@.len(),
        0 <= i < accounts@.len() ==> {
            let (key, a) = accounts@[i];
            let c = reprs[i].1;
            &&& reprs[i].0 == key
            &&& c.lamports == a.lamports
            &&& c.owner == a.owner.bytes
            &&& a.executable ==> c.executable == 1
            &&& !a.executable ==> c.executable == 0
            &&& c.rent_epoch == a.rent_epoch
            &&& c.data_len == a.data@.len()
            &&& a.data@.len() == 0 ==> c.data_ptr is Dangling
            &&& a.data@.len() > 0 ==> {
                &&& c.data_ptr matches Pointer::To(d)
                &&& !before.contains_key(d)
                &&& after.contains_key(d)
                &&& after[d] == BlockView::Bytes(a.data@)
                &&& forall|j: int|
                    0 <= j < reprs.len() && j != i ==> (#[trigger] reprs[j]).1.data_ptr
                        != Pointer::To(d)
            }
        },
        forall|k: usize| #[trigger]
            after.contains_key(k) && !before.contains_key(k) ==> exists|j: int|
                0 <= j < reprs.len() && (#[trigger] reprs[j]).1.data_ptr == Pointer::To(k),
        forall|k: usize| #[trigger] before.contains_key(k) ==> after.contains_key(k) && after[k]
            == before[k],
{
    assert forall|k: usize| #[trigger]
        after.contains_key(k) && !before.contains_key(k) implies exists|j: int|
        0 <= j < reprs.len() && (#[trigger] reprs[j]).1.data_ptr == Pointer::To(k) by {
        assert(data_blocks(reprs).contains(k));
        let j = choose|j: int|
            0 <= j < reprs.len() && at((#[trigger] reprs[j]).1.data_ptr).contains(k);
        assert(reprs[j].1.data_ptr == Pointer::To(k));
    }
    if 0 <= i < accounts@.len() {
        assert(account_views(accounts@)[i] == (accounts@[i].0, accounts@[i].1@));
        assert(reprs[i].0 == accounts@[i].0);
        if let Pointer::To(d) = reprs[i].1.data_ptr {
            assert(at(reprs[i].1.data_ptr).contains(d));
            assert(data_blocks(reprs).contains(d));
            assert forall|j: int| 0 <= j < reprs.len() && j != i implies (
            #[trigger] reprs[j]).1.data_ptr != Pointer::To(d) by {
                if j < i {
                    assert(at(reprs[j].1.data_ptr).disjoint(at(reprs[i].1.data_ptr)));
                } else {
                    assert(at(reprs[i].1.data_ptr).disjoint(at(reprs[j].1.data_ptr)));
                }
            }
        }
    }
}

/// Described accounts in an array: as many entries, each with its own address and
/// a new block of its own with its own description. No list at all is null, an
/// empty list is not.
pub proof fn law_accounts_boxed(
    before: Memory,
    after: Memory,
    post_vec: Option<Vec<(Pubkey, AccountCRepr)>>,
    r: PostAccountArray,
    i: int,
)
    requires
        posts_boxed(before, after, post_vec, r),
    ensures
        post_vec is None ==> r.ptr is Null && r.len == 0 && after == before,
        post_vec matches Some(list) ==> {
            &&& r.len == list@.len()
            &&& list@.len() == 0 ==> r.ptr is Dangling && after == before
            &&& list@.len() > 0 ==> {
                &&& r.ptr matches Pointer::To(p)
                &&& !before.contains_key(p)
                &&& after.contains_key(p)
                &&& after[p] matches BlockView::PostAccounts(entries)
                &&& entries.len() == list@.len()
                &&& forall|k: usize| #[trigger]
                    after.contains_key(k) && !before.contains_key(k) && k != p ==> exists|j: int|
                        0 <= j < entries.len() && (#[trigger] entries[j]).account == Pointer::To(k)
                &&& 0 <= i < list@.len() ==> {
                    &&& entries[i].pubkey == list@[i].0.bytes
                    &&& entries[i].account matches Pointer::To(q)
                    &&& q != p
                    &&& !before.contains_key(q)
                    &&& after.contains_key(q)
                    &&& after[q] == BlockView::Account(list@[i].1)
                    &&& forall|j: int|
                        0 <= j < entries.len() && j != i ==> (#[trigger] entries[j]).account
                            != Pointer::To(q)
                }
            }
        },
        forall|k: usize| #[trigger] before.contains_key(k) ==> after.contains_key(k) && after[k]
            == before[k],
{
    if let Some(list) = post_vec {
        if list@.len() > 0 {
            let p = r.ptr->To_0;
            let entries = post_entries(after, r);
            let added = at(r.ptr).union(box_blocks(entries));
            assert(added.contains(p));
            assert forall|k: usize| #[trigger]
                after.contains_key(k) && !before.contains_key(k) && k != p implies exists|j: int|
                0 <= j < entries.len() && (#[trigger] entries[j]).account == Pointer::To(k) by {
                assert(box_blocks(entries).contains(k));
                let j = choose|j: int|
                    0 <= j < entries.len() && at((#[trigger] entries[j]).account).contains(k);
                assert(entries[j].account == Pointer::To(k));
            }
            if 0 <= i < list@.len() {
                assert(entries[i].pubkey == list@[i].0.bytes);
                let q = entries[i].account->To_0;
                assert(at(entries[i].account).contains(q));
                assert(box_blocks(entries).contains(q));
                assert(added.contains(q));
            }
        }
    }
}

/// What a request reads: nothing where the pointer is null or the length 0, else
/// the first bytes of a live block of bytes, as text if they are UTF-8.
pub proof fn law_request_read(m: Memory, data: Pointer, len: usize, a: usize, bytes: Seq<u8>)
    ensures
        no_data(data, len) <==> data is Null || len == 0,
        data is Null || len == 0 ==> request(m, data, len) == Err::<Seq<char>, Failure>(
            Failure::NoData,
        ),
        readable(m, data, len) ==> data is To,
        readable(m, Pointer::To(a), len) <==> {
            &&& m.contains_key(a)
            &&& match m[a] {
                BlockView::Bytes(b) => len <= b.len(),
                BlockView::Vector { bytes: b, .. } => len <= b.len(),
                BlockView::CStr(b) => len <= b.len(),
                _ => false,
            }
        },
        len > 0 && match m[a] {
            BlockView::Bytes(b) => b == bytes,
            BlockView::Vector { bytes: b, .. } => b == bytes,
            BlockView::CStr(b) => b == bytes,
            _ => false,
        } ==> request(m, Pointer::To(a), len) == if valid_utf8(bytes.take(len as int)) {
            Ok::<Seq<char>, Failure>(decode_utf8(bytes.take(len as int)))
        } else {
            Err::<Seq<char>, Failure>(Failure::NotUtf8)
        },
{
}

/// The error texts. What the service says comes last, as it prints for developers.
pub proof fn law_failure_texts(e: ErrorReport)
    ensures
        failure_text(Version::V1, Failure::NoData)
            == "simulate_transaction: data is null or empty"@,
        failure_text(Version::V1, Failure::NotUtf8)
            == "simulate_transaction: invalid UTF-8 in data"@,
        failure_text(Version::V1, Failure::Decode(e)) == "decode_and_deserialize error: "@
            + e.debug@,
        failure_text(Version::V1, Failure::NotInitialized)
            == "simulate_transaction JRP not initialized"@,
        failure_text(Version::V1, Failure::Bank(e))
            == "simulate_transaction jrp.get_bank_with_config: "@ + e.debug@,
        failure_text(Version::V1, Failure::Sanitize(e)) == "sanitize_transaction error: "@
            + e.debug@,
        failure_text(Version::V1, Failure::Panicked) == "simulate_transaction panic: Any { .. }"@,
        failure_text(Version::V2, Failure::NoData)
            == "simulate_transaction_v2: data is null or empty"@,
        failure_text(Version::V2, Failure::NotUtf8)
            == "simulate_transaction_v2: invalid UTF-8 in data"@,
        failure_text(Version::V2, Failure::Decode(e))
            == "simulate_transaction_v2 decode_and_deserialize error: "@ + e.debug@,
        failure_text(Version::V2, Failure::NotInitialized)
            == "simulate_transaction_v2 JRP not initialized"@,
        failure_text(Version::V2, Failure::Bank(e))
            == "simulate_transaction_v2 jrp.get_bank_with_config: "@ + e.debug@,
        failure_text(Version::V2, Failure::Sanitize(e)) == "simulate_transaction_v2 error: "@
            + e.debug@,
        failure_text(Version::V2, Failure::Panicked)
            == "simulate_transaction_v2 panic: Any { .. }"@,
{
}

/// The message of a panic is the literal it carried, else the formatted message,
/// else a fixed text.
pub proof fn law_panic_text(payload: PanicPayload)
    ensures
        payload.as_str matches Some(s) ==> panic_text(payload) == s@,
        payload.as_str is None ==> (payload.as_string matches Some(s) ==> panic_text(payload)
            == s@),
        payload.as_str is None && payload.as_string is None ==> panic_text(payload)
            == "Unknown panic occurred"@,
{
}

/// An outcome has an encoding exactly where no invoked instruction has more than
/// 65535 accounts or bytes of data.
pub proof fn law_encodable(res: SimulateResView)
    ensures
        res.inner_instructions is None ==> encodable(res),
        res.inner_instructions matches Some(lists) ==> (encodable(res) <==> forall|i: int, j: int|
            0 <= i < lists.len() && 0 <= j < lists[i].len() ==> (
            #[trigger] lists[i][j]).accounts.len() <= 65535 && lists[i][j].data.len() <= 65535),
{
}

/// A plugin is told about every callback once, in this order, each by the function
/// that is named after it.
pub proof fn law_load_order()
    ensures
        load_order().len() == 7,
        load_order()[0] is GetAccount,
        load_order()[1] is GetMultipleAccount,
        load_order()[2] is SimulateTransaction,
        load_order()[3] is GetLatestBlockhash,
        load_order()[4] is FreeAccount,
        load_order()[5] is FreeErrMsg,
        load_order()[6] is SimulateTransactionV2,
        register_symbol(Callback::GetAccount) == "register_get_account"@,
        register_symbol(Callback::GetMultipleAccount) == "register_get_multiple_account"@,
        register_symbol(Callback::SimulateTransaction) == "register_simulate_transaction"@,
        register_symbol(Callback::GetLatestBlockhash) == "register_get_latest_blockhash"@,
        register_symbol(Callback::FreeAccount) == "register_free_account"@,
        register_symbol(Callback::FreeErrMsg) == "register_free_err_msg"@,
        register_symbol(Callback::SimulateTransactionV2) == "register_simulate_transaction_v2"@,
{
}

} // verus!
