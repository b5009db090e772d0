//! Accounts in memory.
use crate::bytes::{boxed_to_leaked_bytes, free_leaked_bytes, without_bytes};
use crate::heap::{Block, Heap, Memory, Pointer};
use crate::memory::{at, bytes_at, grows, is_buffer, lemma_grows_twice};
use crate::repr::AccountCRepr;
use crate::values::{AccountSharedData, AccountView};
use vstd::prelude::*;

verus! {

/// `c` reads as the account `v`.
pub open spec fn repr_at(m: Memory, c: AccountCRepr, v: AccountView) -> bool {
    &&& c.lamports == v.lamports
    &&& c.owner == v.owner.bytes
    &&& c.executable == if v.executable {
        1u8
    } else {
        0u8
    }
    &&& c.rent_epoch == v.rent_epoch
    &&& bytes_at(m, c.data_ptr, c.data_len, v.data)
}

/// The account structure behind `p`.
pub open spec fn account_behind(m: Memory, p: Pointer) -> Option<AccountCRepr> {
    match p {
        Pointer::To(a) if m.contains_key(a) && m[a] is Account => Some(m[a]->Account_0),
        _ => None,
    }
}

/// `p` points at the account `v`.
pub open spec fn account_at(m: Memory, p: Pointer, v: AccountView) -> bool {
    account_behind(m, p) matches Some(c) && repr_at(m, c, v)
}

/// The blocks of an account: the structure and its data.
pub open spec fn account_blocks(m: Memory, p: Pointer) -> Set<usize> {
    match account_behind(m, p) {
        Some(c) => at(p).union(at(c.data_ptr)),
        None => at(p),
    }
}

/// An account stays what it is while memory grows.
pub proof fn lemma_account_kept(
    before: Memory,
    after: Memory,
    added: Set<usize>,
    p: Pointer,
    v: AccountView,
)
    requires
        grows(before, after, added),
        account_at(before, p, v),
    ensures
        account_at(after, p, v),
        account_blocks(after, p) == account_blocks(before, p),
        account_blocks(before, p).subset_of(before.dom()),
{
}

/// Hands the data of `a` over and describes it.
pub fn to_account_c_repr(heap: &mut Heap, a: AccountSharedData) -> (c: AccountCRepr)
    ensures
        repr_at(final(heap)@, c, a@),
        grows(old(heap)@, final(heap)@, at(c.data_ptr)),
        c.lamports == a.lamports,
        c.owner == a.owner.bytes,
        c.executable == if a.executable {
            1u8
        } else {
            0u8
        },
        c.rent_epoch == a.rent_epoch,
        c.data_len == a.data@.len(),
{
    let (data_ptr, data_len) = boxed_to_leaked_bytes(heap, a.data);
    AccountCRepr {
        lamports: a.lamports,
        data_ptr,
        data_len,
        owner: a.owner.to_bytes(),
        executable: if a.executable {
            1
        } else {
            0
        },
        rent_epoch: a.rent_epoch,
    }
}

/// Hands the account `a` over.
pub fn place_account(heap: &mut Heap, a: AccountSharedData) -> (p: Pointer)
    ensures
        account_at(final(heap)@, p, a@),
        grows(old(heap)@, final(heap)@, account_blocks(final(heap)@, p)),
{
    let c = to_account_c_repr(heap, a);
    let ghost mid = heap@;
    let p = heap.place(Block::Account(c));
    proof {
        lemma_grows_twice(old(heap)@, mid, heap@, at(c.data_ptr), at(p));
        assert(account_blocks(heap@, p) =~= at(c.data_ptr).union(at(p)));
    }
    p
}

/// `p` is an account that can be freed: its data, unless null or empty, is live.
pub open spec fn is_account(m: Memory, p: Pointer) -> bool {
    &&& account_behind(m, p) matches Some(c)
    &&& c.data_ptr !is Null && c.data_len > 0 ==> is_buffer(m, c.data_ptr, c.data_len)
}

/// Memory after [`free_account`].
pub open spec fn without_account(m: Memory, p: Pointer) -> Memory {
    match account_behind(m, p) {
        Some(c) => without_bytes(m.remove(p->To_0), c.data_ptr, c.data_len),
        None => m,
    }
}

/// Frees an account and its data. Null is left alone.
pub fn free_account(heap: &mut Heap, ptr: Pointer)
    requires
        ptr !is Null ==> is_account(old(heap)@, ptr),
    ensures
        final(heap)@ == without_account(old(heap)@, ptr),
{
    if ptr.is_null() {
        return;
    }
    if let Pointer::To(a) = ptr {
        if let Block::Account(account) = heap.take(a) {
            free_leaked_bytes(heap, account.data_ptr, account.data_len);
        }
    }
}

/// The blocks of several accounts.
pub open spec fn all_blocks(m: Memory, ptrs: Seq<Pointer>) -> Set<usize> {
    Set::new(
        |k: usize|
            exists|i: int|
                0 <= i < ptrs.len() && account_blocks(m, #[trigger] ptrs[i]).contains(k),
    )
}

/// Each pointer gives the account at its place, null where there is none, and
/// no two of them share a block.
pub open spec fn accounts_at(m: Memory, ptrs: Seq<Pointer>, vs: Seq<Option<AccountView>>) -> bool {
    &&& ptrs.len() == vs.len()
    &&& forall|i: int|
        0 <= i < vs.len() ==> match vs[i] {
            Some(v) => account_at(m, #[trigger] ptrs[i], v),
            None => ptrs[i] is Null,
        }
    &&& forall|i: int, j: int|
        0 <= i < j < ptrs.len() ==> account_blocks(m, #[trigger] ptrs[i]).disjoint(
            account_blocks(m, #[trigger] ptrs[j]),
        )
}

/// Accounts stay what they are while memory grows.
pub proof fn lemma_accounts_kept(
    before: Memory,
    after: Memory,
    added: Set<usize>,
    ptrs: Seq<Pointer>,
    vs: Seq<Option<AccountView>>,
)
    requires
        grows(before, after, added),
        accounts_at(before, ptrs, vs),
    ensures
        accounts_at(after, ptrs, vs),
        all_blocks(after, ptrs) == all_blocks(before, ptrs),
        all_blocks(before, ptrs).subset_of(before.dom()),
{
    assert forall|i: int| 0 <= i < ptrs.len() implies account_blocks(after, #[trigger] ptrs[i])
        == account_blocks(before, ptrs[i]) && account_blocks(before, ptrs[i]).subset_of(
        before.dom(),
    ) by {
        if let Some(v) = vs[i] {
            lemma_account_kept(before, after, added, ptrs[i], v);
        }
    }
    assert forall|i: int| 0 <= i < vs.len() implies match vs[i] {
        Some(v) => account_at(after, #[trigger] ptrs[i], v),
        None => ptrs[i] is Null,
    } by {
        if let Some(v) = vs[i] {
            lemma_account_kept(before, after, added, ptrs[i], v);
        }
    }
    assert(all_blocks(after, ptrs) =~= all_blocks(before, ptrs));
}

/// One more account, or null, behind the others.
pub proof fn lemma_accounts_push(
    start: Memory,
    before: Memory,
    after: Memory,
    ptrs: Seq<Pointer>,
    vs: Seq<Option<AccountView>>,
    p: Pointer,
    v: Option<AccountView>,
)
    requires
        grows(start, before, all_blocks(before, ptrs)),
        accounts_at(before, ptrs, vs),
        grows(before, after, account_blocks(after, p)),
        match v {
            Some(v) => account_at(after, p, v),
            None => p is Null,
        },
    ensures
        grows(start, after, all_blocks(after, ptrs.push(p))),
        accounts_at(after, ptrs.push(p), vs.push(v)),
{
    let added = account_blocks(after, p);
    lemma_accounts_kept(before, after, added, ptrs, vs);
    lemma_grows_twice(start, before, after, all_blocks(before, ptrs), added);
    let more = ptrs.push(p);
    assert forall|i: int| 0 <= i < ptrs.len() implies #[trigger] more[i] == ptrs[i]
        && account_blocks(after, ptrs[i]).subset_of(all_blocks(after, ptrs)) by {
        assert forall|k: usize| account_blocks(after, ptrs[i]).contains(k) implies all_blocks(
            after,
            ptrs,
        ).contains(k) by {}
    }
    assert(all_blocks(after, more) =~= all_blocks(after, ptrs).union(added)) by {
        assert(more[ptrs.len() as int] == p);
        assert forall|k: usize| all_blocks(after, ptrs).contains(k) implies all_blocks(
            after,
            more,
        ).contains(k) by {
            let i = choose|i: int|
                0 <= i < ptrs.len() && account_blocks(after, #[trigger] ptrs[i]).contains(k);
            assert(more[i] == ptrs[i]);
        }
    }
    assert forall|i: int, j: int| 0 <= i < j < more.len() implies account_blocks(
        after,
        #[trigger] more[i],
    ).disjoint(account_blocks(after, #[trigger] more[j])) by {
        assert(more[i] == ptrs[i]);
        if j < ptrs.len() {
            assert(more[j] == ptrs[j]);
        }
    }
    assert forall|i: int| 0 <= i < more.len() implies match vs.push(v)[i] {
        Some(v) => account_at(after, #[trigger] more[i], v),
        None => more[i] is Null,
    } by {
        if i < ptrs.len() {
            assert(more[i] == ptrs[i]);
            assert(vs.push(v)[i] == vs[i]);
        }
    }
}

} // verus!
