//! The accounts that a simulation left, in memory.
use crate::accounts::{
    account_at, account_behind, account_blocks, accounts_at, all_blocks, repr_at, to_account_c_repr,
};
use crate::heap::{Block, Heap, Memory, Pointer};
use crate::memory::{at, grows, lemma_grows_twice};
use crate::repr::{AccountCRepr, PostAccountArray, PostAccountRepr, Pubkey};
use crate::values::{AccountSharedData, AccountView};
use vstd::prelude::*;

verus! {

/// Addresses with what their accounts hold.
pub open spec fn account_views(accounts: Seq<(Pubkey, AccountSharedData)>) -> Seq<
    (Pubkey, AccountView),
> {
    Seq::new(accounts.len(), |i: int| (accounts[i].0, accounts[i].1@))
}

/// The data blocks of described accounts.
pub open spec fn data_blocks(reprs: Seq<(Pubkey, AccountCRepr)>) -> Set<usize> {
    Set::new(
        |k: usize|
            exists|i: int| 0 <= i < reprs.len() && at((#[trigger] reprs[i]).1.data_ptr).contains(k),
    )
}

/// Each description reads as the account at its place, with data of its own.
pub open spec fn reprs_at(
    m: Memory,
    reprs: Seq<(Pubkey, AccountCRepr)>,
    vs: Seq<(Pubkey, AccountView)>,
) -> bool {
    &&& reprs.len() == vs.len()
    &&& forall|i: int|
        0 <= i < vs.len() ==> (#[trigger] reprs[i]).0 == vs[i].0 && repr_at(
            m,
            reprs[i].1,
            vs[i].1,
        )
    &&& forall|i: int, j: int|
        0 <= i < j < reprs.len() ==> at((#[trigger] reprs[i]).1.data_ptr).disjoint(
            at((#[trigger] reprs[j]).1.data_ptr),
        )
}

/// Hands the data of every account over and describes it.
pub fn to_account_c_reprs(heap: &mut Heap, accounts: Vec<(Pubkey, AccountSharedData)>) -> (reprs:
    Vec<(Pubkey, AccountCRepr)>)
    ensures
        reprs_at(final(heap)@, reprs@, account_views(accounts@)),
        grows(old(heap)@, final(heap)@, data_blocks(reprs@)),
        reprs@.len() == accounts@.len(),
        forall|i: int| 0 <= i < reprs@.len() ==> (#[trigger] reprs@[i]).0 == accounts@[i].0,
{
    let ghost vs = account_views(accounts@);
    let ghost n = accounts@.len();
    let mut reprs: Vec<(Pubkey, AccountCRepr)> = Vec::new();
    assert(data_blocks(reprs@) =~= Set::empty());
    for entry in it: accounts
        invariant
            it.seq() == accounts@,
            vs == account_views(accounts@),
            reprs@.len() == it.index(),
            reprs_at(heap@, reprs@, vs.take(it.index() as int)),
            grows(old(heap)@, heap@, data_blocks(reprs@)),
    {
        let ghost before = heap@;
        let ghost done = reprs@;
        let (pk, account) = entry;
        let c = to_account_c_repr(heap, account);
        reprs.push((pk, c));
        proof {
            lemma_grows_twice(old(heap)@, before, heap@, data_blocks(done), at(c.data_ptr));
            assert(data_blocks(reprs@) =~= data_blocks(done).union(at(c.data_ptr))) by {
                assert(reprs@[done.len() as int].1 == c);
                assert forall|k: usize| data_blocks(done).contains(k) implies data_blocks(
                    reprs@,
                ).contains(k) by {
                    let i = choose|i: int|
                        0 <= i < done.len() && at((#[trigger] done[i]).1.data_ptr).contains(k);
                    assert(reprs@[i] == done[i]);
                }
            }
        }
    }
    assert(vs.take(n as int) =~= vs);
    reprs
}

/// The entries of an array of accounts.
pub open spec fn post_entries(m: Memory, posts: PostAccountArray) -> Seq<PostAccountRepr> {
    match posts.ptr {
        Pointer::To(a) if m.contains_key(a) && m[a] is PostAccounts => m[a]->PostAccounts_0,
        _ => Seq::empty(),
    }
}

/// The account pointers of the entries.
pub open spec fn account_ptrs(entries: Seq<PostAccountRepr>) -> Seq<Pointer> {
    Seq::new(entries.len(), |i: int| entries[i].account)
}

/// The blocks that the entries point at.
pub open spec fn box_blocks(entries: Seq<PostAccountRepr>) -> Set<usize> {
    Set::new(
        |k: usize|
            exists|i: int|
                0 <= i < entries.len() && at((#[trigger] entries[i]).account).contains(k),
    )
}

/// Each entry has the address at its place and points at a block of its own with
/// the structure at its place.
pub open spec fn boxed_at(
    m: Memory,
    entries: Seq<PostAccountRepr>,
    reprs: Seq<(Pubkey, AccountCRepr)>,
) -> bool {
    &&& entries.len() == reprs.len()
    &&& forall|i: int|
        0 <= i < reprs.len() ==> (#[trigger] entries[i]).pubkey == reprs[i].0.bytes
            && account_behind(m, entries[i].account) == Some(reprs[i].1)
    &&& forall|i: int, j: int|
        0 <= i < j < entries.len() ==> (#[trigger] entries[i]).account != (
        #[trigger] entries[j]).account
}

/// `r` is the array of the described accounts `post_vec`. No list at all is null;
/// an empty list is not.
pub open spec fn posts_boxed(
    before: Memory,
    after: Memory,
    post_vec: Option<Vec<(Pubkey, AccountCRepr)>>,
    r: PostAccountArray,
) -> bool {
    match post_vec {
        None => r.ptr is Null && r.len == 0 && after == before,
        Some(v) => {
            &&& r.len == v@.len()
            &&& if v@.len() == 0 {
                r.ptr is Dangling && after == before
            } else {
                let entries = post_entries(after, r);
                &&& r.ptr is To
                &&& boxed_at(after, entries, v@)
                &&& at(r.ptr).disjoint(box_blocks(entries))
                &&& grows(before, after, at(r.ptr).union(box_blocks(entries)))
            }
        },
    }
}

/// Hands described accounts over as an array. No list at all is null; an empty
/// list is not.
pub fn post_accounts_to_array(
    heap: &mut Heap,
    post_vec: Option<Vec<(Pubkey, AccountCRepr)>>,
) -> (r: PostAccountArray)
    ensures
        posts_boxed(old(heap)@, final(heap)@, post_vec, r),
{
    let post = match post_vec {
        Some(p) => p,
        None => {
            return PostAccountArray { ptr: Pointer::Null, len: 0 };
        },
    };
    let len: usize = post.len();
    if len == 0 {
        return PostAccountArray { ptr: Pointer::Dangling, len: 0 };
    }
    let mut entries: Vec<PostAccountRepr> = Vec::new();
    assert(box_blocks(entries@) =~= Set::empty());
    for i in 0..len
        invariant
            len == post@.len(),
            entries@.len() == i,
            boxed_at(heap@, entries@, post@.take(i as int)),
            grows(old(heap)@, heap@, box_blocks(entries@)),
    {
        let ghost before = heap@;
        let ghost done = entries@;
        let (pk, acc) = post[i];
        let account = heap.place(Block::Account(acc));
        entries.push(PostAccountRepr { pubkey: pk.to_bytes(), account });
        proof {
            lemma_grows_twice(old(heap)@, before, heap@, box_blocks(done), at(account));
            assert(box_blocks(entries@) =~= box_blocks(done).union(at(account))) by {
                assert(entries@[done.len() as int].account == account);
                assert forall|k: usize| box_blocks(done).contains(k) implies box_blocks(
                    entries@,
                ).contains(k) by {
                    let j = choose|j: int|
                        0 <= j < done.len() && at((#[trigger] done[j]).account).contains(k);
                    assert(entries@[j] == done[j]);
                }
            }
        }
    }
    assert(post@.take(len as int) =~= post@);
    let ghost before = heap@;
    let ghost listed = entries@;
    let ptr = heap.place(Block::PostAccounts(entries));
    let r = PostAccountArray { ptr, len };
    proof {
        lemma_grows_twice(old(heap)@, before, heap@, box_blocks(listed), at(ptr));
        assert(at(ptr).union(box_blocks(listed)) =~= box_blocks(listed).union(at(ptr)));
    }
    r
}

/// What each account holds, as something that is there.
pub open spec fn present(vs: Seq<(Pubkey, AccountView)>) -> Seq<Option<AccountView>> {
    Seq::new(vs.len(), |i: int| Some(vs[i].1))
}

/// `posts` gives the accounts `vs` under their addresses, in blocks that they do
/// not share. No list at all is null; an empty list is not.
pub open spec fn posts_at(
    m: Memory,
    posts: PostAccountArray,
    vs: Option<Seq<(Pubkey, AccountView)>>,
) -> bool {
    match vs {
        None => posts.ptr is Null && posts.len == 0,
        Some(vs) => {
            let entries = post_entries(m, posts);
            let ptrs = account_ptrs(entries);
            &&& posts.len == vs.len()
            &&& if vs.len() == 0 {
                posts.ptr is Dangling
            } else {
                &&& posts.ptr is To
                &&& entries.len() == vs.len()
                &&& forall|i: int|
                    0 <= i < vs.len() ==> (#[trigger] entries[i]).pubkey == vs[i].0.bytes
                &&& accounts_at(m, ptrs, present(vs))
                &&& at(posts.ptr).disjoint(all_blocks(m, ptrs))
            }
        },
    }
}

/// Every block of an array of accounts.
pub open spec fn post_blocks(m: Memory, posts: PostAccountArray) -> Set<usize> {
    at(posts.ptr).union(all_blocks(m, account_ptrs(post_entries(m, posts))))
}

/// Described accounts, boxed later, are the accounts.
pub proof fn lemma_boxed_accounts(
    start: Memory,
    described: Memory,
    between: Memory,
    end: Memory,
    extra: Set<usize>,
    posts: PostAccountArray,
    reprs: Seq<(Pubkey, AccountCRepr)>,
    vs: Seq<(Pubkey, AccountView)>,
)
    requires
        grows(start, described, data_blocks(reprs)),
        reprs_at(described, reprs, vs),
        grows(described, between, extra),
        grows(between, end, at(posts.ptr).union(box_blocks(post_entries(end, posts)))),
        boxed_at(end, post_entries(end, posts), reprs),
        at(posts.ptr).disjoint(box_blocks(post_entries(end, posts))),
        posts.ptr is To,
        posts.len == vs.len(),
        vs.len() > 0,
    ensures
        posts_at(end, posts, Some(vs)),
        post_blocks(end, posts) == data_blocks(reprs).union(
            at(posts.ptr).union(box_blocks(post_entries(end, posts))),
        ),
{
    let entries = post_entries(end, posts);
    let ptrs = account_ptrs(entries);
    let boxes = at(posts.ptr).union(box_blocks(entries));
    lemma_grows_twice(start, described, between, data_blocks(reprs), extra);
    lemma_grows_twice(start, between, end, data_blocks(reprs).union(extra), boxes);
    assert forall|i: int| 0 <= i < vs.len() implies repr_at(end, reprs[i].1, vs[i].1)
        && #[trigger] account_behind(end, ptrs[i]) == Some(reprs[i].1) && account_blocks(
        end,
        ptrs[i],
    ) == at(entries[i].account).union(at(reprs[i].1.data_ptr)) by {
        assert(entries[i].account == ptrs[i]);
        assert(reprs[i].0 == vs[i].0);
        if let Pointer::To(a) = reprs[i].1.data_ptr {
            assert(described.contains_key(a));
            assert(between.contains_key(a));
        }
    }
    assert forall|i: int, k: usize|
        0 <= i < vs.len() && #[trigger] at(reprs[i].1.data_ptr).contains(k) implies data_blocks(
        reprs,
    ).contains(k) by {}
    assert forall|i: int, k: usize|
        0 <= i < vs.len() && #[trigger] at(entries[i].account).contains(k) implies box_blocks(
        entries,
    ).contains(k) by {}
    assert forall|i: int, j: int| 0 <= i < j < ptrs.len() implies account_blocks(
        end,
        #[trigger] ptrs[i],
    ).disjoint(account_blocks(end, #[trigger] ptrs[j])) by {
        assert(account_behind(end, ptrs[i]) == Some(reprs[i].1));
        assert(account_behind(end, ptrs[j]) == Some(reprs[j].1));
        assert(entries[i].account != entries[j].account);
        assert(at(reprs[i].1.data_ptr).disjoint(at(reprs[j].1.data_ptr)));
        assert(data_blocks(reprs).disjoint(boxes));
    }
    assert(all_blocks(end, ptrs) =~= data_blocks(reprs).union(box_blocks(entries))) by {
        assert forall|k: usize| all_blocks(end, ptrs).contains(k) implies data_blocks(reprs).union(
            box_blocks(entries),
        ).contains(k) by {
            let i = choose|i: int|
                0 <= i < ptrs.len() && account_blocks(end, #[trigger] ptrs[i]).contains(k);
            assert(account_behind(end, ptrs[i]) == Some(reprs[i].1));
        }
        assert forall|k: usize| data_blocks(reprs).contains(k) implies all_blocks(
            end,
            ptrs,
        ).contains(k) by {
            let i = choose|i: int|
                0 <= i < reprs.len() && at((#[trigger] reprs[i]).1.data_ptr).contains(k);
            assert(account_behind(end, ptrs[i]) == Some(reprs[i].1));
        }
        assert forall|k: usize| box_blocks(entries).contains(k) implies all_blocks(
            end,
            ptrs,
        ).contains(k) by {
            let i = choose|i: int|
                0 <= i < entries.len() && at((#[trigger] entries[i]).account).contains(k);
            assert(account_behind(end, ptrs[i]) == Some(reprs[i].1));
        }
    }
    assert(at(posts.ptr).disjoint(data_blocks(reprs)));
    assert(post_blocks(end, posts) =~= data_blocks(reprs).union(boxes));
    assert forall|i: int| 0 <= i < vs.len() implies match present(vs)[i] {
        Some(v) => account_at(end, #[trigger] ptrs[i], v),
        None => ptrs[i] is Null,
    } by {
        assert(account_behind(end, ptrs[i]) == Some(reprs[i].1));
    }
    assert forall|i: int| 0 <= i < vs.len() implies (#[trigger] entries[i]).pubkey
        == vs[i].0.bytes by {
        assert(reprs[i].0 == vs[i].0);
    }
}

} // verus!
