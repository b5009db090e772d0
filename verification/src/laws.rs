//! What holds across calls.
use crate::accounts::{
    account_at, account_behind, account_blocks, accounts_at, all_blocks, is_account,
    without_account,
};
use crate::blockhash::{
    answers_blockhash, blockhash_next, BlockhashAsk, BlockhashEvent, BlockhashNext,
};
use crate::bytes::{line_blocks, lines_at, log_blocks, log_entries, without_bytes, without_c_str};
use crate::encoded::{encoded_outcome, simulate_failed_v2, simulated_v2};
use crate::heap::{Memory, Pointer};
use crate::lookup::{
    account_next, account_reply, answers_account, answers_multiple, array_entries, multiple_next,
    multiple_reply, AccountAsk, AccountEvent, AccountNext, MultipleAsk, MultipleCall, MultipleEvent,
    MultipleNext,
};
use crate::memory::{at, bytes_at, grows, is_buffer, is_c_str, texts, vector_at};
use crate::posts::{account_ptrs, account_views, post_blocks, post_entries, present};
use crate::pubkeys::without_keys;
use crate::reading::{
    read_account, read_bytes, read_logs, read_optional, read_posts, read_reply, read_reply_v2,
    SimulateContents, SimulateContentsV2,
};
use crate::repr::{
    AccountCArray, AccountCResult, LogRepr, PubkeyArray, SimulateResultC, SimulateResultRepr,
};
use crate::service::{any_bank, found, CommitmentLevel, ErrorReport, TaskResult};
use crate::simulate::{
    answers_simulate, failure_text, input, request, simulate_next, Failure, SimulateAsk,
    SimulateEvent, SimulateNext, Version,
};
use crate::structured::{error_at, simulate_failed, simulated, wanted};
use crate::transaction::{same_but_blockhash, with_blockhash, VersionedTransaction};
use crate::values::{AccountSharedData, AccountView, TransactionSimulationResult};
use vstd::prelude::*;
use vstd::utf8::{encode_scalar, encode_utf8};

verus! {

/// A buffer that was handed over can be freed, and then memory is as before.
pub proof fn law_buffer_freed(
    before: Memory,
    after: Memory,
    ptr: Pointer,
    len: usize,
    bytes: Seq<u8>,
)
    requires
        bytes_at(after, ptr, len, bytes),
        grows(before, after, at(ptr)),
    ensures
        ptr !is Null,
        len > 0 ==> is_buffer(after, ptr, len),
        without_bytes(after, ptr, len) == before,
{
    assert(without_bytes(after, ptr, len) =~= before);
}

/// A vector that was handed over in its own allocation can be freed by its length
/// where it fills that allocation, and then memory is as before. With capacity to
/// spare it is no buffer to be freed; empty, it is left alone.
pub proof fn law_vector_freed(
    before: Memory,
    after: Memory,
    ptr: Pointer,
    len: usize,
    bytes: Seq<u8>,
    capacity: usize,
)
    requires
        len <= capacity,
        vector_at(after, ptr, len, bytes, capacity),
        grows(before, after, at(ptr)),
    ensures
        ptr !is Null,
        capacity == len && len > 0 ==> is_buffer(after, ptr, len),
        capacity == len ==> without_bytes(after, ptr, len) == before,
        capacity > len ==> !is_buffer(after, ptr, len),
        capacity > len && len == 0 ==> without_bytes(after, ptr, len) == after,
{
    if capacity == len {
        law_buffer_freed(before, after, ptr, len, bytes);
    }
}

/// Text that was handed over as a buffer, unless empty, reads back as itself
/// where a request takes text.
pub proof fn law_text_read_back(m: Memory, ptr: Pointer, len: usize, text: Seq<char>)
    requires
        bytes_at(m, ptr, len, encode_utf8(text)),
        len > 0,
    ensures
        request(m, ptr, len) == Ok::<Seq<char>, Failure>(text),
{
    let bytes = encode_utf8(text);
    assert(input(m, ptr, len) =~= bytes);
    vstd::utf8::encode_utf8_valid_utf8(text);
    vstd::utf8::encode_utf8_decode_utf8(text);
}

/// The bytes of text without a NUL hold no zero: in a C string the first zero is
/// the terminator.
pub proof fn law_c_str_terminated(text: Seq<char>)
    requires
        !text.contains('\0'),
    ensures
        forall|i: int| 0 <= i < encode_utf8(text).len() ==> #[trigger] encode_utf8(text)[i] != 0,
    decreases text.len(),
{
    if text.len() > 0 {
        let rest = text.drop_first();
        assert forall|c: char| rest.contains(c) implies text.contains(c) by {
            let i = choose|i: int| 0 <= i < rest.len() && rest[i] == c;
            assert(text[i + 1] == c);
        }
        law_c_str_terminated(rest);
        let c = text[0];
        assert(text.contains(c));
        lemma_scalar_nonzero(c);
        let head = encode_scalar(c as u32);
        assert forall|i: int| 0 <= i < encode_utf8(text).len() implies #[trigger] encode_utf8(
            text,
        )[i] != 0 by {
            if i >= head.len() {
                assert(encode_utf8(text)[i] == encode_utf8(rest)[i - head.len()]);
            }
        }
    }
}

proof fn lemma_scalar_nonzero(c: char)
    requires
        c != '\0',
    ensures
        forall|i: int|
            0 <= i < encode_scalar(c as u32).len() ==> #[trigger] encode_scalar(c as u32)[i] != 0,
{
    let v = c as u32;
    assert(v <= 0x7f && v != 0 ==> (v & 0x7f) as u8 != 0) by (bit_vector);
    assert((0xc0u8 | ((v >> 6) & 0x1f) as u8) != 0) by (bit_vector);
    assert((0xe0u8 | ((v >> 12) & 0x0f) as u8) != 0) by (bit_vector);
    assert((0xf0u8 | ((v >> 18) & 0x07) as u8) != 0) by (bit_vector);
    assert((0x80u8 | (v & 0x3f) as u8) != 0) by (bit_vector);
    assert((0x80u8 | ((v >> 6) & 0x3f) as u8) != 0) by (bit_vector);
    assert((0x80u8 | ((v >> 12) & 0x3f) as u8) != 0) by (bit_vector);
}

/// Freeing null changes nothing.
pub proof fn law_null_freed(m: Memory, len: usize)
    ensures
        without_bytes(m, Pointer::Null, len) == m,
        without_c_str(m, Pointer::Null) == m,
        without_account(m, Pointer::Null) == m,
        without_keys(m, PubkeyArray { ptr: Pointer::Null, len }) == m,
{
}

/// The reply to an account request has an account or an error message, never
/// both and never neither. Freeing the two brings memory back.
pub proof fn law_account_reply_freed(
    before: Memory,
    after: Memory,
    r: AccountCResult,
    outcome: Result<AccountView, Seq<char>>,
)
    requires
        account_reply(before, after, r, outcome),
    ensures
        r.account is Null <==> r.error_msg !is Null,
        r.error_msg is Null <==> outcome is Ok,
        r.account !is Null ==> is_account(after, r.account),
        r.error_msg !is Null ==> is_c_str(without_account(after, r.account), r.error_msg),
        without_c_str(without_account(after, r.account), r.error_msg) == before,
{
    assert(without_c_str(without_account(after, r.account), r.error_msg) =~= before);
}

/// Memory after [`free_account`](crate::free_account) on each of `ptrs`, in order.
pub open spec fn without_accounts(m: Memory, ptrs: Seq<Pointer>) -> Memory
    decreases ptrs.len(),
{
    if ptrs.len() == 0 {
        m
    } else {
        without_account(without_accounts(m, ptrs.drop_last()), ptrs.last())
    }
}

/// Memory after [`free_leaked_bytes`](crate::free_leaked_bytes) on each line, in order.
pub open spec fn without_lines(m: Memory, reprs: Seq<LogRepr>) -> Memory
    decreases reprs.len(),
{
    if reprs.len() == 0 {
        m
    } else {
        without_bytes(without_lines(m, reprs.drop_last()), reprs.last().ptr, reprs.last().len)
    }
}

/// Accounts are the same in memory that has the same blocks for them.
proof fn lemma_accounts_agree(
    m: Memory,
    other: Memory,
    ptrs: Seq<Pointer>,
    vs: Seq<Option<AccountView>>,
)
    requires
        accounts_at(m, ptrs, vs),
        forall|k: usize| #[trigger]
            all_blocks(m, ptrs).contains(k) ==> other.contains_key(k) && other[k] == m[k],
    ensures
        accounts_at(other, ptrs, vs),
        all_blocks(other, ptrs) == all_blocks(m, ptrs),
{
    assert forall|i: int| 0 <= i < ptrs.len() implies account_blocks(other, #[trigger] ptrs[i])
        == account_blocks(m, ptrs[i]) && match vs[i] {
        Some(v) => account_at(other, ptrs[i], v),
        None => ptrs[i] is Null,
    } by {
        if let Some(v) = vs[i] {
            assert(account_at(m, ptrs[i], v));
            let a = ptrs[i]->To_0;
            assert(account_blocks(m, ptrs[i]).contains(a));
            assert(all_blocks(m, ptrs).contains(a));
            let c = account_behind(m, ptrs[i])->0;
            if let Pointer::To(d) = c.data_ptr {
                assert(account_blocks(m, ptrs[i]).contains(d));
                assert(all_blocks(m, ptrs).contains(d));
            }
        }
    }
    assert(all_blocks(other, ptrs) =~= all_blocks(m, ptrs));
}

/// Accounts that share no block can be freed one by one; that removes exactly
/// their blocks.
pub proof fn law_accounts_freed(m: Memory, ptrs: Seq<Pointer>, vs: Seq<Option<AccountView>>)
    requires
        accounts_at(m, ptrs, vs),
    ensures
        forall|i: int|
            0 <= i < ptrs.len() && #[trigger] ptrs[i] !is Null ==> is_account(
                without_accounts(m, ptrs.take(i)),
                ptrs[i],
            ),
        without_accounts(m, ptrs) == m.remove_keys(all_blocks(m, ptrs)),
    decreases ptrs.len(),
{
    if ptrs.len() == 0 {
        assert(without_accounts(m, ptrs) =~= m.remove_keys(all_blocks(m, ptrs)));
    } else {
        let first = ptrs.drop_last();
        let n = first.len() as int;
        let p = ptrs.last();
        assert forall|i: int| 0 <= i < n implies #[trigger] first[i] == ptrs[i] by {}
        assert(accounts_at(m, first, vs.drop_last())) by {
            assert forall|i: int| 0 <= i < n implies match vs.drop_last()[i] {
                Some(v) => account_at(m, #[trigger] first[i], v),
                None => first[i] is Null,
            } by {
                assert(first[i] == ptrs[i]);
            }
        }
        law_accounts_freed(m, first, vs.drop_last());
        let rest = without_accounts(m, first);
        assert(account_blocks(m, p).disjoint(all_blocks(m, first))) by {
            assert forall|k: usize| all_blocks(m, first).contains(k) implies !account_blocks(
                m,
                p,
            ).contains(k) by {
                let i = choose|i: int|
                    0 <= i < first.len() && account_blocks(m, #[trigger] first[i]).contains(k);
                assert(first[i] == ptrs[i]);
                assert(ptrs[n] == p);
            }
        }
        assert(all_blocks(m, ptrs) =~= all_blocks(m, first).union(account_blocks(m, p))) by {
            assert(ptrs[n] == p);
            assert forall|k: usize|
                all_blocks(m, ptrs).contains(k) && !account_blocks(m, p).contains(
                    k,
                ) implies all_blocks(m, first).contains(k) by {
                let i = choose|i: int|
                    0 <= i < ptrs.len() && account_blocks(m, #[trigger] ptrs[i]).contains(k);
                assert(first[i] == ptrs[i]);
            }
            assert forall|k: usize| all_blocks(m, first).contains(k) implies all_blocks(
                m,
                ptrs,
            ).contains(k) by {
                let i = choose|i: int|
                    0 <= i < first.len() && account_blocks(m, #[trigger] first[i]).contains(k);
                assert(first[i] == ptrs[i]);
            }
        }
        assert(ptrs[n] == p);
        match vs[n] {
            Some(v) => {
                assert(account_at(m, p, v));
                let c = account_behind(m, p)->0;
                assert(account_blocks(m, p).contains(p->To_0));
                assert(rest.contains_key(p->To_0));
                if let Pointer::To(d) = c.data_ptr {
                    assert(account_blocks(m, p).contains(d));
                    assert(rest.contains_key(d));
                }
                assert(account_at(rest, p, v));
                assert(without_account(rest, p) =~= rest.remove_keys(account_blocks(m, p)));
            },
            None => {
                assert(account_blocks(m, p) =~= Set::empty());
            },
        }
        assert(without_accounts(m, ptrs) =~= m.remove_keys(all_blocks(m, ptrs)));
        assert forall|i: int| 0 <= i < ptrs.len() && #[trigger] ptrs[i] !is Null implies is_account(
            without_accounts(m, ptrs.take(i)),
            ptrs[i],
        ) by {
            if i < n {
                assert(first[i] == ptrs[i]);
                assert(ptrs.take(i) =~= first.take(i));
            } else {
                assert(ptrs.take(i) =~= first);
            }
        }
    }
}

/// The last line has a block of its own.
proof fn lemma_line_blocks(m: Memory, reprs: Seq<LogRepr>, lines: Seq<Seq<char>>)
    requires
        lines_at(m, reprs, lines),
        reprs.len() > 0,
    ensures
        at(reprs.last().ptr).disjoint(line_blocks(reprs.drop_last())),
        line_blocks(reprs) == line_blocks(reprs.drop_last()).union(at(reprs.last().ptr)),
{
    let first = reprs.drop_last();
    let n = first.len() as int;
    let last = reprs.last();
    assert(reprs[n] == last);
    assert forall|k: usize| line_blocks(first).contains(k) implies !at(last.ptr).contains(k)
        && line_blocks(reprs).contains(k) by {
        let i = choose|i: int| 0 <= i < first.len() && at(#[trigger] first[i].ptr).contains(k);
        assert(first[i] == reprs[i]);
        assert(at(reprs[i].ptr).disjoint(at(reprs[n].ptr)));
        assert(at(reprs[i].ptr).contains(k));
    }
    assert forall|k: usize|
        line_blocks(reprs).contains(k) && !at(last.ptr).contains(k) implies line_blocks(
        first,
    ).contains(k) by {
        let i = choose|i: int| 0 <= i < reprs.len() && at(#[trigger] reprs[i].ptr).contains(k);
        assert(first[i] == reprs[i]);
        assert(at(first[i].ptr).contains(k));
    }
    assert(line_blocks(reprs) =~= line_blocks(first).union(at(last.ptr)));
}

/// Lines that share no block can be freed one by one; that removes exactly their
/// blocks.
pub proof fn law_lines_freed(m: Memory, reprs: Seq<LogRepr>, lines: Seq<Seq<char>>)
    requires
        lines_at(m, reprs, lines),
    ensures
        forall|i: int|
            0 <= i < reprs.len() && (#[trigger] reprs[i]).len > 0 ==> is_buffer(
                without_lines(m, reprs.take(i)),
                reprs[i].ptr,
                reprs[i].len,
            ),
        without_lines(m, reprs) == m.remove_keys(line_blocks(reprs)),
    decreases reprs.len(),
{
    if reprs.len() == 0 {
        assert(without_lines(m, reprs) =~= m.remove_keys(line_blocks(reprs)));
    } else {
        let first = reprs.drop_last();
        let n = first.len() as int;
        let last = reprs.last();
        assert forall|i: int| 0 <= i < n implies #[trigger] first[i] == reprs[i] by {}
        assert(lines_at(m, first, lines.drop_last()));
        law_lines_freed(m, first, lines.drop_last());
        let rest = without_lines(m, first);
        assert(reprs[n] == last);
        assert(bytes_at(m, last.ptr, last.len, encode_utf8(lines[n])));
        lemma_line_blocks(m, reprs, lines);
        assert(without_lines(m, reprs) =~= m.remove_keys(line_blocks(reprs)));
        assert forall|i: int|
            0 <= i < reprs.len() && (#[trigger] reprs[i]).len > 0 implies is_buffer(
            without_lines(m, reprs.take(i)),
            reprs[i].ptr,
            reprs[i].len,
        ) by {
            if i < n {
                assert(first[i] == reprs[i]);
                assert(reprs.take(i) =~= first.take(i));
            } else {
                assert(reprs.take(i) =~= first);
            }
        }
    }
}

/// The reply to a request for several accounts has accounts or an error message.
/// Freeing the message brings memory back; freeing the accounts one by one leaves
/// nothing but the array.
pub proof fn law_multiple_reply_freed(
    before: Memory,
    after: Memory,
    r: AccountCArray,
    outcome: Result<Seq<Option<AccountView>>, Seq<char>>,
)
    requires
        multiple_reply(before, after, r, outcome),
    ensures
        r.error_msg is Null <==> outcome is Ok,
        outcome is Err ==> is_c_str(after, r.error_msg),
        outcome is Err ==> without_c_str(after, r.error_msg) == before,
        outcome is Ok ==> grows(
            before,
            without_accounts(after, array_entries(after, r)),
            at(r.ptr),
        ),
        forall|i: int|
            0 <= i < array_entries(after, r).len() && #[trigger] array_entries(after, r)[i] !is Null
                ==> is_account(
                without_accounts(after, array_entries(after, r).take(i)),
                array_entries(after, r)[i],
            ),
{
    let entries = array_entries(after, r);
    match outcome {
        Ok(vs) => {
            if vs.len() > 0 {
                law_accounts_freed(after, entries, vs);
                assert(grows(before, without_accounts(after, entries), at(r.ptr)));
            } else {
                assert(all_blocks(after, entries) =~= Set::empty());
            }
        },
        Err(text) => {
            assert(without_c_str(after, r.error_msg) =~= before);
        },
    }
}

/// The reply to a request for several accounts has one entry for each lookup, at
/// its place: null exactly where no account was found, else that account.
pub proof fn law_one_entry_per_lookup(
    before: Memory,
    after: Memory,
    r: AccountCArray,
    results: Seq<TaskResult>,
)
    requires
        multiple_reply(before, after, r, Ok(found(results))),
    ensures
        r.len == results.len(),
        array_entries(after, r).len() == results.len(),
        forall|i: int|
            0 <= i < results.len() ==> match #[trigger] results[i] {
                TaskResult::Completed(Some(a)) => array_entries(after, r)[i] is To && account_at(
                    after,
                    array_entries(after, r)[i],
                    a@,
                ),
                _ => array_entries(after, r)[i] is Null,
            },
{
    let entries = array_entries(after, r);
    let vs = found(results);
    assert forall|i: int| 0 <= i < results.len() implies match #[trigger] results[i] {
        TaskResult::Completed(Some(a)) => entries[i] is To && account_at(after, entries[i], a@),
        _ => entries[i] is Null,
    } by {
        assert(vs[i] is Some ==> account_at(after, entries[i], vs[i]->0));
        assert(vs[i] is None ==> entries[i] is Null);
    }
}

/// Whatever answers a request for several accounts, a reply to it has an array or
/// a message, never both and never neither; the array has one entry for each
/// address, the message comes with none.
pub proof fn law_one_entry_per_key(
    before: Memory,
    after: Memory,
    r: AccountCArray,
    call: MultipleCall,
    event: MultipleEvent,
)
    requires
        call.wf(),
        answers_multiple(call, event),
        match multiple_next(event) {
            MultipleNext::Ask(_) => false,
            MultipleNext::Fail(text) => multiple_reply(before, after, r, Err(text)),
            MultipleNext::Reply(vs) => multiple_reply(before, after, r, Ok(vs)),
        },
    ensures
        r.ptr is Null <==> r.error_msg !is Null,
        event is Accounts <==> r.error_msg is Null,
        event is Accounts ==> r.ptr is To && r.len == call.pks@.len() && array_entries(
            after,
            r,
        ).len() == call.pks@.len(),
        event !is Accounts ==> r.len == 0,
{
}

/// The reply to a simulation is freed by freeing the error, the lines one by one
/// and the accounts one by one, each of which can be freed when its turn comes;
/// that leaves nothing but the two arrays.
pub proof fn law_simulation_freed(
    before: Memory,
    after: Memory,
    r: SimulateResultRepr,
    need_account: bool,
    res: TransactionSimulationResult,
)
    requires
        simulated(before, after, r, need_account, res),
    ensures
        ({
            let lines = log_entries(after, r.logs);
            let ptrs = account_ptrs(post_entries(after, r.post_accounts));
            let one = without_bytes(after, r.error_ptr, r.error_len);
            let two = without_lines(one, lines);
            let three = without_accounts(two, ptrs);
            &&& r.error_ptr !is Null && r.error_len > 0 ==> is_buffer(
                after,
                r.error_ptr,
                r.error_len,
            )
            &&& forall|i: int|
                0 <= i < lines.len() && (#[trigger] lines[i]).len > 0 ==> is_buffer(
                    without_lines(one, lines.take(i)),
                    lines[i].ptr,
                    lines[i].len,
                )
            &&& forall|i: int|
                0 <= i < ptrs.len() && #[trigger] ptrs[i] !is Null ==> is_account(
                    without_accounts(two, ptrs.take(i)),
                    ptrs[i],
                )
            &&& grows(before, three, at(r.logs.ptr).union(at(r.post_accounts.ptr)))
        }),
{
    let lines = log_entries(after, r.logs);
    let ptrs = account_ptrs(post_entries(after, r.post_accounts));
    let logs = log_blocks(after, r.logs);
    let posts = post_blocks(after, r.post_accounts);
    let one = without_bytes(after, r.error_ptr, r.error_len);
    assert(one =~= after.remove_keys(at(r.error_ptr)));
    let said = texts(res.logs@);
    let lines_said = if said.len() == 0 {
        Seq::empty()
    } else {
        said
    };
    assert(lines_at(one, lines, lines_said)) by {
        assert forall|i: int| 0 <= i < lines.len() implies bytes_at(
            one,
            (#[trigger] lines[i]).ptr,
            lines[i].len,
            encode_utf8(said[i]),
        ) by {
            assert(bytes_at(after, lines[i].ptr, lines[i].len, encode_utf8(said[i])));
            if let Pointer::To(a) = lines[i].ptr {
                assert(at(lines[i].ptr).contains(a));
                assert(logs.contains(a));
            }
        }
    }
    law_lines_freed(one, lines, lines_said);
    let two = without_lines(one, lines);
    let vs = if need_account {
        present(account_views(res.post_simulation_accounts@))
    } else {
        Seq::empty()
    };
    assert(accounts_at(after, ptrs, vs));
    assert forall|k: usize| #[trigger] all_blocks(after, ptrs).contains(k) implies two.contains_key(
        k,
    ) && two[k] == after[k] by {
        assert(posts.contains(k));
        assert(after.contains_key(k));
        assert(!line_blocks(lines).contains(k));
        assert(!at(r.error_ptr).contains(k));
    }
    lemma_accounts_agree(after, two, ptrs, vs);
    law_accounts_freed(two, ptrs, vs);
    let three = without_accounts(two, ptrs);
    assert(grows(before, three, at(r.logs.ptr).union(at(r.post_accounts.ptr))));
}

/// The reply to an encoded simulation is freed by freeing the error and the data.
/// Where the outcome has no encoding, that leaves the error of the transaction.
pub proof fn law_encoded_simulation_freed(
    before: Memory,
    after: Memory,
    r: SimulateResultC,
    result: Result<(), String>,
    encoded: Option<Seq<u8>>,
)
    requires
        simulated_v2(before, after, r, result, encoded),
    ensures
        ({
            let one = without_bytes(after, r.error_ptr, r.error_len);
            let two = without_bytes(one, r.data_ptr, r.data_len);
            &&& r.error_ptr !is Null && r.error_len > 0 ==> is_buffer(
                after,
                r.error_ptr,
                r.error_len,
            )
            &&& r.data_ptr !is Null && r.data_len > 0 ==> is_buffer(one, r.data_ptr, r.data_len)
            &&& encoded is Some ==> two == before
            &&& encoded is None ==> exists|lost: Pointer, lost_len: usize| #[trigger]
                error_at(two, lost, lost_len, result) && grows(before, two, at(lost))
        }),
{
    let one = without_bytes(after, r.error_ptr, r.error_len);
    let two = without_bytes(one, r.data_ptr, r.data_len);
    if encoded is Some {
        assert(two =~= before);
    } else {
        let text = failure_text(Version::V2, Failure::Panicked);
        let (left, lost, lost_len) = choose|left: Memory, lost: Pointer, lost_len: usize| #[trigger]
            error_at(left, lost, lost_len, result) && grows(before, left, at(lost))
                && simulate_failed_v2(left, after, r, text);
        assert(two =~= left);
    }
}

/// A failed request is answered with an error text that is there. Freeing it
/// brings memory back.
pub proof fn law_failure_freed(
    before: Memory,
    after: Memory,
    r: SimulateResultRepr,
    failure: Failure,
)
    requires
        simulate_failed(before, after, r, failure_text(Version::V1, failure)),
    ensures
        r.error_ptr !is Null,
        r.error_len > 0,
        is_buffer(after, r.error_ptr, r.error_len),
        without_bytes(after, r.error_ptr, r.error_len) == before,
{
    let text = failure_text(Version::V1, failure);
    lemma_failure_bytes_nonempty(Version::V1, failure);
    law_buffer_freed(before, after, r.error_ptr, r.error_len, encode_utf8(text));
}

/// So is one with an encoded reply.
pub proof fn law_failure_v2_freed(
    before: Memory,
    after: Memory,
    r: SimulateResultC,
    failure: Failure,
)
    requires
        simulate_failed_v2(before, after, r, failure_text(Version::V2, failure)),
    ensures
        r.error_ptr !is Null,
        r.error_len > 0,
        is_buffer(after, r.error_ptr, r.error_len),
        without_bytes(after, r.error_ptr, r.error_len) == before,
{
    let text = failure_text(Version::V2, failure);
    lemma_failure_bytes_nonempty(Version::V2, failure);
    law_buffer_freed(before, after, r.error_ptr, r.error_len, encode_utf8(text));
}

proof fn lemma_failure_bytes_nonempty(version: Version, failure: Failure)
    ensures
        encode_utf8(failure_text(version, failure)).len() > 0,
{
    reveal_strlit("simulate_transaction: data is null or empty");
    reveal_strlit("simulate_transaction: invalid UTF-8 in data");
    reveal_strlit("decode_and_deserialize error: ");
    reveal_strlit("simulate_transaction JRP not initialized");
    reveal_strlit("simulate_transaction jrp.get_bank_with_config: ");
    reveal_strlit("sanitize_transaction error: ");
    reveal_strlit("simulate_transaction panic: Any { .. }");
    reveal_strlit("simulate_transaction_v2: data is null or empty");
    reveal_strlit("simulate_transaction_v2: invalid UTF-8 in data");
    reveal_strlit("simulate_transaction_v2 decode_and_deserialize error: ");
    reveal_strlit("simulate_transaction_v2 JRP not initialized");
    reveal_strlit("simulate_transaction_v2 jrp.get_bank_with_config: ");
    reveal_strlit("simulate_transaction_v2 error: ");
    reveal_strlit("simulate_transaction_v2 panic: Any { .. }");
    vstd::utf8::encode_utf8_first_scalar(failure_text(version, failure));
}

/// How many answers an account request still takes at most.
pub open spec fn account_answers_left(ask: AccountAsk) -> nat {
    match ask {
        AccountAsk::Processor => 3,
        AccountAsk::Bank(_) => 2,
        AccountAsk::Lookup => 1,
    }
}

/// How many answers a request for several accounts still takes at most.
pub open spec fn multiple_answers_left(ask: MultipleAsk) -> nat {
    match ask {
        MultipleAsk::Processor => 3,
        MultipleAsk::Bank(_) => 2,
        MultipleAsk::Lookup => 1,
    }
}

/// How many answers a blockhash request still takes at most.
pub open spec fn blockhash_answers_left(ask: BlockhashAsk) -> nat {
    match ask {
        BlockhashAsk::Processor => 3,
        BlockhashAsk::Bank(_) => 2,
        BlockhashAsk::LastBlockhash => 1,
    }
}

/// How many answers a simulation request still takes at most.
pub open spec fn simulate_answers_left(ask: SimulateAsk) -> nat {
    match ask {
        SimulateAsk::Decode { .. } => 6,
        SimulateAsk::Processor { .. } => 5,
        SimulateAsk::Bank { .. } => 4,
        SimulateAsk::LastBlockhash { .. } => 3,
        SimulateAsk::Sanitize { .. } => 2,
        SimulateAsk::Simulate { .. } => 1,
    }
}

/// Every answer brings an account request nearer to its reply.
pub proof fn law_account_request_ends(ask: AccountAsk, event: AccountEvent)
    requires
        answers_account(ask, event),
    ensures
        account_next(event) matches AccountNext::Ask(next) ==> account_answers_left(next) + 1
            == account_answers_left(ask),
        account_answers_left(ask) == 1 ==> account_next(event) !is Ask,
{
}

/// Every answer brings a request for several accounts nearer to its reply.
pub proof fn law_multiple_request_ends(call: MultipleCall, event: MultipleEvent)
    requires
        answers_multiple(call, event),
    ensures
        multiple_next(event) matches MultipleNext::Ask(next) ==> multiple_answers_left(next) + 1
            == multiple_answers_left(call.ask),
        multiple_answers_left(call.ask) == 1 ==> multiple_next(event) !is Ask,
{
}

/// Every answer brings a blockhash request nearer to its reply.
pub proof fn law_blockhash_request_ends(ask: BlockhashAsk, event: BlockhashEvent)
    requires
        answers_blockhash(ask, event),
    ensures
        blockhash_next(event) matches BlockhashNext::Ask(next) ==> blockhash_answers_left(next) + 1
            == blockhash_answers_left(ask),
        blockhash_answers_left(ask) == 1 ==> blockhash_next(event) !is Ask,
{
}

/// Every answer brings a simulation request nearer to its reply.
pub proof fn law_simulate_request_ends(
    ask: SimulateAsk,
    inner_instructions: bool,
    event: SimulateEvent,
)
    requires
        answers_simulate(ask, event),
    ensures
        simulate_next(inner_instructions, ask, event) matches SimulateNext::Ask(next)
            ==> simulate_answers_left(next) + 1 == simulate_answers_left(ask),
        simulate_answers_left(ask) == 1 ==> simulate_next(inner_instructions, ask, event) !is Ask,
{
}

/// Whether the invoked instructions are wanted decides nothing but whether the
/// simulation is asked for them: both kinds of request fail, and are answered, on
/// the same events.
pub proof fn law_versions_agree(one: bool, other: bool, ask: SimulateAsk, event: SimulateEvent)
    ensures
        simulate_next(one, ask, event) !is Ask ==> simulate_next(other, ask, event)
            == simulate_next(one, ask, event),
        simulate_next(one, ask, event) matches SimulateNext::Ask(next) ==> simulate_next(
            other,
            ask,
            event,
        ) == SimulateNext::Ask(
            match next {
                SimulateAsk::Simulate { .. } => SimulateAsk::Simulate { inner_instructions: other },
                same => same,
            },
        ),
{
}

/// A blockhash request asks whether the service is there, for any bank that is
/// confirmed, and for the last blockhash of that bank, in that order; it comes to
/// that blockhash unless one of the first two fails.
pub proof fn law_blockhash_request(
    initialized: bool,
    bank: Result<(), ErrorReport>,
    hash: [u8; 32],
)
    ensures
        blockhash_next(BlockhashEvent::Processor { initialized }) == if initialized {
            BlockhashNext::Ask(BlockhashAsk::Bank(any_bank(CommitmentLevel::Confirmed)))
        } else {
            BlockhashNext::Fail
        },
        blockhash_next(BlockhashEvent::Bank(bank)) == if bank is Ok {
            BlockhashNext::Ask(BlockhashAsk::LastBlockhash)
        } else {
            BlockhashNext::Fail
        },
        blockhash_next(BlockhashEvent::LastBlockhash(hash)) == BlockhashNext::Reply(hash),
{
}

/// What a request for an account comes to, by what the service says when asked
/// whether it is there, for a bank, and for the account, in that order.
pub open spec fn account_outcome(
    initialized: bool,
    bank: Result<(), ErrorReport>,
    account: Option<AccountSharedData>,
) -> Result<AccountView, Seq<char>> {
    if !initialized {
        Err("get_account JRP not initialized"@)
    } else {
        match (bank, account) {
            (Err(e), _) => Err("get_account get_bank failed: "@ + e.display@),
            (Ok(_), None) => Err("get_account bank.get_account"@),
            (Ok(_), Some(a)) => Ok(a@),
        }
    }
}

/// A request for an account asks those three things in that order, stops at the
/// first that fails, and comes to what they say.
pub proof fn law_account_request(
    initialized: bool,
    bank: Result<(), ErrorReport>,
    account: Option<AccountSharedData>,
)
    ensures
        ({
            let outcome = account_outcome(initialized, bank, account);
            match account_next(AccountEvent::Processor { initialized }) {
                AccountNext::Fail(text) => outcome == Err::<AccountView, Seq<char>>(text),
                AccountNext::Ask(ask) => {
                    &&& ask == AccountAsk::Bank(any_bank(CommitmentLevel::Processed))
                    &&& match account_next(AccountEvent::Bank(bank)) {
                        AccountNext::Fail(text) => outcome == Err::<AccountView, Seq<char>>(text),
                        AccountNext::Ask(ask) => {
                            &&& ask is Lookup
                            &&& match account_next(AccountEvent::Account(account)) {
                                AccountNext::Fail(text) => outcome == Err::<AccountView, Seq<char>>(
                                    text,
                                ),
                                AccountNext::Reply(v) => outcome == Ok::<AccountView, Seq<char>>(v),
                                AccountNext::Ask(_) => false,
                            }
                        },
                        AccountNext::Reply(_) => false,
                    }
                },
                AccountNext::Reply(_) => false,
            }
        }),
{
}

/// What a request for several accounts comes to, by what the service says when
/// asked whether it is there, for a bank, and for the accounts, in that order.
pub open spec fn multiple_outcome(
    initialized: bool,
    bank: Result<(), ErrorReport>,
    results: Seq<TaskResult>,
) -> Result<Seq<Option<AccountView>>, Seq<char>> {
    if !initialized {
        Err("get_multiple_account JRP not initialized"@)
    } else {
        match bank {
            Err(e) => Err("get_multiple_account get_bank failed: "@ + e.display@),
            Ok(_) => Ok(found(results)),
        }
    }
}

/// A request for several accounts asks those three things in that order, stops at
/// the first that fails, and comes to what they say.
pub proof fn law_multiple_request(
    initialized: bool,
    bank: Result<(), ErrorReport>,
    results: Vec<TaskResult>,
)
    ensures
        ({
            let outcome = multiple_outcome(initialized, bank, results@);
            match multiple_next(MultipleEvent::Processor { initialized }) {
                MultipleNext::Fail(text) => outcome == Err::<Seq<Option<AccountView>>, Seq<char>>(
                    text,
                ),
                MultipleNext::Ask(ask) => {
                    &&& ask == MultipleAsk::Bank(any_bank(CommitmentLevel::Processed))
                    &&& match multiple_next(MultipleEvent::Bank(bank)) {
                        MultipleNext::Fail(text) => outcome == Err::<
                            Seq<Option<AccountView>>,
                            Seq<char>,
                        >(text),
                        MultipleNext::Ask(ask) => {
                            &&& ask is Lookup
                            &&& match multiple_next(MultipleEvent::Accounts(results)) {
                                MultipleNext::Reply(vs) => outcome == Ok::<
                                    Seq<Option<AccountView>>,
                                    Seq<char>,
                                >(vs),
                                _ => false,
                            }
                        },
                        MultipleNext::Reply(_) => false,
                    }
                },
                MultipleNext::Reply(_) => false,
            }
        }),
{
}

/// What a simulation request comes to, by what the service says when asked to
/// decode, whether it is there, for a bank, to sanitize and to simulate, in that
/// order.
pub open spec fn simulate_outcome(
    decoded: Result<VersionedTransaction, ErrorReport>,
    initialized: bool,
    bank: Result<(), ErrorReport>,
    sanitized: Result<(), ErrorReport>,
    res: TransactionSimulationResult,
) -> Result<TransactionSimulationResult, Failure> {
    match decoded {
        Err(e) => Err(Failure::Decode(e)),
        Ok(_) => if !initialized {
            Err(Failure::NotInitialized)
        } else {
            match bank {
                Err(e) => Err(Failure::Bank(e)),
                Ok(_) => match sanitized {
                    Err(e) => Err(Failure::Sanitize(e)),
                    Ok(_) => Ok(res),
                },
            }
        },
    }
}

/// Where a request that is answered with `events`, one after the other, has got
/// to. What comes after the end is not looked at.
pub open spec fn after_events(
    inner_instructions: bool,
    ask: SimulateAsk,
    events: Seq<SimulateEvent>,
) -> SimulateNext
    decreases events.len(),
{
    if events.len() == 0 {
        SimulateNext::Ask(ask)
    } else {
        match simulate_next(inner_instructions, ask, events[0]) {
            SimulateNext::Ask(next) => after_events(inner_instructions, next, events.drop_first()),
            end => end,
        }
    }
}

/// What the service says to a simulation request, up to the blockhash.
pub open spec fn first_answers(
    decoded: Result<VersionedTransaction, ErrorReport>,
    initialized: bool,
    bank: Result<(), ErrorReport>,
    hash: [u8; 32],
) -> Seq<SimulateEvent> {
    seq![
        SimulateEvent::Decoded(decoded),
        SimulateEvent::Processor { initialized },
        SimulateEvent::Bank(bank),
        SimulateEvent::LastBlockhash(hash),
    ]
}

/// What the service says to a simulation request.
pub open spec fn all_answers(
    decoded: Result<VersionedTransaction, ErrorReport>,
    initialized: bool,
    bank: Result<(), ErrorReport>,
    hash: [u8; 32],
    sanitized: Result<(), ErrorReport>,
    res: TransactionSimulationResult,
) -> Seq<SimulateEvent> {
    first_answers(decoded, initialized, bank, hash).push(SimulateEvent::Sanitized(sanitized)).push(
        SimulateEvent::Simulated(res),
    )
}

/// A simulation request asks those things in that order, in any bank that is
/// processed, and has the transaction sanitized with the last blockhash of that
/// bank put in; it stops at the first that fails, and comes to what they say.
pub proof fn law_simulate_request(
    inner_instructions: bool,
    ask: SimulateAsk,
    decoded: Result<VersionedTransaction, ErrorReport>,
    initialized: bool,
    bank: Result<(), ErrorReport>,
    hash: [u8; 32],
    sanitized: Result<(), ErrorReport>,
    res: TransactionSimulationResult,
)
    requires
        ask is Decode,
    ensures
        ({
            let answers = all_answers(decoded, initialized, bank, hash, sanitized, res);
            let after = |n: int| after_events(inner_instructions, ask, answers.take(n));
            let config = any_bank(CommitmentLevel::Processed);
            &&& decoded matches Ok(transaction) ==> {
                &&& after(1) == SimulateNext::Ask(SimulateAsk::Processor { transaction })
                &&& initialized ==> {
                    &&& after(2) == SimulateNext::Ask(SimulateAsk::Bank { config, transaction })
                    &&& bank is Ok ==> {
                        let sent = with_blockhash(transaction, hash);
                        &&& after(3) == SimulateNext::Ask(
                            SimulateAsk::LastBlockhash { transaction },
                        )
                        &&& after(4) == SimulateNext::Ask(
                            SimulateAsk::Sanitize { transaction: sent },
                        )
                        &&& sanitized is Ok ==> after(5) == SimulateNext::Ask(
                            SimulateAsk::Simulate { inner_instructions },
                        )
                    }
                }
            }
            &&& after(6) == match simulate_outcome(decoded, initialized, bank, sanitized, res) {
                Ok(r) => SimulateNext::Reply(r),
                Err(failure) => SimulateNext::Fail(failure),
            }
        }),
{
    reveal_with_fuel(after_events, 7);
}

/// What is read of the error of a transaction.
pub open spec fn error_contents(result: Result<(), String>) -> Option<Seq<u8>> {
    match result {
        Ok(_) => None,
        Err(text) => Some(encode_utf8(text@)),
    }
}

/// What is read of what a request came to: the error, the lines, the units and, if
/// wanted, the accounts of the simulation, or just the error text of the failure.
pub open spec fn outcome_contents(
    need_account: bool,
    outcome: Result<TransactionSimulationResult, Failure>,
) -> SimulateContents {
    match outcome {
        Ok(res) => SimulateContents {
            error: error_contents(res.result),
            logs: Seq::new(res.logs@.len(), |i: int| encode_utf8(res.logs@[i]@)),
            units_consumed: res.units_consumed,
            post_accounts: match wanted(need_account, res) {
                Some(vs) => Some(Seq::new(vs.len(), |i: int| (vs[i].0, Some(vs[i].1)))),
                None => None,
            },
        },
        Err(failure) => SimulateContents {
            error: Some(encode_utf8(failure_text(Version::V1, failure))),
            logs: Seq::empty(),
            units_consumed: 0,
            post_accounts: None,
        },
    }
}

/// What is read of what a request with an encoded reply came to: the error and the
/// encoding, or just the error text of the failure.
pub open spec fn outcome_contents_v2(
    need_account: bool,
    outcome: Result<TransactionSimulationResult, Failure>,
) -> SimulateContentsV2 {
    match outcome {
        Ok(res) if encoded_outcome(need_account, res) is Some => SimulateContentsV2 {
            error: error_contents(res.result),
            data: encoded_outcome(need_account, res),
        },
        Ok(_) => SimulateContentsV2 {
            error: Some(encode_utf8(failure_text(Version::V2, Failure::Panicked))),
            data: None,
        },
        Err(failure) => SimulateContentsV2 {
            error: Some(encode_utf8(failure_text(Version::V2, failure))),
            data: None,
        },
    }
}

/// `r` answers a request that came to `outcome`.
pub open spec fn answered(
    before: Memory,
    after: Memory,
    r: SimulateResultRepr,
    need_account: bool,
    outcome: Result<TransactionSimulationResult, Failure>,
) -> bool {
    match outcome {
        Ok(res) => simulated(before, after, r, need_account, res),
        Err(failure) => simulate_failed(before, after, r, failure_text(Version::V1, failure)),
    }
}

/// `r` answers a request with an encoded reply that came to `outcome`.
pub open spec fn answered_v2(
    before: Memory,
    after: Memory,
    r: SimulateResultC,
    need_account: bool,
    outcome: Result<TransactionSimulationResult, Failure>,
) -> bool {
    match outcome {
        Ok(res) => simulated_v2(before, after, r, res.result, encoded_outcome(need_account, res)),
        Err(failure) => simulate_failed_v2(before, after, r, failure_text(Version::V2, failure)),
    }
}

proof fn lemma_bytes_read(m: Memory, p: Pointer, len: usize, bytes: Seq<u8>)
    requires
        bytes_at(m, p, len, bytes),
    ensures
        read_bytes(m, p, len) == bytes,
        read_optional(m, p, len) == Some(bytes),
{
    assert(read_bytes(m, p, len) =~= bytes);
}

/// An account that was handed over reads back as itself.
pub proof fn law_account_read_back(m: Memory, p: Pointer, v: AccountView)
    requires
        account_at(m, p, v),
    ensures
        read_account(m, p) == Some(v),
{
    let c = account_behind(m, p)->0;
    lemma_bytes_read(m, c.data_ptr, c.data_len, v.data);
}

/// What is read out of the reply to a simulation request is what the request came
/// to.
pub proof fn law_reply_read_back(
    before: Memory,
    after: Memory,
    r: SimulateResultRepr,
    need_account: bool,
    outcome: Result<TransactionSimulationResult, Failure>,
)
    requires
        answered(before, after, r, need_account, outcome),
    ensures
        read_reply(after, r) == outcome_contents(need_account, outcome),
{
    let expected = outcome_contents(need_account, outcome);
    match outcome {
        Ok(res) => {
            if let Err(text) = res.result {
                lemma_bytes_read(after, r.error_ptr, r.error_len, encode_utf8(text@));
            }
            let entries = log_entries(after, r.logs);
            let lines = texts(res.logs@);
            assert forall|i: int| 0 <= i < lines.len() implies #[trigger] read_logs(
                after,
                r.logs,
            )[i] == expected.logs[i] by {
                lemma_bytes_read(after, entries[i].ptr, entries[i].len, encode_utf8(lines[i]));
            }
            assert(read_logs(after, r.logs) =~= expected.logs);
            if need_account {
                let posts = post_entries(after, r.post_accounts);
                let vs = wanted(need_account, res)->0;
                let read = read_posts(after, r.post_accounts)->0;
                assert forall|i: int| 0 <= i < vs.len() implies #[trigger] read[i]
                    == expected.post_accounts->0[i] by {
                    assert(posts[i].pubkey == vs[i].0.bytes);
                    assert(account_ptrs(posts)[i] == posts[i].account);
                    assert(present(vs)[i] == Some(vs[i].1));
                    law_account_read_back(after, posts[i].account, vs[i].1);
                }
                assert(read =~= expected.post_accounts->0);
            }
        },
        Err(failure) => {
            let text = failure_text(Version::V1, failure);
            lemma_bytes_read(after, r.error_ptr, r.error_len, encode_utf8(text));
            assert(read_logs(after, r.logs) =~= expected.logs);
        },
    }
}

/// So it is with an encoded reply.
pub proof fn law_reply_v2_read_back(
    before: Memory,
    after: Memory,
    r: SimulateResultC,
    need_account: bool,
    outcome: Result<TransactionSimulationResult, Failure>,
)
    requires
        answered_v2(before, after, r, need_account, outcome),
    ensures
        read_reply_v2(after, r) == outcome_contents_v2(need_account, outcome),
{
    match outcome {
        Ok(res) => match encoded_outcome(need_account, res) {
            Some(data) => {
                if let Err(text) = res.result {
                    lemma_bytes_read(after, r.error_ptr, r.error_len, encode_utf8(text@));
                }
                lemma_bytes_read(after, r.data_ptr, r.data_len, data);
            },
            None => {
                let text = failure_text(Version::V2, Failure::Panicked);
                lemma_bytes_read(after, r.error_ptr, r.error_len, encode_utf8(text));
            },
        },
        Err(failure) => {
            let text = failure_text(Version::V2, failure);
            lemma_bytes_read(after, r.error_ptr, r.error_len, encode_utf8(text));
        },
    }
}

/// The blockhash that a transaction is submitted with is ignored: two requests
/// whose transactions differ in nothing else, with the same answers up to the last
/// blockhash of the bank, have the same transaction sanitized, with the blockhash
/// of the bank in it.
pub proof fn law_submitted_blockhash_ignored(
    inner_instructions: bool,
    one: VersionedTransaction,
    other: VersionedTransaction,
    one_ask: SimulateAsk,
    other_ask: SimulateAsk,
    hash: [u8; 32],
)
    requires
        same_but_blockhash(one@, other@),
        one_ask is Decode,
        other_ask is Decode,
    ensures
        ({
            let one_next = after_events(
                inner_instructions,
                one_ask,
                first_answers(Ok(one), true, Ok(()), hash),
            );
            let other_next = after_events(
                inner_instructions,
                other_ask,
                first_answers(Ok(other), true, Ok(()), hash),
            );
            &&& one_next matches SimulateNext::Ask(SimulateAsk::Sanitize { transaction: a })
            &&& other_next matches SimulateNext::Ask(SimulateAsk::Sanitize { transaction: b })
            &&& a@ == b@
            &&& a@.message.recent_blockhash == hash
        }),
{
    reveal_with_fuel(after_events, 5);
}

/// With the same answers after that too, the two requests come to the same, and
/// their replies, wherever they are in memory, have the same contents.
pub proof fn law_submitted_blockhash_unseen(
    need_account: bool,
    one: VersionedTransaction,
    other: VersionedTransaction,
    initialized: bool,
    bank: Result<(), ErrorReport>,
    sanitized: Result<(), ErrorReport>,
    res: TransactionSimulationResult,
    one_before: Memory,
    one_after: Memory,
    one_reply: SimulateResultRepr,
    other_before: Memory,
    other_after: Memory,
    other_reply: SimulateResultRepr,
)
    requires
        same_but_blockhash(one@, other@),
        answered(
            one_before,
            one_after,
            one_reply,
            need_account,
            simulate_outcome(Ok(one), initialized, bank, sanitized, res),
        ),
        answered(
            other_before,
            other_after,
            other_reply,
            need_account,
            simulate_outcome(Ok(other), initialized, bank, sanitized, res),
        ),
    ensures
        read_reply(one_after, one_reply) == read_reply(other_after, other_reply),
{
    let outcome = simulate_outcome(Ok(one), initialized, bank, sanitized, res);
    law_reply_read_back(one_before, one_after, one_reply, need_account, outcome);
    law_reply_read_back(other_before, other_after, other_reply, need_account, outcome);
}

/// So it is with encoded replies.
pub proof fn law_submitted_blockhash_unseen_v2(
    need_account: bool,
    one: VersionedTransaction,
    other: VersionedTransaction,
    initialized: bool,
    bank: Result<(), ErrorReport>,
    sanitized: Result<(), ErrorReport>,
    res: TransactionSimulationResult,
    one_before: Memory,
    one_after: Memory,
    one_reply: SimulateResultC,
    other_before: Memory,
    other_after: Memory,
    other_reply: SimulateResultC,
)
    requires
        same_but_blockhash(one@, other@),
        answered_v2(
            one_before,
            one_after,
            one_reply,
            need_account,
            simulate_outcome(Ok(one), initialized, bank, sanitized, res),
        ),
        answered_v2(
            other_before,
            other_after,
            other_reply,
            need_account,
            simulate_outcome(Ok(other), initialized, bank, sanitized, res),
        ),
    ensures
        read_reply_v2(one_after, one_reply) == read_reply_v2(other_after, other_reply),
{
    let outcome = simulate_outcome(Ok(one), initialized, bank, sanitized, res);
    law_reply_v2_read_back(one_before, one_after, one_reply, need_account, outcome);
    law_reply_v2_read_back(other_before, other_after, other_reply, need_account, outcome);
}

} // verus!
