//! What comes of a request, said of what the service answered, of memory and of
//! bytes alone.
use crate::accounts::{account_at, account_behind, account_blocks, all_blocks};
use crate::blockhash::{
    answers_blockhash, blockhash_step, BlockhashAsk, BlockhashEvent, BlockhashStep,
};
use crate::bytes::{line_blocks, log_blocks, log_entries};
use crate::codec::{bincode_bytes, encodable};
use crate::encoded::{
    encoded_outcome, simulate_begun_v2, simulate_failed_v2, simulate_res, simulate_step_v2,
    SimulateStepV2,
};
use crate::heap::{BlockView, Memory, Pointer};
use crate::laws::{
    law_account_read_back, law_failure_freed, law_failure_v2_freed, law_reply_read_back,
};
use crate::lookup::{
    account_step, answers_account, answers_multiple, array_blocks, array_entries, multiple_begun,
    multiple_step, AccountAsk, AccountCall, AccountEvent, AccountStep, MultipleAsk, MultipleCall,
    MultipleEvent, MultipleStep,
};
use crate::memory::{at, bytes_at, c_str_at, grows, texts};
use crate::posts::{account_ptrs, post_blocks, post_entries, present};
use crate::promises::{law_account_handed_over, law_buffer_handed_over, law_c_str_handed_over};
use crate::pubkeys::keys_at;
use crate::reading::{read_account, read_posts};
use crate::repr::{PubkeyArray, SimulateResultC, SimulateResultRepr};
use crate::service::{found, CommitmentLevel, RpcContextConfig, TaskResult};
use crate::simulate::{
    answers_simulate, failure_text, Failure, SimulateAsk, SimulateCall, SimulateEvent, Version,
};
use crate::structured::{
    error_at, simulate_begun, simulate_failed, simulate_step, wanted, SimulateStep,
};
use crate::transaction::same_but_blockhash;
use crate::values::{
    AccountSharedData, AccountView, InnerInstructionView, SimulateResView,
    TransactionSimulationResult,
};
use vstd::prelude::*;
use vstd::utf8::{decode_utf8, encode_utf8, valid_utf8};

verus! {

/// Which events answer which question of an account request: those that are about
/// it, as long as what has to go into a C string can, and a panic at any time.
pub proof fn law_account_answers(ask: AccountAsk, event: AccountEvent)
    ensures
        answers_account(ask, event) <==> match event {
            AccountEvent::Processor { .. } => ask is Processor,
            AccountEvent::Bank(Ok(_)) => ask is Bank,
            AccountEvent::Bank(Err(e)) => ask is Bank && !e.display@.contains('\0'),
            AccountEvent::Account(_) => ask is Lookup,
            AccountEvent::Panicked(p) => match (p.as_str, p.as_string) {
                (Some(s), _) => !s@.contains('\0'),
                (None, Some(s)) => !s@.contains('\0'),
                (None, None) => true,
            },
        },
{
    reveal_strlit("Unknown panic occurred");
}

/// An account request asks for any processed bank once the service is there, and
/// for the account of its own address once the bank is there. The account that is
/// found is handed over field by field; whatever else happens, the reply is one C
/// string that says what.
pub proof fn law_get_account(
    before: Memory,
    after: Memory,
    call: AccountCall,
    event: AccountEvent,
    step: AccountStep,
)
    requires
        account_step(before, after, call, event, step),
    ensures
        match event {
            AccountEvent::Processor { initialized: true } => {
                let config = RpcContextConfig {
                    commitment: Some(CommitmentLevel::Processed),
                    min_context_slot: Some(0),
                };
                &&& step == AccountStep::Ask(
                    AccountCall { pk: call.pk, ask: AccountAsk::Bank(config) },
                )
                &&& after == before
            },
            AccountEvent::Bank(Ok(_)) => {
                &&& step == AccountStep::Ask(AccountCall { pk: call.pk, ask: AccountAsk::Lookup })
                &&& after == before
            },
            AccountEvent::Account(Some(a)) => {
                &&& step matches AccountStep::Done(r)
                &&& r.error_msg is Null
                &&& r.account matches Pointer::To(q)
                &&& !before.contains_key(q)
                &&& after.contains_key(q)
                &&& after[q] matches BlockView::Account(c)
                &&& c.lamports == a.lamports
                &&& c.owner == a.owner.bytes
                &&& a.executable ==> c.executable == 1
                &&& !a.executable ==> c.executable == 0
                &&& c.rent_epoch == a.rent_epoch
                &&& c.data_len == a.data@.len()
                &&& a.data@.len() == 0 ==> c.data_ptr is Dangling && after == before.insert(
                    q,
                    BlockView::Account(c),
                )
                &&& a.data@.len() > 0 ==> {
                    &&& c.data_ptr matches Pointer::To(d)
                    &&& d != q
                    &&& !before.contains_key(d)
                    &&& after == before.insert(d, BlockView::Bytes(a.data@)).insert(
                        q,
                        BlockView::Account(c),
                    )
                }
            },
            _ => {
                let text = match event {
                    AccountEvent::Bank(Err(e)) => "get_account get_bank failed: "@ + e.display@,
                    AccountEvent::Account(_) => "get_account bank.get_account"@,
                    AccountEvent::Panicked(p) => match (p.as_str, p.as_string) {
                        (Some(s), _) => s@,
                        (None, Some(s)) => s@,
                        (None, None) => "Unknown panic occurred"@,
                    },
                    _ => "get_account JRP not initialized"@,
                };
                &&& step matches AccountStep::Done(r)
                &&& r.account is Null
                &&& r.error_msg matches Pointer::To(p)
                &&& !before.contains_key(p)
                &&& after == before.insert(p, BlockView::CStr(encode_utf8(text).push(0)))
            },
        },
{
    if let AccountStep::Done(r) = step {
        if let AccountEvent::Account(Some(a)) = event {
            law_account_handed_over(before, after, r.account, a);
        } else {
            let text = choose|text: Seq<char>|
                #![trigger c_str_at(after, r.error_msg, text)]
                c_str_at(after, r.error_msg, text);
            law_c_str_handed_over(before, after, r.error_msg, text);
        }
    }
}

/// Which events answer which question of a request for several accounts: those
/// that are about it, with one lookup for each address, as long as what has to go
/// into a C string can, and a panic at any time.
pub proof fn law_multiple_answers(call: MultipleCall, event: MultipleEvent)
    ensures
        call.wf() <==> call.pks@.len() > 0,
        answers_multiple(call, event) <==> match event {
            MultipleEvent::Processor { .. } => call.ask is Processor,
            MultipleEvent::Bank(Ok(_)) => call.ask is Bank,
            MultipleEvent::Bank(Err(e)) => call.ask is Bank && !e.display@.contains('\0'),
            MultipleEvent::Accounts(results) => call.ask is Lookup && results@.len()
                == call.pks@.len(),
            MultipleEvent::Panicked(p) => match (p.as_str, p.as_string) {
                (Some(s), _) => !s@.contains('\0'),
                (None, Some(s)) => !s@.contains('\0'),
                (None, None) => true,
            },
        },
{
    reveal_strlit("Unknown panic occurred");
}

/// A request for several accounts takes the addresses out of the array byte for
/// byte and in order, and frees the array. With no address in it, the reply is one
/// C string that says so.
pub proof fn law_multiple_begins(
    before: Memory,
    after: Memory,
    array: PubkeyArray,
    step: MultipleStep,
)
    requires
        multiple_begun(before, after, array, step),
        array.ptr !is Null && array.len > 0 ==> keys_at(before, array),
    ensures
        array.ptr is Null || array.len == 0 ==> {
            &&& step matches MultipleStep::Done(r)
            &&& r.ptr is Null
            &&& r.len == 0
            &&& r.error_msg matches Pointer::To(p)
            &&& !before.contains_key(p)
            &&& after == before.insert(p, BlockView::CStr(encode_utf8("pks len = 0"@).push(0)))
        },
        array.ptr !is Null && array.len > 0 ==> {
            &&& array.ptr matches Pointer::To(a)
            &&& before.contains_key(a)
            &&& before[a] matches BlockView::Pubkeys(keys)
            &&& after == before.remove(a)
            &&& step matches MultipleStep::Ask(call)
            &&& call.ask is Processor
            &&& call.pks@.len() == array.len
            &&& keys.len() == array.len
            &&& forall|i: int|
                0 <= i < keys.len() ==> (#[trigger] call.pks@[i]).bytes == keys[i].bytes
        },
{
    if let MultipleStep::Done(r) = step {
        law_c_str_handed_over(before, after, r.error_msg, "pks len = 0"@);
    }
}

/// A request for several accounts asks for any processed bank once the service is
/// there, and for the accounts of its own addresses once the bank is there.
/// Whatever goes wrong, the reply is one C string that says what.
pub proof fn law_get_multiple_account(
    before: Memory,
    after: Memory,
    call: MultipleCall,
    event: MultipleEvent,
    step: MultipleStep,
)
    requires
        multiple_step(before, after, call, event, step),
    ensures
        match event {
            MultipleEvent::Processor { initialized: true } => {
                let config = RpcContextConfig {
                    commitment: Some(CommitmentLevel::Processed),
                    min_context_slot: Some(0),
                };
                &&& step matches MultipleStep::Ask(asked)
                &&& asked.pks@ == call.pks@
                &&& asked.ask == MultipleAsk::Bank(config)
                &&& after == before
            },
            MultipleEvent::Bank(Ok(_)) => {
                &&& step matches MultipleStep::Ask(asked)
                &&& asked.pks@ == call.pks@
                &&& asked.ask is Lookup
                &&& after == before
            },
            MultipleEvent::Accounts(_) => step is Done,
            _ => {
                let text = match event {
                    MultipleEvent::Bank(Err(e)) => "get_multiple_account get_bank failed: "@
                        + e.display@,
                    MultipleEvent::Panicked(p) => match (p.as_str, p.as_string) {
                        (Some(s), _) => s@,
                        (None, Some(s)) => s@,
                        (None, None) => "Unknown panic occurred"@,
                    },
                    _ => "get_multiple_account JRP not initialized"@,
                };
                &&& step matches MultipleStep::Done(r)
                &&& r.ptr is Null
                &&& r.len == 0
                &&& r.error_msg matches Pointer::To(p)
                &&& !before.contains_key(p)
                &&& after == before.insert(p, BlockView::CStr(encode_utf8(text).push(0)))
            },
        },
{
    if let MultipleStep::Done(r) = step {
        if event !is Accounts {
            let text = choose|text: Seq<char>|
                #![trigger c_str_at(after, r.error_msg, text)]
                c_str_at(after, r.error_msg, text);
            law_c_str_handed_over(before, after, r.error_msg, text);
        }
    }
}

/// The accounts that were looked up are in an array, each at the place of its
/// address: null where none was found, else a new block of its own with its own
/// fields, and its data in another, unless empty. There are no other new blocks,
/// and nothing that lived before has changed.
pub proof fn law_multiple_entry(
    before: Memory,
    after: Memory,
    call: MultipleCall,
    results: Vec<TaskResult>,
    step: MultipleStep,
    i: int,
)
    requires
        multiple_step(before, after, call, MultipleEvent::Accounts(results), step),
        call.pks@.len() == results@.len(),
        results@.len() > 0,
    ensures
        ({
            &&& step matches MultipleStep::Done(r)
            &&& r.error_msg is Null
            &&& r.len == call.pks@.len()
            &&& r.ptr matches Pointer::To(p)
            &&& !before.contains_key(p)
            &&& after.contains_key(p)
            &&& after[p] matches BlockView::Accounts(ptrs)
            &&& ptrs.len() == call.pks@.len()
            &&& 0 <= i < ptrs.len() ==> match results@[i] {
                TaskResult::Completed(Some(a)) => {
                    &&& ptrs[i] matches Pointer::To(q)
                    &&& q != p
                    &&& !before.contains_key(q)
                    &&& after.contains_key(q)
                    &&& forall|j: int|
                        0 <= j < ptrs.len() && j != i ==> #[trigger] ptrs[j] != Pointer::To(q)
                    &&& after[q] matches BlockView::Account(c)
                    &&& c.lamports == a.lamports
                    &&& c.owner == a.owner.bytes
                    &&& a.executable ==> c.executable == 1
                    &&& !a.executable ==> c.executable == 0
                    &&& c.rent_epoch == a.rent_epoch
                    &&& c.data_len == a.data@.len()
                    &&& a.data@.len() == 0 ==> c.data_ptr is Dangling
                    &&& a.data@.len() > 0 ==> {
                        &&& c.data_ptr matches Pointer::To(d)
                        &&& d != p
                        &&& !before.contains_key(d)
                        &&& after.contains_key(d)
                        &&& after[d] == BlockView::Bytes(a.data@)
                        &&& forall|j: int|
                            0 <= j < ptrs.len() && j != i && #[trigger] ptrs[j] is To
                                ==> after[ptrs[j]->To_0]->Account_0.data_ptr != Pointer::To(d)
                    }
                },
                _ => ptrs[i] is Null,
            }
            &&& forall|k: usize| #[trigger]
                after.contains_key(k) && !before.contains_key(k) && k != p ==> exists|j: int|
                    0 <= j < ptrs.len() && (#[trigger] ptrs[j] == Pointer::To(k) || (ptrs[j] is To
                        && after[ptrs[j]->To_0]->Account_0.data_ptr == Pointer::To(k)))
        }),
        forall|k: usize| #[trigger] before.contains_key(k) ==> after.contains_key(k) && after[k]
            == before[k],
{
    let r = step->Done_0;
    let vs = found(results@);
    let p = r.ptr->To_0;
    let ptrs = array_entries(after, r);
    assert(array_blocks(after, r).contains(p)) by {
        assert(at(r.ptr).contains(p));
    }
    assert(after[p] == BlockView::Accounts(ptrs));
    assert forall|j: int| 0 <= j < ptrs.len() implies match vs[j] {
        Some(v) => account_at(after, #[trigger] ptrs[j], v),
        None => ptrs[j] is Null,
    } by {}
    assert forall|j: int, k: usize|
        0 <= j < ptrs.len() && #[trigger] account_blocks(after, ptrs[j]).contains(
            k,
        ) implies array_blocks(after, r).contains(k) && k != p by {
        assert(all_blocks(after, ptrs).contains(k));
    }
    assert forall|k: usize| #[trigger]
        after.contains_key(k) && !before.contains_key(k) && k != p implies exists|j: int|
        0 <= j < ptrs.len() && (#[trigger] ptrs[j] == Pointer::To(k) || (ptrs[j] is To
            && after[ptrs[j]->To_0]->Account_0.data_ptr == Pointer::To(k))) by {
        assert(all_blocks(after, ptrs).contains(k));
        let j = choose|j: int|
            0 <= j < ptrs.len() && account_blocks(after, #[trigger] ptrs[j]).contains(k);
        assert(account_behind(after, ptrs[j]) is Some);
        assert(ptrs[j] == Pointer::To(k) || after[ptrs[j]->To_0]->Account_0.data_ptr == Pointer::To(
            k,
        ));
    }
    if 0 <= i < ptrs.len() {
        if let TaskResult::Completed(Some(a)) = results@[i] {
            assert(vs[i] == Some(a@));
            assert(account_at(after, ptrs[i], a@));
            let q = ptrs[i]->To_0;
            let c = after[q]->Account_0;
            assert(account_blocks(after, ptrs[i]).contains(q));
            assert forall|j: int| 0 <= j < ptrs.len() && j != i implies account_blocks(
                after,
                ptrs[i],
            ).disjoint(account_blocks(after, #[trigger] ptrs[j])) by {
                if j < i {
                    assert(account_blocks(after, ptrs[j]).disjoint(account_blocks(after, ptrs[i])));
                }
            }
            assert forall|j: int| 0 <= j < ptrs.len() && j != i implies #[trigger] ptrs[j]
                != Pointer::To(q) by {
                assert(at(Pointer::To(q)).contains(q));
            }
            if let Pointer::To(d) = c.data_ptr {
                assert(account_blocks(after, ptrs[i]).contains(d));
                assert forall|j: int|
                    0 <= j < ptrs.len() && j != i && #[trigger] ptrs[j] is To implies after[
                    ptrs[j]->To_0
                ]->Account_0.data_ptr != Pointer::To(d) by {
                    assert(account_behind(after, ptrs[j]) is Some);
                    assert(!account_blocks(after, ptrs[j]).contains(d));
                }
            }
        } else {
            assert(vs[i] is None);
        }
    }
}

/// Which events answer which question of a blockhash request, and a panic at any
/// time.
pub proof fn law_blockhash_answers(ask: BlockhashAsk, event: BlockhashEvent)
    ensures
        answers_blockhash(ask, event) <==> match event {
            BlockhashEvent::Processor { .. } => ask is Processor,
            BlockhashEvent::Bank(_) => ask is Bank,
            BlockhashEvent::LastBlockhash(_) => ask is LastBlockhash,
            BlockhashEvent::Panicked => true,
        },
{
}

/// A blockhash request asks for any confirmed bank once the service is there, and
/// for its blockhash once the bank is there; that blockhash is the reply, and 32
/// zeros whatever goes wrong.
pub proof fn law_get_latest_blockhash(event: BlockhashEvent, step: BlockhashStep)
    requires
        blockhash_step(event, step),
    ensures
        match event {
            BlockhashEvent::Processor { initialized: true } => step == BlockhashStep::Ask(
                BlockhashAsk::Bank(
                    RpcContextConfig {
                        commitment: Some(CommitmentLevel::Confirmed),
                        min_context_slot: Some(0),
                    },
                ),
            ),
            BlockhashEvent::Bank(Ok(_)) => step == BlockhashStep::Ask(BlockhashAsk::LastBlockhash),
            BlockhashEvent::LastBlockhash(hash) => step == BlockhashStep::Done(hash),
            _ => step matches BlockhashStep::Done(hash) && forall|i: int|
                0 <= i < 32 ==> #[trigger] hash@[i] == 0,
        },
{
}

/// Which events answer which question of a request to simulate, and a panic at any
/// time.
pub proof fn law_simulate_answers(ask: SimulateAsk, event: SimulateEvent)
    ensures
        answers_simulate(ask, event) <==> match event {
            SimulateEvent::Decoded(_) => ask is Decode,
            SimulateEvent::Processor { .. } => ask is Processor,
            SimulateEvent::Bank(_) => ask is Bank,
            SimulateEvent::LastBlockhash(_) => ask is LastBlockhash,
            SimulateEvent::Sanitized(_) => ask is Sanitize,
            SimulateEvent::Simulated(_) => ask is Simulate,
            SimulateEvent::Panicked => true,
        },
{
}

/// A request to simulate takes the text out of the bytes it is given, as base64,
/// and changes nothing. Without bytes, or where they are no text, the reply gives
/// the error text and is empty otherwise.
pub proof fn law_simulate_begins(
    before: Memory,
    after: Memory,
    data: Pointer,
    data_len: usize,
    need_account: bool,
    step: SimulateStep,
    a: usize,
    bytes: Seq<u8>,
)
    requires
        simulate_begun(before, after, data, data_len, need_account, step),
        data !is Null && data_len > 0 ==> data == Pointer::To(a) && before.contains_key(a)
            && data_len <= bytes.len() && match before[a] {
            BlockView::Bytes(b) => b == bytes,
            BlockView::Vector { bytes: b, .. } => b == bytes,
            BlockView::CStr(b) => b == bytes,
            _ => false,
        },
    ensures
        ({
            let none = data is Null || data_len == 0;
            let taken = bytes.take(data_len as int);
            if none || !valid_utf8(taken) {
                let text = if none {
                    "simulate_transaction: data is null or empty"@
                } else {
                    "simulate_transaction: invalid UTF-8 in data"@
                };
                &&& step matches SimulateStep::Done(r)
                &&& r.logs.ptr is Null
                &&& r.logs.len == 0
                &&& r.units_consumed == 0
                &&& r.post_accounts.ptr is Null
                &&& r.post_accounts.len == 0
                &&& r.error_len == encode_utf8(text).len()
                &&& r.error_ptr matches Pointer::To(e)
                &&& !before.contains_key(e)
                &&& after == before.insert(e, BlockView::Bytes(encode_utf8(text)))
            } else {
                &&& after == before
                &&& step matches SimulateStep::Ask(call)
                &&& call.need_account == need_account
                &&& call.need_inner_ix == false
                &&& call.ask matches SimulateAsk::Decode { encoded, encoding }
                &&& encoded@ == decode_utf8(taken)
                &&& encoding is Base64
            }
        }),
{
    if let SimulateStep::Done(r) = step {
        let failure = if data is Null || data_len == 0 {
            Failure::NoData
        } else {
            Failure::NotUtf8
        };
        lemma_failed(before, after, r, failure);
    }
}

/// A request to simulate asks whether the service is there once the transaction is
/// decoded, then for any processed bank, then for its blockhash, then for the
/// transaction to be sanitized, then for the simulation. It is the decoded
/// transaction that is sanitized, with nothing changed but the blockhash, which is
/// that of the bank.
pub proof fn law_simulate_asks(
    before: Memory,
    after: Memory,
    call: SimulateCall,
    event: SimulateEvent,
    step: SimulateStep,
)
    requires
        simulate_step(before, after, call, event, step),
    ensures
        step matches SimulateStep::Ask(next) ==> after == before && next.need_account
            == call.need_account && next.need_inner_ix == call.need_inner_ix,
        match (call.ask, event) {
            (SimulateAsk::Decode { .. }, SimulateEvent::Decoded(Ok(t))) => {
                &&& step matches SimulateStep::Ask(next)
                &&& next.ask == (SimulateAsk::Processor { transaction: t })
            },
            (
                SimulateAsk::Processor { transaction: t },
                SimulateEvent::Processor { initialized: true },
            ) => {
                &&& step matches SimulateStep::Ask(next)
                &&& next.ask matches SimulateAsk::Bank { config, transaction }
                &&& config.commitment == Some(CommitmentLevel::Processed)
                &&& config.min_context_slot == Some(0u64)
                &&& transaction == t
            },
            (SimulateAsk::Bank { transaction: t, .. }, SimulateEvent::Bank(Ok(_))) => {
                &&& step matches SimulateStep::Ask(next)
                &&& next.ask == (SimulateAsk::LastBlockhash { transaction: t })
            },
            (
                SimulateAsk::LastBlockhash { transaction: t },
                SimulateEvent::LastBlockhash(hash),
            ) => {
                &&& step matches SimulateStep::Ask(next)
                &&& next.ask matches SimulateAsk::Sanitize { transaction: a }
                &&& a.signatures == t.signatures
                &&& a.message.header == t.message.header
                &&& a.message.account_keys == t.message.account_keys
                &&& a.message.instructions == t.message.instructions
                &&& a.message.address_table_lookups == t.message.address_table_lookups
                &&& a.message.recent_blockhash == hash
                &&& same_but_blockhash(a@, t@)
                &&& a@.message.recent_blockhash == hash
            },
            (SimulateAsk::Sanitize { .. }, SimulateEvent::Sanitized(Ok(_))) => {
                &&& step matches SimulateStep::Ask(next)
                &&& next.ask matches SimulateAsk::Simulate { inner_instructions }
                &&& inner_instructions == false
            },
            _ => step is Done,
        },
{
}

/// Where something goes wrong before the simulation, the reply gives
/// the error text and is empty otherwise.
pub proof fn law_simulate_fails(
    before: Memory,
    after: Memory,
    call: SimulateCall,
    event: SimulateEvent,
    step: SimulateStep,
)
    requires
        simulate_step(before, after, call, event, step),
        answers_simulate(call.ask, event),
        match event {
            SimulateEvent::Decoded(d) => d is Err,
            SimulateEvent::Processor { initialized } => !initialized,
            SimulateEvent::Bank(b) => b is Err,
            SimulateEvent::LastBlockhash(_) => false,
            SimulateEvent::Sanitized(s) => s is Err,
            SimulateEvent::Simulated(_) => false,
            SimulateEvent::Panicked => true,
        },
    ensures
        ({
            let text = match event {
                SimulateEvent::Decoded(Err(e)) => "decode_and_deserialize error: "@
                    + e.debug@,
                SimulateEvent::Processor { .. } => "simulate_transaction JRP not initialized"@,
                SimulateEvent::Bank(Err(e)) => "simulate_transaction jrp.get_bank_with_config: "@
                    + e.debug@,
                SimulateEvent::Sanitized(Err(e)) => "sanitize_transaction error: "@ + e.debug@,
                _ => "simulate_transaction panic: Any { .. }"@,
            };
            &&& step matches SimulateStep::Done(r)
            &&& r.logs.ptr is Null
            &&& r.logs.len == 0
            &&& r.units_consumed == 0
            &&& r.post_accounts.ptr is Null
            &&& r.post_accounts.len == 0
            &&& r.error_len == encode_utf8(text).len()
            &&& r.error_ptr matches Pointer::To(e)
            &&& !before.contains_key(e)
            &&& after == before.insert(e, BlockView::Bytes(encode_utf8(text)))
        }),
{
    let failure = match event {
        SimulateEvent::Decoded(Err(e)) => Failure::Decode(e),
        SimulateEvent::Processor { .. } => Failure::NotInitialized,
        SimulateEvent::Bank(Err(e)) => Failure::Bank(e),
        SimulateEvent::Sanitized(Err(e)) => Failure::Sanitize(e),
        _ => Failure::Panicked,
    };
    lemma_failed(before, after, step->Done_0, failure);
}

proof fn lemma_failed(
    before: Memory,
    after: Memory,
    r: SimulateResultRepr,
    failure: Failure,
)
    requires
        simulate_failed(
            before,
            after,
            r,
            failure_text(Version::V1, failure),
        ),
    ensures
        ({
            let bytes = encode_utf8(failure_text(Version::V1, failure));
            &&& r.error_len == bytes.len()
            &&& r.error_ptr matches Pointer::To(e)
            &&& !before.contains_key(e)
            &&& after == before.insert(e, BlockView::Bytes(bytes))
        }),
{
    law_failure_freed(before, after, r, failure);
    law_buffer_handed_over(
        before,
        after,
        r.error_ptr,
        r.error_len,
        encode_utf8(failure_text(Version::V1, failure)),
    );
}

/// A request to simulate takes the text out of the bytes it is given, as base64,
/// and changes nothing. Without bytes, or where they are no text, the reply gives
/// the error text and no data.
pub proof fn law_simulate_v2_begins(
    before: Memory,
    after: Memory,
    data: Pointer,
    data_len: usize,
    need_account: bool,
    need_inner_ix: bool,
    step: SimulateStepV2,
    a: usize,
    bytes: Seq<u8>,
)
    requires
        simulate_begun_v2(before, after, data, data_len, need_account, need_inner_ix, step),
        data !is Null && data_len > 0 ==> data == Pointer::To(a) && before.contains_key(a)
            && data_len <= bytes.len() && match before[a] {
            BlockView::Bytes(b) => b == bytes,
            BlockView::Vector { bytes: b, .. } => b == bytes,
            BlockView::CStr(b) => b == bytes,
            _ => false,
        },
    ensures
        ({
            let none = data is Null || data_len == 0;
            let taken = bytes.take(data_len as int);
            if none || !valid_utf8(taken) {
                let text = if none {
                    "simulate_transaction_v2: data is null or empty"@
                } else {
                    "simulate_transaction_v2: invalid UTF-8 in data"@
                };
                &&& step matches SimulateStepV2::Done(r)
                &&& r.data_ptr is Null
                &&& r.data_len == 0
                &&& r.error_len == encode_utf8(text).len()
                &&& r.error_ptr matches Pointer::To(e)
                &&& !before.contains_key(e)
                &&& after == before.insert(e, BlockView::Bytes(encode_utf8(text)))
            } else {
                &&& after == before
                &&& step matches SimulateStepV2::Ask(call)
                &&& call.need_account == need_account
                &&& call.need_inner_ix == need_inner_ix
                &&& call.ask matches SimulateAsk::Decode { encoded, encoding }
                &&& encoded@ == decode_utf8(taken)
                &&& encoding is Base64
            }
        }),
{
    if let SimulateStepV2::Done(r) = step {
        let failure = if data is Null || data_len == 0 {
            Failure::NoData
        } else {
            Failure::NotUtf8
        };
        lemma_failed_v2(before, after, r, failure);
    }
}

/// A request to simulate asks whether the service is there once the transaction is
/// decoded, then for any processed bank, then for its blockhash, then for the
/// transaction to be sanitized, then for the simulation. It is the decoded
/// transaction that is sanitized, with nothing changed but the blockhash, which is
/// that of the bank.
pub proof fn law_simulate_v2_asks(
    before: Memory,
    after: Memory,
    call: SimulateCall,
    event: SimulateEvent,
    step: SimulateStepV2,
)
    requires
        simulate_step_v2(before, after, call, event, step),
    ensures
        step matches SimulateStepV2::Ask(next) ==> after == before && next.need_account
            == call.need_account && next.need_inner_ix == call.need_inner_ix,
        match (call.ask, event) {
            (SimulateAsk::Decode { .. }, SimulateEvent::Decoded(Ok(t))) => {
                &&& step matches SimulateStepV2::Ask(next)
                &&& next.ask == (SimulateAsk::Processor { transaction: t })
            },
            (
                SimulateAsk::Processor { transaction: t },
                SimulateEvent::Processor { initialized: true },
            ) => {
                &&& step matches SimulateStepV2::Ask(next)
                &&& next.ask matches SimulateAsk::Bank { config, transaction }
                &&& config.commitment == Some(CommitmentLevel::Processed)
                &&& config.min_context_slot == Some(0u64)
                &&& transaction == t
            },
            (SimulateAsk::Bank { transaction: t, .. }, SimulateEvent::Bank(Ok(_))) => {
                &&& step matches SimulateStepV2::Ask(next)
                &&& next.ask == (SimulateAsk::LastBlockhash { transaction: t })
            },
            (
                SimulateAsk::LastBlockhash { transaction: t },
                SimulateEvent::LastBlockhash(hash),
            ) => {
                &&& step matches SimulateStepV2::Ask(next)
                &&& next.ask matches SimulateAsk::Sanitize { transaction: a }
                &&& a.signatures == t.signatures
                &&& a.message.header == t.message.header
                &&& a.message.account_keys == t.message.account_keys
                &&& a.message.instructions == t.message.instructions
                &&& a.message.address_table_lookups == t.message.address_table_lookups
                &&& a.message.recent_blockhash == hash
                &&& same_but_blockhash(a@, t@)
                &&& a@.message.recent_blockhash == hash
            },
            (SimulateAsk::Sanitize { .. }, SimulateEvent::Sanitized(Ok(_))) => {
                &&& step matches SimulateStepV2::Ask(next)
                &&& next.ask matches SimulateAsk::Simulate { inner_instructions }
                &&& inner_instructions == call.need_inner_ix
            },
            _ => step is Done,
        },
{
}

/// Where something goes wrong before the simulation, the reply gives
/// the error text and no data.
pub proof fn law_simulate_v2_fails(
    before: Memory,
    after: Memory,
    call: SimulateCall,
    event: SimulateEvent,
    step: SimulateStepV2,
)
    requires
        simulate_step_v2(before, after, call, event, step),
        answers_simulate(call.ask, event),
        match event {
            SimulateEvent::Decoded(d) => d is Err,
            SimulateEvent::Processor { initialized } => !initialized,
            SimulateEvent::Bank(b) => b is Err,
            SimulateEvent::LastBlockhash(_) => false,
            SimulateEvent::Sanitized(s) => s is Err,
            SimulateEvent::Simulated(_) => false,
            SimulateEvent::Panicked => true,
        },
    ensures
        ({
            let text = match event {
                SimulateEvent::Decoded(Err(e)) =>
                    "simulate_transaction_v2 decode_and_deserialize error: "@ + e.debug@,
                SimulateEvent::Processor { .. } => "simulate_transaction_v2 JRP not initialized"@,
                SimulateEvent::Bank(Err(e)) => "simulate_transaction_v2 jrp.get_bank_with_config: "@
                    + e.debug@,
                SimulateEvent::Sanitized(Err(e)) => "simulate_transaction_v2 error: "@ + e.debug@,
                _ => "simulate_transaction_v2 panic: Any { .. }"@,
            };
            &&& step matches SimulateStepV2::Done(r)
            &&& r.data_ptr is Null
            &&& r.data_len == 0
            &&& r.error_len == encode_utf8(text).len()
            &&& r.error_ptr matches Pointer::To(e)
            &&& !before.contains_key(e)
            &&& after == before.insert(e, BlockView::Bytes(encode_utf8(text)))
        }),
{
    let failure = match event {
        SimulateEvent::Decoded(Err(e)) => Failure::Decode(e),
        SimulateEvent::Processor { .. } => Failure::NotInitialized,
        SimulateEvent::Bank(Err(e)) => Failure::Bank(e),
        SimulateEvent::Sanitized(Err(e)) => Failure::Sanitize(e),
        _ => Failure::Panicked,
    };
    lemma_failed_v2(before, after, step->Done_0, failure);
}

proof fn lemma_failed_v2(
    before: Memory,
    after: Memory,
    r: SimulateResultC,
    failure: Failure,
)
    requires
        simulate_failed_v2(
            before,
            after,
            r,
            failure_text(Version::V2, failure),
        ),
    ensures
        ({
            let bytes = encode_utf8(failure_text(Version::V2, failure));
            &&& r.error_len == bytes.len()
            &&& r.error_ptr matches Pointer::To(e)
            &&& !before.contains_key(e)
            &&& after == before.insert(e, BlockView::Bytes(bytes))
        }),
{
    law_failure_v2_freed(before, after, r, failure);
    law_buffer_handed_over(
        before,
        after,
        r.error_ptr,
        r.error_len,
        encode_utf8(failure_text(Version::V2, failure)),
    );
}

/// The reply to a simulation gives its units and the error of the transaction, if
/// there is one, in a new block, and has as many lines and, if wanted, accounts as
/// the simulation. Nothing that lived before has changed.
pub proof fn law_simulated(
    before: Memory,
    after: Memory,
    call: SimulateCall,
    res: TransactionSimulationResult,
    step: SimulateStep,
)
    requires
        simulate_step(before, after, call, SimulateEvent::Simulated(res), step),
        call.ask is Simulate,
    ensures
        ({
            &&& step matches SimulateStep::Done(r)
            &&& r.units_consumed == res.units_consumed
            &&& match res.result {
                Ok(_) => r.error_ptr is Null && r.error_len == 0,
                Err(text) => {
                    let bytes = encode_utf8(text@);
                    &&& r.error_len == bytes.len()
                    &&& bytes.len() == 0 ==> r.error_ptr is Dangling
                    &&& bytes.len() > 0 ==> {
                        &&& r.error_ptr matches Pointer::To(e)
                        &&& !before.contains_key(e)
                        &&& after.contains_key(e)
                        &&& after[e] == BlockView::Bytes(bytes)
                    }
                },
            }
            &&& r.logs.len == res.logs@.len()
            &&& res.logs@.len() == 0 ==> r.logs.ptr is Null
            &&& !call.need_account ==> r.post_accounts.ptr is Null && r.post_accounts.len == 0
            &&& call.need_account ==> r.post_accounts.len == res.post_simulation_accounts@.len()
            &&& call.need_account && res.post_simulation_accounts@.len() == 0
                ==> r.post_accounts.ptr is Dangling
        }),
        forall|k: usize| #[trigger] before.contains_key(k) ==> after.contains_key(k) && after[k]
            == before[k],
{
    let r = step->Done_0;
    if let Pointer::To(e) = r.error_ptr {
        assert(at(r.error_ptr).contains(e));
    }
}

/// Each line of a simulation is in the reply at its place, as its UTF-8 bytes in a
/// new block that nothing else uses, unless empty.
pub proof fn law_simulated_line(
    before: Memory,
    after: Memory,
    call: SimulateCall,
    res: TransactionSimulationResult,
    r: SimulateResultRepr,
    i: int,
)
    requires
        simulate_step(
            before,
            after,
            call,
            SimulateEvent::Simulated(res),
            SimulateStep::Done(r),
        ),
        call.ask is Simulate,
        0 <= i < res.logs@.len(),
    ensures
        ({
            let bytes = encode_utf8(res.logs@[i]@);
            &&& r.logs.ptr matches Pointer::To(p)
            &&& !before.contains_key(p)
            &&& after.contains_key(p)
            &&& after[p] matches BlockView::Logs(lines)
            &&& lines.len() == res.logs@.len()
            &&& lines[i].len == bytes.len()
            &&& bytes.len() == 0 ==> lines[i].ptr is Dangling
            &&& bytes.len() > 0 ==> {
                &&& lines[i].ptr matches Pointer::To(a)
                &&& a != p
                &&& !before.contains_key(a)
                &&& after.contains_key(a)
                &&& after[a] == BlockView::Bytes(bytes)
                &&& r.error_ptr != Pointer::To(a)
                &&& r.post_accounts.ptr != Pointer::To(a)
                &&& forall|j: int|
                    0 <= j < lines.len() && j != i ==> (#[trigger] lines[j]).ptr != Pointer::To(a)
            }
        }),
{
    let logs = log_blocks(after, r.logs);
    let p = r.logs.ptr->To_0;
    let lines = log_entries(after, r.logs);
    assert(after[p] == BlockView::Logs(lines));
    assert(at(r.logs.ptr).contains(p));
    assert(logs.contains(p));
    assert(texts(res.logs@)[i] == res.logs@[i]@);
    assert(bytes_at(after, lines[i].ptr, lines[i].len, encode_utf8(res.logs@[i]@)));
    if let Pointer::To(a) = lines[i].ptr {
        assert(at(lines[i].ptr).contains(a));
        assert(line_blocks(lines).contains(a));
        assert(logs.contains(a));
        assert(!at(r.error_ptr).contains(a));
        assert(!post_blocks(after, r.post_accounts).contains(a));
        assert forall|j: int| 0 <= j < lines.len() && j != i implies (#[trigger] lines[j]).ptr
            != Pointer::To(a) by {
            if j < i {
                assert(at(lines[j].ptr).disjoint(at(lines[i].ptr)));
            } else {
                assert(at(lines[i].ptr).disjoint(at(lines[j].ptr)));
            }
        }
    }
}

/// Each account that a simulation left is in the reply, if wanted, at its place and
/// under its own address: a new block with its own fields, and its data in another,
/// unless empty, both of which nothing else uses.
pub proof fn law_simulated_account(
    before: Memory,
    after: Memory,
    call: SimulateCall,
    res: TransactionSimulationResult,
    r: SimulateResultRepr,
    i: int,
)
    requires
        simulate_step(
            before,
            after,
            call,
            SimulateEvent::Simulated(res),
            SimulateStep::Done(r),
        ),
        call.ask is Simulate,
        call.need_account,
        0 <= i < res.post_simulation_accounts@.len(),
    ensures
        ({
            let (key, a) = res.post_simulation_accounts@[i];
            &&& r.post_accounts.ptr matches Pointer::To(p)
            &&& !before.contains_key(p)
            &&& after.contains_key(p)
            &&& after[p] matches BlockView::PostAccounts(entries)
            &&& entries.len() == res.post_simulation_accounts@.len()
            &&& entries[i].pubkey == key.bytes
            &&& entries[i].account matches Pointer::To(q)
            &&& q != p
            &&& !before.contains_key(q)
            &&& after.contains_key(q)
            &&& r.error_ptr != Pointer::To(q)
            &&& r.logs.ptr != Pointer::To(q)
            &&& forall|j: int|
                0 <= j < entries.len() && j != i ==> (#[trigger] entries[j]).account
                    != Pointer::To(q)
            &&& after[q] matches BlockView::Account(c)
            &&& c.lamports == a.lamports
            &&& c.owner == a.owner.bytes
            &&& a.executable ==> c.executable == 1
            &&& !a.executable ==> c.executable == 0
            &&& c.rent_epoch == a.rent_epoch
            &&& c.data_len == a.data@.len()
            &&& a.data@.len() == 0 ==> c.data_ptr is Dangling
            &&& a.data@.len() > 0 ==> {
                &&& c.data_ptr matches Pointer::To(d)
                &&& d != p
                &&& !before.contains_key(d)
                &&& after.contains_key(d)
                &&& after[d] == BlockView::Bytes(a.data@)
                &&& r.error_ptr != Pointer::To(d)
                &&& r.logs.ptr != Pointer::To(d)
                &&& forall|j: int|
                    0 <= j < entries.len() && j != i ==> after[(
                    #[trigger] entries[j]).account->To_0]->Account_0.data_ptr != Pointer::To(d)
            }
        }),
{
    let posts = post_blocks(after, r.post_accounts);
    let p = r.post_accounts.ptr->To_0;
    let entries = post_entries(after, r.post_accounts);
    let ptrs = account_ptrs(entries);
    let vs = wanted(call.need_account, res)->0;
    let (key, a) = res.post_simulation_accounts@[i];
    assert(vs[i] == (key, a@));
    assert(after[p] == BlockView::PostAccounts(entries));
    assert(at(r.post_accounts.ptr).contains(p));
    assert(posts.contains(p));
    assert(entries[i].pubkey == vs[i].0.bytes);
    assert forall|j: int| 0 <= j < entries.len() implies #[trigger] account_at(
        after,
        ptrs[j],
        vs[j].1,
    ) && ptrs[j] == entries[j].account by {
        assert(present(vs)[j] == Some(vs[j].1));
    }
    assert(account_at(after, ptrs[i], vs[i].1));
    let q = entries[i].account->To_0;
    let c = after[q]->Account_0;
    assert forall|k: usize| account_blocks(after, ptrs[i]).contains(k) implies posts.contains(k)
        && k != p by {
        assert(all_blocks(after, ptrs).contains(k));
    }
    assert forall|j: int| 0 <= j < ptrs.len() && j != i implies account_blocks(
        after,
        ptrs[i],
    ).disjoint(account_blocks(after, #[trigger] ptrs[j])) by {
        if j < i {
            assert(account_blocks(after, ptrs[j]).disjoint(account_blocks(after, ptrs[i])));
        }
    }
    assert(account_blocks(after, ptrs[i]).contains(q));
    assert(!at(r.error_ptr).contains(q));
    assert(!log_blocks(after, r.logs).contains(q));
    assert forall|j: int| 0 <= j < entries.len() && j != i implies (#[trigger] entries[j]).account
        != Pointer::To(q) by {
        assert(account_at(after, ptrs[j], vs[j].1));
        assert(!account_blocks(after, ptrs[j]).contains(q));
    }
    if let Pointer::To(d) = c.data_ptr {
        assert(account_blocks(after, ptrs[i]).contains(d));
        assert(!at(r.error_ptr).contains(d));
        assert(!log_blocks(after, r.logs).contains(d));
        assert forall|j: int| 0 <= j < entries.len() && j != i implies after[(
        #[trigger] entries[j]).account->To_0]->Account_0.data_ptr != Pointer::To(d) by {
            assert(account_at(after, ptrs[j], vs[j].1));
            assert(account_behind(after, ptrs[j]) is Some);
            assert(!account_blocks(after, ptrs[j]).contains(d));
        }
    }
}

/// What is read out of the reply to an account request is the account that was
/// found.
pub proof fn law_found_account_read(
    before: Memory,
    after: Memory,
    call: AccountCall,
    a: AccountSharedData,
    step: AccountStep,
)
    requires
        account_step(before, after, call, AccountEvent::Account(Some(a)), step),
    ensures
        ({
            &&& step matches AccountStep::Done(r)
            &&& read_account(after, r.account) matches Some(v)
            &&& v.lamports == a.lamports
            &&& v.data == a.data@
            &&& v.owner == a.owner
            &&& v.executable == a.executable
            &&& v.rent_epoch == a.rent_epoch
        }),
{
    law_get_account(before, after, call, AccountEvent::Account(Some(a)), step);
    law_account_read_back(after, step->Done_0.account, a@);
}

/// What is read out of the reply to a simulation, if accounts are wanted, is each
/// account that the simulation left, at its place and under its own address.
pub proof fn law_left_account_read(
    before: Memory,
    after: Memory,
    call: SimulateCall,
    res: TransactionSimulationResult,
    r: SimulateResultRepr,
    i: int,
)
    requires
        simulate_step(
            before,
            after,
            call,
            SimulateEvent::Simulated(res),
            SimulateStep::Done(r),
        ),
        call.ask is Simulate,
        call.need_account,
    ensures
        ({
            &&& read_posts(after, r.post_accounts) matches Some(list)
            &&& list.len() == res.post_simulation_accounts@.len()
            &&& 0 <= i < list.len() ==> {
                let (key, a) = res.post_simulation_accounts@[i];
                &&& list[i].0 == key
                &&& list[i].1 matches Some(v)
                &&& v.lamports == a.lamports
                &&& v.data == a.data@
                &&& v.owner == a.owner
                &&& v.executable == a.executable
                &&& v.rent_epoch == a.rent_epoch
            }
        }),
{
    law_reply_read_back(before, after, r, call.need_account, Ok(res));
}

/// Every new block is used by the reply: it is that of the error, an array, a line,
/// an account or the data of an account.
pub proof fn law_simulated_owned(
    before: Memory,
    after: Memory,
    call: SimulateCall,
    res: TransactionSimulationResult,
    r: SimulateResultRepr,
    k: usize,
)
    requires
        simulate_step(
            before,
            after,
            call,
            SimulateEvent::Simulated(res),
            SimulateStep::Done(r),
        ),
        call.ask is Simulate,
        after.contains_key(k),
        !before.contains_key(k),
    ensures
        ({
            let lines = after[r.logs.ptr->To_0]->Logs_0;
            let entries = after[r.post_accounts.ptr->To_0]->PostAccounts_0;
            ||| r.error_ptr == Pointer::To(k)
            ||| r.logs.ptr == Pointer::To(k)
            ||| r.post_accounts.ptr == Pointer::To(k)
            ||| r.logs.ptr is To && exists|i: int|
                0 <= i < lines.len() && (#[trigger] lines[i]).ptr == Pointer::To(k)
            ||| r.post_accounts.ptr is To && exists|i: int|
                0 <= i < entries.len() && ((#[trigger] entries[i]).account == Pointer::To(k)
                    || after[entries[i].account->To_0]->Account_0.data_ptr == Pointer::To(k))
        }),
{
    let lines = log_entries(after, r.logs);
    let entries = post_entries(after, r.post_accounts);
    let ptrs = account_ptrs(entries);
    if line_blocks(lines).contains(k) {
        let i = choose|i: int| 0 <= i < lines.len() && at(#[trigger] lines[i].ptr).contains(k);
        assert(lines[i].ptr == Pointer::To(k));
    } else if all_blocks(after, ptrs).contains(k) {
        let i = choose|i: int|
            0 <= i < ptrs.len() && account_blocks(after, #[trigger] ptrs[i]).contains(k);
        assert(entries[i].account == ptrs[i]);
        assert(entries[i].account == Pointer::To(k) || after[
            entries[i].account->To_0
        ]->Account_0.data_ptr == Pointer::To(k));
    }
}

/// The encoded reply to a simulation. What is encoded is the lines, the units, the
/// invoked instructions and, if wanted and whether or not the transaction failed,
/// every account under its own address, all at their places. The encoding and the
/// error of the transaction, if there is one, are new blocks, and the only ones.
/// Where an invoked instruction has more than 65535 accounts or bytes of data, the
/// reply is the error text of a panic.
pub proof fn law_simulated_v2(
    before: Memory,
    after: Memory,
    call: SimulateCall,
    res: TransactionSimulationResult,
    step: SimulateStepV2,
    sent: SimulateResView,
)
    requires
        simulate_step_v2(before, after, call, SimulateEvent::Simulated(res), step),
        call.ask is Simulate,
        sent == (SimulateResView {
            logs: Seq::new(res.logs@.len(), |i: int| res.logs@[i]@),
            units_consumed: res.units_consumed,
            post_accounts: if call.need_account {
                Some(
                    Seq::new(
                        res.post_simulation_accounts@.len(),
                        |i: int|
                            (
                                res.post_simulation_accounts@[i].0,
                                AccountView {
                                    lamports: res.post_simulation_accounts@[i].1.lamports,
                                    data: res.post_simulation_accounts@[i].1.data@,
                                    owner: res.post_simulation_accounts@[i].1.owner,
                                    executable: res.post_simulation_accounts@[i].1.executable,
                                    rent_epoch: res.post_simulation_accounts@[i].1.rent_epoch,
                                },
                            ),
                    ),
                )
            } else {
                None
            },
            inner_instructions: match res.inner_instructions {
                None => None,
                Some(lists) => Some(
                    Seq::new(
                        lists@.len(),
                        |i: int|
                            Seq::new(
                                lists@[i]@.len(),
                                |j: int|
                                    InnerInstructionView {
                                        program_id_index: lists@[i]@[j].program_id_index,
                                        accounts: lists@[i]@[j].accounts@,
                                        data: lists@[i]@[j].data@,
                                        stack_height: lists@[i]@[j].stack_height,
                                    },
                            ),
                    ),
                ),
            },
        }),
    ensures
        ({
            let fits = res.inner_instructions matches Some(lists) ==> forall|i: int, j: int|
                0 <= i < lists@.len() && 0 <= j < lists@[i]@.len() ==> (
                #[trigger] lists@[i]@[j]).accounts@.len() <= 65535 && lists@[i]@[j].data@.len()
                    <= 65535;
            let data = bincode_bytes(sent);
            &&& step matches SimulateStepV2::Done(r)
            &&& fits ==> {
                &&& r.data_len == data.len()
                &&& data.len() == 0 ==> r.data_ptr is Dangling
                &&& data.len() > 0 ==> {
                    &&& r.data_ptr matches Pointer::To(d)
                    &&& !before.contains_key(d)
                    &&& after.contains_key(d)
                    &&& after[d] == BlockView::Bytes(data)
                    &&& r.error_ptr != Pointer::To(d)
                }
                &&& match res.result {
                    Ok(_) => r.error_ptr is Null && r.error_len == 0,
                    Err(text) => {
                        let bytes = encode_utf8(text@);
                        &&& r.error_len == bytes.len()
                        &&& bytes.len() == 0 ==> r.error_ptr is Dangling
                        &&& bytes.len() > 0 ==> {
                            &&& r.error_ptr matches Pointer::To(e)
                            &&& !before.contains_key(e)
                            &&& after.contains_key(e)
                            &&& after[e] == BlockView::Bytes(bytes)
                        }
                    },
                }
                &&& forall|k: usize| #[trigger]
                    after.contains_key(k) && !before.contains_key(k) ==> r.error_ptr
                        == Pointer::To(k) || r.data_ptr == Pointer::To(k)
            }
            &&& !fits ==> {
                let bytes = encode_utf8("simulate_transaction_v2 panic: Any { .. }"@);
                &&& r.data_ptr is Null
                &&& r.data_len == 0
                &&& r.error_len == bytes.len()
                &&& r.error_ptr matches Pointer::To(e)
                &&& !before.contains_key(e)
                &&& after.contains_key(e)
                &&& after[e] == BlockView::Bytes(bytes)
                &&& forall|k: usize| #[trigger]
                    after.contains_key(k) && !before.contains_key(k) && k != e ==> (
                    res.result matches Err(text) && after[k] == BlockView::Bytes(
                        encode_utf8(text@),
                    ))
            }
        }),
        forall|k: usize| #[trigger] before.contains_key(k) ==> after.contains_key(k) && after[k]
            == before[k],
{
    let r = step->Done_0;
    let own = simulate_res(call.need_account, res);
    assert(own.logs =~= sent.logs);
    if call.need_account {
        assert(own.post_accounts->0 =~= sent.post_accounts->0);
    }
    if let Some(lists) = res.inner_instructions {
        assert forall|i: int| 0 <= i < lists@.len() implies #[trigger] own.inner_instructions->0[i]
            == sent.inner_instructions->0[i] by {
            assert(own.inner_instructions->0[i] =~= sent.inner_instructions->0[i]);
        }
        assert(own.inner_instructions->0 =~= sent.inner_instructions->0);
        let inner = own.inner_instructions->0;
        if encodable(own) {
            assert forall|i: int, j: int|
                0 <= i < lists@.len() && 0 <= j < lists@[i]@.len() implies (
            #[trigger] lists@[i]@[j]).accounts@.len() <= 65535 && lists@[i]@[j].data@.len()
                <= 65535 by {
                assert(inner[i][j].accounts == lists@[i]@[j].accounts@);
            }
        } else {
            let (i, j) = choose|i: int, j: int|
                0 <= i < inner.len() && 0 <= j < inner[i].len() && !((
                #[trigger] inner[i][j]).accounts.len() <= 65535 && inner[i][j].data.len() <= 65535);
            assert(inner[i][j].accounts == lists@[i]@[j].accounts@);
        }
    }
    assert(own == sent);
    match encoded_outcome(call.need_account, res) {
        Some(data) => {
            if let Pointer::To(e) = r.error_ptr {
                assert(at(r.error_ptr).contains(e));
            }
            if let Pointer::To(d) = r.data_ptr {
                assert(at(r.data_ptr).contains(d));
            }
        },
        None => {
            let (left, lost, lost_len) = choose|left: Memory, lost: Pointer, lost_len: usize|
                #[trigger] error_at(left, lost, lost_len, res.result) && grows(
                    before,
                    left,
                    at(lost),
                ) && simulate_failed_v2(
                    left,
                    after,
                    r,
                    failure_text(Version::V2, Failure::Panicked),
                );
            lemma_failed_v2(left, after, r, Failure::Panicked);
            assert forall|k: usize| #[trigger] before.contains_key(k) implies after.contains_key(k)
                && after[k] == before[k] by {
                assert(left.contains_key(k));
            }
        },
    }
}

} // verus!
