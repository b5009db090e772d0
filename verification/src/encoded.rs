//! Simulations that are answered with one encoded buffer.
use crate::bytes::{boxed_to_leaked_bytes, string_to_leaked_bytes};
use crate::codec::{bincode_bytes, encodable, encode_simulate_res};
use crate::heap::{Heap, Memory, Pointer};
use crate::memory::{at, bytes_at, grows, lemma_grows_none, lemma_grows_twice, texts};
use crate::posts::account_views;
use crate::repr::{Pubkey, SimulateResultC};
use crate::simulate::{
    advance, answers_simulate, failure_text, failure_to_string, no_data, read_request, readable,
    request, simulate_next, Failure, SimulateAsk, SimulateCall, SimulateEvent, SimulateNext,
    TransactionBinaryEncoding, Version,
};
use crate::structured::{error_at, wanted};
use crate::values::{
    account_c_views, inner_views, AccountC, AccountSharedData, SimulateRes, SimulateResView,
    TransactionSimulationResult,
};
use vstd::prelude::*;
use vstd::utf8::encode_utf8;

verus! {

/// What follows: something else is asked, or the reply is there.
#[derive(Debug, PartialEq, Eq)]
pub enum SimulateStepV2 {
    Ask(SimulateCall),
    Done(SimulateResultC),
}

/// `r` gives the error text `text` and no data.
pub open spec fn simulate_failed_v2(
    before: Memory,
    after: Memory,
    r: SimulateResultC,
    text: Seq<char>,
) -> bool {
    &&& bytes_at(after, r.error_ptr, r.error_len, encode_utf8(text))
    &&& r.data_ptr is Null
    &&& r.data_len == 0
    &&& grows(before, after, at(r.error_ptr))
}

/// `r` gives the error of the transaction, if there is one, and the encoded
/// outcome. Where the outcome has no encoding, `r` gives the error text of a
/// panic instead; the buffer with the error of the transaction is then in memory
/// already, and nothing points at it.
pub open spec fn simulated_v2(
    before: Memory,
    after: Memory,
    r: SimulateResultC,
    result: Result<(), String>,
    encoded: Option<Seq<u8>>,
) -> bool {
    match encoded {
        Some(data) => {
            &&& error_at(after, r.error_ptr, r.error_len, result)
            &&& bytes_at(after, r.data_ptr, r.data_len, data)
            &&& at(r.error_ptr).disjoint(at(r.data_ptr))
            &&& grows(before, after, at(r.error_ptr).union(at(r.data_ptr)))
        },
        None => exists|left: Memory, lost: Pointer, lost_len: usize| #[trigger]
            error_at(left, lost, lost_len, result) && grows(before, left, at(lost))
                && simulate_failed_v2(
                left,
                after,
                r,
                failure_text(Version::V2, Failure::Panicked),
            ),
    }
}

/// What is encoded of an outcome.
pub open spec fn simulate_res(
    need_account: bool,
    res: TransactionSimulationResult,
) -> SimulateResView {
    SimulateResView {
        logs: texts(res.logs@),
        units_consumed: res.units_consumed,
        post_accounts: wanted(need_account, res),
        inner_instructions: inner_views(res.inner_instructions),
    }
}

/// The encoded outcome, if it has an encoding.
pub open spec fn encoded_outcome(need_account: bool, res: TransactionSimulationResult) -> Option<
    Seq<u8>,
> {
    if encodable(simulate_res(need_account, res)) {
        Some(bincode_bytes(simulate_res(need_account, res)))
    } else {
        None
    }
}

fn simulate_error_v2(heap: &mut Heap, failure: Failure) -> (r: SimulateResultC)
    ensures
        simulate_failed_v2(old(heap)@, final(heap)@, r, failure_text(Version::V2, failure)),
{
    let (error_ptr, error_len) = string_to_leaked_bytes(
        heap,
        failure_to_string(Version::V2, failure),
    );
    SimulateResultC { error_ptr, error_len, data_ptr: Pointer::Null, data_len: 0 }
}

/// The accounts, in the form that is encoded.
fn to_account_cs(accounts: Vec<(Pubkey, AccountSharedData)>) -> (r: Vec<(Pubkey, AccountC)>)
    ensures
        account_c_views(r@) == account_views(accounts@),
{
    let ghost vs = account_views(accounts@);
    let ghost n = accounts@.len();
    let mut r: Vec<(Pubkey, AccountC)> = Vec::new();
    for entry in it: accounts
        invariant
            it.seq() == accounts@,
            vs == account_views(accounts@),
            account_c_views(r@) =~= vs.take(it.index() as int),
    {
        let ghost done = r@;
        let (pk, account) = entry;
        r.push((pk, account.into_account_c()));
        proof {
            let i = it.index() as int;
            assert(vs.take(i + 1) =~= vs.take(i).push(vs[i]));
            assert(account_c_views(r@) =~= account_c_views(done).push((pk, account@)));
        }
    }
    assert(vs.take(n as int) =~= vs);
    r
}

/// Hands an outcome over, of which `encoded` is the encoding, if it has one, in a
/// buffer of exactly its length.
pub fn outcome_to_c(
    heap: &mut Heap,
    result: Result<(), String>,
    encoded: Option<Vec<u8>>,
) -> (r: SimulateResultC)
    ensures
        simulated_v2(
            old(heap)@,
            final(heap)@,
            r,
            result,
            match encoded {
                Some(data) => Some(data@),
                None => None,
            },
        ),
{
    let ghost start = heap@;
    proof {
        lemma_grows_none(start);
    }
    let (error_ptr, error_len) = match result {
        Ok(_) => (Pointer::Null, 0),
        Err(text) => string_to_leaked_bytes(heap, text),
    };
    let ghost failed = heap@;
    assert(error_at(failed, error_ptr, error_len, result));
    match encoded {
        Some(data) => {
            let (data_ptr, data_len) = boxed_to_leaked_bytes(heap, data);
            proof {
                lemma_grows_twice(start, failed, heap@, at(error_ptr), at(data_ptr));
            }
            SimulateResultC { error_ptr, error_len, data_ptr, data_len }
        },
        None => simulate_error_v2(heap, Failure::Panicked),
    }
}

/// Encodes the outcome of a simulation and hands it over.
pub fn simulation_to_c(
    heap: &mut Heap,
    need_account: bool,
    res: TransactionSimulationResult,
) -> (r: SimulateResultC)
    ensures
        simulated_v2(
            old(heap)@,
            final(heap)@,
            r,
            res.result,
            encoded_outcome(need_account, res),
        ),
{
    let post_accounts = if need_account {
        Some(to_account_cs(res.post_simulation_accounts))
    } else {
        None
    };
    let sent = SimulateRes {
        logs: res.logs,
        units_consumed: res.units_consumed,
        post_accounts,
        inner_instructions: res.inner_instructions,
    };
    assert(sent@ == simulate_res(need_account, res));
    let encoded = encode_simulate_res(&sent);
    outcome_to_c(heap, res.result, encoded)
}

/// How a request to simulate the transaction in `data` begins.
pub open spec fn simulate_begun_v2(
    before: Memory,
    after: Memory,
    data: Pointer,
    data_len: usize,
    need_account: bool,
    need_inner_ix: bool,
    step: SimulateStepV2,
) -> bool {
    match request(before, data, data_len) {
        Ok(text) => {
            &&& step matches SimulateStepV2::Ask(call)
            &&& call.need_account == need_account
            &&& call.need_inner_ix == need_inner_ix
            &&& call.ask matches SimulateAsk::Decode { encoded, encoding }
            &&& encoded@ == text
            &&& encoding is Base64
            &&& after == before
        },
        Err(failure) => step matches SimulateStepV2::Done(r) && simulate_failed_v2(
            before,
            after,
            r,
            failure_text(Version::V2, failure),
        ),
    }
}

impl SimulateCall {
    /// A request to simulate the transaction in `data`. Without text in it there
    /// is nothing to ask.
    pub fn begin_v2(
        heap: &mut Heap,
        data: Pointer,
        data_len: usize,
        need_account: bool,
        need_inner_ix: bool,
    ) -> (step: SimulateStepV2)
        requires
            !no_data(data, data_len) ==> readable(old(heap)@, data, data_len),
        ensures
            simulate_begun_v2(
                old(heap)@,
                final(heap)@,
                data,
                data_len,
                need_account,
                need_inner_ix,
                step,
            ),
    {
        match read_request(heap, data, data_len) {
            Ok(encoded) => {
                let encoding = TransactionBinaryEncoding::Base64;
                let ask = SimulateAsk::Decode { encoded, encoding };
                SimulateStepV2::Ask(SimulateCall { need_account, need_inner_ix, ask })
            },
            Err(failure) => SimulateStepV2::Done(simulate_error_v2(heap, failure)),
        }
    }
}

/// What a step of a request to simulate does with `event`.
pub open spec fn simulate_step_v2(
    before: Memory,
    after: Memory,
    call: SimulateCall,
    event: SimulateEvent,
    step: SimulateStepV2,
) -> bool {
    match simulate_next(call.need_inner_ix, call.ask, event) {
        SimulateNext::Ask(ask) => {
            &&& step == SimulateStepV2::Ask(SimulateCall { ask, ..call })
            &&& after == before
        },
        SimulateNext::Fail(failure) => step matches SimulateStepV2::Done(r)
            && simulate_failed_v2(
            before,
            after,
            r,
            failure_text(Version::V2, failure),
        ),
        SimulateNext::Reply(res) => step matches SimulateStepV2::Done(r) && simulated_v2(
            before,
            after,
            r,
            res.result,
            encoded_outcome(call.need_account, res),
        ),
    }
}

/// Takes `event` in. While there is something to ask, memory stays as it is. The
/// invoked instructions are asked for where the call wants them.
pub fn simulate_transaction_v2(heap: &mut Heap, call: SimulateCall, event: SimulateEvent) -> (step:
    SimulateStepV2)
    requires
        answers_simulate(call.ask, event),
    ensures
        simulate_step_v2(old(heap)@, final(heap)@, call, event, step),
{
    let SimulateCall { need_account, need_inner_ix, ask } = call;
    match advance(need_inner_ix, ask, event) {
        SimulateNext::Ask(ask) => SimulateStepV2::Ask(
            SimulateCall { need_account, need_inner_ix, ask },
        ),
        SimulateNext::Fail(failure) => SimulateStepV2::Done(simulate_error_v2(heap, failure)),
        SimulateNext::Reply(res) => SimulateStepV2::Done(
            simulation_to_c(heap, need_account, res),
        ),
    }
}

} // verus!
