//! Simulations that are answered with structures.
use crate::bytes::{lemma_logs_kept, log_blocks, logs_at, logs_to_logarray, string_to_leaked_bytes};
use crate::heap::{Heap, Memory, Pointer};
use crate::memory::{at, bytes_at, grows, lemma_grows_none, lemma_grows_twice, texts};
use crate::posts::{
    account_views, box_blocks, data_blocks, lemma_boxed_accounts, post_accounts_to_array,
    post_blocks, post_entries, posts_at, to_account_c_reprs,
};
use crate::repr::{LogArray, PostAccountArray, Pubkey, SimulateResultRepr};
use crate::simulate::{
    advance, answers_simulate, failure_text, failure_to_string, no_data, read_request, readable,
    request, simulate_next, Failure, SimulateAsk, SimulateCall, SimulateEvent, SimulateNext,
    TransactionBinaryEncoding, Version,
};
use crate::values::{AccountView, TransactionSimulationResult};
use vstd::prelude::*;
use vstd::utf8::encode_utf8;

verus! {

/// What follows: something else is asked, or the reply is there.
#[derive(Debug, PartialEq, Eq)]
pub enum SimulateStep {
    Ask(SimulateCall),
    Done(SimulateResultRepr),
}

/// `r` gives the error text `text` and is empty otherwise.
pub open spec fn simulate_failed(
    before: Memory,
    after: Memory,
    r: SimulateResultRepr,
    text: Seq<char>,
) -> bool {
    &&& bytes_at(after, r.error_ptr, r.error_len, encode_utf8(text))
    &&& r.logs == (LogArray { ptr: Pointer::Null, len: 0 })
    &&& r.units_consumed == 0
    &&& r.post_accounts == (PostAccountArray { ptr: Pointer::Null, len: 0 })
    &&& grows(before, after, at(r.error_ptr))
}

/// The error of a transaction, if there is one: null, or the text of it.
pub open spec fn error_at(
    m: Memory,
    ptr: Pointer,
    len: usize,
    result: Result<(), String>,
) -> bool {
    match result {
        Ok(_) => ptr is Null && len == 0,
        Err(text) => bytes_at(m, ptr, len, encode_utf8(text@)),
    }
}

/// The accounts that are sent: all of them, or no list at all.
pub open spec fn wanted(need_account: bool, res: TransactionSimulationResult) -> Option<
    Seq<(Pubkey, AccountView)>,
> {
    if need_account {
        Some(account_views(res.post_simulation_accounts@))
    } else {
        None
    }
}

/// `r` gives the outcome `res`, in blocks that its parts do not share.
pub open spec fn simulated(
    before: Memory,
    after: Memory,
    r: SimulateResultRepr,
    need_account: bool,
    res: TransactionSimulationResult,
) -> bool {
    let error = at(r.error_ptr);
    let logs = log_blocks(after, r.logs);
    let posts = post_blocks(after, r.post_accounts);
    &&& error_at(after, r.error_ptr, r.error_len, res.result)
    &&& logs_at(after, r.logs, texts(res.logs@))
    &&& r.units_consumed == res.units_consumed
    &&& posts_at(after, r.post_accounts, wanted(need_account, res))
    &&& error.disjoint(logs)
    &&& error.disjoint(posts)
    &&& logs.disjoint(posts)
    &&& grows(before, after, error.union(logs).union(posts))
}

fn simulate_error(heap: &mut Heap, failure: Failure) -> (r: SimulateResultRepr)
    ensures
        simulate_failed(old(heap)@, final(heap)@, r, failure_text(Version::V1, failure)),
{
    let (error_ptr, error_len) = string_to_leaked_bytes(
        heap,
        failure_to_string(Version::V1, failure),
    );
    SimulateResultRepr {
        error_ptr,
        error_len,
        logs: LogArray { ptr: Pointer::Null, len: 0 },
        units_consumed: 0,
        post_accounts: PostAccountArray { ptr: Pointer::Null, len: 0 },
    }
}

/// Hands the outcome of a simulation over.
pub fn simulation_to_repr(
    heap: &mut Heap,
    need_account: bool,
    res: TransactionSimulationResult,
) -> (r: SimulateResultRepr)
    ensures
        simulated(old(heap)@, final(heap)@, r, need_account, res),
{
    let ghost start = heap@;
    proof {
        lemma_grows_none(start);
    }
    let ghost mut data: Set<usize> = Set::empty();
    let post_accounts_vec = if need_account {
        let reprs = to_account_c_reprs(heap, res.post_simulation_accounts);
        proof {
            data = data_blocks(reprs@);
        }
        Some(reprs)
    } else {
        None
    };
    let ghost described = heap@;
    let (error_ptr, error_len) = match res.result {
        Ok(_) => (Pointer::Null, 0),
        Err(text) => string_to_leaked_bytes(heap, text),
    };
    let ghost failed = heap@;
    let logs = logs_to_logarray(heap, res.logs);
    let ghost logged = heap@;
    let post_accounts = post_accounts_to_array(heap, post_accounts_vec);
    proof {
        let end = heap@;
        let error = at(error_ptr);
        let lines = log_blocks(logged, logs);
        let extra = error.union(lines);
        lemma_grows_twice(described, failed, logged, error, lines);
        lemma_grows_twice(start, described, logged, data, extra);
        let entries = post_entries(end, post_accounts);
        let boxes = at(post_accounts.ptr).union(box_blocks(entries));
        if post_accounts_vec is Some && post_accounts_vec->0@.len() > 0 {
            lemma_boxed_accounts(
                start,
                described,
                logged,
                end,
                extra,
                post_accounts,
                post_accounts_vec->0@,
                account_views(res.post_simulation_accounts@),
            );
        } else {
            assert(boxes =~= Set::empty());
            assert(data =~= Set::empty());
            assert(post_blocks(end, post_accounts) =~= Set::empty());
        }
        assert(post_blocks(end, post_accounts) =~= data.union(boxes));
        lemma_grows_twice(start, logged, end, data.union(extra), boxes);
        lemma_logs_kept(logged, end, boxes, logs, texts(res.logs@));
        assert(error_at(failed, error_ptr, error_len, res.result));
        assert(error_at(end, error_ptr, error_len, res.result));
        assert(error.union(lines).union(data.union(boxes)) =~= data.union(extra).union(boxes));
    }
    SimulateResultRepr {
        error_ptr,
        error_len,
        logs,
        units_consumed: res.units_consumed,
        post_accounts,
    }
}

/// How a request to simulate the transaction in `data` begins.
pub open spec fn simulate_begun(
    before: Memory,
    after: Memory,
    data: Pointer,
    data_len: usize,
    need_account: bool,
    step: SimulateStep,
) -> bool {
    match request(before, data, data_len) {
        Ok(text) => {
            &&& step matches SimulateStep::Ask(call)
            &&& call.need_account == need_account
            &&& !call.need_inner_ix
            &&& call.ask matches SimulateAsk::Decode { encoded, encoding }
            &&& encoded@ == text
            &&& encoding is Base64
            &&& after == before
        },
        Err(failure) => step matches SimulateStep::Done(r) && simulate_failed(
            before,
            after,
            r,
            failure_text(Version::V1, failure),
        ),
    }
}

impl SimulateCall {
    /// A request to simulate the transaction in `data`. Without text in it there
    /// is nothing to ask.
    pub fn begin(heap: &mut Heap, data: Pointer, data_len: usize, need_account: bool) -> (step:
        SimulateStep)
        requires
            !no_data(data, data_len) ==> readable(old(heap)@, data, data_len),
        ensures
            simulate_begun(old(heap)@, final(heap)@, data, data_len, need_account, step),
    {
        match read_request(heap, data, data_len) {
            Ok(encoded) => {
                let encoding = TransactionBinaryEncoding::Base64;
                let ask = SimulateAsk::Decode { encoded, encoding };
                SimulateStep::Ask(SimulateCall { need_account, need_inner_ix: false, ask })
            },
            Err(failure) => SimulateStep::Done(simulate_error(heap, failure)),
        }
    }
}

/// What a step of a request to simulate does with `event`.
pub open spec fn simulate_step(
    before: Memory,
    after: Memory,
    call: SimulateCall,
    event: SimulateEvent,
    step: SimulateStep,
) -> bool {
    match simulate_next(false, call.ask, event) {
        SimulateNext::Ask(ask) => {
            &&& step == SimulateStep::Ask(SimulateCall { ask, ..call })
            &&& after == before
        },
        SimulateNext::Fail(failure) => step matches SimulateStep::Done(r) && simulate_failed(
            before,
            after,
            r,
            failure_text(Version::V1, failure),
        ),
        SimulateNext::Reply(res) => step matches SimulateStep::Done(r) && simulated(
            before,
            after,
            r,
            call.need_account,
            res,
        ),
    }
}

/// Takes `event` in. While there is something to ask, memory stays as it is. The
/// invoked instructions are not asked for.
pub fn simulate_transaction(heap: &mut Heap, call: SimulateCall, event: SimulateEvent) -> (step:
    SimulateStep)
    requires
        answers_simulate(call.ask, event),
    ensures
        simulate_step(old(heap)@, final(heap)@, call, event, step),
{
    let SimulateCall { need_account, need_inner_ix, ask } = call;
    match advance(false, ask, event) {
        SimulateNext::Ask(ask) => SimulateStep::Ask(
            SimulateCall { need_account, need_inner_ix, ask },
        ),
        SimulateNext::Fail(failure) => SimulateStep::Done(simulate_error(heap, failure)),
        SimulateNext::Reply(res) => SimulateStep::Done(
            simulation_to_repr(heap, need_account, res),
        ),
    }
}

} // verus!
