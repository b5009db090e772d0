//! Requests for accounts, step by step: each call says what to ask of the
//! service next, and takes in what came back.
use crate::accounts::{
    account_at, account_blocks, accounts_at, all_blocks, lemma_accounts_kept, lemma_accounts_push,
    place_account,
};
use crate::bytes::string_to_c_str;
use crate::heap::{Block, Heap, Memory, Pointer};
use crate::memory::{at, c_str_at, grows, lemma_grows_twice};
use crate::pubkeys::{ffi_to_vec_pubkey, keys_at, keys_of, no_keys, without_keys};
use crate::repr::{AccountCArray, AccountCResult, Pubkey, PubkeyArray};
use crate::service::{
    any_bank, bank_config, found, panic_text, panic_to_string, CommitmentLevel, ErrorReport,
    PanicPayload, RpcContextConfig, TaskResult,
};
use crate::values::{AccountSharedData, AccountView};
use vstd::prelude::*;

verus! {

/// What a request for an account waits for.
#[derive(Clone, Copy, Debug, PartialEq, Eq)]
pub enum AccountAsk {
    /// Whether the service is there.
    Processor,
    /// A bank.
    Bank(RpcContextConfig),
    /// The account in that bank.
    Lookup,
}

/// A request for the account `pk`.
#[derive(Clone, Copy, Debug, PartialEq, Eq)]
pub struct AccountCall {
    pub pk: Pubkey,
    pub ask: AccountAsk,
}

/// What came back for an [`AccountCall`].
#[derive(Debug)]
pub enum AccountEvent {
    Processor { initialized: bool },
    Bank(Result<(), ErrorReport>),
    Account(Option<AccountSharedData>),
    /// The work that was asked for panicked.
    Panicked(PanicPayload),
}

/// What follows: something else is asked, or the reply is there.
#[derive(Clone, Copy, Debug, PartialEq, Eq)]
pub enum AccountStep {
    Ask(AccountCall),
    Done(AccountCResult),
}

/// Where a request goes.
pub enum AccountNext {
    Ask(AccountAsk),
    Fail(Seq<char>),
    Reply(AccountView),
}

impl AccountCall {
    /// A request for the account `pk`.
    pub fn begin(pk: Pubkey) -> (call: AccountCall)
        ensures
            call == (AccountCall { pk, ask: AccountAsk::Processor }),
    {
        AccountCall { pk, ask: AccountAsk::Processor }
    }
}

/// `event` is an answer to `ask`. What ends up in a C string holds no NUL.
pub open spec fn answers_account(ask: AccountAsk, event: AccountEvent) -> bool {
    match event {
        AccountEvent::Processor { .. } => ask is Processor,
        AccountEvent::Bank(r) => ask is Bank && (r matches Err(e) ==> !e.display@.contains('\0')),
        AccountEvent::Account(_) => ask is Lookup,
        AccountEvent::Panicked(p) => !panic_text(p).contains('\0'),
    }
}

/// Where `event` takes a request.
pub open spec fn account_next(event: AccountEvent) -> AccountNext {
    match event {
        AccountEvent::Processor { initialized: true } => AccountNext::Ask(
            AccountAsk::Bank(any_bank(CommitmentLevel::Processed)),
        ),
        AccountEvent::Processor { initialized: false } => AccountNext::Fail(
            "get_account JRP not initialized"@,
        ),
        AccountEvent::Bank(Ok(_)) => AccountNext::Ask(AccountAsk::Lookup),
        AccountEvent::Bank(Err(e)) => AccountNext::Fail(
            "get_account get_bank failed: "@ + e.display@,
        ),
        AccountEvent::Account(Some(a)) => AccountNext::Reply(a@),
        AccountEvent::Account(None) => AccountNext::Fail("get_account bank.get_account"@),
        AccountEvent::Panicked(p) => AccountNext::Fail(panic_text(p)),
    }
}

/// `r` gives `outcome`: the account, or the error message, and the other is null.
pub open spec fn account_reply(
    before: Memory,
    after: Memory,
    r: AccountCResult,
    outcome: Result<AccountView, Seq<char>>,
) -> bool {
    match outcome {
        Ok(v) => {
            &&& r.error_msg is Null
            &&& account_at(after, r.account, v)
            &&& grows(before, after, account_blocks(after, r.account))
        },
        Err(text) => {
            &&& r.account is Null
            &&& c_str_at(after, r.error_msg, text)
            &&& grows(before, after, at(r.error_msg))
        },
    }
}

/// What a step of an account request does with `event`.
pub open spec fn account_step(
    before: Memory,
    after: Memory,
    call: AccountCall,
    event: AccountEvent,
    step: AccountStep,
) -> bool {
    match account_next(event) {
        AccountNext::Ask(ask) => {
            &&& step == AccountStep::Ask(AccountCall { pk: call.pk, ask })
            &&& after == before
        },
        AccountNext::Fail(text) => step matches AccountStep::Done(r) && account_reply(
            before,
            after,
            r,
            Err(text),
        ),
        AccountNext::Reply(v) => step matches AccountStep::Done(r) && account_reply(
            before,
            after,
            r,
            Ok(v),
        ),
    }
}

/// Takes `event` in. While there is something to ask, memory stays as it is.
pub fn get_account(heap: &mut Heap, call: AccountCall, event: AccountEvent) -> (step: AccountStep)
    requires
        answers_account(call.ask, event),
    ensures
        account_step(old(heap)@, final(heap)@, call, event, step),
{
    proof {
        reveal_strlit("get_account JRP not initialized");
        reveal_strlit("get_account get_bank failed: ");
        reveal_strlit("get_account bank.get_account");
    }
    let pk = call.pk;
    let text = match event {
        AccountEvent::Processor { initialized: true } => {
            let ask = AccountAsk::Bank(bank_config(CommitmentLevel::Processed));
            return AccountStep::Ask(AccountCall { pk, ask });
        },
        AccountEvent::Processor { initialized: false } => {
            "get_account JRP not initialized".to_owned()
        },
        AccountEvent::Bank(Ok(_)) => {
            return AccountStep::Ask(AccountCall { pk, ask: AccountAsk::Lookup });
        },
        AccountEvent::Bank(Err(e)) => {
            "get_account get_bank failed: ".to_owned().concat(e.display.as_str())
        },
        AccountEvent::Account(Some(a)) => {
            let account = place_account(heap, a);
            return AccountStep::Done(AccountCResult { account, error_msg: Pointer::Null });
        },
        AccountEvent::Account(None) => "get_account bank.get_account".to_owned(),
        AccountEvent::Panicked(p) => panic_to_string(p),
    };
    let error_msg = string_to_c_str(heap, text);
    AccountStep::Done(AccountCResult { account: Pointer::Null, error_msg })
}

/// What a request for several accounts waits for.
#[derive(Clone, Copy, Debug, PartialEq, Eq)]
pub enum MultipleAsk {
    /// Whether the service is there.
    Processor,
    /// A bank.
    Bank(RpcContextConfig),
    /// Every account in that bank, each looked up on its own.
    Lookup,
}

/// A request for the accounts `pks`, of which there is at least one.
#[derive(Debug, PartialEq, Eq)]
pub struct MultipleCall {
    pub pks: Vec<Pubkey>,
    pub ask: MultipleAsk,
}

/// What came back for a [`MultipleCall`].
#[derive(Debug)]
pub enum MultipleEvent {
    Processor { initialized: bool },
    Bank(Result<(), ErrorReport>),
    /// How the lookups ended, in the order of the addresses.
    Accounts(Vec<TaskResult>),
    /// The work that was asked for panicked.
    Panicked(PanicPayload),
}

/// What follows: something else is asked, or the reply is there.
#[derive(Debug, PartialEq, Eq)]
pub enum MultipleStep {
    Ask(MultipleCall),
    Done(AccountCArray),
}

/// Where a request goes.
pub enum MultipleNext {
    Ask(MultipleAsk),
    Fail(Seq<char>),
    Reply(Seq<Option<AccountView>>),
}

impl MultipleCall {
    /// There is an address to look up.
    pub open spec fn wf(self) -> bool {
        self.pks@.len() > 0
    }
}

/// `event` is an answer to `call`: every address is looked up once. What ends up
/// in a C string holds no NUL.
pub open spec fn answers_multiple(call: MultipleCall, event: MultipleEvent) -> bool {
    match event {
        MultipleEvent::Processor { .. } => call.ask is Processor,
        MultipleEvent::Bank(r) => call.ask is Bank && (r matches Err(e) ==> !e.display@.contains(
            '\0',
        )),
        MultipleEvent::Accounts(results) => call.ask is Lookup && results@.len()
            == call.pks@.len(),
        MultipleEvent::Panicked(p) => !panic_text(p).contains('\0'),
    }
}

/// Where `event` takes a request.
pub open spec fn multiple_next(event: MultipleEvent) -> MultipleNext {
    match event {
        MultipleEvent::Processor { initialized: true } => MultipleNext::Ask(
            MultipleAsk::Bank(any_bank(CommitmentLevel::Processed)),
        ),
        MultipleEvent::Processor { initialized: false } => MultipleNext::Fail(
            "get_multiple_account JRP not initialized"@,
        ),
        MultipleEvent::Bank(Ok(_)) => MultipleNext::Ask(MultipleAsk::Lookup),
        MultipleEvent::Bank(Err(e)) => MultipleNext::Fail(
            "get_multiple_account get_bank failed: "@ + e.display@,
        ),
        MultipleEvent::Accounts(results) => MultipleNext::Reply(found(results@)),
        MultipleEvent::Panicked(p) => MultipleNext::Fail(panic_text(p)),
    }
}

/// The account pointers of an array.
pub open spec fn array_entries(m: Memory, r: AccountCArray) -> Seq<Pointer> {
    match r.ptr {
        Pointer::To(a) if m.contains_key(a) && m[a] is Accounts => m[a]->Accounts_0,
        _ => Seq::empty(),
    }
}

/// Every block of an array of accounts.
pub open spec fn array_blocks(m: Memory, r: AccountCArray) -> Set<usize> {
    at(r.ptr).union(all_blocks(m, array_entries(m, r)))
}

/// `r` gives `outcome`: the accounts in order, in blocks that they do not share,
/// or the error message. No accounts at all are null.
pub open spec fn multiple_reply(
    before: Memory,
    after: Memory,
    r: AccountCArray,
    outcome: Result<Seq<Option<AccountView>>, Seq<char>>,
) -> bool {
    match outcome {
        Ok(vs) => {
            let entries = array_entries(after, r);
            &&& r.error_msg is Null
            &&& r.len == vs.len()
            &&& if vs.len() == 0 {
                r.ptr is Null
            } else {
                &&& r.ptr is To
                &&& accounts_at(after, entries, vs)
                &&& at(r.ptr).disjoint(all_blocks(after, entries))
            }
            &&& grows(before, after, array_blocks(after, r))
        },
        Err(text) => {
            &&& r.ptr is Null
            &&& r.len == 0
            &&& c_str_at(after, r.error_msg, text)
            &&& grows(before, after, at(r.error_msg))
        },
    }
}

fn multiple_error(heap: &mut Heap, text: String) -> (r: AccountCArray)
    requires
        !text@.contains('\0'),
    ensures
        multiple_reply(old(heap)@, final(heap)@, r, Err(text@)),
{
    let error_msg = string_to_c_str(heap, text);
    AccountCArray { ptr: Pointer::Null, len: 0, error_msg }
}

/// Hands the accounts that were found over, as an array.
fn place_accounts(heap: &mut Heap, results: Vec<TaskResult>) -> (r: AccountCArray)
    ensures
        multiple_reply(old(heap)@, final(heap)@, r, Ok(found(results@))),
{
    let len: usize = results.len();
    let ghost vs = found(results@);
    let mut ptrs: Vec<Pointer> = Vec::new();
    assert(all_blocks(heap@, ptrs@) =~= Set::empty());
    for result in it: results
        invariant
            it.seq() == results@,
            vs == found(results@),
            ptrs@.len() == it.index(),
            accounts_at(heap@, ptrs@, vs.take(it.index() as int)),
            grows(old(heap)@, heap@, all_blocks(heap@, ptrs@)),
    {
        let ghost before = heap@;
        let ghost done = ptrs@;
        let p = match result {
            TaskResult::Completed(Some(a)) => place_account(heap, a),
            _ => Pointer::Null,
        };
        ptrs.push(p);
        proof {
            let i = it.index() as int;
            assert(p is Null ==> account_blocks(heap@, p) =~= Set::empty());
            lemma_accounts_push(old(heap)@, before, heap@, done, vs.take(i), p, vs[i]);
            assert(vs.take(i + 1) =~= vs.take(i).push(vs[i]));
        }
    }
    assert(vs.take(len as int) =~= vs);
    if len == 0 {
        let r = AccountCArray { ptr: Pointer::Null, len: 0, error_msg: Pointer::Null };
        assert(array_blocks(heap@, r) =~= all_blocks(heap@, ptrs@));
        return r;
    }
    let ghost before = heap@;
    let ghost entries = ptrs@;
    let ptr = heap.place(Block::Accounts(ptrs));
    let r = AccountCArray { ptr, len, error_msg: Pointer::Null };
    proof {
        lemma_accounts_kept(before, heap@, at(ptr), entries, vs);
        lemma_grows_twice(old(heap)@, before, heap@, all_blocks(before, entries), at(ptr));
        assert(array_blocks(heap@, r) =~= all_blocks(before, entries).union(at(ptr)));
    }
    r
}

/// How a request for the accounts that `array` lists begins.
pub open spec fn multiple_begun(
    before: Memory,
    after: Memory,
    array: PubkeyArray,
    step: MultipleStep,
) -> bool {
    &&& keys_of(before, array).len() == 0 ==> (step matches MultipleStep::Done(r)
        && multiple_reply(without_keys(before, array), after, r, Err("pks len = 0"@)))
    &&& keys_of(before, array).len() > 0 ==> (step matches MultipleStep::Ask(call) && call.wf()
        && call.pks@ == keys_of(before, array) && call.ask is Processor && after == without_keys(
        before,
        array,
    ))
}

impl MultipleCall {
    /// A request for the accounts that `array` lists. The array is read and
    /// freed; without an address in it there is nothing to ask.
    pub fn begin(heap: &mut Heap, array: PubkeyArray) -> (step: MultipleStep)
        requires
            !no_keys(array) ==> keys_at(old(heap)@, array),
        ensures
            multiple_begun(old(heap)@, final(heap)@, array, step),
    {
        let pks = ffi_to_vec_pubkey(heap, array);
        if pks.len() == 0 {
            proof {
                reveal_strlit("pks len = 0");
            }
            let r = multiple_error(heap, "pks len = 0".to_owned());
            return MultipleStep::Done(r);
        }
        MultipleStep::Ask(MultipleCall { pks, ask: MultipleAsk::Processor })
    }
}

/// What a step of a request for several accounts does with `event`.
pub open spec fn multiple_step(
    before: Memory,
    after: Memory,
    call: MultipleCall,
    event: MultipleEvent,
    step: MultipleStep,
) -> bool {
    &&& step matches MultipleStep::Ask(asked) ==> asked.wf()
    &&& step matches MultipleStep::Done(r) ==> (r.ptr is Null <==> r.error_msg !is Null)
    &&& step matches MultipleStep::Done(r) ==> r.len == if r.error_msg is Null {
        call.pks@.len()
    } else {
        0
    }
    &&& match multiple_next(event) {
        MultipleNext::Ask(ask) => {
            &&& step matches MultipleStep::Ask(asked)
            &&& asked.pks@ == call.pks@
            &&& asked.ask == ask
            &&& after == before
        },
        MultipleNext::Fail(text) => step matches MultipleStep::Done(r) && multiple_reply(
            before,
            after,
            r,
            Err(text),
        ),
        MultipleNext::Reply(vs) => step matches MultipleStep::Done(r) && multiple_reply(
            before,
            after,
            r,
            Ok(vs),
        ),
    }
}

/// Takes `event` in. While there is something to ask, memory stays as it is. A
/// reply has either an array, with one entry for each address, or a message.
pub fn get_multiple_account(heap: &mut Heap, call: MultipleCall, event: MultipleEvent) -> (step:
    MultipleStep)
    requires
        call.wf(),
        answers_multiple(call, event),
    ensures
        multiple_step(old(heap)@, final(heap)@, call, event, step),
{
    proof {
        reveal_strlit("get_multiple_account JRP not initialized");
        reveal_strlit("get_multiple_account get_bank failed: ");
    }
    let pks = call.pks;
    let text = match event {
        MultipleEvent::Processor { initialized: true } => {
            let ask = MultipleAsk::Bank(bank_config(CommitmentLevel::Processed));
            return MultipleStep::Ask(MultipleCall { pks, ask });
        },
        MultipleEvent::Processor { initialized: false } => {
            "get_multiple_account JRP not initialized".to_owned()
        },
        MultipleEvent::Bank(Ok(_)) => {
            return MultipleStep::Ask(MultipleCall { pks, ask: MultipleAsk::Lookup });
        },
        MultipleEvent::Bank(Err(e)) => {
            "get_multiple_account get_bank failed: ".to_owned().concat(e.display.as_str())
        },
        MultipleEvent::Accounts(results) => {
            let r = place_accounts(heap, results);
            return MultipleStep::Done(r);
        },
        MultipleEvent::Panicked(p) => panic_to_string(p),
    };
    let r = multiple_error(heap, text);
    MultipleStep::Done(r)
}

} // verus!
