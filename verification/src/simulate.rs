//! Requests to simulate a transaction, step by step: each call says what to ask
//! of the service next, and takes in what came back.
use crate::heap::{Heap, Memory, Pointer};
use crate::service::{any_bank, bank_config, CommitmentLevel, ErrorReport, RpcContextConfig};
use crate::transaction::{with_blockhash, VersionedTransaction};
use crate::values::TransactionSimulationResult;
use vstd::prelude::*;
use vstd::utf8::{decode_utf8, valid_utf8};

verus! {

/// The error of [`core::str::from_utf8`], carried as it is.
#[verifier::external_type_specification]
#[verifier::external_body]
pub struct ExUtf8Error(core::str::Utf8Error);

/// `core::str::from_utf8` succeeds exactly on UTF-8, and gives the text that the
/// bytes encode.
pub assume_specification[ core::str::from_utf8 ](v: &[u8]) -> (r: Result<
    &str,
    core::str::Utf8Error,
>)
    ensures
        r is Ok <==> valid_utf8(v@),
        r matches Ok(s) ==> s@ == decode_utf8(v@),
;

/// The entry point: replies as structures, or as one encoded buffer.
#[derive(Clone, Copy, Debug, PartialEq, Eq)]
pub enum Version {
    V1,
    V2,
}

/// Why a request ended without a simulation.
#[derive(Debug)]
pub enum Failure {
    NoData,
    NotUtf8,
    Decode(ErrorReport),
    NotInitialized,
    Bank(ErrorReport),
    Sanitize(ErrorReport),
    Panicked,
}

/// The error text of a failure.
pub open spec fn failure_text(version: Version, failure: Failure) -> Seq<char> {
    match version {
        Version::V1 => match failure {
            Failure::NoData => "simulate_transaction: data is null or empty"@,
            Failure::NotUtf8 => "simulate_transaction: invalid UTF-8 in data"@,
            Failure::Decode(e) => "decode_and_deserialize error: "@ + e.debug@,
            Failure::NotInitialized => "simulate_transaction JRP not initialized"@,
            Failure::Bank(e) => "simulate_transaction jrp.get_bank_with_config: "@ + e.debug@,
            Failure::Sanitize(e) => "sanitize_transaction error: "@ + e.debug@,
            Failure::Panicked => "simulate_transaction panic: Any { .. }"@,
        },
        Version::V2 => match failure {
            Failure::NoData => "simulate_transaction_v2: data is null or empty"@,
            Failure::NotUtf8 => "simulate_transaction_v2: invalid UTF-8 in data"@,
            Failure::Decode(e) => "simulate_transaction_v2 decode_and_deserialize error: "@
                + e.debug@,
            Failure::NotInitialized => "simulate_transaction_v2 JRP not initialized"@,
            Failure::Bank(e) => "simulate_transaction_v2 jrp.get_bank_with_config: "@ + e.debug@,
            Failure::Sanitize(e) => "simulate_transaction_v2 error: "@ + e.debug@,
            Failure::Panicked => "simulate_transaction_v2 panic: Any { .. }"@,
        },
    }
}

/// The error text of a failure.
pub fn failure_to_string(version: Version, failure: Failure) -> (text: String)
    ensures
        text@ == failure_text(version, failure),
{
    match version {
        Version::V1 => match failure {
            Failure::NoData => "simulate_transaction: data is null or empty".to_owned(),
            Failure::NotUtf8 => "simulate_transaction: invalid UTF-8 in data".to_owned(),
            Failure::Decode(e) => {
                "decode_and_deserialize error: ".to_owned().concat(e.debug.as_str())
            },
            Failure::NotInitialized => "simulate_transaction JRP not initialized".to_owned(),
            Failure::Bank(e) => {
                "simulate_transaction jrp.get_bank_with_config: ".to_owned().concat(
                    e.debug.as_str(),
                )
            },
            Failure::Sanitize(e) => {
                "sanitize_transaction error: ".to_owned().concat(e.debug.as_str())
            },
            Failure::Panicked => "simulate_transaction panic: Any { .. }".to_owned(),
        },
        Version::V2 => match failure {
            Failure::NoData => "simulate_transaction_v2: data is null or empty".to_owned(),
            Failure::NotUtf8 => "simulate_transaction_v2: invalid UTF-8 in data".to_owned(),
            Failure::Decode(e) => {
                "simulate_transaction_v2 decode_and_deserialize error: ".to_owned().concat(
                    e.debug.as_str(),
                )
            },
            Failure::NotInitialized => "simulate_transaction_v2 JRP not initialized".to_owned(),
            Failure::Bank(e) => {
                "simulate_transaction_v2 jrp.get_bank_with_config: ".to_owned().concat(
                    e.debug.as_str(),
                )
            },
            Failure::Sanitize(e) => {
                "simulate_transaction_v2 error: ".to_owned().concat(e.debug.as_str())
            },
            Failure::Panicked => "simulate_transaction_v2 panic: Any { .. }".to_owned(),
        },
    }
}

/// How the bytes of a transaction are written as text.
#[derive(Clone, Copy, Debug, PartialEq, Eq)]
pub enum TransactionBinaryEncoding {
    Base58,
    Base64,
}

/// What a request waits for; the decoded transaction is kept until it is used.
#[derive(Debug, PartialEq, Eq)]
pub enum SimulateAsk {
    /// The transaction that the text encodes.
    Decode { encoded: String, encoding: TransactionBinaryEncoding },
    /// Whether the service is there.
    Processor { transaction: VersionedTransaction },
    /// A bank.
    Bank { config: RpcContextConfig, transaction: VersionedTransaction },
    /// The last blockhash of that bank.
    LastBlockhash { transaction: VersionedTransaction },
    /// The transaction, sanitized for that bank.
    Sanitize { transaction: VersionedTransaction },
    /// The simulation of the sanitized transaction in that bank.
    Simulate { inner_instructions: bool },
}

/// A request to simulate a transaction.
#[derive(Debug, PartialEq, Eq)]
pub struct SimulateCall {
    pub need_account: bool,
    pub need_inner_ix: bool,
    pub ask: SimulateAsk,
}

/// What came back for a [`SimulateCall`].
#[derive(Debug)]
pub enum SimulateEvent {
    Decoded(Result<VersionedTransaction, ErrorReport>),
    Processor { initialized: bool },
    Bank(Result<(), ErrorReport>),
    LastBlockhash([u8; 32]),
    Sanitized(Result<(), ErrorReport>),
    Simulated(TransactionSimulationResult),
    /// The work that was asked for panicked.
    Panicked,
}

/// Where a request goes.
#[derive(Debug)]
pub enum SimulateNext {
    Ask(SimulateAsk),
    Fail(Failure),
    Reply(TransactionSimulationResult),
}

/// `event` is an answer to `ask`.
pub open spec fn answers_simulate(ask: SimulateAsk, event: SimulateEvent) -> bool {
    match event {
        SimulateEvent::Decoded(_) => ask is Decode,
        SimulateEvent::Processor { .. } => ask is Processor,
        SimulateEvent::Bank(_) => ask is Bank,
        SimulateEvent::LastBlockhash(_) => ask is LastBlockhash,
        SimulateEvent::Sanitized(_) => ask is Sanitize,
        SimulateEvent::Simulated(_) => ask is Simulate,
        SimulateEvent::Panicked => true,
    }
}

/// Where `event` takes a request that waits for `ask` and wants, or does not want,
/// the invoked instructions. What answers nothing is a panic.
pub open spec fn simulate_next(
    inner_instructions: bool,
    ask: SimulateAsk,
    event: SimulateEvent,
) -> SimulateNext {
    match (ask, event) {
        (SimulateAsk::Decode { .. }, SimulateEvent::Decoded(Ok(transaction))) => SimulateNext::Ask(
            SimulateAsk::Processor { transaction },
        ),
        (SimulateAsk::Decode { .. }, SimulateEvent::Decoded(Err(e))) => SimulateNext::Fail(
            Failure::Decode(e),
        ),
        (
            SimulateAsk::Processor { transaction },
            SimulateEvent::Processor { initialized: true },
        ) => SimulateNext::Ask(
            SimulateAsk::Bank { config: any_bank(CommitmentLevel::Processed), transaction },
        ),
        (
            SimulateAsk::Processor { .. },
            SimulateEvent::Processor { initialized: false },
        ) => SimulateNext::Fail(Failure::NotInitialized),
        (SimulateAsk::Bank { transaction, .. }, SimulateEvent::Bank(Ok(_))) => SimulateNext::Ask(
            SimulateAsk::LastBlockhash { transaction },
        ),
        (SimulateAsk::Bank { .. }, SimulateEvent::Bank(Err(e))) => SimulateNext::Fail(
            Failure::Bank(e),
        ),
        (
            SimulateAsk::LastBlockhash { transaction },
            SimulateEvent::LastBlockhash(hash),
        ) => SimulateNext::Ask(
            SimulateAsk::Sanitize { transaction: with_blockhash(transaction, hash) },
        ),
        (SimulateAsk::Sanitize { .. }, SimulateEvent::Sanitized(Ok(_))) => SimulateNext::Ask(
            SimulateAsk::Simulate { inner_instructions },
        ),
        (SimulateAsk::Sanitize { .. }, SimulateEvent::Sanitized(Err(e))) => SimulateNext::Fail(
            Failure::Sanitize(e),
        ),
        (SimulateAsk::Simulate { .. }, SimulateEvent::Simulated(r)) => SimulateNext::Reply(r),
        _ => SimulateNext::Fail(Failure::Panicked),
    }
}

pub(crate) fn advance(inner_instructions: bool, ask: SimulateAsk, event: SimulateEvent) -> (next:
    SimulateNext)
    ensures
        next == simulate_next(inner_instructions, ask, event),
{
    match (ask, event) {
        (SimulateAsk::Decode { .. }, SimulateEvent::Decoded(Ok(transaction))) => SimulateNext::Ask(
            SimulateAsk::Processor { transaction },
        ),
        (SimulateAsk::Decode { .. }, SimulateEvent::Decoded(Err(e))) => SimulateNext::Fail(
            Failure::Decode(e),
        ),
        (
            SimulateAsk::Processor { transaction },
            SimulateEvent::Processor { initialized: true },
        ) => SimulateNext::Ask(
            SimulateAsk::Bank { config: bank_config(CommitmentLevel::Processed), transaction },
        ),
        (
            SimulateAsk::Processor { .. },
            SimulateEvent::Processor { initialized: false },
        ) => SimulateNext::Fail(Failure::NotInitialized),
        (SimulateAsk::Bank { transaction, .. }, SimulateEvent::Bank(Ok(_))) => SimulateNext::Ask(
            SimulateAsk::LastBlockhash { transaction },
        ),
        (SimulateAsk::Bank { .. }, SimulateEvent::Bank(Err(e))) => SimulateNext::Fail(
            Failure::Bank(e),
        ),
        (SimulateAsk::LastBlockhash { transaction }, SimulateEvent::LastBlockhash(hash)) => {
            let mut transaction = transaction;
            transaction.message.set_recent_blockhash(hash);
            SimulateNext::Ask(SimulateAsk::Sanitize { transaction })
        },
        (SimulateAsk::Sanitize { .. }, SimulateEvent::Sanitized(Ok(_))) => SimulateNext::Ask(
            SimulateAsk::Simulate { inner_instructions },
        ),
        (SimulateAsk::Sanitize { .. }, SimulateEvent::Sanitized(Err(e))) => SimulateNext::Fail(
            Failure::Sanitize(e),
        ),
        (SimulateAsk::Simulate { .. }, SimulateEvent::Simulated(r)) => SimulateNext::Reply(r),
        _ => SimulateNext::Fail(Failure::Panicked),
    }
}

/// Null, or nothing to read.
pub open spec fn no_data(data: Pointer, len: usize) -> bool {
    data is Null || len == 0
}

/// `len` bytes can be read from `data` on.
pub open spec fn readable(m: Memory, data: Pointer, len: usize) -> bool {
    &&& data matches Pointer::To(a)
    &&& m.contains_key(a)
    &&& m[a].bytes() matches Some(bytes)
    &&& len <= bytes.len()
}

/// The first `len` bytes from `data` on.
pub open spec fn input(m: Memory, data: Pointer, len: usize) -> Seq<u8> {
    m[data->To_0].bytes()->0.take(len as int)
}

/// What a request passes in: text, or a failure.
pub open spec fn request(m: Memory, data: Pointer, len: usize) -> Result<Seq<char>, Failure> {
    if no_data(data, len) {
        Err(Failure::NoData)
    } else if !valid_utf8(input(m, data, len)) {
        Err(Failure::NotUtf8)
    } else {
        Ok(decode_utf8(input(m, data, len)))
    }
}

pub(crate) fn read_request(heap: &Heap, data: Pointer, data_len: usize) -> (r: Result<
    String,
    Failure,
>)
    requires
        !no_data(data, data_len) ==> readable(heap@, data, data_len),
    ensures
        match r {
            Ok(text) => request(heap@, data, data_len) == Ok::<Seq<char>, Failure>(text@),
            Err(failure) => request(heap@, data, data_len) == Err::<Seq<char>, Failure>(failure),
        },
{
    if data.is_null() || data_len == 0 {
        return Err(Failure::NoData);
    }
    if let Pointer::To(a) = data {
        if let Some(bytes) = heap.get(a).bytes() {
            let slice = vstd::slice::slice_subrange(bytes.as_slice(), 0, data_len);
            assert(slice@ =~= input(heap@, data, data_len));
            return match core::str::from_utf8(slice) {
                Ok(s) => Ok(s.to_owned()),
                Err(_) => Err(Failure::NotUtf8),
            };
        }
    }
    Err(Failure::NoData)
}

} // verus!
