//! Requests for the latest blockhash, step by step.
use crate::service::{any_bank, bank_config, CommitmentLevel, ErrorReport, RpcContextConfig};
use vstd::prelude::*;

verus! {

/// What a request waits for.
#[derive(Clone, Copy, Debug, PartialEq, Eq)]
pub enum BlockhashAsk {
    /// Whether the service is there.
    Processor,
    /// A bank.
    Bank(RpcContextConfig),
    /// The last blockhash of that bank.
    LastBlockhash,
}

/// What came back for a [`BlockhashAsk`].
#[derive(Debug)]
pub enum BlockhashEvent {
    Processor { initialized: bool },
    Bank(Result<(), ErrorReport>),
    LastBlockhash([u8; 32]),
    /// The work that was asked for panicked.
    Panicked,
}

/// What follows: something else is asked, or the reply is there.
#[derive(Clone, Copy, Debug, PartialEq, Eq)]
pub enum BlockhashStep {
    Ask(BlockhashAsk),
    Done([u8; 32]),
}

/// `event` is an answer to `ask`.
pub open spec fn answers_blockhash(ask: BlockhashAsk, event: BlockhashEvent) -> bool {
    match event {
        BlockhashEvent::Processor { .. } => ask is Processor,
        BlockhashEvent::Bank(_) => ask is Bank,
        BlockhashEvent::LastBlockhash(_) => ask is LastBlockhash,
        BlockhashEvent::Panicked => true,
    }
}

/// Where a request goes; without a blockhash it ends in zeros.
pub enum BlockhashNext {
    Ask(BlockhashAsk),
    Fail,
    Reply([u8; 32]),
}

/// Where `event` takes a request.
pub open spec fn blockhash_next(event: BlockhashEvent) -> BlockhashNext {
    match event {
        BlockhashEvent::Processor { initialized: true } => BlockhashNext::Ask(
            BlockhashAsk::Bank(any_bank(CommitmentLevel::Confirmed)),
        ),
        BlockhashEvent::Processor { initialized: false } => BlockhashNext::Fail,
        BlockhashEvent::Bank(Ok(_)) => BlockhashNext::Ask(BlockhashAsk::LastBlockhash),
        BlockhashEvent::Bank(Err(_)) => BlockhashNext::Fail,
        BlockhashEvent::LastBlockhash(hash) => BlockhashNext::Reply(hash),
        BlockhashEvent::Panicked => BlockhashNext::Fail,
    }
}

impl BlockhashAsk {
    /// A request for the latest blockhash.
    pub fn begin() -> (ask: BlockhashAsk)
        ensures
            ask is Processor,
    {
        BlockhashAsk::Processor
    }
}

/// What a step of a blockhash request does with `event`.
pub open spec fn blockhash_step(event: BlockhashEvent, step: BlockhashStep) -> bool {
    match blockhash_next(event) {
        BlockhashNext::Ask(next) => step == BlockhashStep::Ask(next),
        BlockhashNext::Fail => step matches BlockhashStep::Done(hash) && hash@ == Seq::new(
            32,
            |i: int| 0u8,
        ),
        BlockhashNext::Reply(hash) => step == BlockhashStep::Done(hash),
    }
}

/// Takes `event` in. Whatever goes wrong, the reply is all zeros.
pub fn get_latest_blockhash(ask: BlockhashAsk, event: BlockhashEvent) -> (step: BlockhashStep)
    requires
        answers_blockhash(ask, event),
    ensures
        blockhash_step(event, step),
{
    match event {
        BlockhashEvent::Processor { initialized: true } => BlockhashStep::Ask(
            BlockhashAsk::Bank(bank_config(CommitmentLevel::Confirmed)),
        ),
        BlockhashEvent::Bank(Ok(_)) => BlockhashStep::Ask(BlockhashAsk::LastBlockhash),
        BlockhashEvent::LastBlockhash(hash) => BlockhashStep::Done(hash),
        _ => {
            let zeros = [0u8; 32];
            assert(zeros@ =~= Seq::new(32, |i: int| 0u8));
            BlockhashStep::Done(zeros)
        },
    }
}

} // verus!
