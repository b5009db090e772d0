//! What is asked of the RPC service, and what comes back.
use crate::values::{AccountSharedData, AccountView};
use vstd::prelude::*;

verus! {

/// How settled a bank has to be.
#[derive(Clone, Copy, Debug, PartialEq, Eq)]
pub enum CommitmentLevel {
    Processed,
    Confirmed,
}

/// Which bank to work on.
#[derive(Clone, Copy, Debug, PartialEq, Eq)]
pub struct RpcContextConfig {
    pub commitment: Option<CommitmentLevel>,
    pub min_context_slot: Option<u64>,
}

/// Any bank of that commitment, from slot 0 on.
pub open spec fn any_bank(level: CommitmentLevel) -> RpcContextConfig {
    RpcContextConfig { commitment: Some(level), min_context_slot: Some(0) }
}

/// Asks for any bank of that commitment.
pub fn bank_config(level: CommitmentLevel) -> (config: RpcContextConfig)
    ensures
        config == any_bank(level),
{
    RpcContextConfig { commitment: Some(level), min_context_slot: Some(0) }
}

/// An error of the service, as it prints for users and for developers.
#[derive(Debug)]
pub struct ErrorReport {
    pub display: String,
    pub debug: String,
}

/// What a panic carried, as far as it is text.
#[derive(Debug)]
pub struct PanicPayload {
    /// A string literal.
    pub as_str: Option<&'static str>,
    /// A formatted message.
    pub as_string: Option<String>,
}

/// The message of a panic.
pub open spec fn panic_text(payload: PanicPayload) -> Seq<char> {
    match payload.as_str {
        Some(s) => s@,
        None => match payload.as_string {
            Some(s) => s@,
            None => "Unknown panic occurred"@,
        },
    }
}

/// The message of a panic.
pub fn panic_to_string(panic_err: PanicPayload) -> (s: String)
    ensures
        s@ == panic_text(panic_err),
{
    if let Some(s) = panic_err.as_str {
        s.to_owned()
    } else if let Some(s) = panic_err.as_string {
        s
    } else {
        "Unknown panic occurred".to_owned()
    }
}

/// How one of several account lookups ended.
#[derive(Debug)]
pub enum TaskResult {
    /// It ran, and found an account or none.
    Completed(Option<AccountSharedData>),
    /// It did not run to its end.
    Failed,
}

/// The accounts that were found, in order.
pub open spec fn found(results: Seq<TaskResult>) -> Seq<Option<AccountView>> {
    Seq::new(
        results.len(),
        |i: int|
            match results[i] {
                TaskResult::Completed(Some(a)) => Some(a@),
                _ => None,
            },
    )
}

} // verus!
