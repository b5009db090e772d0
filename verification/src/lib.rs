//! The reply side of an RPC plugin: what is asked of the service, what is handed
//! across the C boundary, who owns it there, and how it is given back.

pub mod accounts;
pub mod blockhash;
pub mod bytes;
pub mod codec;
pub mod encoded;
pub mod heap;
pub mod laws;
pub mod lookup;
pub mod memory;
pub mod posts;
pub mod promises;
pub mod pubkeys;
pub mod reading;
pub mod registry;
pub mod replies;
pub mod repr;
pub mod service;
pub mod simulate;
pub mod structured;
pub mod transaction;
pub mod values;

pub use accounts::{free_account, to_account_c_repr};
pub use blockhash::{get_latest_blockhash, BlockhashAsk, BlockhashEvent, BlockhashStep};
pub use bytes::{
    allocation_to_leaked_bytes, boxed_to_leaked_bytes, free_err_msg, free_leaked_bytes,
    logs_to_logarray, string_to_c_str, string_to_leaked_bytes, vecu8_to_leaked_bytes,
};
pub use codec::encode_simulate_res;
pub use encoded::{simulate_transaction_v2, SimulateStepV2};
pub use heap::{Block, Heap, Pointer};
pub use lookup::{
    get_account, get_multiple_account, AccountAsk, AccountCall, AccountEvent, AccountStep,
    MultipleAsk, MultipleCall, MultipleEvent, MultipleStep,
};
pub use posts::post_accounts_to_array;
pub use pubkeys::{ffi_to_vec_pubkey, free_pubkey_array};
pub use registry::{load_fn, Callback};
pub use repr::{
    AccountCArray, AccountCRepr, AccountCResult, LogArray, LogRepr, PostAccountArray,
    PostAccountRepr, Pubkey, PubkeyArray, PubkeyRepr, SimulateResultC, SimulateResultRepr,
};
pub use service::{
    panic_to_string, CommitmentLevel, ErrorReport, PanicPayload, RpcContextConfig, TaskResult,
};
pub use simulate::{
    Failure, SimulateAsk, SimulateCall, SimulateEvent, TransactionBinaryEncoding, Version,
};
pub use structured::{simulate_transaction, SimulateStep};
pub use transaction::{
    CompiledInstruction, MessageAddressTableLookup, MessageHeader, VersionedMessage,
    VersionedTransaction,
};
pub use values::{
    AccountC, AccountSharedData, InnerInstruction, InnerInstructions, SimulateRes,
    TransactionSimulationResult,
};
