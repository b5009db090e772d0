//! What a plugin is told about when it is loaded.
use vstd::prelude::*;

verus! {

/// What a plugin can call.
#[derive(Clone, Copy, Debug, PartialEq, Eq)]
pub enum Callback {
    GetAccount,
    GetMultipleAccount,
    SimulateTransaction,
    GetLatestBlockhash,
    FreeAccount,
    FreeErrMsg,
    SimulateTransactionV2,
}

/// The function of a plugin that takes a callback.
pub open spec fn register_symbol(callback: Callback) -> Seq<char> {
    match callback {
        Callback::GetAccount => "register_get_account"@,
        Callback::GetMultipleAccount => "register_get_multiple_account"@,
        Callback::SimulateTransaction => "register_simulate_transaction"@,
        Callback::GetLatestBlockhash => "register_get_latest_blockhash"@,
        Callback::FreeAccount => "register_free_account"@,
        Callback::FreeErrMsg => "register_free_err_msg"@,
        Callback::SimulateTransactionV2 => "register_simulate_transaction_v2"@,
    }
}

/// The callbacks, in the order in which a plugin is told about them.
pub open spec fn load_order() -> Seq<Callback> {
    seq![
        Callback::GetAccount,
        Callback::GetMultipleAccount,
        Callback::SimulateTransaction,
        Callback::GetLatestBlockhash,
        Callback::FreeAccount,
        Callback::FreeErrMsg,
        Callback::SimulateTransactionV2,
    ]
}

/// The functions of a plugin that are to be called, each with its callback, in
/// order.
pub fn load_fn() -> (calls: Vec<(&'static str, Callback)>)
    ensures
        calls@.len() == load_order().len(),
        forall|i: int|
            0 <= i < calls@.len() ==> (#[trigger] calls@[i]).1 == load_order()[i] && calls@[i].0@
                == register_symbol(load_order()[i]),
{
    vec![
        ("register_get_account", Callback::GetAccount),
        ("register_get_multiple_account", Callback::GetMultipleAccount),
        ("register_simulate_transaction", Callback::SimulateTransaction),
        ("register_get_latest_blockhash", Callback::GetLatestBlockhash),
        ("register_free_account", Callback::FreeAccount),
        ("register_free_err_msg", Callback::FreeErrMsg),
        ("register_simulate_transaction_v2", Callback::SimulateTransactionV2),
    ]
}

} // verus!
