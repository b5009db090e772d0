//! The encoded form of a simulation's outcome.
use crate::values::{SimulateRes, SimulateResView};
use solana_message::compiled_instruction::CompiledInstruction;
use solana_message::inner_instruction::InnerInstruction;
use solana_pubkey::Pubkey;
use vstd::prelude::*;

verus! {

/// The error of `bincode`, carried as it is.
#[verifier::external_type_specification]
#[verifier::external_body]
pub struct ExBincodeError(bincode::ErrorKind);

/// The longest account list or data of an invoked instruction that has an encoding.
pub const SHORT_VEC_MAX: usize = 65535;

/// The account lists and the data of all invoked instructions have an encoding.
pub open spec fn encodable(res: SimulateResView) -> bool {
    res.inner_instructions matches Some(lists) ==> forall|i: int, j: int|
        0 <= i < lists.len() && 0 <= j < lists[i].len() ==> (#[trigger] lists[i][j]).accounts.len()
            <= SHORT_VEC_MAX && lists[i][j].data.len() <= SHORT_VEC_MAX
}

/// The bytes that `bincode::serialize` gives for the logs, the units, the
/// accounts and the invoked instructions, in that order.
pub uninterp spec fn bincode_bytes(res: SimulateResView) -> Seq<u8>;

/// Calls `bincode::serialize` on the fields of `res`, in order, each address as a
/// `solana_pubkey::Pubkey` and each invoked instruction as a
/// `solana_message::inner_instruction::InnerInstruction`. The bytes depend on
/// nothing but what `res` holds. The call fails exactly where an instruction's
/// account list or data is longer than a 16-bit length can say.
#[verifier::external_body]
fn bincode_serialize(res: &SimulateRes) -> (r: Result<Vec<u8>, Box<bincode::ErrorKind>>)
    ensures
        r is Ok <==> encodable(res@),
        r matches Ok(bytes) ==> bytes@ == bincode_bytes(res@),
{
    let key = Pubkey::new_from_array;
    let accounts = res.post_accounts.as_ref().map(|list| Vec::from_iter(list.iter().map(|(k, a)| {
        (key(k.bytes), (&a.data, key(a.owner.bytes), a.lamports, a.executable, a.rent_epoch))
    })));
    let compiled = CompiledInstruction::new_from_raw_parts;
    let inner = res.inner_instructions.as_ref().map(|lists| Vec::from_iter(lists.iter().map(|list| {
        Vec::from_iter(list.iter().map(|i| InnerInstruction {
            instruction: compiled(i.program_id_index, i.data.clone(), i.accounts.clone()),
            stack_height: i.stack_height,
        }))
    })));
    bincode::serialize(&(&res.logs, res.units_consumed, accounts, inner))
}

/// The encoded form of `res`, if it has one.
pub fn encode_simulate_res(res: &SimulateRes) -> (encoded: Option<Vec<u8>>)
    ensures
        encoded is Some <==> encodable(res@),
        encoded matches Some(bytes) ==> bytes@ == bincode_bytes(res@),
{
    match bincode_serialize(res) {
        Ok(bytes) => Some(bytes),
        Err(_) => None,
    }
}

} // verus!
