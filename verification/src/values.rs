//! The values on this side of the boundary.
use crate::memory::texts;
use crate::repr::Pubkey;
use vstd::prelude::*;

verus! {

/// An account as the bank holds it.
#[derive(Debug, PartialEq, Eq)]
pub struct AccountSharedData {
    pub lamports: u64,
    pub data: Vec<u8>,
    pub owner: Pubkey,
    pub executable: bool,
    pub rent_epoch: u64,
}

/// An account as it is encoded in a [`SimulateRes`].
#[derive(Debug, PartialEq, Eq)]
pub struct AccountC {
    pub data: Vec<u8>,
    pub owner: Pubkey,
    pub lamports: u64,
    pub executable: bool,
    pub rent_epoch: u64,
}

/// What an account holds.
pub struct AccountView {
    pub lamports: u64,
    pub data: Seq<u8>,
    pub owner: Pubkey,
    pub executable: bool,
    pub rent_epoch: u64,
}

impl View for AccountSharedData {
    type V = AccountView;

    open spec fn view(&self) -> AccountView {
        AccountView {
            lamports: self.lamports,
            data: self.data@,
            owner: self.owner,
            executable: self.executable,
            rent_epoch: self.rent_epoch,
        }
    }
}

impl View for AccountC {
    type V = AccountView;

    open spec fn view(&self) -> AccountView {
        AccountView {
            lamports: self.lamports,
            data: self.data@,
            owner: self.owner,
            executable: self.executable,
            rent_epoch: self.rent_epoch,
        }
    }
}

impl AccountSharedData {
    /// The same account, in the form that is encoded.
    pub fn into_account_c(self) -> (a: AccountC)
        ensures
            a@ == self@,
    {
        AccountC {
            data: self.data,
            owner: self.owner,
            lamports: self.lamports,
            executable: self.executable,
            rent_epoch: self.rent_epoch,
        }
    }
}

/// An instruction that another one invoked.
#[derive(Debug, PartialEq, Eq)]
pub struct InnerInstruction {
    pub program_id_index: u8,
    pub accounts: Vec<u8>,
    pub data: Vec<u8>,
    pub stack_height: u8,
}

/// The instructions that one instruction of a transaction invoked, in order.
pub type InnerInstructions = Vec<InnerInstruction>;

/// What an instruction holds.
pub struct InnerInstructionView {
    pub program_id_index: u8,
    pub accounts: Seq<u8>,
    pub data: Seq<u8>,
    pub stack_height: u8,
}

impl View for InnerInstruction {
    type V = InnerInstructionView;

    open spec fn view(&self) -> InnerInstructionView {
        InnerInstructionView {
            program_id_index: self.program_id_index,
            accounts: self.accounts@,
            data: self.data@,
            stack_height: self.stack_height,
        }
    }
}

/// What a list of invoked instructions holds.
pub open spec fn inner_views(inner: Option<Vec<InnerInstructions>>) -> Option<
    Seq<Seq<InnerInstructionView>>,
> {
    match inner {
        Some(lists) => Some(
            Seq::new(
                lists@.len(),
                |i: int| Seq::new(lists@[i]@.len(), |j: int| lists@[i]@[j]@),
            ),
        ),
        None => None,
    }
}

/// How a simulation ended.
#[derive(Debug, PartialEq, Eq)]
pub struct TransactionSimulationResult {
    /// The error is what the transaction failed with, as it prints.
    pub result: Result<(), String>,
    pub logs: Vec<String>,
    pub post_simulation_accounts: Vec<(Pubkey, AccountSharedData)>,
    pub units_consumed: u64,
    pub inner_instructions: Option<Vec<InnerInstructions>>,
}

/// The part of a simulation's outcome that is sent encoded.
#[derive(Debug, PartialEq, Eq)]
pub struct SimulateRes {
    pub logs: Vec<String>,
    pub units_consumed: u64,
    pub post_accounts: Option<Vec<(Pubkey, AccountC)>>,
    pub inner_instructions: Option<Vec<InnerInstructions>>,
}

/// What a [`SimulateRes`] holds.
pub struct SimulateResView {
    pub logs: Seq<Seq<char>>,
    pub units_consumed: u64,
    pub post_accounts: Option<Seq<(Pubkey, AccountView)>>,
    pub inner_instructions: Option<Seq<Seq<InnerInstructionView>>>,
}

/// Addresses with what their accounts hold.
pub open spec fn account_c_views(accounts: Seq<(Pubkey, AccountC)>) -> Seq<(Pubkey, AccountView)> {
    Seq::new(accounts.len(), |i: int| (accounts[i].0, accounts[i].1@))
}

impl View for SimulateRes {
    type V = SimulateResView;

    open spec fn view(&self) -> SimulateResView {
        SimulateResView {
            logs: texts(self.logs@),
            units_consumed: self.units_consumed,
            post_accounts: match self.post_accounts {
                Some(accounts) => Some(account_c_views(accounts@)),
                None => None,
            },
            inner_instructions: inner_views(self.inner_instructions),
        }
    }
}

} // verus!
