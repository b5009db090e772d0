//! Decoded transactions.
use crate::repr::Pubkey;
use vstd::prelude::*;

verus! {

/// How many of the addresses sign, and how many are only read.
#[derive(Clone, Copy, Debug, PartialEq, Eq)]
pub struct MessageHeader {
    pub num_required_signatures: u8,
    pub num_readonly_signed_accounts: u8,
    pub num_readonly_unsigned_accounts: u8,
}

/// An instruction, with addresses by their place in the message.
#[derive(Debug, PartialEq, Eq)]
pub struct CompiledInstruction {
    pub program_id_index: u8,
    pub accounts: Vec<u8>,
    pub data: Vec<u8>,
}

/// Addresses to be loaded from a table.
#[derive(Debug, PartialEq, Eq)]
pub struct MessageAddressTableLookup {
    pub account_key: Pubkey,
    pub writable_indexes: Vec<u8>,
    pub readonly_indexes: Vec<u8>,
}

/// What is signed.
#[derive(Debug, PartialEq, Eq)]
pub struct VersionedMessage {
    pub header: MessageHeader,
    pub account_keys: Vec<Pubkey>,
    pub recent_blockhash: [u8; 32],
    pub instructions: Vec<CompiledInstruction>,
    /// `None` in a legacy message, which cannot have any.
    pub address_table_lookups: Option<Vec<MessageAddressTableLookup>>,
}

/// A message with its signatures.
#[derive(Debug, PartialEq, Eq)]
pub struct VersionedTransaction {
    pub signatures: Vec<[u8; 64]>,
    pub message: VersionedMessage,
}

/// What an instruction holds.
pub struct CompiledInstructionView {
    pub program_id_index: u8,
    pub accounts: Seq<u8>,
    pub data: Seq<u8>,
}

/// What a table lookup holds.
pub struct TableLookupView {
    pub account_key: Pubkey,
    pub writable_indexes: Seq<u8>,
    pub readonly_indexes: Seq<u8>,
}

/// What a message holds.
pub struct MessageView {
    pub header: MessageHeader,
    pub account_keys: Seq<Pubkey>,
    pub recent_blockhash: [u8; 32],
    pub instructions: Seq<CompiledInstructionView>,
    pub address_table_lookups: Option<Seq<TableLookupView>>,
}

/// What a transaction holds.
pub struct TransactionView {
    pub signatures: Seq<[u8; 64]>,
    pub message: MessageView,
}

impl View for CompiledInstruction {
    type V = CompiledInstructionView;

    open spec fn view(&self) -> CompiledInstructionView {
        CompiledInstructionView {
            program_id_index: self.program_id_index,
            accounts: self.accounts@,
            data: self.data@,
        }
    }
}

impl View for MessageAddressTableLookup {
    type V = TableLookupView;

    open spec fn view(&self) -> TableLookupView {
        TableLookupView {
            account_key: self.account_key,
            writable_indexes: self.writable_indexes@,
            readonly_indexes: self.readonly_indexes@,
        }
    }
}

impl View for VersionedMessage {
    type V = MessageView;

    open spec fn view(&self) -> MessageView {
        MessageView {
            header: self.header,
            account_keys: self.account_keys@,
            recent_blockhash: self.recent_blockhash,
            instructions: Seq::new(self.instructions@.len(), |i: int| self.instructions@[i]@),
            address_table_lookups: match self.address_table_lookups {
                Some(lookups) => Some(Seq::new(lookups@.len(), |i: int| lookups@[i]@)),
                None => None,
            },
        }
    }
}

impl View for VersionedTransaction {
    type V = TransactionView;

    open spec fn view(&self) -> TransactionView {
        TransactionView { signatures: self.signatures@, message: self.message@ }
    }
}

/// The transaction `t`, with `hash` for its blockhash.
pub open spec fn with_blockhash(t: VersionedTransaction, hash: [u8; 32]) -> VersionedTransaction {
    VersionedTransaction {
        message: VersionedMessage { recent_blockhash: hash, ..t.message },
        ..t
    }
}

/// The two differ in nothing but the blockhash, if at all.
pub open spec fn same_but_blockhash(a: TransactionView, b: TransactionView) -> bool {
    a == (TransactionView {
        message: MessageView { recent_blockhash: a.message.recent_blockhash, ..b.message },
        ..b
    })
}

impl VersionedMessage {
    /// Puts another blockhash in.
    pub fn set_recent_blockhash(&mut self, recent_blockhash: [u8; 32])
        ensures
            *final(self) == (VersionedMessage { recent_blockhash, ..*old(self) }),
    {
        self.recent_blockhash = recent_blockhash;
    }
}

} // verus!
