//! The values that cross the C boundary, with pointers into a [`Heap`](crate::Heap).
use crate::heap::Pointer;
use vstd::prelude::*;

verus! {

/// A 32-byte account address.
#[derive(Clone, Copy, Debug, PartialEq, Eq)]
pub struct Pubkey {
    pub bytes: [u8; 32],
}

impl Pubkey {
    pub fn new_from_array(bytes: [u8; 32]) -> (pk: Pubkey)
        ensures
            pk.bytes == bytes,
    {
        Pubkey { bytes }
    }

    pub fn to_bytes(self) -> (bytes: [u8; 32])
        ensures
            bytes == self.bytes,
    {
        self.bytes
    }
}

/// An account as the other side of the boundary reads it.
#[derive(Clone, Copy, Debug, PartialEq, Eq)]
pub struct AccountCRepr {
    pub lamports: u64,
    pub data_ptr: Pointer,
    pub data_len: usize,
    pub owner: [u8; 32],
    /// 0 for false, 1 for true.
    pub executable: u8,
    pub rent_epoch: u64,
}

/// The reply to an account request: an account, or an error message.
#[derive(Clone, Copy, Debug, PartialEq, Eq)]
pub struct AccountCResult {
    pub account: Pointer,
    /// Null on success, a C string otherwise.
    pub error_msg: Pointer,
}

#[derive(Clone, Copy, Debug, PartialEq, Eq)]
pub struct PubkeyRepr {
    pub bytes: [u8; 32],
}

/// An array of addresses, passed in by the other side.
#[derive(Clone, Copy, Debug, PartialEq, Eq)]
pub struct PubkeyArray {
    pub ptr: Pointer,
    pub len: usize,
}

/// The reply to a request for several accounts: an array of account pointers,
/// null where there is no account, or an error message.
#[derive(Clone, Copy, Debug, PartialEq, Eq)]
pub struct AccountCArray {
    pub ptr: Pointer,
    pub len: usize,
    pub error_msg: Pointer,
}

/// One log line, by length rather than by a terminator.
#[derive(Clone, Copy, Debug, PartialEq, Eq)]
pub struct LogRepr {
    pub ptr: Pointer,
    pub len: usize,
}

#[derive(Clone, Copy, Debug, PartialEq, Eq)]
pub struct LogArray {
    pub ptr: Pointer,
    pub len: usize,
}

/// An account as a simulation left it, under its address.
#[derive(Clone, Copy, Debug, PartialEq, Eq)]
pub struct PostAccountRepr {
    pub pubkey: [u8; 32],
    pub account: Pointer,
}

#[derive(Clone, Copy, Debug, PartialEq, Eq)]
pub struct PostAccountArray {
    pub ptr: Pointer,
    pub len: usize,
}

/// The reply to a simulation request, as structures.
#[derive(Clone, Copy, Debug, PartialEq, Eq)]
pub struct SimulateResultRepr {
    pub error_ptr: Pointer,
    pub error_len: usize,
    pub logs: LogArray,
    pub units_consumed: u64,
    pub post_accounts: PostAccountArray,
}

/// The reply to a simulation request, as one encoded buffer.
#[derive(Clone, Copy, Debug, PartialEq, Eq)]
pub struct SimulateResultC {
    pub error_ptr: Pointer,
    pub error_len: usize,
    pub data_ptr: Pointer,
    pub data_len: usize,
}

} // verus!
