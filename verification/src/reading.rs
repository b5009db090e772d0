//! What the other side reads out of a reply.
use crate::accounts::account_behind;
use crate::bytes::log_entries;
use crate::heap::{Memory, Pointer};
use crate::posts::post_entries;
use crate::repr::{LogArray, PostAccountArray, Pubkey, SimulateResultC, SimulateResultRepr};
use crate::values::AccountView;
use vstd::prelude::*;

verus! {

/// The `len` bytes from `p` on.
pub open spec fn read_bytes(m: Memory, p: Pointer, len: usize) -> Seq<u8> {
    match p {
        Pointer::To(a) if m[a].bytes() is Some => m[a].bytes()->0.take(len as int),
        _ => Seq::empty(),
    }
}

/// The bytes from `p` on, if it is not null.
pub open spec fn read_optional(m: Memory, p: Pointer, len: usize) -> Option<Seq<u8>> {
    if p is Null {
        None
    } else {
        Some(read_bytes(m, p, len))
    }
}

/// The account behind `p`, if there is one.
pub open spec fn read_account(m: Memory, p: Pointer) -> Option<AccountView> {
    match account_behind(m, p) {
        Some(c) => Some(
            AccountView {
                lamports: c.lamports,
                data: read_bytes(m, c.data_ptr, c.data_len),
                owner: Pubkey { bytes: c.owner },
                executable: c.executable != 0,
                rent_epoch: c.rent_epoch,
            },
        ),
        None => None,
    }
}

/// The lines of a log array.
pub open spec fn read_logs(m: Memory, logs: LogArray) -> Seq<Seq<u8>> {
    let entries = log_entries(m, logs);
    Seq::new(logs.len as nat, |i: int| read_bytes(m, entries[i].ptr, entries[i].len))
}

/// The accounts of an array under their addresses, if there is a list at all.
pub open spec fn read_posts(m: Memory, posts: PostAccountArray) -> Option<
    Seq<(Pubkey, Option<AccountView>)>,
> {
    let entries = post_entries(m, posts);
    if posts.ptr is Null {
        None
    } else {
        Some(
            Seq::new(
                posts.len as nat,
                |i: int| (Pubkey { bytes: entries[i].pubkey }, read_account(m, entries[i].account)),
            ),
        )
    }
}

/// What is in the reply to a simulation request.
pub struct SimulateContents {
    pub error: Option<Seq<u8>>,
    pub logs: Seq<Seq<u8>>,
    pub units_consumed: u64,
    pub post_accounts: Option<Seq<(Pubkey, Option<AccountView>)>>,
}

/// What `r` gives to read.
pub open spec fn read_reply(m: Memory, r: SimulateResultRepr) -> SimulateContents {
    SimulateContents {
        error: read_optional(m, r.error_ptr, r.error_len),
        logs: read_logs(m, r.logs),
        units_consumed: r.units_consumed,
        post_accounts: read_posts(m, r.post_accounts),
    }
}

/// What is in an encoded reply to a simulation request.
pub struct SimulateContentsV2 {
    pub error: Option<Seq<u8>>,
    pub data: Option<Seq<u8>>,
}

/// What `r` gives to read.
pub open spec fn read_reply_v2(m: Memory, r: SimulateResultC) -> SimulateContentsV2 {
    SimulateContentsV2 {
        error: read_optional(m, r.error_ptr, r.error_len),
        data: read_optional(m, r.data_ptr, r.data_len),
    }
}

} // verus!
