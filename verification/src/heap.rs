//! Memory that the library has handed out, or has been handed, and that has
//! not been freed yet.
use crate::repr::{AccountCRepr, LogRepr, PostAccountRepr, PubkeyRepr};
use vstd::prelude::*;

verus! {

/// What a C pointer can be.
#[derive(Clone, Copy, Debug, PartialEq, Eq)]
pub enum Pointer {
    Null,
    /// Not null, with nothing allocated behind it: where an empty buffer is.
    Dangling,
    /// The address of a live block.
    To(usize),
}

impl Pointer {
    pub fn is_null(&self) -> (b: bool)
        ensures
            b == (*self is Null),
    {
        matches!(self, Pointer::Null)
    }
}

/// One allocation.
#[derive(Debug)]
pub enum Block {
    /// A buffer of exactly its length.
    Bytes(Vec<u8>),
    /// A buffer at the start of an allocation of `capacity` bytes, which is longer.
    Vector { bytes: Vec<u8>, capacity: usize },
    /// A NUL-terminated string, terminator included.
    CStr(Vec<u8>),
    Account(AccountCRepr),
    Pubkeys(Vec<PubkeyRepr>),
    Accounts(Vec<Pointer>),
    Logs(Vec<LogRepr>),
    PostAccounts(Vec<PostAccountRepr>),
}

/// What a block holds.
pub enum BlockView {
    Bytes(Seq<u8>),
    Vector { bytes: Seq<u8>, capacity: usize },
    CStr(Seq<u8>),
    Account(AccountCRepr),
    Pubkeys(Seq<PubkeyRepr>),
    Accounts(Seq<Pointer>),
    Logs(Seq<LogRepr>),
    PostAccounts(Seq<PostAccountRepr>),
}

impl View for Block {
    type V = BlockView;

    open spec fn view(&self) -> BlockView {
        match *self {
            Block::Bytes(v) => BlockView::Bytes(v@),
            Block::Vector { bytes, capacity } => BlockView::Vector { bytes: bytes@, capacity },
            Block::CStr(v) => BlockView::CStr(v@),
            Block::Account(a) => BlockView::Account(a),
            Block::Pubkeys(v) => BlockView::Pubkeys(v@),
            Block::Accounts(v) => BlockView::Accounts(v@),
            Block::Logs(v) => BlockView::Logs(v@),
            Block::PostAccounts(v) => BlockView::PostAccounts(v@),
        }
    }
}

impl BlockView {
    /// The bytes in a block of bytes.
    pub open spec fn bytes(self) -> Option<Seq<u8>> {
        match self {
            BlockView::Bytes(bytes) => Some(bytes),
            BlockView::Vector { bytes, .. } => Some(bytes),
            BlockView::CStr(bytes) => Some(bytes),
            _ => None,
        }
    }
}

impl Block {
    /// The bytes in a block of bytes.
    pub fn bytes(&self) -> (bytes: Option<&Vec<u8>>)
        ensures
            match bytes {
                Some(v) => self@.bytes() == Some(v@),
                None => self@.bytes() is None,
            },
    {
        match self {
            Block::Bytes(v) => Some(v),
            Block::Vector { bytes, .. } => Some(bytes),
            Block::CStr(v) => Some(v),
            _ => None,
        }
    }
}

/// The live blocks, by address.
pub type Memory = Map<usize, BlockView>;

/// The live blocks themselves.
#[derive(Debug)]
pub struct Heap {
    slots: Vec<Option<Block>>,
}

impl View for Heap {
    type V = Memory;

    closed spec fn view(&self) -> Memory {
        Map::new(
            |a: usize| a < self.slots@.len() && self.slots@[a as int] is Some,
            |a: usize| self.slots@[a as int]->0@,
        )
    }
}

impl Heap {
    pub fn new() -> (heap: Heap)
        ensures
            heap@ == Memory::empty(),
    {
        let heap = Heap { slots: Vec::new() };
        assert(heap@ =~= Memory::empty());
        heap
    }

    /// Puts `block` at an address where nothing lives.
    pub fn place(&mut self, block: Block) -> (p: Pointer)
        ensures
            ({
                &&& p matches Pointer::To(a)
                &&& !old(self)@.contains_key(a)
                &&& final(self)@ == old(self)@.insert(a, block@)
            }),
    {
        let a: usize = self.slots.len();
        self.slots.push(Some(block));
        assert(self@ =~= old(self)@.insert(a, block@));
        Pointer::To(a)
    }

    /// The block at `a`.
    pub fn get(&self, a: usize) -> (block: &Block)
        requires
            self@.contains_key(a),
        ensures
            block@ == self@[a],
    {
        self.slots[a].as_ref().unwrap()
    }

    /// Removes the block at `a` and hands it over.
    pub fn take(&mut self, a: usize) -> (block: Block)
        requires
            old(self)@.contains_key(a),
        ensures
            block@ == old(self)@[a],
            final(self)@ == old(self)@.remove(a),
    {
        let block = self.slots[a].take();
        assert(self@ =~= old(self)@.remove(a));
        block.unwrap()
    }
}

} // verus!
