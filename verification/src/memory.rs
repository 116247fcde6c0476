//! Room in the guest's memory page.
//!
//! The host hands out the page from the front: every fresh block starts where
//! the block before it ended.  A block is handed out once.  Only the newest
//! block can be given back, and only whole.

use vstd::prelude::*;
use crate::status::Allocation;

verus! {

/// The offset of a fresh block of `length` bytes in a page that is used up to
/// `next_free`; `None` for an empty block, and when the page has no room for
/// the block.
pub open spec fn offer(next_free: nat, length: u16) -> Option<u16> {
    if length >= 1 && next_free + length <= 65536 {
        Some(next_free as u16)
    } else {
        None
    }
}

/// Keeps track of the part of the guest's page that blocks occupy.
#[derive(Debug)]
pub struct PageAllocator {
    next_free: u32,
}

impl View for PageAllocator {
    type V = nat;

    /// The first byte of the page that no block occupies.
    closed spec fn view(&self) -> nat {
        self.next_free as nat
    }
}

impl PageAllocator {
    /// An allocator for a page that is used up to `next_free`.
    pub fn new(next_free: u32) -> (r: PageAllocator)
        ensures
            r@ == next_free,
    {
        PageAllocator { next_free }
    }

    /// The first byte of the page that no block occupies.
    pub fn next_free(&self) -> (r: u32)
        ensures
            r == self@,
    {
        self.next_free
    }

    /// Hands out a fresh block of `length` bytes and returns its offset; or
    /// hands out nothing and returns `None`.
    pub fn allocate(&mut self, length: u16) -> (r: Option<u16>)
        ensures
            r == offer(old(self)@, length),
            final(self)@ == (if r is Some {
                old(self)@ + length
            } else {
                old(self)@ as int
            }),
            r matches Some(offset) ==> (Allocation { offset, length }).fits(),
    {
        if length == 0 || self.next_free > 65536 - length as u32 {
            return None;
        }
        let offset = self.next_free as u16;
        self.next_free = self.next_free + length as u32;
        Some(offset)
    }

    /// Takes `block` back if it is the newest block handed out, and says
    /// whether it did.  The room of the block is then free again; nothing
    /// else changes.
    pub fn release(&mut self, block: Allocation) -> (r: bool)
        ensures
            r == (block.offset + block.length == old(self)@),
            final(self)@ == (if r {
                block.offset as nat
            } else {
                old(self)@
            }),
    {
        if block.offset as u32 + block.length as u32 == self.next_free {
            self.next_free = block.offset as u32;
            true
        } else {
            false
        }
    }
}

} // verus!
