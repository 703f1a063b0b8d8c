//! Numbers handed out in turn, each of them once.

use vstd::prelude::*;
use crate::table::Dup;
use crate::types::Error;

verus! {

/// A counter that hands out the numbers from 0 on, in turn.
#[derive(Debug, Clone, Copy, PartialEq, Eq)]
pub struct IdAllocator {
    next: u32,
}

impl View for IdAllocator {
    type V = u32;

    /// The number that is handed out next.
    closed spec fn view(&self) -> u32 {
        self.next
    }
}

impl Dup for IdAllocator {
    fn dup(&self) -> (r: Self) {
        IdAllocator { next: self.next }
    }
}

impl IdAllocator {
    /// A counter that has handed out nothing yet.
    pub fn new() -> (r: Self)
        ensures
            r@ == 0,
    {
        IdAllocator { next: 0 }
    }

    /// The number that is handed out next, if one is left.
    pub fn next(&self) -> (r: u32)
        ensures
            r == self@,
    {
        self.next
    }

    /// The number that is handed out next, if one is left below `limit`.
    pub fn peek(&self, limit: u32) -> (r: Option<u32>)
        ensures
            r == (if self@ < limit {
                Some(self@)
            } else {
                None
            }),
    {
        if self.next < limit {
            Some(self.next)
        } else {
            None
        }
    }

    /// Hands out the next number, if one is left below `limit`.
    pub fn allocate(&mut self, limit: u32) -> (r: Result<u32, Error>)
        ensures
            match r {
                Ok(id) => id == old(self)@ && id < limit && final(self)@ == id + 1,
                Err(e) => e == Error::NoAvailableId && old(self)@ >= limit && final(self)@ == old(
                    self,
                )@,
            },
    {
        let id = self.next;
        if id < limit {
            self.next = id + 1;
            Ok(id)
        } else {
            Err(Error::NoAvailableId)
        }
    }
}

} // verus!
