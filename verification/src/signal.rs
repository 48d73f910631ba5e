//! Signal bitmasks: the observable state bits of a signal-bearing object.

use vstd::prelude::*;

verus! {

/// The "has data to read" condition.
pub const READABLE: u32 = 1;

/// The "can accept data" condition.
pub const WRITABLE: u32 = 2;

/// A bitmask over an object's observable condition bits.
///
/// Each bit stands for one condition (for example [`READABLE`] or
/// [`WRITABLE`]). A mask with several bits set is satisfied by a state as
/// soon as any one of its bits is set in that state.
#[derive(Clone, Copy, Debug, PartialEq, Eq, Structural)]
pub struct Signal {
    pub bits: u32,
}

impl Signal {
    /// The empty mask: no condition bit set.
    pub fn empty() -> (s: Signal)
        ensures
            s.bits == 0u32,
    {
        Signal { bits: 0 }
    }

    /// A mask holding exactly the given bits.
    pub fn new(bits: u32) -> (s: Signal)
        ensures
            s.bits == bits,
    {
        Signal { bits }
    }

    /// The union of two masks.
    pub fn union(self, other: Signal) -> (s: Signal)
        ensures
            s.bits == (self.bits | other.bits),
    {
        Signal { bits: self.bits | other.bits }
    }

    /// This mask with every bit of `other` removed.
    pub fn remove(self, other: Signal) -> (s: Signal)
        ensures
            s.bits == (self.bits & !other.bits),
    {
        Signal { bits: self.bits & !other.bits }
    }

    /// True when the two masks share at least one set bit: the state `self`
    /// satisfies the mask `other` (and the other way round).
    pub fn intersects(self, other: Signal) -> (r: bool)
        ensures
            r == ((self.bits & other.bits) != 0u32),
    {
        (self.bits & other.bits) != 0
    }

    /// True when no bit is set.
    pub fn is_empty(self) -> (r: bool)
        ensures
            r == (self.bits == 0u32),
    {
        self.bits == 0
    }
}

} // verus!
