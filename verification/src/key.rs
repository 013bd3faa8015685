use vstd::prelude::*;

verus! {

/// An absolute address in the storage key space.
///
/// A key is totally ordered and supports offset arithmetic with unsigned
/// 32-bit and 64-bit displacements, together with a checked difference
/// that recovers an allocation index from a key.  The numeric value of a
/// key is visible to specifications through [`Key::as_int`].
#[derive(Clone, Copy, Debug, PartialEq, Eq, Structural, Hash)]
pub struct Key {
    value: u128,
}

impl Key {
    /// The address this key stands for, as a mathematical integer.
    pub closed spec fn as_int(self) -> int {
        self.value as int
    }

    /// The key at the given absolute address.
    pub fn new(value: u128) -> (r: Key)
        ensures
            r.as_int() == value as int,
    {
        Key { value }
    }

    /// The absolute address of this key.
    pub fn value(self) -> (r: u128)
        ensures
            r as int == self.as_int(),
    {
        self.value
    }

    /// Total-order comparison: `self < other`.
    pub fn lt(self, other: Key) -> (r: bool)
        ensures
            r == (self.as_int() < other.as_int()),
    {
        self.value < other.value
    }

    /// The key `self + offset` for a 32-bit displacement.
    pub fn offset_u32(self, offset: u32) -> (r: Key)
        requires
            self.as_int() + offset <= u128::MAX,
        ensures
            r.as_int() == self.as_int() + offset,
    {
        Key { value: self.value + offset as u128 }
    }

    /// The key `self + offset` for a 64-bit displacement.
    pub fn offset_u64(self, offset: u64) -> (r: Key)
        requires
            self.as_int() + offset <= u128::MAX,
        ensures
            r.as_int() == self.as_int() + offset,
    {
        Key { value: self.value + offset as u128 }
    }

    /// The difference `self - other`, checked-downcast to 32 bits.
    ///
    /// Fails exactly when the true difference is negative or does not fit
    /// in a `u32`.
    pub fn diff_u32(self, other: Key) -> (r: Option<u32>)
        ensures
            r == if other.as_int() <= self.as_int() && self.as_int() - other.as_int()
                <= u32::MAX {
                Some((self.as_int() - other.as_int()) as u32)
            } else {
                None::<u32>
            },
    {
        if other.value <= self.value {
            let diff: u128 = self.value - other.value;
            if diff <= u32::MAX as u128 {
                Some(diff as u32)
            } else {
                None
            }
        } else {
            None
        }
    }

    /// The difference `self - other`, checked-downcast to 64 bits.
    ///
    /// Fails exactly when the true difference is negative or does not fit
    /// in a `u64`.
    pub fn diff_u64(self, other: Key) -> (r: Option<u64>)
        ensures
            r == if other.as_int() <= self.as_int() && self.as_int() - other.as_int()
                <= u64::MAX {
                Some((self.as_int() - other.as_int()) as u64)
            } else {
                None::<u64>
            },
    {
        if other.value <= self.value {
            let diff: u128 = self.value - other.value;
            if diff <= u64::MAX as u128 {
                Some(diff as u64)
            } else {
                None
            }
        } else {
            None
        }
    }
}

/// Two keys at the same address are the same key.
pub proof fn lemma_key_injective(a: Key, b: Key)
    requires
        a.as_int() == b.as_int(),
    ensures
        a == b,
{
}

} // verus!
