use vstd::prelude::*;

verus! {

/// Why an allocator operation failed.
///
/// Every variant signals a caller defect or a misconfigured allocator,
/// never a transient condition.  The allocator itself stays unchanged
/// whenever one of these is returned, so the caller may decide between
/// aborting the surrounding invocation and reporting the failure.
#[derive(Clone, Copy, Debug, PartialEq, Eq, Structural)]
pub enum AllocError {
    /// An allocation of zero slots was requested.
    ZeroSizeRequest,
    /// A deallocation was requested for a key that lies below the base
    /// address of the allocator, so the key cannot have originated from it.
    KeyOutOfRange,
    /// The difference between a key and the relevant base address does not
    /// fit the integer width an allocation index must have: the key was not
    /// produced by this allocator, or its offsets are misconfigured.
    IndexOverflow,
    /// The index recovered from a key is not currently occupied: the key
    /// was already deallocated, or never allocated at all.
    DoubleFreeOrUnknownKey,
    /// The index space of `2^32` concurrently live allocations is used up,
    /// or a bootstrap allocator ran past the end of the address space.
    AddressSpaceExhausted,
}

} // verus!
