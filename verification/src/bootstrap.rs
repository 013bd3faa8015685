use vstd::prelude::*;

use crate::allocator::Allocator;
use crate::error::AllocError;
use crate::key::Key;

verus! {

/// A forward (bump) allocator: hands out consecutive spans of the address
/// space and never reclaims anything.
///
/// It is meant for one-shot, construction-time reservations — such as the
/// base addresses of a [`crate::allocator::CellChunkAlloc`] — and is not
/// itself stored anywhere.
pub struct ForwardAlloc {
    /// The first address not handed out yet.
    next: Key,
}

impl ForwardAlloc {
    /// The first address the next allocation will receive.
    pub closed spec fn next_key(self) -> Key {
        self.next
    }

    /// A forward allocator that starts handing out addresses at `start`.
    pub fn new(start: Key) -> (r: ForwardAlloc)
        ensures
            r.next_key() == start,
    {
        ForwardAlloc { next: start }
    }
}

impl Allocator for ForwardAlloc {
    /// A forward allocator is a bare cursor; any position is valid.
    open spec fn inv(&self) -> bool {
        true
    }

    /// A bump step: the span `[pre.next, pre.next + size)` is handed out
    /// and the cursor moves past it, unless it would run off the end of
    /// the address space.
    open spec fn alloc_ens(
        pre: ForwardAlloc,
        post: ForwardAlloc,
        size: u32,
        r: Result<Key, AllocError>,
    ) -> bool {
        if pre.next_key().as_int() + size <= u128::MAX {
            r == Ok::<Key, AllocError>(pre.next_key()) && post.next_key().as_int()
                == pre.next_key().as_int() + size
        } else {
            r == Err::<Key, AllocError>(AllocError::AddressSpaceExhausted) && post == pre
        }
    }

    /// A forward allocator reclaims nothing: every deallocation fails.
    open spec fn dealloc_ens(
        pre: ForwardAlloc,
        post: ForwardAlloc,
        key: Key,
        r: Result<(), AllocError>,
    ) -> bool {
        post == pre && r == Err::<(), AllocError>(AllocError::DoubleFreeOrUnknownKey)
    }

    fn allocate(&mut self, size: u32) -> (r: Result<Key, AllocError>) {
        let v: u128 = self.next.value();
        if v <= u128::MAX - (size as u128) {
            let key: Key = self.next;
            self.next = self.next.offset_u32(size);
            Ok(key)
        } else {
            Err(AllocError::AddressSpaceExhausted)
        }
    }

    fn dealloc(&mut self, _key: Key) -> (r: Result<(), AllocError>) {
        Err(AllocError::DoubleFreeOrUnknownKey)
    }
}

} // verus!
