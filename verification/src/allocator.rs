use vstd::prelude::*;

use crate::error::AllocError;
use crate::key::Key;
use crate::stash::put_step;
use crate::stash::take_step;
use crate::stash::Stash;

verus! {

/// The number of storage slots a chunk spans: `2^32`, one per `u32`.
pub const CHUNK_SLOTS: u64 = 0x1_0000_0000;

/// The capability the rest of the storage system consumes: allocate a
/// region of a requested slot count and receive its base key, or give a
/// key back.  Each implementor fixes what the two operations do through
/// its own `inv`, `alloc_ens` and `dealloc_ens`.
pub trait Allocator: Sized {
    /// The implementor's invariant, preserved by both operations.
    spec fn inv(&self) -> bool;

    /// What one `alloc` call does: how `post` and the result relate to
    /// `pre` and the requested size.
    spec fn alloc_ens(pre: Self, post: Self, size: u32, r: Result<Key, AllocError>) -> bool;

    /// What one `dealloc` call does.
    spec fn dealloc_ens(pre: Self, post: Self, key: Key, r: Result<(), AllocError>) -> bool;

    /// Allocates a region of `size` slots and returns its base key.
    fn allocate(&mut self, size: u32) -> (r: Result<Key, AllocError>)
        requires
            old(self).inv(),
        ensures
            final(self).inv(),
            Self::alloc_ens(*old(self), *final(self), size, r),
    ;

    /// Releases the region whose base key is `key`.
    fn dealloc(&mut self, key: Key) -> (r: Result<(), AllocError>)
        requires
            old(self).inv(),
        ensures
            final(self).inv(),
            Self::dealloc_ens(*old(self), *final(self), key, r),
    ;
}

/// The two base addresses keep the cell and chunk ranges apart and inside
/// the address space: the `2^32` cell addresses end at or before the chunk
/// base, and the largest chunk base (`chunks_off + (2^32 - 1) * 2^32`)
/// still fits a key.
pub open spec fn offsets_ok(cells_off: int, chunks_off: int) -> bool {
    &&& cells_off + 0x1_0000_0000 <= chunks_off
    &&& chunks_off + 0xffff_ffff_0000_0000 <= u128::MAX
}

/// An allocator for contract storage, specialized to allocate and
/// deallocate cells and chunks in constant time.
///
/// Two kinds of region exist: a single cell, and a chunk of `2^32` cells.
/// Each kind draws its recyclable indices from its own [`Stash`] and maps
/// an index to an absolute key by arithmetic over its base address.
#[derive(Debug)]
pub struct CellChunkAlloc {
    /// Allocator stash for single cells.
    cells: Stash,
    /// Allocator stash for cell chunks.
    chunks: Stash,
    /// Cells key offset: the key of cell index 0.
    cells_off: Key,
    /// Chunks key offset: the key of chunk index 0.
    chunks_off: Key,
}

impl CellChunkAlloc {
    /// The stash tracking which cell indices are occupied.
    pub closed spec fn cells_stash(self) -> Stash {
        self.cells
    }

    /// The stash tracking which chunk indices are occupied.
    pub closed spec fn chunks_stash(self) -> Stash {
        self.chunks
    }

    /// The base address of the cell range.
    pub closed spec fn cells_offset(self) -> Key {
        self.cells_off
    }

    /// The base address of the chunk range.
    pub closed spec fn chunks_offset(self) -> Key {
        self.chunks_off
    }

    /// The allocator's invariant: both stashes are admissible and the two
    /// ranges are apart, so that every cell key is strictly below every
    /// chunk key and all arithmetic stays in bounds.
    pub open spec fn wf(self) -> bool {
        &&& self.cells_stash().wf()
        &&& self.chunks_stash().wf()
        &&& offsets_ok(self.cells_offset().as_int(), self.chunks_offset().as_int())
    }

    /// The address of the cell with the given index.
    pub open spec fn spec_cell_key(self, index: int) -> int {
        self.cells_offset().as_int() + index
    }

    /// The address of the chunk with the given index.
    pub open spec fn spec_chunk_key(self, index: int) -> int {
        self.chunks_offset().as_int() + index * 0x1_0000_0000
    }

    /// The cell index recovered from an address, or the exact error:
    /// below the cell base, or a difference too wide for a cell index.
    pub open spec fn spec_key_to_cell_index(self, key: int) -> Result<u32, AllocError> {
        let diff = key - self.cells_offset().as_int();
        if diff < 0 {
            Err(AllocError::KeyOutOfRange)
        } else if diff > u32::MAX {
            Err(AllocError::IndexOverflow)
        } else {
            Ok(diff as u32)
        }
    }

    /// The chunk index recovered from an address, or the exact error.
    ///
    /// The difference is taken from the chunk base address — the same base
    /// that produced the key — so recovering the index of a chunk key
    /// yields the index the chunk was allocated under.
    pub open spec fn spec_key_to_chunk_index(self, key: int) -> Result<u32, AllocError> {
        let diff = key - self.chunks_offset().as_int();
        if diff < 0 {
            Err(AllocError::KeyOutOfRange)
        } else if diff > u64::MAX {
            Err(AllocError::IndexOverflow)
        } else {
            Ok((diff / 0x1_0000_0000) as u32)
        }
    }

    /// Whether `addr` is the address of a currently occupied cell.
    pub open spec fn cell_key_live(self, addr: int) -> bool {
        exists|i: int| #[trigger] self.cells_stash().occupied(i) && addr == self.spec_cell_key(i)
    }

    /// Whether `addr` is the address of a currently occupied chunk.
    pub open spec fn chunk_key_live(self, addr: int) -> bool {
        exists|i: int| #[trigger] self.chunks_stash().occupied(i) && addr == self.spec_chunk_key(i)
    }

    /// Whether `addr` was handed out by this allocator and not yet
    /// deallocated.
    pub open spec fn key_live(self, addr: int) -> bool {
        self.cell_key_live(addr) || self.chunk_key_live(addr)
    }
}

/// One successful or failed `alloc_cell` call leads from `pre` to `post`
/// with result `r`: the next cell index becomes occupied and its key is
/// returned, unless the cell index space is exhausted; nothing else moves.
pub open spec fn alloc_cell_step(
    pre: CellChunkAlloc,
    post: CellChunkAlloc,
    r: Result<Key, AllocError>,
) -> bool {
    &&& pre.wf()
    &&& post.wf()
    &&& post.cells_offset() == pre.cells_offset()
    &&& post.chunks_offset() == pre.chunks_offset()
    &&& post.chunks_stash() == pre.chunks_stash()
    &&& if pre.cells_stash().is_full() {
        r == Err::<Key, AllocError>(AllocError::AddressSpaceExhausted) && post.cells_stash()
            == pre.cells_stash()
    } else {
        (r matches Ok(k) && k.as_int() == pre.spec_cell_key(pre.cells_stash().next_index())
            && put_step(pre.cells_stash(), post.cells_stash()))
    }
}

/// One `alloc_chunk` call, the chunk-tier mirror of [`alloc_cell_step`].
pub open spec fn alloc_chunk_step(
    pre: CellChunkAlloc,
    post: CellChunkAlloc,
    r: Result<Key, AllocError>,
) -> bool {
    &&& pre.wf()
    &&& post.wf()
    &&& post.cells_offset() == pre.cells_offset()
    &&& post.chunks_offset() == pre.chunks_offset()
    &&& post.cells_stash() == pre.cells_stash()
    &&& if pre.chunks_stash().is_full() {
        r == Err::<Key, AllocError>(AllocError::AddressSpaceExhausted) && post.chunks_stash()
            == pre.chunks_stash()
    } else {
        (r matches Ok(k) && k.as_int() == pre.spec_chunk_key(pre.chunks_stash().next_index())
            && put_step(pre.chunks_stash(), post.chunks_stash()))
    }
}

/// One `dealloc_cell` call: the cell index recovered from `key` is freed,
/// or the exact error is reported and nothing moves.
pub open spec fn dealloc_cell_step(
    pre: CellChunkAlloc,
    post: CellChunkAlloc,
    key: Key,
    r: Result<(), AllocError>,
) -> bool {
    &&& pre.wf()
    &&& post.wf()
    &&& post.cells_offset() == pre.cells_offset()
    &&& post.chunks_offset() == pre.chunks_offset()
    &&& post.chunks_stash() == pre.chunks_stash()
    &&& match pre.spec_key_to_cell_index(key.as_int()) {
        Err(e) => r == Err::<(), AllocError>(e) && post.cells_stash() == pre.cells_stash(),
        Ok(i) => if pre.cells_stash().occupied(i as int) {
            r == Ok::<(), AllocError>(()) && take_step(
                pre.cells_stash(),
                post.cells_stash(),
                i as int,
            )
        } else {
            r == Err::<(), AllocError>(AllocError::DoubleFreeOrUnknownKey) && post.cells_stash()
                == pre.cells_stash()
        },
    }
}

/// One `dealloc_chunk` call, the chunk-tier mirror of
/// [`dealloc_cell_step`].
pub open spec fn dealloc_chunk_step(
    pre: CellChunkAlloc,
    post: CellChunkAlloc,
    key: Key,
    r: Result<(), AllocError>,
) -> bool {
    &&& pre.wf()
    &&& post.wf()
    &&& post.cells_offset() == pre.cells_offset()
    &&& post.chunks_offset() == pre.chunks_offset()
    &&& post.cells_stash() == pre.cells_stash()
    &&& match pre.spec_key_to_chunk_index(key.as_int()) {
        Err(e) => r == Err::<(), AllocError>(e) && post.chunks_stash() == pre.chunks_stash(),
        Ok(i) => if pre.chunks_stash().occupied(i as int) {
            r == Ok::<(), AllocError>(()) && take_step(
                pre.chunks_stash(),
                post.chunks_stash(),
                i as int,
            )
        } else {
            r == Err::<(), AllocError>(AllocError::DoubleFreeOrUnknownKey) && post.chunks_stash()
                == pre.chunks_stash()
        },
    }
}

/// One `alloc` call: a zero-size request is refused outright, a request
/// for at most one slot goes to the cell tier, anything larger to the
/// chunk tier.
pub open spec fn alloc_step(
    pre: CellChunkAlloc,
    post: CellChunkAlloc,
    size: u32,
    r: Result<Key, AllocError>,
) -> bool {
    if size == 0 {
        pre.wf() && post == pre && r == Err::<Key, AllocError>(AllocError::ZeroSizeRequest)
    } else if size <= 1 {
        alloc_cell_step(pre, post, r)
    } else {
        alloc_chunk_step(pre, post, r)
    }
}

/// One `dealloc` call: a key below the cell base cannot have originated
/// here; one below the chunk base is treated as a cell key, any other as
/// a chunk key.
pub open spec fn dealloc_step(
    pre: CellChunkAlloc,
    post: CellChunkAlloc,
    key: Key,
    r: Result<(), AllocError>,
) -> bool {
    if key.as_int() < pre.cells_offset().as_int() {
        pre.wf() && post == pre && r == Err::<(), AllocError>(AllocError::KeyOutOfRange)
    } else if key.as_int() < pre.chunks_offset().as_int() {
        dealloc_cell_step(pre, post, key, r)
    } else {
        dealloc_chunk_step(pre, post, key, r)
    }
}

impl CellChunkAlloc {
    /// An allocator over the two given base addresses, with nothing
    /// allocated yet.  Accepts exactly the offset pairs that keep the two
    /// ranges apart and inside the address space; any other pair is
    /// refused loudly rather than left as a latent misclassification.
    pub fn new(cells_off: Key, chunks_off: Key) -> (r: Result<CellChunkAlloc, AllocError>)
        ensures
            r is Ok <==> offsets_ok(cells_off.as_int(), chunks_off.as_int()),
            r matches Ok(a) ==> {
                &&& a.wf()
                &&& a.cells_offset() == cells_off
                &&& a.chunks_offset() == chunks_off
                &&& a.cells_stash().slots_view() == Seq::<bool>::empty()
                &&& a.cells_stash().free_view() == Seq::<u32>::empty()
                &&& a.chunks_stash().slots_view() == Seq::<bool>::empty()
                &&& a.chunks_stash().free_view() == Seq::<u32>::empty()
            },
            r matches Err(e) ==> e == AllocError::KeyOutOfRange,
    {
        let c: u128 = cells_off.value();
        let h: u128 = chunks_off.value();
        if c <= u128::MAX - 0x1_0000_0000u128 && c + 0x1_0000_0000u128 <= h && h <= u128::MAX
            - 0xffff_ffff_0000_0000u128 {
            Ok(
                CellChunkAlloc {
                    cells: Stash::new(),
                    chunks: Stash::new(),
                    cells_off,
                    chunks_off,
                },
            )
        } else {
            Err(AllocError::KeyOutOfRange)
        }
    }

    /// Creates a cell & chunk allocator, reserving its base addresses from
    /// the given bootstrap allocator.
    ///
    /// The cell range spans `2^32` slots, one more than a single request
    /// can name in 32 bits, so it is reserved in two steps before the
    /// chunk base is drawn.  The chunk range itself is far larger than any
    /// one request: the bootstrap allocator must not be used for anything
    /// conflicting afterwards, so this allocator is constructed last.  The
    /// offsets that come back are checked as in [`CellChunkAlloc::new`]:
    /// a bootstrap allocator that hands them out too close fails the
    /// construction rather than corrupting later classification.
    ///
    /// On success the two base addresses are exactly the keys the first
    /// and third bootstrap reservations returned, in order; on failure,
    /// either a bootstrap reservation failed and its error is passed
    /// through, or all three succeeded and the returned pair violates
    /// [`offsets_ok`].
    pub fn new_using_alloc<A: Allocator>(boot: &mut A) -> (r: Result<CellChunkAlloc, AllocError>)
        requires
            old(boot).inv(),
        ensures
            final(boot).inv(),
            r matches Ok(a) ==> {
                &&& a.wf()
                &&& a.cells_stash().slots_view() == Seq::<bool>::empty()
                &&& a.cells_stash().free_view() == Seq::<u32>::empty()
                &&& a.chunks_stash().slots_view() == Seq::<bool>::empty()
                &&& a.chunks_stash().free_view() == Seq::<u32>::empty()
                &&& exists|mid: A, rest: A, kmid: Key|
                    A::alloc_ens(
                        *old(boot),
                        mid,
                        u32::MAX,
                        Ok::<Key, AllocError>(a.cells_offset()),
                    ) && A::alloc_ens(mid, rest, 1u32, Ok::<Key, AllocError>(kmid))
                        && A::alloc_ens(
                        rest,
                        *final(boot),
                        u32::MAX,
                        Ok::<Key, AllocError>(a.chunks_offset()),
                    )
            },
            r matches Err(e) ==> {
                ||| A::alloc_ens(*old(boot), *final(boot), u32::MAX, Err::<Key, AllocError>(e))
                ||| exists|mid: A, k1: Key|
                    A::alloc_ens(*old(boot), mid, u32::MAX, Ok::<Key, AllocError>(k1))
                        && A::alloc_ens(mid, *final(boot), 1u32, Err::<Key, AllocError>(e))
                ||| exists|mid: A, rest: A, k1: Key, kmid: Key|
                    A::alloc_ens(*old(boot), mid, u32::MAX, Ok::<Key, AllocError>(k1))
                        && A::alloc_ens(mid, rest, 1u32, Ok::<Key, AllocError>(kmid))
                        && A::alloc_ens(rest, *final(boot), u32::MAX, Err::<Key, AllocError>(e))
                ||| exists|mid: A, rest: A, k1: Key, kmid: Key, k2: Key|
                    A::alloc_ens(*old(boot), mid, u32::MAX, Ok::<Key, AllocError>(k1))
                        && A::alloc_ens(mid, rest, 1u32, Ok::<Key, AllocError>(kmid))
                        && A::alloc_ens(rest, *final(boot), u32::MAX, Ok::<Key, AllocError>(k2))
                        && !offsets_ok(k1.as_int(), k2.as_int())
                        && e == AllocError::KeyOutOfRange
            },
    {
        let cells_off: Key = match boot.allocate(u32::MAX) {
            Ok(k) => k,
            Err(e) => {
                return Err(e);
            },
        };
        let ghost mid: A = *boot;
        let _gap: Key = match boot.allocate(1) {
            Ok(k) => k,
            Err(e) => {
                proof {
                    assert(A::alloc_ens(
                        *old(boot),
                        mid,
                        u32::MAX,
                        Ok::<Key, AllocError>(cells_off),
                    ));
                }
                return Err(e);
            },
        };
        let ghost rest: A = *boot;
        let chunks_off: Key = match boot.allocate(u32::MAX) {
            Ok(k) => k,
            Err(e) => {
                proof {
                    assert(A::alloc_ens(
                        *old(boot),
                        mid,
                        u32::MAX,
                        Ok::<Key, AllocError>(cells_off),
                    ));
                    assert(A::alloc_ens(mid, rest, 1u32, Ok::<Key, AllocError>(_gap)));
                }
                return Err(e);
            },
        };
        let r = CellChunkAlloc::new(cells_off, chunks_off);
        proof {
            assert(A::alloc_ens(*old(boot), mid, u32::MAX, Ok::<Key, AllocError>(cells_off)));
            assert(A::alloc_ens(mid, rest, 1u32, Ok::<Key, AllocError>(_gap)));
            assert(A::alloc_ens(rest, *boot, u32::MAX, Ok::<Key, AllocError>(chunks_off)));
        }
        r
    }

    /// Rebuilds an allocator from its persisted parts, accepting exactly
    /// the admissible states: two admissible stashes and base addresses
    /// that keep the two ranges apart.
    pub fn from_parts(
        cells_slots: Vec<bool>,
        cells_free: Vec<u32>,
        chunks_slots: Vec<bool>,
        chunks_free: Vec<u32>,
        cells_off: Key,
        chunks_off: Key,
    ) -> (r: Option<CellChunkAlloc>)
        ensures
            r is Some <==> (crate::stash::parts_ok(cells_slots@, cells_free@)
                && crate::stash::parts_ok(chunks_slots@, chunks_free@) && offsets_ok(
                cells_off.as_int(),
                chunks_off.as_int(),
            )),
            r matches Some(a) ==> {
                &&& a.wf()
                &&& a.cells_stash().slots_view() == cells_slots@
                &&& a.cells_stash().free_view() == cells_free@
                &&& a.chunks_stash().slots_view() == chunks_slots@
                &&& a.chunks_stash().free_view() == chunks_free@
                &&& a.cells_offset() == cells_off
                &&& a.chunks_offset() == chunks_off
            },
    {
        let cells: Stash = match Stash::from_parts(cells_slots, cells_free) {
            Some(s) => s,
            None => {
                return None;
            },
        };
        let chunks: Stash = match Stash::from_parts(chunks_slots, chunks_free) {
            Some(s) => s,
            None => {
                return None;
            },
        };
        let c: u128 = cells_off.value();
        let h: u128 = chunks_off.value();
        if c <= u128::MAX - 0x1_0000_0000u128 && c + 0x1_0000_0000u128 <= h && h <= u128::MAX
            - 0xffff_ffff_0000_0000u128 {
            Some(CellChunkAlloc { cells, chunks, cells_off, chunks_off })
        } else {
            None
        }
    }

    /// The stash of cell indices, for persistence and inspection.
    pub fn cells(&self) -> (r: &Stash)
        ensures
            *r == self.cells_stash(),
    {
        &self.cells
    }

    /// The stash of chunk indices, for persistence and inspection.
    pub fn chunks(&self) -> (r: &Stash)
        ensures
            *r == self.chunks_stash(),
    {
        &self.chunks
    }

    /// Returns the key of the first cell allocation; every other cell key
    /// is determined from it by the allocation index.
    pub fn cells_offset_key(&self) -> (r: Key)
        ensures
            r == self.cells_offset(),
    {
        self.cells_off
    }

    /// Returns the key of the first chunk allocation; every other chunk
    /// key is determined from it by the allocation index.
    pub fn chunks_offset_key(&self) -> (r: Key)
        ensures
            r == self.chunks_offset(),
    {
        self.chunks_off
    }

    /// Converts cell indices to keys.  The reverse of
    /// [`CellChunkAlloc::key_to_cell_index`].
    pub fn cell_index_to_key(&self, index: u32) -> (r: Key)
        requires
            self.wf(),
        ensures
            r.as_int() == self.spec_cell_key(index as int),
    {
        self.cells_off.offset_u32(index)
    }

    /// Converts keys to cell indices.  The reverse of
    /// [`CellChunkAlloc::cell_index_to_key`].
    pub fn key_to_cell_index(&self, key: Key) -> (r: Result<u32, AllocError>)
        ensures
            r == self.spec_key_to_cell_index(key.as_int()),
    {
        if key.lt(self.cells_off) {
            Err(AllocError::KeyOutOfRange)
        } else {
            match key.diff_u32(self.cells_off) {
                Some(index) => Ok(index),
                None => Err(AllocError::IndexOverflow),
            }
        }
    }

    /// Converts chunk indices to keys.  The reverse of
    /// [`CellChunkAlloc::key_to_chunk_index`].
    pub fn chunk_index_to_key(&self, index: u32) -> (r: Key)
        requires
            self.wf(),
        ensures
            r.as_int() == self.spec_chunk_key(index as int),
    {
        let chunk_offset: u64 = CHUNK_SLOTS * (index as u64);
        self.chunks_off.offset_u64(chunk_offset)
    }

    /// Converts keys to chunk indices.  The reverse of
    /// [`CellChunkAlloc::chunk_index_to_key`]: the difference is taken
    /// from the chunk base address, so a fresh chunk key maps back to the
    /// index it was produced from.
    pub fn key_to_chunk_index(&self, key: Key) -> (r: Result<u32, AllocError>)
        ensures
            r == self.spec_key_to_chunk_index(key.as_int()),
    {
        if key.lt(self.chunks_off) {
            Err(AllocError::KeyOutOfRange)
        } else {
            match key.diff_u64(self.chunks_off) {
                Some(diff) => {
                    proof {
                        assert(diff >> 32u64 == diff / 0x1_0000_0000u64) by (bit_vector);
                        assert(diff >> 32u64 < 0x1_0000_0000u64) by (bit_vector);
                    }
                    Ok((diff >> 32u64) as u32)
                },
                None => Err(AllocError::IndexOverflow),
            }
        }
    }

    /// Allocates a new storage region that fits a single cell.
    pub fn alloc_cell(&mut self) -> (r: Result<Key, AllocError>)
        requires
            old(self).wf(),
        ensures
            alloc_cell_step(*old(self), *final(self), r),
    {
        match self.cells.put() {
            Some(index) => {
                proof {
                    crate::stash::lemma_put_step_occupancy(
                        old(self).cells_stash(),
                        self.cells_stash(),
                    );
                }
                Ok(self.cell_index_to_key(index))
            },
            None => Err(AllocError::AddressSpaceExhausted),
        }
    }

    /// Allocates a new storage region that fits a whole chunk.
    pub fn alloc_chunk(&mut self) -> (r: Result<Key, AllocError>)
        requires
            old(self).wf(),
        ensures
            alloc_chunk_step(*old(self), *final(self), r),
    {
        match self.chunks.put() {
            Some(index) => {
                proof {
                    crate::stash::lemma_put_step_occupancy(
                        old(self).chunks_stash(),
                        self.chunks_stash(),
                    );
                }
                Ok(self.chunk_index_to_key(index))
            },
            None => Err(AllocError::AddressSpaceExhausted),
        }
    }

    /// Deallocates a storage region fit for a single cell.
    pub fn dealloc_cell(&mut self, key: Key) -> (r: Result<(), AllocError>)
        requires
            old(self).wf(),
        ensures
            dealloc_cell_step(*old(self), *final(self), key, r),
    {
        match self.key_to_cell_index(key) {
            Ok(index) => {
                if self.cells.take(index) {
                    Ok(())
                } else {
                    Err(AllocError::DoubleFreeOrUnknownKey)
                }
            },
            Err(e) => Err(e),
        }
    }

    /// Deallocates a storage region fit for a whole chunk.
    pub fn dealloc_chunk(&mut self, key: Key) -> (r: Result<(), AllocError>)
        requires
            old(self).wf(),
        ensures
            dealloc_chunk_step(*old(self), *final(self), key, r),
    {
        match self.key_to_chunk_index(key) {
            Ok(index) => {
                if self.chunks.take(index) {
                    Ok(())
                } else {
                    Err(AllocError::DoubleFreeOrUnknownKey)
                }
            },
            Err(e) => Err(e),
        }
    }
}

impl Allocator for CellChunkAlloc {
    /// The allocator's invariant, [`CellChunkAlloc::wf`].
    open spec fn inv(&self) -> bool {
        self.wf()
    }

    open spec fn alloc_ens(
        pre: CellChunkAlloc,
        post: CellChunkAlloc,
        size: u32,
        r: Result<Key, AllocError>,
    ) -> bool {
        alloc_step(pre, post, size, r)
    }

    open spec fn dealloc_ens(
        pre: CellChunkAlloc,
        post: CellChunkAlloc,
        key: Key,
        r: Result<(), AllocError>,
    ) -> bool {
        dealloc_step(pre, post, key, r)
    }

    /// Classifies the request by size alone: zero slots is a caller
    /// defect, a single slot goes to the cell tier, anything larger to
    /// the chunk tier — a chunk always spans `2^32` slots, whatever was
    /// asked beyond one.
    fn allocate(&mut self, size: u32) -> (r: Result<Key, AllocError>) {
        if size == 0 {
            Err(AllocError::ZeroSizeRequest)
        } else if size <= 1 {
            self.alloc_cell()
        } else {
            self.alloc_chunk()
        }
    }

    /// Classifies the key against the chunk base address: keys below the
    /// cell base cannot have originated here, keys below the chunk base
    /// are cell keys, all others chunk keys.  The classification is
    /// sound because `wf` keeps the two ranges apart.
    fn dealloc(&mut self, key: Key) -> (r: Result<(), AllocError>) {
        if key.lt(self.cells_offset_key()) {
            Err(AllocError::KeyOutOfRange)
        } else if key.lt(self.chunks_offset_key()) {
            self.dealloc_cell(key)
        } else {
            self.dealloc_chunk(key)
        }
    }
}

} // verus!
