use vstd::prelude::*;

use crate::allocator::alloc_cell_step;
use crate::allocator::alloc_chunk_step;
use crate::allocator::alloc_step;
use crate::allocator::dealloc_step;
use crate::allocator::CellChunkAlloc;
use crate::error::AllocError;
use crate::key::lemma_key_injective;
use crate::key::Key;
use crate::stash::lemma_put_step_occupancy;
use crate::stash::lemma_take_step_occupancy;

verus! {

/// A successful allocation of either tier that led from `pre` to `post`
/// and returned the key `k`.
pub open spec fn alloc_returns(pre: CellChunkAlloc, post: CellChunkAlloc, k: Key) -> bool {
    ||| alloc_cell_step(pre, post, Ok(k))
    ||| alloc_chunk_step(pre, post, Ok(k))
}

/// An allocation hands out an address that was not live before the call,
/// makes exactly it live, and keeps every already live address live.
pub proof fn lemma_alloc_fresh(pre: CellChunkAlloc, post: CellChunkAlloc, k: Key)
    requires
        alloc_returns(pre, post, k),
    ensures
        !pre.key_live(k.as_int()),
        post.key_live(k.as_int()),
        forall|addr: int| pre.key_live(addr) ==> post.key_live(addr),
{
    if alloc_cell_step(pre, post, Ok(k)) {
        let n = pre.cells_stash().next_index();
        lemma_put_step_occupancy(pre.cells_stash(), post.cells_stash());
        assert forall|i: int| #[trigger] pre.cells_stash().occupied(i) implies k.as_int()
            != pre.spec_cell_key(i) by {
            if k.as_int() == pre.spec_cell_key(i) {
                assert(i == n);
            }
        }
        assert forall|j: int| #[trigger] pre.chunks_stash().occupied(j) implies k.as_int()
            != pre.spec_chunk_key(j) by {
            assert(j * 0x1_0000_0000 >= 0);
            assert(k.as_int() < pre.chunks_offset().as_int());
        }
        assert(post.cells_stash().occupied(n) && k.as_int() == post.spec_cell_key(n));
        assert(post.cell_key_live(k.as_int()));
    } else {
        let n = pre.chunks_stash().next_index();
        lemma_put_step_occupancy(pre.chunks_stash(), post.chunks_stash());
        assert forall|j: int| #[trigger] pre.chunks_stash().occupied(j) implies k.as_int()
            != pre.spec_chunk_key(j) by {
            if k.as_int() == pre.spec_chunk_key(j) {
                assert(j * 0x1_0000_0000 == n * 0x1_0000_0000);
                assert(j == n);
            }
        }
        assert forall|i: int| #[trigger] pre.cells_stash().occupied(i) implies k.as_int()
            != pre.spec_cell_key(i) by {
            assert(i < 0x1_0000_0000);
            assert(n * 0x1_0000_0000 >= 0);
            assert(pre.spec_cell_key(i) < pre.chunks_offset().as_int());
        }
        assert(post.chunks_stash().occupied(n) && k.as_int() == post.spec_chunk_key(n));
        assert(post.chunk_key_live(k.as_int()));
    }
    assert forall|addr: int| pre.key_live(addr) implies post.key_live(addr) by {
        if pre.cell_key_live(addr) {
            let i = choose|i: int|
                #[trigger] pre.cells_stash().occupied(i) && addr == pre.spec_cell_key(i);
            assert(post.cells_stash().occupied(i) && addr == post.spec_cell_key(i));
        } else {
            let j = choose|j: int|
                #[trigger] pre.chunks_stash().occupied(j) && addr == pre.spec_chunk_key(j);
            assert(post.chunks_stash().occupied(j) && addr == post.spec_chunk_key(j));
        }
    }
}

/// Uniqueness, pairwise: two back-to-back allocations return distinct
/// keys.
pub proof fn lemma_alloc_distinct_pair(
    s0: CellChunkAlloc,
    s1: CellChunkAlloc,
    s2: CellChunkAlloc,
    k1: Key,
    k2: Key,
)
    requires
        alloc_returns(s0, s1, k1),
        alloc_returns(s1, s2, k2),
    ensures
        k1 != k2,
{
    lemma_alloc_fresh(s0, s1, k1);
    lemma_alloc_fresh(s1, s2, k2);
}

/// A key handed out by the `i`-th allocation of a run is still live when
/// the `m`-th state of the run is reached.
proof fn lemma_live_after(states: Seq<CellChunkAlloc>, keys: Seq<Key>, i: int, m: int)
    requires
        states.len() == keys.len() + 1,
        forall|t: int|
            0 <= t < keys.len() ==> alloc_returns(states[t], states[t + 1], #[trigger] keys[t]),
        0 <= i < m <= keys.len(),
    ensures
        states[m].key_live(keys[i].as_int()),
    decreases m - i,
{
    if m == i + 1 {
        lemma_alloc_fresh(states[i], states[i + 1], keys[i]);
    } else {
        lemma_live_after(states, keys, i, m - 1);
        lemma_alloc_fresh(states[m - 1], states[m], keys[m - 1]);
    }
}

/// Uniqueness: every run of allocations without an intervening
/// deallocation returns pairwise distinct keys.  The run is given as its
/// chain of states, `keys[t]` being returned by the step from `states[t]`
/// to `states[t + 1]`.
pub proof fn lemma_alloc_run_distinct(states: Seq<CellChunkAlloc>, keys: Seq<Key>)
    requires
        states.len() == keys.len() + 1,
        forall|t: int|
            0 <= t < keys.len() ==> alloc_returns(states[t], states[t + 1], #[trigger] keys[t]),
    ensures
        forall|i: int, j: int| 0 <= i < j < keys.len() ==> keys[i] != keys[j],
{
    assert forall|i: int, j: int| 0 <= i < j < keys.len() implies keys[i] != keys[j] by {
        lemma_live_after(states, keys, i, j);
        lemma_alloc_fresh(states[j], states[j + 1], keys[j]);
    }
}

/// Recycling: allocate a cell and receive the key `k`, deallocate `k`,
/// allocate a cell again — the second allocation returns `k` itself,
/// because the freed index is reused before any new index is minted.
pub proof fn lemma_cell_recycling(
    s0: CellChunkAlloc,
    s1: CellChunkAlloc,
    s2: CellChunkAlloc,
    s3: CellChunkAlloc,
    k: Key,
    r2: Result<Key, AllocError>,
)
    requires
        alloc_step(s0, s1, 1, Ok(k)),
        dealloc_step(s1, s2, k, Ok(())),
        alloc_step(s2, s3, 1, r2),
    ensures
        r2 == Ok::<Key, AllocError>(k),
{
    let n = s0.cells_stash().next_index();
    lemma_put_step_occupancy(s0.cells_stash(), s1.cells_stash());
    assert(k.as_int() == s1.spec_cell_key(n));
    assert(s1.spec_key_to_cell_index(k.as_int()) == Ok::<u32, AllocError>(n as u32));
    assert(s1.cells_stash().occupied(n));
    lemma_take_step_occupancy(s1.cells_stash(), s2.cells_stash(), n);
    assert(s2.cells_stash().next_index() == n);
    let k2 = r2->Ok_0;
    assert(k2.as_int() == s2.spec_cell_key(n));
    lemma_key_injective(k2, k);
}

/// Round-trip, cells: converting any cell index to its key and back
/// recovers the index — in particular every occupied cell index does.
pub proof fn lemma_cell_round_trip(a: CellChunkAlloc, i: u32)
    requires
        a.wf(),
    ensures
        a.spec_key_to_cell_index(a.spec_cell_key(i as int)) == Ok::<u32, AllocError>(i),
{
}

/// Round-trip, chunks: converting any chunk index to its key and back
/// recovers the index — in particular every occupied chunk index does.
/// Index recovery subtracts the chunk base address, the base the key was
/// produced from, which is what makes this round-trip exact.
pub proof fn lemma_chunk_round_trip(a: CellChunkAlloc, i: u32)
    requires
        a.wf(),
    ensures
        a.spec_key_to_chunk_index(a.spec_chunk_key(i as int)) == Ok::<u32, AllocError>(i),
{
    vstd::arithmetic::div_mod::lemma_div_by_multiple(i as int, 0x1_0000_0000);
    assert((i as int) * 0x1_0000_0000 / 0x1_0000_0000 == i as int);
}

} // verus!
