use vstd::prelude::*;

verus! {

/// The number of distinct indices a stash can hand out: one for every
/// `u32`, so `2^32` in all.
pub const INDEX_SPACE: u64 = 0x1_0000_0000;

/// The raw-parts view of a stash is admissible.
///
/// `slots[i]` records whether index `i` is currently occupied; `free` is
/// the stack of vacant indices, most recently freed on top.  Admissibility
/// asks that the free stack hold each vacant index exactly once and
/// nothing else:
/// - no more than `2^32` indices exist;
/// - the free stack holds no duplicates;
/// - every stacked index lies below `slots.len()` and is vacant;
/// - every vacant index is somewhere on the stack.
pub open spec fn parts_ok(slots: Seq<bool>, free: Seq<u32>) -> bool {
    &&& slots.len() <= INDEX_SPACE
    &&& forall|a: int, b: int| 0 <= a < b < free.len() ==> free[a] != free[b]
    &&& forall|a: int| 0 <= a < free.len() ==> (#[trigger] free[a]) < slots.len()
    &&& forall|a: int| 0 <= a < free.len() ==> !slots[#[trigger] free[a] as int]
    &&& forall|j: int| 0 <= j < slots.len() && !(#[trigger] slots[j]) ==> free.contains(j as u32)
}

/// A recycling index assigner.
///
/// `put` hands out a fresh or previously freed index in constant time;
/// `take` frees an occupied index in constant time and reports whether it
/// was occupied at all.  Only occupancy is tracked: the value associated
/// with an index is a unit marker.  A freed index is reused before any new
/// index is minted, most recently freed first.
#[derive(Debug)]
pub struct Stash {
    /// `slots[i]` is true iff index `i` is currently occupied.
    slots: Vec<bool>,
    /// Stack of vacant indices below `slots.len()`; the last is reused first.
    free: Vec<u32>,
}

/// One successful `put` leads from `pre` to `post`: the next index (a
/// recycled one if any is free, the first unminted one otherwise) becomes
/// occupied and leaves the free stack.
pub open spec fn put_step(pre: Stash, post: Stash) -> bool {
    &&& pre.wf()
    &&& post.wf()
    &&& !pre.is_full()
    &&& if pre.free_view().len() > 0 {
        post.slots_view() == pre.slots_view().update(pre.next_index(), true)
            && post.free_view() == pre.free_view().drop_last()
    } else {
        post.slots_view() == pre.slots_view().push(true) && post.free_view()
            == pre.free_view()
    }
}

/// One successful `take` of index `i` leads from `pre` to `post`: the
/// occupied index `i` becomes vacant and goes on top of the free stack.
pub open spec fn take_step(pre: Stash, post: Stash, i: int) -> bool {
    &&& pre.wf()
    &&& post.wf()
    &&& pre.occupied(i)
    &&& post.slots_view() == pre.slots_view().update(i, false)
    &&& post.free_view() == pre.free_view().push(i as u32)
}

impl Stash {
    /// Occupancy by index, as specifications see it.
    pub closed spec fn slots_view(self) -> Seq<bool> {
        self.slots@
    }

    /// The stack of vacant indices, as specifications see it.
    pub closed spec fn free_view(self) -> Seq<u32> {
        self.free@
    }

    /// The stash's invariant: its two parts are admissible.
    pub open spec fn wf(self) -> bool {
        parts_ok(self.slots_view(), self.free_view())
    }

    /// Whether index `i` is currently occupied.
    pub open spec fn occupied(self, i: int) -> bool {
        0 <= i < self.slots_view().len() && self.slots_view()[i]
    }

    /// Whether every index of the space is occupied, so that no further
    /// `put` can succeed.
    pub open spec fn is_full(self) -> bool {
        self.free_view().len() == 0 && self.slots_view().len() == INDEX_SPACE
    }

    /// The index the next successful `put` returns: the top of the free
    /// stack if any index was freed, the first unminted index otherwise.
    pub open spec fn next_index(self) -> int {
        if self.free_view().len() > 0 {
            self.free_view().last() as int
        } else {
            self.slots_view().len() as int
        }
    }

    /// An empty stash: nothing occupied, nothing freed.
    pub fn new() -> (r: Stash)
        ensures
            r.wf(),
            r.slots_view() == Seq::<bool>::empty(),
            r.free_view() == Seq::<u32>::empty(),
    {
        Stash { slots: Vec::new(), free: Vec::new() }
    }

    /// Occupies and returns the next index, reusing the most recently
    /// freed one if any; fails only when all `2^32` indices are occupied.
    pub fn put(&mut self) -> (r: Option<u32>)
        requires
            old(self).wf(),
        ensures
            final(self).wf(),
            if old(self).is_full() {
                r == None::<u32> && *final(self) == *old(self)
            } else {
                r == Some(old(self).next_index() as u32) && put_step(*old(self), *final(self))
            },
    {
        if self.free.len() > 0 {
            let idx: u32 = self.free.pop().unwrap();
            let i: usize = idx as usize;
            self.slots[i] = true;
            proof {
                let pre_slots = old(self).slots@;
                let pre_free = old(self).free@;
                assert(self.free@ == pre_free.drop_last());
                assert forall|a: int|
                    0 <= a < self.free@.len() implies !self.slots@[(#[trigger] self.free@[a]) as int] by {
                    assert(self.free@[a] == pre_free[a]);
                    assert(pre_free[a] != idx);
                }
                assert forall|j: int|
                    0 <= j < self.slots@.len() && !(#[trigger] self.slots@[j]) implies self.free@
                    .contains(j as u32) by {
                    assert(!pre_slots[j]);
                    let k = choose|k: int| 0 <= k < pre_free.len() && pre_free[k] == j as u32;
                    assert(k < pre_free.len() - 1);
                    assert(self.free@[k] == j as u32);
                }
            }
            Some(idx)
        } else if (self.slots.len() as u64) < INDEX_SPACE {
            let i: usize = self.slots.len();
            self.slots.push(true);
            proof {
                assert forall|j: int|
                    0 <= j < self.slots@.len() && !(#[trigger] self.slots@[j]) implies self.free@
                    .contains(j as u32) by {
                    if j < self.slots@.len() - 1 {
                        assert(!old(self).slots@[j]);
                        assert(old(self).free@.contains(j as u32));
                    }
                }
            }
            Some(i as u32)
        } else {
            None
        }
    }

    /// Frees index `index` and reports whether it was occupied; an
    /// unoccupied index leaves the stash unchanged.
    pub fn take(&mut self, index: u32) -> (r: bool)
        requires
            old(self).wf(),
        ensures
            final(self).wf(),
            r == old(self).occupied(index as int),
            if old(self).occupied(index as int) {
                take_step(*old(self), *final(self), index as int)
            } else {
                *final(self) == *old(self)
            },
    {
        let i: usize = index as usize;
        if i < self.slots.len() && self.slots[i] {
            self.slots[i] = false;
            self.free.push(index);
            proof {
                let pre_slots = old(self).slots@;
                let pre_free = old(self).free@;
                assert forall|a: int, b: int|
                    0 <= a < b < self.free@.len() implies self.free@[a] != self.free@[b] by {
                    if b == self.free@.len() - 1 {
                        assert(self.free@[a] == pre_free[a]);
                        assert(!pre_slots[pre_free[a] as int]);
                        assert(pre_slots[index as int]);
                    }
                }
                assert forall|a: int|
                    0 <= a < self.free@.len() implies !self.slots@[(#[trigger] self.free@[a]) as int] by {
                    if a < self.free@.len() - 1 {
                        assert(self.free@[a] == pre_free[a]);
                        assert(!pre_slots[pre_free[a] as int]);
                        assert(pre_free[a] != index);
                    }
                }
                assert forall|j: int|
                    0 <= j < self.slots@.len() && !(#[trigger] self.slots@[j]) implies self.free@
                    .contains(j as u32) by {
                    if j == index as int {
                        assert(self.free@[self.free@.len() - 1] == index);
                    } else {
                        assert(!pre_slots[j]);
                        let k = choose|k: int| 0 <= k < pre_free.len() && pre_free[k] == j as u32;
                        assert(self.free@[k] == j as u32);
                    }
                }
            }
            true
        } else {
            false
        }
    }

    /// A copy of the occupancy by index, for persistence.
    pub fn occupancy(&self) -> (r: Vec<bool>)
        ensures
            r@ == self.slots_view(),
    {
        let mut r: Vec<bool> = Vec::new();
        let mut i: usize = 0;
        while i < self.slots.len()
            invariant
                i <= self.slots@.len(),
                r@ == self.slots@.subrange(0, i as int),
            decreases self.slots@.len() - i,
        {
            r.push(self.slots[i]);
            proof {
                assert(r@ =~= self.slots@.subrange(0, i + 1));
            }
            i += 1;
        }
        proof {
            assert(r@ =~= self.slots@);
        }
        r
    }

    /// A copy of the stack of vacant indices, for persistence.
    pub fn free_stack(&self) -> (r: Vec<u32>)
        ensures
            r@ == self.free_view(),
    {
        let mut r: Vec<u32> = Vec::new();
        let mut i: usize = 0;
        while i < self.free.len()
            invariant
                i <= self.free@.len(),
                r@ == self.free@.subrange(0, i as int),
            decreases self.free@.len() - i,
        {
            r.push(self.free[i]);
            proof {
                assert(r@ =~= self.free@.subrange(0, i + 1));
            }
            i += 1;
        }
        proof {
            assert(r@ =~= self.free@);
        }
        r
    }

    /// Rebuilds a stash from a persisted occupancy vector and free stack,
    /// accepting exactly the admissible pairs.
    pub fn from_parts(slots: Vec<bool>, free: Vec<u32>) -> (r: Option<Stash>)
        ensures
            r is Some <==> parts_ok(slots@, free@),
            r matches Some(s) ==> s.slots_view() == slots@ && s.free_view() == free@,
    {
        if (slots.len() as u64) > INDEX_SPACE {
            return None;
        }
        let mut seen: Vec<bool> = Vec::new();
        let mut t: usize = 0;
        while t < slots.len()
            invariant
                t <= slots@.len(),
                seen@.len() == t,
                forall|x: int| 0 <= x < t ==> !(#[trigger] seen@[x]),
            decreases slots@.len() - t,
        {
            seen.push(false);
            t += 1;
        }
        let mut k: usize = 0;
        while k < free.len()
            invariant
                k <= free@.len(),
                slots@.len() <= INDEX_SPACE,
                seen@.len() == slots@.len(),
                forall|a: int, b: int| 0 <= a < b < k ==> free@[a] != free@[b],
                forall|a: int| 0 <= a < k ==> (#[trigger] free@[a]) < slots@.len(),
                forall|a: int| 0 <= a < k ==> !slots@[#[trigger] free@[a] as int],
                forall|j: int|
                    0 <= j < slots@.len() ==> ((#[trigger] seen@[j]) <==> exists|a: int|
                        0 <= a < k && free@[a] == j as u32),
            decreases free@.len() - k,
        {
            let f: u32 = free[k];
            let fi: usize = f as usize;
            if fi >= slots.len() {
                proof {
                    assert(!(free@[k as int] < slots@.len()));
                }
                return None;
            }
            if slots[fi] {
                proof {
                    assert(slots@[free@[k as int] as int]);
                }
                return None;
            }
            if seen[fi] {
                proof {
                    let a = choose|a: int| 0 <= a < k && free@[a] == fi as u32;
                    assert(free@[a] == free@[k as int]);
                }
                return None;
            }
            let ghost seen0 = seen@;
            seen[fi] = true;
            proof {
                assert forall|j: int|
                    0 <= j < slots@.len() implies ((#[trigger] seen@[j]) <==> exists|a: int|
                        0 <= a < k + 1 && free@[a] == j as u32) by {
                    if j == fi as int {
                        assert(free@[k as int] == j as u32);
                        assert(seen@[j]);
                    } else {
                        assert(seen@[j] == seen0[j]);
                        if seen0[j] {
                            let a = choose|a: int| 0 <= a < k && free@[a] == j as u32;
                            assert(0 <= a < k + 1 && free@[a] == j as u32);
                        }
                        if exists|a: int| 0 <= a < k + 1 && free@[a] == j as u32 {
                            let a = choose|a: int| 0 <= a < k + 1 && free@[a] == j as u32;
                            if a == k as int {
                                assert(free@[a] == f);
                                assert(j as u32 == fi as u32);
                                assert(j == fi as int);
                            } else {
                                assert(seen0[j]);
                            }
                        }
                    }
                }
            }
            k += 1;
        }
        let mut j: usize = 0;
        while j < slots.len()
            invariant
                j <= slots@.len(),
                slots@.len() <= INDEX_SPACE,
                seen@.len() == slots@.len(),
                forall|a: int, b: int| 0 <= a < b < free@.len() ==> free@[a] != free@[b],
                forall|a: int| 0 <= a < free@.len() ==> (#[trigger] free@[a]) < slots@.len(),
                forall|a: int| 0 <= a < free@.len() ==> !slots@[#[trigger] free@[a] as int],
                forall|x: int|
                    0 <= x < slots@.len() ==> ((#[trigger] seen@[x]) <==> exists|a: int|
                        0 <= a < free@.len() && free@[a] == x as u32),
                forall|x: int|
                    0 <= x < j && !(#[trigger] slots@[x]) ==> free@.contains(x as u32),
            decreases slots@.len() - j,
        {
            if !slots[j] && !seen[j] {
                proof {
                    assert(!free@.contains(j as u32));
                }
                return None;
            }
            j += 1;
        }
        Some(Stash { slots, free })
    }
}

/// What a successful `put` does to occupancy: the handed-out index was
/// vacant, is occupied afterwards, and no other index changes; the index
/// lies in the `u32` range.
pub proof fn lemma_put_step_occupancy(pre: Stash, post: Stash)
    requires
        put_step(pre, post),
    ensures
        !pre.occupied(pre.next_index()),
        post.occupied(pre.next_index()),
        forall|j: int| #[trigger] post.occupied(j) <==> (pre.occupied(j) || j == pre.next_index()),
        0 <= pre.next_index() < INDEX_SPACE,
{
    if pre.free_view().len() > 0 {
        assert(pre.free_view()[pre.free_view().len() - 1] == pre.free_view().last());
        assert(!pre.slots_view()[pre.next_index()]);
    }
}

/// What a successful `take` does to occupancy: index `i` was occupied, is
/// vacant afterwards, no other index changes, and `i` is the next index a
/// `put` will reuse.
pub proof fn lemma_take_step_occupancy(pre: Stash, post: Stash, i: int)
    requires
        take_step(pre, post, i),
    ensures
        pre.occupied(i),
        !post.occupied(i),
        forall|j: int| #[trigger] post.occupied(j) <==> (pre.occupied(j) && j != i),
        post.next_index() == i,
        !post.is_full(),
{
    assert(post.free_view().last() == i as u32);
}

} // verus!
