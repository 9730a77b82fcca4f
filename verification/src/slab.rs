use vstd::prelude::*;

use crate::arena::Arena;
use crate::arena::PAGE_SIZE;
use crate::arena::POOL_CAPACITY;

verus! {

/// Size in bytes of a pointer on the modeled platform; every slot must be
/// able to hold one free-list link.
pub const PTR_SIZE: usize = 8;

/// Alignment in bytes required for a pointer-sized link field.
pub const PTR_ALIGN: usize = 8;

/// Size in bytes of the header at the start of every page: one
/// pointer-sized back-link to the previously carved page.
pub const HEADER_SIZE: usize = 8;

/// The object size that construction derives from a request: at least
/// pointer-sized, rounded up to pointer alignment.
pub open spec fn normalized_size(requested: int) -> int {
    let at_least = if requested < PTR_SIZE { PTR_SIZE as int } else { requested };
    if at_least % (PTR_ALIGN as int) == 0 {
        at_least
    } else {
        at_least + (PTR_ALIGN - at_least % (PTR_ALIGN as int))
    }
}

/// A size class whose per-page slot count is the usable space divided by
/// the slot size never overruns the space: `count * size` fits in the data
/// region of a page.
proof fn lemma_count_times_size_fits(size: int, count: int)
    requires
        size >= 1,
        count == (PAGE_SIZE - HEADER_SIZE) as int / size,
    ensures
        0 <= count * size <= PAGE_SIZE - HEADER_SIZE,
{
    vstd::arithmetic::div_mod::lemma_fundamental_div_mod((PAGE_SIZE - HEADER_SIZE) as int, size);
    vstd::arithmetic::div_mod::lemma_mod_bound((PAGE_SIZE - HEADER_SIZE) as int, size);
    vstd::arithmetic::div_mod::lemma_div_pos_is_pos((PAGE_SIZE - HEADER_SIZE) as int, size);
}

/// The slot offsets of a page carved at offset `page`, in carving order:
/// slot `i` begins `HEADER_SIZE + i * size` bytes into the page. Carving
/// pushes them onto the free list in this order, so the last slot of the
/// page ends up at the head of the list.
pub open spec fn page_slots(page: int, size: int, count: int) -> Seq<usize> {
    Seq::new(count as nat, |i: int| (page + HEADER_SIZE + i * size) as usize)
}

/// Every slot of a carved page lies strictly inside that page, after the
/// header — so distinct pages yield disjoint slot offsets, and every slot
/// offset stays inside the arena region.
pub proof fn lemma_page_slots_in_page(page: int, size: int, count: int, i: int)
    requires
        0 <= page,
        page + PAGE_SIZE <= POOL_CAPACITY,
        1 <= size,
        count * size <= PAGE_SIZE - HEADER_SIZE,
        0 <= i < count,
    ensures
        page_slots(page, size, count)[i] == page + HEADER_SIZE + i * size,
        page < page_slots(page, size, count)[i],
        page_slots(page, size, count)[i] < page + PAGE_SIZE,
{
    vstd::arithmetic::mul::lemma_mul_inequality(i + 1, count, size);
    vstd::arithmetic::mul::lemma_mul_is_distributive_add_other_way(size, i, 1);
    vstd::arithmetic::mul::lemma_mul_nonnegative(i, size);
}

/// Distinct slots of one page have distinct offsets: slot starts are
/// spaced exactly `size` bytes apart.
pub proof fn lemma_page_slots_distinct(page: int, size: int, count: int, i: int, j: int)
    requires
        0 <= page,
        page + PAGE_SIZE <= POOL_CAPACITY,
        1 <= size,
        count * size <= PAGE_SIZE - HEADER_SIZE,
        0 <= i < count,
        0 <= j < count,
        i != j,
    ensures
        page_slots(page, size, count)[i] != page_slots(page, size, count)[j],
{
    lemma_page_slots_in_page(page, size, count, i);
    lemma_page_slots_in_page(page, size, count, j);
    if i < j {
        vstd::arithmetic::mul::lemma_mul_strict_inequality(i, j, size);
    } else {
        vstd::arithmetic::mul::lemma_mul_strict_inequality(j, i, size);
    }
}

/// Slots carved from two distinct pages are distinct: every slot lies
/// strictly inside its own page, so a page carved later in the arena
/// yields strictly larger offsets.
pub proof fn lemma_distinct_pages_disjoint_slots(
    page1: int,
    page2: int,
    size: int,
    count: int,
    i: int,
    j: int,
)
    requires
        0 <= page1,
        page1 + PAGE_SIZE <= page2,
        page2 + PAGE_SIZE <= POOL_CAPACITY,
        1 <= size,
        count * size <= PAGE_SIZE - HEADER_SIZE,
        0 <= i < count,
        0 <= j < count,
    ensures
        page_slots(page1, size, count)[i] < page_slots(page2, size, count)[j],
{
    lemma_page_slots_in_page(page1, size, count, i);
    lemma_page_slots_in_page(page2, size, count, j);
}

/// Normalization is idempotent: constructing with any requested size and
/// then constructing again with the resulting object size yields the same
/// object size.
pub proof fn lemma_normalized_size_idempotent(requested: int)
    ensures
        normalized_size(normalized_size(requested)) == normalized_size(requested),
{
}

/// The free list after `n` allocations from list `slots`, each of which
/// pops the head — the last element — while the list stays non-empty.
pub open spec fn after_allocs(slots: Seq<usize>, n: int) -> Seq<usize>
    recommends
        0 <= n <= slots.len(),
{
    slots.subrange(0, slots.len() - n)
}

/// Freeing one more in-bounds address after a batch of frees appends it to
/// the batch: a free list does not depend on how a run of frees is split.
pub proof fn lemma_free_extends_batch(slots: Seq<usize>, freed: Seq<usize>, addr: usize)
    ensures
        (slots + freed).push(addr) == slots + freed.push(addr),
{
    assert((slots + freed).push(addr) =~= slots + freed.push(addr));
}

/// Allocate/free round trip. Freeing a batch of in-bounds addresses onto
/// free list `slots` leaves the list `slots + freed`; each of the next
/// `freed.len()` allocations then finds a non-empty free list — so none of
/// them carves a page — and hands back exactly the freed addresses,
/// newest-first; and once the whole batch has been handed back the free
/// list is `slots` again.
pub proof fn lemma_alloc_free_round_trip(slots: Seq<usize>, freed: Seq<usize>, i: int)
    requires
        0 <= i < freed.len(),
    ensures
        after_allocs(slots + freed, i).len() > 0,
        after_allocs(slots + freed, i).last() == freed[freed.len() - 1 - i],
        after_allocs(slots + freed, i).drop_last() == after_allocs(slots + freed, i + 1),
        after_allocs(slots + freed, freed.len() as int) == slots,
{
    assert(after_allocs(slots + freed, i).drop_last() =~= after_allocs(slots + freed, i + 1));
    assert(after_allocs(slots + freed, freed.len() as int) =~= slots);
}

/// A single-size-class allocator drawing pages from an [`Arena`].
///
/// Free slots are kept on a last-in, first-out free list; `free_list`
/// holds their offsets with the head of the list last. `pages` holds the
/// starting offsets of the pages this instance has carved, most recent
/// last, standing for the page back-link chain.
pub struct SlabAllocator {
    object_size: usize,
    objects_per_page: usize,
    free_list: Vec<usize>,
    pages: Vec<usize>,
}

impl SlabAllocator {
    /// Normalized size of each slot.
    pub closed spec fn obj_size(self) -> usize {
        self.object_size
    }

    /// How many slots fit in one page's data region.
    pub closed spec fn objs_per_page(self) -> usize {
        self.objects_per_page
    }

    /// Offsets of the free slots, free-list head last.
    pub closed spec fn free_slots(self) -> Seq<usize> {
        self.free_list@
    }

    /// Starting offsets of the pages this instance carved, most recent last.
    pub closed spec fn page_offsets(self) -> Seq<usize> {
        self.pages@
    }

    /// Well-formedness: the size class is normalized, the slot count per
    /// page is the derived constant, and every recorded offset lies inside
    /// the arena region (pages at page boundaries).
    pub open spec fn wf(self) -> bool {
        &&& self.obj_size() == normalized_size(self.obj_size() as int)
        &&& self.objs_per_page() == (PAGE_SIZE - HEADER_SIZE) as int / self.obj_size() as int
        &&& forall|i: int|
            0 <= i < self.free_slots().len() ==> #[trigger] self.free_slots()[i] < POOL_CAPACITY
        &&& forall|i: int|
            0 <= i < self.page_offsets().len() ==> ({
                &&& #[trigger] self.page_offsets()[i] < POOL_CAPACITY
                &&& self.page_offsets()[i] % PAGE_SIZE == 0
            })
    }

    /// Construct an allocator for one object size.
    ///
    /// The requested size is normalized: raised to at least `PTR_SIZE`, then
    /// rounded up to a multiple of `PTR_ALIGN`, so that a reclaimed slot can
    /// always hold a correctly aligned free-list link. No page is carved
    /// yet. When the normalized size exceeds a page's usable space, the slot
    /// count is zero and every later allocation fails.
    pub fn new(object_size: usize) -> (slab: SlabAllocator)
        requires
            object_size <= usize::MAX - (PTR_ALIGN - 1),
        ensures
            slab.wf(),
            slab.obj_size() == normalized_size(object_size as int),
            slab.obj_size() >= PTR_SIZE,
            slab.obj_size() % PTR_ALIGN == 0,
            slab.obj_size() >= object_size,
            slab.objs_per_page() == (PAGE_SIZE - HEADER_SIZE) as int / slab.obj_size() as int,
            slab.free_slots() == Seq::<usize>::empty(),
            slab.page_offsets() == Seq::<usize>::empty(),
    {
        let object_size = if object_size < PTR_SIZE {
            PTR_SIZE
        } else {
            object_size
        };
        let rem = object_size % PTR_ALIGN;
        let object_size = if rem == 0 {
            object_size
        } else {
            object_size + (PTR_ALIGN - rem)
        };
        let usable_space = PAGE_SIZE - HEADER_SIZE;
        let objects_per_page = usable_space / object_size;
        proof {
            assert(object_size % PTR_ALIGN == 0);
            assert(object_size == normalized_size(object_size as int));
        }
        SlabAllocator {
            object_size,
            objects_per_page,
            free_list: Vec::new(),
            pages: Vec::new(),
        }
    }

    /// Page carving can go ahead exactly when the arena still holds a whole
    /// uncarved page and this size class fits at least one slot per page.
    pub open spec fn can_carve(self, arena: Arena) -> bool {
        &&& self.objs_per_page() > 0
        &&& arena.carved() + PAGE_SIZE <= POOL_CAPACITY
    }

    /// Carve one more page from the arena for this instance: record the
    /// page on the page chain and push each of its slots onto the free
    /// list, first slot first, so the page's last slot becomes the new
    /// free-list head. Fails, changing nothing, when the arena is exhausted
    /// or when this size class fits no slot in a page.
    #[verifier::loop_isolation(false)]
    fn allocate_page(&mut self, arena: &mut Arena) -> (r: Option<()>)
        requires
            old(self).wf(),
            old(arena).wf(),
        ensures
            final(self).wf(),
            final(arena).wf(),
            final(self).obj_size() == old(self).obj_size(),
            final(self).objs_per_page() == old(self).objs_per_page(),
            !old(self).can_carve(*old(arena)) ==> ({
                &&& r is None
                &&& final(self).free_slots() == old(self).free_slots()
                &&& final(self).page_offsets() == old(self).page_offsets()
                &&& final(arena).carved() == old(arena).carved()
            }),
            old(self).can_carve(*old(arena)) ==> ({
                &&& r is Some
                &&& final(arena).carved() == old(arena).carved() + PAGE_SIZE
                &&& final(self).page_offsets() == old(self).page_offsets().push(
                    old(arena).carved(),
                )
                &&& final(self).free_slots() == old(self).free_slots() + page_slots(
                    old(arena).carved() as int,
                    old(self).obj_size() as int,
                    old(self).objs_per_page() as int,
                )
            }),
    {
        if self.objects_per_page == 0 {
            return None;
        }
        let page = match arena.claim_page() {
            Some(p) => p,
            None => {
                return None;
            },
        };
        proof {
            lemma_count_times_size_fits(self.object_size as int, self.objects_per_page as int);
        }
        self.pages.push(page);
        let mut i: usize = 0;
        while i < self.objects_per_page
            invariant
                i <= self.objects_per_page,
                self.object_size == old(self).obj_size(),
                self.objects_per_page == old(self).objs_per_page(),
                self.pages@ == old(self).page_offsets().push(page),
                self.free_list@ == old(self).free_slots() + page_slots(
                    page as int,
                    self.object_size as int,
                    i as int,
                ),
            decreases self.objects_per_page - i,
        {
            proof {
                vstd::arithmetic::mul::lemma_mul_inequality(
                    i + 1,
                    self.objects_per_page as int,
                    self.object_size as int,
                );
                vstd::arithmetic::mul::lemma_mul_is_distributive_add_other_way(
                    self.object_size as int,
                    i as int,
                    1,
                );
            }
            let slot = page + HEADER_SIZE + i * self.object_size;
            self.free_list.push(slot);
            proof {
                assert(self.free_list@ == old(self).free_slots() + page_slots(
                    page as int,
                    self.object_size as int,
                    i + 1,
                )) by {
                    assert(old(self).free_slots() + page_slots(
                        page as int,
                        self.object_size as int,
                        i + 1,
                    ) =~= (old(self).free_slots() + page_slots(
                        page as int,
                        self.object_size as int,
                        i as int,
                    )).push(slot));
                };
            }
            i = i + 1;
        }
        proof {
            assert forall|k: int| 0 <= k < self.free_list@.len() implies #[trigger] self.free_list@[k]
                < POOL_CAPACITY by {
                let n = old(self).free_slots().len() as int;
                if k < n {
                    assert(self.free_list@[k] == old(self).free_slots()[k]);
                } else {
                    lemma_page_slots_in_page(
                        page as int,
                        self.object_size as int,
                        self.objects_per_page as int,
                        k - n,
                    );
                }
            }
            assert forall|k: int| 0 <= k < self.pages@.len() implies ({
                &&& #[trigger] self.pages@[k] < POOL_CAPACITY
                &&& self.pages@[k] % PAGE_SIZE == 0
            }) by {
                if k < old(self).page_offsets().len() {
                    assert(self.pages@[k] == old(self).page_offsets()[k]);
                } else {
                    assert(self.pages@[k] == page);
                }
            }
        }
        Some(())
    }

    /// Hand out one slot: pop the free-list head, carving a fresh page
    /// first when the list is empty. Returns the popped slot's offset, and
    /// removes it from the free list, so it is not handed out again before
    /// it is freed. Fails exactly when the list is empty and no page can be
    /// carved — the arena is exhausted, or this size class fits no slot in
    /// a page.
    pub fn allocate(&mut self, arena: &mut Arena) -> (r: Option<usize>)
        requires
            old(self).wf(),
            old(arena).wf(),
        ensures
            final(self).wf(),
            final(arena).wf(),
            final(self).obj_size() == old(self).obj_size(),
            final(self).objs_per_page() == old(self).objs_per_page(),
            r is Some <==> old(self).free_slots().len() > 0 || old(self).can_carve(
                *old(arena),
            ),
            r is Some ==> r.unwrap() < POOL_CAPACITY,
            old(self).free_slots().len() > 0 ==> ({
                &&& r == Some(old(self).free_slots().last())
                &&& final(self).free_slots() == old(self).free_slots().drop_last()
                &&& final(self).page_offsets() == old(self).page_offsets()
                &&& final(arena).carved() == old(arena).carved()
            }),
            old(self).free_slots().len() == 0 && !old(self).can_carve(*old(arena)) ==> ({
                &&& r is None
                &&& final(self).free_slots() == old(self).free_slots()
                &&& final(self).page_offsets() == old(self).page_offsets()
                &&& final(arena).carved() == old(arena).carved()
            }),
            old(self).free_slots().len() == 0 && old(self).can_carve(*old(arena)) ==> ({
                let fresh = page_slots(
                    old(arena).carved() as int,
                    old(self).obj_size() as int,
                    old(self).objs_per_page() as int,
                );
                &&& r == Some(fresh.last())
                &&& final(self).free_slots() == fresh.drop_last()
                &&& final(self).page_offsets() == old(self).page_offsets().push(
                    old(arena).carved(),
                )
                &&& final(arena).carved() == old(arena).carved() + PAGE_SIZE
            }),
    {
        if self.free_list.len() == 0 {
            match self.allocate_page(arena) {
                Some(_) => {},
                None => {
                    return None;
                },
            }
        }
        let ghost before_pop = *self;
        let r = self.free_list.pop();
        proof {
            assert(before_pop.wf());
            assert forall|k: int| 0 <= k < self.free_list@.len() implies #[trigger] self.free_list@[k]
                < POOL_CAPACITY by {
                assert(self.free_list@[k] == before_pop.free_slots()[k]);
            }
            assert forall|k: int| 0 <= k < self.pages@.len() implies ({
                &&& #[trigger] self.pages@[k] < POOL_CAPACITY
                &&& self.pages@[k] % PAGE_SIZE == 0
            }) by {
                assert(self.pages@[k] == before_pop.page_offsets()[k]);
            }
            if before_pop.free_slots().len() > 0 {
                assert(before_pop.free_slots()[before_pop.free_slots().len() - 1]
                    < POOL_CAPACITY);
            }
        }
        r
    }

    /// Return a slot to the allocator. An offset outside the arena region
    /// is silently ignored; any in-bounds offset is pushed onto the front
    /// of the free list, becoming the next slot handed out.
    pub fn free(&mut self, addr: usize)
        requires
            old(self).wf(),
        ensures
            final(self).wf(),
            final(self).obj_size() == old(self).obj_size(),
            final(self).objs_per_page() == old(self).objs_per_page(),
            final(self).page_offsets() == old(self).page_offsets(),
            addr < POOL_CAPACITY ==> final(self).free_slots() == old(self).free_slots().push(
                addr,
            ),
            addr >= POOL_CAPACITY ==> final(self).free_slots() == old(self).free_slots(),
    {
        if addr >= POOL_CAPACITY {
            return;
        }
        let ghost before_push = *self;
        self.free_list.push(addr);
        proof {
            assert forall|k: int| 0 <= k < self.free_list@.len() implies #[trigger] self.free_list@[k]
                < POOL_CAPACITY by {
                if k < before_push.free_slots().len() {
                    assert(self.free_list@[k] == before_push.free_slots()[k]);
                } else {
                    assert(self.free_list@[k] == addr);
                }
            }
            assert forall|k: int| 0 <= k < self.pages@.len() implies ({
                &&& #[trigger] self.pages@[k] < POOL_CAPACITY
                &&& self.pages@[k] % PAGE_SIZE == 0
            }) by {
                assert(self.pages@[k] == before_push.page_offsets()[k]);
            }
        }
    }

    /// Alignment invariant: every well-formed allocator's object size is
    /// at least pointer-sized and a multiple of the pointer alignment, so
    /// a reclaimed slot can always hold an aligned free-list link.
    pub proof fn lemma_alignment_invariant(self)
        requires
            self.wf(),
        ensures
            self.obj_size() >= PTR_SIZE,
            self.obj_size() % PTR_ALIGN == 0,
    {
    }

    /// Normalized size of each slot served by this instance.
    pub fn object_size(&self) -> (r: usize)
        ensures
            r == self.obj_size(),
    {
        self.object_size
    }

    /// Number of slots carved out of each page.
    pub fn objects_per_page(&self) -> (r: usize)
        ensures
            r == self.objs_per_page(),
    {
        self.objects_per_page
    }
}

} // verus!

