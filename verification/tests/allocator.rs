use slab_alloc::Arena;
use slab_alloc::SlabAllocator;
use slab_alloc::MAX_PAGES;
use slab_alloc::PAGE_SIZE;
use slab_alloc::POOL_CAPACITY;
use slab_alloc::PTR_ALIGN;
use slab_alloc::PTR_SIZE;

#[test]
fn test_free_outside_pool() {
    let mut arena = Arena::new();
    let mut slab = SlabAllocator::new(64);

    // An offset far outside the arena region.
    let fake_addr: usize = 0xdeadbeef;

    // Should not corrupt anything, just ignore.
    slab.free(fake_addr);

    // Allocator should still work.
    let addr = slab.allocate(&mut arena);
    assert!(addr.is_some());
}

#[test]
fn test_alloc_after_free() {
    let mut arena = Arena::new();
    let mut slab = SlabAllocator::new(64);

    let mut addrs = Vec::new();

    // Allocate several objects
    for _ in 0..10 {
        addrs.push(slab.allocate(&mut arena).unwrap());
    }

    // Free all of them
    for addr in addrs {
        slab.free(addr);
    }

    // Allocate again - should reuse freed memory
    let new_addrs: Vec<_> = (0..10).map(|_| slab.allocate(&mut arena).unwrap()).collect();
    assert_eq!(new_addrs.len(), 10);
}

#[test]
fn test_object_size_alignment() {
    // Test that object size is properly aligned
    let slab = SlabAllocator::new(13); // Not aligned to pointer size

    // object_size should be rounded up to at least pointer size
    assert!(slab.object_size() >= PTR_SIZE);
    assert_eq!(slab.object_size() % PTR_ALIGN, 0);
}

#[test]
fn test_multiple_pages() {
    let mut arena = Arena::new();
    let mut slab = SlabAllocator::new(64);

    // Allocate enough objects to require multiple pages
    let objects_per_page = slab.objects_per_page();
    let mut addrs = Vec::new();

    // Allocate objects from first page
    for _ in 0..objects_per_page {
        addrs.push(slab.allocate(&mut arena).unwrap());
    }

    // This should trigger a new page allocation
    let addr = slab.allocate(&mut arena);
    assert!(addr.is_some(), "Should be able to allocate from new page");

    // Verify it's a different address
    let new_addr = addr.unwrap();
    let first_addr = addrs[0];
    assert_ne!(new_addr, first_addr);
}

#[test]
fn test_normalization() {
    // Below pointer size: raised to the pointer size.
    assert_eq!(SlabAllocator::new(0).object_size(), 8);
    assert_eq!(SlabAllocator::new(1).object_size(), 8);
    assert_eq!(SlabAllocator::new(8).object_size(), 8);
    // Above it: rounded up to the next multiple of the alignment.
    assert_eq!(SlabAllocator::new(9).object_size(), 16);
    assert_eq!(SlabAllocator::new(13).object_size(), 16);
    assert_eq!(SlabAllocator::new(64).object_size(), 64);
}

#[test]
fn test_normalization_idempotent() {
    for requested in [0usize, 1, 7, 8, 13, 63, 64, 100, 4000, 5000] {
        let once = SlabAllocator::new(requested).object_size();
        let twice = SlabAllocator::new(once).object_size();
        assert_eq!(once, twice);
    }
}

#[test]
fn test_concrete_scenario() {
    // With a 4096-byte page, 16 pages, and 8-byte pointers, a request for
    // 64 bytes yields 64-byte slots, 63 of them per page.
    assert_eq!(PAGE_SIZE, 4096);
    assert_eq!(MAX_PAGES, 16);
    let mut arena = Arena::new();
    let mut slab = SlabAllocator::new(64);
    assert_eq!(slab.object_size(), 64);
    assert_eq!(slab.objects_per_page(), 63);

    let a = slab.allocate(&mut arena).unwrap();
    let b = slab.allocate(&mut arena).unwrap();
    let c = slab.allocate(&mut arena).unwrap();

    slab.free(a);
    slab.free(b);
    slab.free(c);

    // Reallocation returns previously freed addresses in reverse-of-free
    // order: the last freed is the first reallocated.
    let first = slab.allocate(&mut arena).unwrap();
    let second = slab.allocate(&mut arena).unwrap();
    assert_eq!(first, c);
    assert_eq!(second, b);
}

#[test]
fn test_free_list_head_is_last_slot() {
    // Carving pushes a page's slots in slot order, so the first address
    // handed out is the page's last slot: header plus 62 whole slots in.
    let mut arena = Arena::new();
    let mut slab = SlabAllocator::new(64);
    let first = slab.allocate(&mut arena).unwrap();
    assert_eq!(first, 8 + 62 * 64);
}

#[test]
fn test_out_of_bounds_free_is_noop() {
    // Freeing the first offset past the region must leave the free list
    // untouched: the next allocation behaves exactly as from a fresh
    // allocator.
    let mut arena = Arena::new();
    let mut slab = SlabAllocator::new(64);
    slab.free(POOL_CAPACITY);
    slab.free(usize::MAX);
    let addr = slab.allocate(&mut arena).unwrap();
    assert_eq!(addr, 8 + 62 * 64);
    assert_eq!(arena.used(), PAGE_SIZE);
}

#[test]
fn test_in_bounds_free_reenters_free_list() {
    // Any in-bounds offset is accepted onto the free list without further
    // validation — a stale or foreign handle is not detected.
    let mut arena = Arena::new();
    let mut slab = SlabAllocator::new(64);
    slab.free(12345);
    assert_eq!(slab.allocate(&mut arena), Some(12345));
    assert_eq!(arena.used(), 0);
}

#[test]
fn test_page_growth_on_exhaustion() {
    // Allocating one past a page's slot count carves exactly one more
    // page, and the overflowing address lies in the new page.
    let mut arena = Arena::new();
    let mut slab = SlabAllocator::new(64);
    let count = slab.objects_per_page();
    let mut addrs = Vec::new();
    for _ in 0..count {
        addrs.push(slab.allocate(&mut arena).unwrap());
    }
    assert_eq!(arena.used(), PAGE_SIZE);
    let overflow = slab.allocate(&mut arena).unwrap();
    assert_eq!(arena.used(), 2 * PAGE_SIZE);
    // Every address from the first page is in the first page; the
    // overflowing one is in the second.
    for &addr in &addrs {
        assert!(addr < PAGE_SIZE);
    }
    assert!(overflow >= PAGE_SIZE && overflow < 2 * PAGE_SIZE);
    // All addresses handed out so far are distinct.
    let mut all = addrs.clone();
    all.push(overflow);
    let mut sorted = all.clone();
    sorted.sort();
    sorted.dedup();
    assert_eq!(sorted.len(), all.len());
}

#[test]
fn test_arena_exhaustion_is_terminal() {
    // A 4000-byte request fits one slot per page, so each allocation
    // carves a page; after MAX_PAGES allocations the arena is exhausted
    // and every further attempt fails, repeatably.
    let mut arena = Arena::new();
    let mut slab = SlabAllocator::new(4000);
    assert_eq!(slab.objects_per_page(), 1);
    for _ in 0..MAX_PAGES {
        assert!(slab.allocate(&mut arena).is_some());
    }
    assert_eq!(arena.used(), POOL_CAPACITY);
    assert_eq!(slab.allocate(&mut arena), None);
    assert_eq!(slab.allocate(&mut arena), None);
    assert_eq!(arena.used(), POOL_CAPACITY);
}

#[test]
fn test_degenerate_size_class() {
    // An object bigger than a page's usable space fits no slot: every
    // allocation fails at once and no page is ever carved.
    let mut arena = Arena::new();
    let mut slab = SlabAllocator::new(5000);
    assert_eq!(slab.objects_per_page(), 0);
    assert_eq!(slab.allocate(&mut arena), None);
    assert_eq!(slab.allocate(&mut arena), None);
    assert_eq!(arena.used(), 0);
}

#[test]
fn test_shared_arena() {
    // Two allocators drawing from one arena carve disjoint pages.
    let mut arena = Arena::new();
    let mut small = SlabAllocator::new(64);
    let mut large = SlabAllocator::new(128);
    let a = small.allocate(&mut arena).unwrap();
    let b = large.allocate(&mut arena).unwrap();
    assert!(a < PAGE_SIZE);
    assert!(b >= PAGE_SIZE && b < 2 * PAGE_SIZE);
    assert_eq!(arena.used(), 2 * PAGE_SIZE);
}

#[test]
fn test_exit_request() {
    // The process-exit request pairs the machine's exit syscall number
    // with the status code.
    assert_eq!(slab_alloc::sys::exit(slab_alloc::sys::Machine::X86_64, 0), (60, 0));
    assert_eq!(slab_alloc::sys::exit(slab_alloc::sys::Machine::Aarch64, 1), (93, 1));
}

#[test]
fn test_usable_space_boundary() {
    // Exactly the usable space fits one slot; one byte more fits none.
    let exact = SlabAllocator::new(PAGE_SIZE - 8);
    assert_eq!(exact.object_size(), PAGE_SIZE - 8);
    assert_eq!(exact.objects_per_page(), 1);
    let over = SlabAllocator::new(PAGE_SIZE - 7);
    assert_eq!(over.object_size(), PAGE_SIZE);
    assert_eq!(over.objects_per_page(), 0);
}
