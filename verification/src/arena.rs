use vstd::prelude::*;

verus! {

/// Size in bytes of one page carved from the arena.
pub const PAGE_SIZE: usize = 4096;

/// Greatest number of pages the arena can ever hand out.
pub const MAX_PAGES: usize = 16;

/// Total capacity of the arena's backing region, in bytes.
pub const POOL_CAPACITY: usize = MAX_PAGES * PAGE_SIZE;

/// The fixed-capacity backing region from which pages are carved.
///
/// Slot handles are byte offsets into this region, in `[0, POOL_CAPACITY)`.
/// The arena tracks only how many bytes have been carved off; carving is
/// append-only and irreversible, so the count never decreases and a page,
/// once claimed, belongs to its claimant for the life of the arena.
pub struct Arena {
    used: usize,
}

impl Arena {
    /// Number of bytes already carved off.
    pub closed spec fn carved(self) -> usize {
        self.used
    }

    /// The arena invariant: whole pages only, never beyond capacity.
    pub open spec fn wf(self) -> bool {
        &&& self.carved() % PAGE_SIZE == 0
        &&& self.carved() <= POOL_CAPACITY
    }

    /// A fresh arena with nothing carved yet.
    pub fn new() -> (a: Arena)
        ensures
            a.wf(),
            a.carved() == 0,
    {
        Arena { used: 0 }
    }

    /// How many bytes of the arena have been carved so far.
    pub fn used(&self) -> (r: usize)
        ensures
            r == self.carved(),
    {
        self.used
    }

    /// Claim the next page: hand out its starting offset and advance the
    /// cursor by one page, or fail when the region is exhausted. A claim is
    /// final: no page is ever returned to the arena.
    pub fn claim_page(&mut self) -> (r: Option<usize>)
        requires
            old(self).wf(),
        ensures
            final(self).wf(),
            old(self).carved() + PAGE_SIZE > POOL_CAPACITY ==> ({
                &&& r is None
                &&& final(self).carved() == old(self).carved()
            }),
            old(self).carved() + PAGE_SIZE <= POOL_CAPACITY ==> ({
                &&& r == Some(old(self).carved())
                &&& final(self).carved() == old(self).carved() + PAGE_SIZE
            }),
    {
        if self.used + PAGE_SIZE > POOL_CAPACITY {
            None
        } else {
            let page = self.used;
            self.used = self.used + PAGE_SIZE;
            Some(page)
        }
    }
}

/// Arena exhaustion is terminal: a well-formed arena that cannot fit one
/// more page has carved exactly its whole capacity. Since `claim_page`
/// leaves the carved count unchanged whenever it fails, every later claim
/// finds the same exhausted arena and fails the same way.
pub proof fn lemma_exhaustion_is_terminal(a: Arena)
    requires
        a.wf(),
        a.carved() + PAGE_SIZE > POOL_CAPACITY,
    ensures
        a.carved() == POOL_CAPACITY,
{
    vstd::arithmetic::div_mod::lemma_fundamental_div_mod(a.carved() as int, PAGE_SIZE as int);
}

} // verus!
