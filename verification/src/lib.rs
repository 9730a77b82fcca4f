//! A fixed-object-size slab allocator over a bounded backing arena.
//!
//! The arena is a fixed-capacity byte region, handed out page by page and
//! never reclaimed. Each `SlabAllocator` serves one object size: it carves
//! pages into equal slots and threads free slots onto a last-in, first-out
//! free list. Slot handles are byte offsets into the arena region.

pub mod arena;
pub mod slab;
pub mod sys;

pub use arena::Arena;
pub use arena::MAX_PAGES;
pub use arena::PAGE_SIZE;
pub use arena::POOL_CAPACITY;
pub use slab::HEADER_SIZE;
pub use slab::PTR_ALIGN;
pub use slab::PTR_SIZE;
pub use slab::SlabAllocator;
