//! A verified virtual-memory mapper: the kernel component that maintains a
//! four-level x86-64 page-table hierarchy, installs and removes leaf mappings,
//! and resolves virtual-to-physical translation, including 1 GiB and 2 MiB
//! huge-page shortcuts.
//!
//! The table hierarchy is held as owned data so that every walk and mutation
//! is visible to the verifier; the platform glue that exposes the live
//! hierarchy to the CPU (recursive mapping, TLB invalidation) stays outside
//! this crate.
use vstd::prelude::*;

pub mod entry;
pub mod mem;
pub mod page;
pub mod table;
pub mod mapper;

verus! {

/// Size in bytes of one page and of one frame.
pub const PAGE_SIZE: u64 = 4096;

/// Number of entries in one page table.
pub const ENTRY_COUNT: usize = 512;

/// A virtual address.
pub type VirtualAddress = u64;

/// A physical address.
pub type PhysicalAddress = u64;

/// The distinct failure kinds of the mapping operations.
///
/// Invariant violations are surfaced as their own variants rather than as a
/// generic failure, so that callers can tell a caller bug (remapping a mapped
/// page) from resource exhaustion.
#[derive(Clone, Copy, PartialEq, Eq, Structural, Debug)]
pub enum MapError {
    /// The frame allocator ran out of physical memory.
    OutOfMemory,
    /// `map_to` found the target leaf entry already in use.
    AlreadyMapped,
    /// `unmap` found no mapping at all for the page.
    NotMapped,
    /// The walk ran into a huge-page mapping that the operation cannot handle.
    HugePageUnsupported,
    /// A huge-page frame number does not meet its alignment requirement.
    MisalignedHugeFrame,
}

} // verus!
