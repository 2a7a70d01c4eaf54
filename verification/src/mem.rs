//! Physical frames and the allocation capability this crate consumes.
use vstd::prelude::*;

use crate::PAGE_SIZE;
use crate::entry::MAX_FRAME_NUMBER;

verus! {

/// Frame numbers stay below this bound so that the frame's start address
/// fits the 52-bit physical address space.
pub const MAX_PHYSICAL_FRAME: u64 = 0x10_0000_0000_0000;

/// One frame of physical memory, identified by its number
/// (physical address divided by the page size).
#[derive(Clone, Copy, PartialEq, Eq, Structural, Debug)]
pub struct Frame {
    pub number: u64,
}

impl Frame {
    /// The frame holding the given physical address.
    pub fn containing(paddr: crate::PhysicalAddress) -> (r: Frame)
        ensures
            r.number == paddr / PAGE_SIZE,
    {
        Frame { number: paddr / PAGE_SIZE }
    }

    /// The physical address at which the frame starts.
    pub fn start(self) -> (r: u64)
        requires
            self.number < MAX_PHYSICAL_FRAME,
        ensures
            r == self.number * PAGE_SIZE,
    {
        self.number * PAGE_SIZE
    }
}

/// The physical-frame allocation capability. This crate only calls it and
/// never implements it: allocation policy belongs to a higher layer, which
/// passes an allocator explicitly into every mutating operation.
pub trait FrameAllocator {
    /// Hand out one free frame, or nothing when physical memory is exhausted.
    /// Every frame an allocator hands out must fit the frame-number field of
    /// a table entry.
    fn allocate_frame(&mut self) -> (r: Option<Frame>)
        ensures
            r matches Some(f) ==> f.number < MAX_FRAME_NUMBER,
    ;

    /// Return a frame to the allocator.
    fn deallocate_frame(&mut self, frame: Frame);
}

} // verus!
