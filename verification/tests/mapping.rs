use page_mapper::MapError;
use page_mapper::entry::{Entry, EntryFlags, HUGE_PAGE, PRESENT, WRITABLE};
use page_mapper::mapper::Mapper;
use page_mapper::mem::{Frame, FrameAllocator};
use page_mapper::page::Page;

/// Hands out consecutive frame numbers and counts how many were taken.
struct BumpAllocator {
    next: u64,
    handed_out: usize,
}

impl BumpAllocator {
    fn new(start: u64) -> BumpAllocator {
        BumpAllocator { next: start, handed_out: 0 }
    }
}

impl FrameAllocator for BumpAllocator {
    fn allocate_frame(&mut self) -> Option<Frame> {
        let f = Frame { number: self.next };
        self.next += 1;
        self.handed_out += 1;
        Some(f)
    }

    fn deallocate_frame(&mut self, _frame: Frame) {}
}

/// An allocator with no memory left.
struct EmptyAllocator;

impl FrameAllocator for EmptyAllocator {
    fn allocate_frame(&mut self) -> Option<Frame> {
        None
    }

    fn deallocate_frame(&mut self, _frame: Frame) {}
}

fn writable() -> EntryFlags {
    EntryFlags::new(WRITABLE)
}

#[test]
fn fresh_mapper_translates_nothing() {
    let mapper = Mapper::new();
    assert_eq!(mapper.translate_page(Page { number: 0 }), None);
    assert_eq!(mapper.translate_page(Page { number: 1 }), None);
    assert_eq!(mapper.translate_page(Page { number: 0xf_ffff_ffff_ffff }), None);
    assert_eq!(mapper.translate(0), None);
    assert_eq!(mapper.translate(0x1000), None);
    assert_eq!(mapper.translate(0xffff_ffff_ffff_f000), None);
}

#[test]
fn map_to_then_translate_page() {
    let mut mapper = Mapper::new();
    let mut alloc = BumpAllocator::new(1000);
    let page = Page::containing(0x1000);
    assert_eq!(mapper.map_to(page, Frame { number: 5 }, writable(), &mut alloc), Ok(()));
    assert_eq!(mapper.translate_page(page), Some(Frame { number: 5 }));
}

#[test]
fn remapping_a_mapped_page_is_refused() {
    let mut mapper = Mapper::new();
    let mut alloc = BumpAllocator::new(1000);
    let page = Page::containing(0x1000);
    assert_eq!(mapper.map_to(page, Frame { number: 5 }, writable(), &mut alloc), Ok(()));
    assert_eq!(
        mapper.map_to(page, Frame { number: 6 }, writable(), &mut alloc),
        Err(MapError::AlreadyMapped)
    );
    // the failed call changed nothing
    assert_eq!(mapper.translate_page(page), Some(Frame { number: 5 }));
}

#[test]
fn unmap_then_translate_nothing() {
    let mut mapper = Mapper::new();
    let mut alloc = BumpAllocator::new(1000);
    let page = Page::containing(0x1000);
    assert_eq!(mapper.map_to(page, Frame { number: 5 }, writable(), &mut alloc), Ok(()));
    assert_eq!(mapper.unmap(page, &mut alloc), Ok(()));
    assert_eq!(mapper.translate_page(page), None);
    assert_eq!(mapper.unmap(page, &mut alloc), Err(MapError::NotMapped));
}

#[test]
fn unmap_of_an_unmapped_page_is_refused() {
    let mut mapper = Mapper::new();
    let mut alloc = BumpAllocator::new(1000);
    assert_eq!(mapper.unmap(Page::containing(0x5000), &mut alloc), Err(MapError::NotMapped));
}

#[test]
fn translate_adds_the_page_offset() {
    let mut mapper = Mapper::new();
    let mut alloc = BumpAllocator::new(1000);
    let page = Page::containing(0x1000);
    assert_eq!(mapper.map_to(page, Frame { number: 5 }, writable(), &mut alloc), Ok(()));
    assert_eq!(mapper.translate(0x1000), Some(5 * 4096));
    assert_eq!(mapper.translate(0x1000 + 100), Some(5 * 4096 + 100));
    assert_eq!(mapper.translate(0x1fff), Some(5 * 4096 + 0xfff));
}

#[test]
fn end_to_end_scenario() {
    let mut mapper = Mapper::new();
    let mut alloc = BumpAllocator::new(1000);
    let page = Page::containing(0x1000);
    assert_eq!(mapper.map_to(page, Frame { number: 5 }, writable(), &mut alloc), Ok(()));
    assert_eq!(mapper.translate(0x1000), Some(5 * 4096));
    assert_eq!(mapper.translate(0x1000 + 100), Some(5 * 4096 + 100));
    assert_eq!(mapper.unmap(page, &mut alloc), Ok(()));
    assert_eq!(mapper.translate(0x1000), None);
}

#[test]
fn identity_map_round_trip() {
    let mut mapper = Mapper::new();
    let mut alloc = BumpAllocator::new(1000);
    let frame = Frame { number: 7 };
    assert_eq!(mapper.identity_map(frame, writable(), &mut alloc), Ok(()));
    assert_eq!(mapper.translate(7 * 4096), Some(7 * 4096));
    assert_eq!(mapper.translate_page(Page { number: 7 }), Some(frame));
}

#[test]
fn map_obtains_a_frame_from_the_allocator() {
    let mut mapper = Mapper::new();
    let mut alloc = BumpAllocator::new(1000);
    let page = Page::containing(0x7000);
    assert_eq!(mapper.map(page, writable(), &mut alloc), Ok(()));
    let frame = mapper.translate_page(page).unwrap();
    assert!(frame.number >= 1000);
    assert_eq!(mapper.translate(0x7000), Some(frame.number * 4096));
}

#[test]
fn map_fails_when_memory_is_exhausted() {
    let mut mapper = Mapper::new();
    let mut empty = EmptyAllocator;
    let page = Page::containing(0x1000);
    assert_eq!(mapper.map(page, writable(), &mut empty), Err(MapError::OutOfMemory));
    assert_eq!(
        mapper.map_to(page, Frame { number: 5 }, writable(), &mut empty),
        Err(MapError::OutOfMemory)
    );
    assert_eq!(mapper.translate_page(page), None);
}

#[test]
fn shared_intermediate_tables_are_created_once_and_reused() {
    let mut mapper = Mapper::new();
    let mut alloc = BumpAllocator::new(1000);
    let first = Page::containing(0x1000);
    let second = Page::containing(0x2000);
    assert_eq!(mapper.map_to(first, Frame { number: 5 }, writable(), &mut alloc), Ok(()));
    // three intermediate tables were created for the first mapping
    assert_eq!(alloc.handed_out, 3);
    assert_eq!(mapper.map_to(second, Frame { number: 6 }, writable(), &mut alloc), Ok(()));
    // the sibling page reuses all of them
    assert_eq!(alloc.handed_out, 3);
    assert_eq!(mapper.translate_page(first), Some(Frame { number: 5 }));
    assert_eq!(mapper.translate_page(second), Some(Frame { number: 6 }));
    // unmapping one sibling leaves the other intact, touches the allocator
    // not at all, and keeps the intermediate tables (the documented leak)
    assert_eq!(mapper.unmap(first, &mut alloc), Ok(()));
    assert_eq!(alloc.handed_out, 3);
    assert_eq!(mapper.translate_page(first), None);
    assert_eq!(mapper.translate_page(second), Some(Frame { number: 6 }));
    // remapping the vacated page reuses the retained tables: no allocation
    assert_eq!(mapper.map_to(first, Frame { number: 9 }, writable(), &mut alloc), Ok(()));
    assert_eq!(alloc.handed_out, 3);
    assert_eq!(mapper.translate_page(first), Some(Frame { number: 9 }));
}

#[test]
fn identity_map_error_cases() {
    let mut mapper = Mapper::new();
    let mut alloc = BumpAllocator::new(1000);
    let mut empty = EmptyAllocator;
    let frame = Frame { number: 7 };
    assert_eq!(mapper.identity_map(frame, writable(), &mut empty), Err(MapError::OutOfMemory));
    assert_eq!(mapper.identity_map(frame, writable(), &mut alloc), Ok(()));
    assert_eq!(mapper.identity_map(frame, writable(), &mut alloc), Err(MapError::AlreadyMapped));
    assert_eq!(mapper.translate(7 * 4096), Some(7 * 4096));
}

#[test]
fn huge_mappings_refuse_an_occupied_slot() {
    let mut mapper = Mapper::new();
    let mut alloc = BumpAllocator::new(1000);
    let page = Page { number: 512 };
    // a 4 KiB mapping occupies the level-2 slot its region would need
    assert_eq!(mapper.map_to(page, Frame { number: 5 }, writable(), &mut alloc), Ok(()));
    assert_eq!(
        mapper.map_huge_2m(page, Frame { number: 1024 }, writable(), &mut alloc),
        Err(MapError::AlreadyMapped)
    );
    // a second huge mapping over the same 1 GiB region is refused too
    let gig = Page { number: 262144 };
    assert_eq!(
        mapper.map_huge_1g(gig, Frame { number: 262144 }, writable(), &mut alloc),
        Ok(())
    );
    assert_eq!(
        mapper.map_huge_1g(gig, Frame { number: 2 * 262144 }, writable(), &mut alloc),
        Err(MapError::AlreadyMapped)
    );
    assert_eq!(mapper.translate_page(gig), Some(Frame { number: 262144 }));
}

#[test]
fn huge_1g_mapping_translates_with_offset() {
    let mut mapper = Mapper::new();
    let mut alloc = BumpAllocator::new(1000);
    // a page in the 1 GiB region with top indices (0, 1)
    let region_base: u64 = 262144;
    let base_frame: u64 = 3 * 262144;
    let page = Page { number: region_base };
    assert_eq!(
        mapper.map_huge_1g(page, Frame { number: base_frame }, writable(), &mut alloc),
        Ok(())
    );
    // any page of the region translates to the correctly offset frame
    assert_eq!(mapper.translate_page(page), Some(Frame { number: base_frame }));
    let inner = Page { number: region_base + 2 * 512 + 5 };
    assert_eq!(mapper.translate_page(inner), Some(Frame { number: base_frame + 2 * 512 + 5 }));
    let last = Page { number: region_base + 511 * 512 + 511 };
    assert_eq!(
        mapper.translate_page(last),
        Some(Frame { number: base_frame + 511 * 512 + 511 })
    );
    // a page outside the region is untouched
    assert_eq!(mapper.translate_page(Page { number: region_base - 1 }), None);
}

#[test]
fn huge_1g_mapping_rejects_an_unaligned_frame() {
    let mut mapper = Mapper::new();
    let mut alloc = BumpAllocator::new(1000);
    let page = Page { number: 262144 };
    assert_eq!(
        mapper.map_huge_1g(page, Frame { number: 100 }, writable(), &mut alloc),
        Err(MapError::MisalignedHugeFrame)
    );
    assert_eq!(mapper.translate_page(page), None);
}

#[test]
fn huge_2m_mapping_translates_with_offset() {
    let mut mapper = Mapper::new();
    let mut alloc = BumpAllocator::new(1000);
    // the 2 MiB region with indices (0, 0, 1)
    let region_base: u64 = 512;
    let base_frame: u64 = 7 * 512;
    let page = Page { number: region_base };
    assert_eq!(
        mapper.map_huge_2m(page, Frame { number: base_frame }, writable(), &mut alloc),
        Ok(())
    );
    assert_eq!(mapper.translate_page(page), Some(Frame { number: base_frame }));
    let inner = Page { number: region_base + 9 };
    assert_eq!(mapper.translate_page(inner), Some(Frame { number: base_frame + 9 }));
    assert_eq!(mapper.translate_page(Page { number: region_base - 1 }), None);
    assert_eq!(mapper.translate_page(Page { number: region_base + 512 }), None);
}

#[test]
fn huge_2m_mapping_rejects_an_unaligned_frame() {
    let mut mapper = Mapper::new();
    let mut alloc = BumpAllocator::new(1000);
    let page = Page { number: 512 };
    assert_eq!(
        mapper.map_huge_2m(page, Frame { number: 513 }, writable(), &mut alloc),
        Err(MapError::MisalignedHugeFrame)
    );
    assert_eq!(mapper.translate_page(page), None);
}

#[test]
fn mapping_through_a_huge_page_is_refused() {
    let mut mapper = Mapper::new();
    let mut alloc = BumpAllocator::new(1000);
    let page = Page { number: 512 };
    assert_eq!(
        mapper.map_huge_2m(page, Frame { number: 512 }, writable(), &mut alloc),
        Ok(())
    );
    // a 4 KiB mapping inside the huge region cannot be installed ...
    assert_eq!(
        mapper.map_to(page, Frame { number: 5 }, writable(), &mut alloc),
        Err(MapError::HugePageUnsupported)
    );
    // ... and the huge mapping cannot be removed by unmap
    assert_eq!(mapper.unmap(page, &mut alloc), Err(MapError::HugePageUnsupported));
    assert_eq!(mapper.translate_page(page), Some(Frame { number: 512 }));
}

#[test]
fn page_index_decomposition() {
    let page = Page { number: ((4 * 512 + 3) * 512 + 2) * 512 + 1 };
    assert_eq!(page.p4_index(), 4);
    assert_eq!(page.p3_index(), 3);
    assert_eq!(page.p2_index(), 2);
    assert_eq!(page.p1_index(), 1);
    let high = Page::containing(0xffff_ffff_ffff_f000);
    assert_eq!(high.p4_index(), 511);
    assert_eq!(high.p3_index(), 511);
    assert_eq!(high.p2_index(), 511);
    assert_eq!(high.p1_index(), 511);
}

#[test]
fn page_and_frame_arithmetic() {
    assert_eq!(Page::containing(0x1000), Page { number: 1 });
    assert_eq!(Page::containing(0x1fff), Page { number: 1 });
    assert_eq!(Page { number: 5 }.start(), 5 * 4096);
    assert_eq!(Frame::containing(0x3000), Frame { number: 3 });
    assert_eq!(Frame { number: 3 }.start(), 3 * 4096);
}

#[test]
fn entry_encoding_round_trip() {
    let mut e = Entry::new_unused();
    assert!(e.is_unused());
    assert_eq!(e.frame(), None);
    e.set(Frame { number: 42 }, EntryFlags::new(WRITABLE));
    assert!(!e.is_unused());
    assert_eq!(e.frame(), Some(Frame { number: 42 }));
    assert!(e.flags().contains(EntryFlags::new(PRESENT)));
    assert!(e.flags().contains(EntryFlags::new(WRITABLE)));
    assert!(!e.is_huge());
    e.set_unused();
    assert!(e.is_unused());
    assert_eq!(e.frame(), None);
}

#[test]
fn walking_the_hierarchy_by_hand() {
    let mut mapper = Mapper::new();
    let mut alloc = BumpAllocator::new(1000);
    let page = Page::containing(0x1000);
    assert_eq!(mapper.map_to(page, Frame { number: 5 }, writable(), &mut alloc), Ok(()));
    // the intermediate entries are present, writable and reference the
    // frames the allocator handed out
    let p4 = mapper.p4();
    let e4 = p4.entry(page.p4_index());
    assert!(!e4.is_unused());
    assert!(e4.flags().contains(EntryFlags::new(PRESENT | WRITABLE)));
    assert_eq!(e4.frame(), Some(Frame { number: 1000 }));
    let p3 = p4.next_table(page.p4_index()).unwrap();
    let p2 = p3.next_table(page.p3_index()).unwrap();
    let p1 = p2.next_table(page.p2_index()).unwrap();
    assert_eq!(p1.entry(page.p1_index()).frame(), Some(Frame { number: 5 }));
    // the leaf entry carries the given flags plus the implied present bit
    assert!(p1.entry(page.p1_index()).flags().contains(EntryFlags::new(PRESENT | WRITABLE)));
    assert!(p2.next_table(7).is_none());
    // mutable access to the hierarchy is exposed the same way
    let _ = mapper.p4_mut();
}

#[test]
fn entry_flags_operations() {
    let w = EntryFlags::new(WRITABLE);
    let h = EntryFlags::new(HUGE_PAGE);
    let both = w.union(h);
    assert!(both.contains(w));
    assert!(both.contains(h));
    assert!(!w.contains(h));
    assert_eq!(EntryFlags::empty().bits, 0);
    let mut e = Entry::new_unused();
    e.set(Frame { number: 9 }, both);
    assert!(e.is_huge());
    assert_eq!(e.frame(), Some(Frame { number: 9 }));
}
