//! The mapper: exclusive owner of the top-level table, exposing address
//! translation and the mapping and unmapping operations.
use vstd::prelude::*;

use crate::{MapError, PAGE_SIZE, PhysicalAddress, VirtualAddress};
use crate::entry::{Entry, EntryFlags, MAX_FRAME_NUMBER, PRESENT, lemma_frame_number_bound};
use crate::mem::{Frame, FrameAllocator};
use crate::page::{Page, canonical_address, lemma_page_indices_injective, spec_page_containing};
use crate::table::{Table4, lemma_lookup_some4};

verus! {

/// Exclusive upper bound of the frame numbers `translate_page` can return:
/// a stored frame number plus the largest huge-page sub-index.
pub const MAX_TRANSLATED_FRAME: u64 = 0x100_0004_0000;

/// The orchestrating component: owns the whole live hierarchy through its
/// top-level table and walks it top-down.
pub struct Mapper {
    pub p4: Table4,
}

impl Mapper {
    /// The mapper's invariant: the owned hierarchy is well formed.
    pub open spec fn inv(self) -> bool {
        self.p4.wf()
    }

    /// The frame number `page` currently translates to, if any.
    pub open spec fn spec_translate_page(self, page: Page) -> Option<int> {
        self.p4.spec_lookup(page.spec_p4_index(), page.spec_p3_index(), page.spec_p2_index(),
            page.spec_p1_index())
    }

    /// A 4 KiB mapping is installed for `page`.
    pub open spec fn spec_mapped(self, page: Page) -> bool {
        self.p4.spec_mapped(page.spec_p4_index(), page.spec_p3_index(), page.spec_p2_index(),
            page.spec_p1_index())
    }

    /// `page` translates through a huge-page mapping below the top level.
    pub open spec fn spec_huge_mapped(self, page: Page) -> bool {
        self.p4.spec_huge_path(page.spec_p4_index(), page.spec_p3_index(), page.spec_p2_index())
    }

    /// The walk for `page` runs into a huge-page entry somewhere.
    pub open spec fn spec_huge_blocked(self, page: Page) -> bool {
        self.p4.spec_huge_blocked(page.spec_p4_index(), page.spec_p3_index(),
            page.spec_p2_index())
    }

    /// All intermediate tables down to the leaf level exist for `page`.
    pub open spec fn spec_chain(self, page: Page) -> bool {
        self.p4.spec_chain(page.spec_p4_index(), page.spec_p3_index(), page.spec_p2_index())
    }

    /// The level-3 table that a 1 GiB mapping for `page` would use exists.
    pub open spec fn spec_chain_1g(self, page: Page) -> bool {
        self.p4.children[page.spec_p4_index()] is Some
    }

    /// The level-2 table that a 2 MiB mapping for `page` would use exists.
    pub open spec fn spec_chain_2m(self, page: Page) -> bool {
        self.p4.spec_chain2(page.spec_p4_index(), page.spec_p3_index())
    }

    /// The level-3 slot that a 1 GiB mapping for `page` would use is
    /// occupied.
    pub open spec fn spec_slot_1g_used(self, page: Page) -> bool {
        self.spec_chain_1g(page) && self.p4.children[page.spec_p4_index()]->0.entries[
            page.spec_p3_index()].spec_present()
    }

    /// The level-2 slot that a 2 MiB mapping for `page` would use is
    /// occupied.
    pub open spec fn spec_slot_2m_used(self, page: Page) -> bool {
        self.spec_chain_2m(page) && self.p4.children[page.spec_p4_index()]->0.children[
            page.spec_p3_index()]->0.entries[page.spec_p2_index()].spec_present()
    }

    /// A huge top-level entry cuts `page`'s walk off before the level-3
    /// table.
    pub open spec fn spec_blocked_1g(self, page: Page) -> bool {
        self.p4.entries[page.spec_p4_index()].spec_present() && self.p4.entries[
            page.spec_p4_index()].spec_huge()
    }

    /// A huge entry above the level-2 table cuts `page`'s walk off before
    /// it.
    pub open spec fn spec_blocked_2m(self, page: Page) -> bool {
        self.spec_blocked_1g(page) || (self.spec_chain_1g(page) && self.p4.children[
            page.spec_p4_index()]->0.entries[page.spec_p3_index()].spec_present()
            && self.p4.children[page.spec_p4_index()]->0.entries[
            page.spec_p3_index()].spec_huge())
    }

    /// The leaf entry `page`'s walk ends at, where the chain down to the
    /// leaf table exists.
    pub open spec fn spec_leaf_entry(self, page: Page) -> Option<Entry> {
        self.p4.spec_leaf_entry(page.spec_p4_index(), page.spec_p3_index(),
            page.spec_p2_index(), page.spec_p1_index())
    }

    /// The physical address `vaddr` currently translates to, if any: the
    /// mapped frame's start plus the page offset.
    pub open spec fn spec_translate(self, vaddr: u64) -> Option<int> {
        match self.spec_translate_page(spec_page_containing(vaddr)) {
            Some(f) => Some(f * (PAGE_SIZE as int) + (vaddr as int) % (PAGE_SIZE as int)),
            None => None,
        }
    }

    /// A mapper over a fresh hierarchy: only the (empty) top-level table
    /// exists, and no page translates to anything.
    pub fn new() -> (r: Mapper)
        ensures
            r.inv(),
            forall|q: Page| r.spec_translate_page(q) is None,
            forall|q: Page| !r.spec_mapped(q),
            forall|va: u64| r.spec_translate(va) is None,
    {
        Mapper { p4: Table4::empty() }
    }

    /// The top-level table.
    pub fn p4(&self) -> (r: &Table4)
        ensures
            r == &self.p4,
    {
        &self.p4
    }

    /// Mutable access to the top-level table.
    pub fn p4_mut(&mut self) -> (r: &mut Table4)
        ensures
            *r == old(self).p4,
            *final(self) == (Mapper { p4: *final(r) }),
    {
        &mut self.p4
    }

    /// Walk the hierarchy for `page`: the result is exactly what the current
    /// tables say, including the 1 GiB and 2 MiB huge-page shortcuts.
    pub fn translate_page(&self, page: Page) -> (r: Option<Frame>)
        requires
            self.inv(),
        ensures
            match r {
                Some(f) => self.spec_translate_page(page) == Some(f.number as int),
                None => self.spec_translate_page(page) is None,
            },
            r matches Some(f) ==> f.number < MAX_TRANSLATED_FRAME,
    {
        let i4 = page.p4_index();
        let i3 = page.p3_index();
        let i2 = page.p2_index();
        let i1 = page.p1_index();
        let p3 = match self.p4.next_table(i4) {
            Some(t) => t,
            None => {
                return None;
            },
        };
        proof {
            assert(self.p4.wf_at(i4 as int));
        }
        // 1 GiB page?
        let e3 = p3.entry(i3);
        proof {
            assert(p3.wf_at(i3 as int));
            lemma_frame_number_bound(e3);
        }
        match e3.frame() {
            Some(f) => {
                if e3.is_huge() {
                    return Some(Frame { number: f.number + (i2 as u64) * 512 + (i1 as u64) });
                }
            },
            None => {},
        }
        let p2 = match p3.next_table(i3) {
            Some(t) => t,
            None => {
                return None;
            },
        };
        // 2 MiB page?
        let e2 = p2.entry(i2);
        proof {
            assert(p2.wf_at(i2 as int));
            lemma_frame_number_bound(e2);
        }
        match e2.frame() {
            Some(f) => {
                if e2.is_huge() {
                    return Some(Frame { number: f.number + (i1 as u64) });
                }
            },
            None => {},
        }
        let p1 = match p2.next_table(i2) {
            Some(t) => t,
            None => {
                return None;
            },
        };
        let e1 = p1.entry(i1);
        proof {
            lemma_frame_number_bound(e1);
        }
        e1.frame()
    }

    /// Translate a virtual address: the mapped frame's start address plus the
    /// page offset, or nothing while the page is unmapped.
    pub fn translate(&self, vaddr: VirtualAddress) -> (r: Option<PhysicalAddress>)
        requires
            self.inv(),
            canonical_address(vaddr),
        ensures
            match r {
                Some(p) => self.spec_translate(vaddr) == Some(p as int),
                None => self.spec_translate(vaddr) is None,
            },
    {
        let offset = vaddr % PAGE_SIZE;
        match self.translate_page(Page::containing(vaddr)) {
            Some(frame) => Some(frame.number * PAGE_SIZE + offset),
            None => None,
        }
    }

    /// Map `page` to `frame`, creating intermediate tables on demand. The
    /// target leaf entry must currently be unused: remapping a mapped page
    /// without an intervening `unmap` is refused as `AlreadyMapped`, and
    /// nothing is changed then.
    pub fn map_to<A: FrameAllocator>(&mut self, page: Page, frame: Frame, flags: EntryFlags,
        allocator: &mut A) -> (r: Result<(), MapError>)
        requires
            old(self).inv(),
            page.wf(),
            frame.number < MAX_FRAME_NUMBER,
            flags.wf(),
        ensures
            final(self).inv(),
            r is Ok ==> final(self).spec_translate_page(page) == Some(frame.number as int)
                && final(self).spec_mapped(page),
            r is Ok ==> (final(self).spec_leaf_entry(page) matches Some(e) && e.spec_present()
                && e.spec_frame_number() == frame.number && e.spec_flags().bits == flags.bits
                | PRESENT),
            old(self).spec_chain_1g(page) ==> final(self).spec_chain_1g(page),
            old(self).spec_chain_2m(page) ==> final(self).spec_chain_2m(page),
            old(self).spec_chain(page) ==> final(self).spec_chain(page),
            old(self).spec_chain(page) ==> *final(allocator) == *old(allocator),
            r is Ok ==> forall|q: Page| q.wf() && q != page ==> final(self).spec_translate_page(q)
                == old(self).spec_translate_page(q),
            r is Err ==> forall|q: Page| final(self).spec_translate_page(q) == old(
                self).spec_translate_page(q),
            r == Err::<(), MapError>(MapError::AlreadyMapped) <==> old(self).spec_mapped(page),
            r == Err::<(), MapError>(MapError::HugePageUnsupported) <==> old(
                self).spec_huge_blocked(page),
            r == Err::<(), MapError>(MapError::OutOfMemory) ==> !old(self).spec_chain(page),
            old(self).spec_chain(page) && !old(self).spec_mapped(page) && !old(
                self).spec_huge_blocked(page) ==> r is Ok,
            r is Ok || r == Err::<(), MapError>(MapError::AlreadyMapped) || r == Err::<(),
                MapError>(MapError::OutOfMemory) || r == Err::<(), MapError>(
                MapError::HugePageUnsupported),
    {
        let i4 = page.p4_index();
        let i3 = page.p3_index();
        let i2 = page.p2_index();
        let i1 = page.p1_index();
        let r = self.p4.map_to(i4, i3, i2, i1, frame, flags, allocator);
        proof {
            let t4 = page.spec_p4_index();
            let t3 = page.spec_p3_index();
            let t2 = page.spec_p2_index();
            let t1 = page.spec_p1_index();
            if r is Ok {
                assert forall|q: Page| q.wf() && q != page implies self.spec_translate_page(q)
                    == old(self).spec_translate_page(q) by {
                    if q.spec_p4_index() == t4 && q.spec_p3_index() == t3 && q.spec_p2_index()
                        == t2 && q.spec_p1_index() == t1 {
                        lemma_page_indices_injective(page, q);
                    }
                }
            } else {
                assert forall|q: Page| self.spec_translate_page(q) == old(
                    self).spec_translate_page(q) by {
                    if !(q.spec_p4_index() == t4 && q.spec_p3_index() == t3 && q.spec_p2_index()
                        == t2 && q.spec_p1_index() == t1) {
                        assert(self.p4.spec_lookup(q.spec_p4_index(), q.spec_p3_index(),
                            q.spec_p2_index(), q.spec_p1_index()) == old(self).p4.spec_lookup(
                            q.spec_p4_index(), q.spec_p3_index(), q.spec_p2_index(),
                            q.spec_p1_index()));
                    }
                }
            }
        }
        r
    }

    /// Map `page` to a frame obtained from the allocator. Exhaustion of the
    /// allocator is reported before the state of `page` is considered.
    pub fn map<A: FrameAllocator>(&mut self, page: Page, flags: EntryFlags, allocator: &mut A)
        -> (r: Result<(), MapError>)
        requires
            old(self).inv(),
            page.wf(),
            flags.wf(),
        ensures
            final(self).inv(),
            r is Ok ==> final(self).spec_mapped(page) && final(self).spec_translate_page(page)
                is Some,
            r is Ok ==> (final(self).spec_leaf_entry(page) matches Some(e) && e.spec_present()
                && e.spec_flags().bits == flags.bits | PRESENT),
            r is Ok ==> forall|q: Page| q.wf() && q != page ==> final(self).spec_translate_page(q)
                == old(self).spec_translate_page(q),
            r is Err ==> forall|q: Page| final(self).spec_translate_page(q) == old(
                self).spec_translate_page(q),
            r == Err::<(), MapError>(MapError::AlreadyMapped) ==> old(self).spec_mapped(page),
            r == Err::<(), MapError>(MapError::HugePageUnsupported) ==> old(
                self).spec_huge_blocked(page),
            old(self).spec_mapped(page) ==> !(r is Ok),
            r is Ok || r == Err::<(), MapError>(MapError::AlreadyMapped) || r == Err::<(),
                MapError>(MapError::OutOfMemory) || r == Err::<(), MapError>(
                MapError::HugePageUnsupported),
    {
        match allocator.allocate_frame() {
            None => Err(MapError::OutOfMemory),
            Some(frame) => self.map_to(page, frame, flags, allocator),
        }
    }

    /// Map the page whose virtual address numerically equals the frame's
    /// physical address to that frame, so that `translate` of the frame's
    /// start address returns the frame's start address.
    pub fn identity_map<A: FrameAllocator>(&mut self, frame: Frame, flags: EntryFlags,
        allocator: &mut A) -> (r: Result<(), MapError>)
        requires
            old(self).inv(),
            frame.number < 0x8_0000_0000,
            flags.wf(),
        ensures
            final(self).inv(),
            r is Ok ==> final(self).spec_translate_page(Page { number: frame.number }) == Some(
                frame.number as int),
            r is Ok ==> final(self).spec_translate((frame.number * PAGE_SIZE) as u64) == Some(
                frame.number * (PAGE_SIZE as int)),
            r is Ok ==> forall|q: Page| q.wf() && q != (Page { number: frame.number }) ==> final(
                self).spec_translate_page(q) == old(self).spec_translate_page(q),
            r is Err ==> forall|q: Page| final(self).spec_translate_page(q) == old(
                self).spec_translate_page(q),
            r == Err::<(), MapError>(MapError::AlreadyMapped) <==> old(self).spec_mapped(
                Page { number: frame.number }),
            r == Err::<(), MapError>(MapError::HugePageUnsupported) <==> old(
                self).spec_huge_blocked(Page { number: frame.number }),
            r == Err::<(), MapError>(MapError::OutOfMemory) ==> !old(self).spec_chain(
                Page { number: frame.number }),
            old(self).spec_chain(Page { number: frame.number }) && !old(self).spec_mapped(
                Page { number: frame.number }) && !old(self).spec_huge_blocked(
                Page { number: frame.number }) ==> r is Ok,
            r is Ok ==> (final(self).spec_leaf_entry(Page { number: frame.number }) matches
                Some(e) && e.spec_present() && e.spec_frame_number() == frame.number
                && e.spec_flags().bits == flags.bits | PRESENT),
            r is Ok || r == Err::<(), MapError>(MapError::AlreadyMapped) || r == Err::<(),
                MapError>(MapError::OutOfMemory) || r == Err::<(), MapError>(
                MapError::HugePageUnsupported),
    {
        let page = Page::containing(frame.start());
        proof {
            vstd::arithmetic::div_mod::lemma_div_multiples_vanish(frame.number as int, 4096);
            assert(page == (Page { number: frame.number }));
        }
        let r = self.map_to(page, frame, flags, allocator);
        proof {
            if r is Ok {
                vstd::arithmetic::div_mod::lemma_mod_multiples_basic(frame.number as int, 4096);
                assert((frame.number * PAGE_SIZE) as int % (PAGE_SIZE as int) == 0);
            }
        }
        r
    }

    /// Install a 1 GiB huge-page mapping: one level-3 entry, marked huge,
    /// covering every page that shares `page`'s two top indices. The frame
    /// number must be aligned to the square of the table size; handing an
    /// unaligned frame number is refused as `MisalignedHugeFrame`, so the
    /// alignment invariant the translation walk relies on can never be
    /// violated.
    pub fn map_huge_1g<A: FrameAllocator>(&mut self, page: Page, frame: Frame, flags: EntryFlags,
        allocator: &mut A) -> (r: Result<(), MapError>)
        requires
            old(self).inv(),
            page.wf(),
            frame.number < MAX_FRAME_NUMBER,
            flags.wf(),
        ensures
            final(self).inv(),
            r == Err::<(), MapError>(MapError::MisalignedHugeFrame) <==> frame.number % 262144
                != 0,
            r == Err::<(), MapError>(MapError::AlreadyMapped) <==> (frame.number % 262144 == 0
                && old(self).spec_slot_1g_used(page)),
            r == Err::<(), MapError>(MapError::HugePageUnsupported) <==> (frame.number % 262144
                == 0 && old(self).spec_blocked_1g(page)),
            r == Err::<(), MapError>(MapError::OutOfMemory) ==> !old(self).spec_chain_1g(page),
            frame.number % 262144 == 0 && old(self).spec_chain_1g(page) && !old(
                self).spec_slot_1g_used(page) ==> r is Ok,
            r is Ok ==> forall|j2: int, j1: int| 0 <= j2 < 512 && 0 <= j1 < 512 ==> final(
                self).p4.spec_lookup(page.spec_p4_index(), page.spec_p3_index(), j2, j1) == Some(
                frame.number + j2 * 512 + j1),
            r is Ok ==> final(self).spec_translate_page(page) == Some(frame.number
                + page.spec_p2_index() * 512 + page.spec_p1_index()),
            r is Ok ==> final(self).spec_huge_mapped(page),
            forall|q: Page| q.spec_p4_index() != page.spec_p4_index() || q.spec_p3_index()
                != page.spec_p3_index() ==> final(self).spec_translate_page(q) == old(
                self).spec_translate_page(q),
            r is Err ==> forall|q: Page| final(self).spec_translate_page(q) == old(
                self).spec_translate_page(q),
            r is Ok || r == Err::<(), MapError>(MapError::MisalignedHugeFrame) || r == Err::<(),
                MapError>(MapError::AlreadyMapped) || r == Err::<(), MapError>(
                MapError::OutOfMemory) || r == Err::<(), MapError>(MapError::HugePageUnsupported),
    {
        if frame.number % 262144 != 0 {
            return Err(MapError::MisalignedHugeFrame);
        }
        let i4 = page.p4_index();
        let i3 = page.p3_index();
        match self.p4.next_table_create(i4, allocator) {
            Err(e) => {
                return Err(e);
            },
            Ok(()) => {},
        }
        let ghost mid = *self;
        proof {
            assert(self.p4.wf_at(i4 as int));
        }
        let r = match &mut self.p4.children[i4] {
            Some(p3) => p3.set_huge_entry(i3, frame, flags),
            None => {
                proof {
                    assert(false);
                }
                Err(MapError::OutOfMemory)
            },
        };
        proof {
            if old(self).p4.children[page.spec_p4_index()] is Some {
                assert(mid == *old(self));
            } else {
                let c = mid.p4.children[page.spec_p4_index()]->0;
                assert(!c.entries[page.spec_p3_index()].spec_present());
            }
            assert forall|i: int| 0 <= i < 512 implies self.p4.wf_at(i) by {
                if i != i4 {
                    assert(mid.p4.wf_at(i));
                }
            }
            assert forall|q: Page| q.spec_p4_index() != page.spec_p4_index()
                || q.spec_p3_index() != page.spec_p3_index() implies self.spec_translate_page(q)
                == old(self).spec_translate_page(q) by {
                assert(mid.spec_translate_page(q) == old(self).spec_translate_page(q));
            }
            if r is Err {
                assert forall|q: Page| self.spec_translate_page(q) == old(
                    self).spec_translate_page(q) by {
                    assert(mid.spec_translate_page(q) == old(self).spec_translate_page(q));
                }
            }
        }
        r
    }

    /// Install a 2 MiB huge-page mapping: one level-2 entry, marked huge,
    /// covering every page that shares `page`'s three top indices. The frame
    /// number must be aligned to the table size.
    pub fn map_huge_2m<A: FrameAllocator>(&mut self, page: Page, frame: Frame, flags: EntryFlags,
        allocator: &mut A) -> (r: Result<(), MapError>)
        requires
            old(self).inv(),
            page.wf(),
            frame.number < MAX_FRAME_NUMBER,
            flags.wf(),
        ensures
            final(self).inv(),
            r == Err::<(), MapError>(MapError::MisalignedHugeFrame) <==> frame.number % 512 != 0,
            r == Err::<(), MapError>(MapError::AlreadyMapped) <==> (frame.number % 512 == 0
                && old(self).spec_slot_2m_used(page)),
            r == Err::<(), MapError>(MapError::HugePageUnsupported) <==> (frame.number % 512 == 0
                && old(self).spec_blocked_2m(page)),
            r == Err::<(), MapError>(MapError::OutOfMemory) ==> !old(self).spec_chain_2m(page),
            frame.number % 512 == 0 && old(self).spec_chain_2m(page) && !old(
                self).spec_slot_2m_used(page) ==> r is Ok,
            r is Ok ==> forall|j1: int| 0 <= j1 < 512 ==> final(self).p4.spec_lookup(
                page.spec_p4_index(), page.spec_p3_index(), page.spec_p2_index(), j1) == Some(
                frame.number + j1),
            r is Ok ==> final(self).spec_translate_page(page) == Some(frame.number
                + page.spec_p1_index()),
            r is Ok ==> final(self).spec_huge_mapped(page),
            forall|q: Page| q.spec_p4_index() != page.spec_p4_index() || q.spec_p3_index()
                != page.spec_p3_index() || q.spec_p2_index() != page.spec_p2_index() ==> final(
                self).spec_translate_page(q) == old(self).spec_translate_page(q),
            r is Err ==> forall|q: Page| final(self).spec_translate_page(q) == old(
                self).spec_translate_page(q),
            r is Ok || r == Err::<(), MapError>(MapError::MisalignedHugeFrame) || r == Err::<(),
                MapError>(MapError::AlreadyMapped) || r == Err::<(), MapError>(
                MapError::OutOfMemory) || r == Err::<(), MapError>(MapError::HugePageUnsupported),
    {
        if frame.number % 512 != 0 {
            return Err(MapError::MisalignedHugeFrame);
        }
        let i4 = page.p4_index();
        let i3 = page.p3_index();
        let i2 = page.p2_index();
        match self.p4.next_table_create(i4, allocator) {
            Err(e) => {
                return Err(e);
            },
            Ok(()) => {},
        }
        let ghost mid = *self;
        proof {
            assert(self.p4.wf_at(i4 as int));
        }
        let r = match &mut self.p4.children[i4] {
            Some(p3) => p3.map_huge(i3, i2, frame, flags, allocator),
            None => {
                proof {
                    assert(false);
                }
                Err(MapError::OutOfMemory)
            },
        };
        proof {
            if old(self).p4.children[page.spec_p4_index()] is Some {
                assert(mid == *old(self));
            } else {
                let c = mid.p4.children[page.spec_p4_index()]->0;
                assert(forall|j: int| 0 <= j < 512 ==> !c.entries[j].spec_present());
                assert(forall|j: int| 0 <= j < 512 ==> c.children[j] is None);
            }
            assert forall|i: int| 0 <= i < 512 implies self.p4.wf_at(i) by {
                if i != i4 {
                    assert(mid.p4.wf_at(i));
                }
            }
            assert forall|q: Page| q.spec_p4_index() != page.spec_p4_index()
                || q.spec_p3_index() != page.spec_p3_index() || q.spec_p2_index()
                != page.spec_p2_index() implies self.spec_translate_page(q) == old(
                self).spec_translate_page(q) by {
                assert(mid.spec_translate_page(q) == old(self).spec_translate_page(q));
            }
            if r is Err {
                assert forall|q: Page| self.spec_translate_page(q) == old(
                    self).spec_translate_page(q) by {
                    assert(mid.spec_translate_page(q) == old(self).spec_translate_page(q));
                }
            }
        }
        r
    }

    /// Remove the 4 KiB mapping of `page`. The page must currently be mapped
    /// (`NotMapped` otherwise), and mapped through a full walk: huge-page
    /// mappings are refused as `HugePageUnsupported`.
    ///
    /// The caller must invalidate the page's stale entry in the translation
    /// cache after this returns successfully; that hardware step lives
    /// outside this crate. Deliberately deferred, as in the design: emptied
    /// intermediate tables are not freed, and the vacated frame is not
    /// returned to the allocator.
    pub fn unmap<A: FrameAllocator>(&mut self, page: Page, allocator: &mut A) -> (r: Result<(),
        MapError>)
        requires
            old(self).inv(),
            page.wf(),
        ensures
            final(self).inv(),
            *final(allocator) == *old(allocator),
            forall|q: Page| final(self).spec_chain(q) == old(self).spec_chain(q),
            forall|q: Page| final(self).spec_chain_1g(q) == old(self).spec_chain_1g(q),
            forall|q: Page| final(self).spec_chain_2m(q) == old(self).spec_chain_2m(q),
            r is Ok <==> old(self).spec_mapped(page),
            r == Err::<(), MapError>(MapError::NotMapped) <==> old(self).spec_translate_page(page)
                is None,
            r == Err::<(), MapError>(MapError::HugePageUnsupported) <==> old(
                self).spec_huge_mapped(page),
            r is Ok || r == Err::<(), MapError>(MapError::NotMapped) || r == Err::<(), MapError>(
                MapError::HugePageUnsupported),
            r is Ok ==> final(self).spec_translate_page(page) is None && !final(self).spec_mapped(
                page),
            forall|q: Page| q.wf() && q != page ==> final(self).spec_translate_page(q) == old(
                self).spec_translate_page(q),
            r is Err ==> forall|q: Page| final(self).spec_translate_page(q) == old(
                self).spec_translate_page(q),
    {
        let i4 = page.p4_index();
        let i3 = page.p3_index();
        let i2 = page.p2_index();
        let i1 = page.p1_index();
        let r = self.p4.unmap(i4, i3, i2, i1);
        proof {
            let t4 = page.spec_p4_index();
            let t3 = page.spec_p3_index();
            let t2 = page.spec_p2_index();
            let t1 = page.spec_p1_index();
            lemma_lookup_some4(old(self).p4, t4, t3, t2, t1);
            assert forall|q: Page| q.wf() && q != page implies self.spec_translate_page(q) == old(
                self).spec_translate_page(q) by {
                if q.spec_p4_index() == t4 && q.spec_p3_index() == t3 && q.spec_p2_index() == t2
                    && q.spec_p1_index() == t1 {
                    lemma_page_indices_injective(page, q);
                }
            }
            if r is Err {
                assert forall|q: Page| self.spec_translate_page(q) == old(
                    self).spec_translate_page(q) by {
                    if !(q.spec_p4_index() == t4 && q.spec_p3_index() == t3 && q.spec_p2_index()
                        == t2 && q.spec_p1_index() == t1) {
                        assert(self.p4.spec_lookup(q.spec_p4_index(), q.spec_p3_index(),
                            q.spec_p2_index(), q.spec_p1_index()) == old(self).p4.spec_lookup(
                            q.spec_p4_index(), q.spec_p3_index(), q.spec_p2_index(),
                            q.spec_p1_index()));
                    }
                }
            }
        }
        r
    }
}

/// A page translates to something exactly when a 4 KiB mapping is installed
/// for it or it lies under a huge-page mapping: there is no third way to a
/// frame, which is why `unmap` can split its failures into `NotMapped` and
/// `HugePageUnsupported`.
pub proof fn lemma_translate_page_cases(m: Mapper, page: Page)
    ensures
        m.spec_translate_page(page) is Some <==> (m.spec_mapped(page) || m.spec_huge_mapped(
            page)),
{
    lemma_lookup_some4(m.p4, page.spec_p4_index(), page.spec_p3_index(), page.spec_p2_index(),
        page.spec_p1_index());
}

/// Translation composes out of page translation: whenever the containing
/// page maps to a frame, the translated physical address is that frame's
/// number times the page size plus the address's page offset; and an address
/// translates to nothing exactly when its page does.
pub proof fn lemma_translate_composes(m: Mapper, vaddr: u64)
    ensures
        m.spec_translate_page(spec_page_containing(vaddr)) matches Some(f) ==> m.spec_translate(
            vaddr) == Some(f * (PAGE_SIZE as int) + (vaddr as int) % (PAGE_SIZE as int)),
        m.spec_translate_page(spec_page_containing(vaddr)) is None <==> m.spec_translate(vaddr)
            is None,
{
}

} // verus!
