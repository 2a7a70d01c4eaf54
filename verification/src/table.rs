//! The four levels of the page-table hierarchy.
//!
//! Each level is its own type, so that asking a leaf table for a next level
//! is impossible by construction. A non-leaf table carries, beside its 512
//! entries, the owned next-level tables; the well-formedness invariant ties
//! the two together: an entry is present and not huge exactly when the
//! next-level table behind it exists.
use vstd::prelude::*;

use crate::{ENTRY_COUNT, MapError};
use crate::entry::{Entry, EntryFlags, MAX_FRAME_NUMBER, PRESENT, WRITABLE, lemma_clean_unused,
    table_flags, huge_flag};
use crate::mem::{Frame, FrameAllocator};

verus! {

/// A leaf-level table: its entries always reference mapped frames, never
/// other tables.
pub struct Table1 {
    pub entries: Vec<Entry>,
}

impl Table1 {
    pub open spec fn wf(self) -> bool {
        &&& self.entries.len() == 512
        &&& forall|i: int| 0 <= i < 512 ==> self.entries[i].clean()
    }

    /// The frame mapped through entry `i1`, if any.
    pub open spec fn spec_lookup(self, i1: int) -> Option<int> {
        if self.entries[i1].spec_present() {
            Some(self.entries[i1].spec_frame_number() as int)
        } else {
            None
        }
    }

    /// A zeroed table: every slot unused. An uninitialized table would hold
    /// garbage present bits and corrupt every later lookup.
    pub fn empty() -> (r: Table1)
        ensures
            r.wf(),
            forall|i: int| 0 <= i < 512 ==> r.entries[i].value == 0
                && !r.entries[i].spec_present(),
            forall|i: int| 0 <= i < 512 ==> r.spec_lookup(i) is None,
    {
        let mut entries: Vec<Entry> = Vec::new();
        let mut k: usize = 0;
        while k < ENTRY_COUNT
            invariant
                entries.len() == k,
                k <= 512,
                forall|i: int| 0 <= i < k ==> entries[i].value == 0
                    && !entries[i].spec_present(),
            decreases 512 - k,
        {
            entries.push(Entry::new_unused());
            k += 1;
        }
        Table1 { entries }
    }

    pub fn entry(&self, index: usize) -> (r: Entry)
        requires
            self.wf(),
            index < 512,
        ensures
            r == self.entries[index as int],
    {
        self.entries[index]
    }

    /// Install a mapping in slot `index`.
    pub fn set_entry(&mut self, index: usize, frame: Frame, flags: EntryFlags)
        requires
            old(self).wf(),
            index < 512,
            frame.number < MAX_FRAME_NUMBER,
            flags.wf(),
        ensures
            final(self).wf(),
            final(self).spec_lookup(index as int) == Some(frame.number as int),
            final(self).entries[index as int].spec_present(),
            final(self).entries[index as int].spec_flags().bits == flags.bits
                | crate::entry::PRESENT,
            forall|j: int| 0 <= j < 512 && j != index ==> final(self).entries[j]
                == old(self).entries[j],
            forall|j: int| 0 <= j < 512 && j != index ==> final(self).spec_lookup(j)
                == old(self).spec_lookup(j),
    {
        let slot = &mut self.entries[index];
        slot.set(frame, flags);
    }

    /// Zero slot `index`.
    pub fn clear_entry(&mut self, index: usize)
        requires
            old(self).wf(),
            index < 512,
        ensures
            final(self).wf(),
            final(self).spec_lookup(index as int) is None,
            !final(self).entries[index as int].spec_present(),
            forall|j: int| 0 <= j < 512 && j != index ==> final(self).entries[j]
                == old(self).entries[j],
            forall|j: int| 0 <= j < 512 && j != index ==> final(self).spec_lookup(j)
                == old(self).spec_lookup(j),
    {
        let slot = &mut self.entries[index];
        slot.set_unused();
    }
}

/// A level-2 table: each used entry either references a leaf table or is
/// itself a 2 MiB huge-page mapping.
pub struct Table2 {
    pub entries: Vec<Entry>,
    pub children: Vec<Option<Table1>>,
}

impl Table2 {
    pub open spec fn wf_at(self, i: int) -> bool {
        &&& self.entries[i].clean()
        &&& (self.children[i] is Some <==> (self.entries[i].spec_present()
            && !self.entries[i].spec_huge()))
        &&& (self.children[i] matches Some(c) ==> c.wf())
        &&& (self.entries[i].spec_present() && self.entries[i].spec_huge()
            ==> self.entries[i].spec_frame_number() % 512 == 0)
    }

    pub open spec fn wf(self) -> bool {
        &&& self.entries.len() == 512
        &&& self.children.len() == 512
        &&& forall|i: int| 0 <= i < 512 ==> self.wf_at(i)
    }

    /// The frame reached through indices `(i2, i1)`: a huge entry terminates
    /// translation here, with `i1` selecting the sub-page; otherwise the walk
    /// descends into the leaf table.
    pub open spec fn spec_lookup(self, i2: int, i1: int) -> Option<int> {
        if self.entries[i2].spec_present() && self.entries[i2].spec_huge() {
            Some(self.entries[i2].spec_frame_number() + i1)
        } else {
            match self.children[i2] {
                Some(c) => c.spec_lookup(i1),
                None => None,
            }
        }
    }

    /// A 4 KiB mapping is installed at `(i2, i1)`.
    pub open spec fn spec_mapped(self, i2: int, i1: int) -> bool {
        self.children[i2] matches Some(c) && c.spec_lookup(i1) is Some
    }

    /// The walk to a leaf table is cut short by a huge-page mapping.
    pub open spec fn spec_huge_blocked(self, i2: int) -> bool {
        self.entries[i2].spec_present() && self.entries[i2].spec_huge()
    }

    /// The leaf table for index `i2` already exists.
    pub open spec fn spec_chain(self, i2: int) -> bool {
        self.children[i2] is Some
    }

    /// The leaf entry reached through `(i2, i1)`, where the leaf table
    /// exists.
    pub open spec fn spec_leaf_entry(self, i2: int, i1: int) -> Option<Entry> {
        match self.children[i2] {
            Some(c) => Some(c.entries[i1]),
            None => None,
        }
    }

    pub fn empty() -> (r: Table2)
        ensures
            r.wf(),
            forall|i: int| 0 <= i < 512 ==> r.entries[i].value == 0
                && !r.entries[i].spec_present(),
            forall|i: int| 0 <= i < 512 ==> r.children[i] is None,
            forall|j2: int, j1: int| 0 <= j2 < 512 && 0 <= j1 < 512
                ==> r.spec_lookup(j2, j1) is None,
    {
        let mut entries: Vec<Entry> = Vec::new();
        let mut children: Vec<Option<Table1>> = Vec::new();
        let mut k: usize = 0;
        while k < ENTRY_COUNT
            invariant
                entries.len() == k,
                children.len() == k,
                k <= 512,
                forall|i: int| 0 <= i < k ==> entries[i].value == 0
                    && !entries[i].spec_present(),
                forall|i: int| 0 <= i < k ==> children[i] is None,
            decreases 512 - k,
        {
            entries.push(Entry::new_unused());
            children.push(None);
            k += 1;
        }
        Table2 { entries, children }
    }

    pub fn entry(&self, index: usize) -> (r: Entry)
        requires
            self.wf(),
            index < 512,
        ensures
            r == self.entries[index as int],
    {
        self.entries[index]
    }

    /// The next-level table behind entry `index`, if the entry references
    /// one.
    pub fn next_table(&self, index: usize) -> (r: Option<&Table1>)
        requires
            self.wf(),
            index < 512,
        ensures
            match r {
                Some(t) => self.children[index as int] == Some(*t),
                None => self.children[index as int] is None,
            },
    {
        match &self.children[index] {
            Some(t) => Some(t),
            None => None,
        }
    }

    /// Make sure the next-level table behind entry `index` exists, obtaining
    /// one frame from the allocator and zero-initializing the new table when
    /// the entry is unused. An existing table is reused untouched, so
    /// repeated calls are idempotent.
    pub fn next_table_create<A: FrameAllocator>(&mut self, index: usize, allocator: &mut A)
        -> (r: Result<(), MapError>)
        requires
            old(self).wf(),
            index < 512,
        ensures
            final(self).wf(),
            r matches Ok(_) ==> final(self).children[index as int] is Some,
            old(self).children[index as int] is Some ==> r is Ok && *final(self) == *old(self),
            old(self).children[index as int] is Some ==> *final(allocator) == *old(allocator),
            r is Ok && old(self).children[index as int] is None ==> final(self).entries[
                index as int].spec_flags().bits == PRESENT | WRITABLE,
            r is Err ==> *final(self) == *old(self),
            r == Err::<(), MapError>(MapError::HugePageUnsupported) <==> old(self).spec_huge_blocked(index as int),
            r == Err::<(), MapError>(MapError::OutOfMemory) ==> old(self).children[index as int] is None,
            r is Ok || r == Err::<(), MapError>(MapError::OutOfMemory)
                || r == Err::<(), MapError>(MapError::HugePageUnsupported),
            forall|j: int| 0 <= j < 512 && j != index ==> final(self).children[j]
                == old(self).children[j] && final(self).entries[j] == old(self).entries[j],
            r is Ok && old(self).children[index as int] is None
                ==> (final(self).children[index as int] matches Some(c)
                    && forall|j: int| 0 <= j < 512 ==> c.entries[j].value == 0
                        && !c.entries[j].spec_present()),
            forall|j2: int, j1: int| 0 <= j2 < 512 && 0 <= j1 < 512
                ==> final(self).spec_lookup(j2, j1) == old(self).spec_lookup(j2, j1),
    {
        let e = self.entries[index];
        proof {
            assert(old(self).wf_at(index as int));
            lemma_clean_unused(e);
        }
        if e.is_unused() {
            match allocator.allocate_frame() {
                None => Err(MapError::OutOfMemory),
                Some(frame) => {
                    let tf = table_flags();
                    let slot = &mut self.entries[index];
                    slot.set(frame, tf);
                    let child_slot = &mut self.children[index];
                    *child_slot = Some(Table1::empty());
                    proof {
                        assert forall|i: int| 0 <= i < 512 implies self.wf_at(i) by {
                            if i != index {
                                assert(old(self).wf_at(i));
                            }
                        }
                        assert forall|j2: int, j1: int| 0 <= j2 < 512 && 0 <= j1 < 512 implies
                            self.spec_lookup(j2, j1) == old(self).spec_lookup(j2, j1) by {
                            if j2 == index {
                                assert(old(self).spec_lookup(j2, j1) is None);
                                assert(self.spec_lookup(j2, j1) is None);
                            }
                        }
                    }
                    Ok(())
                },
            }
        } else if e.is_huge() {
            Err(MapError::HugePageUnsupported)
        } else {
            proof {
                assert(self.children[index as int] is Some);
            }
            Ok(())
        }
    }

    /// Install a 4 KiB mapping at `(i2, i1)`, creating the leaf table on
    /// demand. The target leaf entry must currently be unused.
    pub fn map_to<A: FrameAllocator>(&mut self, i2: usize, i1: usize, frame: Frame,
        flags: EntryFlags, allocator: &mut A) -> (r: Result<(), MapError>)
        requires
            old(self).wf(),
            i2 < 512,
            i1 < 512,
            frame.number < MAX_FRAME_NUMBER,
            flags.wf(),
        ensures
            final(self).wf(),
            r is Ok ==> final(self).spec_lookup(i2 as int, i1 as int) == Some(
                frame.number as int) && final(self).spec_mapped(i2 as int, i1 as int),
            r is Ok ==> (final(self).spec_leaf_entry(i2 as int, i1 as int) matches Some(e)
                && e.spec_present() && e.spec_frame_number() == frame.number
                && e.spec_flags().bits == flags.bits | PRESENT),
            old(self).spec_chain(i2 as int) ==> final(self).spec_chain(i2 as int),
            old(self).spec_chain(i2 as int) ==> *final(allocator) == *old(allocator),
            forall|j2: int, j1: int| 0 <= j2 < 512 && 0 <= j1 < 512 && !(j2 == i2 && j1 == i1)
                ==> final(self).spec_lookup(j2, j1) == old(self).spec_lookup(j2, j1),
            r is Err ==> final(self).spec_lookup(i2 as int, i1 as int) == old(self).spec_lookup(
                i2 as int, i1 as int),
            r == Err::<(), MapError>(MapError::AlreadyMapped) <==> old(self).spec_mapped(
                i2 as int, i1 as int),
            r == Err::<(), MapError>(MapError::HugePageUnsupported) <==> old(
                self).spec_huge_blocked(i2 as int),
            r == Err::<(), MapError>(MapError::OutOfMemory) ==> !old(self).spec_chain(i2 as int),
            old(self).spec_chain(i2 as int) && !old(self).spec_mapped(i2 as int, i1 as int)
                && !old(self).spec_huge_blocked(i2 as int) ==> r is Ok,
            r is Ok || r == Err::<(), MapError>(MapError::AlreadyMapped) || r == Err::<(),
                MapError>(MapError::OutOfMemory) || r == Err::<(), MapError>(
                MapError::HugePageUnsupported),
            r == Err::<(), MapError>(MapError::AlreadyMapped) || r == Err::<(), MapError>(
                MapError::HugePageUnsupported) ==> *final(self) == *old(self),
    {
        match self.next_table_create(i2, allocator) {
            Err(e) => {
                return Err(e);
            },
            Ok(()) => {},
        }
        let ghost mid = *self;
        proof {
            assert(self.wf_at(i2 as int));
        }
        let occupied = match &self.children[i2] {
            Some(child) => !child.entry(i1).is_unused(),
            None => true,
        };
        proof {
            let c = mid.children[i2 as int]->0;
            lemma_clean_unused(c.entries[i1 as int]);
        }
        if occupied {
            return Err(MapError::AlreadyMapped);
        }
        match &mut self.children[i2] {
            Some(child) => {
                child.set_entry(i1, frame, flags);
            },
            None => {
                proof {
                    assert(false);
                }
            },
        }
        proof {
            assert forall|i: int| 0 <= i < 512 implies self.wf_at(i) by {
                if i != i2 {
                    assert(mid.wf_at(i));
                }
            }
            assert forall|j2: int, j1: int| 0 <= j2 < 512 && 0 <= j1 < 512 && !(j2 == i2 && j1
                == i1) implies self.spec_lookup(j2, j1) == old(self).spec_lookup(j2, j1) by {
                assert(mid.spec_lookup(j2, j1) == old(self).spec_lookup(j2, j1));
                if j2 != i2 {
                    assert(self.spec_lookup(j2, j1) == mid.spec_lookup(j2, j1));
                }
            }
        }
        Ok(())
    }

    /// Remove the 4 KiB mapping at `(i2, i1)`. The leaf table must exist:
    /// huge-page mappings are not unmapped here.
    pub fn unmap(&mut self, i2: usize, i1: usize) -> (r: Result<(), MapError>)
        requires
            old(self).wf(),
            i2 < 512,
            i1 < 512,
        ensures
            final(self).wf(),
            r is Ok <==> old(self).spec_mapped(i2 as int, i1 as int),
            r == Err::<(), MapError>(MapError::HugePageUnsupported) <==> old(
                self).spec_huge_blocked(i2 as int),
            r == Err::<(), MapError>(MapError::NotMapped) <==> (!old(self).spec_mapped(i2 as int,
                i1 as int) && !old(self).spec_huge_blocked(i2 as int)),
            r is Ok || r == Err::<(), MapError>(MapError::NotMapped) || r == Err::<(), MapError>(
                MapError::HugePageUnsupported),
            r is Ok ==> final(self).spec_lookup(i2 as int, i1 as int) is None && !final(
                self).spec_mapped(i2 as int, i1 as int),
            forall|j2: int, j1: int| 0 <= j2 < 512 && 0 <= j1 < 512 && !(j2 == i2 && j1 == i1)
                ==> final(self).spec_lookup(j2, j1) == old(self).spec_lookup(j2, j1),
            r is Err ==> *final(self) == *old(self),
            final(self).entries == old(self).entries,
            forall|j: int| 0 <= j < 512 && j != i2 ==> final(self).children[j] == old(
                self).children[j],
            final(self).children[i2 as int] is Some <==> old(self).children[i2 as int] is Some,
            forall|j2: int| 0 <= j2 < 512 ==> (final(self).spec_chain(j2) <==> old(
                self).spec_chain(j2)),
    {
        let e = self.entries[i2];
        proof {
            assert(self.wf_at(i2 as int));
            lemma_clean_unused(e);
        }
        if e.is_unused() {
            return Err(MapError::NotMapped);
        }
        if e.is_huge() {
            return Err(MapError::HugePageUnsupported);
        }
        let occupied = match &self.children[i2] {
            Some(child) => !child.entry(i1).is_unused(),
            None => false,
        };
        proof {
            let c = old(self).children[i2 as int]->0;
            lemma_clean_unused(c.entries[i1 as int]);
        }
        if !occupied {
            return Err(MapError::NotMapped);
        }
        match &mut self.children[i2] {
            Some(child) => {
                child.clear_entry(i1);
            },
            None => {
                proof {
                    assert(false);
                }
            },
        }
        proof {
            assert forall|i: int| 0 <= i < 512 implies self.wf_at(i) by {
                if i != i2 {
                    assert(old(self).wf_at(i));
                }
            }
            assert forall|j2: int, j1: int| 0 <= j2 < 512 && 0 <= j1 < 512 && !(j2 == i2 && j1
                == i1) implies self.spec_lookup(j2, j1) == old(self).spec_lookup(j2, j1) by {
                if j2 != i2 {
                    assert(self.spec_lookup(j2, j1) == old(self).spec_lookup(j2, j1));
                }
            }
        }
        Ok(())
    }

    /// Install a 2 MiB huge-page mapping in entry `index`. The frame number
    /// must be aligned to one table's span, and the entry must be unused.
    pub fn set_huge_entry(&mut self, index: usize, frame: Frame, flags: EntryFlags) -> (r:
        Result<(), MapError>)
        requires
            old(self).wf(),
            index < 512,
            frame.number < MAX_FRAME_NUMBER,
            flags.wf(),
        ensures
            final(self).wf(),
            r == Err::<(), MapError>(MapError::MisalignedHugeFrame) <==> frame.number % 512 != 0,
            r == Err::<(), MapError>(MapError::AlreadyMapped) <==> (frame.number % 512 == 0
                && old(self).entries[index as int].spec_present()),
            r is Ok || r == Err::<(), MapError>(MapError::MisalignedHugeFrame) || r == Err::<(),
                MapError>(MapError::AlreadyMapped),
            r is Err ==> *final(self) == *old(self),
            r is Ok ==> forall|j1: int| 0 <= j1 < 512 ==> final(self).spec_lookup(index as int,
                j1) == Some(frame.number + j1),
            r is Ok ==> final(self).spec_huge_blocked(index as int) && final(self).entries[
                index as int].spec_present() && final(self).entries[index as int].spec_huge(),
            r is Ok ==> forall|j1: int| 0 <= j1 < 512 ==> old(self).spec_lookup(index as int, j1)
                is None,
            forall|j: int| 0 <= j < 512 && j != index ==> final(self).entries[j] == old(
                self).entries[j] && final(self).children[j] == old(self).children[j],
            forall|j2: int, j1: int| 0 <= j2 < 512 && 0 <= j1 < 512 && j2 != index ==> final(
                self).spec_lookup(j2, j1) == old(self).spec_lookup(j2, j1),
    {
        if frame.number % 512 != 0 {
            return Err(MapError::MisalignedHugeFrame);
        }
        let e = self.entries[index];
        proof {
            assert(self.wf_at(index as int));
            lemma_clean_unused(e);
        }
        if !e.is_unused() {
            return Err(MapError::AlreadyMapped);
        }
        let slot = &mut self.entries[index];
        slot.set(frame, flags.union(huge_flag()));
        proof {
            assert forall|i: int| 0 <= i < 512 implies self.wf_at(i) by {
                if i != index {
                    assert(old(self).wf_at(i));
                }
            }
        }
        Ok(())
    }
}

/// A level-3 table: each used entry either references a level-2 table or is
/// itself a 1 GiB huge-page mapping.
pub struct Table3 {
    pub entries: Vec<Entry>,
    pub children: Vec<Option<Table2>>,
}

impl Table3 {
    pub open spec fn wf_at(self, i: int) -> bool {
        &&& self.entries[i].clean()
        &&& (self.children[i] is Some <==> (self.entries[i].spec_present()
            && !self.entries[i].spec_huge()))
        &&& (self.children[i] matches Some(c) ==> c.wf())
        &&& (self.entries[i].spec_present() && self.entries[i].spec_huge()
            ==> self.entries[i].spec_frame_number() % 262144 == 0)
    }

    pub open spec fn wf(self) -> bool {
        &&& self.entries.len() == 512
        &&& self.children.len() == 512
        &&& forall|i: int| 0 <= i < 512 ==> self.wf_at(i)
    }

    /// The frame reached through indices `(i3, i2, i1)`: a huge entry
    /// terminates translation here, with `(i2, i1)` selecting the sub-page.
    pub open spec fn spec_lookup(self, i3: int, i2: int, i1: int) -> Option<int> {
        if self.entries[i3].spec_present() && self.entries[i3].spec_huge() {
            Some(self.entries[i3].spec_frame_number() + i2 * 512 + i1)
        } else {
            match self.children[i3] {
                Some(c) => c.spec_lookup(i2, i1),
                None => None,
            }
        }
    }

    /// A 4 KiB mapping is installed at `(i3, i2, i1)`.
    pub open spec fn spec_mapped(self, i3: int, i2: int, i1: int) -> bool {
        self.children[i3] matches Some(c) && c.spec_mapped(i2, i1)
    }

    /// The walk to a leaf table is cut short by a huge-page mapping.
    pub open spec fn spec_huge_blocked(self, i3: int, i2: int) -> bool {
        (self.entries[i3].spec_present() && self.entries[i3].spec_huge())
            || (self.children[i3] matches Some(c) && c.spec_huge_blocked(i2))
    }

    /// The tables down to the leaf level already exist.
    pub open spec fn spec_chain(self, i3: int, i2: int) -> bool {
        self.children[i3] matches Some(c) && c.spec_chain(i2)
    }

    /// The leaf entry reached through `(i3, i2, i1)`, where the chain down
    /// to the leaf table exists.
    pub open spec fn spec_leaf_entry(self, i3: int, i2: int, i1: int) -> Option<Entry> {
        match self.children[i3] {
            Some(c) => c.spec_leaf_entry(i2, i1),
            None => None,
        }
    }

    pub fn empty() -> (r: Table3)
        ensures
            r.wf(),
            forall|i: int| 0 <= i < 512 ==> r.entries[i].value == 0
                && !r.entries[i].spec_present(),
            forall|i: int| 0 <= i < 512 ==> r.children[i] is None,
    {
        let mut entries: Vec<Entry> = Vec::new();
        let mut children: Vec<Option<Table2>> = Vec::new();
        let mut k: usize = 0;
        while k < ENTRY_COUNT
            invariant
                entries.len() == k,
                children.len() == k,
                k <= 512,
                forall|i: int| 0 <= i < k ==> entries[i].value == 0
                    && !entries[i].spec_present(),
                forall|i: int| 0 <= i < k ==> children[i] is None,
            decreases 512 - k,
        {
            entries.push(Entry::new_unused());
            children.push(None);
            k += 1;
        }
        Table3 { entries, children }
    }

    pub fn entry(&self, index: usize) -> (r: Entry)
        requires
            self.wf(),
            index < 512,
        ensures
            r == self.entries[index as int],
    {
        self.entries[index]
    }

    /// The next-level table behind entry `index`, if the entry references
    /// one.
    pub fn next_table(&self, index: usize) -> (r: Option<&Table2>)
        requires
            self.wf(),
            index < 512,
        ensures
            match r {
                Some(t) => self.children[index as int] == Some(*t),
                None => self.children[index as int] is None,
            },
    {
        match &self.children[index] {
            Some(t) => Some(t),
            None => None,
        }
    }

    /// Make sure the next-level table behind entry `index` exists; see
    /// `Table2::next_table_create`.
    pub fn next_table_create<A: FrameAllocator>(&mut self, index: usize, allocator: &mut A)
        -> (r: Result<(), MapError>)
        requires
            old(self).wf(),
            index < 512,
        ensures
            final(self).wf(),
            r matches Ok(_) ==> final(self).children[index as int] is Some,
            old(self).children[index as int] is Some ==> r is Ok && *final(self) == *old(self),
            old(self).children[index as int] is Some ==> *final(allocator) == *old(allocator),
            r is Ok && old(self).children[index as int] is None ==> final(self).entries[
                index as int].spec_flags().bits == PRESENT | WRITABLE,
            r is Err ==> *final(self) == *old(self),
            r == Err::<(), MapError>(MapError::HugePageUnsupported) <==> (old(self).entries[
                index as int].spec_present() && old(self).entries[index as int].spec_huge()),
            r == Err::<(), MapError>(MapError::OutOfMemory) ==> old(self).children[index as int]
                is None,
            r is Ok || r == Err::<(), MapError>(MapError::OutOfMemory)
                || r == Err::<(), MapError>(MapError::HugePageUnsupported),
            forall|j: int| 0 <= j < 512 && j != index ==> final(self).children[j]
                == old(self).children[j] && final(self).entries[j] == old(self).entries[j],
            r is Ok && old(self).children[index as int] is None
                ==> (final(self).children[index as int] matches Some(c)
                    && (forall|j: int| 0 <= j < 512 ==> c.entries[j].value == 0
                        && !c.entries[j].spec_present())
                    && (forall|j: int| 0 <= j < 512 ==> c.children[j] is None)),
            forall|j3: int, j2: int, j1: int| 0 <= j3 < 512 && 0 <= j2 < 512 && 0 <= j1 < 512
                ==> final(self).spec_lookup(j3, j2, j1) == old(self).spec_lookup(j3, j2, j1),
    {
        let e = self.entries[index];
        proof {
            assert(old(self).wf_at(index as int));
            lemma_clean_unused(e);
        }
        if e.is_unused() {
            match allocator.allocate_frame() {
                None => Err(MapError::OutOfMemory),
                Some(frame) => {
                    let tf = table_flags();
                    let slot = &mut self.entries[index];
                    slot.set(frame, tf);
                    let child_slot = &mut self.children[index];
                    *child_slot = Some(Table2::empty());
                    proof {
                        assert forall|i: int| 0 <= i < 512 implies self.wf_at(i) by {
                            if i != index {
                                assert(old(self).wf_at(i));
                            }
                        }
                        assert forall|j3: int, j2: int, j1: int| 0 <= j3 < 512 && 0 <= j2 < 512
                            && 0 <= j1 < 512 implies self.spec_lookup(j3, j2, j1) == old(
                            self).spec_lookup(j3, j2, j1) by {
                            if j3 == index {
                                assert(old(self).spec_lookup(j3, j2, j1) is None);
                                assert(self.spec_lookup(j3, j2, j1) is None);
                            }
                        }
                    }
                    Ok(())
                },
            }
        } else if e.is_huge() {
            Err(MapError::HugePageUnsupported)
        } else {
            proof {
                assert(self.children[index as int] is Some);
            }
            Ok(())
        }
    }

    /// Install a 4 KiB mapping at `(i3, i2, i1)`, creating intermediate
    /// tables on demand.
    pub fn map_to<A: FrameAllocator>(&mut self, i3: usize, i2: usize, i1: usize, frame: Frame,
        flags: EntryFlags, allocator: &mut A) -> (r: Result<(), MapError>)
        requires
            old(self).wf(),
            i3 < 512,
            i2 < 512,
            i1 < 512,
            frame.number < MAX_FRAME_NUMBER,
            flags.wf(),
        ensures
            final(self).wf(),
            r is Ok ==> final(self).spec_lookup(i3 as int, i2 as int, i1 as int) == Some(
                frame.number as int) && final(self).spec_mapped(i3 as int, i2 as int, i1 as int),
            r is Ok ==> (final(self).spec_leaf_entry(i3 as int, i2 as int, i1 as int) matches
                Some(e) && e.spec_present() && e.spec_frame_number() == frame.number
                && e.spec_flags().bits == flags.bits | PRESENT),
            old(self).children[i3 as int] is Some ==> final(self).children[i3 as int] is Some,
            old(self).spec_chain(i3 as int, i2 as int) ==> final(self).spec_chain(i3 as int,
                i2 as int),
            old(self).spec_chain(i3 as int, i2 as int) ==> *final(allocator) == *old(allocator),
            forall|j3: int, j2: int, j1: int| 0 <= j3 < 512 && 0 <= j2 < 512 && 0 <= j1 < 512
                && !(j3 == i3 && j2 == i2 && j1 == i1) ==> final(self).spec_lookup(j3, j2, j1)
                == old(self).spec_lookup(j3, j2, j1),
            r is Err ==> final(self).spec_lookup(i3 as int, i2 as int, i1 as int) == old(
                self).spec_lookup(i3 as int, i2 as int, i1 as int),
            r == Err::<(), MapError>(MapError::AlreadyMapped) <==> old(self).spec_mapped(
                i3 as int, i2 as int, i1 as int),
            r == Err::<(), MapError>(MapError::HugePageUnsupported) <==> old(
                self).spec_huge_blocked(i3 as int, i2 as int),
            r == Err::<(), MapError>(MapError::OutOfMemory) ==> !old(self).spec_chain(i3 as int,
                i2 as int),
            old(self).spec_chain(i3 as int, i2 as int) && !old(self).spec_mapped(i3 as int,
                i2 as int, i1 as int) && !old(self).spec_huge_blocked(i3 as int, i2 as int)
                ==> r is Ok,
            r is Ok || r == Err::<(), MapError>(MapError::AlreadyMapped) || r == Err::<(),
                MapError>(MapError::OutOfMemory) || r == Err::<(), MapError>(
                MapError::HugePageUnsupported),
            r == Err::<(), MapError>(MapError::AlreadyMapped) || r == Err::<(), MapError>(
                MapError::HugePageUnsupported) ==> (final(self).entries == old(self).entries
                && forall|j: int| 0 <= j < 512 ==> final(self).children[j] == old(
                self).children[j]),
    {
        match self.next_table_create(i3, allocator) {
            Err(e) => {
                return Err(e);
            },
            Ok(()) => {},
        }
        let ghost mid = *self;
        proof {
            assert(self.wf_at(i3 as int));
        }
        let r = match &mut self.children[i3] {
            Some(child) => child.map_to(i2, i1, frame, flags, allocator),
            None => {
                proof {
                    assert(false);
                }
                Err(MapError::OutOfMemory)
            },
        };
        proof {
            if old(self).children[i3 as int] is Some {
                assert(mid == *old(self));
            } else {
                let c = mid.children[i3 as int]->0;
                assert(!c.spec_mapped(i2 as int, i1 as int));
                assert(!c.spec_huge_blocked(i2 as int));
                assert(!c.spec_chain(i2 as int));
                assert(!old(self).spec_mapped(i3 as int, i2 as int, i1 as int));
                assert(!old(self).spec_huge_blocked(i3 as int, i2 as int));
                assert(!old(self).spec_chain(i3 as int, i2 as int));
            }
            assert forall|i: int| 0 <= i < 512 implies self.wf_at(i) by {
                if i != i3 {
                    assert(mid.wf_at(i));
                }
            }
            assert forall|j3: int, j2: int, j1: int| 0 <= j3 < 512 && 0 <= j2 < 512 && 0 <= j1
                < 512 && !(j3 == i3 && j2 == i2 && j1 == i1) implies self.spec_lookup(j3, j2, j1)
                == old(self).spec_lookup(j3, j2, j1) by {
                assert(mid.spec_lookup(j3, j2, j1) == old(self).spec_lookup(j3, j2, j1));
                if j3 != i3 {
                    assert(self.spec_lookup(j3, j2, j1) == mid.spec_lookup(j3, j2, j1));
                }
            }
        }
        r
    }

    /// Remove the 4 KiB mapping at `(i3, i2, i1)`.
    pub fn unmap(&mut self, i3: usize, i2: usize, i1: usize) -> (r: Result<(), MapError>)
        requires
            old(self).wf(),
            i3 < 512,
            i2 < 512,
            i1 < 512,
        ensures
            final(self).wf(),
            r is Ok <==> old(self).spec_mapped(i3 as int, i2 as int, i1 as int),
            r == Err::<(), MapError>(MapError::HugePageUnsupported) <==> old(
                self).spec_huge_blocked(i3 as int, i2 as int),
            r == Err::<(), MapError>(MapError::NotMapped) <==> (!old(self).spec_mapped(i3 as int,
                i2 as int, i1 as int) && !old(self).spec_huge_blocked(i3 as int, i2 as int)),
            r is Ok || r == Err::<(), MapError>(MapError::NotMapped) || r == Err::<(), MapError>(
                MapError::HugePageUnsupported),
            r is Ok ==> final(self).spec_lookup(i3 as int, i2 as int, i1 as int) is None
                && !final(self).spec_mapped(i3 as int, i2 as int, i1 as int),
            forall|j3: int, j2: int, j1: int| 0 <= j3 < 512 && 0 <= j2 < 512 && 0 <= j1 < 512
                && !(j3 == i3 && j2 == i2 && j1 == i1) ==> final(self).spec_lookup(j3, j2, j1)
                == old(self).spec_lookup(j3, j2, j1),
            r is Err ==> (final(self).entries == old(self).entries && forall|j: int| 0 <= j < 512
                ==> final(self).children[j] == old(self).children[j]),
            final(self).entries == old(self).entries,
            forall|j: int| 0 <= j < 512 && j != i3 ==> final(self).children[j] == old(
                self).children[j],
            final(self).children[i3 as int] is Some <==> old(self).children[i3 as int] is Some,
            forall|j3: int| 0 <= j3 < 512 ==> (final(self).children[j3] is Some <==> old(
                self).children[j3] is Some),
            forall|j3: int, j2: int| 0 <= j3 < 512 && 0 <= j2 < 512 ==> (final(self).spec_chain(
                j3, j2) <==> old(self).spec_chain(j3, j2)),
    {
        let e = self.entries[i3];
        proof {
            assert(self.wf_at(i3 as int));
            lemma_clean_unused(e);
        }
        if e.is_unused() {
            return Err(MapError::NotMapped);
        }
        if e.is_huge() {
            return Err(MapError::HugePageUnsupported);
        }
        let r = match &mut self.children[i3] {
            Some(child) => child.unmap(i2, i1),
            None => {
                proof {
                    assert(false);
                }
                Err(MapError::NotMapped)
            },
        };
        proof {
            assert forall|i: int| 0 <= i < 512 implies self.wf_at(i) by {
                if i != i3 {
                    assert(old(self).wf_at(i));
                }
            }
            assert forall|j3: int, j2: int, j1: int| 0 <= j3 < 512 && 0 <= j2 < 512 && 0 <= j1
                < 512 && !(j3 == i3 && j2 == i2 && j1 == i1) implies self.spec_lookup(j3, j2, j1)
                == old(self).spec_lookup(j3, j2, j1) by {
                if j3 != i3 {
                    assert(self.spec_lookup(j3, j2, j1) == old(self).spec_lookup(j3, j2, j1));
                }
            }
        }
        r
    }

    /// Install a 1 GiB huge-page mapping in entry `index`. The frame number
    /// must be aligned to the span of a whole level-2 table, and the entry
    /// must be unused.
    pub fn set_huge_entry(&mut self, index: usize, frame: Frame, flags: EntryFlags) -> (r:
        Result<(), MapError>)
        requires
            old(self).wf(),
            index < 512,
            frame.number < MAX_FRAME_NUMBER,
            flags.wf(),
        ensures
            final(self).wf(),
            r == Err::<(), MapError>(MapError::MisalignedHugeFrame) <==> frame.number % 262144
                != 0,
            r == Err::<(), MapError>(MapError::AlreadyMapped) <==> (frame.number % 262144 == 0
                && old(self).entries[index as int].spec_present()),
            r is Ok || r == Err::<(), MapError>(MapError::MisalignedHugeFrame) || r == Err::<(),
                MapError>(MapError::AlreadyMapped),
            r is Err ==> *final(self) == *old(self),
            r is Ok ==> forall|j2: int, j1: int| 0 <= j2 < 512 && 0 <= j1 < 512 ==> final(
                self).spec_lookup(index as int, j2, j1) == Some(frame.number + j2 * 512 + j1),
            r is Ok ==> final(self).entries[index as int].spec_present() && final(self).entries[
                index as int].spec_huge(),
            r is Ok ==> forall|j2: int| final(self).spec_huge_blocked(index as int, j2),
            r is Ok ==> forall|j2: int, j1: int| 0 <= j2 < 512 && 0 <= j1 < 512 ==> old(
                self).spec_lookup(index as int, j2, j1) is None,
            forall|j: int| 0 <= j < 512 && j != index ==> final(self).entries[j] == old(
                self).entries[j] && final(self).children[j] == old(self).children[j],
            forall|j3: int, j2: int, j1: int| 0 <= j3 < 512 && 0 <= j2 < 512 && 0 <= j1 < 512
                && j3 != index ==> final(self).spec_lookup(j3, j2, j1) == old(self).spec_lookup(
                j3, j2, j1),
    {
        if frame.number % 262144 != 0 {
            return Err(MapError::MisalignedHugeFrame);
        }
        let e = self.entries[index];
        proof {
            assert(self.wf_at(index as int));
            lemma_clean_unused(e);
        }
        if !e.is_unused() {
            return Err(MapError::AlreadyMapped);
        }
        let slot = &mut self.entries[index];
        slot.set(frame, flags.union(huge_flag()));
        proof {
            assert forall|i: int| 0 <= i < 512 implies self.wf_at(i) by {
                if i != index {
                    assert(old(self).wf_at(i));
                }
            }
        }
        Ok(())
    }

    /// Install a 2 MiB huge-page mapping at `(i3, i2)`, creating the level-2
    /// table on demand.
    pub fn map_huge<A: FrameAllocator>(&mut self, i3: usize, i2: usize, frame: Frame,
        flags: EntryFlags, allocator: &mut A) -> (r: Result<(), MapError>)
        requires
            old(self).wf(),
            i3 < 512,
            i2 < 512,
            frame.number < MAX_FRAME_NUMBER,
            flags.wf(),
        ensures
            final(self).wf(),
            r == Err::<(), MapError>(MapError::MisalignedHugeFrame) <==> frame.number % 512 != 0,
            r == Err::<(), MapError>(MapError::AlreadyMapped) <==> (frame.number % 512 == 0
                && old(self).children[i3 as int] is Some
                && old(self).children[i3 as int]->0.entries[i2 as int].spec_present()),
            r == Err::<(), MapError>(MapError::HugePageUnsupported) <==> (frame.number % 512 == 0
                && old(self).entries[i3 as int].spec_present() && old(self).entries[
                i3 as int].spec_huge()),
            r == Err::<(), MapError>(MapError::OutOfMemory) ==> old(self).children[i3 as int]
                is None,
            frame.number % 512 == 0 && old(self).children[i3 as int] is Some && !old(
                self).children[i3 as int]->0.entries[i2 as int].spec_present() ==> r is Ok,
            r is Ok ==> forall|j1: int| 0 <= j1 < 512 ==> final(self).spec_lookup(i3 as int,
                i2 as int, j1) == Some(frame.number + j1),
            r is Ok ==> final(self).spec_huge_blocked(i3 as int, i2 as int),
            forall|j3: int, j2: int, j1: int| 0 <= j3 < 512 && 0 <= j2 < 512 && 0 <= j1 < 512
                && !(j3 == i3 && j2 == i2) ==> final(self).spec_lookup(j3, j2, j1) == old(
                self).spec_lookup(j3, j2, j1),
            r is Err ==> forall|j3: int, j2: int, j1: int| 0 <= j3 < 512 && 0 <= j2 < 512 && 0
                <= j1 < 512 ==> final(self).spec_lookup(j3, j2, j1) == old(self).spec_lookup(j3,
                j2, j1),
            r is Ok || r == Err::<(), MapError>(MapError::MisalignedHugeFrame) || r == Err::<(),
                MapError>(MapError::AlreadyMapped) || r == Err::<(), MapError>(
                MapError::OutOfMemory) || r == Err::<(), MapError>(MapError::HugePageUnsupported),
    {
        if frame.number % 512 != 0 {
            return Err(MapError::MisalignedHugeFrame);
        }
        match self.next_table_create(i3, allocator) {
            Err(e) => {
                return Err(e);
            },
            Ok(()) => {},
        }
        let ghost mid = *self;
        proof {
            assert(self.wf_at(i3 as int));
        }
        let r = match &mut self.children[i3] {
            Some(child) => child.set_huge_entry(i2, frame, flags),
            None => {
                proof {
                    assert(false);
                }
                Err(MapError::OutOfMemory)
            },
        };
        proof {
            if old(self).children[i3 as int] is Some {
                assert(mid == *old(self));
            } else {
                let c = mid.children[i3 as int]->0;
                assert(!c.entries[i2 as int].spec_present());
            }
            assert forall|i: int| 0 <= i < 512 implies self.wf_at(i) by {
                if i != i3 {
                    assert(mid.wf_at(i));
                }
            }
            assert forall|j3: int, j2: int, j1: int| 0 <= j3 < 512 && 0 <= j2 < 512 && 0 <= j1
                < 512 && !(j3 == i3 && j2 == i2) implies self.spec_lookup(j3, j2, j1) == old(
                self).spec_lookup(j3, j2, j1) by {
                assert(mid.spec_lookup(j3, j2, j1) == old(self).spec_lookup(j3, j2, j1));
                if j3 != i3 {
                    assert(self.spec_lookup(j3, j2, j1) == mid.spec_lookup(j3, j2, j1));
                }
            }
            if r is Err {
                assert forall|j3: int, j2: int, j1: int| 0 <= j3 < 512 && 0 <= j2 < 512 && 0
                    <= j1 < 512 implies self.spec_lookup(j3, j2, j1) == old(self).spec_lookup(j3,
                    j2, j1) by {
                    assert(mid.spec_lookup(j3, j2, j1) == old(self).spec_lookup(j3, j2, j1));
                    if j3 != i3 {
                        assert(self.spec_lookup(j3, j2, j1) == mid.spec_lookup(j3, j2, j1));
                    }
                }
            }
        }
        r
    }
}

/// The top-level table. Its entries always reference level-3 tables: there
/// are no huge pages at this level.
pub struct Table4 {
    pub entries: Vec<Entry>,
    pub children: Vec<Option<Table3>>,
}

impl Table4 {
    pub open spec fn wf_at(self, i: int) -> bool {
        &&& self.entries[i].clean()
        &&& (self.children[i] is Some <==> (self.entries[i].spec_present()
            && !self.entries[i].spec_huge()))
        &&& (self.children[i] matches Some(c) ==> c.wf())
    }

    pub open spec fn wf(self) -> bool {
        &&& self.entries.len() == 512
        &&& self.children.len() == 512
        &&& forall|i: int| 0 <= i < 512 ==> self.wf_at(i)
    }

    /// The frame reached through the four indices, walking top-down.
    pub open spec fn spec_lookup(self, i4: int, i3: int, i2: int, i1: int) -> Option<int> {
        match self.children[i4] {
            Some(c) => c.spec_lookup(i3, i2, i1),
            None => None,
        }
    }

    /// A 4 KiB mapping is installed at the four indices.
    pub open spec fn spec_mapped(self, i4: int, i3: int, i2: int, i1: int) -> bool {
        self.children[i4] matches Some(c) && c.spec_mapped(i3, i2, i1)
    }

    /// The walk down from this table is cut short by a huge-page mapping or
    /// by a huge top-level entry.
    pub open spec fn spec_huge_blocked(self, i4: int, i3: int, i2: int) -> bool {
        (self.entries[i4].spec_present() && self.entries[i4].spec_huge())
            || (self.children[i4] matches Some(c) && c.spec_huge_blocked(i3, i2))
    }

    /// The walk reaches a huge-page mapping below the top level; exactly then
    /// does a page translate without being 4 KiB-mapped.
    pub open spec fn spec_huge_path(self, i4: int, i3: int, i2: int) -> bool {
        self.children[i4] matches Some(c) && c.spec_huge_blocked(i3, i2)
    }

    /// The tables down to the leaf level already exist.
    pub open spec fn spec_chain(self, i4: int, i3: int, i2: int) -> bool {
        self.children[i4] matches Some(c) && c.spec_chain(i3, i2)
    }

    /// The tables down to the level-2 table already exist.
    pub open spec fn spec_chain2(self, i4: int, i3: int) -> bool {
        self.children[i4] matches Some(c) && c.children[i3] is Some
    }

    /// The leaf entry reached through the four indices, where the chain down
    /// to the leaf table exists.
    pub open spec fn spec_leaf_entry(self, i4: int, i3: int, i2: int, i1: int) -> Option<Entry> {
        match self.children[i4] {
            Some(c) => c.spec_leaf_entry(i3, i2, i1),
            None => None,
        }
    }

    pub fn empty() -> (r: Table4)
        ensures
            r.wf(),
            forall|i: int| 0 <= i < 512 ==> r.entries[i].value == 0
                && !r.entries[i].spec_present(),
            forall|i: int| 0 <= i < 512 ==> r.children[i] is None,
            forall|j4: int, j3: int, j2: int, j1: int| 0 <= j4 < 512 ==> r.spec_lookup(j4, j3,
                j2, j1) is None,
    {
        let mut entries: Vec<Entry> = Vec::new();
        let mut children: Vec<Option<Table3>> = Vec::new();
        let mut k: usize = 0;
        while k < ENTRY_COUNT
            invariant
                entries.len() == k,
                children.len() == k,
                k <= 512,
                forall|i: int| 0 <= i < k ==> entries[i].value == 0
                    && !entries[i].spec_present(),
                forall|i: int| 0 <= i < k ==> children[i] is None,
            decreases 512 - k,
        {
            entries.push(Entry::new_unused());
            children.push(None);
            k += 1;
        }
        Table4 { entries, children }
    }

    pub fn entry(&self, index: usize) -> (r: Entry)
        requires
            self.wf(),
            index < 512,
        ensures
            r == self.entries[index as int],
    {
        self.entries[index]
    }

    /// The level-3 table behind entry `index`, if the entry references one.
    pub fn next_table(&self, index: usize) -> (r: Option<&Table3>)
        requires
            self.wf(),
            index < 512,
        ensures
            match r {
                Some(t) => self.children[index as int] == Some(*t),
                None => self.children[index as int] is None,
            },
    {
        match &self.children[index] {
            Some(t) => Some(t),
            None => None,
        }
    }

    /// Make sure the level-3 table behind entry `index` exists; see
    /// `Table2::next_table_create`.
    pub fn next_table_create<A: FrameAllocator>(&mut self, index: usize, allocator: &mut A)
        -> (r: Result<(), MapError>)
        requires
            old(self).wf(),
            index < 512,
        ensures
            final(self).wf(),
            r matches Ok(_) ==> final(self).children[index as int] is Some,
            old(self).children[index as int] is Some ==> r is Ok && *final(self) == *old(self),
            old(self).children[index as int] is Some ==> *final(allocator) == *old(allocator),
            r is Ok && old(self).children[index as int] is None ==> final(self).entries[
                index as int].spec_flags().bits == PRESENT | WRITABLE,
            r is Err ==> *final(self) == *old(self),
            r == Err::<(), MapError>(MapError::HugePageUnsupported) <==> (old(self).entries[
                index as int].spec_present() && old(self).entries[index as int].spec_huge()),
            r == Err::<(), MapError>(MapError::OutOfMemory) ==> old(self).children[index as int]
                is None,
            r is Ok || r == Err::<(), MapError>(MapError::OutOfMemory)
                || r == Err::<(), MapError>(MapError::HugePageUnsupported),
            forall|j: int| 0 <= j < 512 && j != index ==> final(self).children[j]
                == old(self).children[j] && final(self).entries[j] == old(self).entries[j],
            r is Ok && old(self).children[index as int] is None
                ==> (final(self).children[index as int] matches Some(c)
                    && (forall|j: int| 0 <= j < 512 ==> c.entries[j].value == 0
                        && !c.entries[j].spec_present())
                    && (forall|j: int| 0 <= j < 512 ==> c.children[j] is None)),
            forall|j4: int, j3: int, j2: int, j1: int| 0 <= j4 < 512 && 0 <= j3 < 512 && 0 <= j2
                < 512 && 0 <= j1 < 512 ==> final(self).spec_lookup(j4, j3, j2, j1) == old(
                self).spec_lookup(j4, j3, j2, j1),
    {
        let e = self.entries[index];
        proof {
            assert(old(self).wf_at(index as int));
            lemma_clean_unused(e);
        }
        if e.is_unused() {
            match allocator.allocate_frame() {
                None => Err(MapError::OutOfMemory),
                Some(frame) => {
                    let tf = table_flags();
                    let slot = &mut self.entries[index];
                    slot.set(frame, tf);
                    let child_slot = &mut self.children[index];
                    *child_slot = Some(Table3::empty());
                    proof {
                        assert forall|i: int| 0 <= i < 512 implies self.wf_at(i) by {
                            if i != index {
                                assert(old(self).wf_at(i));
                            }
                        }
                        assert forall|j4: int, j3: int, j2: int, j1: int| 0 <= j4 < 512 && 0
                            <= j3 < 512 && 0 <= j2 < 512 && 0 <= j1 < 512 implies
                            self.spec_lookup(j4, j3, j2, j1) == old(self).spec_lookup(j4, j3, j2,
                            j1) by {
                            if j4 == index {
                                assert(old(self).spec_lookup(j4, j3, j2, j1) is None);
                                assert(self.spec_lookup(j4, j3, j2, j1) is None);
                            }
                        }
                    }
                    Ok(())
                },
            }
        } else if e.is_huge() {
            Err(MapError::HugePageUnsupported)
        } else {
            proof {
                assert(self.children[index as int] is Some);
            }
            Ok(())
        }
    }

    /// Install a 4 KiB mapping at the four indices, creating intermediate
    /// tables on demand.
    pub fn map_to<A: FrameAllocator>(&mut self, i4: usize, i3: usize, i2: usize, i1: usize,
        frame: Frame, flags: EntryFlags, allocator: &mut A) -> (r: Result<(), MapError>)
        requires
            old(self).wf(),
            i4 < 512,
            i3 < 512,
            i2 < 512,
            i1 < 512,
            frame.number < MAX_FRAME_NUMBER,
            flags.wf(),
        ensures
            final(self).wf(),
            r is Ok ==> final(self).spec_lookup(i4 as int, i3 as int, i2 as int, i1 as int)
                == Some(frame.number as int) && final(self).spec_mapped(i4 as int, i3 as int,
                i2 as int, i1 as int),
            r is Ok ==> (final(self).spec_leaf_entry(i4 as int, i3 as int, i2 as int, i1 as int)
                matches Some(e) && e.spec_present() && e.spec_frame_number() == frame.number
                && e.spec_flags().bits == flags.bits | PRESENT),
            old(self).children[i4 as int] is Some ==> final(self).children[i4 as int] is Some,
            old(self).spec_chain2(i4 as int, i3 as int) ==> final(self).spec_chain2(i4 as int,
                i3 as int),
            old(self).spec_chain(i4 as int, i3 as int, i2 as int) ==> final(self).spec_chain(
                i4 as int, i3 as int, i2 as int),
            old(self).spec_chain(i4 as int, i3 as int, i2 as int) ==> *final(allocator) == *old(
                allocator),
            forall|j4: int, j3: int, j2: int, j1: int| 0 <= j4 < 512 && 0 <= j3 < 512 && 0 <= j2
                < 512 && 0 <= j1 < 512 && !(j4 == i4 && j3 == i3 && j2 == i2 && j1 == i1)
                ==> final(self).spec_lookup(j4, j3, j2, j1) == old(self).spec_lookup(j4, j3, j2,
                j1),
            r is Err ==> final(self).spec_lookup(i4 as int, i3 as int, i2 as int, i1 as int)
                == old(self).spec_lookup(i4 as int, i3 as int, i2 as int, i1 as int),
            r == Err::<(), MapError>(MapError::AlreadyMapped) <==> old(self).spec_mapped(
                i4 as int, i3 as int, i2 as int, i1 as int),
            r == Err::<(), MapError>(MapError::HugePageUnsupported) <==> old(
                self).spec_huge_blocked(i4 as int, i3 as int, i2 as int),
            r == Err::<(), MapError>(MapError::OutOfMemory) ==> !old(self).spec_chain(i4 as int,
                i3 as int, i2 as int),
            old(self).spec_chain(i4 as int, i3 as int, i2 as int) && !old(self).spec_mapped(
                i4 as int, i3 as int, i2 as int, i1 as int) && !old(self).spec_huge_blocked(
                i4 as int, i3 as int, i2 as int) ==> r is Ok,
            r is Ok || r == Err::<(), MapError>(MapError::AlreadyMapped) || r == Err::<(),
                MapError>(MapError::OutOfMemory) || r == Err::<(), MapError>(
                MapError::HugePageUnsupported),
    {
        match self.next_table_create(i4, allocator) {
            Err(e) => {
                return Err(e);
            },
            Ok(()) => {},
        }
        let ghost mid = *self;
        proof {
            assert(self.wf_at(i4 as int));
        }
        let r = match &mut self.children[i4] {
            Some(child) => child.map_to(i3, i2, i1, frame, flags, allocator),
            None => {
                proof {
                    assert(false);
                }
                Err(MapError::OutOfMemory)
            },
        };
        proof {
            if old(self).children[i4 as int] is Some {
                assert(mid == *old(self));
            } else {
                let c = mid.children[i4 as int]->0;
                assert(!c.spec_mapped(i3 as int, i2 as int, i1 as int));
                assert(!c.spec_huge_blocked(i3 as int, i2 as int));
                assert(!c.spec_chain(i3 as int, i2 as int));
                assert(!old(self).spec_mapped(i4 as int, i3 as int, i2 as int, i1 as int));
                assert(!old(self).spec_huge_blocked(i4 as int, i3 as int, i2 as int));
                assert(!old(self).spec_chain(i4 as int, i3 as int, i2 as int));
            }
            assert forall|i: int| 0 <= i < 512 implies self.wf_at(i) by {
                if i != i4 {
                    assert(mid.wf_at(i));
                }
            }
            assert forall|j4: int, j3: int, j2: int, j1: int| 0 <= j4 < 512 && 0 <= j3 < 512 && 0
                <= j2 < 512 && 0 <= j1 < 512 && !(j4 == i4 && j3 == i3 && j2 == i2 && j1 == i1)
                implies self.spec_lookup(j4, j3, j2, j1) == old(self).spec_lookup(j4, j3, j2, j1)
                by {
                assert(mid.spec_lookup(j4, j3, j2, j1) == old(self).spec_lookup(j4, j3, j2, j1));
                if j4 != i4 {
                    assert(self.spec_lookup(j4, j3, j2, j1) == mid.spec_lookup(j4, j3, j2, j1));
                }
            }
        }
        r
    }

    /// Remove the 4 KiB mapping at the four indices.
    pub fn unmap(&mut self, i4: usize, i3: usize, i2: usize, i1: usize) -> (r: Result<(),
        MapError>)
        requires
            old(self).wf(),
            i4 < 512,
            i3 < 512,
            i2 < 512,
            i1 < 512,
        ensures
            final(self).wf(),
            r is Ok <==> old(self).spec_mapped(i4 as int, i3 as int, i2 as int, i1 as int),
            r == Err::<(), MapError>(MapError::HugePageUnsupported) <==> old(self).spec_huge_path(
                i4 as int, i3 as int, i2 as int),
            r == Err::<(), MapError>(MapError::NotMapped) <==> (!old(self).spec_mapped(i4 as int,
                i3 as int, i2 as int, i1 as int) && !old(self).spec_huge_path(i4 as int,
                i3 as int, i2 as int)),
            r is Ok || r == Err::<(), MapError>(MapError::NotMapped) || r == Err::<(), MapError>(
                MapError::HugePageUnsupported),
            r is Ok ==> final(self).spec_lookup(i4 as int, i3 as int, i2 as int, i1 as int)
                is None && !final(self).spec_mapped(i4 as int, i3 as int, i2 as int, i1 as int),
            forall|j4: int, j3: int, j2: int, j1: int| 0 <= j4 < 512 && 0 <= j3 < 512 && 0 <= j2
                < 512 && 0 <= j1 < 512 && !(j4 == i4 && j3 == i3 && j2 == i2 && j1 == i1)
                ==> final(self).spec_lookup(j4, j3, j2, j1) == old(self).spec_lookup(j4, j3, j2,
                j1),
            r is Err ==> final(self).spec_lookup(i4 as int, i3 as int, i2 as int, i1 as int)
                == old(self).spec_lookup(i4 as int, i3 as int, i2 as int, i1 as int),
            final(self).entries == old(self).entries,
            forall|j4: int| 0 <= j4 < 512 ==> (final(self).children[j4] is Some <==> old(
                self).children[j4] is Some),
            forall|j4: int, j3: int| 0 <= j4 < 512 && 0 <= j3 < 512 ==> (final(self).spec_chain2(
                j4, j3) <==> old(self).spec_chain2(j4, j3)),
            forall|j4: int, j3: int, j2: int| 0 <= j4 < 512 && 0 <= j3 < 512 && 0 <= j2 < 512
                ==> (final(self).spec_chain(j4, j3, j2) <==> old(self).spec_chain(j4, j3, j2)),
    {
        let e = self.entries[i4];
        proof {
            assert(self.wf_at(i4 as int));
            lemma_clean_unused(e);
        }
        if e.is_unused() {
            return Err(MapError::NotMapped);
        }
        if e.is_huge() {
            return Err(MapError::NotMapped);
        }
        let r = match &mut self.children[i4] {
            Some(child) => child.unmap(i3, i2, i1),
            None => {
                proof {
                    assert(false);
                }
                Err(MapError::NotMapped)
            },
        };
        proof {
            assert forall|i: int| 0 <= i < 512 implies self.wf_at(i) by {
                if i != i4 {
                    assert(old(self).wf_at(i));
                }
            }
            assert forall|j4: int, j3: int, j2: int, j1: int| 0 <= j4 < 512 && 0 <= j3 < 512 && 0
                <= j2 < 512 && 0 <= j1 < 512 && !(j4 == i4 && j3 == i3 && j2 == i2 && j1 == i1)
                implies self.spec_lookup(j4, j3, j2, j1) == old(self).spec_lookup(j4, j3, j2, j1)
                by {
                if j4 != i4 {
                    assert(self.spec_lookup(j4, j3, j2, j1) == old(self).spec_lookup(j4, j3, j2,
                        j1));
                }
            }
        }
        r
    }
}

/// A level-2 lookup finds a frame exactly when a 4 KiB mapping is installed
/// or a huge-page entry sits on the walk.
pub proof fn lemma_lookup_some2(t: Table2, i2: int, i1: int)
    ensures
        t.spec_lookup(i2, i1) is Some <==> (t.spec_mapped(i2, i1) || t.spec_huge_blocked(i2)),
{
}

/// A level-3 lookup finds a frame exactly when a 4 KiB mapping is installed
/// or a huge-page entry sits on the walk.
pub proof fn lemma_lookup_some3(t: Table3, i3: int, i2: int, i1: int)
    ensures
        t.spec_lookup(i3, i2, i1) is Some <==> (t.spec_mapped(i3, i2, i1)
            || t.spec_huge_blocked(i3, i2)),
{
    if t.children[i3] is Some {
        lemma_lookup_some2(t.children[i3]->0, i2, i1);
    }
}

/// A full walk finds a frame exactly when a 4 KiB mapping is installed or a
/// huge-page entry sits on the walk below the top level.
pub proof fn lemma_lookup_some4(t: Table4, i4: int, i3: int, i2: int, i1: int)
    ensures
        t.spec_lookup(i4, i3, i2, i1) is Some <==> (t.spec_mapped(i4, i3, i2, i1)
            || t.spec_huge_path(i4, i3, i2)),
{
    if t.children[i4] is Some {
        lemma_lookup_some3(t.children[i4]->0, i3, i2, i1);
    }
}

} // verus!
