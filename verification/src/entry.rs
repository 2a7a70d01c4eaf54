//! One slot of a page table: a machine word packing a present bit, permission
//! bits, a huge-page bit and a 40-bit frame number.
use vstd::prelude::*;

use crate::mem::Frame;

verus! {

/// The entry maps something the hardware may use.
pub const PRESENT: u64 = 0x1;
/// Writes through this mapping are allowed.
pub const WRITABLE: u64 = 0x2;
/// User-mode code may use this mapping.
pub const USER_ACCESSIBLE: u64 = 0x4;
/// Writes go directly to memory.
pub const WRITE_THROUGH: u64 = 0x8;
/// No cache is used for this mapping.
pub const NO_CACHE: u64 = 0x10;
/// The hardware sets this bit when the mapping is used.
pub const ACCESSED: u64 = 0x20;
/// The hardware sets this bit on a write through the mapping.
pub const DIRTY: u64 = 0x40;
/// The entry terminates translation itself instead of referencing a
/// next-level table.
pub const HUGE_PAGE: u64 = 0x80;
/// The mapping survives an address-space switch.
pub const GLOBAL: u64 = 0x100;
/// Code must not be fetched from this mapping.
pub const NO_EXECUTE: u64 = 0x8000_0000_0000_0000;

/// Bits 12..52 of an entry: the referenced frame number, shifted left by 12.
pub const FRAME_MASK: u64 = 0x000f_ffff_ffff_f000;
/// All bits of an entry that are not the frame-number field.
pub const FLAGS_MASK: u64 = 0xfff0_0000_0000_0fff;
/// Exclusive upper bound of the frame numbers an entry can hold.
pub const MAX_FRAME_NUMBER: u64 = 0x100_0000_0000;

/// A set of permission and attribute bits of a table entry.
#[derive(Clone, Copy, PartialEq, Eq, Structural, Debug)]
pub struct EntryFlags {
    pub bits: u64,
}

impl EntryFlags {
    /// A valid flag set never intrudes on the frame-number field.
    pub open spec fn wf(self) -> bool {
        self.bits & FRAME_MASK == 0
    }

    pub open spec fn spec_contains(self, other: EntryFlags) -> bool {
        self.bits & other.bits == other.bits
    }

    pub open spec fn spec_huge(self) -> bool {
        self.bits & HUGE_PAGE != 0
    }

    /// Build a flag set from raw bits; bits inside the frame-number field are
    /// discarded.
    pub fn new(bits: u64) -> (r: EntryFlags)
        ensures
            r.bits == bits & FLAGS_MASK,
            r.wf(),
            bits & FRAME_MASK == 0 ==> r.bits == bits,
            r.spec_huge() == (bits & HUGE_PAGE != 0),
    {
        proof {
            lemma_truncate_flags(bits);
        }
        EntryFlags { bits: bits & FLAGS_MASK }
    }

    /// The flag set with no bit raised.
    pub fn empty() -> (r: EntryFlags)
        ensures
            r.bits == 0,
            r.wf(),
            !r.spec_huge(),
    {
        proof {
            assert(0u64 & 0x000f_ffff_ffff_f000 == 0 && 0u64 & 0x80 == 0) by (bit_vector);
        }
        EntryFlags { bits: 0 }
    }

    pub fn contains(&self, other: EntryFlags) -> (r: bool)
        ensures
            r == self.spec_contains(other),
    {
        self.bits & other.bits == other.bits
    }

    /// The flag set holding every bit of `self` and of `other`.
    pub fn union(self, other: EntryFlags) -> (r: EntryFlags)
        ensures
            r.bits == self.bits | other.bits,
            self.wf() && other.wf() ==> r.wf(),
            r.spec_huge() == (self.spec_huge() || other.spec_huge()),
    {
        proof {
            let a = self.bits;
            let b = other.bits;
            assert((a & 0x000f_ffff_ffff_f000 == 0 && b & 0x000f_ffff_ffff_f000 == 0 ==> (a | b)
                & 0x000f_ffff_ffff_f000 == 0) && (((a | b) & 0x80 != 0) == (a & 0x80 != 0 || b
                & 0x80 != 0))) by (bit_vector);
        }
        EntryFlags { bits: self.bits | other.bits }
    }
}

/// The flags a freshly created intermediate table is installed with: present
/// and writable, not user accessible.
pub fn table_flags() -> (r: EntryFlags)
    ensures
        r.wf(),
        !r.spec_huge(),
        r.bits == PRESENT | WRITABLE,
        r.bits | PRESENT == r.bits,
{
    proof {
        assert(0x1u64 | 0x2 == 0x3 && 0x3u64 & 0x000f_ffff_ffff_f000 == 0 && 0x3u64 & 0x80 == 0
            && 0x3u64 | 0x1 == 0x3) by (bit_vector);
    }
    EntryFlags { bits: PRESENT | WRITABLE }
}

/// The flag set holding exactly the huge-page bit.
pub fn huge_flag() -> (r: EntryFlags)
    ensures
        r.wf(),
        r.spec_huge(),
        r.bits == HUGE_PAGE,
{
    proof {
        assert(0x80u64 & 0x000f_ffff_ffff_f000 == 0 && 0x80u64 & 0x80 != 0) by (bit_vector);
    }
    EntryFlags { bits: HUGE_PAGE }
}

/// One slot of a page table.
#[derive(Clone, Copy, PartialEq, Eq, Structural, Debug)]
pub struct Entry {
    pub value: u64,
}

impl Entry {
    /// The present bit is raised.
    pub open spec fn spec_present(self) -> bool {
        self.value & PRESENT != 0
    }

    /// The huge-page bit is raised.
    pub open spec fn spec_huge(self) -> bool {
        self.value & HUGE_PAGE != 0
    }

    /// The frame number held in bits 12..52.
    pub open spec fn spec_frame_number(self) -> u64 {
        (self.value & FRAME_MASK) >> 12
    }

    /// The permission and attribute bits, with the frame-number field blanked.
    pub open spec fn spec_flags(self) -> EntryFlags {
        EntryFlags { bits: self.value & FLAGS_MASK }
    }

    /// An entry of this crate's tables is either a live mapping or all zero:
    /// nothing ever leaves a stale non-present value behind.
    pub open spec fn clean(self) -> bool {
        self.spec_present() || self.value == 0
    }

    /// The all-zero entry.
    pub fn new_unused() -> (r: Entry)
        ensures
            r.value == 0,
            !r.spec_present(),
            !r.spec_huge(),
            r.clean(),
    {
        proof {
            lemma_zero_entry();
        }
        Entry { value: 0 }
    }

    pub fn is_unused(&self) -> (r: bool)
        ensures
            r == (self.value == 0),
    {
        self.value == 0
    }

    pub fn is_huge(&self) -> (r: bool)
        ensures
            r == self.spec_huge(),
    {
        self.value & HUGE_PAGE != 0
    }

    /// Zero the slot.
    pub fn set_unused(&mut self)
        ensures
            final(self).value == 0,
            !final(self).spec_present(),
            final(self).clean(),
    {
        proof {
            lemma_zero_entry();
        }
        self.value = 0;
    }

    pub fn flags(&self) -> (r: EntryFlags)
        ensures
            r == self.spec_flags(),
            r.wf(),
    {
        proof {
            lemma_truncate_flags(self.value);
        }
        EntryFlags { bits: self.value & FLAGS_MASK }
    }

    /// The referenced frame, present entries only.
    pub fn frame(&self) -> (r: Option<Frame>)
        ensures
            self.spec_present() ==> r == Some(Frame { number: self.spec_frame_number() }),
            !self.spec_present() ==> r is None,
    {
        if self.value & PRESENT != 0 {
            Some(Frame { number: (self.value & FRAME_MASK) >> 12 })
        } else {
            None
        }
    }

    /// Write the slot: the frame number in bits 12..52, OR-ed with the given
    /// flags and an implicit present bit.
    pub fn set(&mut self, frame: Frame, flags: EntryFlags)
        requires
            frame.number < MAX_FRAME_NUMBER,
            flags.wf(),
        ensures
            final(self).spec_present(),
            final(self).clean(),
            final(self).spec_huge() == flags.spec_huge(),
            final(self).spec_frame_number() == frame.number,
            final(self).spec_flags().bits == flags.bits | PRESENT,
    {
        proof {
            lemma_encode_entry(frame.number, flags.bits);
        }
        self.value = (frame.number << 12) | flags.bits | PRESENT;
    }
}

/// The frame-number field of any entry decodes to less than
/// `MAX_FRAME_NUMBER`.
pub proof fn lemma_frame_number_bound(e: Entry)
    ensures
        e.spec_frame_number() < MAX_FRAME_NUMBER,
{
    let v = e.value;
    assert((v & 0x000f_ffff_ffff_f000) >> 12 < 0x100_0000_0000) by (bit_vector);
}

/// The all-zero entry decodes to nothing.
pub proof fn lemma_zero_entry()
    ensures
        0u64 & PRESENT == 0,
        0u64 & HUGE_PAGE == 0,
        (0u64 & FRAME_MASK) >> 12 == 0,
{
    assert(0u64 & 0x1 == 0 && 0u64 & 0x80 == 0 && (0u64 & 0x000f_ffff_ffff_f000) >> 12 == 0)
        by (bit_vector);
}

/// For the entries of this crate's tables, "all zero" and "not present"
/// coincide.
pub proof fn lemma_clean_unused(e: Entry)
    requires
        e.clean(),
    ensures
        (e.value == 0) <==> !e.spec_present(),
{
    lemma_zero_entry();
}

proof fn lemma_truncate_flags(v: u64)
    ensures
        (v & FLAGS_MASK) & FRAME_MASK == 0,
        v & FRAME_MASK == 0 ==> v & FLAGS_MASK == v,
        (v & FLAGS_MASK) & HUGE_PAGE == v & HUGE_PAGE,
{
    assert((v & 0xfff0_0000_0000_0fff) & 0x000f_ffff_ffff_f000 == 0 && (v & 0x000f_ffff_ffff_f000
        == 0 ==> v & 0xfff0_0000_0000_0fff == v) && (v & 0xfff0_0000_0000_0fff) & 0x80 == v & 0x80)
        by (bit_vector);
}

proof fn lemma_encode_entry(n: u64, f: u64)
    requires
        n < MAX_FRAME_NUMBER,
        f & FRAME_MASK == 0,
    ensures
        ((n << 12) | f | PRESENT) & PRESENT != 0,
        (((n << 12) | f | PRESENT) & HUGE_PAGE != 0) == (f & HUGE_PAGE != 0),
        (((n << 12) | f | PRESENT) & FRAME_MASK) >> 12 == n,
        ((n << 12) | f | PRESENT) & FLAGS_MASK == (f | PRESENT),
{
    assert(((n << 12) | f | 0x1) & 0x1 != 0 && ((((n << 12) | f | 0x1) & 0x80 != 0) == (f & 0x80
        != 0)) && (((n << 12) | f | 0x1) & 0x000f_ffff_ffff_f000) >> 12 == n && ((n << 12) | f
        | 0x1) & 0xfff0_0000_0000_0fff == (f | 0x1)) by (bit_vector)
        requires
            n < 0x100_0000_0000,
            f & 0x000f_ffff_ffff_f000 == 0,
    ;
}

} // verus!
