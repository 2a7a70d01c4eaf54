//! Pages of virtual address space and their decomposition into the four
//! 9-bit table indices.
use vstd::prelude::*;

use crate::PAGE_SIZE;

verus! {

/// A virtual address is canonical when its high bits sign-extend bit 47.
pub open spec fn canonical_address(vaddr: u64) -> bool {
    vaddr < 0x8000_0000_0000 || vaddr >= 0xffff_8000_0000_0000
}

/// One page of virtual address space, identified by its number
/// (virtual address divided by the page size).
#[derive(Clone, Copy, PartialEq, Eq, Structural, Debug)]
pub struct Page {
    pub number: u64,
}

/// The page holding the given virtual address.
pub open spec fn spec_page_containing(vaddr: u64) -> Page {
    Page { number: vaddr / PAGE_SIZE }
}

impl Page {
    /// The page numbers of canonical addresses: 52-bit values whose bits
    /// above bit 35 sign-extend bit 35.
    pub open spec fn wf(self) -> bool {
        self.number < 0x8_0000_0000 || (0xf_fff8_0000_0000 <= self.number
            && self.number < 0x10_0000_0000_0000)
    }

    pub open spec fn spec_p4_index(self) -> int {
        (self.number as int / 0x800_0000) % 512
    }

    pub open spec fn spec_p3_index(self) -> int {
        (self.number as int / 0x4_0000) % 512
    }

    pub open spec fn spec_p2_index(self) -> int {
        (self.number as int / 512) % 512
    }

    pub open spec fn spec_p1_index(self) -> int {
        self.number as int % 512
    }

    /// The page holding the given virtual address.
    pub fn containing(vaddr: crate::VirtualAddress) -> (r: Page)
        requires
            canonical_address(vaddr),
        ensures
            r == spec_page_containing(vaddr),
            r.wf(),
    {
        proof {
            let a = vaddr;
            assert(a < 0x8000_0000_0000 ==> a / 4096 < 0x8_0000_0000) by (nonlinear_arith);
            if a >= 0xffff_8000_0000_0000 {
                vstd::arithmetic::div_mod::lemma_div_multiples_vanish(0xf_fff8_0000_0000, 4096);
                vstd::arithmetic::div_mod::lemma_div_is_ordered(0xffff_8000_0000_0000, a as int,
                    4096);
                assert(4096 * 0xf_fff8_0000_0000 == 0xffff_8000_0000_0000int);
                assert(a / 4096 >= 0xf_fff8_0000_0000);
            }
            assert(a / 4096 < 0x10_0000_0000_0000) by (nonlinear_arith);
        }
        Page { number: vaddr / PAGE_SIZE }
    }

    /// The canonical address at which the page starts.
    pub fn start(self) -> (r: crate::VirtualAddress)
        requires
            self.wf(),
        ensures
            r == self.number * PAGE_SIZE,
            canonical_address(r),
            spec_page_containing(r) == self,
    {
        self.number * PAGE_SIZE
    }

    /// Index into the top-level table.
    pub fn p4_index(&self) -> (r: usize)
        ensures
            r == self.spec_p4_index(),
            r < 512,
    {
        ((self.number / 0x800_0000) % 512) as usize
    }

    /// Index into the level-3 table.
    pub fn p3_index(&self) -> (r: usize)
        ensures
            r == self.spec_p3_index(),
            r < 512,
    {
        ((self.number / 0x4_0000) % 512) as usize
    }

    /// Index into the level-2 table.
    pub fn p2_index(&self) -> (r: usize)
        ensures
            r == self.spec_p2_index(),
            r < 512,
    {
        ((self.number / 512) % 512) as usize
    }

    /// Index into the leaf table.
    pub fn p1_index(&self) -> (r: usize)
        ensures
            r == self.spec_p1_index(),
            r < 512,
    {
        (self.number % 512) as usize
    }
}

/// Two canonical pages with the same four table indices are the same page:
/// a full walk never confuses two distinct pages.
pub proof fn lemma_page_indices_injective(p: Page, q: Page)
    requires
        p.wf(),
        q.wf(),
        p.spec_p4_index() == q.spec_p4_index(),
        p.spec_p3_index() == q.spec_p3_index(),
        p.spec_p2_index() == q.spec_p2_index(),
        p.spec_p1_index() == q.spec_p1_index(),
    ensures
        p == q,
{
    let a = p.number;
    let b = q.number;
    assert(a == b) by (bit_vector)
        requires
            a < 0x8_0000_0000 || (0xf_fff8_0000_0000 <= a && a < 0x10_0000_0000_0000),
            b < 0x8_0000_0000 || (0xf_fff8_0000_0000 <= b && b < 0x10_0000_0000_0000),
            (a / 0x800_0000) % 512 == (b / 0x800_0000) % 512,
            (a / 0x4_0000) % 512 == (b / 0x4_0000) % 512,
            (a / 512) % 512 == (b / 512) % 512,
            a % 512 == b % 512,
    ;
}

} // verus!
