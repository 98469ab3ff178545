//! Identity mapping: which pages a range of addresses covers, and the frame
//! and flags with which each of them is mapped.

use vstd::prelude::*;

verus! {

/// The size of a page in bytes.
pub const PAGE_SIZE: u64 = 4096;

/// The addresses below this bound are valid both as virtual and as
/// physical addresses, so a page below it can be mapped to itself.
pub const ADDRESS_LIMIT: u64 = 0x8000_0000_0000;

/// The flag of a page that is present.
pub const PRESENT: u64 = 1;

/// The flag of a page that may be written.
pub const WRITABLE: u64 = 2;

/// One mapping to make: the start address of the page, that of the frame,
/// and the flags of the page.
#[derive(Debug, Clone, Copy, PartialEq, Eq, Structural)]
pub struct Mapping {
    pub page: u64,
    pub frame: u64,
    pub flags: u64,
}

/// The mapping of a page to the frame at the same address, present and
/// writable.
pub open spec fn identity_mapping(page: u64) -> Mapping {
    Mapping { page, frame: page, flags: 3 }
}

/// The start addresses of the pages that hold the addresses from
/// `start_addr` up to, but not including, `end_addr`: from the page of
/// `start_addr` to the page of the last address, in rising order.
pub open spec fn identity_pages(start_addr: u64, end_addr: u64) -> Seq<u64> {
    let first = start_addr as int / PAGE_SIZE as int;
    let last = (end_addr - 1) / PAGE_SIZE as int;
    if first <= last {
        Seq::new((last + 1 - first) as nat, |k: int| ((first + k) * PAGE_SIZE) as u64)
    } else {
        Seq::empty()
    }
}

/// The pages of a range that are still to be mapped.
pub struct IdentityRange {
    next: u64,
    end: u64,
}

impl IdentityRange {
    /// The page numbers are page numbers of addresses below the limit.
    pub closed spec fn wf(&self) -> bool {
        self.end <= ADDRESS_LIMIT / PAGE_SIZE
    }

    /// The start addresses of the pages still to be mapped, in rising
    /// order.
    pub closed spec fn view(&self) -> Seq<u64> {
        if self.next < self.end {
            Seq::new(
                (self.end - self.next) as nat,
                |k: int| ((self.next + k) * PAGE_SIZE) as u64,
            )
        } else {
            Seq::empty()
        }
    }

    /// The next mapping to make, if any page is left: the lowest page that
    /// is still to be mapped, onto the frame at its own address.
    pub fn next_mapping(&mut self) -> (mapping: Option<Mapping>)
        requires
            old(self).wf(),
        ensures
            final(self).wf(),
            old(self)@.len() > 0 ==> mapping == Some(identity_mapping(old(self)@.first()))
                && final(self)@ == old(self)@.drop_first(),
            old(self)@.len() == 0 ==> mapping.is_none() && final(self)@ == old(self)@,
    {
        if self.next < self.end {
            let page = self.next * PAGE_SIZE;
            self.next = self.next + 1;
            assert(self@ =~= old(self)@.drop_first());
            assert(1u64 | 2u64 == 3u64) by (bit_vector);
            Some(Mapping { page, frame: page, flags: PRESENT | WRITABLE })
        } else {
            None
        }
    }
}

/// Plans the identity mapping of the addresses from `start_addr` up to, but
/// not including, `end_addr`: the pages to map, each onto the frame at its
/// own address, present and writable. The caller makes the mappings one by
/// one and stops at the first that fails.
pub fn identity_map_range(start_addr: u64, end_addr: u64) -> (range: IdentityRange)
    requires
        start_addr < ADDRESS_LIMIT,
        1 <= end_addr <= ADDRESS_LIMIT,
    ensures
        range.wf(),
        range@ == identity_pages(start_addr, end_addr),
{
    let first = start_addr / PAGE_SIZE;
    let last = (end_addr - 1) / PAGE_SIZE;
    let range = IdentityRange { next: first, end: last + 1 };
    assert(range@ =~= identity_pages(start_addr, end_addr));
    range
}

} // verus!
