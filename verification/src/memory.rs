//! The frame allocator: it hands out the usable 4 KiB frames of the memory
//! map that the boot loader reports, one after the other, and never takes
//! one back.

use vstd::prelude::*;

verus! {

/// The size of a frame in bytes.
pub const FRAME_SIZE: u64 = 4096;

/// The number of frames that physical addresses can name.
pub const FRAME_LIMIT: u64 = 0x100_0000_0000;

/// The number of regions that a memory map holds at most.
pub const REGION_LIMIT: usize = 64;

/// A region of physical memory: the frames from `start_frame_number` up to,
/// but not including, `end_frame_number`, and whether they are free to use.
#[derive(Debug, Clone, Copy, PartialEq, Eq, Structural)]
pub struct MemoryRegion {
    pub start_frame_number: u64,
    pub end_frame_number: u64,
    pub usable: bool,
}

impl MemoryRegion {
    /// The region's bounds are frame numbers of physical addresses, and the
    /// end is not frame zero.
    pub open spec fn wf(self) -> bool {
        &&& self.start_frame_number <= FRAME_LIMIT
        &&& 1 <= self.end_frame_number <= FRAME_LIMIT
    }

    /// The start addresses of the frames that the region offers: all of its
    /// frames if it is usable, none otherwise.
    pub open spec fn frames(self) -> Seq<u64> {
        if self.usable && self.end_frame_number > self.start_frame_number {
            Seq::new(
                (self.end_frame_number - self.start_frame_number) as nat,
                |k: int| ((self.start_frame_number + k) * FRAME_SIZE) as u64,
            )
        } else {
            Seq::empty()
        }
    }

    /// Tells whether the region's bounds are in order.
    pub fn is_valid(&self) -> (valid: bool)
        ensures
            valid == self.wf(),
    {
        self.start_frame_number <= FRAME_LIMIT && 1 <= self.end_frame_number
            && self.end_frame_number <= FRAME_LIMIT
    }
}

/// The start addresses of the usable frames of a memory map, region by
/// region.
pub open spec fn usable_frames(regions: Seq<MemoryRegion>) -> Seq<u64>
    decreases regions.len(),
{
    if regions.len() == 0 {
        Seq::empty()
    } else {
        regions.first().frames() + usable_frames(regions.drop_first())
    }
}

/// A memory map that the allocator can work on: no more regions than a map
/// holds, and each usable one with its bounds in order. The bounds of a
/// region that is not usable are never looked at.
pub open spec fn valid_map(regions: Seq<MemoryRegion>) -> bool {
    &&& regions.len() <= REGION_LIMIT
    &&& forall|i: int|
        0 <= i < regions.len() && (#[trigger] regions[i]).usable ==> regions[i].wf()
}

/// Tells whether a memory map is one that the allocator can work on.
pub fn is_valid_map(regions: &Vec<MemoryRegion>) -> (valid: bool)
    ensures
        valid == valid_map(regions@),
{
    if regions.len() > REGION_LIMIT {
        return false;
    }
    let mut i: usize = 0;
    while i < regions.len()
        invariant
            i <= regions.len(),
            forall|k: int| 0 <= k < i && (#[trigger] regions@[k]).usable ==> regions@[k].wf(),
        decreases regions.len() - i,
    {
        if regions[i].usable && !regions[i].is_valid() {
            return false;
        }
        i = i + 1;
    }
    true
}

/// The frame allocator over the boot loader's memory map.
pub struct BootInfoFrameAllocator {
    memory_map: Vec<MemoryRegion>,
    next: u64,
}

impl BootInfoFrameAllocator {
    /// The allocator's memory map is valid.
    pub closed spec fn wf(&self) -> bool {
        valid_map(self.memory_map@)
    }

    /// The memory map.
    pub closed spec fn regions(&self) -> Seq<MemoryRegion> {
        self.memory_map@
    }

    /// The number of frames handed out so far.
    pub closed spec fn allocated(&self) -> nat {
        self.next as nat
    }

    /// An allocator that has handed out no frame of the map yet.
    pub fn init(memory_map: Vec<MemoryRegion>) -> (allocator: Self)
        requires
            valid_map(memory_map@),
        ensures
            allocator.wf(),
            allocator.regions() == memory_map@,
            allocator.allocated() == 0,
    {
        BootInfoFrameAllocator { memory_map, next: 0 }
    }

    /// Hands out the next usable frame, by its start address: the first
    /// call gives the first usable frame of the map, each further call the
    /// one after. When the usable frames are used up, it returns `None` and
    /// changes nothing.
    pub fn allocate_frame(&mut self) -> (frame: Option<u64>)
        requires
            old(self).wf(),
        ensures
            final(self).wf(),
            final(self).regions() == old(self).regions(),
            old(self).allocated() < usable_frames(old(self).regions()).len() ==> frame == Some(
                usable_frames(old(self).regions())[old(self).allocated() as int],
            ) && final(self).allocated() == old(self).allocated() + 1,
            old(self).allocated() >= usable_frames(old(self).regions()).len() ==> frame.is_none()
                && final(self).allocated() == old(self).allocated(),
    {
        let ghost all = self.memory_map@;
        let ghost mut passed: Seq<u64> = Seq::empty();
        let mut remaining: u64 = self.next;
        let mut i: usize = 0;
        assert(all.skip(0) =~= all);
        while i < self.memory_map.len()
            invariant
                i <= self.memory_map.len(),
                self.memory_map@ == all,
                all == old(self).memory_map@,
                self.next == old(self).next,
                valid_map(all),
                usable_frames(all) == passed + usable_frames(all.skip(i as int)),
                passed.len() + remaining == self.next,
                passed.len() <= i * FRAME_LIMIT,
            decreases self.memory_map.len() - i,
        {
            let region = self.memory_map[i];
            proof {
                let rest = all.skip(i as int);
                assert(rest.first() == region);
                assert(rest.drop_first() =~= all.skip(i + 1));
                assert(passed + (region.frames() + usable_frames(all.skip(i + 1))) =~= (passed
                    + region.frames()) + usable_frames(all.skip(i + 1)));
            }
            if region.usable && region.end_frame_number > region.start_frame_number {
                let count = region.end_frame_number - region.start_frame_number;
                if remaining < count {
                    let frame = (region.start_frame_number + remaining) * FRAME_SIZE;
                    assert(usable_frames(all)[self.next as int] == region.frames()[remaining as int]);
                    assert(self.next < (i + 1) * FRAME_LIMIT <= REGION_LIMIT * FRAME_LIMIT) by (nonlinear_arith)
                        requires
                            self.next < passed.len() + count,
                            passed.len() <= i * FRAME_LIMIT,
                            count <= FRAME_LIMIT,
                            i < REGION_LIMIT,
                    ;
                    self.next = self.next + 1;
                    return Some(frame);
                }
                remaining = remaining - count;
            }
            proof {
                passed = passed + region.frames();
                assert((i + 1) * FRAME_LIMIT == i * FRAME_LIMIT + FRAME_LIMIT) by (nonlinear_arith);
            }
            i = i + 1;
        }
        assert(all.skip(i as int) =~= Seq::<MemoryRegion>::empty());
        assert(usable_frames(all) =~= passed);
        None
    }

    /// Takes a frame back. Frames are never reused, so nothing changes.
    pub fn deallocate_frame(&mut self, _frame: u64)
        ensures
            *final(self) == *old(self),
    {
    }
}

} // verus!
