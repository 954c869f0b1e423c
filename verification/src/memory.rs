//! Physical memory: the frame allocator that hands out, one after the
//! other, the 4 KiB frames of the usable regions of the bootloader's memory
//! map, and the pages that a user program's memory occupies.
use vstd::prelude::*;
use crate::addr::{VirtAddr, checked_virt_addr, is_canonical};

verus! {

/// Size of a page and of a frame.
pub const PAGE_SIZE: u64 = 4096;

/// Physical addresses lie below this bound (bits 52 to 64 are never set).
pub const PHYS_ADDR_LIMIT: u64 = 0x0010_0000_0000_0000;

/// A region of the bootloader's memory map: the addresses from
/// `start_addr` up to (not including) `end_addr`, and whether the region is
/// free for the kernel to use.
#[derive(Debug, Clone, Copy, PartialEq, Eq, Structural)]
pub struct MemoryRegion {
    pub start_addr: u64,
    pub end_addr: u64,
    pub usable: bool,
}

/// The start of the 4 KiB frame or page that holds `addr`.
pub open spec fn align_down_4k(addr: int) -> int {
    addr - addr % 4096
}

/// How many frame addresses a region yields: one for every 4 KiB step from
/// its start that stays below its end, and none for an unusable region.
pub open spec fn region_frame_count(r: MemoryRegion) -> nat {
    if r.usable && r.start_addr < r.end_addr {
        ((r.end_addr - r.start_addr + 4095) / 4096) as nat
    } else {
        0
    }
}

/// The frames of a region: for each 4 KiB step from the region's start that
/// stays below its end, the frame that holds that address.
pub open spec fn region_frames(r: MemoryRegion) -> Seq<u64> {
    Seq::new(region_frame_count(r), |k: int| align_down_4k(r.start_addr + k * 4096) as u64)
}

/// The usable frames of a memory map, region after region.
pub open spec fn usable_frames(regions: Seq<MemoryRegion>) -> Seq<u64>
    decreases regions.len(),
{
    if regions.len() == 0 {
        Seq::empty()
    } else {
        usable_frames(regions.drop_last()) + region_frames(regions.last())
    }
}

/// Every usable region lies in the physical address space.
pub open spec fn regions_valid(regions: Seq<MemoryRegion>) -> bool {
    forall|i: int|
        0 <= i < regions.len() && #[trigger] regions[i].usable ==> regions[i].end_addr
            <= PHYS_ADDR_LIMIT
}

/// Calls `PhysFrame::<Size4KiB>::containing_address(PhysAddr::new(addr))`
/// of the x86_64 crate and takes the frame's start address. Its source:
/// `PhysAddr::new` panics when a bit from 52 on is set (ruled out here), and
/// the frame starts at the address aligned down to 4096.
#[verifier::external_body]
fn frame_containing(addr: u64) -> (r: u64)
    requires
        addr < PHYS_ADDR_LIMIT,
    ensures
        r == addr - addr % 4096,
{
    x86_64::structures::paging::PhysFrame::<x86_64::structures::paging::Size4KiB>::containing_address(
        x86_64::PhysAddr::new(addr),
    ).start_address().as_u64()
}

/// Calls `Page::<Size4KiB>::containing_address(VirtAddr::new(addr))` of the
/// x86_64 crate and takes the page's start address. Its source: for a
/// canonical address `VirtAddr::new` keeps it, and the page starts at the
/// address aligned down to 4096.
#[verifier::external_body]
fn page_containing(addr: u64) -> (r: u64)
    requires
        is_canonical(addr),
    ensures
        r == addr - addr % 4096,
{
    x86_64::structures::paging::Page::<x86_64::structures::paging::Size4KiB>::containing_address(
        x86_64::VirtAddr::new(addr),
    ).start_address().as_u64()
}

/// One more region adds its frames after those of the regions before it.
proof fn lemma_usable_frames_take_step(regions: Seq<MemoryRegion>, i: int)
    requires
        0 <= i < regions.len(),
    ensures
        usable_frames(regions.take(i + 1)) == usable_frames(regions.take(i)) + region_frames(
            regions[i],
        ),
{
    assert(regions.take(i + 1).drop_last() =~= regions.take(i));
}

/// The frames of the first regions come first among all frames.
proof fn lemma_usable_frames_prefix(regions: Seq<MemoryRegion>, i: int)
    requires
        0 <= i <= regions.len(),
    ensures
        usable_frames(regions.take(i)).len() <= usable_frames(regions).len(),
        forall|k: int|
            0 <= k < usable_frames(regions.take(i)).len() ==> #[trigger] usable_frames(
                regions.take(i),
            )[k] == usable_frames(regions)[k],
    decreases regions.len() - i,
{
    if i < regions.len() {
        lemma_usable_frames_take_step(regions, i);
        lemma_usable_frames_prefix(regions, i + 1);
        assert forall|k: int| 0 <= k < usable_frames(regions.take(i)).len() implies #[trigger] usable_frames(
            regions.take(i),
        )[k] == usable_frames(regions)[k] by {
            assert(usable_frames(regions.take(i + 1))[k] == usable_frames(regions.take(i))[k]);
        }
    } else {
        assert(regions.take(i) =~= regions);
    }
}

/// A step that is counted among a region's frames stays below its end.
proof fn lemma_step_below_end(distance: int, step: int)
    requires
        distance > 0,
        0 <= step < (distance + 4095) / 4096,
    ensures
        step * 4096 < distance,
{
    assert(step * 4096 < distance) by (nonlinear_arith)
        requires
            distance > 0,
            0 <= step,
            step < (distance + 4095) / 4096,
    ;
}

/// Hands out the usable frames of the bootloader's memory map, one after
/// the other.
pub struct BootInfoFrameAllocator {
    memory_map: Vec<MemoryRegion>,
    next: usize,
}

impl BootInfoFrameAllocator {
    /// The memory map that the allocator hands out frames of.
    pub closed spec fn regions(&self) -> Seq<MemoryRegion> {
        self.memory_map@
    }

    /// How many frames the allocator has been asked for.
    pub closed spec fn next_index(&self) -> usize {
        self.next
    }

    /// The memory map's usable regions lie in the physical address space.
    pub closed spec fn wf(&self) -> bool {
        regions_valid(self.memory_map@)
    }

    /// An allocator over `memory_map` that has handed out nothing yet. The
    /// caller vouches that the map is valid: every region marked usable is
    /// free and lies in the physical address space.
    pub fn init(memory_map: Vec<MemoryRegion>) -> (r: Self)
        requires
            regions_valid(memory_map@),
        ensures
            r.wf(),
            r.regions() == memory_map@,
            r.next_index() == 0,
    {
        BootInfoFrameAllocator { memory_map, next: 0 }
    }

    /// How many frames the allocator has been asked for.
    pub fn requests(&self) -> (r: usize)
        ensures
            r == self.next_index(),
    {
        self.next
    }

    /// The next usable frame of the memory map, or `None` once all have been
    /// handed out. Either way the count of requests goes up by one.
    pub fn allocate_frame(&mut self) -> (r: Option<u64>)
        requires
            old(self).wf(),
            old(self).next_index() < usize::MAX,
        ensures
            final(self).wf(),
            final(self).regions() == old(self).regions(),
            final(self).next_index() == old(self).next_index() + 1,
            r == (if old(self).next_index() < usable_frames(old(self).regions()).len() {
                Some(usable_frames(old(self).regions())[old(self).next_index() as int])
            } else {
                None
            }),
    {
        let ghost regions = self.memory_map@;
        let ghost wanted = self.next as int;
        let n = self.memory_map.len();
        let mut remaining: u64 = self.next as u64;
        let mut i: usize = 0;
        while i < n
            invariant
                *self == *old(self),
                self.wf(),
                regions == self.memory_map@,
                wanted == self.next,
                self.next < usize::MAX,
                n == regions.len(),
                i <= n,
                remaining + usable_frames(regions.take(i as int)).len() == wanted,
            decreases n - i,
        {
            let region = self.memory_map[i];
            proof {
                lemma_usable_frames_take_step(regions, i as int);
            }
            if region.usable && region.start_addr < region.end_addr {
                let count = (region.end_addr - region.start_addr + 4095) / 4096;
                assert(count == region_frame_count(region));
                if remaining < count {
                    proof {
                        lemma_step_below_end(
                            region.end_addr - region.start_addr,
                            remaining as int,
                        );
                        lemma_usable_frames_prefix(regions, i as int + 1);
                        assert(regions[i as int].usable);
                        assert(usable_frames(regions.take(i as int + 1))[wanted]
                            == region_frames(region)[remaining as int]);
                    }
                    let addr = region.start_addr + remaining * 4096;
                    let frame = frame_containing(addr);
                    self.next = self.next + 1;
                    return Some(frame);
                }
                remaining = remaining - count;
            }
            i = i + 1;
        }
        assert(regions.take(n as int) =~= regions);
        self.next = self.next + 1;
        None
    }
}

/// Every usable region starts on a frame boundary.
pub open spec fn starts_aligned(regions: Seq<MemoryRegion>) -> bool {
    forall|i: int|
        0 <= i < regions.len() && #[trigger] regions[i].usable ==> regions[i].start_addr % 4096
            == 0
}

/// The usable regions come in ascending order and do not overlap.
pub open spec fn usable_regions_ordered(regions: Seq<MemoryRegion>) -> bool {
    forall|i: int, j: int|
        0 <= i < j < regions.len() && #[trigger] regions[i].usable && #[trigger] regions[j].usable
            ==> regions[i].end_addr <= regions[j].start_addr
}

/// Every frame that the allocator hands out starts on a 4 KiB boundary.
pub proof fn lemma_frames_aligned(regions: Seq<MemoryRegion>)
    ensures
        forall|k: int|
            0 <= k < usable_frames(regions).len() ==> #[trigger] usable_frames(regions)[k] % 4096
                == 0,
    decreases regions.len(),
{
    if regions.len() > 0 {
        lemma_frames_aligned(regions.drop_last());
        let before = usable_frames(regions.drop_last());
        let last = region_frames(regions.last());
        assert forall|k: int| 0 <= k < usable_frames(regions).len() implies #[trigger] usable_frames(
            regions,
        )[k] % 4096 == 0 by {
            if k >= before.len() {
                assert(usable_frames(regions)[k] == last[k - before.len()]);
            } else {
                assert(usable_frames(regions)[k] == before[k]);
            }
        }
    }
}

/// Frames of regions that all end by `bound` lie below `bound`.
proof fn lemma_frames_below(regions: Seq<MemoryRegion>, bound: int)
    requires
        forall|i: int|
            0 <= i < regions.len() && #[trigger] regions[i].usable ==> regions[i].end_addr
                <= bound,
        regions_valid(regions),
    ensures
        forall|k: int|
            0 <= k < usable_frames(regions).len() ==> #[trigger] usable_frames(regions)[k] < bound,
    decreases regions.len(),
{
    if regions.len() > 0 {
        let rest = regions.drop_last();
        assert forall|i: int| 0 <= i < rest.len() && #[trigger] rest[i].usable implies rest[i].end_addr
            <= bound by {
            assert(rest[i] == regions[i]);
        }
        lemma_frames_below(rest, bound);
        let before = usable_frames(rest);
        let r = regions.last();
        assert(regions[regions.len() - 1] == r);
        assert forall|k: int| 0 <= k < usable_frames(regions).len() implies #[trigger] usable_frames(
            regions,
        )[k] < bound by {
            if k >= before.len() {
                let step = k - before.len();
                lemma_step_below_end(r.end_addr - r.start_addr, step);
            } else {
                assert(usable_frames(regions)[k] == before[k]);
            }
        }
    }
}

/// Frames of a usable region with an aligned start are its start and the
/// following 4 KiB steps.
proof fn lemma_region_frames_exact(r: MemoryRegion, k: int)
    requires
        r.start_addr % 4096 == 0,
        0 <= k < region_frame_count(r),
        r.end_addr <= PHYS_ADDR_LIMIT,
    ensures
        region_frames(r)[k] == r.start_addr + k * 4096,
{
    lemma_step_below_end(r.end_addr - r.start_addr, k);
    assert((r.start_addr + k * 4096) % 4096 == 0) by (nonlinear_arith)
        requires
            r.start_addr % 4096 == 0,
            k >= 0,
    ;
}

/// Where the usable regions of a valid memory map start on frame boundaries
/// and come in ascending order without overlap, the allocator hands out
/// frames in strictly ascending order: it never hands out a frame twice.
pub proof fn lemma_frames_ascending(regions: Seq<MemoryRegion>)
    requires
        regions_valid(regions),
        starts_aligned(regions),
        usable_regions_ordered(regions),
    ensures
        forall|a: int, b: int|
            0 <= a < b < usable_frames(regions).len() ==> #[trigger] usable_frames(regions)[a]
                < #[trigger] usable_frames(regions)[b],
    decreases regions.len(),
{
    if regions.len() > 0 {
        let rest = regions.drop_last();
        let r = regions.last();
        let n = regions.len() - 1;
        assert(regions[n] == r);
        assert forall|i: int| 0 <= i < rest.len() && #[trigger] rest[i].usable implies rest[i].end_addr
            <= PHYS_ADDR_LIMIT && rest[i].start_addr % 4096 == 0 by {
            assert(rest[i] == regions[i]);
        }
        assert forall|i: int, j: int|
            0 <= i < j < rest.len() && #[trigger] rest[i].usable && #[trigger] rest[j].usable
            implies rest[i].end_addr <= rest[j].start_addr by {
            assert(rest[i] == regions[i]);
            assert(rest[j] == regions[j]);
        }
        lemma_frames_ascending(rest);
        let before = usable_frames(rest);
        let last = region_frames(r);
        if region_frame_count(r) > 0 {
            assert forall|i: int| 0 <= i < rest.len() && #[trigger] rest[i].usable implies rest[i].end_addr
                <= r.start_addr by {
                assert(rest[i] == regions[i]);
            }
            lemma_frames_below(rest, r.start_addr as int);
        }
        assert forall|a: int, b: int| 0 <= a < b < usable_frames(regions).len() implies #[trigger] usable_frames(
            regions,
        )[a] < #[trigger] usable_frames(regions)[b] by {
            if b < before.len() {
                assert(usable_frames(regions)[a] == before[a]);
                assert(usable_frames(regions)[b] == before[b]);
            } else if a < before.len() {
                assert(usable_frames(regions)[a] == before[a]);
                lemma_region_frames_exact(r, b - before.len());
            } else {
                lemma_region_frames_exact(r, a - before.len());
                lemma_region_frames_exact(r, b - before.len());
            }
        }
    }
}

/// Every frame that the allocator hands out belongs to a usable region of
/// the memory map: it starts at or after the frame that holds the region's
/// start, and below the region's end.
pub proof fn lemma_frames_in_usable_regions(regions: Seq<MemoryRegion>, k: int)
    requires
        0 <= k < usable_frames(regions).len(),
    ensures
        exists|i: int|
            0 <= i < regions.len() && #[trigger] regions[i].usable && align_down_4k(
                regions[i].start_addr as int,
            ) <= usable_frames(regions)[k] < regions[i].end_addr,
    decreases regions.len(),
{
    let rest = regions.drop_last();
    let before = usable_frames(rest);
    let n = regions.len() - 1;
    if k < before.len() {
        lemma_frames_in_usable_regions(rest, k);
        let i = choose|i: int|
            0 <= i < rest.len() && #[trigger] rest[i].usable && align_down_4k(
                rest[i].start_addr as int,
            ) <= before[k] < rest[i].end_addr;
        assert(regions[i] == rest[i]);
        assert(usable_frames(regions)[k] == before[k]);
    } else {
        let r = regions[n];
        let step = k - before.len();
        assert(usable_frames(regions)[k] == region_frames(r)[step]);
        lemma_step_below_end(r.end_addr - r.start_addr, step);
        assert(align_down_4k(r.start_addr as int) <= align_down_4k(r.start_addr + step * 4096))
            by (nonlinear_arith)
            requires
                step >= 0,
        ;
        assert(regions[n].usable);
    }
}

/// How many 4 KiB pages an area of `size` bytes at `start` touches: from
/// the page that holds `start` through the page that holds its last byte;
/// an empty area touches none.
pub open spec fn page_count(start: u64, size: nat) -> nat {
    if size == 0 {
        0
    } else {
        ((start % 4096) + size + 4095) as nat / 4096
    }
}

/// The start of the page that holds `start`.
pub open spec fn first_page(start: u64) -> int {
    align_down_4k(start as int)
}

/// The start of the `k`-th page of a user memory area that starts at
/// `start`: the page holding the address `k` pages above the area's first
/// page, as `VirtAddr::new` makes that address.
pub open spec fn user_page(start: u64, k: int) -> u64 {
    align_down_4k(checked_virt_addr((first_page(start) + k * 4096) as u64)->0 as int) as u64
}

/// Every page of a user memory area of `size` bytes at `start` has an
/// address that `VirtAddr::new` accepts.
pub open spec fn user_area_addressable(start: u64, size: nat) -> bool {
    forall|k: int|
        0 <= k < page_count(start, size) ==> first_page(start) + k * 4096 <= u64::MAX && (
        #[trigger] checked_virt_addr((first_page(start) + k * 4096) as u64)) is Some
}

/// Of two 4 KiB-aligned values, the one that is above the other minus 4096
/// is at least the other.
proof fn lemma_aligned_above(x: int, y: int)
    requires
        x % 4096 == 0,
        y % 4096 == 0,
        x > y - 4096,
    ensures
        x >= y,
{
    assert(x >= y) by (nonlinear_arith)
        requires
            x % 4096 == 0,
            y % 4096 == 0,
            x > y - 4096,
    ;
}

/// The page of an address `a` of the area, counted from the area's first
/// page `first`: it is one of the area's pages and holds `a`.
proof fn lemma_page_index(first: int, a: int, offset: int, size: int)
    requires
        first % 4096 == 0,
        0 <= offset,
        first <= a,
        a - first < offset + size,
    ensures
        0 <= (a - first) / 4096 < (offset + size + 4095) / 4096,
        first + (a - first) / 4096 * 4096 <= a < first + (a - first) / 4096 * 4096 + 4096,
        (first + (a - first) / 4096 * 4096) % 4096 == 0,
{
    let d = a - first;
    assert(0 <= d / 4096 < (offset + size + 4095) / 4096) by (nonlinear_arith)
        requires
            0 <= d,
            d < offset + size,
    ;
    assert(d / 4096 * 4096 <= d < d / 4096 * 4096 + 4096) by (nonlinear_arith)
        requires
            0 <= d,
    ;
    assert((first + d / 4096 * 4096) % 4096 == 0) by (nonlinear_arith)
        requires
            first % 4096 == 0,
            0 <= d,
    ;
}

/// The pages that a user memory area of `size` bytes at `start_address`
/// occupies, in order: from the page that holds `start_address` through
/// the page that holds the area's last byte. Every canonical address of
/// the area lies in one of them.
pub fn user_memory_pages(start_address: VirtAddr, size: usize) -> (pages: Vec<VirtAddr>)
    requires
        (start_address@ % 4096) + size + 4095 <= usize::MAX,
        user_area_addressable(start_address@, size as nat),
    ensures
        pages@.len() == page_count(start_address@, size as nat),
        forall|k: int| 0 <= k < pages@.len() ==> #[trigger] pages@[k]@ == user_page(start_address@, k),
        forall|a: u64|
            start_address@ <= a < start_address@ + size && is_canonical(a) ==> exists|k: int|
                0 <= k < pages@.len() && #[trigger] pages@[k]@ <= a < pages@[k]@ + 4096,
{
    let start = start_address.as_u64();
    let first = page_containing(start);
    proof {
        if start >= crate::addr::UPPER_HALF_START {
            lemma_aligned_above(first as int, crate::addr::UPPER_HALF_START as int);
        }
    }
    let first_addr = VirtAddr::new(first);
    let offset = (start - first) as usize;
    let page_total = if size == 0 {
        0
    } else {
        (offset + size + 4095) / 4096
    };
    let mut pages: Vec<VirtAddr> = Vec::new();
    let mut i: usize = 0;
    while i < page_total
        invariant
            first == first_page(start_address@),
            first_addr@ == first,
            offset == start_address@ % 4096,
            page_total == page_count(start_address@, size as nat),
            (start_address@ % 4096) + size + 4095 <= usize::MAX,
            user_area_addressable(start_address@, size as nat),
            i <= page_total,
            pages@.len() == i,
            forall|k: int| 0 <= k < i ==> #[trigger] pages@[k]@ == user_page(start_address@, k),
        decreases page_total - i,
    {
        assert(i * 4096 < offset + size + 4095) by (nonlinear_arith)
            requires
                i < page_total,
                page_total <= (offset + size + 4095) / 4096,
        ;
        assert(checked_virt_addr((first_page(start_address@) + i * 4096) as u64) is Some);
        let addr = first_addr.add((i * 4096) as u64);
        let page = VirtAddr::new(page_containing(addr.as_u64()));
        pages.push(page);
        i = i + 1;
    }
    proof {
        assert forall|a: u64|
            start_address@ <= a < start_address@ + size && is_canonical(a) implies exists|k: int|
                0 <= k < pages@.len() && #[trigger] pages@[k]@ <= a < pages@[k]@ + 4096 by {
            lemma_page_index(first as int, a as int, offset as int, size as int);
            let k = (a - first) / 4096;
            let p = first + k * 4096;
            if a >= crate::addr::UPPER_HALF_START {
                lemma_aligned_above(p, crate::addr::UPPER_HALF_START as int);
            }
            assert(p <= a);
            assert(is_canonical(p as u64));
            assert(checked_virt_addr(p as u64) == Some(p as u64));
            assert(pages@[k]@ == user_page(start_address@, k));
            assert(pages@[k]@ == p);
        }
    }
    pages
}

} // verus!
