//! Physical frame allocator: a bump allocator over the usable regions of the
//! bootloader's memory map.
use vstd::prelude::*;

verus! {

/// Standard x86_64 page size (4 KiB).
pub const PAGE_SIZE: u64 = 4096;

/// Memory-map entry type of usable RAM in the Limine boot protocol.
pub const ENTRY_USABLE: u64 = 0;

/// Bound on x86_64 physical addresses (MAXPHYADDR is at most 52 bits).
pub const MAX_PHYS_ADDR: u64 = 0x0010_0000_0000_0000;

/// One region of the bootloader's physical memory map.
#[derive(Debug, Clone, Copy, PartialEq, Eq, Structural)]
pub struct MemoryMapEntry {
    /// First physical address of the region.
    pub base: u64,
    /// Length of the region in bytes.
    pub length: u64,
    /// Region type; `ENTRY_USABLE` marks available RAM.
    pub entry_type: u64,
}

/// Every region of the map lies below the physical address bound.
pub open spec fn map_in_range(entries: Seq<MemoryMapEntry>) -> bool {
    forall|i: int| 0 <= i < entries.len() ==> #[trigger] entries[i].base + entries[i].length <= MAX_PHYS_ADDR
}

/// No two usable regions of the map overlap.
pub open spec fn usable_regions_disjoint(entries: Seq<MemoryMapEntry>) -> bool {
    forall|i: int, j: int|
        0 <= i < entries.len() && 0 <= j < entries.len() && i != j
            && (#[trigger] entries[i]).entry_type == ENTRY_USABLE
            && (#[trigger] entries[j]).entry_type == ENTRY_USABLE ==> entries[i].base + entries[i].length
            <= entries[j].base || entries[j].base + entries[j].length <= entries[i].base
}

/// `a` rounded up to a multiple of the page size.
pub open spec fn page_align_up(a: int) -> int {
    ((a + 4095) / 4096) * 4096
}

/// One allocation from position (`idx`, `cur`): the region index and the
/// next free address after it, and the frame handed out.
///
/// Regions that are not usable are skipped; a fresh region (`cur == 0`)
/// starts at its base; the next page-aligned frame is taken if it fits in the
/// region, otherwise the allocator moves on to the next region.
pub open spec fn alloc_step(entries: Seq<MemoryMapEntry>, idx: nat, cur: u64) -> (nat, u64, Option<u64>)
    decreases entries.len() - idx,
{
    if idx >= entries.len() {
        (idx, cur, None)
    } else {
        let e = entries[idx as int];
        if e.entry_type != ENTRY_USABLE {
            alloc_step(entries, idx + 1, cur)
        } else {
            let c = if cur == 0 {
                e.base
            } else {
                cur
            };
            let aligned = page_align_up(c as int);
            if aligned + PAGE_SIZE <= e.base + e.length {
                (idx, (aligned + PAGE_SIZE) as u64, Some(aligned as u64))
            } else {
                alloc_step(entries, idx + 1, 0)
            }
        }
    }
}

/// The allocator position after `n` allocations from (`idx`, `cur`).
pub open spec fn alloc_run(entries: Seq<MemoryMapEntry>, idx: nat, cur: u64, n: nat) -> (nat, u64)
    decreases n,
{
    if n == 0 {
        (idx, cur)
    } else {
        let p = alloc_run(entries, idx, cur, (n - 1) as nat);
        let s = alloc_step(entries, p.0, p.1);
        (s.0, s.1)
    }
}

/// The frame handed out by the allocation that follows `n` earlier ones.
pub open spec fn frame_after(entries: Seq<MemoryMapEntry>, idx: nat, cur: u64, n: nat) -> Option<u64> {
    let p = alloc_run(entries, idx, cur, n);
    alloc_step(entries, p.0, p.1).2
}

/// State of the physical memory bump allocator.
pub struct FrameAllocator {
    /// Index of the memory region currently allocated from.
    region_index: usize,
    /// Next available physical address in that region (0 when not started).
    current_addr: u64,
}

impl View for FrameAllocator {
    type V = (nat, u64);

    closed spec fn view(&self) -> (nat, u64) {
        (self.region_index as nat, self.current_addr)
    }
}

proof fn lemma_align_mask(c: u64)
    requires
        c <= MAX_PHYS_ADDR,
    ensures
        (((c + 4096 - 1) as u64) & !((4096 - 1) as u64)) == page_align_up(c as int),
{
    assert((((c + 4096 - 1) as u64) & !((4096 - 1) as u64)) == ((c + 4095) / 4096) * 4096) by (bit_vector)
        requires
            c <= 0x0010_0000_0000_0000u64,
    ;
}

impl FrameAllocator {
    #[verifier::type_invariant]
    spec fn inv(self) -> bool {
        self.current_addr <= MAX_PHYS_ADDR
    }

    /// A new allocator positioned before the first region.
    pub fn new() -> (a: Self)
        ensures
            a@ == (0nat, 0u64),
    {
        FrameAllocator { region_index: 0, current_addr: 0 }
    }

    /// Allocates one 4 KiB frame from the usable regions of `entries` and
    /// returns its physical address, or `None` when memory is exhausted.
    pub fn allocate_frame_raw(&mut self, entries: &[MemoryMapEntry]) -> (r: Option<u64>)
        requires
            map_in_range(entries@),
        ensures
            ({
                let s = alloc_step(entries@, old(self)@.0, old(self)@.1);
                final(self)@ == (s.0, s.1) && r == s.2
            }),
    {
        proof {
            use_type_invariant(&*self);
        }
        let ghost target = alloc_step(entries@, self@.0, self@.1);
        while self.region_index < entries.len()
            invariant
                map_in_range(entries@),
                alloc_step(entries@, self@.0, self@.1) == target,
                target == alloc_step(entries@, old(self)@.0, old(self)@.1),
                self.current_addr <= MAX_PHYS_ADDR,
            decreases entries.len() - self.region_index,
        {
            let entry = entries[self.region_index];
            assert(entry.base + entry.length <= MAX_PHYS_ADDR);
            if entry.entry_type != ENTRY_USABLE {
                self.region_index += 1;
                continue;
            }
            let ghost cur0 = self.current_addr;
            if self.current_addr == 0 {
                self.current_addr = entry.base;
            }
            proof {
                lemma_align_mask(self.current_addr);
            }
            let aligned = (self.current_addr + PAGE_SIZE - 1) & !(PAGE_SIZE - 1);
            assert(aligned == page_align_up(self.current_addr as int));
            let region_end = entry.base + entry.length;
            if aligned + PAGE_SIZE <= region_end {
                assert(alloc_step(entries@, self.region_index as nat, cur0) == (
                    self.region_index as nat,
                    (aligned + PAGE_SIZE) as u64,
                    Some(aligned),
                ));
                self.current_addr = aligned + PAGE_SIZE;
                return Some(aligned);
            } else {
                assert(alloc_step(entries@, self.region_index as nat, cur0) == alloc_step(
                    entries@,
                    (self.region_index + 1) as nat,
                    0,
                ));
                self.region_index += 1;
                self.current_addr = 0;
            }
        }
        None
    }
}

/// How an allocation proceeds from region `idx`: a region that is not
/// usable is passed over; in a usable region the allocator takes the lowest
/// page-aligned address at or above its position (the region's base when it
/// has not started there) if a whole page fits there, and moves on to the
/// start of the next region otherwise.
pub proof fn lemma_alloc_takes_lowest_page(entries: Seq<MemoryMapEntry>, idx: nat, cur: u64, f: int)
    requires
        map_in_range(entries),
        idx < entries.len(),
        cur <= MAX_PHYS_ADDR,
    ensures
        entries[idx as int].entry_type != ENTRY_USABLE ==> alloc_step(entries, idx, cur) == alloc_step(
            entries,
            idx + 1,
            cur,
        ),
        ({
            let e = entries[idx as int];
            let c = if cur == 0 {
                e.base
            } else {
                cur
            };
            e.entry_type == ENTRY_USABLE && f % 4096 == 0 && c <= f < c + 4096 ==> if f + 4096 <= e.base
                + e.length {
                alloc_step(entries, idx, cur) == (idx, (f + 4096) as u64, Some(f as u64))
            } else {
                alloc_step(entries, idx, cur) == alloc_step(entries, idx + 1, 0)
            }
        }),
{
    let e = entries[idx as int];
    let c = if cur == 0 {
        e.base
    } else {
        cur
    };
    if e.entry_type == ENTRY_USABLE && f % 4096 == 0 && c <= f < c + 4096 {
        let a = page_align_up(c as int);
        assert(a == f) by (nonlinear_arith)
            requires
                a == ((c + 4095) / 4096) * 4096,
                f % 4096 == 0,
                c <= f < c + 4096,
                c >= 0,
        ;
    }
}

/// What an allocation hands out: a page-aligned frame that lies inside a
/// usable region, taken from the region the allocator stands at or a later
/// one, at or above the allocator's next free address; afterwards the
/// allocator stands at that region, just past the frame.
pub proof fn lemma_frame_properties(entries: Seq<MemoryMapEntry>, idx: nat, cur: u64)
    requires
        map_in_range(entries),
        position_ok(entries, idx, cur),
    ensures
        ({
            let s = alloc_step(entries, idx, cur);
            position_ok(entries, s.0, s.1)
        }),
        alloc_step(entries, idx, cur).2 matches Some(f) ==> {
            let j = alloc_step(entries, idx, cur).0;
            &&& idx <= j < entries.len()
            &&& entries[j as int].entry_type == ENTRY_USABLE
            &&& entries[j as int].base <= f
            &&& f + PAGE_SIZE <= entries[j as int].base + entries[j as int].length
            &&& f % PAGE_SIZE == 0
            &&& alloc_step(entries, idx, cur).1 == f + PAGE_SIZE
            &&& (j > idx || cur == 0 || f >= cur)
        },
        alloc_step(entries, idx, cur).2 is None ==> alloc_step(entries, idx, cur).0 >= entries.len(),
        idx >= entries.len() ==> alloc_step(entries, idx, cur) == (idx, cur, None::<u64>),
        alloc_step(entries, idx, cur).0 >= idx,
    decreases entries.len() - idx,
{
    if idx < entries.len() {
        let e = entries[idx as int];
        assert(e.base + e.length <= MAX_PHYS_ADDR);
        if e.entry_type != ENTRY_USABLE {
            lemma_frame_properties(entries, idx + 1, cur);
        } else {
            let c = if cur == 0 {
                e.base
            } else {
                cur
            };
            let aligned = page_align_up(c as int);
            assert(aligned >= c) by (nonlinear_arith)
                requires
                    aligned == ((c + 4095) / 4096) * 4096,
            ;
            assert(aligned % 4096 == 0) by (nonlinear_arith)
                requires
                    aligned == ((c + 4095) / 4096) * 4096,
            ;
            if aligned + PAGE_SIZE > e.base + e.length {
                lemma_frame_properties(entries, idx + 1, 0);
            }
        }
    }
}

/// A position the allocator can stand at: either at the start of a region
/// (`cur == 0`), or inside a usable region.
pub open spec fn position_ok(entries: Seq<MemoryMapEntry>, idx: nat, cur: u64) -> bool {
    cur == 0 || (idx < entries.len() && entries[idx as int].entry_type == ENTRY_USABLE
        && entries[idx as int].base <= cur <= entries[idx as int].base + entries[idx as int].length)
}

/// Whether a frame `f` of region `j` can still be handed out by an allocator
/// standing at (`idx`, `cur`).
pub open spec fn still_free(idx: nat, cur: u64, j: nat, f: u64) -> bool {
    j > idx || (j == idx && (cur == 0 || f >= cur))
}

/// Every position reached by allocating from an allocator position is again
/// one.
pub proof fn lemma_run_position_ok(entries: Seq<MemoryMapEntry>, idx: nat, cur: u64, n: nat)
    requires
        map_in_range(entries),
        position_ok(entries, idx, cur),
    ensures
        ({
            let p = alloc_run(entries, idx, cur, n);
            position_ok(entries, p.0, p.1)
        }),
    decreases n,
{
    if n > 0 {
        lemma_run_position_ok(entries, idx, cur, (n - 1) as nat);
        let p = alloc_run(entries, idx, cur, (n - 1) as nat);
        lemma_frame_properties(entries, p.0, p.1);
    }
}

proof fn lemma_still_free_steps_back(entries: Seq<MemoryMapEntry>, idx: nat, cur: u64, j: nat, f: u64)
    requires
        map_in_range(entries),
        position_ok(entries, idx, cur),
        ({
            let s = alloc_step(entries, idx, cur);
            still_free(s.0, s.1, j, f)
        }),
    ensures
        still_free(idx, cur, j, f),
{
    lemma_frame_properties(entries, idx, cur);
}

proof fn lemma_still_free_runs_back(entries: Seq<MemoryMapEntry>, idx: nat, cur: u64, a: nat, b: nat, j: nat, f: u64)
    requires
        map_in_range(entries),
        position_ok(entries, idx, cur),
        a <= b,
        ({
            let p = alloc_run(entries, idx, cur, b);
            still_free(p.0, p.1, j, f)
        }),
    ensures
        ({
            let p = alloc_run(entries, idx, cur, a);
            still_free(p.0, p.1, j, f)
        }),
    decreases b - a,
{
    if a < b {
        let p = alloc_run(entries, idx, cur, (b - 1) as nat);
        lemma_run_position_ok(entries, idx, cur, (b - 1) as nat);
        lemma_still_free_steps_back(entries, p.0, p.1, j, f);
        lemma_still_free_runs_back(entries, idx, cur, a, (b - 1) as nat, j, f);
    }
}

/// No frame is handed out twice: any two allocations in a run from the same
/// starting position return non-overlapping frames, provided the usable
/// regions of the memory map do not overlap.
pub proof fn lemma_no_double_allocation(entries: Seq<MemoryMapEntry>, idx: nat, cur: u64, n: nat, m: nat)
    requires
        map_in_range(entries),
        usable_regions_disjoint(entries),
        position_ok(entries, idx, cur),
        n < m,
        frame_after(entries, idx, cur, n) is Some,
        frame_after(entries, idx, cur, m) is Some,
    ensures
        ({
            let f1 = frame_after(entries, idx, cur, n).unwrap();
            let f2 = frame_after(entries, idx, cur, m).unwrap();
            f1 + PAGE_SIZE <= f2 || f2 + PAGE_SIZE <= f1
        }),
{
    let pn = alloc_run(entries, idx, cur, n);
    let pm = alloc_run(entries, idx, cur, m);
    let sn = alloc_step(entries, pn.0, pn.1);
    let sm = alloc_step(entries, pm.0, pm.1);
    let f1 = sn.2.unwrap();
    let f2 = sm.2.unwrap();
    lemma_run_position_ok(entries, idx, cur, n);
    lemma_run_position_ok(entries, idx, cur, m);
    lemma_frame_properties(entries, pn.0, pn.1);
    lemma_frame_properties(entries, pm.0, pm.1);
    let j1 = sn.0;
    let j2 = sm.0;
    assert(still_free(pm.0, pm.1, j2, f2));
    lemma_still_free_runs_back(entries, idx, cur, n + 1, m, j2, f2);
    assert(alloc_run(entries, idx, cur, n + 1) == (sn.0, sn.1));
    assert(still_free(sn.0, sn.1, j2, f2));
    if j1 != j2 {
        assert(entries[j1 as int].entry_type == ENTRY_USABLE);
        assert(entries[j2 as int].entry_type == ENTRY_USABLE);
    }
}

/// The bytes of usable RAM in the regions of the map.
pub open spec fn usable_total(entries: Seq<MemoryMapEntry>) -> nat
    decreases entries.len(),
{
    if entries.len() == 0 {
        0
    } else {
        usable_total(entries.drop_last()) + if entries.last().entry_type == ENTRY_USABLE {
            entries.last().length as nat
        } else {
            0
        }
    }
}

proof fn lemma_usable_total_prefix(entries: Seq<MemoryMapEntry>, k: int)
    requires
        0 <= k <= entries.len(),
    ensures
        usable_total(entries.subrange(0, k)) <= usable_total(entries),
    decreases entries.len() - k,
{
    if k < entries.len() {
        lemma_usable_total_prefix(entries, k + 1);
        assert(entries.subrange(0, k + 1).drop_last() =~= entries.subrange(0, k));
    } else {
        assert(entries.subrange(0, k) =~= entries);
    }
}

/// The usable regions of the map come in increasing address order, without
/// overlap (as the bootloader lists them).
pub open spec fn usable_regions_sorted(entries: Seq<MemoryMapEntry>) -> bool {
    forall|i: int, j: int|
        0 <= i < j < entries.len() && (#[trigger] entries[i]).entry_type == ENTRY_USABLE
            && (#[trigger] entries[j]).entry_type == ENTRY_USABLE ==> entries[i].base + entries[i].length
            <= entries[j].base
}

/// On a memory map whose usable regions are sorted, frames come out in
/// strictly increasing order: every later allocation of a run lies a whole
/// page above every earlier one, so no frame is handed out twice. A new
/// allocator stands at (0, 0), a position this holds for.
pub proof fn lemma_frames_increase(entries: Seq<MemoryMapEntry>, idx: nat, cur: u64, n: nat, m: nat)
    requires
        map_in_range(entries),
        usable_regions_sorted(entries),
        position_ok(entries, idx, cur),
        n < m,
        frame_after(entries, idx, cur, n) is Some,
        frame_after(entries, idx, cur, m) is Some,
    ensures
        frame_after(entries, idx, cur, n).unwrap() + PAGE_SIZE <= frame_after(entries, idx, cur, m).unwrap(),
{
    let pn = alloc_run(entries, idx, cur, n);
    let pm = alloc_run(entries, idx, cur, m);
    let sn = alloc_step(entries, pn.0, pn.1);
    let sm = alloc_step(entries, pm.0, pm.1);
    let f2 = sm.2.unwrap();
    lemma_run_position_ok(entries, idx, cur, n);
    lemma_run_position_ok(entries, idx, cur, m);
    lemma_frame_properties(entries, pn.0, pn.1);
    lemma_frame_properties(entries, pm.0, pm.1);
    let j1 = sn.0;
    let j2 = sm.0;
    assert(still_free(pm.0, pm.1, j2, f2));
    lemma_still_free_runs_back(entries, idx, cur, n + 1, m, j2, f2);
    assert(alloc_run(entries, idx, cur, n + 1) == (sn.0, sn.1));
    assert(still_free(sn.0, sn.1, j2, f2));
    if j1 != j2 {
        assert(entries[j1 as int].entry_type == ENTRY_USABLE);
        assert(entries[j2 as int].entry_type == ENTRY_USABLE);
    }
}

/// The summary of the memory map reported at boot: the number of regions and
/// the usable RAM in whole MiB; `None` when the usable byte count does not
/// fit in 64 bits.
pub fn memory_summary(entries: &[MemoryMapEntry]) -> (r: Option<(u64, u64)>)
    ensures
        usable_total(entries@) > u64::MAX ==> r is None,
        usable_total(entries@) <= u64::MAX ==> r == Some(
            (entries@.len() as u64, (usable_total(entries@) / 0x10_0000) as u64),
        ),
{
    let len = entries.len();
    let mut usable_bytes: u64 = 0;
    let mut total_regions: u64 = 0;
    let mut i: usize = 0;
    while i < len
        invariant
            len == entries@.len(),
            0 <= i <= len,
            total_regions == i,
            usable_bytes == usable_total(entries@.subrange(0, i as int)),
        decreases len - i,
    {
        let e = entries[i];
        assert(entries@.subrange(0, i + 1).drop_last() =~= entries@.subrange(0, i as int));
        if e.entry_type == ENTRY_USABLE {
            match usable_bytes.checked_add(e.length) {
                None => {
                    proof {
                        lemma_usable_total_prefix(entries@, i + 1);
                    }
                    return None;
                },
                Some(sum) => {
                    usable_bytes = sum;
                },
            }
        }
        total_regions += 1;
        i += 1;
    }
    assert(entries@.subrange(0, len as int) =~= entries@);
    Some((total_regions, usable_bytes / 0x10_0000))
}

/// The boot-time diagnostic of the frame allocator: three allocations in a
/// row, the outcome of each in order.
pub fn init(alloc: &mut FrameAllocator, entries: &[MemoryMapEntry]) -> (r: Vec<Option<u64>>)
    requires
        map_in_range(entries@),
    ensures
        r@.len() == 3,
        forall|k: int| 0 <= k < 3 ==> r@[k] == frame_after(entries@, old(alloc)@.0, old(alloc)@.1, k as nat),
        final(alloc)@ == alloc_run(entries@, old(alloc)@.0, old(alloc)@.1, 3),
{
    let ghost start = alloc@;
    let mut out: Vec<Option<u64>> = Vec::new();
    let mut i: u64 = 1;
    while i <= 3
        invariant
            1 <= i <= 4,
            map_in_range(entries@),
            out@.len() == i - 1,
            forall|k: int| 0 <= k < i - 1 ==> out@[k] == frame_after(entries@, start.0, start.1, k as nat),
            alloc@ == alloc_run(entries@, start.0, start.1, (i - 1) as nat),
        decreases 4 - i,
    {
        let frame = alloc.allocate_frame_raw(entries);
        out.push(frame);
        i += 1;
    }
    out
}

} // verus!
