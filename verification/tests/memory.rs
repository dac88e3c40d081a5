use stardust::memory::frame::{init, memory_summary, FrameAllocator, MemoryMapEntry, ENTRY_USABLE, PAGE_SIZE};
use stardust::memory::mapper::{
    PageMapping, FLAG_NO_CACHE, FLAG_PRESENT, FLAG_USER_ACCESSIBLE, FLAG_WRITABLE, KERNEL_DEVICE_FLAGS,
    USER_DEVICE_FLAGS, USER_RW_FLAGS,
};
use stardust::memory::shared::{grant_frame, GrantOutcome};
use stardust::security::cdt::{self, CapabilityDerivationTree};

const RESERVED: u64 = 1;

fn sample_map() -> Vec<MemoryMapEntry> {
    vec![
        MemoryMapEntry { base: 0, length: 0x1000, entry_type: RESERVED },
        MemoryMapEntry { base: 0x1000, length: 0x3000, entry_type: ENTRY_USABLE },
        MemoryMapEntry { base: 0xA_0000, length: 0x6_0000, entry_type: RESERVED },
        MemoryMapEntry { base: 0x10_0000, length: 0x2000, entry_type: ENTRY_USABLE },
    ]
}

#[test]
fn frames_come_in_region_order_then_run_out() {
    let map = sample_map();
    let mut a = FrameAllocator::new();
    assert_eq!(a.allocate_frame_raw(&map), Some(0x1000));
    assert_eq!(a.allocate_frame_raw(&map), Some(0x2000));
    assert_eq!(a.allocate_frame_raw(&map), Some(0x3000));
    assert_eq!(a.allocate_frame_raw(&map), Some(0x10_0000));
    assert_eq!(a.allocate_frame_raw(&map), Some(0x10_1000));
    assert_eq!(a.allocate_frame_raw(&map), None);
    assert_eq!(a.allocate_frame_raw(&map), None);
}

#[test]
fn unaligned_region_start_is_rounded_up() {
    let map = vec![MemoryMapEntry { base: 0x1234, length: 0x3000, entry_type: ENTRY_USABLE }];
    let mut a = FrameAllocator::new();
    assert_eq!(a.allocate_frame_raw(&map), Some(0x2000));
    assert_eq!(a.allocate_frame_raw(&map), Some(0x3000));
    assert_eq!(a.allocate_frame_raw(&map), None);
}

#[test]
fn region_too_small_for_a_page_is_skipped() {
    let map = vec![
        MemoryMapEntry { base: 0x1800, length: 0x1000, entry_type: ENTRY_USABLE },
        MemoryMapEntry { base: 0x8000, length: 0x1000, entry_type: ENTRY_USABLE },
    ];
    let mut a = FrameAllocator::new();
    assert_eq!(a.allocate_frame_raw(&map), Some(0x8000));
    assert_eq!(a.allocate_frame_raw(&map), None);
}

#[test]
fn empty_map_has_no_frames() {
    let mut a = FrameAllocator::new();
    assert_eq!(a.allocate_frame_raw(&[]), None);
}

#[test]
fn frames_are_aligned_distinct_and_inside_usable_regions() {
    let map = sample_map();
    let mut a = FrameAllocator::new();
    let mut frames = Vec::new();
    while let Some(f) = a.allocate_frame_raw(&map) {
        frames.push(f);
    }
    assert_eq!(frames.len(), 5);
    for (i, f) in frames.iter().enumerate() {
        assert_eq!(f % PAGE_SIZE, 0);
        assert!(map.iter().any(|e| e.entry_type == ENTRY_USABLE && e.base <= *f && f + PAGE_SIZE <= e.base + e.length));
        for g in &frames[i + 1..] {
            assert!(f + PAGE_SIZE <= *g || g + PAGE_SIZE <= *f);
        }
    }
}

#[test]
fn boot_diagnostic_makes_three_allocations() {
    let map = sample_map();
    let mut a = FrameAllocator::new();
    assert_eq!(init(&mut a, &map), vec![Some(0x1000), Some(0x2000), Some(0x3000)]);
    assert_eq!(a.allocate_frame_raw(&map), Some(0x10_0000));
    let mut b = FrameAllocator::new();
    assert_eq!(init(&mut b, &[]), vec![None, None, None]);
}

#[test]
fn grant_requires_a_valid_token() {
    let map = sample_map();
    let tree = CapabilityDerivationTree::new();
    let mut a = FrameAllocator::new();
    let r = grant_frame(&tree, &mut a, &map, 0, 0x4000_0000);
    assert_eq!(r, GrantOutcome::Rejected);
    assert_eq!(r.syscall_value(true), 0);
    // Nothing was allocated by the rejected request.
    assert_eq!(a.allocate_frame_raw(&map), Some(0x1000));
}

#[test]
fn grant_maps_a_fresh_frame_user_writable() {
    let map = sample_map();
    let mut tree = CapabilityDerivationTree::new();
    assert!(cdt::init(&mut tree));
    let mut a = FrameAllocator::new();
    let r = grant_frame(&tree, &mut a, &map, 0, 0x4000_0000);
    assert_eq!(r, GrantOutcome::Granted(PageMapping { phys: 0x1000, virt: 0x4000_0000, flags: USER_RW_FLAGS }));
    assert_eq!(r.syscall_value(true), 0x4000_0000);
    // A page that is already mapped makes the grant fail.
    assert_eq!(r.syscall_value(false), 0);
    let r2 = grant_frame(&tree, &mut a, &map, 0, 0x4000_1000);
    assert_eq!(r2, GrantOutcome::Granted(PageMapping { phys: 0x2000, virt: 0x4000_1000, flags: 7 }));
    assert_eq!(grant_frame(&tree, &mut a, &map, 1, 0x4000_2000), GrantOutcome::Rejected);
}

#[test]
fn grant_reports_exhausted_memory() {
    let mut tree = CapabilityDerivationTree::new();
    assert!(cdt::init(&mut tree));
    let mut a = FrameAllocator::new();
    let r = grant_frame(&tree, &mut a, &[], 0, 0x4000_0000);
    assert_eq!(r, GrantOutcome::OutOfMemory);
    assert_eq!(r.syscall_value(true), 0);
}

#[test]
fn memory_summary_counts_usable_mib() {
    assert_eq!(memory_summary(&sample_map()), Some((4, 0)));
    let big = vec![
        MemoryMapEntry { base: 0x10_0000, length: 0x30_0000, entry_type: ENTRY_USABLE },
        MemoryMapEntry { base: 0x40_0000, length: 0x10_0000, entry_type: RESERVED },
        MemoryMapEntry { base: 0x100_0000, length: 0x18_0000, entry_type: ENTRY_USABLE },
    ];
    assert_eq!(memory_summary(&big), Some((3, 4)));
    assert_eq!(memory_summary(&[]), Some((0, 0)));
    let huge = vec![
        MemoryMapEntry { base: 0, length: u64::MAX / 2 + 1, entry_type: ENTRY_USABLE },
        MemoryMapEntry { base: 0, length: u64::MAX / 2 + 1, entry_type: ENTRY_USABLE },
    ];
    assert_eq!(memory_summary(&huge), None);
}

#[test]
fn page_flags_combine_as_named() {
    assert_eq!(USER_RW_FLAGS, FLAG_PRESENT | FLAG_WRITABLE | FLAG_USER_ACCESSIBLE);
    assert_eq!(KERNEL_DEVICE_FLAGS, FLAG_PRESENT | FLAG_WRITABLE | FLAG_NO_CACHE);
    assert_eq!(USER_DEVICE_FLAGS, FLAG_PRESENT | FLAG_WRITABLE | FLAG_USER_ACCESSIBLE | FLAG_NO_CACHE);
}

#[test]
fn frames_increase_on_a_sorted_map() {
    let map = sample_map();
    let mut a = FrameAllocator::new();
    let mut last: Option<u64> = None;
    while let Some(f) = a.allocate_frame_raw(&map) {
        if let Some(prev) = last {
            assert!(prev + PAGE_SIZE <= f);
        }
        last = Some(f);
    }
    assert_eq!(last, Some(0x10_1000));
}
