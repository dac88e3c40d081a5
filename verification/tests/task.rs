use stardust::smp;
use stardust::task::elf::{
    check_magic, load_and_get_entry, page_target, read_le, ElfError, Elf64Header, KernelElfPlan,
    KernelSegmentPlan, RELOCATION_OFFSET,
};
use stardust::task::loader::{god_process_module, user_stack_pages, LimineModuleSafe, USER_STACK_TOP};
use stardust::task::scheduler::{
    spawn_thread, spawn_would_overflow, supervisor_action, worker_apic_base, worker_cr0, worker_cr4,
    worker_is_parked, Scheduler, SupervisorAction, MAX_THREADS, SHOOTDOWN_TARGET_VADDR,
};
use stardust::task::thread::{Thread, ThreadState};

/// (p_type, p_offset, p_vaddr, p_filesz, p_memsz) of one program header.
type Phdr = (u32, u64, u64, u64, u64);

fn put(buf: &mut [u8], off: usize, v: u64, n: usize) {
    buf[off..off + n].copy_from_slice(&v.to_le_bytes()[..n]);
}

fn elf_image(entry: u64, phoff: u64, phentsize: u16, phdrs: &[Phdr], len: usize) -> Vec<u8> {
    let mut b = vec![0u8; len];
    b[0..4].copy_from_slice(&[0x7F, b'E', b'L', b'F']);
    b[4] = 2;
    put(&mut b, 16, 2, 2);
    put(&mut b, 18, 0x3E, 2);
    put(&mut b, 20, 1, 4);
    put(&mut b, 24, entry, 8);
    put(&mut b, 32, phoff, 8);
    put(&mut b, 52, 64, 2);
    put(&mut b, 54, phentsize as u64, 2);
    put(&mut b, 56, phdrs.len() as u64, 2);
    for (i, p) in phdrs.iter().enumerate() {
        let o = phoff as usize + i * phentsize as usize;
        if o + 56 <= len {
            put(&mut b, o, p.0 as u64, 4);
            put(&mut b, o + 8, p.1, 8);
            put(&mut b, o + 16, p.2, 8);
            put(&mut b, o + 32, p.3, 8);
            put(&mut b, o + 40, p.4, 8);
        }
    }
    b
}

fn plan(r: Result<KernelElfPlan, ElfError>) -> KernelElfPlan {
    match r {
        Ok(p) => p,
        Err(e) => panic!("load failed: {:?}", e),
    }
}

fn error(r: Result<KernelElfPlan, ElfError>) -> ElfError {
    match r {
        Ok(_) => panic!("load succeeded"),
        Err(e) => e,
    }
}

#[test]
fn empty_thread_slot() {
    let t = Thread::empty();
    assert_eq!((t.id, t.parent_process_id, t.stack_pointer, t.instruction_pointer), (0, 0, 0, 0));
    assert_eq!(t.state, ThreadState::Empty);
}

#[test]
fn new_scheduler_is_empty() {
    let s = Scheduler::new();
    assert_eq!(s.thread_count, 0);
    assert_eq!(s.ticks, 0);
    for i in 0..MAX_THREADS {
        assert_eq!(s.thread(i).state, ThreadState::Empty);
    }
    assert!(!spawn_would_overflow(&s));
}

#[test]
fn spawned_threads_are_dispatched_in_slot_order() {
    let mut s = Scheduler::new();
    assert_eq!(s.spawn_thread(1, 0x7000, 0x40_1000), Some(1));
    assert_eq!(s.spawn_thread(1, 0x8000, 0x40_2000), Some(2));
    let t0 = s.thread(0);
    assert_eq!((t0.id, t0.parent_process_id, t0.stack_pointer, t0.instruction_pointer), (1, 1, 0x7000, 0x40_1000));
    assert_eq!(t0.state, ThreadState::Ready);
    assert_eq!(s.pop_ready_thread(), Some((0x40_1000, 0x7000)));
    assert_eq!(s.thread(0).state, ThreadState::Running);
    assert_eq!(s.pop_ready_thread(), Some((0x40_2000, 0x8000)));
    assert_eq!(s.pop_ready_thread(), None);
    assert_eq!(s.thread_count, 2);
    assert_eq!(s.thread_count(), 2);
}

#[test]
fn spawn_then_pop_returns_the_new_thread() {
    let mut s = Scheduler::new();
    s.spawn_thread(3, 0x1111, 0x2222);
    assert_eq!(s.pop_ready_thread(), Some((0x2222, 0x1111)));
    assert_eq!(s.spawn_thread(3, 0x3333, 0x4444), Some(2));
    assert_eq!(s.pop_ready_thread(), Some((0x4444, 0x3333)));
}

#[test]
fn full_table_refuses_spawn() {
    let mut s = Scheduler::new();
    for k in 0..MAX_THREADS as u64 {
        assert_eq!(s.spawn_thread(1, k, k), Some(k + 1));
    }
    assert_eq!(s.spawn_thread(1, 0, 0), None);
    assert_eq!(s.thread_count, MAX_THREADS as u64);
    let mut ids: Vec<u64> = (0..MAX_THREADS).map(|i| s.thread(i).id).collect();
    ids.dedup();
    assert_eq!(ids.len(), MAX_THREADS);
}

#[test]
fn counter_overflow_is_detected_before_spawn() {
    let mut s = Scheduler::new();
    s.thread_count = u64::MAX;
    assert!(spawn_would_overflow(&s));
}

#[test]
fn tick_counts() {
    let mut s = Scheduler::new();
    s.tick();
    s.tick();
    assert_eq!(s.ticks, 2);
    assert_eq!(s.ticks(), 2);
}

#[test]
fn userland_spawn_uses_pid_one() {
    let mut s = Scheduler::new();
    spawn_thread(&mut s, 0x40_1000, 0x6000_0001_0000);
    let t = s.thread(0);
    assert_eq!((t.id, t.parent_process_id, t.instruction_pointer, t.stack_pointer), (1, 1, 0x40_1000, 0x6000_0001_0000));
}

#[test]
fn supervisor_mailbox_actions() {
    assert_eq!(supervisor_action(0), SupervisorAction::Idle);
    assert_eq!(supervisor_action(1), SupervisorAction::Handshake);
    assert_eq!(
        supervisor_action(2),
        SupervisorAction::TlbShootdown { vaddr: SHOOTDOWN_TARGET_VADDR, cpu_mask: 0 }
    );
    assert_eq!(supervisor_action(3), SupervisorAction::Ignore);
    assert_eq!(supervisor_action(u64::MAX), SupervisorAction::Ignore);
}

#[test]
fn worker_register_values() {
    assert!(!worker_is_parked(1));
    assert!(!worker_is_parked(3));
    assert!(worker_is_parked(4));
    assert_eq!(worker_cr0(0x8000_0015), 0x8000_0013);
    assert_eq!(worker_cr0(0), 2);
    assert_eq!(worker_cr4(0x20), 0x620);
    assert_eq!(worker_apic_base(0xFEE0_0900), 0xFEE0_0100);
    assert_eq!(worker_apic_base(0xFEE0_0100), 0xFEE0_0100);
}

#[test]
fn smp_wakes_every_core_but_the_boot_processor() {
    let p = smp::init(&[0, 1, 2, 3], 0);
    assert_eq!(p.wake, vec![1, 2, 3]);
    assert_eq!(p.expected_aps, 3);
    let q = smp::init(&[5, 0, 7], 0);
    assert_eq!(q.wake, vec![0, 2]);
    assert_eq!(q.expected_aps, 2);
    let single = smp::init(&[0], 0);
    assert!(single.wake.is_empty());
    assert_eq!(single.expected_aps, 0);
}

#[test]
fn user_stack_covers_128_kib_below_the_top() {
    let pages = user_stack_pages();
    assert_eq!(pages.len(), 32);
    assert_eq!(pages[0], USER_STACK_TOP - 0x1000);
    assert_eq!(pages[31], 0x0000_7FFF_FFFD_0000);
}

#[test]
fn first_module_is_the_god_process() {
    assert_eq!(god_process_module(&[]), None);
    let m = LimineModuleSafe { revision: 0, base: 0xFFFF_8000_0100_0000, length: 4096, path: 1, cmdline: 2 };
    let n = LimineModuleSafe { base: 0x42, ..m };
    assert_eq!(god_process_module(&[m, n]), Some(m));
}

#[test]
fn little_endian_fields() {
    let data = [0x78u8, 0x56, 0x34, 0x12, 0xFF];
    assert_eq!(read_le(&data, 0, 4), 0x1234_5678);
    assert_eq!(read_le(&data, 2, 2), 0x1234);
    assert_eq!(read_le(&data, 4, 1), 0xFF);
    assert_eq!(read_le(&data, 1, 0), 0);
}

#[test]
fn header_parse_and_magic() {
    let img = elf_image(0x40_1000, 64, 56, &[], 64);
    assert!(check_magic(&img));
    assert!(!check_magic(&[0x7F, b'E', b'L']));
    let h = Elf64Header::parse(&img);
    assert_eq!(h.e_entry, 0x40_1000);
    assert_eq!(h.e_phoff, 64);
    assert_eq!(h.e_phentsize, 56);
    assert_eq!(h.e_phnum, 0);
    assert_eq!(h.e_machine, 0x3E);
}

#[test]
fn higher_half_image_is_relocated_to_user_space() {
    let img = elf_image(
        0xFFFF_FFFF_8020_1000,
        64,
        56,
        &[(1, 176, 0xFFFF_FFFF_8020_0000, 8, 0x2000), (4, 0, 0xDEAD_0000, 0, 0)],
        184,
    );
    let p = plan(load_and_get_entry(&img));
    assert_eq!(p.entry_point, 0x40_1000);
    assert_eq!(p.relocation_offset, RELOCATION_OFFSET);
    assert_eq!(
        p.segments,
        vec![KernelSegmentPlan {
            page_start: 0xFFFF_FFFF_8020_0000,
            page_end: 0xFFFF_FFFF_8020_2000,
            relocation: RELOCATION_OFFSET,
            copy_src: 176,
            copy_dst: 0x40_0000,
            copy_len: 8,
        }]
    );
    assert_eq!(page_target(&p.segments[0], 0), 0x40_0000);
    assert_eq!(page_target(&p.segments[0], 1), 0x40_1000);
}

#[test]
fn low_image_is_loaded_where_linked() {
    let img = elf_image(0x40_1234, 64, 56, &[(1, 0, 0x40_0100, 64, 0x100)], 120);
    let p = plan(load_and_get_entry(&img));
    assert_eq!(p.entry_point, 0x40_1234);
    assert_eq!(p.relocation_offset, 0);
    assert_eq!(p.segments[0].page_start, 0x40_0000);
    assert_eq!(p.segments[0].page_end, 0x40_1000);
    assert_eq!(p.segments[0].copy_dst, 0x40_0100);
    assert_eq!(page_target(&p.segments[0], 0), 0x40_0000);
}

#[test]
fn kernel_loader_errors() {
    assert_eq!(error(load_and_get_entry(&[0x7F, b'E', b'L', b'F'])), ElfError::TooShort);
    assert_eq!(error(load_and_get_entry(&vec![0u8; 64])), ElfError::BadMagic);
    let truncated = elf_image(0x40_1000, 100, 56, &[(1, 0, 0x40_0000, 0, 0)], 120);
    assert_eq!(error(load_and_get_entry(&truncated)), ElfError::TruncatedProgramHeaders);
    let past_end = elf_image(0x40_1000, 64, 56, &[(1, 100, 0x40_0000, 64, 64)], 120);
    assert_eq!(error(load_and_get_entry(&past_end)), ElfError::TruncatedSegment);
    let overflow = elf_image(0x40_1000, 64, 56, &[(1, 0, 0xFFFF_FFFF_FFFF_F000, 0, 0x2000)], 120);
    assert_eq!(error(load_and_get_entry(&overflow)), ElfError::SegmentOverflow);
}

#[test]
fn program_header_stride_follows_the_header() {
    let img = elf_image(0x40_0000, 64, 64, &[(6, 0, 0, 0, 0), (1, 0, 0x50_0000, 0, 0x10)], 192);
    let p = plan(load_and_get_entry(&img));
    assert_eq!(p.segments.len(), 1);
    assert_eq!(p.segments[0].page_start, 0x50_0000);
    assert_eq!(p.segments[0].page_end, 0x50_1000);
}
