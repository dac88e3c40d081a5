use stardust::arch::syscall::{decode_batch_command, decode_syscall, plan_framebuffer_mapping, FramebufferPlan, SyscallRequest, SYS_PORT_OUT};
use stardust::task::elf::ElfError;
use stardust::userland::elf::{load, Elf64Ehdr, ElfImage, LoadSegment};
use stardust::userland::initrc::{parse_line, plan_init, InitAction};
use stardust::userland::tar::{generate_object_id, parse, Object};

use stardust::userland::ipc::{trace_command, TRACE_ACTION};
use stardust::userland::ipc::port_out_arg;
use stardust::userland::ipc::{grant_result, irq_pending, IpcMessage};
use stardust::userland::marshal::{deep_stack_top, driver_stack_top};
use stardust::userland::marshal::aligned_request;
use stardust::userland::marshal::{decode_fb_meta, FbGeometry};
use stardust::userland::marshal::{clip_rect, ClipOutcome};

/// (p_type, p_offset, p_vaddr, p_filesz, p_memsz) of one program header.
type Phdr = (u32, u64, u64, u64, u64);

fn put(buf: &mut [u8], off: usize, v: u64, n: usize) {
    buf[off..off + n].copy_from_slice(&v.to_le_bytes()[..n]);
}

fn elf_image(entry: u64, phoff: u64, phdrs: &[Phdr], len: usize) -> Vec<u8> {
    let mut b = vec![0u8; len];
    b[0..4].copy_from_slice(&[0x7F, b'E', b'L', b'F']);
    put(&mut b, 24, entry, 8);
    put(&mut b, 32, phoff, 8);
    put(&mut b, 54, 56, 2);
    put(&mut b, 56, phdrs.len() as u64, 2);
    for (i, p) in phdrs.iter().enumerate() {
        let o = phoff as usize + i * 56;
        if o + 56 <= len {
            put(&mut b, o, p.0 as u64, 4);
            put(&mut b, o + 8, p.1, 8);
            put(&mut b, o + 16, p.2, 8);
            put(&mut b, o + 32, p.3, 8);
            put(&mut b, o + 40, p.4, 8);
        }
    }
    b
}

fn tar_header(name: &[u8], size_field: &[u8]) -> Vec<u8> {
    let mut h = vec![0u8; 512];
    h[..name.len()].copy_from_slice(name);
    h[124..124 + size_field.len()].copy_from_slice(size_field);
    h
}

fn tar(members: &[(&[u8], &[u8])]) -> &'static [u8] {
    let mut out = Vec::new();
    for (name, data) in members {
        out.extend(tar_header(name, format!("{:011o}", data.len()).as_bytes()));
        out.extend_from_slice(data);
        while out.len() % 512 != 0 {
            out.push(0);
        }
    }
    out.extend(vec![0u8; 1024]);
    Box::leak(out.into_boxed_slice())
}

fn image(r: Result<ElfImage, ElfError>) -> ElfImage {
    match r {
        Ok(i) => i,
        Err(e) => panic!("load failed: {:?}", e),
    }
}

fn error(r: Result<ElfImage, ElfError>) -> ElfError {
    match r {
        Ok(_) => panic!("load succeeded"),
        Err(e) => e,
    }
}

fn driver_elf(entry: u64) -> Vec<u8> {
    elf_image(entry, 64, &[(1, 0, 0x40_0000, 120, 0x3000)], 120)
}

// ---------------------------------------------------------------- tar

#[test]
fn object_ids_are_fnv1a() {
    assert_eq!(generate_object_id(""), 0xcbf2_9ce4_8422_2325);
    assert_eq!(generate_object_id("a"), 0xaf63_dc4c_8601_ec8c);
    assert_eq!(generate_object_id("foobar"), 0x8594_4171_f739_67e8);
}

#[test]
fn archive_members_in_order() {
    let archive = tar(&[(b"init.rc", b"driver:gpu\n"), (b"dir/readme.txt", b""), (b"gpu", &[7u8; 600])]);
    let objs = parse(archive);
    assert_eq!(objs.len(), 3);
    assert_eq!(objs[0].name, "init.rc");
    assert_eq!(objs[0].id, generate_object_id("init.rc"));
    assert_eq!(objs[0].data, b"driver:gpu\n");
    assert_eq!(objs[1].name, "dir/readme.txt");
    assert!(objs[1].data.is_empty());
    assert_eq!(objs[2].name, "gpu");
    assert_eq!(objs[2].data, &[7u8; 600][..]);
}

#[test]
fn empty_archive_and_end_block() {
    assert!(parse(Box::leak(vec![0u8; 1024].into_boxed_slice())).is_empty());
    assert!(parse(&[]).is_empty());
    assert!(parse(Box::leak(vec![b'x'; 100].into_boxed_slice())).is_empty());
}

#[test]
fn invalid_utf8_name_becomes_unknown() {
    let archive = tar(&[(&[0xFF, 0xFE, b'x'], b"abc")]);
    let objs = parse(archive);
    assert_eq!(objs.len(), 1);
    assert_eq!(objs[0].name, "UNKNOWN");
    assert_eq!(objs[0].id, generate_object_id("UNKNOWN"));
    assert_eq!(objs[0].data, b"abc");
}

#[test]
fn member_running_past_the_end_is_skipped() {
    let mut bytes = tar_header(b"big", b"00000007777");
    bytes.extend(vec![1u8; 512]);
    assert!(parse(Box::leak(bytes.into_boxed_slice())).is_empty());
}

#[test]
fn size_field_skips_non_octal_bytes() {
    let mut bytes = tar_header(b"f", b" 12 ");
    bytes.extend(vec![b'z'; 512]);
    bytes.extend(vec![0u8; 512]);
    let objs = parse(Box::leak(bytes.into_boxed_slice()));
    assert_eq!(objs.len(), 1);
    assert_eq!(objs[0].data.len(), 10);
}

#[test]
fn long_name_fills_the_whole_field() {
    let name = [b'n'; 100];
    let archive = tar(&[(&name, b"q")]);
    let objs = parse(archive);
    assert_eq!(objs[0].name.len(), 100);
}

// ---------------------------------------------------------------- user ELF

#[test]
fn user_elf_load_plan() {
    let img = elf_image(0x40_1000, 64, &[(1, 0, 0x40_0000, 120, 0x3000), (2, 0, 0, 0, 0), (1, 64, 0x60_0000, 0, 1)], 232);
    let h = Elf64Ehdr::parse(&img);
    assert_eq!((h.e_entry, h.e_phoff, h.e_phnum), (0x40_1000, 64, 3));
    let i = image(load(&img));
    assert_eq!(i.entry, 0x40_1000);
    assert_eq!(
        i.segments,
        vec![
            LoadSegment { vaddr: 0x40_0000, pages: 3, file_offset: 0, filesz: 120, memsz: 0x3000 },
            LoadSegment { vaddr: 0x60_0000, pages: 1, file_offset: 64, filesz: 0, memsz: 1 },
        ]
    );
}

#[test]
fn user_elf_errors() {
    assert_eq!(error(load(&[0x7F, b'E', b'L', b'F'])), ElfError::TooShort);
    assert_eq!(error(load(&vec![b'M'; 64])), ElfError::BadMagic);
    assert_eq!(error(load(&elf_image(0, 100, &[(1, 0, 0, 0, 0)], 120))), ElfError::TruncatedProgramHeaders);
    assert_eq!(error(load(&elf_image(0, 64, &[(1, 64, 0, 100, 100)], 120))), ElfError::TruncatedSegment);
    assert_eq!(error(load(&elf_image(0, 64, &[(1, 0, 0, 0, u64::MAX)], 120))), ElfError::SegmentOverflow);
}

// ---------------------------------------------------------------- init.rc

fn objects() -> Vec<Object> {
    let gpu = driver_elf(0x40_1000);
    let hid = driver_elf(0x40_2000);
    let bad = elf_image(0x40_3000, 100, &[(1, 0, 0, 0, 0)], 120);
    let rc = b"driver:gpu\n  app:ui.wasm  \nnoise\ndriver:missing\n\tdriver:notes\ndriver:bad\r\ndriver:hid\n";
    parse(tar(&[
        (b"init.rc", rc),
        (b"gpu", &gpu),
        (b"ui.wasm", b"\0asm\x01\0\0\0"),
        (b"notes", b"hello"),
        (b"bad", &bad),
        (b"hid", &hid),
    ]))
}

#[test]
fn init_rc_launches_drivers_with_their_own_stacks() {
    let objs = objects();
    let actions = plan_init(&objs);
    assert_eq!(actions.len(), 4);
    match &actions[0] {
        InitAction::LaunchDriver { object, image, stack_base } => {
            assert_eq!(*object, 1);
            assert_eq!(image.entry, 0x40_1000);
            assert_eq!(image.segments, vec![LoadSegment { vaddr: 0x40_0000, pages: 3, file_offset: 0, filesz: 120, memsz: 0x3000 }]);
            assert_eq!(*stack_base, 0x0000_6000_0000_0000);
        },
        _ => panic!("expected a driver launch"),
    }
    match &actions[1] {
        InitAction::SelectApp { object } => assert_eq!(*object, 2),
        _ => panic!("expected the application"),
    }
    match &actions[2] {
        InitAction::LoadFault { object, error } => {
            assert_eq!(*object, 4);
            assert_eq!(*error, ElfError::TruncatedProgramHeaders);
        },
        _ => panic!("expected a load fault"),
    }
    match &actions[3] {
        InitAction::LaunchDriver { object, image, stack_base } => {
            assert_eq!(*object, 5);
            assert_eq!(image.entry, 0x40_2000);
            assert_eq!(*stack_base, 0x0000_6000_0010_0000);
        },
        _ => panic!("expected a driver launch"),
    }
}

#[test]
fn no_init_rc_means_nothing_to_start() {
    let gpu = driver_elf(0x40_1000);
    let objs = parse(tar(&[(b"gpu", &gpu), (b"readme", b"driver:gpu\n")]));
    assert!(plan_init(&objs).is_empty());
}

#[test]
fn init_rc_that_is_not_utf8_is_ignored() {
    let gpu = driver_elf(0x40_1000);
    let objs = parse(tar(&[(b"init.rc", b"driver:gpu\n\xFF\n"), (b"gpu", &gpu)]));
    assert!(plan_init(&objs).is_empty());
}

#[test]
fn every_file_of_a_name_is_started() {
    let gpu = driver_elf(0x40_1000);
    let objs = parse(tar(&[(b"init.rc", b"driver:gpu"), (b"gpu", &gpu), (b"gpu", &gpu)]));
    let actions = plan_init(&objs);
    assert_eq!(actions.len(), 2);
    let bases: Vec<(usize, u64)> = actions
        .iter()
        .map(|a| match a {
            InitAction::LaunchDriver { object, stack_base, .. } => (*object, *stack_base),
            _ => panic!("expected launches"),
        })
        .collect();
    assert_eq!(bases, vec![(1, 0x0000_6000_0000_0000), (2, 0x0000_6000_0010_0000)]);
    // The two stacks of 16 pages do not overlap.
    assert!(bases[0].1 + 16 * 4096 <= bases[1].1);
}

// ---------------------------------------------------------------- batch / IPC helpers

#[test]
fn trace_commands_reach_the_batch_router() {
    assert_eq!(trace_command(0x8060), 0x0000_DB60_0000_8060);
    assert_eq!(decode_batch_command(trace_command(0xDEAD_BEEF)), (TRACE_ACTION, 0xDEAD_BEEF));
}

#[test]
fn port_out_argument_round_trip() {
    let a = port_out_arg(0x60, 1);
    assert_eq!(a, 0x1_0060);
    assert_eq!(decode_syscall(SYS_PORT_OUT, a, 0xF4), SyscallRequest::PortOut { port: 0x60, size: 1, value: 0xF4 });
    let b = port_out_arg(0xCF8, 4);
    assert_eq!(decode_syscall(SYS_PORT_OUT, b, 0x8000_0000), SyscallRequest::PortOut { port: 0xCF8, size: 4, value: 0x8000_0000 });
}

#[test]
fn syscall_result_helpers() {
    assert_eq!(grant_result(u64::MAX), Err(()));
    assert_eq!(grant_result(0), Ok(()));
    assert_eq!(grant_result(0x4000_0000), Ok(()));
    assert!(irq_pending(1));
    assert!(!irq_pending(0));
    let m = IpcMessage { sender_id: 1, target_id: 2, action: 3, flags: 0, payload: [0; 52] };
    assert_eq!(m.payload.len(), 52);
}

// ---------------------------------------------------------------- supervisor layout

#[test]
fn supervisor_memory_layout() {
    assert_eq!(deep_stack_top(), 0x0000_6000_01F0_0000);
    assert_eq!(driver_stack_top(0x0000_6000_0000_0000), 0x0000_6000_0001_0000);
}

#[test]
fn allocator_requests_are_rounded() {
    assert_eq!(aligned_request(10, 1), (16, 16));
    assert_eq!(aligned_request(17, 8), (32, 16));
    assert_eq!(aligned_request(100, 64), (128, 64));
    assert_eq!(aligned_request(0, 4096), (0, 4096));
    assert_eq!(aligned_request(4096, 4096), (4096, 4096));
}

#[test]
fn framebuffer_metadata_decodes() {
    assert_eq!(decode_fb_meta(0), None);
    assert_eq!(decode_fb_meta(u64::MAX), None);
    assert_eq!(decode_fb_meta((4096u64 << 32) | 768), Some(FbGeometry { width: 1024, height: 768 }));
    // What the kernel answers to the mapping call reads back as the screen size.
    match plan_framebuffer_mapping(Some((0xFD00_0000, 1280, 720, 5120)), 0xB000_0000) {
        FramebufferPlan::MapPages { result, .. } => {
            assert_eq!(decode_fb_meta(result), Some(FbGeometry { width: 1280, height: 720 }));
        },
        p => panic!("unexpected plan {:?}", p),
    }
}

#[test]
fn rectangles_are_clipped_to_the_framebuffer() {
    assert_eq!(clip_rect(-1, 0, 10, 10, 1024, 768), ClipOutcome::Skip);
    assert_eq!(clip_rect(0, -5, 10, 10, 1024, 768), ClipOutcome::Skip);
    assert_eq!(clip_rect(10, 10, 100, 100, 1024, 768), ClipOutcome::Fill { x: 10, y: 10, width: 100, height: 100 });
    assert_eq!(clip_rect(1000, 700, 100, 100, 1024, 768), ClipOutcome::Fill { x: 1000, y: 700, width: 24, height: 68 });
    assert_eq!(clip_rect(0, 0, -1, 5, 1024, 768), ClipOutcome::Fill { x: 0, y: 0, width: 1024, height: 5 });
    assert_eq!(clip_rect(2000, 0, 10, 10, 1024, 768), ClipOutcome::Overflow);
    assert_eq!(clip_rect(5, 0, -1, 5, 1024, 768), ClipOutcome::Overflow);
}

#[test]
fn init_rc_lines_parse_to_directives() {
    let d = parse_line("driver:gpu").unwrap();
    assert!(d.is_driver);
    assert_eq!(d.name, "gpu");
    let a = parse_line("app:ui.wasm").unwrap();
    assert!(!a.is_driver);
    assert_eq!(a.name, "ui.wasm");
    let empty = parse_line("driver:").unwrap();
    assert_eq!(empty.name, "");
    assert!(parse_line("noise").is_none());
    assert!(parse_line("drive:x").is_none());
    assert!(parse_line("").is_none());
    assert!(parse_line(" driver:gpu").is_none());
}

#[test]
fn init_rc_with_crlf_and_unicode_spaces() {
    let gpu = driver_elf(0x40_1000);
    let rc = "driver:gpu\r\n\u{3000}app:ui.wasm\u{A0}\r\n".as_bytes();
    let objs = parse(tar(&[(b"init.rc", rc), (b"gpu", &gpu), (b"ui.wasm", b"x")]));
    let actions = plan_init(&objs);
    assert_eq!(actions.len(), 2);
    assert!(matches!(actions[0], InitAction::LaunchDriver { object: 1, .. }));
    assert!(matches!(actions[1], InitAction::SelectApp { object: 2 }));
}
