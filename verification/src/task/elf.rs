//! The kernel's ELF64 loader: header decoding, validation, relocation of
//! images linked into the kernel's higher half, and the page mappings and
//! copies that load their segments.
use vstd::prelude::*;

verus! {

/// Size of an ELF64 file header.
pub const EHDR_SIZE: usize = 64;

/// Size of an ELF64 program header.
pub const PHDR_SIZE: usize = 56;

/// Program header type of a loadable segment.
pub const PT_LOAD: u32 = 1;

/// Start of the kernel's higher half: entry points at or above it collide
/// with the kernel.
pub const KERNEL_HALF_START: u64 = 0xFFFF_FFFF_8000_0000;

/// Link base of images linked into the kernel's higher half.
pub const KERNEL_LINK_BASE: u64 = 0xFFFF_FFFF_8020_0000;

/// Base that colliding images are relocated to in user space.
pub const USER_LOAD_BASE: u64 = 0x40_0000;

/// Offset subtracted from every address of a colliding image.
pub const RELOCATION_OFFSET: u64 = 0xFFFF_FFFF_7FE0_0000;

/// The number that little-endian bytes denote.
pub open spec fn le_value(s: Seq<u8>) -> nat
    decreases s.len(),
{
    if s.len() == 0 {
        0
    } else {
        s[0] as nat + 256 * le_value(s.drop_first())
    }
}

/// 256 to the power `k`.
pub open spec fn pow256(k: nat) -> nat
    decreases k,
{
    if k == 0 {
        1
    } else {
        256 * pow256((k - 1) as nat)
    }
}

proof fn lemma_le_bound(s: Seq<u8>)
    ensures
        le_value(s) < pow256(s.len()),
    decreases s.len(),
{
    if s.len() > 0 {
        lemma_le_bound(s.drop_first());
    }
}

proof fn lemma_pow256_mono(a: nat, b: nat)
    requires
        a <= b,
    ensures
        pow256(a) <= pow256(b),
    decreases b,
{
    if a < b {
        lemma_pow256_mono(a, (b - 1) as nat);
    }
}

/// The little-endian field of `n` bytes at `off` in `s`.
pub open spec fn le_field(s: Seq<u8>, off: int, n: int) -> nat {
    le_value(s.subrange(off, off + n))
}

/// Reads the little-endian unsigned field of `n` bytes (at most 8) at `off`.
pub fn read_le(data: &[u8], off: usize, n: usize) -> (r: u64)
    requires
        n <= 8,
        off + n <= data@.len(),
    ensures
        r == le_field(data@, off as int, n as int),
{
    let len = data.len();
    proof {
        lemma_pow256_mono(n as nat, 8);
        assert(pow256(8) == 0x1_0000_0000_0000_0000) by {
            reveal_with_fuel(pow256, 9);
        }
    }
    let mut v: u64 = 0;
    let mut i: usize = n;
    while i > 0
        invariant
            0 <= i <= n <= 8,
            off + n <= data@.len(),
            len == data@.len(),
            v == le_value(data@.subrange(off + i, off + n)),
            pow256(n as nat) <= 0x1_0000_0000_0000_0000,
        decreases i,
    {
        proof {
            lemma_le_bound(data@.subrange(off + i, off + n));
            lemma_pow256_mono((n - i) as nat, (n - 1) as nat);
            assert(data@.subrange(off + i - 1, off + n).drop_first() =~= data@.subrange(off + i, off + n));
            assert(pow256(n as nat) == 256 * pow256((n - 1) as nat));
        }
        i -= 1;
        v = v * 256 + data[off + i] as u64;
    }
    v
}

/// Standard ELF64 file header.
#[derive(Debug, Clone, Copy)]
pub struct Elf64Header {
    pub e_ident: [u8; 16],
    pub e_type: u16,
    pub e_machine: u16,
    pub e_version: u32,
    pub e_entry: u64,
    pub e_phoff: u64,
    pub e_shoff: u64,
    pub e_flags: u32,
    pub e_ehsize: u16,
    pub e_phentsize: u16,
    pub e_phnum: u16,
    pub e_shentsize: u16,
    pub e_shnum: u16,
    pub e_shstrndx: u16,
}

/// Standard ELF64 program header.
#[derive(Debug, Clone, Copy)]
pub struct Elf64Phdr {
    pub p_type: u32,
    pub p_flags: u32,
    pub p_offset: u64,
    pub p_vaddr: u64,
    pub p_paddr: u64,
    pub p_filesz: u64,
    pub p_memsz: u64,
    pub p_align: u64,
}

/// Whether `h` is the ELF64 file header that the first 64 bytes of `s` encode.
pub open spec fn header_encoded(s: Seq<u8>, h: Elf64Header) -> bool {
    &&& h.e_ident@ == s.subrange(0, 16)
    &&& h.e_type == le_field(s, 16, 2)
    &&& h.e_machine == le_field(s, 18, 2)
    &&& h.e_version == le_field(s, 20, 4)
    &&& h.e_entry == le_field(s, 24, 8)
    &&& h.e_phoff == le_field(s, 32, 8)
    &&& h.e_shoff == le_field(s, 40, 8)
    &&& h.e_flags == le_field(s, 48, 4)
    &&& h.e_ehsize == le_field(s, 52, 2)
    &&& h.e_phentsize == le_field(s, 54, 2)
    &&& h.e_phnum == le_field(s, 56, 2)
    &&& h.e_shentsize == le_field(s, 58, 2)
    &&& h.e_shnum == le_field(s, 60, 2)
    &&& h.e_shstrndx == le_field(s, 62, 2)
}

/// The program header that the 56 bytes at `off` of `s` encode.
pub open spec fn decode_phdr(s: Seq<u8>, off: int) -> Elf64Phdr {
    Elf64Phdr {
        p_type: le_field(s, off, 4) as u32,
        p_flags: le_field(s, off + 4, 4) as u32,
        p_offset: le_field(s, off + 8, 8) as u64,
        p_vaddr: le_field(s, off + 16, 8) as u64,
        p_paddr: le_field(s, off + 24, 8) as u64,
        p_filesz: le_field(s, off + 32, 8) as u64,
        p_memsz: le_field(s, off + 40, 8) as u64,
        p_align: le_field(s, off + 48, 8) as u64,
    }
}

/// The entry point field of an ELF64 file header.
pub open spec fn header_entry(s: Seq<u8>) -> u64 {
    le_field(s, 24, 8) as u64
}

/// The program header table offset field of an ELF64 file header.
pub open spec fn header_phoff(s: Seq<u8>) -> nat {
    le_field(s, 32, 8)
}

/// The program header entry size field of an ELF64 file header.
pub open spec fn header_phentsize(s: Seq<u8>) -> nat {
    le_field(s, 54, 2)
}

/// The program header count field of an ELF64 file header.
pub open spec fn header_phnum(s: Seq<u8>) -> nat {
    le_field(s, 56, 2)
}

/// Whether the image starts with the ELF magic number 0x7F 'E' 'L' 'F'.
pub open spec fn has_elf_magic(s: Seq<u8>) -> bool {
    s.len() >= 4 && s[0] == 0x7F && s[1] == 0x45 && s[2] == 0x4C && s[3] == 0x46
}

fn read_u16(data: &[u8], off: usize) -> (r: u16)
    requires
        off + 2 <= data@.len(),
    ensures
        r == le_field(data@, off as int, 2),
{
    proof {
        lemma_le_bound(data@.subrange(off as int, off + 2));
        assert(pow256(2) == 65536) by {
            reveal_with_fuel(pow256, 3);
        }
    }
    read_le(data, off, 2) as u16
}

fn read_u32(data: &[u8], off: usize) -> (r: u32)
    requires
        off + 4 <= data@.len(),
    ensures
        r == le_field(data@, off as int, 4),
{
    proof {
        lemma_le_bound(data@.subrange(off as int, off + 4));
        assert(pow256(4) == 0x1_0000_0000) by {
            reveal_with_fuel(pow256, 5);
        }
    }
    read_le(data, off, 4) as u32
}

impl Elf64Header {
    /// Decodes the file header at the start of `data`.
    pub fn parse(data: &[u8]) -> (h: Elf64Header)
        requires
            data@.len() >= EHDR_SIZE,
        ensures
            header_encoded(data@, h),
    {
        let ident: [u8; 16] = [
            data[0],
            data[1],
            data[2],
            data[3],
            data[4],
            data[5],
            data[6],
            data[7],
            data[8],
            data[9],
            data[10],
            data[11],
            data[12],
            data[13],
            data[14],
            data[15],
        ];
        assert(ident@ =~= data@.subrange(0, 16));
        Elf64Header {
            e_ident: ident,
            e_type: read_u16(data, 16),
            e_machine: read_u16(data, 18),
            e_version: read_u32(data, 20),
            e_entry: read_le(data, 24, 8),
            e_phoff: read_le(data, 32, 8),
            e_shoff: read_le(data, 40, 8),
            e_flags: read_u32(data, 48),
            e_ehsize: read_u16(data, 52),
            e_phentsize: read_u16(data, 54),
            e_phnum: read_u16(data, 56),
            e_shentsize: read_u16(data, 58),
            e_shnum: read_u16(data, 60),
            e_shstrndx: read_u16(data, 62),
        }
    }
}

impl Elf64Phdr {
    /// Decodes the program header at `off` of `data`.
    pub fn parse(data: &[u8], off: usize) -> (p: Elf64Phdr)
        requires
            off + PHDR_SIZE <= data@.len(),
        ensures
            p == decode_phdr(data@, off as int),
    {
        let _len = data.len();
        Elf64Phdr {
            p_type: read_u32(data, off),
            p_flags: read_u32(data, off + 4),
            p_offset: read_le(data, off + 8, 8),
            p_vaddr: read_le(data, off + 16, 8),
            p_paddr: read_le(data, off + 24, 8),
            p_filesz: read_le(data, off + 32, 8),
            p_memsz: read_le(data, off + 40, 8),
            p_align: read_le(data, off + 48, 8),
        }
    }
}

/// Whether the image starts with the ELF magic number.
pub fn check_magic(data: &[u8]) -> (r: bool)
    ensures
        r == has_elf_magic(data@),
{
    data.len() >= 4 && data[0] == 0x7F && data[1] == 0x45 && data[2] == 0x4C && data[3] == 0x46
}

/// Why an image cannot be loaded.
#[derive(Debug, Clone, Copy, PartialEq, Eq, Structural)]
pub enum ElfError {
    /// The image is shorter than a file header.
    TooShort,
    /// The image does not start with the ELF magic number.
    BadMagic,
    /// A program header lies outside the image.
    TruncatedProgramHeaders,
    /// A segment's address range or file range overflows 64 bits.
    SegmentOverflow,
    /// A segment's file contents lie outside the image.
    TruncatedSegment,
}

/// How the kernel loads one PT_LOAD segment: every page from `page_start`
/// to `page_end` (the segment's pages at their linked addresses) gets a fresh
/// zeroed frame mapped at the page minus `relocation`, then `copy_len` bytes
/// from offset `copy_src` of the image are copied to `copy_dst`.
#[derive(Debug, Clone, Copy, PartialEq, Eq, Structural)]
pub struct KernelSegmentPlan {
    pub page_start: u64,
    pub page_end: u64,
    pub relocation: u64,
    pub copy_src: u64,
    pub copy_dst: u64,
    pub copy_len: u64,
}

/// How the kernel loads an image: its (relocated) entry point, the relocation
/// applied to all its addresses, and its loadable segments in order.
pub struct KernelElfPlan {
    pub entry_point: u64,
    pub relocation_offset: u64,
    pub segments: Vec<KernelSegmentPlan>,
}

/// The relocation applied to an image whose entry point is `e_entry`: images
/// whose entry point is in the kernel's higher half move down to user space.
pub open spec fn relocation_for(e_entry: u64) -> u64 {
    if e_entry >= KERNEL_HALF_START {
        RELOCATION_OFFSET
    } else {
        0
    }
}

/// `a - b` modulo 2^64.
pub open spec fn wrap_sub(a: u64, b: u64) -> u64 {
    vstd::wrapping::u64_specs::wrapping_sub(a, b)
}

/// Whether the file contents of a loadable segment lie outside the image.
pub open spec fn segment_truncated(s: Seq<u8>, p: Elf64Phdr) -> bool {
    p.p_filesz > 0 && p.p_offset + p.p_filesz > s.len()
}

/// The loadable program headers among the first `n` headers of the table at
/// `phoff` with entries every `stride` bytes, in order; or the error met at
/// the first header that lies outside the image or whose file contents do.
pub open spec fn load_phdrs(s: Seq<u8>, phoff: nat, stride: nat, n: nat) -> Result<Seq<Elf64Phdr>, ElfError>
    decreases n,
{
    if n == 0 {
        Ok(seq![])
    } else {
        match load_phdrs(s, phoff, stride, (n - 1) as nat) {
            Err(e) => Err(e),
            Ok(done) => {
                let off = phoff + (n - 1) * stride;
                if off + PHDR_SIZE > s.len() {
                    Err(ElfError::TruncatedProgramHeaders)
                } else {
                    let p = decode_phdr(s, off);
                    if p.p_type != PT_LOAD {
                        Ok(done)
                    } else if segment_truncated(s, p) {
                        Err(ElfError::TruncatedSegment)
                    } else {
                        Ok(done.push(p))
                    }
                }
            },
        }
    }
}

proof fn lemma_le_field_bound(s: Seq<u8>, off: int, n: int)
    requires
        0 <= off,
        0 <= n <= 8,
        off + n <= s.len(),
    ensures
        le_field(s, off, n) < pow256(n as nat),
        pow256(n as nat) <= 0x1_0000_0000_0000_0000,
        n == 2 ==> pow256(n as nat) == 65536,
        n == 4 ==> pow256(n as nat) == 0x1_0000_0000,
{
    lemma_le_bound(s.subrange(off, off + n));
    lemma_pow256_mono(n as nat, 8);
    reveal_with_fuel(pow256, 9);
}

/// Reads the loadable program headers of `data` from the table at `phoff`
/// with entries every `stride` bytes.
pub fn read_load_phdrs(data: &[u8], phoff: u64, stride: u64, phnum: u64) -> (r: Result<Vec<Elf64Phdr>, ElfError>)
    requires
        stride <= 0xFFFF,
        phnum <= 0xFFFF,
    ensures
        match load_phdrs(data@, phoff as nat, stride as nat, phnum as nat) {
            Err(e) => r == Err::<Vec<Elf64Phdr>, ElfError>(e),
            Ok(ps) => r matches Ok(v) && v@ == ps,
        },
{
    let ulen = data.len();
    let len = ulen as u64;
    let mut out: Vec<Elf64Phdr> = Vec::new();
    let mut i: u64 = 0;
    while i < phnum
        invariant
            0 <= i <= phnum <= 0xFFFF,
            stride <= 0xFFFF,
            len == data@.len(),
            ulen == data@.len(),
            load_phdrs(data@, phoff as nat, stride as nat, i as nat) == Ok::<Seq<Elf64Phdr>, ElfError>(out@),
        decreases phnum - i,
    {
        assert(i * stride <= 0xFFFF * 0xFFFF) by (nonlinear_arith)
            requires
                i <= 0xFFFF,
                stride <= 0xFFFF,
        ;
        let rel = i * stride;
        if phoff > len || rel > len - phoff || len - phoff - rel < PHDR_SIZE as u64 {
            proof {
                lemma_load_phdrs_err_sticks(data@, phoff as nat, stride as nat, (i + 1) as nat, phnum as nat);
            }
            return Err(ElfError::TruncatedProgramHeaders);
        }
        let off = (phoff + rel) as usize;
        assert(off == phoff + i * stride);
        let p = Elf64Phdr::parse(data, off);
        if p.p_type == PT_LOAD {
            if p.p_filesz > 0 && (p.p_offset > len || p.p_filesz > len - p.p_offset) {
                proof {
                    lemma_load_phdrs_err_sticks(data@, phoff as nat, stride as nat, (i + 1) as nat, phnum as nat);
                }
                return Err(ElfError::TruncatedSegment);
            }
            out.push(p);
        }
        i += 1;
    }
    Ok(out)
}

proof fn lemma_load_phdrs_err_sticks(s: Seq<u8>, phoff: nat, stride: nat, k: nat, n: nat)
    requires
        k <= n,
        load_phdrs(s, phoff, stride, k) is Err,
    ensures
        load_phdrs(s, phoff, stride, n) == load_phdrs(s, phoff, stride, k),
    decreases n - k,
{
    if k < n {
        lemma_load_phdrs_err_sticks(s, phoff, stride, k + 1, n);
    }
}

/// The plan of a loadable segment, or `None` when its page range overflows.
pub open spec fn kernel_segment(p: Elf64Phdr, relocation: u64) -> Option<KernelSegmentPlan> {
    if p.p_vaddr + p.p_memsz + 0xFFF > u64::MAX {
        None
    } else {
        Some(
            KernelSegmentPlan {
                page_start: (p.p_vaddr - p.p_vaddr % 4096) as u64,
                page_end: ((p.p_vaddr + p.p_memsz + 0xFFF) - (p.p_vaddr + p.p_memsz + 0xFFF) % 4096) as u64,
                relocation,
                copy_src: p.p_offset,
                copy_dst: wrap_sub(p.p_vaddr, relocation),
                copy_len: p.p_filesz,
            },
        )
    }
}

/// The plans of the segments `ps`, or an overflow error at the first one
/// whose page range overflows.
pub open spec fn kernel_segments(ps: Seq<Elf64Phdr>, relocation: u64) -> Result<Seq<KernelSegmentPlan>, ElfError>
    decreases ps.len(),
{
    if ps.len() == 0 {
        Ok(seq![])
    } else {
        match kernel_segments(ps.drop_last(), relocation) {
            Err(e) => Err(e),
            Ok(done) => match kernel_segment(ps.last(), relocation) {
                None => Err(ElfError::SegmentOverflow),
                Some(seg) => Ok(done.push(seg)),
            },
        }
    }
}

/// The outcome of loading `s`: the relocated entry point and the segment
/// plans, or why the image cannot be loaded.
pub open spec fn kernel_load(s: Seq<u8>) -> Result<(u64, u64, Seq<KernelSegmentPlan>), ElfError> {
    if s.len() < EHDR_SIZE {
        Err(ElfError::TooShort)
    } else if !has_elf_magic(s) {
        Err(ElfError::BadMagic)
    } else {
        let relocation = relocation_for(header_entry(s));
        match load_phdrs(s, header_phoff(s), header_phentsize(s), header_phnum(s)) {
            Err(e) => Err(e),
            Ok(ps) => match kernel_segments(ps, relocation) {
                Err(e) => Err(e),
                Ok(segs) => Ok((wrap_sub(header_entry(s), relocation), relocation, segs)),
            },
        }
    }
}

fn page_floor(x: u64) -> (r: u64)
    ensures
        r == x - x % 4096,
{
    let r = x & !0xFFFu64;
    assert(r == x - x % 4096) by (bit_vector)
        requires
            r == x & !0xFFFu64,
    ;
    r
}

/// Plans the loading of the ELF image `image`: checks its magic number,
/// relocates images whose entry point is in the kernel's higher half down to
/// user space, and lists, for every loadable segment, the pages to back with
/// fresh zeroed frames and the bytes to copy from the image.
pub fn load_and_get_entry(image: &[u8]) -> (r: Result<KernelElfPlan, ElfError>)
    ensures
        match kernel_load(image@) {
            Err(e) => r matches Err(e2) && e2 == e,
            Ok((entry, relocation, segs)) => r matches Ok(plan) && plan.entry_point == entry
                && plan.relocation_offset == relocation && plan.segments@ == segs,
        },
{
    if image.len() < EHDR_SIZE {
        return Err(ElfError::TooShort);
    }
    if !check_magic(image) {
        return Err(ElfError::BadMagic);
    }
    let header = Elf64Header::parse(image);
    let is_colliding = header.e_entry >= KERNEL_HALF_START;
    let relocation_offset = if is_colliding {
        KERNEL_LINK_BASE.wrapping_sub(USER_LOAD_BASE)
    } else {
        0
    };
    let entry_point = header.e_entry.wrapping_sub(relocation_offset);
    proof {
        lemma_le_field_bound(image@, 54, 2);
        lemma_le_field_bound(image@, 56, 2);
    }
    let phdrs = match read_load_phdrs(
        image,
        header.e_phoff,
        header.e_phentsize as u64,
        header.e_phnum as u64,
    ) {
        Err(e) => return Err(e),
        Ok(v) => v,
    };
    let ghost ps = phdrs@;
    assert(relocation_offset == relocation_for(header_entry(image@)));
    assert(entry_point == wrap_sub(header_entry(image@), relocation_offset));
    let mut segments: Vec<KernelSegmentPlan> = Vec::new();
    let mut k: usize = 0;
    while k < phdrs.len()
        invariant
            0 <= k <= phdrs@.len(),
            ps == phdrs@,
            kernel_load(image@) == (match kernel_segments(ps, relocation_offset) {
                Err(e) => Err(e),
                Ok(segs) => Ok((entry_point, relocation_offset, segs)),
            }),
            kernel_segments(ps.subrange(0, k as int), relocation_offset) == Ok::<
                Seq<KernelSegmentPlan>,
                ElfError,
            >(segments@),
        decreases phdrs.len() - k,
    {
        let p = phdrs[k];
        assert(ps.subrange(0, k + 1).drop_last() =~= ps.subrange(0, k as int));
        if p.p_vaddr > u64::MAX - 0xFFF || p.p_memsz > u64::MAX - 0xFFF - p.p_vaddr {
            proof {
                lemma_kernel_segments_err_sticks(ps, relocation_offset, (k + 1) as nat);
            }
            return Err(ElfError::SegmentOverflow);
        }
        let page_start = page_floor(p.p_vaddr);
        let page_end = page_floor(p.p_vaddr + p.p_memsz + 0xFFF);
        segments.push(
            KernelSegmentPlan {
                page_start,
                page_end,
                relocation: relocation_offset,
                copy_src: p.p_offset,
                copy_dst: p.p_vaddr.wrapping_sub(relocation_offset),
                copy_len: p.p_filesz,
            },
        );
        k += 1;
    }
    assert(ps.subrange(0, ps.len() as int) =~= ps);
    Ok(KernelElfPlan { entry_point, relocation_offset, segments })
}

/// Once the segment plans of a prefix fail, every longer prefix fails with
/// the same error.
proof fn lemma_kernel_segments_err_sticks(ps: Seq<Elf64Phdr>, relocation: u64, k: nat)
    requires
        k <= ps.len(),
        kernel_segments(ps.subrange(0, k as int), relocation) is Err,
    ensures
        kernel_segments(ps, relocation) == kernel_segments(ps.subrange(0, k as int), relocation),
    decreases ps.len() - k,
{
    if k < ps.len() {
        assert(ps.subrange(0, (k + 1) as int).drop_last() =~= ps.subrange(0, k as int));
        lemma_kernel_segments_err_sticks(ps, relocation, k + 1);
    } else {
        assert(ps.subrange(0, k as int) =~= ps);
    }
}

/// The address at which page `i` of a segment plan is mapped.
pub fn page_target(seg: &KernelSegmentPlan, i: u64) -> (r: u64)
    requires
        seg.page_start + i * 4096 <= u64::MAX,
    ensures
        r == wrap_sub((seg.page_start + i * 4096) as u64, seg.relocation),
{
    (seg.page_start + i * 4096).wrapping_sub(seg.relocation)
}

/// How a segment's plan backs and fills it: the planned pages run from the
/// page holding the segment's first byte to the first page boundary at or
/// after its end, so they cover every byte of the segment and no page beyond;
/// they are mapped `relocation` lower, and the segment's file bytes are
/// copied to its relocated address.
pub open spec fn plan_covers(seg: KernelSegmentPlan, p: Elf64Phdr, relocation: u64) -> bool {
    &&& seg.page_start % 4096 == 0
    &&& seg.page_start <= p.p_vaddr < seg.page_start + 4096
    &&& seg.page_end % 4096 == 0
    &&& p.p_vaddr + p.p_memsz <= seg.page_end < p.p_vaddr + p.p_memsz + 4096
    &&& seg.relocation == relocation
    &&& seg.copy_src == p.p_offset
    &&& seg.copy_len == p.p_filesz
    &&& seg.copy_dst == if p.p_vaddr >= relocation {
        p.p_vaddr - relocation
    } else {
        p.p_vaddr - relocation + 0x1_0000_0000_0000_0000
    }
}

/// A segment is planned unless the end of its last page does not fit in 64
/// bits, and a planned segment is covered by its plan.
pub proof fn lemma_kernel_segment_covers(p: Elf64Phdr, relocation: u64)
    ensures
        kernel_segment(p, relocation) is None <==> p.p_vaddr + p.p_memsz + 4095 > u64::MAX,
        kernel_segment(p, relocation) matches Some(seg) ==> plan_covers(seg, p, relocation),
{
    if p.p_vaddr + p.p_memsz + 4095 <= u64::MAX {
        let v = p.p_vaddr as int;
        let e = (p.p_vaddr + p.p_memsz + 0xFFF) as int;
        assert((v - v % 4096) % 4096 == 0 && v - v % 4096 <= v < v - v % 4096 + 4096) by (nonlinear_arith)
            requires
                v >= 0,
        ;
        assert((e - e % 4096) % 4096 == 0 && e - 4095 <= e - e % 4096 <= e) by (nonlinear_arith)
            requires
                e >= 0,
        ;
    }
}

proof fn lemma_kernel_segments_cover(ps: Seq<Elf64Phdr>, relocation: u64)
    ensures
        kernel_segments(ps, relocation) matches Ok(segs) ==> segs.len() == ps.len() && forall|k: int|
            0 <= k < ps.len() ==> plan_covers(#[trigger] segs[k], ps[k], relocation),
        kernel_segments(ps, relocation) is Err <==> exists|k: int|
            0 <= k < ps.len() && (#[trigger] ps[k]).p_vaddr + ps[k].p_memsz + 4095 > u64::MAX,
    decreases ps.len(),
{
    if ps.len() > 0 {
        lemma_kernel_segments_cover(ps.drop_last(), relocation);
        lemma_kernel_segment_covers(ps.last(), relocation);
        if let Ok(segs) = kernel_segments(ps, relocation) {
            let prev = kernel_segments(ps.drop_last(), relocation).unwrap();
            assert forall|k: int| 0 <= k < ps.len() implies plan_covers(#[trigger] segs[k], ps[k], relocation) by {
                if k < ps.len() - 1 {
                    assert(segs[k] == prev[k]);
                    assert(ps[k] == ps.drop_last()[k]);
                }
            }
        }
        if exists|k: int| 0 <= k < ps.len() && (#[trigger] ps[k]).p_vaddr + ps[k].p_memsz + 4095 > u64::MAX {
            let k = choose|k: int| 0 <= k < ps.len() && (#[trigger] ps[k]).p_vaddr + ps[k].p_memsz + 4095 > u64::MAX;
            if k < ps.len() - 1 {
                assert(ps.drop_last()[k] == ps[k]);
            }
        }
        if kernel_segments(ps, relocation) is Err {
            if kernel_segments(ps.drop_last(), relocation) is Err {
                let k = choose|k: int|
                    0 <= k < ps.drop_last().len() && (#[trigger] ps.drop_last()[k]).p_vaddr
                        + ps.drop_last()[k].p_memsz + 4095 > u64::MAX;
                assert(ps[k] == ps.drop_last()[k]);
            } else {
                assert(ps[ps.len() - 1] == ps.last());
            }
        }
    }
}

/// Every program header that the table yields is a loadable segment whose
/// file bytes lie inside the image.
pub proof fn lemma_load_phdrs_loadable(s: Seq<u8>, phoff: nat, stride: nat, n: nat)
    ensures
        load_phdrs(s, phoff, stride, n) matches Ok(ps) ==> forall|k: int|
            0 <= k < ps.len() ==> (#[trigger] ps[k]).p_type == 1 && (ps[k].p_filesz == 0 || ps[k].p_offset
                + ps[k].p_filesz <= s.len()),
    decreases n,
{
    if n > 0 {
        lemma_load_phdrs_loadable(s, phoff, stride, (n - 1) as nat);
    }
}

/// What loading a kernel image plans, in terms of its header: an image that
/// loads has the ELF magic and a full file header; its relocation is
/// 0xFFFF_FFFF_7FE0_0000 exactly when its entry point lies at or above
/// 0xFFFF_FFFF_8000_0000 (and 0 otherwise); its entry point is moved down
/// by the relocation; and each of its segments has a plan that covers it
/// (every planned segment being a loadable one whose file bytes lie in the
/// image).
pub proof fn lemma_kernel_load_plans(s: Seq<u8>)
    ensures
        kernel_load(s) matches Ok((entry, relocation, segs)) ==> {
            &&& s.len() >= 64
            &&& s[0] == 0x7F && s[1] == 0x45 && s[2] == 0x4C && s[3] == 0x46
            &&& relocation == if header_entry(s) >= 0xFFFF_FFFF_8000_0000 {
                0xFFFF_FFFF_7FE0_0000u64
            } else {
                0u64
            }
            &&& entry == if header_entry(s) >= relocation {
                header_entry(s) - relocation
            } else {
                header_entry(s) - relocation + 0x1_0000_0000_0000_0000
            }
            &&& load_phdrs(s, header_phoff(s), header_phentsize(s), header_phnum(s)) matches Ok(ps) && segs.len()
                == ps.len() && forall|k: int|
                0 <= k < ps.len() ==> plan_covers(#[trigger] segs[k], ps[k], relocation) && ps[k].p_type == 1
                    && (ps[k].p_filesz == 0 || ps[k].p_offset + ps[k].p_filesz <= s.len())
        },
        s.len() < 64 ==> kernel_load(s) == Err::<(u64, u64, Seq<KernelSegmentPlan>), ElfError>(ElfError::TooShort),
        s.len() >= 64 && !(s[0] == 0x7F && s[1] == 0x45 && s[2] == 0x4C && s[3] == 0x46) ==> kernel_load(s) == Err::<
            (u64, u64, Seq<KernelSegmentPlan>),
            ElfError,
        >(ElfError::BadMagic),
{
    lemma_load_phdrs_loadable(s, header_phoff(s), header_phentsize(s), header_phnum(s));
    if let Ok(ps) = load_phdrs(s, header_phoff(s), header_phentsize(s), header_phnum(s)) {
        lemma_kernel_segments_cover(ps, relocation_for(header_entry(s)));
    }
}

/// An image linked into the kernel's higher half is relocated to user space:
/// its entry point lands below the canonical user-space limit.
pub proof fn lemma_relocated_entry_in_user_space(e_entry: u64)
    requires
        e_entry >= KERNEL_HALF_START,
    ensures
        wrap_sub(e_entry, relocation_for(e_entry)) == e_entry - RELOCATION_OFFSET,
        wrap_sub(e_entry, relocation_for(e_entry)) < 0x0000_8000_0000_0000,
        e_entry == KERNEL_LINK_BASE ==> wrap_sub(e_entry, relocation_for(e_entry)) == USER_LOAD_BASE,
{
}

/// An image linked below the kernel's higher half is loaded where it was
/// linked.
pub proof fn lemma_low_image_not_relocated(e_entry: u64)
    requires
        e_entry < KERNEL_HALF_START,
    ensures
        wrap_sub(e_entry, relocation_for(e_entry)) == e_entry,
{
}

} // verus!
