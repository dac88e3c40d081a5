//! The userland ELF64 loader: which pages a binary needs and which bytes go
//! where, for the runtime to request memory and copy segments.
use vstd::prelude::*;
use crate::task::elf::{
    EHDR_SIZE, PHDR_SIZE, ElfError, Elf64Header, check_magic, decode_phdr, has_elf_magic, header_entry,
    header_phnum, header_phoff, le_field, load_phdrs, read_load_phdrs,
};

verus! {

/// ELF64 executable header.
#[derive(Debug, Clone, Copy)]
pub struct Elf64Ehdr {
    pub e_ident: [u8; 16],
    pub e_type: u16,
    pub e_machine: u16,
    pub e_version: u32,
    pub e_entry: u64,
    pub e_phoff: u64,
    pub e_shoff: u64,
    pub e_flags: u32,
    pub e_ehsize: u16,
    pub e_phentsize: u16,
    pub e_phnum: u16,
    pub e_shentsize: u16,
    pub e_shnum: u16,
    pub e_shstrndx: u16,
}

/// ELF64 program header.
#[derive(Debug, Clone, Copy)]
pub struct Elf64Phdr {
    pub p_type: u32,
    pub p_flags: u32,
    pub p_offset: u64,
    pub p_vaddr: u64,
    pub p_paddr: u64,
    pub p_filesz: u64,
    pub p_memsz: u64,
    pub p_align: u64,
}

impl Elf64Ehdr {
    /// Decodes the executable header at the start of `data`.
    pub fn parse(data: &[u8]) -> (h: Elf64Ehdr)
        requires
            data@.len() >= EHDR_SIZE,
        ensures
            h.e_ident@ == data@.subrange(0, 16),
            h.e_entry == le_field(data@, 24, 8),
            h.e_phoff == le_field(data@, 32, 8),
            h.e_phentsize == le_field(data@, 54, 2),
            h.e_phnum == le_field(data@, 56, 2),
    {
        let k = Elf64Header::parse(data);
        Elf64Ehdr {
            e_ident: k.e_ident,
            e_type: k.e_type,
            e_machine: k.e_machine,
            e_version: k.e_version,
            e_entry: k.e_entry,
            e_phoff: k.e_phoff,
            e_shoff: k.e_shoff,
            e_flags: k.e_flags,
            e_ehsize: k.e_ehsize,
            e_phentsize: k.e_phentsize,
            e_phnum: k.e_phnum,
            e_shentsize: k.e_shentsize,
            e_shnum: k.e_shnum,
            e_shstrndx: k.e_shstrndx,
        }
    }
}

impl Elf64Phdr {
    /// Decodes the program header at `off` of `data`.
    pub fn parse(data: &[u8], off: usize) -> (p: Elf64Phdr)
        requires
            off + PHDR_SIZE <= data@.len(),
        ensures
            p.p_type == decode_phdr(data@, off as int).p_type,
            p.p_offset == decode_phdr(data@, off as int).p_offset,
            p.p_vaddr == decode_phdr(data@, off as int).p_vaddr,
            p.p_filesz == decode_phdr(data@, off as int).p_filesz,
            p.p_memsz == decode_phdr(data@, off as int).p_memsz,
    {
        let k = crate::task::elf::Elf64Phdr::parse(data, off);
        Elf64Phdr {
            p_type: k.p_type,
            p_flags: k.p_flags,
            p_offset: k.p_offset,
            p_vaddr: k.p_vaddr,
            p_paddr: k.p_paddr,
            p_filesz: k.p_filesz,
            p_memsz: k.p_memsz,
            p_align: k.p_align,
        }
    }
}

/// How one PT_LOAD segment is loaded: `pages` pages are requested from the
/// kernel at `vaddr` onwards, `filesz` bytes are copied there from offset
/// `file_offset` of the binary, and the rest of the `memsz` bytes are zeroed.
#[derive(Debug, Clone, Copy, PartialEq, Eq, Structural)]
pub struct LoadSegment {
    pub vaddr: u64,
    pub pages: u64,
    pub file_offset: u64,
    pub filesz: u64,
    pub memsz: u64,
}

/// How a binary is loaded: its entry point and its loadable segments.
pub struct ElfImage {
    pub entry: u64,
    pub segments: Vec<LoadSegment>,
}

/// The load plan of a segment, or `None` when its page count overflows.
pub open spec fn load_segment(p: crate::task::elf::Elf64Phdr) -> Option<LoadSegment> {
    if p.p_memsz + 4095 > u64::MAX {
        None
    } else {
        Some(
            LoadSegment {
                vaddr: p.p_vaddr,
                pages: ((p.p_memsz + 4095) / 4096) as u64,
                file_offset: p.p_offset,
                filesz: p.p_filesz,
                memsz: p.p_memsz,
            },
        )
    }
}

/// The load plans of the segments `ps`, or an overflow error at the first
/// one whose page count overflows.
pub open spec fn load_segments(ps: Seq<crate::task::elf::Elf64Phdr>) -> Result<Seq<LoadSegment>, ElfError>
    decreases ps.len(),
{
    if ps.len() == 0 {
        Ok(seq![])
    } else {
        match load_segments(ps.drop_last()) {
            Err(e) => Err(e),
            Ok(done) => match load_segment(ps.last()) {
                None => Err(ElfError::SegmentOverflow),
                Some(seg) => Ok(done.push(seg)),
            },
        }
    }
}

/// The outcome of loading a binary: its entry point and segment plans (the
/// program header table has entries of the size of an ELF64 program
/// header), or why it cannot be loaded.
pub open spec fn user_load(s: Seq<u8>) -> Result<(u64, Seq<LoadSegment>), ElfError> {
    if s.len() < EHDR_SIZE {
        Err(ElfError::TooShort)
    } else if !has_elf_magic(s) {
        Err(ElfError::BadMagic)
    } else {
        match load_phdrs(s, header_phoff(s), PHDR_SIZE as nat, header_phnum(s)) {
            Err(e) => Err(e),
            Ok(ps) => match load_segments(ps) {
                Err(e) => Err(e),
                Ok(segs) => Ok((header_entry(s), segs)),
            },
        }
    }
}

proof fn lemma_load_segments_err_sticks(ps: Seq<crate::task::elf::Elf64Phdr>, k: nat)
    requires
        k <= ps.len(),
        load_segments(ps.subrange(0, k as int)) is Err,
    ensures
        load_segments(ps) == load_segments(ps.subrange(0, k as int)),
    decreases ps.len() - k,
{
    if k < ps.len() {
        assert(ps.subrange(0, (k + 1) as int).drop_last() =~= ps.subrange(0, k as int));
        lemma_load_segments_err_sticks(ps, k + 1);
    } else {
        assert(ps.subrange(0, k as int) =~= ps);
    }
}

/// Parses an ELF binary and plans how it populates the address space; the
/// binary is rejected when it is shorter than a header or lacks the ELF
/// magic number.
pub fn load(data: &[u8]) -> (r: Result<ElfImage, ElfError>)
    ensures
        match user_load(data@) {
            Err(e) => r matches Err(e2) && e2 == e,
            Ok((entry, segs)) => r matches Ok(img) && img.entry == entry && img.segments@ == segs,
        },
{
    if data.len() < EHDR_SIZE {
        return Err(ElfError::TooShort);
    }
    if !check_magic(data) {
        return Err(ElfError::BadMagic);
    }
    let ehdr = Elf64Ehdr::parse(data);
    let phdrs = match read_load_phdrs(data, ehdr.e_phoff, PHDR_SIZE as u64, ehdr.e_phnum as u64) {
        Err(e) => return Err(e),
        Ok(v) => v,
    };
    let ghost ps = phdrs@;
    let mut segments: Vec<LoadSegment> = Vec::new();
    let mut k: usize = 0;
    while k < phdrs.len()
        invariant
            0 <= k <= phdrs@.len(),
            ps == phdrs@,
            user_load(data@) == (match load_segments(ps) {
                Err(e) => Err(e),
                Ok(segs) => Ok((ehdr.e_entry, segs)),
            }),
            load_segments(ps.subrange(0, k as int)) == Ok::<Seq<LoadSegment>, ElfError>(segments@),
        decreases phdrs.len() - k,
    {
        let p = phdrs[k];
        assert(ps.subrange(0, (k + 1) as int).drop_last() =~= ps.subrange(0, k as int));
        if p.p_memsz > u64::MAX - 4095 {
            proof {
                lemma_load_segments_err_sticks(ps, (k + 1) as nat);
            }
            return Err(ElfError::SegmentOverflow);
        }
        segments.push(
            LoadSegment {
                vaddr: p.p_vaddr,
                pages: (p.p_memsz + 4095) / 4096,
                file_offset: p.p_offset,
                filesz: p.p_filesz,
                memsz: p.p_memsz,
            },
        );
        k += 1;
    }
    assert(ps.subrange(0, ps.len() as int) =~= ps);
    Ok(ElfImage { entry: ehdr.e_entry, segments })
}

/// A planned segment is backed by enough pages for all its bytes.
pub proof fn lemma_segment_pages_cover(p: crate::task::elf::Elf64Phdr)
    requires
        load_segment(p) is Some,
    ensures
        load_segment(p).unwrap().pages * 4096 >= p.p_memsz,
        load_segment(p).unwrap().pages * 4096 < p.p_memsz + 4096,
{
    let m = p.p_memsz as int;
    assert(((m + 4095) / 4096) * 4096 >= m && ((m + 4095) / 4096) * 4096 < m + 4096) by (nonlinear_arith)
        requires
            m >= 0,
    ;
}


proof fn lemma_load_segments_plan(ps: Seq<crate::task::elf::Elf64Phdr>)
    ensures
        load_segments(ps) matches Ok(segs) ==> segs.len() == ps.len() && forall|k: int|
            0 <= k < ps.len() ==> {
                let (seg, p) = (#[trigger] segs[k], ps[k]);
                &&& seg.vaddr == p.p_vaddr
                &&& seg.file_offset == p.p_offset
                &&& seg.filesz == p.p_filesz
                &&& seg.memsz == p.p_memsz
                &&& seg.pages * 4096 >= p.p_memsz
                &&& seg.pages * 4096 < p.p_memsz + 4096
            },
        load_segments(ps) is Err <==> exists|k: int| 0 <= k < ps.len() && (#[trigger] ps[k]).p_memsz + 4095 > u64::MAX,
    decreases ps.len(),
{
    if ps.len() > 0 {
        lemma_load_segments_plan(ps.drop_last());
        if load_segment(ps.last()) is Some {
            lemma_segment_pages_cover(ps.last());
        }
        if let Ok(segs) = load_segments(ps) {
            let prev = load_segments(ps.drop_last()).unwrap();
            assert forall|k: int| 0 <= k < ps.len() implies {
                let (seg, p) = (#[trigger] segs[k], ps[k]);
                &&& seg.vaddr == p.p_vaddr
                &&& seg.file_offset == p.p_offset
                &&& seg.filesz == p.p_filesz
                &&& seg.memsz == p.p_memsz
                &&& seg.pages * 4096 >= p.p_memsz
                &&& seg.pages * 4096 < p.p_memsz + 4096
            } by {
                if k < ps.len() - 1 {
                    assert(segs[k] == prev[k]);
                    assert(ps[k] == ps.drop_last()[k]);
                }
            }
        }
        if exists|k: int| 0 <= k < ps.len() && (#[trigger] ps[k]).p_memsz + 4095 > u64::MAX {
            let k = choose|k: int| 0 <= k < ps.len() && (#[trigger] ps[k]).p_memsz + 4095 > u64::MAX;
            if k < ps.len() - 1 {
                assert(ps.drop_last()[k] == ps[k]);
            }
        }
        if load_segments(ps) is Err {
            if load_segments(ps.drop_last()) is Err {
                let k = choose|k: int|
                    0 <= k < ps.drop_last().len() && (#[trigger] ps.drop_last()[k]).p_memsz + 4095 > u64::MAX;
                assert(ps[k] == ps.drop_last()[k]);
            } else {
                assert(ps[ps.len() - 1] == ps.last());
            }
        }
    }
}

/// What loading a user binary plans, in terms of its header and program
/// headers: a binary that loads has the ELF magic and a full file header;
/// its entry point is the header's; and each of its loadable segments is
/// planned at its own address with its own file range and memory size, on
/// just enough whole pages for its memory size.
pub proof fn lemma_user_load_plans(s: Seq<u8>)
    ensures
        user_load(s) matches Ok((entry, segs)) ==> {
            &&& s.len() >= 64
            &&& s[0] == 0x7F && s[1] == 0x45 && s[2] == 0x4C && s[3] == 0x46
            &&& entry == header_entry(s)
            &&& load_phdrs(s, header_phoff(s), 56, header_phnum(s)) matches Ok(ps) && segs.len() == ps.len()
                && forall|k: int|
                0 <= k < ps.len() ==> {
                    let (seg, p) = (#[trigger] segs[k], ps[k]);
                    &&& p.p_type == 1
                    &&& seg.vaddr == p.p_vaddr
                    &&& seg.file_offset == p.p_offset
                    &&& seg.filesz == p.p_filesz
                    &&& seg.memsz == p.p_memsz
                    &&& seg.pages * 4096 >= p.p_memsz
                    &&& seg.pages * 4096 < p.p_memsz + 4096
                }
        },
{
    if let Ok(ps) = load_phdrs(s, header_phoff(s), 56, header_phnum(s)) {
        lemma_load_segments_plan(ps);
        crate::task::elf::lemma_load_phdrs_loadable(s, header_phoff(s), 56, header_phnum(s));
    }
}

} // verus!
