//! A read-only USTAR archive parser, used to unpack the initramfs, with
//! FNV-1a identifiers for archive members.
use vstd::prelude::*;
use vstd::slice::slice_subrange;
use vstd::string::{StringExecFns, StringSliceAdditionalSpecFns};
use vstd::utf8::{encode_utf8, valid_utf8};
use vstd::wrapping::u64_specs::wrapping_mul;

verus! {

/// FNV-1a 64-bit offset basis.
pub const FNV_OFFSET_BASIS: u64 = 0xcbf2_9ce4_8422_2325;

/// FNV-1a 64-bit prime.
pub const FNV_PRIME: u64 = 0x0000_0100_0000_01b3;

/// Size of a USTAR block: headers and member data are block-aligned.
pub const TAR_BLOCK: usize = 512;

/// Bytes of the name field at the start of a header.
pub const TAR_NAME_LEN: usize = 100;

/// Offset of the octal size field within a header.
pub const TAR_SIZE_OFFSET: usize = 124;

/// Length of the octal size field.
pub const TAR_SIZE_DIGITS: usize = 11;

/// The FNV-1a hash of a byte string.
pub open spec fn fnv1a(bytes: Seq<u8>) -> u64
    decreases bytes.len(),
{
    if bytes.len() == 0 {
        FNV_OFFSET_BASIS
    } else {
        wrapping_mul(fnv1a(bytes.drop_last()) ^ (bytes.last() as u64), FNV_PRIME)
    }
}

/// A stable 64-bit identifier for a name: the FNV-1a hash of its bytes.
pub fn generate_object_id(name: &str) -> (r: u64)
    ensures
        r == fnv1a(name.spec_bytes()),
{
    let bytes = name.as_bytes();
    let mut hash: u64 = FNV_OFFSET_BASIS;
    let mut i: usize = 0;
    while i < bytes.len()
        invariant
            0 <= i <= bytes@.len(),
            hash == fnv1a(bytes@.subrange(0, i as int)),
        decreases bytes.len() - i,
    {
        assert(bytes@.subrange(0, i + 1).drop_last() =~= bytes@.subrange(0, i as int));
        hash ^= bytes[i] as u64;
        hash = hash.wrapping_mul(FNV_PRIME);
        i += 1;
    }
    assert(bytes@.subrange(0, bytes@.len() as int) =~= bytes@);
    hash
}

/// One member of an archive, as located in the archive's bytes.
pub struct TarEntry {
    /// The bytes of the member's name (up to the first NUL of the name field).
    pub name_bytes: Seq<u8>,
    /// Index of the first byte of the member's data.
    pub data_start: nat,
    /// Index one past the last byte of the member's data.
    pub data_end: nat,
}

/// The length of the name in a header: the index of the first NUL byte of the
/// name field at or after `k`, or the whole field without one.
pub open spec fn name_len_from(header: Seq<u8>, k: nat) -> nat
    decreases TAR_NAME_LEN - k,
{
    if k >= TAR_NAME_LEN {
        TAR_NAME_LEN as nat
    } else if header[k as int] == 0 {
        k
    } else {
        name_len_from(header, k + 1)
    }
}

/// The value of an octal size field; bytes other than the digits 0 to 7 are
/// skipped.
pub open spec fn octal_value(field: Seq<u8>) -> nat
    decreases field.len(),
{
    if field.len() == 0 {
        0
    } else {
        let v = octal_value(field.drop_last());
        let b = field.last();
        if 48 <= b <= 55 {
            v * 8 + (b - 48) as nat
        } else {
            v
        }
    }
}

/// 8 to the power `k`.
pub open spec fn pow8(k: nat) -> nat
    decreases k,
{
    if k == 0 {
        1
    } else {
        8 * pow8((k - 1) as nat)
    }
}

/// The size recorded in the header at `offset`.
pub open spec fn header_size(archive: Seq<u8>, offset: nat) -> nat {
    octal_value(archive.subrange(offset + TAR_SIZE_OFFSET, offset + TAR_SIZE_OFFSET + TAR_SIZE_DIGITS))
}

/// The member described by the header at `offset`, unless its data runs past
/// the end of the archive.
pub open spec fn member_at(archive: Seq<u8>, offset: nat) -> Option<TarEntry> {
    let header = archive.subrange(offset as int, offset + TAR_BLOCK);
    let data_start = (offset + TAR_BLOCK) as nat;
    let data_end = data_start + header_size(archive, offset);
    if data_end <= archive.len() {
        Some(TarEntry { name_bytes: header.subrange(0, name_len_from(header, 0) as int), data_start, data_end })
    } else {
        None
    }
}

/// The offset of the header that follows the one at `offset`: after the
/// member's data, rounded up to whole blocks.
pub open spec fn next_header(archive: Seq<u8>, offset: nat) -> nat {
    (offset + TAR_BLOCK + ((header_size(archive, offset) + 511) / 512) * 512) as nat
}

/// The members of the archive whose headers start at `offset` or later.
///
/// Headers are 512-byte blocks; an empty name (a NUL first byte) or a header
/// that does not fit in the archive ends it. A member whose data runs past
/// the end of the archive is skipped; the next header follows the member's
/// data, rounded up to whole blocks.
pub open spec fn tar_entries(archive: Seq<u8>, offset: nat) -> Seq<TarEntry>
    decreases archive.len() - offset,
{
    if offset + TAR_BLOCK > archive.len() || archive[offset as int] == 0 {
        seq![]
    } else {
        let next = next_header(archive, offset);
        let rest = if next + TAR_BLOCK <= archive.len() {
            tar_entries(archive, next)
        } else {
            seq![]
        };
        match member_at(archive, offset) {
            Some(e) => seq![e] + rest,
            None => rest,
        }
    }
}

/// A file of the archive: its identifier, name and contents.
pub struct Object {
    pub id: u64,
    pub name: String,
    pub data: &'static [u8],
}

/// The bytes a member is named by: its name if that is valid UTF-8, else
/// `UNKNOWN`.
pub open spec fn object_name_bytes(e: TarEntry) -> Seq<u8> {
    if valid_utf8(e.name_bytes) {
        e.name_bytes
    } else {
        "UNKNOWN".spec_bytes()
    }
}

/// The object that parsing yields for member `e` of `archive`.
pub open spec fn object_matches(o: Object, archive: Seq<u8>, e: TarEntry) -> bool {
    &&& o.id == fnv1a(object_name_bytes(e))
    &&& encode_utf8(o.name@) == object_name_bytes(e)
    &&& o.data@ == archive.subrange(e.data_start as int, e.data_end as int)
}

/// `core::str::from_utf8`: the bytes as a string slice, when they are valid
/// UTF-8.
///
/// Claimed of the outside function: it succeeds exactly on well-formed UTF-8
/// (as vstd's `valid_utf8` defines it), and the string it returns consists of
/// the given bytes.
#[verifier::external_body]
pub(crate) fn str_from_utf8<'a>(bytes: &'a [u8]) -> (r: Option<&'a str>)
    ensures
        r is Some <==> valid_utf8(bytes@),
        r matches Some(s) ==> s.spec_bytes() == bytes@,
{
    match core::str::from_utf8(bytes) {
        Ok(s) => Some(s),
        Err(_) => None,
    }
}

proof fn lemma_octal_bound(field: Seq<u8>)
    ensures
        octal_value(field) < pow8(field.len()),
    decreases field.len(),
{
    if field.len() > 0 {
        lemma_octal_bound(field.drop_last());
    }
}

proof fn lemma_pow8_mono(a: nat, b: nat)
    requires
        a <= b,
    ensures
        pow8(a) <= pow8(b),
    decreases b,
{
    if a < b {
        lemma_pow8_mono(a, (b - 1) as nat);
    }
}

proof fn lemma_name_len(header: Seq<u8>, k: nat)
    requires
        k <= TAR_NAME_LEN,
    ensures
        k <= name_len_from(header, k) <= TAR_NAME_LEN,
    decreases TAR_NAME_LEN - k,
{
    if k < TAR_NAME_LEN && header[k as int] != 0 {
        lemma_name_len(header, k + 1);
    }
}

/// The octal size field of the header at `offset`.
fn read_octal_size(archive: &[u8], offset: usize) -> (size: u64)
    requires
        offset + TAR_BLOCK <= archive@.len() <= usize::MAX,
    ensures
        size == octal_value(archive@.subrange(offset + TAR_SIZE_OFFSET, offset + TAR_SIZE_OFFSET + TAR_SIZE_DIGITS)),
        size < pow8(11),
        size < 8589934592,
{
    let ghost field = archive@.subrange(offset + TAR_SIZE_OFFSET, offset + TAR_SIZE_OFFSET + TAR_SIZE_DIGITS);
    proof {
        lemma_pow8_mono(0, 11);
        assert(pow8(11) == 8589934592) by {
            reveal_with_fuel(pow8, 12);
        }
    }
    let mut size: u64 = 0;
    let mut j: usize = 0;
    while j < TAR_SIZE_DIGITS
        invariant
            0 <= j <= TAR_SIZE_DIGITS,
            offset + TAR_BLOCK <= archive@.len() <= usize::MAX,
            field == archive@.subrange(offset + TAR_SIZE_OFFSET, offset + TAR_SIZE_OFFSET + TAR_SIZE_DIGITS),
            size == octal_value(field.subrange(0, j as int)),
            pow8(11) == 8589934592,
        decreases TAR_SIZE_DIGITS - j,
    {
        proof {
            lemma_octal_bound(field.subrange(0, j as int));
            lemma_pow8_mono(j as nat, 11);
            assert(field.subrange(0, j + 1).drop_last() =~= field.subrange(0, j as int));
        }
        let b = archive[offset + TAR_SIZE_OFFSET + j];
        if b >= 48 && b <= 55 {
            size = size * 8 + (b - 48) as u64;
        }
        j += 1;
    }
    proof {
        assert(field.subrange(0, 11) =~= field);
        lemma_octal_bound(field);
    }
    size
}

/// The length of the name of the header at `offset`.
fn read_name_len(archive: &[u8], offset: usize) -> (n: usize)
    requires
        offset + TAR_BLOCK <= archive@.len() <= usize::MAX,
    ensures
        n == name_len_from(archive@.subrange(offset as int, offset + TAR_BLOCK), 0),
        n <= TAR_NAME_LEN,
{
    let ghost header = archive@.subrange(offset as int, offset + TAR_BLOCK);
    proof {
        lemma_name_len(header, 0);
    }
    let mut name_len: usize = 0;
    while name_len < TAR_NAME_LEN && archive[offset + name_len] != 0
        invariant
            0 <= name_len <= TAR_NAME_LEN,
            offset + TAR_BLOCK <= archive@.len() <= usize::MAX,
            header == archive@.subrange(offset as int, offset + TAR_BLOCK),
            name_len_from(header, 0) == name_len_from(header, name_len as nat),
        decreases TAR_NAME_LEN - name_len,
    {
        assert(header[name_len as int] == archive@[offset + name_len]);
        name_len += 1;
    }
    if name_len < TAR_NAME_LEN {
        assert(header[name_len as int] == archive@[offset + name_len]);
    }
    name_len
}

/// The member whose header is at `offset` (if its data fits in the archive)
/// and the offset of the next header.
fn read_member(archive: &'static [u8], offset: usize) -> (r: (Option<Object>, u64))
    requires
        offset + TAR_BLOCK <= archive@.len() <= isize::MAX,
        archive@.len() <= usize::MAX,
    ensures
        r.1 == next_header(archive@, offset as nat),
        r.1 <= archive@.len() + 0x4_0000_0000,
        member_at(archive@, offset as nat) is None ==> r.0 is None,
        member_at(archive@, offset as nat) matches Some(e) ==> r.0 matches Some(o) && object_matches(
            o,
            archive@,
            e,
        ),
{
    let ghost header = archive@.subrange(offset as int, offset + TAR_BLOCK);
    let name_len = read_name_len(archive, offset);
    let name_bytes = slice_subrange(archive, offset, offset + name_len);
    assert(name_bytes@ == header.subrange(0, name_len as int));
    let name_str: &str = match str_from_utf8(name_bytes) {
        Some(s) => s,
        None => "UNKNOWN",
    };
    let size = read_octal_size(archive, offset);
    let data_start: usize = offset + TAR_BLOCK;
    let next: u64 = (data_start as u64) + ((size + 511) / 512) * 512;
    if (data_start as u64) + size <= archive.len() as u64 {
        let data_end: usize = data_start + size as usize;
        let data = slice_subrange(archive, data_start, data_end);
        let obj = Object { id: generate_object_id(name_str), name: String::from_str(name_str), data };
        (Some(obj), next)
    } else {
        (None, next)
    }
}

/// Decodes a USTAR archive into the files it holds, in archive order.
pub fn parse(archive: &'static [u8]) -> (r: Vec<Object>)
    requires
        archive@.len() <= isize::MAX,
    ensures
        r@.len() == tar_entries(archive@, 0).len(),
        forall|k: int|
            0 <= k < r@.len() ==> object_matches(#[trigger] r@[k], archive@, tar_entries(archive@, 0)[k]),
{
    let ghost all = tar_entries(archive@, 0);
    let ghost mut done: Seq<TarEntry> = seq![];
    let mut objects: Vec<Object> = Vec::new();
    let mut offset: usize = 0;
    while offset + TAR_BLOCK <= archive.len()
        invariant_except_break
            all == done + tar_entries(archive@, offset as nat),
        invariant
            archive@.len() <= isize::MAX,
            archive@.len() <= usize::MAX,
            offset <= archive@.len(),
            all == tar_entries(archive@, 0),
            objects@.len() == done.len(),
            forall|k: int| 0 <= k < objects@.len() ==> object_matches(#[trigger] objects@[k], archive@, done[k]),
        ensures
            all == done,
        decreases archive@.len() - offset,
    {
        if archive[offset] == 0 {
            assert(tar_entries(archive@, offset as nat) =~= seq![]);
            assert(all =~= done);
            break;
        }
        let ghost rest = tar_entries(archive@, offset as nat);
        let (member, next) = read_member(archive, offset);
        let ghost tail = if next + TAR_BLOCK <= archive@.len() {
            tar_entries(archive@, next as nat)
        } else {
            seq![]
        };
        match member {
            Some(obj) => {
                let ghost e = member_at(archive@, offset as nat).unwrap();
                objects.push(obj);
                proof {
                    assert(rest == seq![e] + tail);
                    done = done.push(e);
                    assert(all =~= done + tail);
                }
            },
            None => {
                assert(rest == tail);
            },
        }
        if next + (TAR_BLOCK as u64) > archive.len() as u64 {
            proof {
                assert(all =~= done);
            }
            break;
        }
        offset = next as usize;
        if offset + TAR_BLOCK > archive.len() {
            assert(tar_entries(archive@, offset as nat) =~= seq![]);
        }
    }
    objects
}


/// `n` as `k` ASCII octal digits, most significant first.
pub open spec fn octal_field(n: nat, k: nat) -> Seq<u8>
    decreases k,
{
    if k == 0 {
        seq![]
    } else {
        octal_field(n / 8, (k - 1) as nat).push((48 + n % 8) as u8)
    }
}

/// The 512-byte USTAR header of a file named `name` holding `size` bytes:
/// the name at the start (NUL-padded), the size in 11 octal digits at offset
/// 124, zeros elsewhere.
pub open spec fn ustar_header(name: Seq<u8>, size: nat) -> Seq<u8> {
    Seq::new(
        512,
        |i: int|
            if i < name.len() {
                name[i]
            } else if 124 <= i < 135 {
                octal_field(size, 11)[i - 124]
            } else {
                0u8
            },
    )
}

/// One member as an archive lays it out: its header, its data, and zeros up
/// to the next multiple of 512 bytes.
pub open spec fn ustar_member(name: Seq<u8>, data: Seq<u8>) -> Seq<u8> {
    ustar_header(name, data.len()) + data + Seq::new(((512 - data.len() % 512) % 512) as nat, |i: int| 0u8)
}

/// The members `ms` (name, data) laid out one after the other.
pub open spec fn ustar_members(ms: Seq<(Seq<u8>, Seq<u8>)>) -> Seq<u8>
    decreases ms.len(),
{
    if ms.len() == 0 {
        seq![]
    } else {
        ustar_member(ms[0].0, ms[0].1) + ustar_members(ms.drop_first())
    }
}

/// An archive of the members `ms`, closed by a zero block.
pub open spec fn ustar_archive(ms: Seq<(Seq<u8>, Seq<u8>)>) -> Seq<u8> {
    ustar_members(ms) + Seq::new(512, |i: int| 0u8)
}

/// A member that a USTAR header can describe: a name of 1 to 100 bytes
/// without NUL, and fewer than 8^11 bytes of data.
pub open spec fn ustar_member_ok(m: (Seq<u8>, Seq<u8>)) -> bool {
    &&& 1 <= m.0.len() <= 100
    &&& forall|i: int| 0 <= i < m.0.len() ==> m.0[i] != 0
    &&& m.1.len() < 8589934592
}

proof fn lemma_octal_field(n: nat, k: nat)
    requires
        n < pow8(k),
    ensures
        octal_field(n, k).len() == k,
        octal_value(octal_field(n, k)) == n,
    decreases k,
{
    if k > 0 {
        let p = pow8((k - 1) as nat);
        assert(n / 8 < p) by (nonlinear_arith)
            requires
                n < 8 * p,
        ;
        lemma_octal_field(n / 8, (k - 1) as nat);
        let f = octal_field(n, k);
        assert(f.drop_last() =~= octal_field(n / 8, (k - 1) as nat));
        assert(n == (n / 8) * 8 + n % 8) by (nonlinear_arith);
    }
}

proof fn lemma_name_len_of(header: Seq<u8>, name: Seq<u8>, k: nat)
    requires
        header.len() >= 100,
        1 <= name.len() <= 100,
        k <= name.len(),
        forall|i: int| 0 <= i < name.len() ==> header[i] == name[i] && name[i] != 0,
        name.len() < 100 ==> header[name.len() as int] == 0,
    ensures
        name_len_from(header, k) == name.len(),
    decreases name.len() - k,
{
    if k < name.len() {
        lemma_name_len_of(header, name, k + 1);
    }
}

proof fn lemma_padding(size: nat)
    ensures
        ((size + 511) / 512) * 512 == size + (512 - size % 512) % 512,
{
    assert(((size + 511) / 512) * 512 == size + (512 - size % 512) % 512) by (nonlinear_arith);
}

proof fn lemma_parse_members_from(pre: Seq<u8>, ms: Seq<(Seq<u8>, Seq<u8>)>)
    requires
        forall|k: int| 0 <= k < ms.len() ==> ustar_member_ok(#[trigger] ms[k]),
    ensures
        ({
            let a = pre + ustar_members(ms) + Seq::new(512, |i: int| 0u8);
            let es = tar_entries(a, pre.len());
            &&& es.len() == ms.len()
            &&& forall|k: int|
                0 <= k < ms.len() ==> (#[trigger] es[k]).name_bytes == ms[k].0 && a.subrange(
                    es[k].data_start as int,
                    es[k].data_end as int,
                ) == ms[k].1
        }),
    decreases ms.len(),
{
    let z = Seq::new(512, |i: int| 0u8);
    let a = pre + ustar_members(ms) + z;
    let o: int = pre.len() as int;
    if ms.len() == 0 {
        assert(a[o] == z[0]);
    } else {
        let (name, data) = ms[0];
        assert(ustar_member_ok(ms[0]));
        let size = data.len();
        let m0 = ustar_member(name, data);
        let rest = ms.drop_first();
        assert forall|k: int| 0 <= k < rest.len() implies ustar_member_ok(#[trigger] rest[k]) by {
            assert(rest[k] == ms[k + 1]);
        }
        let pre2 = pre + m0;
        lemma_parse_members_from(pre2, rest);
        assert(a =~= pre2 + ustar_members(rest) + z);
        let h = ustar_header(name, size);
        assert(a.subrange(o, o + 512) =~= h);
        assert(a[o] == h[0]);
        assert(pow8(11) == 8589934592) by {
            reveal_with_fuel(pow8, 12);
        }
        lemma_octal_field(size, 11);
        assert(a.subrange(o + 124, o + 135) =~= octal_field(size, 11));
        assert(header_size(a, o as nat) == size);
        lemma_name_len_of(h, name, 0);
        assert(h.subrange(0, name.len() as int) =~= name);
        lemma_padding(size);
        let next = next_header(a, o as nat);
        assert(next == pre2.len());
        assert(a.subrange(o + 512, o + 512 + size) =~= data);
        let es = tar_entries(a, o as nat);
        let rest_es = tar_entries(a, pre2.len());
        assert(es == seq![member_at(a, o as nat).unwrap()] + rest_es);
        assert forall|k: int| 0 <= k < ms.len() implies (#[trigger] es[k]).name_bytes == ms[k].0 && a.subrange(
            es[k].data_start as int,
            es[k].data_end as int,
        ) == ms[k].1 by {
            if k > 0 {
                assert(es[k] == rest_es[k - 1]);
                assert(rest[k - 1] == ms[k]);
            }
        }
    }
}

/// An archive built from members, each a 512-byte header (name, octal size)
/// followed by its data padded to whole 512-byte blocks, and closed by a zero
/// block, unpacks into exactly those members, in order: each with its name
/// and with its data as the bytes of the archive it is given.
pub proof fn lemma_parse_built_archive(ms: Seq<(Seq<u8>, Seq<u8>)>)
    requires
        forall|k: int| 0 <= k < ms.len() ==> ustar_member_ok(#[trigger] ms[k]),
    ensures
        ({
            let a = ustar_archive(ms);
            let es = tar_entries(a, 0);
            &&& es.len() == ms.len()
            &&& forall|k: int|
                0 <= k < ms.len() ==> (#[trigger] es[k]).name_bytes == ms[k].0 && a.subrange(
                    es[k].data_start as int,
                    es[k].data_end as int,
                ) == ms[k].1
        }),
{
    lemma_parse_members_from(Seq::<u8>::empty(), ms);
    assert(Seq::<u8>::empty() + ustar_members(ms) + Seq::new(512, |i: int| 0u8) =~= ustar_archive(ms));
}

} // verus!
