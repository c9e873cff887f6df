//! Reading an ELF image for `exec` and for the cache of pre-loaded programs:
//! the header and program headers come from the `xmas_elf` crate; which
//! loader runs, where each segment goes and where the heap starts are
//! decided here.

use vstd::prelude::*;
use xmas_elf::ElfFile;
use xmas_elf::header::HeaderPt2;
use xmas_elf::program::Type;
use crate::task_mem::{MappingFlags, MemRegion, MemType, covered_by_file_area, elf_flags_to_mapping_flags};

verus! {

/// The header fields that loading reads.
#[derive(Copy, Clone, Debug, PartialEq, Eq, Structural)]
pub struct ElfHeaderInfo {
    /// 64-bit (`ELFCLASS64`) rather than 32-bit image.
    pub is64: bool,
    pub entry: u64,
    pub ph_offset: u64,
    pub ph_entry_size: u16,
    pub ph_count: u16,
}

/// Type of a program header, as far as loading cares.
#[derive(Copy, Clone, Debug, PartialEq, Eq, Structural)]
pub enum SegmentKind {
    Load,
    Interp,
    /// Any other valid type.
    Other,
    /// A type value that is not valid.
    Invalid,
}

/// The fields of a program header that loading reads.
#[derive(Copy, Clone, Debug, PartialEq, Eq, Structural)]
pub struct SegmentInfo {
    pub kind: SegmentKind,
    /// `p_flags`: bit 0 execute, bit 1 write, bit 2 read.
    pub flags: u32,
    pub offset: u64,
    pub vaddr: u64,
    pub file_size: u64,
    pub mem_size: u64,
}

/// What `xmas_elf` parses as the header of `bytes`; `None` when they are not
/// an ELF image.
pub uninterp spec fn elf_header_of(bytes: Seq<u8>) -> Option<ElfHeaderInfo>;

/// Whether `xmas_elf` accepts `bytes` as an ELF image: the magic number,
/// then class 1 (32-bit) with room for 52 header bytes, or class 2 (64-bit)
/// with room for 64.
pub open spec fn elf_header_shape(bytes: Seq<u8>) -> bool {
    &&& bytes.len() >= 16
    &&& bytes[0] == 0x7f && bytes[1] == 0x45 && bytes[2] == 0x4c && bytes[3] == 0x46
    &&& (bytes[4] == 1 && bytes.len() >= 52) || (bytes[4] == 2 && bytes.len() >= 64)
}

/// What `xmas_elf` parses as program header `index` of `bytes`.
pub uninterp spec fn elf_program_header_of(bytes: Seq<u8>, index: u16) -> Option<SegmentInfo>;

/// Alignment of the header structures of an image of this class.
pub open spec fn entry_align(is64: bool) -> int {
    if is64 {
        8
    } else {
        4
    }
}

/// Size of one program header of an image of this class.
pub open spec fn entry_min_size(is64: bool) -> int {
    if is64 {
        56
    } else {
        32
    }
}

/// The program-header table can be read: it is empty (no offset, no entry
/// size, or no entry), or it lies inside the `len` bytes of the file with
/// aligned entries each large enough for a program header.
pub open spec fn ph_table_ok(h: ElfHeaderInfo, len: int) -> bool {
    ||| h.ph_offset == 0
    ||| h.ph_entry_size == 0
    ||| h.ph_count == 0
    ||| {
        &&& h.ph_offset + h.ph_count * h.ph_entry_size <= len
        &&& h.ph_entry_size >= entry_min_size(h.is64)
        &&& (h.ph_offset as int) % entry_align(h.is64) == 0
        &&& (h.ph_count <= 1 || (h.ph_entry_size as int) % entry_align(h.is64) == 0)
    }
}

/// `xmas_elf::ElfFile::new` on `bytes`, reduced to the header fields that
/// loading reads: `None` when `xmas_elf` refuses the bytes (too short, no
/// magic number, unknown class; see [`elf_header_shape`]), and the class
/// decides `is64`. `xmas_elf` reads its header structures in
/// place and asserts that they are aligned in memory, so the bytes are first
/// copied to an 8-byte-aligned place (`align_offset` on a byte pointer
/// always finds one within 8 bytes at run time).
#[verifier::external_body]
fn read_elf_header(bytes: &[u8]) -> (r: Option<ElfHeaderInfo>)
    ensures
        r == elf_header_of(bytes@),
        r is Some <==> elf_header_shape(bytes@),
        r matches Some(h) ==> h.is64 == (bytes@[4] == 2),
{
    let mut buf = vec![0u8; 8];
    buf.extend_from_slice(bytes);
    let off = buf.as_ptr().align_offset(8);
    buf.copy_within(8.., off);
    let elf = ElfFile::new(&buf[off..][..bytes.len()]).ok()?;
    let pt2 = elf.header.pt2;
    Some(ElfHeaderInfo {
        is64: matches!(pt2, HeaderPt2::Header64(_)),
        entry: pt2.entry_point(),
        ph_offset: pt2.ph_offset(),
        ph_entry_size: pt2.ph_entry_size(),
        ph_count: pt2.ph_count(),
    })
}

/// `xmas_elf::ElfFile::program_header(index)` on `bytes`, reduced to the
/// fields loading reads. As its source shows, it fails exactly when the
/// header has no table offset or no entry size; the table must lie in the
/// file (else `xmas_elf` slices out of range) with aligned, large enough
/// entries (else its alignment or size assertion fails). The bytes are
/// copied to an 8-byte-aligned place first, as for [`read_elf_header`].
#[verifier::external_body]
fn read_program_header(bytes: &[u8], index: u16) -> (r: Option<SegmentInfo>)
    requires
        elf_header_of(bytes@) is Some,
        index < elf_header_of(bytes@)->0.ph_count,
        ph_table_ok(elf_header_of(bytes@)->0, bytes@.len() as int),
    ensures
        r == elf_program_header_of(bytes@, index),
        r is Some <==> (elf_header_of(bytes@)->0.ph_offset > 0 && elf_header_of(bytes@)->0.ph_entry_size > 0),
{
    let mut buf = vec![0u8; 8];
    buf.extend_from_slice(bytes);
    let off = buf.as_ptr().align_offset(8);
    buf.copy_within(8.., off);
    let ph = ElfFile::new(&buf[off..][..bytes.len()]).ok()?.program_header(index).ok()?;
    let kind = match ph.get_type() {
        Ok(Type::Load) => SegmentKind::Load,
        Ok(Type::Interp) => SegmentKind::Interp,
        Ok(_) => SegmentKind::Other,
        Err(_) => SegmentKind::Invalid,
    };
    Some(SegmentInfo { kind, flags: ph.flags().0, offset: ph.offset(), vaddr: ph.virtual_addr(),
        file_size: ph.file_size(), mem_size: ph.mem_size() })
}

/// A parsed image: its header and its program headers in order.
pub struct ElfImage {
    pub header: ElfHeaderInfo,
    pub segments: Vec<SegmentInfo>,
}

/// Why an image cannot be used.
#[derive(Copy, Clone, Debug, PartialEq, Eq, Structural)]
pub enum ElfError {
    /// The bytes are not an ELF image.
    NotElf,
    /// An ELF image whose tables, segments or addresses do not fit.
    Malformed,
}

/// The program headers `xmas_elf` yields for `bytes` with header `h`: none
/// when the header has no table offset or entry size, else all of them.
pub open spec fn segments_of(bytes: Seq<u8>, h: ElfHeaderInfo) -> Seq<SegmentInfo> {
    if h.ph_offset == 0 || h.ph_entry_size == 0 {
        Seq::empty()
    } else {
        Seq::new(h.ph_count as nat, |i: int| elf_program_header_of(bytes, i as u16)->0)
    }
}

/// The header and program headers of `bytes`: `NotElf` when `xmas_elf`
/// refuses them, `Malformed` when the program-header table cannot be read.
pub fn read_elf_image(bytes: &[u8]) -> (r: Result<ElfImage, ElfError>)
    ensures
        (r matches Err(ElfError::NotElf)) <==> !elf_header_shape(bytes@),
        match elf_header_of(bytes@) {
            None => r == Err::<ElfImage, ElfError>(ElfError::NotElf),
            Some(h) => if ph_table_ok(h, bytes@.len() as int) {
                r matches Ok(img) && img.header == h && img.segments@ == segments_of(bytes@, h)
            } else {
                r == Err::<ElfImage, ElfError>(ElfError::Malformed)
            },
        },
{
    let h = match read_elf_header(bytes) {
        Some(h) => h,
        None => return Err(ElfError::NotElf),
    };
    let table_ok = if h.ph_offset == 0 || h.ph_entry_size == 0 || h.ph_count == 0 {
        true
    } else {
        let align: u64 = if h.is64 { 8 } else { 4 };
        let min_size: u16 = if h.is64 { 56 } else { 32 };
        let count: u64 = h.ph_count as u64;
        let entsize: u64 = h.ph_entry_size as u64;
        assert(count * entsize <= 0xffff * 0xffff) by (nonlinear_arith)
            requires
                count <= 0xffff,
                entsize <= 0xffff,
        ;
        let table_len: u64 = count * entsize;
        (h.ph_offset as u128) + (table_len as u128) <= bytes.len() as u128
            && h.ph_entry_size >= min_size && h.ph_offset % align == 0
            && (h.ph_count <= 1 || (h.ph_entry_size as u64) % align == 0)
    };
    if !table_ok {
        return Err(ElfError::Malformed);
    }
    let mut segments: Vec<SegmentInfo> = Vec::new();
    if h.ph_offset == 0 || h.ph_entry_size == 0 {
        assert(segments@ =~= segments_of(bytes@, h));
        return Ok(ElfImage { header: h, segments });
    }
    let mut i: u16 = 0;
    while i < h.ph_count
        invariant
            elf_header_of(bytes@) == Some(h),
            ph_table_ok(h, bytes@.len() as int),
            h.ph_offset > 0 && h.ph_entry_size > 0,
            i <= h.ph_count,
            segments@.len() == i,
            forall|k: int| 0 <= k < i ==> segments@[k] == elf_program_header_of(bytes@, k as u16)->0,
        decreases h.ph_count - i,
    {
        match read_program_header(bytes, i) {
            Some(seg) => segments.push(seg),
            None => {},
        }
        i = i + 1;
    }
    assert(segments@ =~= segments_of(bytes@, h));
    Ok(ElfImage { header: h, segments })
}

/// Which C library a dynamically linked program was built against.
#[derive(Copy, Clone, Debug, PartialEq, Eq, Structural)]
pub enum LibcType {
    Musl,
    Glibc,
    Unknown,
}

/// Whether `b[i]` is a continuation byte (0x80 to 0xBF).
pub open spec fn cont(b: Seq<u8>, i: int) -> bool {
    0x80 <= b[i] <= 0xbf
}

/// Length of the well-formed UTF-8 sequence at the start of `b`, or 0 when
/// none starts there (the table of well-formed byte sequences of the
/// Unicode standard: no overlong forms, no surrogates, nothing above
/// U+10FFFF).
pub open spec fn utf8_char_len(b: Seq<u8>) -> int {
    let n = b.len();
    let c = if n > 0 { b[0] } else { 0u8 };
    if n >= 1 && c <= 0x7f {
        1
    } else if n >= 2 && 0xc2 <= c <= 0xdf && cont(b, 1) {
        2
    } else if n >= 3 && ((c == 0xe0 && 0xa0 <= b[1] <= 0xbf) || ((0xe1 <= c <= 0xec || 0xee <= c <= 0xef)
        && cont(b, 1)) || (c == 0xed && 0x80 <= b[1] <= 0x9f)) && cont(b, 2) {
        3
    } else if n >= 4 && ((c == 0xf0 && 0x90 <= b[1] <= 0xbf) || (0xf1 <= c <= 0xf3 && cont(b, 1)) || (c
        == 0xf4 && 0x80 <= b[1] <= 0x8f)) && cont(b, 2) && cont(b, 3) {
        4
    } else {
        0
    }
}

/// Whether `bytes` are valid UTF-8: a run of well-formed sequences.
pub open spec fn utf8_valid(bytes: Seq<u8>) -> bool
    decreases bytes.len(),
{
    if bytes.len() == 0 {
        true
    } else {
        let k = utf8_char_len(bytes);
        k > 0 && utf8_valid(bytes.subrange(k, bytes.len() as int))
    }
}

/// `core::str::from_utf8(bytes).is_ok()`: whether the bytes are valid UTF-8,
/// as the documentation of `str` defines it (see [`utf8_valid`]).
#[verifier::external_body]
pub(crate) fn is_utf8(bytes: &[u8]) -> (r: bool)
    ensures
        r == utf8_valid(bytes@),
{
    core::str::from_utf8(bytes).is_ok()
}

/// `s` without its trailing NUL bytes.
pub open spec fn trim_nuls(s: Seq<u8>) -> Seq<u8>
    decreases s.len(),
{
    if s.len() > 0 && s.last() == 0 {
        trim_nuls(s.drop_last())
    } else {
        s
    }
}

/// Whether `needle` occurs in `hay`.
pub open spec fn contains_bytes(hay: Seq<u8>, needle: Seq<u8>) -> bool {
    exists|i: int| 0 <= i && i + needle.len() <= hay.len() && #[trigger] hay.subrange(i, i + needle.len()) == needle
}

/// The C library named by an interpreter path: a valid UTF-8 path that,
/// without trailing NULs, mentions `musl` is musl, one that mentions `glibc`
/// or `ld-linux` is glibc; anything else is unknown.
pub open spec fn libc_type_spec(interp: Seq<u8>) -> LibcType {
    let t = trim_nuls(interp);
    if !utf8_valid(interp) {
        LibcType::Unknown
    } else if contains_bytes(t, seq![109u8, 117, 115, 108]) {
        LibcType::Musl
    } else if contains_bytes(t, seq![103u8, 108, 105, 98, 99]) || contains_bytes(
        t,
        seq![108u8, 100, 45, 108, 105, 110, 117, 120],
    ) {
        LibcType::Glibc
    } else {
        LibcType::Unknown
    }
}

/// Length of `s[..n]` without its trailing NUL bytes.
fn trimmed_len(s: &[u8]) -> (r: usize)
    ensures
        r <= s@.len(),
        trim_nuls(s@) == s@.subrange(0, r as int),
{
    let mut n: usize = s.len();
    assert(s@.subrange(0, n as int) =~= s@);
    while n > 0 && s[n - 1] == 0
        invariant
            n <= s@.len(),
            trim_nuls(s@) == trim_nuls(s@.subrange(0, n as int)),
        decreases n,
    {
        assert(s@.subrange(0, n as int).drop_last() =~= s@.subrange(0, n - 1));
        n = n - 1;
    }
    assert(trim_nuls(s@.subrange(0, n as int)) == s@.subrange(0, n as int));
    n
}

/// Whether `needle` occurs in the first `len` bytes of `hay`.
fn bytes_contain(hay: &[u8], len: usize, needle: &[u8]) -> (r: bool)
    requires
        len <= hay@.len(),
        needle@.len() > 0,
    ensures
        r == contains_bytes(hay@.subrange(0, len as int), needle@),
{
    let ghost h = hay@.subrange(0, len as int);
    if needle.len() > len {
        return false;
    }
    let last: usize = len - needle.len();
    let mut i: usize = 0;
    while i <= last
        invariant
            needle@.len() <= len <= hay@.len(),
            last == len - needle@.len(),
            i <= last + 1,
            h == hay@.subrange(0, len as int),
            forall|k: int| 0 <= k < i ==> #[trigger] h.subrange(k, k + needle@.len()) != needle@,
        decreases last + 1 - i,
    {
        let mut j: usize = 0;
        let mut same = true;
        while j < needle.len()
            invariant
                i <= last,
                needle@.len() <= len <= hay@.len(),
                last == len - needle@.len(),
                j <= needle@.len(),
                same <==> forall|m: int| 0 <= m < j ==> hay@[i + m] == needle@[m],
            decreases needle@.len() - j,
        {
            if hay[i + j] != needle[j] {
                same = false;
            }
            j = j + 1;
        }
        if same {
            assert(h.subrange(i as int, i + needle@.len()) =~= needle@);
            return true;
        }
        assert(h.subrange(i as int, i + needle@.len()) != needle@) by {
            let m = choose|m: int| 0 <= m < needle@.len() && hay@[i + m] != needle@[m];
            assert(h.subrange(i as int, i + needle@.len())[m] == hay@[i + m]);
        }
        i = i + 1;
    }
    assert(!contains_bytes(h, needle@)) by {
        if contains_bytes(h, needle@) {
            let k = choose|k: int| 0 <= k && k + needle@.len() <= h.len() && #[trigger] h.subrange(k, k + needle@.len()) == needle@;
            assert(k <= last);
        }
    }
    false
}

/// The C library a program was linked against, read from the path of its
/// program interpreter (see [`libc_type_spec`]).
pub fn detect_libc_type(interp: &[u8]) -> (r: LibcType)
    ensures
        r == libc_type_spec(interp@),
{
    if !is_utf8(interp) {
        return LibcType::Unknown;
    }
    let n = trimmed_len(interp);
    let musl: [u8; 4] = [109u8, 117, 115, 108];
    let glibc: [u8; 5] = [103u8, 108, 105, 98, 99];
    let ld_linux: [u8; 8] = [108u8, 100, 45, 108, 105, 110, 117, 120];
    assert(musl@ =~= seq![109u8, 117, 115, 108]);
    assert(glibc@ =~= seq![103u8, 108, 105, 98, 99]);
    assert(ld_linux@ =~= seq![108u8, 100, 45, 108, 105, 110, 117, 120]);
    if bytes_contain(interp, n, musl.as_slice()) {
        LibcType::Musl
    } else if bytes_contain(interp, n, glibc.as_slice()) || bytes_contain(interp, n, ld_linux.as_slice()) {
        LibcType::Glibc
    } else {
        LibcType::Unknown
    }
}

/// Pages of 4 KiB needed to reach byte `x`.
pub open spec fn ceil_pages(x: int) -> int {
    (x + 4095) / 4096
}

/// A loadable segment placed in memory at `vaddr` (the load base plus its
/// address): first page `vpn`, `page_count` pages up to the page holding its
/// last byte, and the permissions its flags ask for.
#[derive(Copy, Clone, Debug, PartialEq, Eq, Structural)]
pub struct LoadSegment {
    pub vaddr: u64,
    pub vpn: u64,
    pub page_count: u64,
    pub offset: u64,
    pub file_size: u64,
    pub mem_size: u64,
    pub flags: MappingFlags,
}

/// Where segment `seg` goes when the image is loaded at `base`.
pub open spec fn load_segment_spec(seg: SegmentInfo, base: u64) -> LoadSegment {
    let v = base + seg.vaddr;
    LoadSegment {
        vaddr: v as u64,
        vpn: (v / 4096) as u64,
        page_count: (ceil_pages(v + seg.mem_size) - v / 4096) as u64,
        offset: seg.offset,
        file_size: seg.file_size,
        mem_size: seg.mem_size,
        flags: MappingFlags {
            user: true,
            read: true,
            write: seg.flags & 2 == 2,
            execute: seg.flags & 1 == 1,
        },
    }
}

/// A loadable segment fits: its placed addresses and page span stay within
/// 64 bits, and the file bytes copied into it lie in the `file_len` bytes of
/// the file (copied only when it has file bytes, unless `always_copy`).
pub open spec fn load_segment_ok(seg: SegmentInfo, base: u64, file_len: int, always_copy: bool) -> bool {
    let v = base + seg.vaddr;
    &&& v <= u64::MAX
    &&& v + seg.mem_size <= u64::MAX
    &&& (ceil_pages(v + seg.mem_size) - v / 4096) * 4096 <= u64::MAX
    &&& (always_copy || seg.file_size > 0) ==> seg.offset + seg.file_size <= file_len
}

/// The pages given to a placed segment cover all its bytes: they start at or
/// below its address and end at or above its last byte.
pub proof fn lemma_load_segment_covers(seg: SegmentInfo, base: u64)
    requires
        base + seg.vaddr + seg.mem_size <= u64::MAX,
    ensures
        ({
            let l = load_segment_spec(seg, base);
            &&& l.vpn * 4096 <= l.vaddr
            &&& l.vaddr + l.mem_size <= (l.vpn + l.page_count) * 4096
        }),
{
    let v = base + seg.vaddr;
    let e = v + seg.mem_size;
    assert(v / 4096 * 4096 <= v) by (nonlinear_arith)
        requires
            v >= 0,
    ;
    assert(v / 4096 <= (e + 4095) / 4096 && e <= (e + 4095) / 4096 * 4096) by (nonlinear_arith)
        requires
            v <= e,
    ;
}

/// The placed loadable segments among the first `n` program headers, in order.
pub open spec fn load_prefix(segs: Seq<SegmentInfo>, base: u64, n: int) -> Seq<LoadSegment>
    decreases n,
{
    if n <= 0 {
        Seq::empty()
    } else {
        let p = load_prefix(segs, base, n - 1);
        if segs[n - 1].kind == SegmentKind::Load {
            p.push(load_segment_spec(segs[n - 1], base))
        } else {
            p
        }
    }
}

/// Highest end address (`vaddr + mem_size`) among the first `n` program headers.
pub open spec fn segs_top(segs: Seq<SegmentInfo>, n: int) -> int
    decreases n,
{
    if n <= 0 {
        0
    } else {
        let prev = segs_top(segs, n - 1);
        let e = segs[n - 1].vaddr + segs[n - 1].mem_size;
        if e > prev {
            e
        } else {
            prev
        }
    }
}

/// The image can be loaded: it has program headers, all of a valid type and
/// ending within 64 bits, a heap start within 64 bits, and loadable
/// segments that fit (see [`load_segment_ok`]).
pub open spec fn image_ok(segs: Seq<SegmentInfo>, base: u64, file_len: int, always_copy: bool) -> bool {
    &&& segs.len() > 0
    &&& forall|i: int| 0 <= i < segs.len() ==> (#[trigger] segs[i]).kind != SegmentKind::Invalid
    &&& forall|i: int| 0 <= i < segs.len() ==> (#[trigger] segs[i]).vaddr + segs[i].mem_size <= u64::MAX
    &&& ceil_pages(segs_top(segs, segs.len() as int)) * 4096 <= u64::MAX
    &&& forall|i: int|
        0 <= i < segs.len() && (#[trigger] segs[i]).kind == SegmentKind::Load ==> load_segment_ok(
            segs[i],
            base,
            file_len,
            always_copy,
        )
}

/// The heap starts above every program header: each one ends at or below
/// the heap start.
pub proof fn lemma_heap_above_segments(segs: Seq<SegmentInfo>, n: int, i: int)
    requires
        0 <= i < n <= segs.len(),
    ensures
        segs[i].vaddr + segs[i].mem_size <= segs_top(segs, n) <= ceil_pages(segs_top(segs, n)) * 4096,
    decreases n,
{
    if i < n - 1 {
        lemma_heap_above_segments(segs, n - 1, i);
    }
    let t = segs_top(segs, n);
    assert(t <= (t + 4095) / 4096 * 4096) by (nonlinear_arith);
}

proof fn lemma_segs_top_bound(segs: Seq<SegmentInfo>, n: int)
    requires
        0 <= n <= segs.len(),
        forall|i: int| 0 <= i < segs.len() ==> (#[trigger] segs[i]).vaddr + segs[i].mem_size <= u64::MAX,
    ensures
        0 <= segs_top(segs, n) <= u64::MAX,
    decreases n,
{
    if n > 0 {
        lemma_segs_top_bound(segs, n - 1);
    }
}

/// Whether segment `seg` fits (see [`load_segment_ok`]).
fn segment_fits(seg: &SegmentInfo, base: u64, file_len: u64, always_copy: bool) -> (r: bool)
    ensures
        r == load_segment_ok(*seg, base, file_len as int, always_copy),
{
    let v: u128 = base as u128 + seg.vaddr as u128;
    if v > u64::MAX as u128 {
        return false;
    }
    let e: u128 = v + seg.mem_size as u128;
    if e > u64::MAX as u128 {
        return false;
    }
    let span: u128 = ((e + 4095) / 4096 - v / 4096) * 4096;
    assert(v / 4096 <= (e + 4095) / 4096) by (nonlinear_arith)
        requires
            v <= e,
    ;
    if span > u64::MAX as u128 {
        return false;
    }
    if always_copy || seg.file_size > 0 {
        (seg.offset as u128) + (seg.file_size as u128) <= file_len as u128
    } else {
        true
    }
}

/// Whether the image can be loaded (see [`image_ok`]).
pub fn image_fits(image: &ElfImage, base: u64, file_len: u64, always_copy: bool) -> (r: bool)
    ensures
        r == image_ok(image.segments@, base, file_len as int, always_copy),
{
    let segs = &image.segments;
    let ghost sv = segs@;
    if segs.len() == 0 {
        return false;
    }
    let mut top: u64 = 0;
    let mut i: usize = 0;
    while i < segs.len()
        invariant
            sv == segs@,
            sv == image.segments@,
            i <= sv.len(),
            top == segs_top(sv, i as int),
            forall|k: int| 0 <= k < i ==> (#[trigger] sv[k]).kind != SegmentKind::Invalid,
            forall|k: int| 0 <= k < i ==> (#[trigger] sv[k]).vaddr + sv[k].mem_size <= u64::MAX,
            forall|k: int|
                0 <= k < i && (#[trigger] sv[k]).kind == SegmentKind::Load ==> load_segment_ok(
                    sv[k],
                    base,
                    file_len as int,
                    always_copy,
                ),
        decreases sv.len() - i,
    {
        let seg = &segs[i];
        assert(sv[i as int] == *seg);
        if seg.kind == SegmentKind::Invalid {
            return false;
        }
        if (seg.vaddr as u128) + (seg.mem_size as u128) > u64::MAX as u128 {
            return false;
        }
        if seg.kind == SegmentKind::Load && !segment_fits(seg, base, file_len, always_copy) {
            return false;
        }
        let e: u64 = seg.vaddr + seg.mem_size;
        if e > top {
            top = e;
        }
        i = i + 1;
    }
    ((top as u128 + 4095) / 4096) * 4096 <= u64::MAX as u128
}

/// A static image ready to be placed: entry point, heap start (the page
/// after the highest segment end) and the placed loadable segments.
pub struct LoadPlan {
    pub entry: u64,
    pub heap_bottom: u64,
    pub ph_count: u16,
    pub ph_entry_size: u16,
    pub segments: Vec<LoadSegment>,
}

/// Places a loadable image at `base`.
pub fn load_plan(image: &ElfImage, base: u64, file_len: u64, always_copy: bool) -> (r: LoadPlan)
    requires
        image_ok(image.segments@, base, file_len as int, always_copy),
    ensures
        r.entry == image.header.entry,
        r.ph_count == image.header.ph_count,
        r.ph_entry_size == image.header.ph_entry_size,
        r.heap_bottom == ceil_pages(segs_top(image.segments@, image.segments@.len() as int)) * 4096,
        r.segments@ == load_prefix(image.segments@, base, image.segments@.len() as int),
        forall|i: int|
            0 <= i < r.segments@.len() ==> (#[trigger] r.segments@[i]).vpn * 4096 <= u64::MAX
                && r.segments@[i].page_count * 4096 <= u64::MAX,
{
    let segs = &image.segments;
    let ghost sv = segs@;
    let mut top: u64 = 0;
    let mut out: Vec<LoadSegment> = Vec::new();
    let mut i: usize = 0;
    while i < segs.len()
        invariant
            sv == segs@,
            image_ok(sv, base, file_len as int, always_copy),
            i <= sv.len(),
            top == segs_top(sv, i as int),
            out@ == load_prefix(sv, base, i as int),
            forall|k: int|
                0 <= k < out@.len() ==> (#[trigger] out@[k]).vpn * 4096 <= u64::MAX
                    && out@[k].page_count * 4096 <= u64::MAX,
        decreases sv.len() - i,
    {
        let seg = &segs[i];
        assert(sv[i as int].vaddr + sv[i as int].mem_size <= u64::MAX);
        let e: u64 = seg.vaddr + seg.mem_size;
        if e > top {
            top = e;
        }
        if seg.kind == SegmentKind::Load {
            assert(load_segment_ok(sv[i as int], base, file_len as int, always_copy));
            let v: u64 = base + seg.vaddr;
            let end: u64 = v + seg.mem_size;
            let vpn: u64 = v / 4096;
            let end_pages: u64 = (end / 4096) + if end % 4096 == 0 { 0u64 } else { 1u64 };
            assert(end_pages == (end + 4095) / 4096) by (nonlinear_arith)
                requires
                    end_pages == (end / 4096) + if end % 4096 == 0 { 0int } else { 1int },
            ;
            assert(vpn <= end_pages) by (nonlinear_arith)
                requires
                    vpn == v / 4096,
                    end_pages == (end + 4095) / 4096,
                    v <= end,
            ;
            assert(vpn * 4096 <= v) by (nonlinear_arith)
                requires
                    vpn == v / 4096,
            ;
            let flags = elf_flags_to_mapping_flags(seg.flags & 4 == 4, seg.flags & 2 == 2, seg.flags & 1 == 1);
            out.push(LoadSegment {
                vaddr: v,
                vpn,
                page_count: end_pages - vpn,
                offset: seg.offset,
                file_size: seg.file_size,
                mem_size: seg.mem_size,
                flags,
            });
        }
        i = i + 1;
    }
    proof {
        lemma_segs_top_bound(sv, sv.len() as int);
    }
    let q: u64 = top / 4096 + if top % 4096 == 0 { 0u64 } else { 1u64 };
    assert(q == (top + 4095) / 4096) by (nonlinear_arith)
        requires
            q == top / 4096 + if top % 4096 == 0 { 0int } else { 1int },
    ;
    LoadPlan {
        entry: image.header.entry,
        heap_bottom: q * 4096,
        ph_count: image.header.ph_count,
        ph_entry_size: image.header.ph_entry_size,
        segments: out,
    }
}

/// Index of the first program header of kind `kind` among the first `n`.
pub open spec fn first_of_kind(segs: Seq<SegmentInfo>, kind: SegmentKind, n: int) -> Option<int>
    decreases n,
{
    if n <= 0 {
        None
    } else {
        match first_of_kind(segs, kind, n - 1) {
            Some(k) => Some(k),
            None => if segs[n - 1].kind == kind {
                Some(n - 1)
            } else {
                None
            },
        }
    }
}

proof fn lemma_first_of_kind_stable(segs: Seq<SegmentInfo>, kind: SegmentKind, n: int, m: int)
    requires
        0 <= n <= m,
        first_of_kind(segs, kind, n) is Some,
    ensures
        first_of_kind(segs, kind, m) == first_of_kind(segs, kind, n),
    decreases m - n,
{
    if m > n {
        lemma_first_of_kind_stable(segs, kind, n, m - 1);
    }
}

proof fn lemma_first_of_kind_valid(segs: Seq<SegmentInfo>, kind: SegmentKind, n: int)
    requires
        n <= segs.len(),
    ensures
        first_of_kind(segs, kind, n) matches Some(k) ==> 0 <= k < n && segs[k].kind == kind,
    decreases n,
{
    if n > 0 {
        lemma_first_of_kind_valid(segs, kind, n - 1);
    }
}

/// Index of the first program header of kind `kind`, if any.
fn find_kind(segs: &Vec<SegmentInfo>, kind: SegmentKind) -> (r: Option<usize>)
    ensures
        r matches Some(k) ==> first_of_kind(segs@, kind, segs@.len() as int) == Some(k as int),
        r is None <==> first_of_kind(segs@, kind, segs@.len() as int) is None,
        r matches Some(k) ==> k < segs@.len() && segs@[k as int].kind == kind,
{
    let mut i: usize = 0;
    while i < segs.len()
        invariant
            i <= segs@.len(),
            first_of_kind(segs@, kind, i as int) is None,
        decreases segs@.len() - i,
    {
        if segs[i].kind == kind {
            proof {
                lemma_first_of_kind_stable(segs@, kind, i + 1, segs@.len() as int);
            }
            return Some(i);
        }
        i = i + 1;
    }
    None
}

/// The bytes of a segment can be read from a file of `len` bytes.
pub open spec fn segment_data_ok(seg: SegmentInfo, len: int) -> bool {
    seg.file_size == 0 || seg.offset + seg.file_size <= len
}

/// The bytes of a segment in the file (none when it has no file bytes).
pub open spec fn segment_data(bytes: Seq<u8>, seg: SegmentInfo) -> Seq<u8> {
    if seg.file_size == 0 {
        Seq::empty()
    } else {
        bytes.subrange(seg.offset as int, seg.offset + seg.file_size)
    }
}

/// What `exec` does with a file.
pub enum ExecPlan {
    /// Not an ELF image: run `busybox sh` with the arguments after those two.
    Shell,
    /// Dynamically linked: run the dynamic loader of this C library, its path
    /// in front of the arguments.
    Interpreter(LibcType),
    /// A static image to place.
    Image(LoadPlan),
    /// An ELF image whose tables, segments or addresses do not fit.
    Malformed,
}

/// What `exec` does with an image of header `h` and program headers `segs`
/// read from `bytes`, loaded at `base`: the first interpreter segment
/// decides the C library, else the image is placed.
pub open spec fn exec_plan_ok(bytes: Seq<u8>, h: ElfHeaderInfo, segs: Seq<SegmentInfo>, base: u64, r: ExecPlan) -> bool {
    match first_of_kind(segs, SegmentKind::Interp, segs.len() as int) {
        Some(k) => if segment_data_ok(segs[k], bytes.len() as int) {
            r == ExecPlan::Interpreter(libc_type_spec(segment_data(bytes, segs[k])))
        } else {
            r is Malformed
        },
        None => if image_ok(segs, base, bytes.len() as int, false) {
            r matches ExecPlan::Image(p) && p.entry == h.entry && p.heap_bottom == ceil_pages(
                segs_top(segs, segs.len() as int),
            ) * 4096 && p.segments@ == load_prefix(segs, base, segs.len() as int)
        } else {
            r is Malformed
        },
    }
}

/// Decides how to run the file `bytes` (an image to be loaded at `base`):
/// with the shell when it is no ELF image, with the dynamic loader when it
/// names an interpreter, else by placing its loadable segments.
pub fn plan_exec(bytes: &[u8], base: u64) -> (r: ExecPlan)
    ensures
        r is Shell <==> !elf_header_shape(bytes@),
        match elf_header_of(bytes@) {
            None => r is Shell,
            Some(h) => if ph_table_ok(h, bytes@.len() as int) {
                exec_plan_ok(bytes@, h, segments_of(bytes@, h), base, r)
            } else {
                r is Malformed
            },
        },
{
    let image = match read_elf_image(bytes) {
        Ok(img) => img,
        Err(ElfError::NotElf) => return ExecPlan::Shell,
        Err(ElfError::Malformed) => return ExecPlan::Malformed,
    };
    plan_exec_image(&image, bytes, base)
}

/// Decides how to run an ELF image already read from the file `bytes`
/// (header and program headers in `image`), loaded at `base`: with the
/// dynamic loader when a program header names an interpreter, else by
/// placing its loadable segments.
pub fn plan_exec_image(image: &ElfImage, bytes: &[u8], base: u64) -> (r: ExecPlan)
    ensures
        exec_plan_ok(bytes@, image.header, image.segments@, base, r),
{
    match find_kind(&image.segments, SegmentKind::Interp) {
        Some(k) => {
            let seg = image.segments[k];
            if seg.file_size == 0 {
                let empty: [u8; 0] = [];
                assert(empty@ =~= segment_data(bytes@, seg));
                return ExecPlan::Interpreter(detect_libc_type(empty.as_slice()));
            }
            if (seg.offset as u128) + (seg.file_size as u128) > bytes.len() as u128 {
                return ExecPlan::Malformed;
            }
            let data = vstd::slice::slice_subrange(bytes, seg.offset as usize, (seg.offset + seg.file_size) as usize);
            ExecPlan::Interpreter(detect_libc_type(data))
        },
        None => {
            if image_fits(image, base, bytes.len() as u64, false) {
                ExecPlan::Image(load_plan(image, base, bytes.len() as u64, false))
            } else {
                ExecPlan::Malformed
            }
        },
    }
}

/// The program `exec` runs instead, and its arguments: for a file that is
/// no ELF image, `busybox` with `busybox sh` in front of the arguments; for
/// a dynamically linked one, the dynamic loader of its C library (musl's
/// for an unknown one) with the loader's path in front of them.
pub open spec fn exec_redirect_spec(
    plan: ExecPlan,
    args: Seq<Seq<u8>>,
    musl: Seq<u8>,
    glibc: Seq<u8>,
    dyn_loader: Seq<u8>,
) -> Option<(Seq<u8>, Seq<Seq<u8>>)> {
    match plan {
        ExecPlan::Shell => Some(
            (seq![98u8, 117, 115, 121, 98, 111, 120], seq![seq![98u8, 117, 115, 121, 98, 111, 120], seq![115u8, 104]] + args),
        ),
        ExecPlan::Interpreter(t) => {
            let p = match t {
                LibcType::Musl => musl,
                LibcType::Glibc => glibc,
                LibcType::Unknown => dyn_loader,
            };
            Some((p, seq![p] + args))
        },
        _ => None,
    }
}

/// The views of a list of byte strings.
pub open spec fn views(v: Seq<Vec<u8>>) -> Seq<Seq<u8>> {
    Seq::new(v.len(), |i: int| v[i]@)
}

/// The re-`exec` that a plan asks for (see [`exec_redirect_spec`]); `None`
/// for an image that is placed or malformed.
pub fn exec_redirect(
    plan: &ExecPlan,
    args: &Vec<Vec<u8>>,
    musl: &Vec<u8>,
    glibc: &Vec<u8>,
    dyn_loader: &Vec<u8>,
) -> (r: Option<(Vec<u8>, Vec<Vec<u8>>)>)
    ensures
        match (r, exec_redirect_spec(*plan, views(args@), musl@, glibc@, dyn_loader@)) {
            (None, None) => true,
            (Some((p, a)), Some((sp, sa))) => p@ == sp && views(a@) == sa,
            _ => false,
        },
{
    let (path, first): (Vec<u8>, Vec<Vec<u8>>) = match plan {
        ExecPlan::Shell => {
            let busybox: Vec<u8> = vec![98u8, 117, 115, 121, 98, 111, 120];
            let sh: Vec<u8> = vec![115u8, 104];
            (busybox.clone(), vec![busybox, sh])
        },
        ExecPlan::Interpreter(t) => {
            let p = match t {
                LibcType::Musl => musl.clone(),
                LibcType::Glibc => glibc.clone(),
                LibcType::Unknown => dyn_loader.clone(),
            };
            (p.clone(), vec![p])
        },
        _ => {
            return None;
        },
    };
    let ghost head = views(first@);
    let mut out = first;
    let mut i: usize = 0;
    while i < args.len()
        invariant
            i <= args@.len(),
            views(out@) == head + views(args@).subrange(0, i as int),
        decreases args@.len() - i,
    {
        let a = args[i].clone();
        proof {
            assert(views(out@.push(a)) =~= views(out@).push(a@));
            assert(views(args@).subrange(0, i + 1) =~= views(args@).subrange(0, i as int).push(args@[i as int]@));
        }
        out.push(a);
        i = i + 1;
    }
    assert(views(args@).subrange(0, args@.len() as int) =~= views(args@));
    Some((path, out))
}

/// The area `exec` records for a placed loadable segment: from its address,
/// its memory size long, backed by the executable from its file offset.
pub open spec fn segment_area(seg: LoadSegment) -> MemRegion {
    MemRegion { start: seg.vaddr, len: seg.mem_size, mtype: MemType::CodeSection, offset: seg.offset, has_file: true }
}

/// The areas `exec` records for the segments of a placed image, one per
/// loadable segment, in order.
pub fn exec_segment_areas(plan: &LoadPlan) -> (r: Vec<MemRegion>)
    ensures
        r@.len() == plan.segments@.len(),
        forall|i: int| 0 <= i < r@.len() ==> r@[i] == segment_area(#[trigger] plan.segments@[i]),
{
    let mut out: Vec<MemRegion> = Vec::new();
    let mut i: usize = 0;
    while i < plan.segments.len()
        invariant
            i <= plan.segments@.len(),
            out@.len() == i,
            forall|k: int| 0 <= k < i ==> out@[k] == segment_area(#[trigger] plan.segments@[k]),
        decreases plan.segments@.len() - i,
    {
        let seg = plan.segments[i];
        out.push(MemRegion { start: seg.vaddr, len: seg.mem_size, mtype: MemType::CodeSection, offset: seg.offset, has_file: true });
        i = i + 1;
    }
    out
}

/// Why `exec` of a placed image fails after loading.
#[derive(Copy, Clone, Debug, PartialEq, Eq, Structural)]
pub enum ExecError {
    /// A loadable segment lies in no file-backed area.
    ENOEXEC,
}

/// The answer of `exec` once the segments were mapped and checked: a
/// failed check of the segment mapping is `ENOEXEC`.
pub fn exec_load_result(validation: Result<(), &'static str>) -> (r: Result<(), ExecError>)
    ensures
        r == match validation {
            Ok(()) => Ok::<(), ExecError>(()),
            Err(_) => Err::<(), ExecError>(ExecError::ENOEXEC),
        },
{
    match validation {
        Ok(()) => Ok(()),
        Err(_) => Err(ExecError::ENOEXEC),
    }
}

/// Every segment of a placed image lies in a file-backed area among those
/// `exec` records for it, so once each segment is mapped the check of the
/// segment mapping passes and `exec` does not answer `ENOEXEC`.
pub proof fn lemma_placed_segments_covered(plan: LoadPlan, areas: Seq<MemRegion>)
    requires
        areas.len() == plan.segments@.len(),
        forall|i: int| 0 <= i < areas.len() ==> areas[i] == segment_area(#[trigger] plan.segments@[i]),
    ensures
        forall|i: int|
            0 <= i < plan.segments@.len() ==> covered_by_file_area(
                areas,
                (#[trigger] plan.segments@[i]).vaddr as int,
                plan.segments@[i].vaddr + plan.segments@[i].mem_size,
            ),
{
    assert forall|i: int| 0 <= i < plan.segments@.len() implies covered_by_file_area(
        areas,
        (#[trigger] plan.segments@[i]).vaddr as int,
        plan.segments@[i].vaddr + plan.segments@[i].mem_size,
    ) by {
        assert(areas[i] == segment_area(plan.segments@[i]));
    }
}

/// What caching a program as a template does with a file.
pub enum CachePlan {
    /// Not an ELF image: nothing is cached.
    NotElf,
    /// The image to keep, placed at the load base.
    Template(LoadPlan),
    /// A dynamically linked image (which cannot be cached), or one whose
    /// tables, segments or addresses do not fit.
    Refused,
}

/// Whether caching `bytes` (loaded at `base`) gives a template: `None` when
/// they are no ELF image, else whether the image is static and fits.
pub open spec fn plan_cache_spec(bytes: Seq<u8>, base: u64) -> Option<bool> {
    match elf_header_of(bytes) {
        None => None,
        Some(h) => {
            let segs = segments_of(bytes, h);
            Some(ph_table_ok(h, bytes.len() as int) && first_of_kind(segs, SegmentKind::Interp, segs.len() as int)
                is None && image_ok(segs, base, bytes.len() as int, true))
        },
    }
}

/// Decides what caching `bytes` as a template (loaded at `base`) keeps:
/// only static images, whose loadable segments are all copied from the file.
pub fn plan_cache(bytes: &[u8], base: u64) -> (r: CachePlan)
    ensures
        r is NotElf <==> !elf_header_shape(bytes@),
        match plan_cache_spec(bytes@, base) {
            None => r is NotElf,
            Some(false) => r is Refused,
            Some(true) => r matches CachePlan::Template(p) && {
                let h = elf_header_of(bytes@)->0;
                let segs = segments_of(bytes@, h);
                &&& p.entry == h.entry
                &&& p.ph_count == h.ph_count
                &&& p.ph_entry_size == h.ph_entry_size
                &&& p.heap_bottom == ceil_pages(segs_top(segs, segs.len() as int)) * 4096
                &&& p.segments@ == load_prefix(segs, base, segs.len() as int)
                &&& forall|i: int|
                    0 <= i < p.segments@.len() ==> (#[trigger] p.segments@[i]).vpn * 4096 <= u64::MAX
                        && p.segments@[i].page_count * 4096 <= u64::MAX
            },
        },
{
    let image = match read_elf_image(bytes) {
        Ok(img) => img,
        Err(ElfError::NotElf) => return CachePlan::NotElf,
        Err(ElfError::Malformed) => return CachePlan::Refused,
    };
    if find_kind(&image.segments, SegmentKind::Interp).is_some() {
        return CachePlan::Refused;
    }
    if image_fits(&image, base, bytes.len() as u64, true) {
        CachePlan::Template(load_plan(&image, base, bytes.len() as u64, true))
    } else {
        CachePlan::Refused
    }
}

/// A pre-loaded static executable: its path, entry point, the areas its
/// segments occupy, load base, heap start and program-header location.
pub struct TaskCacheTemplate {
    pub name: Vec<u8>,
    pub entry: u64,
    pub maps: Vec<MemRegion>,
    pub base: u64,
    pub heap_bottom: u64,
    pub ph_count: u64,
    pub ph_entry_size: u64,
    pub ph_addr: u64,
}

/// The area a placed segment occupies in a template: its whole pages, as code.
pub open spec fn template_area(seg: LoadSegment) -> MemRegion {
    MemRegion {
        start: (seg.vpn * 4096) as u64,
        len: (seg.page_count * 4096) as u64,
        mtype: MemType::CodeSection,
        offset: 0,
        has_file: false,
    }
}

/// What caching a program as a template gives.
pub enum CacheOutcome {
    /// Not an ELF image: nothing is cached.
    NotElf,
    /// The template to keep.
    Cached(TaskCacheTemplate),
    /// A dynamically linked image, or one whose tables, segments or
    /// addresses do not fit: it cannot be cached.
    Refused,
}

/// The template for the program at `path` whose file holds `bytes`, loaded
/// at `base` with its program headers at `ph_addr` (see [`plan_cache`]).
pub fn cache_task_template(path: Vec<u8>, bytes: &[u8], base: u64, ph_addr: u64) -> (r: CacheOutcome)
    ensures
        match plan_cache_spec(bytes@, base) {
            None => r is NotElf,
            Some(false) => r is Refused,
            Some(true) => r matches CacheOutcome::Cached(t) && {
                let h = elf_header_of(bytes@)->0;
                let segs = segments_of(bytes@, h);
                let loads = load_prefix(segs, base, segs.len() as int);
                &&& t.name@ == path@
                &&& t.entry == h.entry
                &&& t.base == base
                &&& t.heap_bottom == ceil_pages(segs_top(segs, segs.len() as int)) * 4096
                &&& t.ph_count == h.ph_count
                &&& t.ph_entry_size == h.ph_entry_size
                &&& t.ph_addr == ph_addr
                &&& t.maps@.len() == loads.len()
                &&& forall|i: int| 0 <= i < loads.len() ==> t.maps@[i] == template_area(#[trigger] loads[i])
            },
        },
{
    match plan_cache(bytes, base) {
        CachePlan::NotElf => CacheOutcome::NotElf,
        CachePlan::Refused => CacheOutcome::Refused,
        CachePlan::Template(plan) => {
            let mut maps: Vec<MemRegion> = Vec::new();
            let mut i: usize = 0;
            while i < plan.segments.len()
                invariant
                    i <= plan.segments@.len(),
                    maps@.len() == i,
                    forall|k: int|
                        0 <= k < plan.segments@.len() ==> (#[trigger] plan.segments@[k]).vpn * 4096 <= u64::MAX
                            && plan.segments@[k].page_count * 4096 <= u64::MAX,
                    forall|k: int| 0 <= k < i ==> maps@[k] == template_area(#[trigger] plan.segments@[k]),
                decreases plan.segments@.len() - i,
            {
                let seg = plan.segments[i];
                assert(plan.segments@[i as int] == seg);
                maps.push(MemRegion {
                    start: seg.vpn * 4096,
                    len: seg.page_count * 4096,
                    mtype: MemType::CodeSection,
                    offset: 0,
                    has_file: false,
                });
                i = i + 1;
            }
            CacheOutcome::Cached(TaskCacheTemplate {
                name: path,
                entry: plan.entry,
                maps,
                base,
                heap_bottom: plan.heap_bottom,
                ph_count: plan.ph_count as u64,
                ph_entry_size: plan.ph_entry_size as u64,
                ph_addr,
            })
        },
    }
}

/// Whether two byte strings are equal.
fn same_bytes(a: &[u8], b: &[u8]) -> (r: bool)
    ensures
        r == (a@ == b@),
{
    if a.len() != b.len() {
        return false;
    }
    let mut i: usize = 0;
    while i < a.len()
        invariant
            i <= a@.len(),
            a@.len() == b@.len(),
            forall|k: int| 0 <= k < i ==> a@[k] == b@[k],
        decreases a@.len() - i,
    {
        if a[i] != b[i] {
            return false;
        }
        i = i + 1;
    }
    assert(a@ =~= b@);
    true
}

/// Index of the first cached template for the program at `path`.
pub fn find_task_template(caches: &[TaskCacheTemplate], path: &[u8]) -> (r: Option<usize>)
    ensures
        match r {
            Some(k) => k < caches@.len() && caches@[k as int].name@ == path@ && forall|m: int|
                0 <= m < k ==> (#[trigger] caches@[m]).name@ != path@,
            None => forall|m: int| 0 <= m < caches@.len() ==> (#[trigger] caches@[m]).name@ != path@,
        },
{
    let mut i: usize = 0;
    while i < caches.len()
        invariant
            i <= caches@.len(),
            forall|m: int| 0 <= m < i ==> (#[trigger] caches@[m]).name@ != path@,
        decreases caches@.len() - i,
    {
        if same_bytes(caches[i].name.as_slice(), path) {
            return Some(i);
        }
        i = i + 1;
    }
    None
}

/// The threads `exec` keeps: of the live threads (`Some(task id)`; `None`
/// for a thread that is gone), only the one doing the `exec`. Returns the
/// indices kept.
pub fn exec_retained_threads(threads: &[Option<u64>], current: u64) -> (r: Vec<usize>)
    ensures
        forall|k: int| 0 <= k < r@.len() ==> (#[trigger] r@[k]) < threads@.len() && threads@[r@[k] as int] == Some(current),
        forall|i: int| 0 <= i < threads@.len() && threads@[i] == Some(current) ==> r@.contains(i as usize),
        forall|a: int, b: int| 0 <= a < b < r@.len() ==> r@[a] < r@[b],
{
    let mut kept: Vec<usize> = Vec::new();
    let mut i: usize = 0;
    while i < threads.len()
        invariant
            i <= threads@.len(),
            forall|k: int| 0 <= k < kept@.len() ==> (#[trigger] kept@[k]) < i && threads@[kept@[k] as int] == Some(current),
            forall|j: int| 0 <= j < i && threads@[j] == Some(current) ==> kept@.contains(j as usize),
            forall|a: int, b: int| 0 <= a < b < kept@.len() ==> kept@[a] < kept@[b],
        decreases threads@.len() - i,
    {
        let ghost before = kept@;
        if threads[i] == Some(current) {
            kept.push(i);
            assert(kept@[kept@.len() - 1] == i);
            assert forall|j: int| 0 <= j < i && threads@[j] == Some(current) implies kept@.contains(j as usize) by {
                let idx = choose|idx: int| 0 <= idx < before.len() && before[idx] == j as usize;
                assert(kept@[idx] == j as usize);
            }
        }
        i = i + 1;
    }
    kept
}

} // verus!
