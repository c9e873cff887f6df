//! File-level decisions of the ext4 layer: inode-type mapping, the fixed
//! `statfs` answer, how a write past the end of a file fills the gap, and how
//! a name is turned into the absolute path the ext4 library wants.

use vstd::prelude::*;
use crate::elf_load::{is_utf8, utf8_valid};

verus! {

/// Directory-entry and inode-mode types of the ext4 library.
#[derive(Copy, Clone, Debug, PartialEq, Eq, Structural)]
pub enum InodeTypes {
    EXT4_DE_UNKNOWN,
    EXT4_DE_REG_FILE,
    EXT4_DE_DIR,
    EXT4_DE_CHRDEV,
    EXT4_DE_BLKDEV,
    EXT4_DE_FIFO,
    EXT4_DE_SOCK,
    EXT4_DE_SYMLINK,
    EXT4_INODE_MODE_FIFO,
    EXT4_INODE_MODE_CHARDEV,
    EXT4_INODE_MODE_DIRECTORY,
    EXT4_INODE_MODE_BLOCKDEV,
    EXT4_INODE_MODE_FILE,
    EXT4_INODE_MODE_SOFTLINK,
    EXT4_INODE_MODE_SOCKET,
    EXT4_INODE_MODE_TYPE_MASK,
}

/// File types of the virtual file system.
#[derive(Copy, Clone, Debug, PartialEq, Eq, Structural)]
pub enum FileType {
    File,
    Directory,
    Device,
    Socket,
    Link,
}

/// Whether `t` is a directory-entry type (the only kind the mapping covers).
pub open spec fn is_dirent_type(t: InodeTypes) -> bool {
    match t {
        InodeTypes::EXT4_DE_UNKNOWN | InodeTypes::EXT4_DE_REG_FILE | InodeTypes::EXT4_DE_DIR
        | InodeTypes::EXT4_DE_CHRDEV | InodeTypes::EXT4_DE_BLKDEV | InodeTypes::EXT4_DE_FIFO
        | InodeTypes::EXT4_DE_SOCK | InodeTypes::EXT4_DE_SYMLINK => true,
        _ => false,
    }
}

/// The file type of a directory-entry type: unknown and regular entries are
/// files, character and block devices and FIFOs are devices.
pub open spec fn map_ext4_type_spec(value: InodeTypes) -> FileType {
    match value {
        InodeTypes::EXT4_DE_DIR => FileType::Directory,
        InodeTypes::EXT4_DE_CHRDEV | InodeTypes::EXT4_DE_BLKDEV | InodeTypes::EXT4_DE_FIFO => FileType::Device,
        InodeTypes::EXT4_DE_SOCK => FileType::Socket,
        InodeTypes::EXT4_DE_SYMLINK => FileType::Link,
        _ => FileType::File,
    }
}

/// The file type of a directory-entry type (see `map_ext4_type_spec`).
pub fn map_ext4_type(value: InodeTypes) -> (r: FileType)
    requires
        is_dirent_type(value),
    ensures
        r == map_ext4_type_spec(value),
{
    match value {
        InodeTypes::EXT4_DE_UNKNOWN => FileType::File,
        InodeTypes::EXT4_DE_REG_FILE => FileType::File,
        InodeTypes::EXT4_DE_DIR => FileType::Directory,
        InodeTypes::EXT4_DE_CHRDEV => FileType::Device,
        InodeTypes::EXT4_DE_BLKDEV => FileType::Device,
        InodeTypes::EXT4_DE_FIFO => FileType::Device,
        InodeTypes::EXT4_DE_SOCK => FileType::Socket,
        InodeTypes::EXT4_DE_SYMLINK => FileType::Link,
        _ => FileType::File,
    }
}

/// How directory entries are classified: regular and unknown entries are
/// files, directories directories, character devices, block devices and
/// FIFOs devices, sockets sockets and symbolic links links, and no entry
/// type lands in two classes.
pub proof fn lemma_dirent_type_classes(t: InodeTypes)
    requires
        is_dirent_type(t),
    ensures
        (map_ext4_type_spec(t) == FileType::File) <==> (t == InodeTypes::EXT4_DE_REG_FILE || t
            == InodeTypes::EXT4_DE_UNKNOWN),
        (map_ext4_type_spec(t) == FileType::Directory) <==> t == InodeTypes::EXT4_DE_DIR,
        (map_ext4_type_spec(t) == FileType::Device) <==> (t == InodeTypes::EXT4_DE_CHRDEV || t
            == InodeTypes::EXT4_DE_BLKDEV || t == InodeTypes::EXT4_DE_FIFO),
        (map_ext4_type_spec(t) == FileType::Socket) <==> t == InodeTypes::EXT4_DE_SOCK,
        (map_ext4_type_spec(t) == FileType::Link) <==> t == InodeTypes::EXT4_DE_SYMLINK,
{
}

/// A directory listing and `stat` agree on a file's kind: for every entry
/// type that `stat` answers, a regular file is a file with a file mode, a
/// directory a directory, a block device a device with a block mode, a
/// socket a socket and a symbolic link a link.
pub proof fn lemma_dirent_type_matches_stat(t: InodeTypes)
    requires
        t == InodeTypes::EXT4_DE_REG_FILE || t == InodeTypes::EXT4_DE_DIR || t == InodeTypes::EXT4_DE_BLKDEV
            || t == InodeTypes::EXT4_DE_SOCK || t == InodeTypes::EXT4_DE_SYMLINK,
    ensures
        (map_ext4_type_spec(t) == FileType::File) <==> (stat_mode_spec(t) == StatMode::FILE),
        (map_ext4_type_spec(t) == FileType::Directory) <==> (stat_mode_spec(t) == StatMode::DIR),
        (map_ext4_type_spec(t) == FileType::Device) <==> (stat_mode_spec(t) == StatMode::BLOCK),
        (map_ext4_type_spec(t) == FileType::Socket) <==> (stat_mode_spec(t) == StatMode::SOCKET),
        (map_ext4_type_spec(t) == FileType::Link) <==> (stat_mode_spec(t) == StatMode::LINK),
{
}

/// Mode kinds of a `stat` answer.
#[derive(Copy, Clone, Debug, PartialEq, Eq, Structural)]
pub enum StatMode {
    FILE,
    DIR,
    BLOCK,
    SOCKET,
    LINK,
}

/// The `stat` mode of an inode type.
pub open spec fn stat_mode_spec(t: InodeTypes) -> StatMode {
    match t {
        InodeTypes::EXT4_DE_REG_FILE => StatMode::FILE,
        InodeTypes::EXT4_DE_DIR => StatMode::DIR,
        InodeTypes::EXT4_DE_BLKDEV => StatMode::BLOCK,
        InodeTypes::EXT4_DE_SOCK => StatMode::SOCKET,
        _ => StatMode::LINK,
    }
}

/// The `stat` mode of an inode type; only regular files, directories, block
/// devices, sockets and symlinks are expected.
pub fn stat_mode_of(t: InodeTypes) -> (r: StatMode)
    requires
        t == InodeTypes::EXT4_DE_REG_FILE || t == InodeTypes::EXT4_DE_DIR || t == InodeTypes::EXT4_DE_BLKDEV
            || t == InodeTypes::EXT4_DE_SOCK || t == InodeTypes::EXT4_DE_SYMLINK,
    ensures
        r == stat_mode_spec(t),
{
    match t {
        InodeTypes::EXT4_DE_REG_FILE => StatMode::FILE,
        InodeTypes::EXT4_DE_DIR => StatMode::DIR,
        InodeTypes::EXT4_DE_BLKDEV => StatMode::BLOCK,
        InodeTypes::EXT4_DE_SOCK => StatMode::SOCKET,
        _ => StatMode::LINK,
    }
}

/// A `statfs` answer.
#[derive(Copy, Clone)]
pub struct StatFS {
    pub ftype: u64,
    pub bsize: u64,
    pub blocks: u64,
    pub bfree: u64,
    pub bavail: u64,
    pub files: u64,
    pub ffree: u64,
    pub fsid: u64,
    pub namelen: u64,
}

/// The fixed `statfs` answer of the ext4 file system.
pub fn ext4_statfs() -> (r: StatFS)
    ensures
        r == (StatFS { ftype: 32, bsize: 512, blocks: 80, bfree: 40, bavail: 0, files: 32, ffree: 0, fsid: 32, namelen: 20 }),
{
    StatFS { ftype: 32, bsize: 512, blocks: 80, bfree: 40, bavail: 0, files: 32, ffree: 0, fsid: 32, namelen: 20 }
}

/// Gaps up to this size are filled with written zeros.
pub const ZERO_FILL_THRESHOLD: usize = 1 << 20;
/// Size of the zero blocks written into a gap.
pub const ZERO_CHUNK: usize = 64 * 1024;

/// How a write at `offset` into a file of `current_size` bytes treats the
/// bytes between them.
#[derive(Copy, Clone, PartialEq, Eq, Structural)]
pub enum GapFill {
    /// The write starts within the file.
    NoGap,
    /// Write zeros from the current end, in blocks of at most 64 KiB.
    Zeros { from: usize, len: usize },
    /// Extend the file to `offset` by truncation.
    Extend { to: usize },
}

/// The gap treatment of a write: zeros for a gap of at most 1 MiB, a
/// truncation for a larger one.
pub fn writeat_gap(offset: usize, current_size: usize) -> (r: GapFill)
    ensures
        r == if offset <= current_size {
            GapFill::NoGap
        } else if offset - current_size <= ZERO_FILL_THRESHOLD {
            GapFill::Zeros { from: current_size, len: (offset - current_size) as usize }
        } else {
            GapFill::Extend { to: offset }
        },
{
    if offset > current_size {
        let gap = offset - current_size;
        if gap <= ZERO_FILL_THRESHOLD {
            GapFill::Zeros { from: current_size, len: gap }
        } else {
            GapFill::Extend { to: offset }
        }
    } else {
        GapFill::NoGap
    }
}

/// Sizes of the zero blocks written into a gap of `len` bytes: full 64 KiB
/// blocks, then the rest.
pub fn zero_fill_chunks(len: usize) -> (r: Vec<usize>)
    ensures
        forall|i: int| 0 <= i < r@.len() ==> 0 < #[trigger] r@[i] <= ZERO_CHUNK,
        forall|i: int| 0 <= i < r@.len() - 1 ==> #[trigger] r@[i] == ZERO_CHUNK,
        r@.fold_left(0int, |acc: int, x: usize| acc + x) == len,
{
    let mut v: Vec<usize> = Vec::new();
    let mut remain: usize = len;
    while remain > 0
        invariant
            remain <= len,
            forall|i: int| 0 <= i < v@.len() ==> 0 < #[trigger] v@[i] <= ZERO_CHUNK,
            forall|i: int| 0 <= i < v@.len() - 1 ==> #[trigger] v@[i] == ZERO_CHUNK,
            remain > 0 && v@.len() > 0 ==> v@.last() == ZERO_CHUNK,
            v@.fold_left(0int, |acc: int, x: usize| acc + x) + remain == len,
        decreases remain,
    {
        let to_write: usize = if ZERO_CHUNK < remain {
            ZERO_CHUNK
        } else {
            remain
        };
        let ghost before = v@;
        v.push(to_write);
        proof {
            assert(v@.drop_last() =~= before);
            assert(v@.fold_left(0int, |acc: int, x: usize| acc + x) == before.fold_left(0int, |acc: int, x: usize| acc + x) + to_write);
        }
        remain -= to_write;
    }
    v
}

/// `s` without its leading `/` bytes.
pub open spec fn trim_start_slashes(s: Seq<u8>) -> Seq<u8>
    decreases s.len(),
{
    if s.len() > 0 && s[0] == 47 {
        trim_start_slashes(s.drop_first())
    } else {
        s
    }
}

/// `s` without its trailing `/` bytes.
pub open spec fn trim_end_slashes(s: Seq<u8>) -> Seq<u8>
    decreases s.len(),
{
    if s.len() > 0 && s.last() == 47 {
        trim_end_slashes(s.drop_last())
    } else {
        s
    }
}

/// `s` without `/` at either end.
pub open spec fn trim_slashes(s: Seq<u8>) -> Seq<u8> {
    trim_end_slashes(trim_start_slashes(s))
}

/// `s` with each `//` replaced by `/`, scanning left to right.
pub open spec fn collapse_slashes(s: Seq<u8>) -> Seq<u8>
    decreases s.len(),
{
    if s.len() < 2 {
        s
    } else if s[0] == 47 && s[1] == 47 {
        seq![47u8] + collapse_slashes(s.subrange(2, s.len() as int))
    } else {
        seq![s[0]] + collapse_slashes(s.drop_first())
    }
}

/// Whether `s` holds `//`.
pub open spec fn has_double_slash(s: Seq<u8>) -> bool {
    exists|i: int| 0 <= i < s.len() - 1 && #[trigger] s[i] == 47 && s[i + 1] == 47
}

/// Trimming never lengthens a name.
pub proof fn lemma_trim_start_len(s: Seq<u8>)
    ensures
        trim_start_slashes(s).len() <= s.len(),
    decreases s.len(),
{
    if s.len() > 0 && s[0] == 47 {
        lemma_trim_start_len(s.drop_first());
    }
}

/// Trimming never lengthens a name.
pub proof fn lemma_trim_end_len(s: Seq<u8>)
    ensures
        trim_end_slashes(s).len() <= s.len(),
    decreases s.len(),
{
    if s.len() > 0 && s.last() == 47 {
        lemma_trim_end_len(s.drop_last());
    }
}

/// Collapsing `//` never lengthens a name, and shortens one that holds `//`.
pub proof fn lemma_collapse_len(s: Seq<u8>)
    ensures
        collapse_slashes(s).len() <= s.len(),
        has_double_slash(s) ==> collapse_slashes(s).len() < s.len(),
    decreases s.len(),
{
    if s.len() >= 2 {
        if s[0] == 47 && s[1] == 47 {
            lemma_collapse_len(s.subrange(2, s.len() as int));
        } else {
            let t = s.drop_first();
            lemma_collapse_len(t);
            if has_double_slash(s) {
                let i = choose|i: int| 0 <= i < s.len() - 1 && #[trigger] s[i] == 47 && s[i + 1] == 47;
                assert(i != 0);
                assert(t[i - 1] == 47 && t[i] == 47);
            }
        }
    }
}

/// The part of a name relative to a directory: without `/` at the ends,
/// without leading `./`, with `//` collapsed; empty for the directory itself
/// (an empty name or `.`).
pub open spec fn relative_part(p: Seq<u8>) -> Seq<u8>
    decreases p.len(),
{
    let t = trim_slashes(p);
    proof {
        lemma_trim_start_len(p);
        lemma_trim_end_len(trim_start_slashes(p));
        lemma_collapse_len(t);
    }
    if t.len() == 0 || t == seq![46u8] {
        Seq::empty()
    } else if t.len() >= 2 && t[0] == 46 && t[1] == 47 {
        relative_part(t.subrange(2, t.len() as int))
    } else if has_double_slash(t) {
        relative_part(collapse_slashes(t))
    } else {
        t
    }
}

proof fn lemma_trim_start_first(s: Seq<u8>)
    ensures
        trim_start_slashes(s).len() > 0 ==> trim_start_slashes(s)[0] != 47,
    decreases s.len(),
{
    if s.len() > 0 && s[0] == 47 {
        lemma_trim_start_first(s.drop_first());
    }
}

proof fn lemma_trim_end_shape(s: Seq<u8>)
    ensures
        trim_end_slashes(s).len() <= s.len(),
        trim_end_slashes(s) == s.subrange(0, trim_end_slashes(s).len() as int),
        trim_end_slashes(s).len() > 0 ==> trim_end_slashes(s).last() != 47,
    decreases s.len(),
{
    if s.len() > 0 && s.last() == 47 {
        lemma_trim_end_shape(s.drop_last());
        assert(s.drop_last().subrange(0, trim_end_slashes(s).len() as int) =~= s.subrange(
            0,
            trim_end_slashes(s).len() as int,
        ));
    } else {
        assert(s.subrange(0, s.len() as int) =~= s);
    }
}

/// A name without `/` at its ends is left as it is by trimming.
proof fn lemma_trim_slashes_idempotent(p: Seq<u8>)
    ensures
        trim_slashes(trim_slashes(p)) == trim_slashes(p),
{
    let u = trim_start_slashes(p);
    let t = trim_end_slashes(u);
    lemma_trim_start_first(p);
    lemma_trim_end_shape(u);
    if t.len() > 0 {
        assert(t[0] == u[0]);
    }
    assert(trim_start_slashes(t) == t);
    assert(trim_end_slashes(t) == t);
}

/// Taking the relative part of a relative part changes nothing: the result
/// is already trimmed, free of `./` prefixes and of `//`.
pub proof fn lemma_relative_part_idempotent(p: Seq<u8>)
    ensures
        relative_part(relative_part(p)) == relative_part(p),
    decreases p.len(),
{
    let t = trim_slashes(p);
    lemma_trim_start_len(p);
    lemma_trim_end_len(trim_start_slashes(p));
    lemma_collapse_len(t);
    let e = Seq::<u8>::empty();
    assert(trim_start_slashes(e) == e);
    assert(trim_end_slashes(e) == e);
    assert(relative_part(e) == e);
    if t.len() == 0 || t == seq![46u8] {
    } else if t.len() >= 2 && t[0] == 46 && t[1] == 47 {
        lemma_relative_part_idempotent(t.subrange(2, t.len() as int));
    } else if has_double_slash(t) {
        lemma_relative_part_idempotent(collapse_slashes(t));
    } else {
        lemma_trim_slashes_idempotent(p);
        assert(trim_slashes(t) == t);
        assert(relative_part(t) == t);
    }
}

/// The absolute path of `name` inside the directory at `dir`: the directory
/// (without trailing `/`), `/`, and the relative part of the name; empty when
/// the name denotes the directory itself.
pub open spec fn path_deal_with_spec(dir: Seq<u8>, name: Seq<u8>) -> Seq<u8> {
    let r = relative_part(name);
    if r.len() == 0 {
        Seq::empty()
    } else {
        trim_end_slashes(dir) + seq![47u8] + r
    }
}

/// Copy of `s[a..b]`.
fn copy_range(s: &[u8], a: usize, b: usize) -> (r: Vec<u8>)
    requires
        a <= b <= s@.len(),
    ensures
        r@ == s@.subrange(a as int, b as int),
{
    let mut v: Vec<u8> = Vec::new();
    let mut i: usize = a;
    while i < b
        invariant
            a <= i <= b <= s@.len(),
            v@ == s@.subrange(a as int, i as int),
        decreases b - i,
    {
        v.push(s[i]);
        i = i + 1;
        assert(v@ =~= s@.subrange(a as int, i as int));
    }
    v
}

/// Copy of `s` without `/` at either end.
fn trim_slashes_exec(s: &[u8]) -> (r: Vec<u8>)
    ensures
        r@ == trim_slashes(s@),
{
    let mut a: usize = 0;
    assert(s@.subrange(0, s@.len() as int) =~= s@);
    while a < s.len() && s[a] == 47
        invariant
            a <= s@.len(),
            trim_start_slashes(s@) == trim_start_slashes(s@.subrange(a as int, s@.len() as int)),
        decreases s@.len() - a,
    {
        assert(s@.subrange(a as int, s@.len() as int).drop_first() =~= s@.subrange(a + 1, s@.len() as int));
        a = a + 1;
    }
    assert(trim_start_slashes(s@.subrange(a as int, s@.len() as int)) == s@.subrange(a as int, s@.len() as int));
    let mut b: usize = s.len();
    assert(s@.subrange(a as int, b as int) =~= s@.subrange(a as int, s@.len() as int));
    while b > a && s[b - 1] == 47
        invariant
            a <= b <= s@.len(),
            trim_start_slashes(s@) == s@.subrange(a as int, s@.len() as int),
            trim_slashes(s@) == trim_end_slashes(s@.subrange(a as int, b as int)),
        decreases b,
    {
        assert(s@.subrange(a as int, b as int).drop_last() =~= s@.subrange(a as int, b - 1));
        b = b - 1;
    }
    assert(trim_end_slashes(s@.subrange(a as int, b as int)) == s@.subrange(a as int, b as int));
    copy_range(s, a, b)
}

/// Whether `s` holds `//`.
fn has_double_slash_exec(s: &[u8]) -> (r: bool)
    ensures
        r == has_double_slash(s@),
{
    if s.len() < 2 {
        return false;
    }
    let mut i: usize = 0;
    while i < s.len() - 1
        invariant
            s@.len() >= 2,
            i + 1 <= s@.len(),
            forall|k: int| 0 <= k < i ==> !(#[trigger] s@[k] == 47 && s@[k + 1] == 47),
        decreases s@.len() - i,
    {
        if s[i] == 47 && s[i + 1] == 47 {
            return true;
        }
        i = i + 1;
    }
    false
}

/// `s` with each `//` replaced by `/`.
fn collapse_slashes_exec(s: &[u8]) -> (r: Vec<u8>)
    ensures
        r@ == collapse_slashes(s@),
{
    let mut out: Vec<u8> = Vec::new();
    let mut i: usize = 0;
    assert(s@.subrange(0, s@.len() as int) =~= s@);
    while i < s.len()
        invariant
            i <= s@.len(),
            out@ + collapse_slashes(s@.subrange(i as int, s@.len() as int)) == collapse_slashes(s@),
        decreases s@.len() - i,
    {
        let ghost rest = s@.subrange(i as int, s@.len() as int);
        if i + 1 < s.len() && s[i] == 47 && s[i + 1] == 47 {
            assert(rest.subrange(2, rest.len() as int) =~= s@.subrange(i + 2, s@.len() as int));
            out.push(47);
            i = i + 2;
            assert(out@ + collapse_slashes(s@.subrange(i as int, s@.len() as int)) =~= collapse_slashes(s@));
        } else {
            assert(rest.drop_first() =~= s@.subrange(i + 1, s@.len() as int));
            out.push(s[i]);
            i = i + 1;
            assert(out@ + collapse_slashes(s@.subrange(i as int, s@.len() as int)) =~= collapse_slashes(s@));
        }
    }
    assert(s@.subrange(i as int, s@.len() as int) =~= Seq::<u8>::empty());
    assert(out@ =~= collapse_slashes(s@));
    out
}

/// The absolute path that the ext4 library is given for `name` inside the
/// directory at `dir` (see [`path_deal_with_spec`]).
pub fn path_deal_with(dir: &[u8], name: &[u8]) -> (r: Vec<u8>)
    requires
        dir@.len() + name@.len() + 1 <= usize::MAX,
    ensures
        r@ == path_deal_with_spec(dir@, name@),
{
    let mut cur: Vec<u8> = copy_range(name, 0, name.len());
    assert(name@.subrange(0, name@.len() as int) =~= name@);
    let mut rel: Vec<u8> = Vec::new();
    loop
        invariant
            relative_part(name@) == relative_part(cur@),
            cur@.len() <= name@.len(),
        ensures
            rel@ == relative_part(name@),
            rel@.len() <= name@.len(),
        decreases cur@.len(),
    {
        let t = trim_slashes_exec(cur.as_slice());
        proof {
            lemma_trim_start_len(cur@);
            lemma_trim_end_len(trim_start_slashes(cur@));
            lemma_collapse_len(t@);
        }
        if t.len() == 0 || (t.len() == 1 && t[0] == 46) {
            assert(t@.len() == 1 ==> t@ =~= seq![46u8]);
            rel = Vec::new();
            break;
        }
        assert(t@ != seq![46u8]);
        if t.len() >= 2 && t[0] == 46 && t[1] == 47 {
            cur = copy_range(t.as_slice(), 2, t.len());
        } else if has_double_slash_exec(t.as_slice()) {
            cur = collapse_slashes_exec(t.as_slice());
        } else {
            rel = t;
            break;
        }
    }
    if rel.len() == 0 {
        return Vec::new();
    }
    let mut b: usize = dir.len();
    assert(dir@.subrange(0, b as int) =~= dir@);
    while b > 0 && dir[b - 1] == 47
        invariant
            b <= dir@.len(),
            trim_end_slashes(dir@) == trim_end_slashes(dir@.subrange(0, b as int)),
        decreases b,
    {
        assert(dir@.subrange(0, b as int).drop_last() =~= dir@.subrange(0, b - 1));
        b = b - 1;
    }
    let mut out = copy_range(dir, 0, b);
    out.push(47);
    let mut i: usize = 0;
    while i < rel.len()
        invariant
            i <= rel@.len(),
            out@ == dir@.subrange(0, b as int) + seq![47u8] + rel@.subrange(0, i as int),
        decreases rel@.len() - i,
    {
        out.push(rel[i]);
        i = i + 1;
        assert(out@ =~= dir@.subrange(0, b as int) + seq![47u8] + rel@.subrange(0, i as int));
    }
    assert(rel@.subrange(0, rel@.len() as int) =~= rel@);
    out
}

/// Whether `raw` is a well-formed directory-entry name: a single NUL, at the
/// end, after bytes that are valid UTF-8.
pub open spec fn dirent_name_ok(raw: Seq<u8>) -> bool {
    &&& raw.len() >= 1
    &&& raw.last() == 0
    &&& forall|i: int| 0 <= i < raw.len() - 1 ==> raw[i] != 0
    &&& utf8_valid(raw.drop_last())
}

/// The name of a directory entry from the bytes the ext4 library returns
/// (NUL included): the bytes before the NUL; `None` (EINVAL) when they are
/// not a well-formed name.
pub fn dirent_name(raw: &[u8]) -> (r: Option<Vec<u8>>)
    ensures
        match r {
            Some(name) => dirent_name_ok(raw@) && name@ == raw@.drop_last(),
            None => !dirent_name_ok(raw@),
        },
{
    if raw.len() == 0 || raw[raw.len() - 1] != 0 {
        return None;
    }
    let n = raw.len() - 1;
    let mut name: Vec<u8> = Vec::new();
    let mut i: usize = 0;
    while i < n
        invariant
            n == raw@.len() - 1,
            i <= n,
            name@ == raw@.subrange(0, i as int),
            forall|k: int| 0 <= k < i ==> raw@[k] != 0,
        decreases n - i,
    {
        if raw[i] == 0 {
            return None;
        }
        name.push(raw[i]);
        i = i + 1;
    }
    assert(name@ =~= raw@.drop_last());
    if !is_utf8(name.as_slice()) {
        return None;
    }
    Some(name)
}

/// The entries of a directory from the names and types the ext4 library
/// lists, paired in order up to the shorter list: each name as
/// `dirent_name` gives it, with its mapped file type; EINVAL (`None`) at the
/// first malformed name.
pub fn read_dir_entries(names: &Vec<Vec<u8>>, types: &[InodeTypes]) -> (r: Option<Vec<(Vec<u8>, FileType)>>)
    requires
        forall|i: int| 0 <= i < types@.len() ==> is_dirent_type(#[trigger] types@[i]),
    ensures
        ({
            let n = if names@.len() < types@.len() { names@.len() as int } else { types@.len() as int };
            match r {
                Some(entries) => {
                    &&& entries@.len() == n
                    &&& forall|i: int| #![trigger entries@[i]] 0 <= i < n ==> dirent_name_ok(names@[i]@)
                        && entries@[i].0@ == names@[i]@.drop_last()
                        && entries@[i].1 == map_ext4_type_spec(types@[i])
                },
                None => exists|i: int| 0 <= i < n && !dirent_name_ok(#[trigger] names@[i]@),
            }
        }),
{
    let n: usize = if names.len() < types.len() { names.len() } else { types.len() };
    let mut out: Vec<(Vec<u8>, FileType)> = Vec::new();
    let mut i: usize = 0;
    while i < n
        invariant
            n as int == if names@.len() < types@.len() { names@.len() as int } else { types@.len() as int },
            i <= n,
            forall|k: int| 0 <= k < types@.len() ==> is_dirent_type(#[trigger] types@[k]),
            out@.len() == i,
            forall|k: int| #![trigger out@[k]] 0 <= k < i ==> dirent_name_ok(names@[k]@)
                && out@[k].0@ == names@[k]@.drop_last()
                && out@[k].1 == map_ext4_type_spec(types@[k]),
        decreases n - i,
    {
        let nm = dirent_name(names[i].as_slice());
        if nm.is_none() {
            return None;
        }
        let name = nm.unwrap();
        let t = map_ext4_type(types[i]);
        let ghost prev = out@;
        out.push((name, t));
        assert forall|k: int| #![trigger out@[k]] 0 <= k < i + 1 implies dirent_name_ok(names@[k]@)
            && out@[k].0@ == names@[k]@.drop_last()
            && out@[k].1 == map_ext4_type_spec(types@[k]) by {
            if k < i {
                assert(out@[k] == prev[k]);
            }
        }
        i = i + 1;
    }
    Some(out)
}

} // verus!
