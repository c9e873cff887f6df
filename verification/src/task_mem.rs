//! Address-space decisions of a user task: heap growth, placement of
//! anonymous mappings, stack pushes, the robust-futex list check, ELF segment
//! coverage and lookup, and exit bookkeeping. Memory areas are described by
//! their plain fields; page allocation and mapping happen elsewhere.

use vstd::prelude::*;

verus! {

pub const PAGE_SIZE: u64 = 4096;
/// Lowest address handed out for `mmap` without a hint.
pub const MAP_AREA_START: u64 = 0x2_0000_0000;
/// Highest user virtual address on LoongArch ((1 << 39) - 1).
pub const USER_VADDR_MAX: u64 = 0x7F_FFFF_FFFF;
/// Size of `struct robust_list_head` on 64-bit systems.
pub const ROBUST_LIST_HEAD_SIZE: u64 = 24;

/// Kind of a memory area.
#[derive(Copy, Clone, Debug, PartialEq, Eq, Structural)]
pub enum MemType {
    Stack,
    CodeSection,
    Mmap,
    Shared,
    ShareFile,
}

/// A memory area: `len` bytes from `start`, of kind `mtype`, backed by a file
/// from byte `offset` when `has_file`.
#[derive(Copy, Clone, Debug, PartialEq, Eq, Structural)]
pub struct MemRegion {
    pub start: u64,
    pub len: u64,
    pub mtype: MemType,
    pub offset: u64,
    pub has_file: bool,
}

impl MemRegion {
    pub open spec fn contains_spec(self, addr: u64) -> bool {
        self.start <= addr < self.start + self.len
    }

    /// Whether the area covers address `addr`.
    pub fn contains(&self, addr: u64) -> (r: bool)
        ensures
            r == self.contains_spec(addr),
    {
        self.start <= addr && (addr as u128) < (self.start as u128) + (self.len as u128)
    }
}

/// Error numbers of the memory calls.
#[derive(Copy, Clone, Debug, PartialEq, Eq, Structural)]
pub enum MemError {
    /// Invalid argument.
    EINVAL,
    /// Bad address.
    EFAULT,
    /// Out of memory.
    ENOMEM,
}

/// `x` rounded up to a multiple of the page size.
pub open spec fn page_up(x: int) -> int {
    ((x + PAGE_SIZE - 1) / PAGE_SIZE as int) * PAGE_SIZE
}

/// Rounds `len` up to a whole number of pages.
pub fn alignup(len: u64, align: u64) -> (r: u64)
    requires
        align == PAGE_SIZE,
        len + align <= u64::MAX,
    ensures
        r == page_up(len as int),
        r >= len,
        r % PAGE_SIZE == 0,
{
    let r = ((len + align - 1) / align) * align;
    assert(r >= len && r % 4096 == 0 && r == ((len + 4096 - 1) / 4096 as int) * 4096) by (nonlinear_arith)
        requires
            r == ((len + 4096 - 1) / 4096 as int) * 4096,
    ;
    r
}

/// Pages the heap must gain to grow from `curr_heap` to `addr`.
#[derive(Copy, Clone, Debug, PartialEq, Eq, Structural)]
pub enum SbrkPlan {
    /// The new end lies within the pages already mapped.
    NoAlloc,
    /// Map `pages` pages from address `start`, recorded as an area of kind
    /// `mtype` and mapped with `flags`.
    Alloc { start: u64, pages: u64, mtype: MemType, flags: MappingFlags },
}

/// Number of pages covering `x` bytes.
pub open spec fn pages_of(x: int) -> int {
    (x + PAGE_SIZE - 1) / PAGE_SIZE as int
}

/// What growing the heap end from `curr_heap` to `addr` needs: the pages
/// between the page counts of the two ends, in an mmap area mapped user
/// readable, writable and executable (the permissions of a new area of that
/// kind).
pub fn sbrk_plan(curr_heap: u64, addr: u64) -> (r: SbrkPlan)
    requires
        curr_heap + PAGE_SIZE <= u64::MAX,
        addr + PAGE_SIZE <= u64::MAX,
    ensures
        pages_of(addr as int) > pages_of(curr_heap as int) ==> r == (SbrkPlan::Alloc {
            start: (pages_of(curr_heap as int) * PAGE_SIZE) as u64,
            pages: (pages_of(addr as int) - pages_of(curr_heap as int)) as u64,
            mtype: MemType::Mmap,
            flags: MappingFlags { user: true, read: true, write: true, execute: true },
        }),
        pages_of(addr as int) <= pages_of(curr_heap as int) ==> r == SbrkPlan::NoAlloc,
{
    let curr_page: u64 = (curr_heap + PAGE_SIZE - 1) / PAGE_SIZE;
    let after_page: u64 = (addr + PAGE_SIZE - 1) / PAGE_SIZE;
    if after_page > curr_page {
        assert(curr_page * PAGE_SIZE <= curr_heap + PAGE_SIZE) by (nonlinear_arith)
            requires curr_page == (curr_heap + 4096 - 1) / 4096 as int;
        let flags = mapping_flags_for(MemType::Mmap);
        SbrkPlan::Alloc { start: curr_page * PAGE_SIZE, pages: after_page - curr_page, mtype: MemType::Mmap, flags }
    } else {
        SbrkPlan::NoAlloc
    }
}

/// The pages a heap growth maps run from the first page boundary at or
/// above the old heap end to the first one at or above the new end: they
/// start within a page above the old end, cover the new end with less than a
/// page to spare, and so hold exactly the bytes the heap gains, rounded out
/// to whole pages.
pub proof fn lemma_sbrk_pages_cover(curr_heap: u64, addr: u64)
    ensures
        ({
            let start = pages_of(curr_heap as int) * PAGE_SIZE;
            let end = pages_of(addr as int) * PAGE_SIZE;
            &&& curr_heap <= start < curr_heap + PAGE_SIZE
            &&& addr <= end < addr + PAGE_SIZE
            &&& start % (PAGE_SIZE as int) == 0 && end % (PAGE_SIZE as int) == 0
            &&& pages_of(addr as int) > pages_of(curr_heap as int) ==> (pages_of(addr as int) - pages_of(
                curr_heap as int)) * PAGE_SIZE == end - start && end > start
        }),
{
    let c = curr_heap as int;
    let a = addr as int;
    assert(c <= ((c + 4095) / 4096) * 4096 < c + 4096 && ((c + 4095) / 4096) * 4096 % 4096 == 0) by (nonlinear_arith)
        requires
            c >= 0,
    ;
    assert(a <= ((a + 4095) / 4096) * 4096 < a + 4096 && ((a + 4095) / 4096) * 4096 % 4096 == 0) by (nonlinear_arith)
        requires
            a >= 0,
    ;
    assert(((a + 4095) / 4096 - (c + 4095) / 4096) * 4096 == ((a + 4095) / 4096) * 4096 - ((c + 4095) / 4096)
        * 4096) by (nonlinear_arith);
}

/// `sbrk` once the needed pages have (`allocated`) or have not been mapped
/// (`allocated` is also true when no page was needed): the heap end moves to
/// `addr` and `addr` is returned, or the heap stays and its old end is
/// returned.
pub fn sbrk_finish(heap: &mut u64, addr: u64, allocated: bool) -> (r: u64)
    ensures
        allocated ==> r == addr && *final(heap) == addr,
        !allocated ==> r == *old(heap) && *final(heap) == *old(heap),
{
    if !allocated {
        return *heap;
    }
    *heap = addr;
    addr
}

/// `brk`: 0 asks for the current heap end, which is returned unchanged; any
/// other address goes to `sbrk` (see [`sbrk_finish`]).
pub fn sys_brk(heap: &mut u64, addr: u64, allocated: bool) -> (r: u64)
    ensures
        addr == 0 ==> r == *old(heap) && *final(heap) == *old(heap),
        addr != 0 && allocated ==> r == addr && *final(heap) == addr,
        addr != 0 && !allocated ==> r == *old(heap) && *final(heap) == *old(heap),
{
    if addr == 0 {
        return *heap;
    }
    sbrk_finish(heap, addr, allocated)
}

/// Highest end address of the areas that are not the stack.
pub open spec fn areas_end(areas: Seq<MemRegion>, n: int) -> int
    decreases n,
{
    if n <= 0 {
        0
    } else {
        let prev = areas_end(areas, n - 1);
        let a = areas[n - 1];
        if a.mtype != MemType::Stack && a.start + a.len > prev {
            a.start + a.len
        } else {
            prev
        }
    }
}

/// Highest end address of the shared-memory attachments `(start, size)`.
pub open spec fn shms_end(shms: Seq<(u64, u64)>, n: int) -> int
    decreases n,
{
    if n <= 0 {
        0
    } else {
        let prev = shms_end(shms, n - 1);
        let s = shms[n - 1];
        if s.0 + s.1 > prev {
            s.0 + s.1
        } else {
            prev
        }
    }
}

/// First address above every non-stack area and shared-memory attachment.
pub fn get_last_free_addr(areas: &[MemRegion], shms: &[(u64, u64)]) -> (r: u64)
    requires
        forall|i: int| 0 <= i < areas@.len() ==> areas@[i].start + areas@[i].len <= u64::MAX,
        forall|i: int| 0 <= i < shms@.len() ==> shms@[i].0 + shms@[i].1 <= u64::MAX,
    ensures
        r == if areas_end(areas@, areas@.len() as int) >= shms_end(shms@, shms@.len() as int) {
            areas_end(areas@, areas@.len() as int)
        } else {
            shms_end(shms@, shms@.len() as int)
        },
{
    let mut map_last: u64 = 0;
    let mut i: usize = 0;
    while i < areas.len()
        invariant
            i <= areas@.len(),
            forall|k: int| 0 <= k < areas@.len() ==> areas@[k].start + areas@[k].len <= u64::MAX,
            map_last == areas_end(areas@, i as int),
        decreases areas@.len() - i,
    {
        let a = areas[i];
        if a.mtype != MemType::Stack && a.start + a.len > map_last {
            map_last = a.start + a.len;
        }
        i = i + 1;
    }
    let mut shm_last: u64 = 0;
    let mut j: usize = 0;
    while j < shms.len()
        invariant
            j <= shms@.len(),
            forall|k: int| 0 <= k < shms@.len() ==> shms@[k].0 + shms@[k].1 <= u64::MAX,
            shm_last == shms_end(shms@, j as int),
        decreases shms@.len() - j,
    {
        let s = shms[j];
        if s.0 + s.1 > shm_last {
            shm_last = s.0 + s.1;
        }
        j = j + 1;
    }
    if map_last >= shm_last {
        map_last
    } else {
        shm_last
    }
}

/// Address of a new mapping: the hint when given, else the first free
/// address, but never below the mapping area.
pub fn mmap_addr(start: u64, last_free: u64) -> (r: u64)
    ensures
        r == if start == 0 {
            if last_free >= MAP_AREA_START {
                last_free
            } else {
                MAP_AREA_START
            }
        } else {
            start
        },
{
    if start == 0 {
        if last_free >= MAP_AREA_START {
            last_free
        } else {
            MAP_AREA_START
        }
    } else {
        start
    }
}

/// `set_robust_list`: the length must be that of the list head; a nonzero
/// head must be a user address that is mapped (`mapped` is the page-table
/// lookup of `head`, consulted only then).
pub fn set_robust_list_check(head: u64, len: u64, mapped: bool) -> (r: Result<(), MemError>)
    ensures
        r == if len != ROBUST_LIST_HEAD_SIZE {
            Err::<(), MemError>(MemError::EINVAL)
        } else if head != 0 && (head >= 0x8000_0000_0000_0000 || !mapped) {
            Err::<(), MemError>(MemError::EFAULT)
        } else {
            Ok(())
        },
{
    if len != ROBUST_LIST_HEAD_SIZE {
        return Err(MemError::EINVAL);
    }
    if head != 0 {
        if head >= 0x8000_0000_0000_0000 {
            return Err(MemError::EFAULT);
        }
        if !mapped {
            return Err(MemError::EFAULT);
        }
    }
    Ok(())
}

/// Whether termination by `signal` produces a core dump: SIGQUIT (3),
/// SIGILL (4), SIGTRAP (5), SIGABRT (6), SIGBUS (7), SIGFPE (8) and SIGSEGV
/// (11), numbered as on RISC-V and LoongArch.
pub fn signal_dumps_core(signal: usize) -> (r: bool)
    ensures
        r == (signal == 3 || signal == 4 || signal == 5 || signal == 6 || signal == 7 || signal
            == 8 || signal == 11),
{
    match signal {
        3 | 4 | 5 | 6 | 7 | 8 | 11 => true,
        _ => false,
    }
}

/// Whether an exiting thread tears the process down: only the main thread,
/// once no other thread remains.
pub fn should_cleanup_process(task_id: usize, process_id: usize, remaining_threads: usize) -> (r: bool)
    ensures
        r == (task_id == process_id && remaining_threads == 0),
{
    let is_main_thread = task_id == process_id;
    is_main_thread && remaining_threads == 0
}

/// New stack pointer after pushing `len` bytes: room for them and a NUL,
/// rounded up to whole words.
pub fn push_arr_sp(sp: u64, len: u64) -> (r: u64)
    requires
        len + 1 + 8 <= u64::MAX,
        ((len + 1 + 8 - 1) / 8 as int) * 8 <= sp,
    ensures
        r == sp - ((len + 1 + 8 - 1) / 8 as int) * 8,
        r + len < sp,
{
    let n: u64 = len + 1;
    let room: u64 = ((n + 8 - 1) / 8) * 8;
    assert(room >= n) by (nonlinear_arith)
        requires
            room == ((n + 8 - 1) / 8 as int) * 8,
    ;
    sp - room
}

/// New stack pointer after pushing one word.
pub fn push_num_sp(sp: u64) -> (r: u64)
    requires
        sp >= 8,
    ensures
        r == sp - 8,
{
    sp - 8
}

/// `umask`: keeps the permission bits of the new mask, returns the old one.
pub fn sys_umask(umask: &mut u64, mask: u64) -> (r: u64)
    ensures
        r == *old(umask),
        *final(umask) == mask & 0o777,
{
    let old_umask = *umask;
    *umask = mask & 0o777;
    old_umask
}

/// Some file-backed area covers `[start, end)`.
pub open spec fn covered_by_file_area(areas: Seq<MemRegion>, start: int, end: int) -> bool {
    exists|k: int|
        0 <= k < areas.len() && (#[trigger] areas[k]).start <= start && areas[k].start + areas[k].len
            >= end && areas[k].has_file
}

/// Checks that every loadable ELF segment `(vaddr, mem_size)`, placed at
/// `base`, lies inside one file-backed area.
pub fn validate_elf_segment_mapping(
    segments: &[(u64, u64)],
    base: u64,
    areas: &[MemRegion],
) -> (r: Result<(), &'static str>)
    requires
        forall|i: int| 0 <= i < segments@.len() ==> base + segments@[i].0 + segments@[i].1 <= u64::MAX,
        forall|k: int| 0 <= k < areas@.len() ==> areas@[k].start + areas@[k].len <= u64::MAX,
    ensures
        r is Ok <==> forall|i: int|
            0 <= i < segments@.len() ==> covered_by_file_area(
                areas@,
                base + (#[trigger] segments@[i]).0,
                base + segments@[i].0 + segments@[i].1,
            ),
        r is Err ==> r == Err::<(), &'static str>("Missing ELF segment mapping"),
{
    let mut i: usize = 0;
    while i < segments.len()
        invariant
            i <= segments@.len(),
            forall|j: int| 0 <= j < segments@.len() ==> base + segments@[j].0 + segments@[j].1 <= u64::MAX,
            forall|k: int| 0 <= k < areas@.len() ==> areas@[k].start + areas@[k].len <= u64::MAX,
            forall|j: int|
                0 <= j < i ==> covered_by_file_area(
                    areas@,
                    base + (#[trigger] segments@[j]).0,
                    base + segments@[j].0 + segments@[j].1,
                ),
        decreases segments@.len() - i,
    {
        let virt_addr: u64 = base + segments[i].0;
        let end_addr: u64 = virt_addr + segments[i].1;
        let mut found = false;
        let mut k: usize = 0;
        while k < areas.len()
            invariant
                k <= areas@.len(),
                forall|m: int| 0 <= m < areas@.len() ==> areas@[m].start + areas@[m].len <= u64::MAX,
                found ==> covered_by_file_area(areas@, virt_addr as int, end_addr as int),
                !found ==> forall|m: int|
                    0 <= m < k ==> !((#[trigger] areas@[m]).start <= virt_addr && areas@[m].start
                        + areas@[m].len >= end_addr && areas@[m].has_file),
            decreases areas@.len() - k,
        {
            let a = areas[k];
            if a.start <= virt_addr && a.start + a.len >= end_addr && a.has_file {
                found = true;
            }
            k = k + 1;
        }
        if !found {
            return Err("Missing ELF segment mapping");
        }
        i = i + 1;
    }
    Ok(())
}

/// The first file-backed area containing `vaddr`, by index.
pub open spec fn first_file_area(areas: Seq<MemRegion>, vaddr: u64, k: int) -> bool {
    &&& 0 <= k < areas.len()
    &&& areas[k].contains_spec(vaddr) && areas[k].has_file
    &&& forall|m: int| 0 <= m < k ==> !(#[trigger] areas[m].contains_spec(vaddr) && areas[m].has_file)
}

/// The file area behind a faulting address: its index, the file offset of the
/// faulting page, and the area length. `None` when no file-backed area
/// contains the address.
pub fn get_elf_segment_for_addr(areas: &[MemRegion], vaddr: u64) -> (r: Option<(usize, u64, u64)>)
    requires
        forall|k: int| 0 <= k < areas@.len() ==> areas@[k].start + areas@[k].len <= u64::MAX && areas@[k].offset + areas@[k].len <= u64::MAX,
        forall|k: int| 0 <= k < areas@.len() && (#[trigger] areas@[k]).contains_spec(vaddr) && areas@[k].has_file ==> vaddr - vaddr % PAGE_SIZE >= areas@[k].start,
    ensures
        match r {
            Some((k, off, len)) => first_file_area(areas@, vaddr, k as int) && len == areas@[k as int].len
                && off == areas@[k as int].offset + (vaddr - vaddr % PAGE_SIZE - areas@[k as int].start),
            None => forall|m: int| 0 <= m < areas@.len() ==> !(#[trigger] areas@[m].contains_spec(vaddr) && areas@[m].has_file),
        },
{
    let mut k: usize = 0;
    while k < areas.len()
        invariant
            k <= areas@.len(),
            forall|m: int| 0 <= m < areas@.len() ==> areas@[m].start + areas@[m].len <= u64::MAX && areas@[m].offset + areas@[m].len <= u64::MAX,
            forall|m: int| 0 <= m < areas@.len() && (#[trigger] areas@[m]).contains_spec(vaddr) && areas@[m].has_file ==> vaddr - vaddr % PAGE_SIZE >= areas@[m].start,
            forall|m: int| 0 <= m < k ==> !(#[trigger] areas@[m].contains_spec(vaddr) && areas@[m].has_file),
        decreases areas@.len() - k,
    {
        let a = areas[k];
        if a.contains(vaddr) && a.has_file {
            let page_aligned_vaddr: u64 = vaddr - vaddr % PAGE_SIZE;
            let file_offset: u64 = a.offset + (page_aligned_vaddr - a.start);
            return Some((k, file_offset, a.len));
        }
        k = k + 1;
    }
    None
}

/// Page-table permissions of an ELF segment: user access, read always, write
/// and execute as the segment asks.
#[derive(Copy, Clone, Debug, PartialEq, Eq, Structural)]
pub struct MappingFlags {
    pub user: bool,
    pub read: bool,
    pub write: bool,
    pub execute: bool,
}

/// Permissions of a segment with the given ELF permission bits.
pub fn elf_flags_to_mapping_flags(is_read: bool, is_write: bool, is_execute: bool) -> (r: MappingFlags)
    ensures
        r.user && r.read && r.write == is_write && r.execute == is_execute,
{
    let mut flags = MappingFlags { user: true, read: false, write: false, execute: false };
    if is_read {
        flags.read = true;
    }
    if is_write {
        flags.write = true;
    }
    if is_execute {
        flags.execute = true;
    }
    if !flags.read {
        flags.read = true;
    }
    flags
}

/// Page-table permissions of a new area of kind `mtype`: everything but a
/// shared file mapping is also executable.
pub fn mapping_flags_for(mtype: MemType) -> (r: MappingFlags)
    ensures
        r.user && r.read && r.write && r.execute == (mtype != MemType::ShareFile),
{
    match mtype {
        MemType::ShareFile => MappingFlags { user: true, read: true, write: true, execute: false },
        _ => MappingFlags { user: true, read: true, write: true, execute: true },
    }
}

/// Whether `fork` leaves an area of kind `mtype` writable in both processes.
pub open spec fn fork_keeps_write(mtype: MemType) -> bool {
    mtype == MemType::Shared || mtype == MemType::ShareFile
}

/// Permissions both processes map an area's pages with at `fork`: shared
/// memory and shared file mappings stay writable; every other area becomes
/// read-only, so that a write to it faults and is copied.
pub fn fork_mapping_flags(mtype: MemType) -> (r: MappingFlags)
    ensures
        r.user && r.read && r.execute,
        r.write == fork_keeps_write(mtype),
{
    match mtype {
        MemType::Shared | MemType::ShareFile => MappingFlags { user: true, read: true, write: true, execute: true },
        _ => MappingFlags { user: true, read: true, write: false, execute: true },
    }
}

/// Signal number of `SIGCHLD`.
pub const SIGCHLD: u8 = 17;

/// The signal a parent receives when a process exits: the thread's chosen
/// exit signal, or `SIGCHLD` when it chose none (0).
pub fn exit_notify_signal(exit_signal: u8) -> (r: u8)
    ensures
        r == if exit_signal != 0 {
            exit_signal
        } else {
            SIGCHLD
        },
{
    if exit_signal != 0 {
        exit_signal
    } else {
        SIGCHLD
    }
}

/// Whether a user task goes on running after handling a trap.
#[derive(Copy, Clone, Debug, PartialEq, Eq, Structural)]
pub enum UserTaskControlFlow {
    Continue,
    Break,
}

/// The word a system call leaves in the return register: the value on
/// success, the negated error number (two's complement) on failure.
pub fn syscall_ret(r: Result<usize, usize>) -> (w: usize)
    requires
        r matches Err(e) ==> 0 < e,
    ensures
        w == match r {
            Ok(x) => x as int,
            Err(e) => usize::MAX - e + 1,
        },
{
    match r {
        Ok(x) => x,
        Err(e) => usize::MAX - (e - 1),
    }
}

/// Whether the task loop goes on after a trap: a `rt_sigreturn` system call
/// (`sigreturn_id`) leaves the handler at once; anything else continues.
pub fn syscall_flow(is_syscall: bool, syscall_id: usize, sigreturn_id: usize) -> (r: UserTaskControlFlow)
    ensures
        r == if is_syscall && syscall_id == sigreturn_id {
            UserTaskControlFlow::Break
        } else {
            UserTaskControlFlow::Continue
        },
{
    if is_syscall && syscall_id == sigreturn_id {
        UserTaskControlFlow::Break
    } else {
        UserTaskControlFlow::Continue
    }
}

/// What `get_robust_list` does with its two output pointers: each nonzero
/// pointer, checked in turn (head first), must be a user address that is
/// mapped (`*_mapped`: the page-table lookup), and then gets a 0 written to
/// it. A failing check ends the call with EFAULT, after the head's write if
/// the head passed.
#[derive(Copy, Clone, Debug, PartialEq, Eq)]
pub struct RobustGetPlan {
    pub write_head: bool,
    pub write_len: bool,
    pub result: Result<(), MemError>,
}

/// Whether a nonzero output pointer fails `get_robust_list`'s check.
pub open spec fn robust_ptr_bad(ptr: u64, mapped: bool) -> bool {
    ptr != 0 && (ptr >= 0x8000_0000_0000_0000 || !mapped)
}

/// `get_robust_list`'s plan for its head and length pointers.
pub fn get_robust_list_plan(head_ptr: u64, head_mapped: bool, len_ptr: u64, len_mapped: bool) -> (r: RobustGetPlan)
    ensures
        r.write_head == (head_ptr != 0 && !robust_ptr_bad(head_ptr, head_mapped)),
        r.write_len == (!robust_ptr_bad(head_ptr, head_mapped) && len_ptr != 0 && !robust_ptr_bad(len_ptr, len_mapped)),
        r.result == if robust_ptr_bad(head_ptr, head_mapped) || robust_ptr_bad(len_ptr, len_mapped) {
            Err::<(), MemError>(MemError::EFAULT)
        } else {
            Ok(())
        },
{
    let head_bad = head_ptr != 0 && (head_ptr >= 0x8000_0000_0000_0000 || !head_mapped);
    if head_bad {
        return RobustGetPlan { write_head: false, write_len: false, result: Err(MemError::EFAULT) };
    }
    let len_bad = len_ptr != 0 && (len_ptr >= 0x8000_0000_0000_0000 || !len_mapped);
    if len_bad {
        return RobustGetPlan { write_head: head_ptr != 0, write_len: false, result: Err(MemError::EFAULT) };
    }
    RobustGetPlan { write_head: head_ptr != 0, write_len: len_ptr != 0, result: Ok(()) }
}

/// The per-thread state a new thread is given at creation.
#[derive(Copy, Clone, Debug, PartialEq, Eq, Structural)]
pub struct ThreadState {
    /// Blocked signals.
    pub sigmask: u64,
    /// Address cleared (and woken) at exit.
    pub clear_child_tid: u64,
    /// Address the thread id is stored at.
    pub set_child_tid: u64,
    /// Signal the parent gets at exit (0: `SIGCHLD`).
    pub exit_signal: u8,
    /// Robust futex list head and length.
    pub robust_list_head: u64,
    pub robust_list_len: u64,
    /// The return-value register of the saved context.
    pub ret: u64,
}

/// A thread made by `clone` of a thread in the same process: it keeps the
/// signal mask and starts with every other field cleared, so that `clone`
/// returns 0 in it and no robust list or exit signal is inherited.
pub fn thread_clone_state(parent: &ThreadState) -> (r: ThreadState)
    ensures
        r == (ThreadState {
            sigmask: parent.sigmask,
            clear_child_tid: 0,
            set_child_tid: 0,
            exit_signal: 0,
            robust_list_head: 0,
            robust_list_len: 0,
            ret: 0,
        }),
{
    ThreadState {
        sigmask: parent.sigmask,
        clear_child_tid: 0,
        set_child_tid: 0,
        exit_signal: 0,
        robust_list_head: 0,
        robust_list_len: 0,
        ret: 0,
    }
}

/// What a process keeps that exit, exec and fork change: its memory areas,
/// its descriptor table (the handle open on each descriptor), its children,
/// its heap end, and how it ended.
pub struct ProcessRecord {
    pub areas: Vec<MemRegion>,
    pub fds: Vec<Option<u64>>,
    pub children: Vec<u64>,
    pub heap: u64,
    pub exit_code: Option<u64>,
    pub exit_signal: Option<u64>,
    pub core_dumped: bool,
}

/// A process's teardown: no areas, no descriptors, no children; the exit
/// code and the rest as given.
pub open spec fn torn_down(old_p: ProcessRecord, new_p: ProcessRecord, code: u64) -> bool {
    &&& new_p.areas@.len() == 0
    &&& new_p.fds@.len() == 0
    &&& new_p.children@.len() == 0
    &&& new_p.exit_code == Some(code)
    &&& new_p.heap == old_p.heap
    &&& new_p.exit_signal == old_p.exit_signal
    &&& new_p.core_dumped == old_p.core_dumped
}

/// The record unchanged but for the exit code.
pub open spec fn only_code_set(old_p: ProcessRecord, new_p: ProcessRecord, code: Option<u64>) -> bool {
    &&& new_p.areas@ == old_p.areas@
    &&& new_p.fds@ == old_p.fds@
    &&& new_p.children@ == old_p.children@
    &&& new_p.heap == old_p.heap
    &&& new_p.exit_code == code
    &&& new_p.exit_signal == old_p.exit_signal
    &&& new_p.core_dumped == old_p.core_dumped
}

/// A thread of the process exits with `exit_code`: when it is the main
/// thread and no other thread remains, the process is torn down with that
/// exit code and the parent is sent the signal returned (the thread's exit
/// signal, else SIGCHLD); otherwise nothing changes.
pub fn thread_exit_process(
    p: &mut ProcessRecord,
    task_id: usize,
    process_id: usize,
    remaining_threads: usize,
    exit_code: u64,
    exit_signal: u8,
) -> (r: Option<u8>)
    ensures
        task_id == process_id && remaining_threads == 0 ==> torn_down(*old(p), *final(p), exit_code)
            && r == Some(if exit_signal != 0 { exit_signal } else { SIGCHLD }),
        !(task_id == process_id && remaining_threads == 0) ==> only_code_set(*old(p), *final(p), old(p).exit_code)
            && r is None,
{
    if should_cleanup_process(task_id, process_id, remaining_threads) {
        p.areas = Vec::new();
        p.fds = Vec::new();
        p.children = Vec::new();
        p.exit_code = Some(exit_code);
        Some(exit_notify_signal(exit_signal))
    } else {
        None
    }
}

/// The task exits with `exit_code`: the exit code is recorded in every
/// case, and the process is torn down (with the parent signalled) as for
/// [`thread_exit_process`].
pub fn process_exit(
    p: &mut ProcessRecord,
    task_id: usize,
    process_id: usize,
    remaining_threads: usize,
    exit_code: u64,
    exit_signal: u8,
) -> (r: Option<u8>)
    ensures
        task_id == process_id && remaining_threads == 0 ==> torn_down(*old(p), *final(p), exit_code)
            && r == Some(if exit_signal != 0 { exit_signal } else { SIGCHLD }),
        !(task_id == process_id && remaining_threads == 0) ==> only_code_set(*old(p), *final(p), Some(exit_code))
            && r is None,
{
    p.exit_code = Some(exit_code);
    thread_exit_process(p, task_id, process_id, remaining_threads, exit_code, exit_signal)
}

/// Termination by `signal`, before the exit with code 0 that follows: the
/// signal is recorded, the exit code set to 0, and whether the signal dumps
/// core; nothing else changes.
pub fn exit_with_signal_record(p: &mut ProcessRecord, signal: u64)
    ensures
        final(p).exit_signal == Some(signal),
        final(p).exit_code == Some(0u64),
        final(p).core_dumped == (signal == 3 || signal == 4 || signal == 5 || signal == 6 || signal == 7
            || signal == 8 || signal == 11),
        final(p).areas@ == old(p).areas@,
        final(p).fds@ == old(p).fds@,
        final(p).children@ == old(p).children@,
        final(p).heap == old(p).heap,
{
    p.exit_signal = Some(signal);
    p.exit_code = Some(0);
    p.core_dumped = signal == 3 || signal == 4 || signal == 5 || signal == 6 || signal == 7 || signal == 8
        || signal == 11;
}

/// `exec` drops every memory area of the process before the new image is
/// set up; descriptors, children and the rest stay.
pub fn exec_drop_areas(p: &mut ProcessRecord)
    ensures
        final(p).areas@.len() == 0,
        final(p).fds@ == old(p).fds@,
        final(p).children@ == old(p).children@,
        final(p).heap == old(p).heap,
        final(p).exit_code == old(p).exit_code,
        final(p).exit_signal == old(p).exit_signal,
        final(p).core_dumped == old(p).core_dumped,
{
    p.areas = Vec::new();
}

/// The process a `fork` makes: the parent's areas (their pages then shared,
/// see [`fork_mapping_flags`]), descriptor table and heap end, no children,
/// and no exit recorded.
pub fn fork_child_record(parent: &ProcessRecord) -> (r: ProcessRecord)
    ensures
        r.areas@ == parent.areas@,
        r.fds@ == parent.fds@,
        r.children@.len() == 0,
        r.heap == parent.heap,
        r.exit_code is None,
        r.exit_signal is None,
        !r.core_dumped,
{
    let mut areas: Vec<MemRegion> = Vec::new();
    let mut i: usize = 0;
    while i < parent.areas.len()
        invariant
            i <= parent.areas@.len(),
            areas@ == parent.areas@.subrange(0, i as int),
        decreases parent.areas@.len() - i,
    {
        areas.push(parent.areas[i]);
        i = i + 1;
    }
    let mut fds: Vec<Option<u64>> = Vec::new();
    let mut j: usize = 0;
    while j < parent.fds.len()
        invariant
            j <= parent.fds@.len(),
            fds@ == parent.fds@.subrange(0, j as int),
        decreases parent.fds@.len() - j,
    {
        fds.push(parent.fds[j]);
        j = j + 1;
    }
    assert(areas@ =~= parent.areas@);
    assert(fds@ =~= parent.fds@);
    ProcessRecord {
        areas,
        fds,
        children: Vec::new(),
        heap: parent.heap,
        exit_code: None,
        exit_signal: None,
        core_dumped: false,
    }
}

/// The parent after a `fork`: the child's id joins its children.
pub fn fork_add_child(p: &mut ProcessRecord, child: u64)
    ensures
        final(p).children@ == old(p).children@.push(child),
        final(p).areas@ == old(p).areas@,
        final(p).fds@ == old(p).fds@,
        final(p).heap == old(p).heap,
        final(p).exit_code == old(p).exit_code,
        final(p).exit_signal == old(p).exit_signal,
        final(p).core_dumped == old(p).core_dumped,
{
    p.children.push(child);
}

} // verus!
