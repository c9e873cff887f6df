//! What the user page-fault handler does for a faulting address: copy on
//! write inside a known area, or a policy chosen by the address range
//! outside any area (stack growth, null access, ELF pages, heap growth, TLS,
//! the gap region).

use vstd::prelude::*;
use crate::task_mem::{fork_keeps_write, MemType, PAGE_SIZE};

verus! {

/// The frame that an area already maps at the faulting page, if any.
#[derive(Copy, Clone, Debug, PartialEq, Eq, Structural)]
pub enum PageTracker {
    /// No frame is mapped at the page yet.
    Missing,
    /// A frame is mapped; `holders` counts the address spaces sharing it.
    Present { holders: usize },
}

/// The area containing the faulting address, as the handler sees it.
#[derive(Copy, Clone, Debug, PartialEq, Eq, Structural)]
pub struct FaultArea {
    pub mtype: MemType,
    pub start: u64,
    pub offset: u64,
    pub has_file: bool,
    pub tracker: PageTracker,
}

/// What the handler does.
#[derive(Copy, Clone, Debug, PartialEq, Eq, Structural)]
pub enum FaultAction {
    /// Map the page's frame again (writable), without copying.
    MapExisting { executable: bool },
    /// Copy the shared frame into a new one and map that.
    CopyThenMap { executable: bool },
    /// Allocate a frame, fill it from the area's file at `file_offset` when
    /// the area is file-backed, and map it.
    NewFrame { file_offset: u64, read_file: bool, executable: bool },
    /// Deliver SIGSEGV.
    Segv,
    /// Map one more stack page (SIGSEGV when that fails).
    GrowStack,
    /// First access near address 0: deliver SIGSEGV.
    NullFirst,
    /// Access near address 0 with SIGSEGV already pending: exit with 128 + 11.
    NullRepeat,
    /// Load the page from the executable's segment, else map a blank page.
    LoadElfPage,
    /// Map 12 heap pages.
    GrowHeap,
    /// Map a zeroed thread-local-storage page.
    TlsPage,
    /// Load the page of the gap region from the executable, else a blank page.
    GapRegion,
}

/// Whether a remapped page is executable: anonymous mappings in the mmap
/// region are mapped without execute permission.
pub open spec fn fault_executable(mtype: MemType, vaddr: u64) -> bool {
    !(mtype == MemType::Mmap && vaddr >= 0x2_0000_0000)
}

/// The policy for a faulting address inside no area.
pub open spec fn outside_action(vaddr: u64, segv_pending: bool) -> FaultAction {
    if 0x7000_0000 <= vaddr < 0x8000_0000 {
        FaultAction::GrowStack
    } else if vaddr < 0x1000 {
        if segv_pending {
            FaultAction::NullRepeat
        } else {
            FaultAction::NullFirst
        }
    } else if 0x10000 <= vaddr < 0x100000 {
        FaultAction::LoadElfPage
    } else if 0x1000000 <= vaddr < 0x2000000 {
        FaultAction::GrowHeap
    } else if 0x2_0000_0000 <= vaddr < 0x3_0000_0000 {
        FaultAction::TlsPage
    } else if 0x200a0000 <= vaddr < 0x300b0000 {
        FaultAction::GapRegion
    } else {
        FaultAction::Segv
    }
}

/// What the handler does for a fault at `vaddr` (see [`user_cow_int`]).
pub open spec fn cow_action(vaddr: u64, area: Option<FaultArea>, free_pages: usize, segv_pending: bool) -> FaultAction {
    match area {
        None => outside_action(vaddr, segv_pending),
        Some(a) => match a.tracker {
            PageTracker::Present { holders } => if a.mtype == MemType::Shared || a.mtype == MemType::ShareFile || holders <= 1 {
                FaultAction::MapExisting { executable: fault_executable(a.mtype, vaddr) }
            } else {
                FaultAction::CopyThenMap { executable: fault_executable(a.mtype, vaddr) }
            },
            PageTracker::Missing => if free_pages < 10 {
                FaultAction::Segv
            } else {
                FaultAction::NewFrame {
                    file_offset: (a.offset + (vaddr - vaddr % PAGE_SIZE - a.start)) as u64,
                    read_file: a.has_file,
                    executable: fault_executable(a.mtype, vaddr),
                }
            },
        },
    }
}

/// Decides how to resolve a page fault at `vaddr`: `area` is the area
/// containing it (if any), `free_pages` the number of free frames and
/// `segv_pending` whether SIGSEGV is already pending for the task.
pub fn user_cow_int(vaddr: u64, area: Option<FaultArea>, free_pages: usize, segv_pending: bool) -> (r: FaultAction)
    requires
        area matches Some(a) ==> (a.tracker is Missing ==> a.start <= vaddr - vaddr % PAGE_SIZE && a.offset + (vaddr - a.start) <= u64::MAX),
    ensures
        r == cow_action(vaddr, area, free_pages, segv_pending),
{
    match area {
        Some(a) => {
            let executable = !(a.mtype == MemType::Mmap && vaddr >= 0x2_0000_0000);
            match a.tracker {
                PageTracker::Present { holders } => {
                    if a.mtype == MemType::Shared || a.mtype == MemType::ShareFile {
                        FaultAction::MapExisting { executable }
                    } else if holders > 1 {
                        FaultAction::CopyThenMap { executable }
                    } else {
                        FaultAction::MapExisting { executable }
                    }
                },
                PageTracker::Missing => {
                    if free_pages < 10 {
                        return FaultAction::Segv;
                    }
                    let page: u64 = vaddr - vaddr % PAGE_SIZE;
                    let file_offset: u64 = a.offset + (page - a.start);
                    FaultAction::NewFrame { file_offset, read_file: a.has_file, executable }
                },
            }
        },
        None => {
            if vaddr >= 0x7000_0000 && vaddr < 0x8000_0000 {
                FaultAction::GrowStack
            } else if vaddr < 0x1000 {
                if segv_pending {
                    FaultAction::NullRepeat
                } else {
                    FaultAction::NullFirst
                }
            } else if vaddr >= 0x10000 && vaddr < 0x100000 {
                FaultAction::LoadElfPage
            } else if vaddr >= 0x1000000 && vaddr < 0x2000000 {
                FaultAction::GrowHeap
            } else if vaddr >= 0x2_0000_0000 && vaddr < 0x3_0000_0000 {
                FaultAction::TlsPage
            } else if vaddr >= 0x200a0000 && vaddr < 0x300b0000 {
                FaultAction::GapRegion
            } else {
                FaultAction::Segv
            }
        },
    }
}

/// A fault on a page an area already holds a frame for never allocates a
/// fresh frame and never signals: the frame is copied exactly when it is
/// shared with another address space in an area that is not shared memory,
/// and otherwise mapped again in place; either way the page is executable
/// unless it is an anonymous-region mmap page.
pub proof fn lemma_held_page_fault(vaddr: u64, a: FaultArea, holders: usize, free_pages: usize, segv_pending: bool)
    requires
        a.tracker == (PageTracker::Present { holders }),
    ensures
        cow_action(vaddr, Some(a), free_pages, segv_pending) is CopyThenMap <==> (holders > 1 && a.mtype
            != MemType::Shared && a.mtype != MemType::ShareFile),
        cow_action(vaddr, Some(a), free_pages, segv_pending) is MapExisting <==> !(holders > 1 && a.mtype
            != MemType::Shared && a.mtype != MemType::ShareFile),
        match cow_action(vaddr, Some(a), free_pages, segv_pending) {
            FaultAction::CopyThenMap { executable } | FaultAction::MapExisting { executable } => executable
                == !(a.mtype == MemType::Mmap && vaddr >= 0x2_0000_0000),
            _ => false,
        },
{
}

/// Where no area holds the address, the policy depends on the address
/// alone (and, near 0, on a pending SIGSEGV): the stack window
/// `[0x7000_0000, 0x8000_0000)` grows the stack, the first page is a null
/// access, `[0x10000, 0x100000)` loads the executable's page,
/// `[0x100_0000, 0x200_0000)` grows the heap, `[0x2_0000_0000,
/// 0x3_0000_0000)` maps thread-local storage, `[0x200a_0000, 0x300b_0000)`
/// is the gap region, and any other address gets SIGSEGV. Such a fault never
/// reuses, copies or fills a frame of an area.
pub proof fn lemma_outside_policy(vaddr: u64, segv_pending: bool, free_pages: usize)
    ensures
        (cow_action(vaddr, None, free_pages, segv_pending) == FaultAction::GrowStack) <==> (0x7000_0000 <= vaddr
            < 0x8000_0000),
        (cow_action(vaddr, None, free_pages, segv_pending) == FaultAction::NullFirst) <==> (vaddr < 0x1000
            && !segv_pending),
        (cow_action(vaddr, None, free_pages, segv_pending) == FaultAction::NullRepeat) <==> (vaddr < 0x1000
            && segv_pending),
        (cow_action(vaddr, None, free_pages, segv_pending) == FaultAction::LoadElfPage) <==> (0x10000 <= vaddr
            < 0x100000),
        (cow_action(vaddr, None, free_pages, segv_pending) == FaultAction::GrowHeap) <==> (0x100_0000 <= vaddr
            < 0x200_0000),
        (cow_action(vaddr, None, free_pages, segv_pending) == FaultAction::TlsPage) <==> (0x2_0000_0000 <= vaddr
            < 0x3_0000_0000),
        (cow_action(vaddr, None, free_pages, segv_pending) == FaultAction::GapRegion) <==> (0x200a_0000 <= vaddr
            < 0x300b_0000),
        !(cow_action(vaddr, None, free_pages, segv_pending) is MapExisting),
        !(cow_action(vaddr, None, free_pages, segv_pending) is CopyThenMap),
        !(cow_action(vaddr, None, free_pages, segv_pending) is NewFrame),
{
}

/// A page that `fork` left read-only in both processes, and that both still
/// hold, is copied on a write fault; a page of a shared area is mapped again
/// in place, so both processes keep seeing one frame.
pub proof fn lemma_fork_write_fault(vaddr: u64, a: FaultArea, holders: usize, free_pages: usize, segv_pending: bool)
    requires
        a.tracker == (PageTracker::Present { holders }),
        holders >= 2,
    ensures
        !fork_keeps_write(a.mtype) ==> cow_action(vaddr, Some(a), free_pages, segv_pending) is CopyThenMap,
        fork_keeps_write(a.mtype) ==> cow_action(vaddr, Some(a), free_pages, segv_pending) is MapExisting,
{
}

/// The first touch of a page an area holds no frame for: with frames to
/// spare (at least 10 free) it gets a new frame, filled from the area's file
/// exactly when the area has one, from the file offset of the page's start
/// (the area's offset plus the page's distance from the area's start), and
/// executable unless it is an anonymous-region mmap page; with fewer free
/// frames the task gets SIGSEGV.
pub proof fn lemma_first_touch_frame(vaddr: u64, a: FaultArea, free_pages: usize, segv_pending: bool)
    requires
        a.tracker is Missing,
        a.start <= vaddr - vaddr % PAGE_SIZE,
        a.offset + (vaddr - a.start) <= u64::MAX,
    ensures
        free_pages >= 10 ==> (cow_action(vaddr, Some(a), free_pages, segv_pending) matches FaultAction::NewFrame {
            file_offset,
            read_file,
            executable,
        } && read_file == a.has_file && file_offset == a.offset + (vaddr - vaddr % PAGE_SIZE - a.start)
            && executable == !(a.mtype == MemType::Mmap && vaddr >= 0x2_0000_0000)),
        free_pages < 10 ==> cow_action(vaddr, Some(a), free_pages, segv_pending) == FaultAction::Segv,
{
}

/// Bytes of the executable read into a page loaded at `file_offset`: up to a
/// page, not past the end of the file; `None` when the offset is past the end.
pub fn elf_page_read_size(file_offset: u64, file_size: u64) -> (r: Option<u64>)
    ensures
        r == if file_offset >= file_size {
            None
        } else if file_size - file_offset < PAGE_SIZE {
            Some((file_size - file_offset) as u64)
        } else {
            Some(PAGE_SIZE)
        },
{
    if file_offset >= file_size {
        return None;
    }
    let remaining_file_size: u64 = file_size - file_offset;
    if remaining_file_size < PAGE_SIZE {
        Some(remaining_file_size)
    } else {
        Some(PAGE_SIZE)
    }
}

/// Repeated TLS faults on one page: the task is killed on the fourth fault in
/// a row on the same page.
pub struct TlsFaultTracker {
    pub last_page: u64,
    pub count: u64,
}

impl TlsFaultTracker {
    pub fn new() -> (r: Self)
        ensures
            r.last_page == 0 && r.count == 0,
    {
        TlsFaultTracker { last_page: 0, count: 0 }
    }

    /// Records a TLS fault on `page`; `true` when the task is to exit.
    pub fn record(&mut self, page: u64) -> (r: bool)
        requires
            old(self).count < u64::MAX,
        ensures
            old(self).last_page == page ==> final(self).count == old(self).count + 1 && r == (final(self).count > 3) && final(self).last_page == page,
            old(self).last_page != page ==> final(self).count == 1 && !r && final(self).last_page == page,
    {
        if self.last_page == page {
            self.count = self.count + 1;
            self.count > 3
        } else {
            self.last_page = page;
            self.count = 1;
            false
        }
    }

    /// A TLS page was mapped: the count starts again.
    pub fn reset(&mut self)
        ensures
            final(self).count == 0,
            final(self).last_page == old(self).last_page,
    {
        self.count = 0;
    }
}

/// A trap taken while the kernel runs.
#[derive(Copy, Clone, Debug, PartialEq, Eq, Structural)]
pub enum KernelTrap {
    /// A load, store or instruction page fault at an address.
    PageFault(u64),
    /// An illegal instruction at an address.
    IllegalInstruction(u64),
    /// An external interrupt.
    External,
    /// Any other trap.
    Other,
}

/// What the kernel's trap handler does.
#[derive(Copy, Clone, Debug, PartialEq, Eq, Structural)]
pub enum KernelTrapAction {
    /// Run the current user task's page-fault handler on the address.
    UserPageFault(u64),
    /// Run the illegal-instruction handler on the task's saved PC.
    IllegalInstruction,
    /// Let the interrupt controller handle the interrupt.
    ExternalInterrupt,
    /// Nothing.
    Ignore,
}

/// The kernel trap handler's choice. A page fault above the kernel's
/// virtual base `virt_start`, or one taken with no user task current, is a
/// kernel bug the handler stops on, so it is left out here.
pub fn kernel_trap_action(trap: KernelTrap, virt_start: u64, user_task: bool) -> (r: KernelTrapAction)
    requires
        trap matches KernelTrap::PageFault(addr) ==> addr <= virt_start && user_task,
    ensures
        r == match trap {
            KernelTrap::PageFault(addr) => KernelTrapAction::UserPageFault(addr),
            KernelTrap::IllegalInstruction(addr) => if addr > virt_start {
                KernelTrapAction::Ignore
            } else {
                KernelTrapAction::IllegalInstruction
            },
            KernelTrap::External => KernelTrapAction::ExternalInterrupt,
            KernelTrap::Other => KernelTrapAction::Ignore,
        },
{
    match trap {
        KernelTrap::PageFault(addr) => KernelTrapAction::UserPageFault(addr),
        KernelTrap::IllegalInstruction(addr) => {
            if addr > virt_start {
                KernelTrapAction::Ignore
            } else {
                KernelTrapAction::IllegalInstruction
            }
        },
        KernelTrap::External => KernelTrapAction::ExternalInterrupt,
        KernelTrap::Other => KernelTrapAction::Ignore,
    }
}

/// A way of filling a faulting page outside every area that the handler
/// tries.
#[derive(Copy, Clone, Debug, PartialEq, Eq, Structural)]
pub enum FaultTry {
    /// One more stack page.
    StackPage,
    /// The page loaded from the executable's segment that covers it.
    ElfPage,
    /// A blank mmap page.
    BlankPage,
    /// Twelve heap pages.
    HeapPages,
    /// A zeroed shared page mapped directly.
    TlsMapped,
    /// A zeroed shared page from the frame allocator.
    TlsShared,
    /// A zeroed stack page.
    TlsStack,
}

/// How a try ended.
#[derive(Copy, Clone, Debug, PartialEq, Eq, Structural)]
pub enum TryOutcome {
    /// The page is in place.
    Done,
    /// Frames ran out, or (for an ELF page) no segment covers the address,
    /// or the read failed or read nothing.
    Failed,
    /// An ELF page whose file cannot be sized, or whose offset lies at or
    /// past the file's end: the handler gives up without doing anything.
    Abandoned,
}

/// What the handler does next.
#[derive(Copy, Clone, Debug, PartialEq, Eq, Structural)]
pub enum FaultStep {
    Try(FaultTry),
    /// The fault is handled (or, for an abandoned ELF page, left alone).
    Finished,
    /// Deliver SIGSEGV.
    Segv,
}

/// The first try of a policy that fills the page: the stack page for stack
/// growth, the ELF page for the low image region and for the gap region,
/// the heap pages for heap growth, and the directly mapped shared page for
/// thread-local storage. Other policies try nothing.
pub open spec fn first_try_spec(a: FaultAction) -> Option<FaultTry> {
    match a {
        FaultAction::GrowStack => Some(FaultTry::StackPage),
        FaultAction::LoadElfPage => Some(FaultTry::ElfPage),
        FaultAction::GapRegion => Some(FaultTry::ElfPage),
        FaultAction::GrowHeap => Some(FaultTry::HeapPages),
        FaultAction::TlsPage => Some(FaultTry::TlsMapped),
        _ => None,
    }
}

/// The first try of policy `a` (see [`first_try_spec`]).
pub fn fault_first_try(a: FaultAction) -> (r: Option<FaultTry>)
    ensures
        r == first_try_spec(a),
{
    match a {
        FaultAction::GrowStack => Some(FaultTry::StackPage),
        FaultAction::LoadElfPage => Some(FaultTry::ElfPage),
        FaultAction::GapRegion => Some(FaultTry::ElfPage),
        FaultAction::GrowHeap => Some(FaultTry::HeapPages),
        FaultAction::TlsPage => Some(FaultTry::TlsMapped),
        _ => None,
    }
}

/// The fallback after a failed try: an ELF page falls back on a blank page,
/// the directly mapped TLS page on a shared page and that on a stack page;
/// every other failure ends in SIGSEGV.
pub open spec fn fallback_spec(t: FaultTry) -> FaultStep {
    match t {
        FaultTry::ElfPage => FaultStep::Try(FaultTry::BlankPage),
        FaultTry::TlsMapped => FaultStep::Try(FaultTry::TlsShared),
        FaultTry::TlsShared => FaultStep::Try(FaultTry::TlsStack),
        _ => FaultStep::Segv,
    }
}

/// What follows try `t` with outcome `o`: done or abandoned tries finish,
/// failed ones fall back (see [`fallback_spec`]).
pub fn fault_next_step(t: FaultTry, o: TryOutcome) -> (r: FaultStep)
    requires
        o == TryOutcome::Abandoned ==> t == FaultTry::ElfPage,
    ensures
        r == match o {
            TryOutcome::Failed => fallback_spec(t),
            _ => FaultStep::Finished,
        },
{
    match o {
        TryOutcome::Failed => match t {
            FaultTry::ElfPage => FaultStep::Try(FaultTry::BlankPage),
            FaultTry::TlsMapped => FaultStep::Try(FaultTry::TlsShared),
            FaultTry::TlsShared => FaultStep::Try(FaultTry::TlsStack),
            _ => FaultStep::Segv,
        },
        _ => FaultStep::Finished,
    }
}

/// The kind of area and the number of pages a try asks frames for.
pub fn fault_try_alloc(t: FaultTry) -> (r: (MemType, u64))
    ensures
        r == match t {
            FaultTry::StackPage | FaultTry::TlsStack => (MemType::Stack, 1u64),
            FaultTry::ElfPage | FaultTry::BlankPage => (MemType::Mmap, 1u64),
            FaultTry::HeapPages => (MemType::Mmap, 12u64),
            FaultTry::TlsMapped | FaultTry::TlsShared => (MemType::Shared, 1u64),
        },
{
    match t {
        FaultTry::StackPage | FaultTry::TlsStack => (MemType::Stack, 1),
        FaultTry::ElfPage | FaultTry::BlankPage => (MemType::Mmap, 1),
        FaultTry::HeapPages => (MemType::Mmap, 12),
        FaultTry::TlsMapped | FaultTry::TlsShared => (MemType::Shared, 1),
    }
}

/// How many failures try `t` can still meet before the handler gives up.
pub open spec fn tries_left(t: FaultTry) -> int {
    match t {
        FaultTry::TlsMapped => 3,
        FaultTry::ElfPage | FaultTry::TlsShared => 2,
        _ => 1,
    }
}

/// Every fallback chain ends: a failed try falls back on one with fewer
/// tries left, or delivers SIGSEGV when it was the last; so a page-filling
/// policy ends in SIGSEGV after at most three failed tries.
pub proof fn lemma_fallback_chains_end(t: FaultTry)
    ensures
        match fallback_spec(t) {
            FaultStep::Try(u) => tries_left(u) == tries_left(t) - 1,
            FaultStep::Segv => tries_left(t) == 1,
            FaultStep::Finished => false,
        },
        1 <= tries_left(t) <= 3,
{
}

} // verus!
