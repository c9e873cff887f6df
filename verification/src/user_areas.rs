//! Decisions over a task's memory areas and the pages they hold frames for:
//! finding the area and page of a fault, the illegal-instruction check,
//! filling in pages of an area in a batch, and how frames are requested.

use vstd::prelude::*;
use crate::task_mem::{MemRegion, MemType, MappingFlags, PAGE_SIZE};
use crate::page_fault::{FaultArea, FaultAction, PageTracker, cow_action, user_cow_int};

verus! {

/// A memory area and the pages it holds frames for: the page address and
/// how many address spaces share that frame.
pub struct AreaPages {
    pub region: MemRegion,
    pub pages: Vec<(u64, usize)>,
}

/// Index of the first area containing `vaddr` among the first `n`.
pub open spec fn first_area(areas: Seq<AreaPages>, vaddr: u64, n: int) -> Option<int>
    decreases n,
{
    if n <= 0 {
        None
    } else {
        match first_area(areas, vaddr, n - 1) {
            Some(k) => Some(k),
            None => if areas[n - 1].region.contains_spec(vaddr) {
                Some(n - 1)
            } else {
                None
            },
        }
    }
}

/// Index of the first page entry at address `page` among the first `n`.
pub open spec fn first_page(pages: Seq<(u64, usize)>, page: u64, n: int) -> Option<int>
    decreases n,
{
    if n <= 0 {
        None
    } else {
        match first_page(pages, page, n - 1) {
            Some(k) => Some(k),
            None => if pages[n - 1].0 == page {
                Some(n - 1)
            } else {
                None
            },
        }
    }
}

proof fn lemma_first_area_valid(areas: Seq<AreaPages>, vaddr: u64, n: int)
    requires
        n <= areas.len(),
    ensures
        first_area(areas, vaddr, n) matches Some(k) ==> 0 <= k < n && areas[k].region.contains_spec(vaddr),
    decreases n,
{
    if n > 0 {
        lemma_first_area_valid(areas, vaddr, n - 1);
    }
}

proof fn lemma_first_area_stable(areas: Seq<AreaPages>, vaddr: u64, n: int, m: int)
    requires
        0 <= n <= m,
        first_area(areas, vaddr, n) is Some,
    ensures
        first_area(areas, vaddr, m) == first_area(areas, vaddr, n),
    decreases m - n,
{
    if m > n {
        lemma_first_area_stable(areas, vaddr, n, m - 1);
    }
}

proof fn lemma_first_page_valid(pages: Seq<(u64, usize)>, page: u64, n: int)
    requires
        n <= pages.len(),
    ensures
        first_page(pages, page, n) matches Some(k) ==> 0 <= k < n && pages[k].0 == page,
    decreases n,
{
    if n > 0 {
        lemma_first_page_valid(pages, page, n - 1);
    }
}

proof fn lemma_first_page_stable(pages: Seq<(u64, usize)>, page: u64, n: int, m: int)
    requires
        0 <= n <= m,
        first_page(pages, page, n) is Some,
    ensures
        first_page(pages, page, m) == first_page(pages, page, n),
    decreases m - n,
{
    if m > n {
        lemma_first_page_stable(pages, page, n, m - 1);
    }
}

proof fn lemma_first_area_minimal(areas: Seq<AreaPages>, vaddr: u64, n: int)
    requires
        0 <= n <= areas.len(),
    ensures
        first_area(areas, vaddr, n) is None <==> forall|m: int| 0 <= m < n ==> !(#[trigger] areas[m]).region.contains_spec(vaddr),
        first_area(areas, vaddr, n) matches Some(k) ==> forall|m: int| 0 <= m < k ==> !(#[trigger] areas[m]).region.contains_spec(vaddr),
    decreases n,
{
    if n > 0 {
        lemma_first_area_minimal(areas, vaddr, n - 1);
    }
}

proof fn lemma_first_page_minimal(pages: Seq<(u64, usize)>, page: u64, n: int)
    requires
        0 <= n <= pages.len(),
    ensures
        first_page(pages, page, n) is None <==> forall|m: int| 0 <= m < n ==> (#[trigger] pages[m]).0 != page,
    decreases n,
{
    if n > 0 {
        lemma_first_page_minimal(pages, page, n - 1);
    }
}

/// The area a fault is handled in is the first area that contains the
/// address, with its kind, start, file offset and file; there is none
/// exactly when no area contains it. The page counts as held exactly when
/// that area lists the page holding the address, and then with the holder
/// count the area lists for it.
#[verifier::rlimit(40)]
pub proof fn lemma_fault_area(areas: Seq<AreaPages>, vaddr: u64)
    ensures
        fault_area_spec(areas, vaddr) is None <==> forall|m: int|
            0 <= m < areas.len() ==> !(#[trigger] areas[m]).region.contains_spec(vaddr),
        fault_area_spec(areas, vaddr) matches Some(fa) ==> exists|k: int|
            0 <= k < areas.len() && (#[trigger] areas[k]).region.contains_spec(vaddr) && (forall|m: int|
                0 <= m < k ==> !(#[trigger] areas[m]).region.contains_spec(vaddr)) && fa.mtype == areas[k].region.mtype
                && fa.start == areas[k].region.start && fa.offset == areas[k].region.offset && fa.has_file
                == areas[k].region.has_file && ((fa.tracker is Present) <==> exists|j: int|
                0 <= j < areas[k].pages@.len() && (#[trigger] areas[k].pages@[j]).0 == vaddr - vaddr % PAGE_SIZE)
                && (fa.tracker matches PageTracker::Present { holders } ==> exists|j: int|
                0 <= j < areas[k].pages@.len() && (#[trigger] areas[k].pages@[j]).0 == vaddr - vaddr % PAGE_SIZE
                    && areas[k].pages@[j].1 == holders),
{
    lemma_first_area_minimal(areas, vaddr, areas.len() as int);
    lemma_first_area_valid(areas, vaddr, areas.len() as int);
    if let Some(k) = first_area(areas, vaddr, areas.len() as int) {
        let fa = fault_area_spec(areas, vaddr)->0;
        let pages = areas[k].pages@;
        let page = (vaddr - vaddr % PAGE_SIZE) as u64;
        lemma_first_page_minimal(pages, page, pages.len() as int);
        lemma_first_page_valid(pages, page, pages.len() as int);
        let held = exists|j: int| 0 <= j < pages.len() && (#[trigger] pages[j]).0 == vaddr - vaddr % PAGE_SIZE;
        match first_page(pages, page, pages.len() as int) {
            Some(j) => {
                assert(pages[j].0 == vaddr - vaddr % PAGE_SIZE);
                assert(held);
                assert(fa.tracker == (PageTracker::Present { holders: pages[j].1 }));
            },
            None => {
                assert(!held);
                assert(fa.tracker is Missing);
            },
        }
        assert(areas[k].pages@ == pages);
    }
}

/// Index of the first area containing `vaddr`.
pub fn find_area(areas: &[AreaPages], vaddr: u64) -> (r: Option<usize>)
    ensures
        r matches Some(k) ==> first_area(areas@, vaddr, areas@.len() as int) == Some(k as int),
        r is None <==> first_area(areas@, vaddr, areas@.len() as int) is None,
        r matches Some(k) ==> k < areas@.len() && areas@[k as int].region.contains_spec(vaddr),
{
    let mut i: usize = 0;
    while i < areas.len()
        invariant
            i <= areas@.len(),
            first_area(areas@, vaddr, i as int) is None,
        decreases areas@.len() - i,
    {
        if areas[i].region.contains(vaddr) {
            proof {
                lemma_first_area_stable(areas@, vaddr, i + 1, areas@.len() as int);
            }
            return Some(i);
        }
        i = i + 1;
    }
    None
}

/// Index of the first page entry at address `page`.
pub fn find_page(pages: &Vec<(u64, usize)>, page: u64) -> (r: Option<usize>)
    ensures
        r matches Some(k) ==> first_page(pages@, page, pages@.len() as int) == Some(k as int),
        r is None <==> first_page(pages@, page, pages@.len() as int) is None,
        r matches Some(k) ==> k < pages@.len() && pages@[k as int].0 == page,
{
    let mut i: usize = 0;
    while i < pages.len()
        invariant
            i <= pages@.len(),
            first_page(pages@, page, i as int) is None,
        decreases pages@.len() - i,
    {
        if pages[i].0 == page {
            proof {
                lemma_first_page_stable(pages@, page, i + 1, pages@.len() as int);
            }
            return Some(i);
        }
        i = i + 1;
    }
    None
}

/// The area of a fault at `vaddr` as the fault handler sees it: the first
/// area containing the address, and the frame it holds at the faulting page.
pub fn find_fault_area(areas: &[AreaPages], vaddr: u64) -> (r: Option<FaultArea>)
    ensures
        r == fault_area_spec(areas@, vaddr),
{
    match find_area(areas, vaddr) {
        None => None,
        Some(k) => {
            let a = &areas[k];
            let page: u64 = vaddr - vaddr % PAGE_SIZE;
            let tracker = match find_page(&a.pages, page) {
                Some(j) => PageTracker::Present { holders: a.pages[j].1 },
                None => PageTracker::Missing,
            };
            Some(FaultArea {
                mtype: a.region.mtype,
                start: a.region.start,
                offset: a.region.offset,
                has_file: a.region.has_file,
                tracker,
            })
        },
    }
}

/// The area of a fault at `vaddr` as [`find_fault_area`] gives it.
pub open spec fn fault_area_spec(areas: Seq<AreaPages>, vaddr: u64) -> Option<FaultArea> {
    match first_area(areas, vaddr, areas.len() as int) {
        None => None,
        Some(k) => {
            let a = areas[k];
            Some(FaultArea {
                mtype: a.region.mtype,
                start: a.region.start,
                offset: a.region.offset,
                has_file: a.region.has_file,
                tracker: match first_page(a.pages@, (vaddr - vaddr % PAGE_SIZE) as u64, a.pages@.len() as int) {
                    Some(j) => PageTracker::Present { holders: a.pages@[j].1 },
                    None => PageTracker::Missing,
                },
            })
        },
    }
}

/// Areas whose extents and file ranges stay within 64 bits.
pub open spec fn areas_wf(areas: Seq<AreaPages>) -> bool {
    forall|k: int|
        0 <= k < areas.len() ==> (#[trigger] areas[k]).region.offset + areas[k].region.len <= u64::MAX
            && areas[k].region.start + areas[k].region.len <= u64::MAX
}

/// How a page fault at `vaddr` in a task with these areas is resolved:
/// the area and page found by [`find_fault_area`], handled by [`user_cow_int`].
pub fn user_cow_fault(areas: &[AreaPages], vaddr: u64, free_pages: usize, segv_pending: bool) -> (r: FaultAction)
    requires
        areas_wf(areas@),
        fault_area_spec(areas@, vaddr) matches Some(a) ==> (a.tracker is Missing ==> a.start <= vaddr
            - vaddr % PAGE_SIZE),
    ensures
        r == cow_action(vaddr, fault_area_spec(areas@, vaddr), free_pages, segv_pending),
{
    let area = find_fault_area(areas, vaddr);
    proof {
        lemma_first_area_valid(areas@, vaddr, areas@.len() as int);
    }
    user_cow_int(vaddr, area, free_pages, segv_pending)
}

/// What an illegal-instruction trap leads to.
#[derive(Copy, Clone, Debug, PartialEq, Eq, Structural)]
pub enum IllegalAction {
    /// The address is a page the task holds: step over the (2-byte) instruction.
    SkipInstruction,
    /// Deliver SIGILL.
    Sigill,
}

/// An illegal-instruction trap at `vaddr`: it is stepped over only when the
/// first area containing the address holds a frame at exactly that address.
pub fn task_ilegal(areas: &[AreaPages], vaddr: u64) -> (r: IllegalAction)
    ensures
        r == match first_area(areas@, vaddr, areas@.len() as int) {
            Some(k) => if first_page(areas@[k].pages@, vaddr, areas@[k].pages@.len() as int) is Some {
                IllegalAction::SkipInstruction
            } else {
                IllegalAction::Sigill
            },
            None => IllegalAction::Sigill,
        },
{
    match find_area(areas, vaddr) {
        Some(k) => match find_page(&areas[k].pages, vaddr) {
            Some(_) => IllegalAction::SkipInstruction,
            None => IllegalAction::Sigill,
        },
        None => IllegalAction::Sigill,
    }
}

/// A page to fill in: its page address, where its contents come from in the
/// area's file (when the area has one), and its permissions.
#[derive(Copy, Clone, Debug, PartialEq, Eq, Structural)]
pub struct BatchPage {
    pub vaddr: u64,
    pub file_offset: Option<u64>,
    pub flags: MappingFlags,
}

/// Frames that must stay free beyond the ones a batch takes.
pub const BATCH_RESERVE: usize = 10;

/// Permissions of a page filled in for an area: pages of anonymous mappings
/// in the mmap region are not executable.
pub open spec fn batch_flags(mtype: MemType, page: u64) -> MappingFlags {
    MappingFlags {
        user: true,
        read: true,
        write: true,
        execute: !(mtype == MemType::Mmap && page >= 0x2_0000_0000),
    }
}

/// The pages of `unmapped` that still need a frame, in order: the ones
/// whose page the area does not hold yet.
pub open spec fn batch_pages_spec(area: AreaPages, unmapped: Seq<u64>, n: int) -> Seq<BatchPage>
    decreases n,
{
    if n <= 0 {
        Seq::empty()
    } else {
        let prev = batch_pages_spec(area, unmapped, n - 1);
        let page = (unmapped[n - 1] - unmapped[n - 1] % PAGE_SIZE) as u64;
        if first_page(area.pages@, page, area.pages@.len() as int) is Some {
            prev
        } else {
            prev.push(BatchPage {
                vaddr: page,
                file_offset: if area.region.has_file {
                    Some((area.region.offset + (page - area.region.start)) as u64)
                } else {
                    None
                },
                flags: batch_flags(area.region.mtype, page),
            })
        }
    }
}

/// Every page planned for an area lies in the area, on a page boundary,
/// when the addresses asked for do and the area starts on one.
pub proof fn lemma_batch_pages_in_area(area: AreaPages, unmapped: Seq<u64>, n: int)
    requires
        0 <= n <= unmapped.len(),
        area.region.start % PAGE_SIZE == 0,
        forall|i: int| 0 <= i < n ==> area.region.contains_spec(#[trigger] unmapped[i]),
    ensures
        forall|k: int|
            0 <= k < batch_pages_spec(area, unmapped, n).len() ==> area.region.contains_spec(
                (#[trigger] batch_pages_spec(area, unmapped, n)[k]).vaddr,
            ) && batch_pages_spec(area, unmapped, n)[k].vaddr % PAGE_SIZE == 0,
    decreases n,
{
    if n > 0 {
        lemma_batch_pages_in_area(area, unmapped, n - 1);
        let v = unmapped[n - 1];
        let page = (v - v % PAGE_SIZE) as u64;
        assert(area.region.contains_spec(v));
        assert(page >= area.region.start && page <= v && page % 4096 == 0) by (nonlinear_arith)
            requires
                page == v - v % 4096,
                area.region.start <= v,
                area.region.start % 4096 == 0,
                v >= 0,
        ;
    }
}

/// The area's bounds fit in 64 bits, and, when the area is file-backed, the
/// page of every address asked for that lies in it starts at or above the
/// area's start (its file offset is counted from there).
pub open spec fn batch_area_ok(a: MemRegion, unmapped: Seq<u64>) -> bool {
    &&& a.offset + a.len <= u64::MAX
    &&& a.start + a.len <= u64::MAX
    &&& a.has_file ==> forall|i: int|
        0 <= i < unmapped.len() && a.contains_spec(#[trigger] unmapped[i]) ==> a.start <= unmapped[i]
            - unmapped[i] % PAGE_SIZE
}

/// Plans filling in the pages `unmapped` of area `area_index` at once:
/// `None` (nothing is done) when frames run short (fewer than the pages plus
/// a reserve free), the area does not exist, or a page lies outside it;
/// otherwise the pages that need a frame. Nothing to do gives `Some` of no
/// pages.
pub fn batch_allocate_pages_for_area(
    areas: &[AreaPages],
    area_index: usize,
    unmapped: &[u64],
    free_pages: usize,
) -> (r: Option<Vec<BatchPage>>)
    requires
        area_index < areas@.len() ==> batch_area_ok(areas@[area_index as int].region, unmapped@),
    ensures
        unmapped@.len() == 0 ==> (r matches Some(v) && v@.len() == 0),
        unmapped@.len() > 0 ==> (r is None <==> (free_pages < unmapped@.len() + BATCH_RESERVE || area_index
            >= areas@.len() || exists|i: int|
            0 <= i < unmapped@.len() && !areas@[area_index as int].region.contains_spec(#[trigger] unmapped@[i]))),
        r matches Some(v) ==> (unmapped@.len() > 0 ==> area_index < areas@.len() && v@ == batch_pages_spec(
            areas@[area_index as int],
            unmapped@,
            unmapped@.len() as int,
        )),
{
    if unmapped.len() == 0 {
        return Some(Vec::new());
    }
    if (free_pages as u128) < (unmapped.len() as u128) + (BATCH_RESERVE as u128) {
        return None;
    }
    if area_index >= areas.len() {
        return None;
    }
    let area = &areas[area_index];
    let ghost av = areas@[area_index as int];
    let mut out: Vec<BatchPage> = Vec::new();
    let mut i: usize = 0;
    while i < unmapped.len()
        invariant
            i <= unmapped@.len(),
            unmapped@.len() > 0,
            area_index < areas@.len(),
            areas@[area_index as int] == av,
            free_pages >= unmapped@.len() + BATCH_RESERVE,
            *area == av,
            batch_area_ok(av.region, unmapped@),
            forall|k: int| 0 <= k < i ==> av.region.contains_spec(#[trigger] unmapped@[k]),
            out@ == batch_pages_spec(av, unmapped@, i as int),
        decreases unmapped@.len() - i,
    {
        let v = unmapped[i];
        if !area.region.contains(v) {
            assert(!av.region.contains_spec(unmapped@[i as int]));
            return None;
        }
        let page: u64 = v - v % PAGE_SIZE;
        assert(area.region.has_file ==> page >= area.region.start);
        if find_page(&area.pages, page).is_none() {
            let file_offset = if area.region.has_file {
                Some(area.region.offset + (page - area.region.start))
            } else {
                None
            };
            let executable = !(area.region.mtype == MemType::Mmap && page >= 0x2_0000_0000);
            out.push(BatchPage {
                vaddr: page,
                file_offset,
                flags: MappingFlags { user: true, read: true, write: true, execute: executable },
            });
        }
        i = i + 1;
    }
    Some(out)
}

/// Sizes of the two runs a small request falls back on.
#[derive(Copy, Clone, Debug, PartialEq, Eq, Structural)]
pub struct SplitRuns {
    pub first: u64,
    pub second: u64,
}

/// How a task asks the frame allocator for `count` frames.
#[derive(Copy, Clone, Debug, PartialEq, Eq, Structural)]
pub enum FrameAllocPlan {
    /// One contiguous run, recorded as a plain area.
    Run,
    /// A contiguous run, asked for `attempts` times; when all fail, two runs
    /// of these sizes (the second may be empty) when allowed, else nothing.
    Strict { attempts: u8, split: Option<SplitRuns> },
}

/// How `count` frames of kind `mtype` are requested; `strict` is the
/// allocation policy of the architecture (off on LoongArch).
pub fn frame_alloc_plan(mtype: MemType, count: u64, strict: bool) -> (r: FrameAllocPlan)
    ensures
        r == if strict && count > 1 {
            FrameAllocPlan::Strict {
                attempts: if count >= 32 { 2 } else { 1 },
                split: if mtype == MemType::Mmap || count >= 8 {
                    None
                } else {
                    Some(SplitRuns { first: (count / 2 + count % 2) as u64, second: (count / 2) as u64 })
                },
            }
        } else {
            FrameAllocPlan::Run
        },
{
    if !(strict && count > 1) {
        return FrameAllocPlan::Run;
    }
    let attempts: u8 = if count >= 32 { 2 } else { 1 };
    let split = if mtype == MemType::Mmap || count >= 8 {
        None
    } else {
        Some(SplitRuns { first: count / 2 + count % 2, second: count / 2 })
    };
    FrameAllocPlan::Strict { attempts, split }
}

/// Page address of entry `i` of a run mapped at `vaddr` (all 0 when the run
/// is not mapped).
pub fn run_page_vaddr(vaddr: u64, i: u64) -> (r: u64)
    requires
        vaddr != 0 ==> vaddr + i * PAGE_SIZE <= u64::MAX,
    ensures
        r == if vaddr == 0 {
            0
        } else {
            vaddr + i * PAGE_SIZE
        },
{
    if vaddr == 0 {
        0
    } else {
        vaddr + i * PAGE_SIZE
    }
}

/// Where a newly mapped run is recorded.
#[derive(Copy, Clone, Debug, PartialEq, Eq, Structural)]
pub enum RunArea {
    /// Added to this existing stack area.
    Extend(usize),
    /// Recorded as a new area.
    New(MemRegion),
}

/// Start and length of the stack area created for the first stack run.
pub const STACK_AREA_START: u64 = 0x7000_0000;
pub const STACK_AREA_LEN: u64 = 0x1000_0000;

/// Where a run of kind `mtype` is recorded: stack runs join the first stack
/// area (which is created, at its fixed place, when there is none); other
/// runs become an area of their own with the given placement and file.
pub fn map_frames_area(
    areas: &[MemRegion],
    mtype: MemType,
    start: u64,
    len: u64,
    offset: u64,
    has_file: bool,
) -> (r: RunArea)
    ensures
        mtype == MemType::Stack ==> match r {
            RunArea::Extend(k) => k < areas@.len() && areas@[k as int].mtype == MemType::Stack && forall|m: int|
                0 <= m < k ==> (#[trigger] areas@[m]).mtype != MemType::Stack,
            RunArea::New(a) => a == (MemRegion {
                start: STACK_AREA_START,
                len: STACK_AREA_LEN,
                mtype: MemType::Stack,
                offset: 0,
                has_file: false,
            }) && forall|m: int| 0 <= m < areas@.len() ==> (#[trigger] areas@[m]).mtype != MemType::Stack,
        },
        mtype != MemType::Stack ==> r == RunArea::New(MemRegion { start, len, mtype, offset, has_file }),
{
    if mtype != MemType::Stack {
        return RunArea::New(MemRegion { start, len, mtype, offset, has_file });
    }
    let mut i: usize = 0;
    while i < areas.len()
        invariant
            mtype == MemType::Stack,
            i <= areas@.len(),
            forall|m: int| 0 <= m < i ==> (#[trigger] areas@[m]).mtype != MemType::Stack,
        decreases areas@.len() - i,
    {
        if areas[i].mtype == MemType::Stack {
            return RunArea::Extend(i);
        }
        i = i + 1;
    }
    RunArea::New(
        MemRegion {
            start: STACK_AREA_START,
            len: STACK_AREA_LEN,
            mtype: MemType::Stack,
            offset: 0,
            has_file: false,
        },
    )
}

/// The first and last page numbers a user buffer of `len` elements of
/// `elem_size` bytes at `start` touches; `None` for an empty buffer.
pub fn user_buffer_pages(start: u64, len: u64, elem_size: u64) -> (r: Option<(u64, u64)>)
    requires
        elem_size > 0,
        start + len * elem_size <= u64::MAX,
    ensures
        r == if len == 0 {
            None::<(u64, u64)>
        } else {
            Some(((start / PAGE_SIZE) as u64, ((start + len * elem_size - 1) / PAGE_SIZE as int) as u64))
        },
{
    if len == 0 {
        return None;
    }
    proof {
        assert(len * elem_size >= elem_size) by (nonlinear_arith)
            requires
                len > 0,
                elem_size > 0,
        ;
    }
    let total: u64 = len * elem_size;
    let end_addr: u64 = start + total;
    Some((start / PAGE_SIZE, (end_addr - 1) / PAGE_SIZE))
}

/// The addresses of the pages from `first` to `last` that are not mapped
/// (`mapped[i]`: page `first + i` is), which are filled in before a buffer
/// spanning several pages is used; none for a buffer within one page.
pub open spec fn pages_to_fill_spec(first: u64, mapped: Seq<bool>, n: int) -> Seq<u64>
    decreases n,
{
    if n <= 0 {
        Seq::empty()
    } else if !mapped[n - 1] {
        pages_to_fill_spec(first, mapped, n - 1).push(((first + n - 1) * PAGE_SIZE) as u64)
    } else {
        pages_to_fill_spec(first, mapped, n - 1)
    }
}

/// The pages to fill in for a buffer on pages `first..=last`.
pub fn pages_to_fill(first: u64, last: u64, mapped: &[bool]) -> (r: Vec<u64>)
    requires
        first <= last,
        mapped@.len() == last - first + 1,
        (last + 1) * PAGE_SIZE <= u64::MAX,
    ensures
        r@ == if first == last {
            Seq::<u64>::empty()
        } else {
            pages_to_fill_spec(first, mapped@, mapped@.len() as int)
        },
{
    let mut out: Vec<u64> = Vec::new();
    if first == last {
        return out;
    }
    let mut i: usize = 0;
    while i < mapped.len()
        invariant
            i <= mapped@.len(),
            mapped@.len() == last - first + 1,
            (last + 1) * PAGE_SIZE <= u64::MAX,
            out@ == pages_to_fill_spec(first, mapped@, i as int),
        decreases mapped@.len() - i,
    {
        if !mapped[i] {
            let page: u64 = first + i as u64;
            assert(page * PAGE_SIZE <= (last + 1) * PAGE_SIZE) by (nonlinear_arith)
                requires
                    page <= last + 1,
            ;
            out.push(page * PAGE_SIZE);
        }
        i = i + 1;
    }
    out
}

/// The pages filled in before a buffer spanning several pages is used are
/// exactly its unmapped pages, each once, lowest first: every address given
/// is the start of a page from `first` on whose `mapped` flag is off, the
/// addresses strictly increase, and every unmapped page of the first `n` is
/// among them.
pub proof fn lemma_pages_to_fill(first: u64, mapped: Seq<bool>, n: int)
    requires
        0 <= n <= mapped.len(),
        (first + n) * PAGE_SIZE <= u64::MAX,
    ensures
        forall|k: int|
            0 <= k < pages_to_fill_spec(first, mapped, n).len() ==> exists|i: int|
                0 <= i < n && !mapped[i] && #[trigger] pages_to_fill_spec(first, mapped, n)[k] == (first + i)
                    * PAGE_SIZE,
        forall|k: int, m: int|
            0 <= k < m < pages_to_fill_spec(first, mapped, n).len() ==> #[trigger] pages_to_fill_spec(
                first,
                mapped,
                n,
            )[k] < #[trigger] pages_to_fill_spec(first, mapped, n)[m],
        forall|k: int|
            0 <= k < pages_to_fill_spec(first, mapped, n).len() ==> #[trigger] pages_to_fill_spec(
                first,
                mapped,
                n,
            )[k] < (first + n) * PAGE_SIZE,
        forall|i: int|
            0 <= i < n && !mapped[i] ==> pages_to_fill_spec(first, mapped, n).contains(
                ((first + i) * PAGE_SIZE) as u64,
            ),
    decreases n,
{
    if n > 0 {
        lemma_pages_to_fill(first, mapped, n - 1);
        let p = pages_to_fill_spec(first, mapped, n - 1);
        let q = pages_to_fill_spec(first, mapped, n);
        assert((first + n - 1) * PAGE_SIZE + PAGE_SIZE == (first + n) * PAGE_SIZE) by (nonlinear_arith);
        if !mapped[n - 1] {
            let v = ((first + n - 1) * PAGE_SIZE) as u64;
            assert(q == p.push(v));
            assert forall|k: int| 0 <= k < q.len() implies exists|i: int|
                0 <= i < n && !mapped[i] && #[trigger] q[k] == (first + i) * PAGE_SIZE by {
                if k == p.len() {
                    assert(q[k] == (first + (n - 1)) * PAGE_SIZE);
                } else {
                    assert(q[k] == p[k]);
                }
            }
            assert forall|k: int, m: int| 0 <= k < m < q.len() implies #[trigger] q[k] < #[trigger] q[m] by {
                if m == p.len() {
                    assert(q[k] == p[k]);
                } else {
                    assert(q[k] == p[k] && q[m] == p[m]);
                }
            }
            assert forall|k: int| 0 <= k < q.len() implies #[trigger] q[k] < (first + n) * PAGE_SIZE by {
                if k < p.len() {
                    assert(q[k] == p[k]);
                }
            }
            assert forall|i: int| 0 <= i < n && !mapped[i] implies q.contains(((first + i) * PAGE_SIZE) as u64) by {
                if i < n - 1 {
                    assert(p.contains(((first + i) * PAGE_SIZE) as u64));
                    let k = choose|k: int| 0 <= k < p.len() && p[k] == ((first + i) * PAGE_SIZE) as u64;
                    assert(q[k] == p[k]);
                } else {
                    assert(q[p.len() as int] == v);
                }
            }
        } else {
            assert(q == p);
        }
    }
}

} // verus!
