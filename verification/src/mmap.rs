//! The decisions of `mmap`: where a mapping goes, whether it is refused, and
//! how it is backed. Finding overlapping areas and allocating frames happen
//! in the memory set; their answers come in as arguments.

use vstd::prelude::*;
use crate::task_mem::{MemError, MemType, page_up, alignup, mmap_addr, PAGE_SIZE, MAP_AREA_START, USER_VADDR_MAX};

verus! {

/// An `mmap` request: hint address, length, descriptor (`u64::MAX` for -1)
/// and the flags the decisions read.
#[derive(Copy, Clone)]
pub struct MmapRequest {
    pub start: u64,
    pub len: u64,
    pub fd: u64,
    /// `MAP_SHARED`
    pub shared: bool,
    /// `MAP_FIXED`
    pub fixed: bool,
    /// `MAP_ANONYMOUS`
    pub anonymous: bool,
}

/// How the pages of a mapping are backed.
#[derive(Copy, Clone, Debug, PartialEq, Eq, Structural)]
pub enum MmapBacking {
    /// Shared mapping of a file: frames mapped from the file.
    SharedFile,
    /// Shared anonymous memory: frames allocated and mapped now.
    SharedAnonymous,
    /// Private copy of a file: frames allocated now, then filled from the file.
    PrivateFile,
    /// Private anonymous memory: an area whose pages come on first touch.
    PrivateAnonymous,
}

/// What `mmap` goes on to do.
#[derive(Copy, Clone, Debug, PartialEq, Eq, Structural)]
pub enum MmapPlan {
    /// The length rounds to 0: only the address is returned.
    Empty { addr: u64 },
    /// Map `pages` pages (`len` bytes) at `addr`, backed as `backing`; with
    /// `unmap_first`, the overlapped areas are removed first.
    MapPages { addr: u64, len: u64, pages: u64, backing: MmapBacking, unmap_first: bool },
}

/// Address a mapping goes to: the hint, else the first free address but
/// never below the mapping area.
pub open spec fn mmap_addr_spec(start: u64, last_free: u64) -> u64 {
    if start == 0 {
        if last_free >= MAP_AREA_START {
            last_free
        } else {
            MAP_AREA_START
        }
    } else {
        start
    }
}

/// Whether the request maps a file: it is not anonymous, the descriptor is
/// not -1, and a file is open on it (`fd_open`, looked up by the caller).
pub open spec fn uses_file(req: MmapRequest, fd_open: bool) -> bool {
    !req.anonymous && req.fd != u64::MAX && fd_open
}

/// The backing of a mapping with these flags.
pub open spec fn backing_spec(shared: bool, file: bool) -> MmapBacking {
    if shared {
        if file {
            MmapBacking::SharedFile
        } else {
            MmapBacking::SharedAnonymous
        }
    } else if file {
        MmapBacking::PrivateFile
    } else {
        MmapBacking::PrivateAnonymous
    }
}

/// The answer of `mmap` (see [`mmap_plan`]).
pub open spec fn mmap_plan_spec(req: MmapRequest, last_free: u64, fd_open: bool, overlapped: bool, loongarch: bool) -> Result<MmapPlan, MemError> {
    let len = page_up(req.len as int);
    let addr = mmap_addr_spec(req.start, last_free);
    if len == 0 {
        Ok(MmapPlan::Empty { addr })
    } else if loongarch && addr + len > USER_VADDR_MAX {
        Err(MemError::ENOMEM)
    } else if !req.fixed && overlapped {
        Err(MemError::EINVAL)
    } else {
        Ok(MmapPlan::MapPages {
            addr,
            len: len as u64,
            pages: (len / PAGE_SIZE as int) as u64,
            backing: backing_spec(req.shared, uses_file(req, fd_open)),
            unmap_first: req.fixed && overlapped,
        })
    }
}

/// The decisions of `mmap`. The length is rounded up to whole pages and the
/// address chosen by [`mmap_addr_spec`] from `last_free` (the first address
/// above all areas); `overlapped` says whether `[addr, addr + len)` meets an
/// existing area. On LoongArch (`loongarch`) a mapping past the user
/// address space is refused with `ENOMEM`; an overlapping one without
/// `MAP_FIXED` is refused with `EINVAL`; with `MAP_FIXED` the overlapped
/// areas are removed first.
pub fn mmap_plan(req: &MmapRequest, last_free: u64, fd_open: bool, overlapped: bool, loongarch: bool) -> (r: Result<MmapPlan, MemError>)
    requires
        req.len + PAGE_SIZE <= u64::MAX,
    ensures
        r == mmap_plan_spec(*req, last_free, fd_open, overlapped, loongarch),
{
    let len = alignup(req.len, PAGE_SIZE);
    let file = !req.anonymous && req.fd != u64::MAX && fd_open;
    let addr = mmap_addr(req.start, last_free);
    if len == 0 {
        return Ok(MmapPlan::Empty { addr });
    }
    if loongarch && (addr as u128) + (len as u128) > USER_VADDR_MAX as u128 {
        return Err(MemError::ENOMEM);
    }
    if !req.fixed && overlapped {
        return Err(MemError::EINVAL);
    }
    let backing = if req.shared {
        if file {
            MmapBacking::SharedFile
        } else {
            MmapBacking::SharedAnonymous
        }
    } else if file {
        MmapBacking::PrivateFile
    } else {
        MmapBacking::PrivateAnonymous
    };
    Ok(MmapPlan::MapPages { addr, len, pages: len / PAGE_SIZE, backing, unmap_first: req.fixed && overlapped })
}

/// A mapping that `mmap` makes on LoongArch is whole pages, holds the
/// requested length, and ends inside the user address space.
pub proof fn lemma_mmap_within_user_space(req: MmapRequest, last_free: u64, fd_open: bool, overlapped: bool)
    requires
        req.len + PAGE_SIZE <= u64::MAX,
    ensures
        mmap_plan_spec(req, last_free, fd_open, overlapped, true) matches Ok(MmapPlan::MapPages { addr, len, pages, .. }) ==> {
            &&& len % PAGE_SIZE == 0
            &&& len >= req.len
            &&& pages * PAGE_SIZE == len
            &&& addr + len <= USER_VADDR_MAX
        },
{
    let l = page_up(req.len as int);
    assert(l % 4096 == 0 && l >= req.len && (l / 4096) * 4096 == l) by (nonlinear_arith)
        requires
            l == ((req.len + 4096 - 1) / 4096 as int) * 4096,
            req.len >= 0,
    ;
}

/// Kind of the memory area a mapping with this backing creates.
pub fn backing_area_type(backing: MmapBacking) -> (r: MemType)
    ensures
        r == match backing {
            MmapBacking::SharedFile => MemType::ShareFile,
            MmapBacking::SharedAnonymous => MemType::Shared,
            MmapBacking::PrivateFile => MemType::Mmap,
            MmapBacking::PrivateAnonymous => MemType::Mmap,
        },
{
    match backing {
        MmapBacking::SharedFile => MemType::ShareFile,
        MmapBacking::SharedAnonymous => MemType::Shared,
        MmapBacking::PrivateFile => MemType::Mmap,
        MmapBacking::PrivateAnonymous => MemType::Mmap,
    }
}

/// The answer of `mmap` once the frames a mapping needs at once (shared
/// mappings and private file copies) were asked for: the mapping's address
/// when they were `allocated`, else `ENOMEM`.
pub fn mmap_alloc_result(addr: u64, allocated: bool) -> (r: Result<u64, MemError>)
    ensures
        r == if allocated {
            Ok::<u64, MemError>(addr)
        } else {
            Err::<u64, MemError>(MemError::ENOMEM)
        },
{
    if allocated {
        Ok(addr)
    } else {
        Err(MemError::ENOMEM)
    }
}

/// Where a mapping goes and how it is backed: a hint is used as given, and
/// without one the mapping goes at or above both the mapping area and the
/// first free address; a mapping is shared exactly when `MAP_SHARED` asks
/// for it, and backed by a file exactly when it maps one.
pub proof fn lemma_mmap_place_and_backing(start: u64, last_free: u64, shared: bool, file: bool)
    ensures
        start != 0 ==> mmap_addr_spec(start, last_free) == start,
        start == 0 ==> mmap_addr_spec(start, last_free) >= MAP_AREA_START && mmap_addr_spec(start, last_free)
            >= last_free && (mmap_addr_spec(start, last_free) == MAP_AREA_START || mmap_addr_spec(
            start,
            last_free,
        ) == last_free),
        (backing_spec(shared, file) == MmapBacking::SharedFile || backing_spec(shared, file)
            == MmapBacking::SharedAnonymous) <==> shared,
        (backing_spec(shared, file) == MmapBacking::SharedFile || backing_spec(shared, file)
            == MmapBacking::PrivateFile) <==> file,
{
}

} // verus!
