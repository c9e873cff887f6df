//! Platform helpers of the AHCI driver on LoongArch64: address-window
//! translation and a busy-wait delay.

use vstd::prelude::*;

verus! {

/// Base of the uncached direct-mapped window.
pub const UNCACHED_WINDOW: u64 = 0x8000_0000_0000_0000;
/// Base of the cached direct-mapped window.
pub const CACHED_WINDOW: u64 = 0x9000_0000_0000_0000;

/// Physical address of a direct-mapped virtual address: the cached window is
/// checked first, then the uncached one; any other address is returned as is.
pub open spec fn virt_to_phys_spec(va: u64) -> u64 {
    if va >= CACHED_WINDOW {
        (va - CACHED_WINDOW) as u64
    } else if va >= UNCACHED_WINDOW {
        (va - UNCACHED_WINDOW) as u64
    } else {
        va
    }
}

/// Hints the processor that the caller is spinning.
#[verifier::external_body]
fn spin_hint() {
    core::hint::spin_loop();
}

/// Busy-waits for roughly `ms` milliseconds (`ms * 1000` spin hints).
pub fn ahci_mdelay(ms: u32)
    requires
        ms * 1000 <= u32::MAX,
{
    let n: u32 = ms * 1000;
    let mut i: u32 = 0;
    while i < n
        invariant
            i <= n,
        decreases n - i,
    {
        spin_hint();
        i = i + 1;
    }
}

/// Maps a physical address into the uncached window by setting the top bit.
pub fn ahci_phys_to_uncached(pa: u64) -> (r: u64)
    ensures
        r == pa | UNCACHED_WINDOW,
        pa < UNCACHED_WINDOW ==> r == pa + UNCACHED_WINDOW,
{
    let r = pa | 0x8000_0000_0000_0000u64;
    assert(pa < 0x8000_0000_0000_0000u64 ==> (pa | 0x8000_0000_0000_0000u64) == pa
        + 0x8000_0000_0000_0000u64) by (bit_vector);
    r
}

/// Physical address behind a cached or uncached direct-mapped virtual address.
pub fn ahci_virt_to_phys(va: u64) -> (r: u64)
    ensures
        r == virt_to_phys_spec(va),
{
    if va >= 0x9000_0000_0000_0000u64 {
        return va - 0x9000_0000_0000_0000u64;
    }
    if va >= 0x8000_0000_0000_0000u64 {
        return va - 0x8000_0000_0000_0000u64;
    }
    va
}

/// Translating an uncached mapping back gives the physical address again.
pub proof fn lemma_uncached_round_trip(pa: u64)
    requires
        pa < CACHED_WINDOW - UNCACHED_WINDOW,
    ensures
        virt_to_phys_spec((pa | UNCACHED_WINDOW) as u64) == pa,
{
    assert(pa < 0x1000_0000_0000_0000u64 ==> (pa | 0x8000_0000_0000_0000u64) == pa
        + 0x8000_0000_0000_0000u64) by (bit_vector);
}

/// Pages of 4 KiB that a DMA allocation of `size` bytes takes.
pub fn ahci_malloc_pages(size: u64) -> (r: u64)
    requires
        size + 4095 <= u64::MAX,
    ensures
        r == (size + 4095) / 4096,
        r * 4096 >= size,
{
    let r = (size + 4095) / 4096;
    assert(r * 4096 >= size) by (nonlinear_arith)
        requires
            r == (size + 4095) / 4096,
    ;
    r
}

/// The static, aligned buffers that DMA allocation falls back on when the
/// frame allocator fails.
#[derive(Copy, Clone, Debug, PartialEq, Eq, Structural)]
pub enum StaticDmaBuffer {
    /// 1 KiB command-list buffer (handed out once).
    CommandList,
    /// 256-byte received-FIS buffer (handed out once).
    ReceivedFis,
    /// 512-byte identify buffer (handed out again and again).
    Identify,
    /// 8 KiB command-table buffer (handed out once).
    CommandTables,
}

/// Which of the static buffers have been handed out.
#[derive(Copy, Clone)]
pub struct StaticDmaPool {
    pub cl_used: bool,
    pub fis_used: bool,
    pub ct_used: bool,
}

impl StaticDmaPool {
    /// The buffer `take(size)` hands out from this pool.
    pub open spec fn take_spec(self, size: u64) -> Option<StaticDmaBuffer> {
        if size <= 1024 && !self.cl_used {
            Some(StaticDmaBuffer::CommandList)
        } else if size <= 256 && !self.fis_used {
            Some(StaticDmaBuffer::ReceivedFis)
        } else if size <= 512 {
            Some(StaticDmaBuffer::Identify)
        } else if size <= 256 * 32 && !self.ct_used {
            Some(StaticDmaBuffer::CommandTables)
        } else {
            None
        }
    }

    /// The pool after `take(size)`.
    pub open spec fn after_take(self, size: u64) -> StaticDmaPool {
        let r = self.take_spec(size);
        StaticDmaPool {
            cl_used: self.cl_used || r == Some(StaticDmaBuffer::CommandList),
            fis_used: self.fis_used || r == Some(StaticDmaBuffer::ReceivedFis),
            ct_used: self.ct_used || r == Some(StaticDmaBuffer::CommandTables),
        }
    }

    /// No buffer handed out yet.
    pub fn new() -> (r: Self)
        ensures
            !r.cl_used && !r.fis_used && !r.ct_used,
    {
        StaticDmaPool { cl_used: false, fis_used: false, ct_used: false }
    }

    /// The static buffer for an allocation of `size` bytes: the first unused
    /// one-shot buffer large enough, in the order command list, FIS, identify
    /// (always available for up to 512 bytes), command tables; `None` when
    /// none fits (the allocation then fails with address 0).
    pub fn take(&mut self, size: u64) -> (r: Option<StaticDmaBuffer>)
        ensures
            r == old(self).take_spec(size),
            *final(self) == old(self).after_take(size),
            final(self).cl_used == (old(self).cl_used || r == Some(StaticDmaBuffer::CommandList)),
            final(self).fis_used == (old(self).fis_used || r == Some(StaticDmaBuffer::ReceivedFis)),
            final(self).ct_used == (old(self).ct_used || r == Some(StaticDmaBuffer::CommandTables)),
            // a one-shot buffer already handed out is not handed out again
            old(self).cl_used ==> r != Some(StaticDmaBuffer::CommandList),
            old(self).fis_used ==> r != Some(StaticDmaBuffer::ReceivedFis),
            old(self).ct_used ==> r != Some(StaticDmaBuffer::CommandTables),
    {
        if size <= 1024 && !self.cl_used {
            self.cl_used = true;
            return Some(StaticDmaBuffer::CommandList);
        }
        if size <= 256 && !self.fis_used {
            self.fis_used = true;
            return Some(StaticDmaBuffer::ReceivedFis);
        }
        if size <= 512 {
            return Some(StaticDmaBuffer::Identify);
        }
        if size <= (256 * 32) as u64 && !self.ct_used {
            self.ct_used = true;
            return Some(StaticDmaBuffer::CommandTables);
        }
        None
    }
}

/// A one-shot fallback buffer is handed out at most once: once a request
/// got it, no later request does.
pub proof fn lemma_one_shot_buffers(pool: StaticDmaPool, first: u64, later: u64)
    ensures
        pool.take_spec(first) == Some(StaticDmaBuffer::CommandList) ==> pool.after_take(first).take_spec(later)
            != Some(StaticDmaBuffer::CommandList),
        pool.take_spec(first) == Some(StaticDmaBuffer::ReceivedFis) ==> pool.after_take(first).take_spec(later)
            != Some(StaticDmaBuffer::ReceivedFis),
        pool.take_spec(first) == Some(StaticDmaBuffer::CommandTables) ==> pool.after_take(first).take_spec(later)
            != Some(StaticDmaBuffer::CommandTables),
{
}

/// Where a DMA allocation came from.
#[derive(Copy, Clone, Debug, PartialEq, Eq, Structural)]
pub enum DmaAllocation {
    /// Frames of the frame allocator, starting at this physical address.
    Frames(u64),
    /// One of the static fallback buffers (to be zeroed before use).
    Static(StaticDmaBuffer),
    /// Nothing could be allocated (address 0).
    Failed,
}

/// Allocates `size` bytes for DMA, given what the frame allocator answered:
/// `batch` is the first frame of a run of `(size + 4095) / 4096` frames, and
/// `single` a single frame, asked for only when the run failed and one page
/// suffices. When both fail, the static fallback buffers are tried.
pub fn ahci_malloc_align(
    pool: &mut StaticDmaPool,
    size: u64,
    batch: Option<u64>,
    single: Option<u64>,
) -> (r: DmaAllocation)
    requires
        size + 4095 <= u64::MAX,
    ensures
        match batch {
            Some(a) => r == DmaAllocation::Frames(a) && *final(pool) == *old(pool),
            None => if (size + 4095) / 4096 == 1 && single is Some {
                r == DmaAllocation::Frames(single->0) && *final(pool) == *old(pool)
            } else {
                match r {
                    DmaAllocation::Static(b) => Some(b) == old(pool).take_spec(size) && *final(pool)
                        == old(pool).after_take(size),
                    DmaAllocation::Failed => old(pool).take_spec(size) is None && *final(pool)
                        == *old(pool),
                    DmaAllocation::Frames(_) => false,
                }
            },
        },
{
    if let Some(a) = batch {
        return DmaAllocation::Frames(a);
    }
    let pages = ahci_malloc_pages(size);
    if pages == 1 {
        if let Some(a) = single {
            return DmaAllocation::Frames(a);
        }
    }
    match pool.take(size) {
        Some(b) => DmaAllocation::Static(b),
        None => DmaAllocation::Failed,
    }
}

} // verus!
