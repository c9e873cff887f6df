//! Platform hooks of the AHCI driver on LoongArch64: the cached direct-mapped
//! window and DMA allocation sizes.

use vstd::prelude::*;

verus! {

/// Start of the cached direct-mapped window.
pub const DIRECT_MAP_BASE: u64 = 0x9000000000000000;

/// Page size of the DMA allocator.
pub const DMA_PAGE_SIZE: usize = 4096;

/// Initialises platform resources; nothing is needed on this board.
pub fn ahci_platform_init() -> (r: Result<(), &'static str>)
    ensures
        r is Ok,
{
    Ok(())
}

/// Physical address of a virtual address: direct-mapped addresses lose the
/// window base, others are already physical.
pub fn ahci_platform_virt_to_phys(virt_addr: usize) -> (r: usize)
    requires
        usize::MAX == u64::MAX,
    ensures
        r == if virt_addr >= DIRECT_MAP_BASE {
            (virt_addr - DIRECT_MAP_BASE) as usize
        } else {
            virt_addr
        },
{
    let v: u64 = virt_addr as u64;
    if v >= DIRECT_MAP_BASE {
        (v - DIRECT_MAP_BASE) as usize
    } else {
        virt_addr
    }
}

/// Virtual address of a physical address in the direct-mapped window;
/// addresses already in the window are returned as they are.
pub fn ahci_platform_phys_to_virt(phys_addr: usize) -> (r: usize)
    requires
        usize::MAX == u64::MAX,
        phys_addr < DIRECT_MAP_BASE ==> phys_addr + DIRECT_MAP_BASE <= u64::MAX,
    ensures
        r == if phys_addr < DIRECT_MAP_BASE {
            (phys_addr + DIRECT_MAP_BASE) as usize
        } else {
            phys_addr
        },
{
    let p: u64 = phys_addr as u64;
    if p < DIRECT_MAP_BASE {
        (p + DIRECT_MAP_BASE) as usize
    } else {
        phys_addr
    }
}

/// Mapping a physical address into the window and back gives it again, and a
/// window address mapped out and back in is unchanged.
pub proof fn lemma_platform_round_trip(p: usize, v: usize)
    requires
        usize::MAX == u64::MAX,
        p < 0x7000000000000000,
        v >= DIRECT_MAP_BASE,
    ensures
        (p + DIRECT_MAP_BASE) as usize >= DIRECT_MAP_BASE,
        ((p + DIRECT_MAP_BASE) - DIRECT_MAP_BASE) as usize == p,
        (v - DIRECT_MAP_BASE) < DIRECT_MAP_BASE ==> ((v - DIRECT_MAP_BASE) + DIRECT_MAP_BASE) as usize == v,
{
}

/// Number of pages of a DMA allocation of `size` bytes.
pub fn ahci_platform_dma_pages(size: usize) -> (r: usize)
    requires
        size + DMA_PAGE_SIZE <= usize::MAX,
    ensures
        r == (size + DMA_PAGE_SIZE - 1) / DMA_PAGE_SIZE as int,
        r * DMA_PAGE_SIZE >= size,
{
    let r = (size + DMA_PAGE_SIZE - 1) / DMA_PAGE_SIZE;
    assert(r * DMA_PAGE_SIZE >= size) by (nonlinear_arith)
        requires
            r == (size + DMA_PAGE_SIZE - 1) / DMA_PAGE_SIZE as int,
            DMA_PAGE_SIZE == 4096,
    ;
    r
}

} // verus!
