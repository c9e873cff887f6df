//! PCI BAR address assignment for VirtIO devices on LoongArch64: alignment,
//! the bump allocator over the 32-bit and 64-bit memory windows, and the walk
//! over a function's six BARs.

use vstd::prelude::*;

verus! {

pub const LOONGARCH64_PCI_MEMORY32_START: u64 = 0x5800_0000;
pub const LOONGARCH64_PCI_MEMORY32_END: u64 = 0x8000_0000;
pub const LOONGARCH64_PCI_MEMORY64_START: u64 = 0x1000_0000_0000;

/// `addr` rounded up with the mask of `align` (a power of two for a true
/// alignment).
pub open spec fn align_up_spec(addr: u64, align: u64) -> u64 {
    ((addr + align - 1) as u64) & !((align - 1) as u64)
}

/// Rounds `addr` up to a multiple of the power of two `align`.
pub fn align_up(addr: u64, align: u64) -> (r: u64)
    requires
        align >= 1,
        addr + align <= u64::MAX,
    ensures
        r == align_up_spec(addr, align),
{
    (addr + align - 1) & !(align - 1)
}

/// For a power of two `1 << k`, `align_up` gives the least multiple of it at
/// or above `addr`: no lower bits set, at most `(1 << k) - 1` above `addr`.
pub proof fn lemma_align_up_pow2(addr: u64, k: u64)
    requires
        k < 64,
        addr + (1u64 << k) <= u64::MAX,
    ensures
        align_up_spec(addr, 1u64 << k) >= addr,
        align_up_spec(addr, 1u64 << k) - addr < (1u64 << k),
        align_up_spec(addr, 1u64 << k) & (((1u64 << k) - 1) as u64) == 0,
{
    let a = 1u64 << k;
    assert(a >= 1) by (bit_vector)
        requires
            a == 1u64 << k,
            k < 64,
    ;
    let s = (addr + a - 1) as u64;
    let m = (a - 1) as u64;
    let r = s & !m;
    assert(r <= s) by (bit_vector)
        requires
            r == s & !m,
    ;
    assert((s - r) as u64 == s & m) by (bit_vector)
        requires
            r == s & !m,
    ;
    assert(s & m <= m) by (bit_vector);
    assert(r & m == 0) by (bit_vector)
        requires
            r == s & !m,
    ;
}

/// Bump allocator of BAR addresses: the 32-bit memory window first, then the
/// 64-bit one.
pub struct BarAllocator {
    pub next: u64,
}

/// The requests the allocator computes without overflow: a nonzero size
/// whose rounding of `next`, and the end of the region placed there, fit in
/// 64 bits, and, when the request falls through to the 64-bit window, the
/// same at the window's start.
pub open spec fn bar_fits(next: u64, size: u64) -> bool {
    &&& size >= 1
    &&& next + size <= u64::MAX
    &&& align_up_spec(next, size) + size <= u64::MAX
    &&& (align_up_spec(next, size) + size > LOONGARCH64_PCI_MEMORY32_END && next
        < LOONGARCH64_PCI_MEMORY64_START) ==> {
        &&& LOONGARCH64_PCI_MEMORY64_START + size <= u64::MAX
        &&& align_up_spec(LOONGARCH64_PCI_MEMORY64_START, size) + size <= u64::MAX
    }
}

/// The address `allocate_bar_address(size)` hands out from `next`.
pub open spec fn bar_alloc_spec(next: u64, size: u64) -> Option<u64> {
    let a32 = align_up_spec(next, size);
    if a32 + size <= LOONGARCH64_PCI_MEMORY32_END {
        Some(a32)
    } else if next < LOONGARCH64_PCI_MEMORY64_START {
        Some(align_up_spec(LOONGARCH64_PCI_MEMORY64_START, size))
    } else {
        None
    }
}

/// The allocator's next address after `allocate_bar_address(size)`.
pub open spec fn bar_next_spec(next: u64, size: u64) -> u64 {
    match bar_alloc_spec(next, size) {
        Some(a) => (a + size) as u64,
        None => next,
    }
}

impl BarAllocator {
    /// A fresh allocator at the start of the 32-bit window.
    pub fn new() -> (r: Self)
        ensures
            r.next == LOONGARCH64_PCI_MEMORY32_START,
    {
        BarAllocator { next: LOONGARCH64_PCI_MEMORY32_START }
    }

    /// Allocates `size` bytes aligned to `size`: in the 32-bit window while it
    /// fits, else (once) from the start of the 64-bit window, else nothing.
    pub fn allocate_bar_address(&mut self, size: u64) -> (r: Option<u64>)
        requires
            bar_fits(old(self).next, size),
        ensures
            r == bar_alloc_spec(old(self).next, size),
            final(self).next == bar_next_spec(old(self).next, size),
            r matches Some(a) ==> a + size <= u64::MAX,
    {
        let next = self.next;
        let aligned_addr = align_up(next, size);
        proof {
            let sum = (next + size - 1) as u64;
            let m = (size - 1) as u64;
            assert(aligned_addr <= sum) by (bit_vector)
                requires
                    aligned_addr == sum & !m,
            ;
        }
        if aligned_addr + size <= LOONGARCH64_PCI_MEMORY32_END {
            self.next = aligned_addr + size;
            Some(aligned_addr)
        } else {
            if self.next < LOONGARCH64_PCI_MEMORY64_START {
                self.next = LOONGARCH64_PCI_MEMORY64_START;
                let next64 = self.next;
                let aligned_addr = align_up(next64, size);
                proof {
                    let sum = (next64 + size - 1) as u64;
                    let m = (size - 1) as u64;
                    assert(aligned_addr <= sum) by (bit_vector)
                        requires
                            aligned_addr == sum & !m,
                    ;
                }
                self.next = aligned_addr + size;
                Some(aligned_addr)
            } else {
                None
            }
        }
    }
}

/// Allocating a power-of-two size gives an address aligned to that size, at
/// or above everything handed out before (the allocator's next address), and
/// moves the next address past the region: regions never overlap.
pub proof fn lemma_bar_alloc_fresh(next: u64, k: u64)
    requires
        k < 64,
        bar_fits(next, 1u64 << k),
    ensures
        bar_alloc_spec(next, 1u64 << k) matches Some(a) ==> {
            &&& a >= next
            &&& a & (((1u64 << k) - 1) as u64) == 0
            &&& bar_next_spec(next, 1u64 << k) == a + (1u64 << k)
        },
{
    lemma_align_up_pow2(next, k);
    if align_up_spec(next, 1u64 << k) + (1u64 << k) > LOONGARCH64_PCI_MEMORY32_END && next
        < LOONGARCH64_PCI_MEMORY64_START {
        lemma_align_up_pow2(LOONGARCH64_PCI_MEMORY64_START, k);
    }
}

/// Allocating regions of sizes `1 << exps[0]`, ..., `1 << exps[n - 1]` in
/// turn from an allocator at `next0`: what each request got, and the next
/// address after them.
pub open spec fn bar_run(next0: u64, exps: Seq<u64>, n: int) -> (Seq<Option<u64>>, u64)
    decreases n,
{
    if n <= 0 {
        (Seq::empty(), next0)
    } else {
        let prev = bar_run(next0, exps, n - 1);
        let size = 1u64 << exps[n - 1];
        (prev.0.push(bar_alloc_spec(prev.1, size)), bar_next_spec(prev.1, size))
    }
}

/// Every request of the run is a power of two that the allocator computes
/// without overflow.
pub open spec fn bar_run_fits(next0: u64, exps: Seq<u64>, n: int) -> bool {
    forall|k: int|
        0 <= k < n ==> (#[trigger] exps[k]) < 64 && bar_fits(bar_run(next0, exps, k).1, 1u64 << exps[k])
}

proof fn lemma_bar_run_len(next0: u64, exps: Seq<u64>, n: int)
    requires
        0 <= n,
    ensures
        bar_run(next0, exps, n).0.len() == n,
    decreases n,
{
    if n > 0 {
        lemma_bar_run_len(next0, exps, n - 1);
    }
}

/// Over any run of power-of-two requests, every address handed out is
/// aligned to its size, lies below the allocator's next address, and no two
/// regions handed out overlap: an earlier one ends at or before a later one
/// starts.
pub proof fn lemma_bar_run_disjoint(next0: u64, exps: Seq<u64>, n: int)
    requires
        0 <= n <= exps.len(),
        bar_run_fits(next0, exps, n),
    ensures
        bar_run(next0, exps, n).0.len() == n,
        bar_run(next0, exps, n).1 >= next0,
        forall|i: int|
            0 <= i < n ==> (#[trigger] bar_run(next0, exps, n).0[i] matches Some(a) ==> a
                >= next0 && a & (((1u64 << exps[i]) - 1) as u64) == 0 && a + (1u64 << exps[i])
                <= bar_run(next0, exps, n).1),
        forall|i: int, j: int|
            0 <= i < j < n ==> (#[trigger] bar_run(next0, exps, n).0[i] matches Some(a) ==> (
            #[trigger] bar_run(next0, exps, n).0[j] matches Some(b) ==> a + (1u64 << exps[i]) <= b)),
    decreases n,
{
    lemma_bar_run_len(next0, exps, n);
    if n > 0 {
        lemma_bar_run_disjoint(next0, exps, n - 1);
        let prev = bar_run(next0, exps, n - 1);
        let cur = bar_run(next0, exps, n);
        let e = exps[n - 1];
        assert(e < 64 && bar_fits(prev.1, 1u64 << e));
        lemma_bar_alloc_fresh(prev.1, e);
        assert(bar_next_spec(prev.1, 1u64 << e) >= prev.1);
        assert forall|i: int| 0 <= i < n implies (#[trigger] cur.0[i] matches Some(a) ==> a >= next0
            && a & (((1u64 << exps[i]) - 1) as u64) == 0 && a + (1u64 << exps[i]) <= cur.1) by {
            if i < n - 1 {
                assert(cur.0[i] == prev.0[i]);
            }
        }
        assert forall|i: int, j: int| 0 <= i < j < n implies (#[trigger] cur.0[i] matches Some(a) ==> (
            #[trigger] cur.0[j] matches Some(b) ==> a + (1u64 << exps[i]) <= b)) by {
            assert(cur.0[i] == prev.0[i]);
            if j < n - 1 {
                assert(cur.0[j] == prev.0[j]);
            } else {
                if let Some(a) = prev.0[i] {
                    assert(a + (1u64 << exps[i]) <= prev.1);
                }
            }
        }
    }
}

/// Whether a mapped memory BAR lies in one of the expected windows.
pub fn bar_address_expected(address: u64) -> (r: bool)
    ensures
        r == !(address < 0x5800_0000 || (0x8000_0000 <= address < 0x1000_0000_0000)),
{
    !(address < 0x5800_0000 || (address >= 0x8000_0000 && address < 0x1000_0000_0000))
}

/// What the configuration space says of one BAR.
#[derive(Copy, Clone)]
pub enum BarKind {
    /// A memory BAR; `width64` is `Some(true)` for a 64-bit BAR, `Some(false)`
    /// for a 32-bit one and `None` for another type.
    Memory { size: u64, address: u64, width64: Option<bool> },
    /// An I/O BAR.
    Io { size: u64, address: u64 },
    /// The BAR could not be read.
    Unavailable,
}

/// What to write for one BAR.
#[derive(Copy, Clone, Debug, PartialEq, Eq, Structural)]
pub enum BarWrite {
    Nothing,
    Bar32(u32),
    Bar64(u64),
}

/// One step of the walk over BARs 0-5: what to write for BAR `bar_index` of
/// kind `kind`, and the index of the next BAR to look at: a BAR that needs
/// an address gets one from the allocator, a 64-bit BAR consumes two slots.
pub fn assign_bar_step(alloc: &mut BarAllocator, bar_index: u8, kind: BarKind) -> (r: (BarWrite, u8))
    requires
        bar_index < 6,
        match kind {
            BarKind::Memory { size, .. } => bar_fits(old(alloc).next, size) || size == 0,
            BarKind::Io { size, .. } => bar_fits(old(alloc).next, size) || size == 0,
            BarKind::Unavailable => true,
        },
    ensures
        bar_index < r.1 <= bar_index + 2,
        match kind {
            BarKind::Memory { size, address, width64 } => if size > 0 && address == 0 {
                final(alloc).next == bar_next_spec(old(alloc).next, size) && r == match bar_alloc_spec(old(alloc).next, size) {
                    Some(a) => match width64 {
                        Some(false) => (BarWrite::Bar32(a as u32), (bar_index + 1) as u8),
                        Some(true) => (BarWrite::Bar64(a), (bar_index + 2) as u8),
                        None => (BarWrite::Nothing, (bar_index + 1) as u8),
                    },
                    None => (BarWrite::Nothing, (bar_index + 1) as u8),
                }
            } else {
                r == (BarWrite::Nothing, (bar_index + 1) as u8) && *final(alloc) == *old(alloc)
            },
            BarKind::Io { size, address } => if size > 0 && address == 0 {
                final(alloc).next == bar_next_spec(old(alloc).next, size) && r == match bar_alloc_spec(old(alloc).next, size) {
                    Some(a) => (BarWrite::Bar32(a as u32), (bar_index + 1) as u8),
                    None => (BarWrite::Nothing, (bar_index + 1) as u8),
                }
            } else {
                r == (BarWrite::Nothing, (bar_index + 1) as u8) && *final(alloc) == *old(alloc)
            },
            BarKind::Unavailable => r == (BarWrite::Nothing, (bar_index + 1) as u8) && *final(alloc) == *old(alloc),
        },
{
    match kind {
        BarKind::Memory { size, address, width64 } => {
            if size > 0 && address == 0 {
                match alloc.allocate_bar_address(size) {
                    Some(a) => match width64 {
                        Some(false) => (BarWrite::Bar32(a as u32), bar_index + 1),
                        Some(true) => (BarWrite::Bar64(a), bar_index + 2),
                        None => (BarWrite::Nothing, bar_index + 1),
                    },
                    None => (BarWrite::Nothing, bar_index + 1),
                }
            } else {
                // already assigned, empty, or the high half of a 64-bit BAR
                (BarWrite::Nothing, bar_index + 1)
            }
        },
        BarKind::Io { size, address } => {
            if size > 0 && address == 0 {
                match alloc.allocate_bar_address(size) {
                    Some(a) => (BarWrite::Bar32(a as u32), bar_index + 1),
                    None => (BarWrite::Nothing, bar_index + 1),
                }
            } else {
                (BarWrite::Nothing, bar_index + 1)
            }
        },
        BarKind::Unavailable => (BarWrite::Nothing, bar_index + 1),
    }
}

} // verus!
