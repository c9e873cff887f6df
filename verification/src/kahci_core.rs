//! Bring-up of the single-port AHCI controller of the LS2K1000 board: what
//! the driver records from the registers it reads, and its sector read and
//! write entry points.

use vstd::prelude::*;
use crate::libahci::{ahci_blk_dev, ahci_device, ahci_ioport, SATA_FLAG_FLUSH_EXT, SATA_FLAG_WCACHE};
use crate::kahci_platform::ahci_phys_to_uncached;
use crate::drv_ahci;
use crate::drv_ahci::{fis, rw_range_ok, AhciCommand, AtaRwTransfer};
use crate::libahci::{READ_CMD, WRITE_CMD};
use crate::libata::ATA_CMD_FLUSH_EXT;

verus! {

/// Physical base of the controller's registers on the board.
pub const AHCI_PHYS_BASE: u64 = 0x400e0000;

/// The register values that bring-up reads, in the order it reads them:
/// the four capability registers and the global host control register, then
/// (after enabling AHCI) port 0's SATA status when port 0 is implemented.
#[derive(Copy, Clone)]
pub struct KahciInitRegs {
    pub cap: u32,
    pub cap2: u32,
    pub version: u32,
    pub port_map: u32,
    pub ghc: u32,
    pub port0_ssts: u32,
}

/// The two values written to the global host control register: AHCI enable,
/// then AHCI enable with interrupts.
pub fn ahci_host_enable(ghc: u32) -> (r: (u32, u32))
    ensures
        r.0 == ghc | 0x8000_0000u32,
        r.1 == ghc | 0x8000_0000u32 | 0x2u32,
{
    assert((1u32 << 31u32) == 0x8000_0000u32 && (1u32 << 1u32) == 2u32) by (bit_vector);
    (ghc | (1 << 31), ghc | (1 << 31) | (1 << 1))
}

/// Records the capability registers.
pub fn ahci_host_init(ahci_dev: &mut ahci_device, regs: &KahciInitRegs) -> (r: i32)
    ensures
        r == 0,
        *final(ahci_dev) == (ahci_device {
            cap: regs.cap,
            cap2: regs.cap2,
            version: regs.version,
            port_map: regs.port_map,
            ..*old(ahci_dev)
        }),
{
    ahci_dev.cap = regs.cap;
    ahci_dev.cap2 = regs.cap2;
    ahci_dev.version = regs.version;
    ahci_dev.port_map = regs.port_map;
    0
}

/// `e` is `d` after the port scan has selected port 0: one port, port 0's
/// registers 0x100 past the host's, and the link-up map set to port 0 when
/// `linked`.
pub open spec fn scanned(d: ahci_device, e: ahci_device, linked: bool) -> bool {
    &&& e.port_idx == 0
    &&& e.n_ports == 1
    &&& e.port[0] == (ahci_ioport { port_mmio: (d.mmio_base + 0x100) as u64, ..d.port[0] })
    &&& forall|i: int| 1 <= i < 32 ==> e.port[i] == d.port[i]
    &&& e.port_map_linkup == if linked {
        1
    } else {
        d.port_map_linkup
    }
    &&& e.mmio_base == d.mmio_base
    &&& e.flags == d.flags
    &&& e.cap == d.cap
    &&& e.cap2 == d.cap2
    &&& e.version == d.version
    &&& e.port_map == d.port_map
    &&& e.pio_mask == d.pio_mask
    &&& e.udma_mask == d.udma_mask
    &&& e.blk_dev == d.blk_dev
}

/// Uses port 0 when it is implemented and has an established link; fails
/// with -1 otherwise. The port fields are set before the link is checked.
pub fn ahci_port_scan(ahci_dev: &mut ahci_device, ssts: u32) -> (r: i32)
    requires
        old(ahci_dev).mmio_base + 0x100 <= u64::MAX,
    ensures
        old(ahci_dev).port_map & 1 == 0 ==> r == -1 && *final(ahci_dev) == *old(ahci_dev),
        old(ahci_dev).port_map & 1 != 0 && ssts & 0xf != 3 ==> r == -1 && scanned(
            *old(ahci_dev),
            *final(ahci_dev),
            false,
        ),
        old(ahci_dev).port_map & 1 != 0 && ssts & 0xf == 3 ==> r == 0 && scanned(
            *old(ahci_dev),
            *final(ahci_dev),
            true,
        ),
{
    let port_map: u32 = ahci_dev.port_map;
    if port_map & 1 == 0 {
        return -1;
    }
    ahci_dev.port_idx = 0;
    ahci_dev.n_ports = 1;
    let port_mmio: u64 = ahci_dev.mmio_base + 0x100;
    let mut p: ahci_ioport = ahci_dev.port[0];
    p.port_mmio = port_mmio;
    ahci_dev.port[0] = p;
    if (ssts & 0xF) != 0x3 {
        return -1;
    }
    ahci_dev.port_map_linkup = 1;
    0
}

/// When port 0 is linked, records the disk as an LBA48 disk of 512-byte
/// sectors with a fixed capacity of 1 Mi sectors.
pub fn ahci_sata_scan(ahci_dev: &mut ahci_device)
    ensures
        old(ahci_dev).port_map_linkup & 1 == 0 ==> *final(ahci_dev) == *old(ahci_dev),
        old(ahci_dev).port_map_linkup & 1 != 0 ==> {
            &&& final(ahci_dev).blk_dev.lba48
            &&& final(ahci_dev).blk_dev.blksz == 512
            &&& final(ahci_dev).blk_dev.lba == 1024 * 1024
            &&& final(ahci_dev).blk_dev.queue_depth == 1
            &&& forall|i: int| 0 <= i < 41 ==> final(ahci_dev).blk_dev.product[i] == 0
            &&& forall|i: int| 0 <= i < 21 ==> final(ahci_dev).blk_dev.serial[i] == 0
            &&& forall|i: int| 0 <= i < 9 ==> final(ahci_dev).blk_dev.revision[i] == 0
            &&& *final(ahci_dev) == (ahci_device { blk_dev: final(ahci_dev).blk_dev, ..*old(ahci_dev) })
        },
{
    if ahci_dev.port_map_linkup & 1 == 0 {
        return;
    }
    let mut b = ahci_blk_dev::default();
    b.lba48 = true;
    b.blksz = 512;
    b.lba = 1024 * 1024;
    ahci_dev.blk_dev = b;
}

/// Brings the controller up from the register values read: maps the
/// registers uncached, records the capabilities, scans port 0 and records the
/// disk. Returns -1 when port 0 is not usable, 0 otherwise.
pub fn ahci_init(ahci_dev: &mut ahci_device, regs: &KahciInitRegs) -> (r: i32)
    ensures
        final(ahci_dev).mmio_base == AHCI_PHYS_BASE | 0x8000_0000_0000_0000u64,
        final(ahci_dev).cap == regs.cap,
        final(ahci_dev).port_map == regs.port_map,
        r == 0 <==> (regs.port_map & 1 != 0 && regs.port0_ssts & 0xf == 3),
        r != 0 ==> r == -1,
        r == 0 ==> {
            &&& final(ahci_dev).port_idx == 0
            &&& final(ahci_dev).n_ports == 1
            &&& final(ahci_dev).port[0].port_mmio == final(ahci_dev).mmio_base + 0x100
            &&& final(ahci_dev).port_map_linkup == 1
            &&& final(ahci_dev).blk_dev.lba48
            &&& final(ahci_dev).blk_dev.blksz == 512
            &&& final(ahci_dev).blk_dev.lba == 1024 * 1024
        },
{
    ahci_dev.mmio_base = ahci_phys_to_uncached(AHCI_PHYS_BASE);
    assert(AHCI_PHYS_BASE < 0x8000_0000_0000_0000u64);
    let ret = ahci_host_init(ahci_dev, regs);
    if ret != 0 {
        return -1;
    }
    let ret = ahci_port_scan(ahci_dev, regs.port0_ssts);
    if ret != 0 {
        return -1;
    }
    assert(1u32 & 1u32 != 0u32) by (bit_vector);
    ahci_sata_scan(ahci_dev);
    0
}

/// Reads `blkcnt` sectors from sector `blknr` into `buffer`: begins the
/// transfer that issues the read commands (48-bit commands on an LBA48
/// disk, 28-bit ones otherwise), which the caller drives with
/// `next_command` and `complete` until it reports the sectors read.
pub fn ahci_sata_read_common(ahci_dev: &ahci_device, blknr: u64, blkcnt: u32, buffer: u64) -> (r: AtaRwTransfer)
    requires
        rw_range_ok(ahci_dev, blknr, blkcnt),
    ensures
        r.wf(),
        r.active,
        r.lba48 == ahci_dev.blk_dev.lba48,
        r.is_write == READ_CMD,
        r.blkcnt == blkcnt,
        r.blks == blkcnt,
        r.first == if r.lba48 {
            blknr
        } else {
            (blknr as u32) as u64
        },
        r.start == r.first,
        r.addr == buffer,
{
    drv_ahci::ahci_sata_read_common(ahci_dev, blknr, blkcnt, buffer)
}

/// Writes `blkcnt` sectors from `buffer` to sector `blknr`: begins the
/// transfer that issues the write commands, and gives the cache flush to
/// issue after it, which this controller sends only on an LBA48 disk whose
/// write cache is on and that supports FLUSH CACHE EXT.
pub fn ahci_sata_write_common(ahci_dev: &ahci_device, blknr: u64, blkcnt: u32, buffer: u64) -> (r: (
    AtaRwTransfer,
    Option<AhciCommand>,
))
    requires
        rw_range_ok(ahci_dev, blknr, blkcnt),
    ensures
        r.0.wf(),
        r.0.active,
        r.0.lba48 == ahci_dev.blk_dev.lba48,
        r.0.is_write == WRITE_CMD,
        r.0.blkcnt == blkcnt,
        r.0.blks == blkcnt,
        r.0.first == if r.0.lba48 {
            blknr
        } else {
            (blknr as u32) as u64
        },
        r.0.start == r.0.first,
        r.0.addr == buffer,
        match r.1 {
            None => !(ahci_dev.blk_dev.lba48 && ahci_dev.flags & SATA_FLAG_WCACHE != 0
                && ahci_dev.flags & SATA_FLAG_FLUSH_EXT != 0),
            Some(c) => ahci_dev.blk_dev.lba48 && ahci_dev.flags & SATA_FLAG_WCACHE != 0
                && ahci_dev.flags & SATA_FLAG_FLUSH_EXT != 0 && c.cfis == fis(ATA_CMD_FLUSH_EXT, 0, 0, 0,
                0, 0, 0, 0, 0, 0, 0) && c.buf == 0 && c.buf_len == 0 && c.port == ahci_dev.port_idx,
        },
{
    let (t, flush) = drv_ahci::ahci_sata_write_common(ahci_dev, blknr, blkcnt, buffer);
    if ahci_dev.blk_dev.lba48 {
        (t, flush)
    } else {
        (t, None)
    }
}

/// Capacity in bytes that the block-device view reports: sectors times
/// sector size.
pub fn ahci_capacity(ahci_dev: &ahci_device) -> (r: u64)
    requires
        ahci_dev.blk_dev.lba * ahci_dev.blk_dev.blksz <= u64::MAX,
    ensures
        r == ahci_dev.blk_dev.lba * ahci_dev.blk_dev.blksz,
{
    ahci_dev.blk_dev.lba * ahci_dev.blk_dev.blksz
}

/// Whole sectors in a buffer of `len` bytes, as the block-device view passes
/// them on (the count cut to 32 bits); `None` when that count is 0, and
/// nothing is transferred.
pub fn ahci_buffer_sectors(len: usize) -> (r: Option<u32>)
    ensures
        r == if ((len / 512) as u32) == 0 {
            None::<u32>
        } else {
            Some((len / 512) as u32)
        },
{
    let blkcnt: u32 = (len / 512) as u32;
    if blkcnt == 0 {
        None
    } else {
        Some(blkcnt)
    }
}

} // verus!
