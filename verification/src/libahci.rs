//! AHCI register offsets, flag values and the controller/port/disk records.

use vstd::prelude::*;

verus! {

pub const PORT_CMD_ICC_ACTIVE: u32 = 0x1 << 28;
pub const PORT_CMD_LIST_ON: u32 = 0x1 << 15;
pub const PORT_CMD_FIS_ON: u32 = 0x1 << 14;
pub const PORT_CMD_FIS_RX: u32 = 0x1 << 4;
pub const PORT_CMD_POWER_ON: u32 = 0x1 << 2;
pub const PORT_CMD_SPIN_UP: u32 = 0x1 << 1;
pub const PORT_CMD_START: u32 = 0x1 << 0;

pub const PORT_IRQ_TF_ERR: u32 = 0x1 << 30;
pub const PORT_IRQ_HBUS_ERR: u32 = 0x1 << 29;
pub const PORT_IRQ_HBUS_DATA_ERR: u32 = 0x1 << 28;
pub const PORT_IRQ_IF_ERR: u32 = 0x1 << 27;
pub const PORT_IRQ_BAD_PMP: u32 = 0x1 << 23;
pub const PORT_IRQ_PHYRDY: u32 = 0x1 << 22;
pub const PORT_IRQ_CONNECT: u32 = 0x1 << 6;
pub const PORT_IRQ_SG_DONE: u32 = 0x1 << 5;
pub const PORT_IRQ_UNK_FIS: u32 = 0x1 << 4;
pub const PORT_IRQ_SDB_FIS: u32 = 0x1 << 3;
pub const PORT_IRQ_DMAS_FIS: u32 = 0x1 << 2;
pub const PORT_IRQ_PIOS_FIS: u32 = 0x1 << 1;
pub const PORT_IRQ_D2H_REG_FIS: u32 = 0x1 << 0;
/// Default port interrupt mask: every error source plus the completion FISes.
pub const DEF_PORT_IRQ: u32 = PORT_IRQ_HBUS_ERR | PORT_IRQ_IF_ERR | PORT_IRQ_CONNECT | PORT_IRQ_PHYRDY
    | PORT_IRQ_UNK_FIS | PORT_IRQ_BAD_PMP | PORT_IRQ_TF_ERR | PORT_IRQ_HBUS_DATA_ERR | PORT_IRQ_SG_DONE
    | PORT_IRQ_SDB_FIS | PORT_IRQ_DMAS_FIS | PORT_IRQ_PIOS_FIS | PORT_IRQ_D2H_REG_FIS;

pub const PORT_LST_ADDR: u64 = 0x00;
pub const PORT_LST_ADDR_HI: u64 = 0x04;
pub const PORT_FIS_ADDR: u64 = 0x08;
pub const PORT_FIS_ADDR_HI: u64 = 0x0c;
pub const PORT_IRQ_STAT: u64 = 0x10;
pub const PORT_IRQ_MASK: u64 = 0x14;
pub const PORT_CMD: u64 = 0x18;
pub const PORT_TFDATA: u64 = 0x20;
pub const PORT_CMD_ISSUE: u64 = 0x38;
pub const PORT_SCR_STAT: u64 = 0x28;
pub const PORT_SCR_ERR: u64 = 0x30;

pub const HOST_CAP_SSS: u32 = 0x1 << 27;
pub const HOST_CAP_MPS: u32 = 0x1 << 28;

pub const HOST_RESET: u32 = 0x1 << 0;
pub const HOST_IRQ_EN: u32 = 0x1 << 1;
pub const HOST_AHCI_EN: u32 = 0x1 << 31;

pub const HOST_CAP: u64 = 0x0;
pub const HOST_CTL: u64 = 0x4;
pub const HOST_IRQ_STAT: u64 = 0x8;
pub const HOST_PORTS_IMPL: u64 = 0xC;
pub const HOST_VERSION: u64 = 0x10;
pub const HOST_CAP2: u64 = 0x24;

pub const AHCI_MAX_PORTS: u32 = 32;
pub const AHCI_MAX_SG: u32 = 56;
pub const AHCI_MAX_CMDS: u32 = 32;
pub const AHCI_CMD_SZ: u32 = 32;
pub const AHCI_CMD_SLOT_SZ: u32 = AHCI_MAX_CMDS * AHCI_CMD_SZ;
pub const AHCI_RX_FIS_SZ: u32 = 256;
pub const AHCI_CMD_TBL_HDR_SZ: u32 = 128;
pub const AHCI_CMD_TBL_SZ: u32 = AHCI_CMD_TBL_HDR_SZ + (AHCI_MAX_SG * 16);
pub const AHCI_PORT_PRIV_DMA_SZ: u32 = AHCI_CMD_SLOT_SZ + AHCI_CMD_TBL_SZ + AHCI_RX_FIS_SZ;
pub const AHCI_MAX_BYTES_PER_SG: u32 = 4 * 1024 * 1024;
pub const AHCI_MAX_BYTES_PER_TRANS: u32 = AHCI_MAX_SG * AHCI_MAX_BYTES_PER_SG;

pub const SATA_FLAG_FLUSH_EXT: u32 = 1024;
pub const SATA_FLAG_FLUSH: u32 = 512;
pub const SATA_FLAG_WCACHE: u32 = 256;

pub const READ_CMD: u32 = 0;
pub const WRITE_CMD: u32 = 1;

/// One entry of a port's command list.
#[derive(Copy, Clone)]
pub struct ahci_cmd_hdr {
    pub opts: u32,
    pub status: u32,
    pub tbl_addr_lo: u32,
    pub tbl_addr_hi: u32,
    pub reserved: [u32; 4],
}

/// One scatter/gather (PRD) entry of a command table.
#[derive(Copy, Clone)]
pub struct ahci_sg {
    pub addr_lo: u32,
    pub addr_hi: u32,
    pub reserved: u32,
    pub flags_size: u32,
}

/// Per-port DMA areas. The command list and the scatter/gather table are
/// held by their virtual addresses.
#[derive(Copy, Clone)]
pub struct ahci_ioport {
    pub port_mmio: u64,
    pub cmd_slot: u64,
    pub cmd_slot_dma: u64,
    pub rx_fis: u64,
    pub rx_fis_dma: u64,
    pub cmd_tbl: u64,
    pub cmd_tbl_dma: u64,
    pub cmd_tbl_sg: u64,
}

/// The SATA disk behind the enabled port.
#[derive(Copy, Clone)]
pub struct ahci_blk_dev {
    pub lba48: bool,
    pub lba: u64,
    pub blksz: u64,
    pub queue_depth: u32,
    pub product: [u8; 41],
    pub serial: [u8; 21],
    pub revision: [u8; 9],
}

/// The AHCI controller.
#[derive(Copy, Clone)]
pub struct ahci_device {
    pub mmio_base: u64,
    pub flags: u32,
    pub cap: u32,
    pub cap2: u32,
    pub version: u32,
    pub port_map: u32,
    pub pio_mask: u32,
    pub udma_mask: u32,
    pub n_ports: u8,
    pub port_map_linkup: u32,
    pub port: [ahci_ioport; 32],
    pub port_idx: u8,
    pub blk_dev: ahci_blk_dev,
}

impl ahci_ioport {
    /// A port with no register block and no DMA areas.
    pub open spec fn empty_spec() -> Self {
        ahci_ioport {
            port_mmio: 0,
            cmd_slot: 0,
            cmd_slot_dma: 0,
            rx_fis: 0,
            rx_fis_dma: 0,
            cmd_tbl: 0,
            cmd_tbl_dma: 0,
            cmd_tbl_sg: 0,
        }
    }
}

impl Default for ahci_ioport {
    fn default() -> (r: Self)
        ensures
            r == ahci_ioport::empty_spec(),
    {
        ahci_ioport {
            port_mmio: 0,
            cmd_slot: 0,
            cmd_slot_dma: 0,
            rx_fis: 0,
            rx_fis_dma: 0,
            cmd_tbl: 0,
            cmd_tbl_dma: 0,
            cmd_tbl_sg: 0,
        }
    }
}

impl Default for ahci_blk_dev {
    /// An unidentified disk: LBA48 assumed, 512-byte sectors, queue depth 1,
    /// no capacity, empty strings.
    fn default() -> (r: Self)
        ensures
            r.lba48,
            r.lba == 0,
            r.blksz == 512,
            r.queue_depth == 1,
            forall|i: int| 0 <= i < 41 ==> r.product[i] == 0,
            forall|i: int| 0 <= i < 21 ==> r.serial[i] == 0,
            forall|i: int| 0 <= i < 9 ==> r.revision[i] == 0,
    {
        ahci_blk_dev {
            lba48: true,
            lba: 0,
            blksz: 512,
            queue_depth: 1,
            product: [0u8; 41],
            serial: [0u8; 21],
            revision: [0u8; 9],
        }
    }
}

impl Default for ahci_device {
    /// A controller before initialisation: everything zero, every port
    /// empty, port 0 selected, an unidentified disk.
    fn default() -> (r: Self)
        ensures
            r.mmio_base == 0,
            r.flags == 0,
            r.cap == 0,
            r.cap2 == 0,
            r.version == 0,
            r.port_map == 0,
            r.pio_mask == 0,
            r.udma_mask == 0,
            r.n_ports == 0,
            r.port_map_linkup == 0,
            r.port_idx == 0,
            forall|i: int| 0 <= i < 32 ==> r.port[i] == ahci_ioport::empty_spec(),
            r.blk_dev.lba48,
            r.blk_dev.lba == 0,
            r.blk_dev.blksz == 512,
            r.blk_dev.queue_depth == 1,
    {
        let p = ahci_ioport::default();
        ahci_device {
            mmio_base: 0,
            flags: 0,
            cap: 0,
            cap2: 0,
            version: 0,
            port_map: 0,
            pio_mask: 0,
            udma_mask: 0,
            n_ports: 0,
            port_map_linkup: 0,
            port: [p; 32],
            port_idx: 0,
            blk_dev: ahci_blk_dev::default(),
        }
    }
}

} // verus!
