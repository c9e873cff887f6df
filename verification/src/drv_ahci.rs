//! AHCI/SATA driver logic: command FIS encoding, command-slot and
//! scatter/gather planning, the chunked LBA28/LBA48 transfer, and what the
//! driver records from the IDENTIFY data. Register accesses are performed by
//! the caller with the values these functions compute.

use vstd::prelude::*;
use crate::libata::{
    ata_id_c_string, ata_id_has_lba48, ata_id_n_sectors, ata_id_queue_depth, c_string_result,
    has_lba48_spec, n_sectors_spec, ATA_ID_FW_REV, ATA_ID_PROD, ATA_ID_QUEUE_DEPTH, ATA_ID_SERNO,
    SETFEATURES_XFER,
    command_set_2_valid, id_complete, ata_id_has_flush, ata_id_has_flush_ext, ata_id_has_wcache,
    ata_id_wcache_enabled, sata_fis_h2d, ATA_ERR, ATA_ID_CFS_ENABLE_1, ATA_ID_COMMAND_SET_1,
    ATA_ID_COMMAND_SET_2, ATA_ID_CSF_DEFAULT, ATA_ID_PIO_MODES, ATA_ID_UDMA_MODES, ATA_CMD_FLUSH, ATA_CMD_FLUSH_EXT, ATA_CMD_ID_ATA, ATA_CMD_READ, ATA_CMD_READ_EXT,
    ATA_CMD_SET_FEATURES, ATA_CMD_WRITE, ATA_CMD_WRITE_EXT, ATA_ID_WORDS, ATA_LBA, ATA_SECT_SIZE,
    SATA_FIS_TYPE_REGISTER_H2D,
};
use crate::libahci::{
    ahci_blk_dev, ahci_cmd_hdr, ahci_device, ahci_ioport, ahci_sg, AHCI_CMD_SLOT_SZ, AHCI_CMD_SZ,
    AHCI_CMD_TBL_HDR_SZ, AHCI_MAX_BYTES_PER_SG, AHCI_MAX_BYTES_PER_TRANS, AHCI_MAX_SG, AHCI_MAX_CMDS,
    AHCI_RX_FIS_SZ, READ_CMD, SATA_FLAG_FLUSH, SATA_FLAG_FLUSH_EXT, SATA_FLAG_WCACHE, WRITE_CMD, PORT_CMD,
    PORT_LST_ADDR, PORT_LST_ADDR_HI, PORT_FIS_ADDR, PORT_FIS_ADDR_HI, PORT_CMD_ICC_ACTIVE, PORT_CMD_FIS_RX,
    PORT_CMD_POWER_ON, PORT_CMD_SPIN_UP, PORT_CMD_START,
};
use crate::kahci_platform::{ahci_virt_to_phys, virt_to_phys_spec};

verus! {

// ---------------------------------------------------------------- bit search

/// `r` is the 1-based position of the lowest set bit of `val`, or 0 for 0.
pub open spec fn is_ffs(val: u32, r: u32) -> bool {
    if val == 0 {
        r == 0
    } else {
        &&& 1 <= r <= 32
        &&& (val >> ((r - 1) as u32)) & 1u32 == 1u32
        &&& val & (((1u32 << ((r - 1) as u32)) - 1u32) as u32) == 0u32
    }
}

proof fn lemma_ffs_start(val: u32)
    by (bit_vector)
    ensures
        val == val >> 0u32,
        val & (((1u32 << 0u32) - 1u32) as u32) == 0u32,
{
}

proof fn lemma_ffs_step(val: u32, i: u32, b: u32)
    by (bit_vector)
    requires
        1u32 <= b <= 32u32,
        i == val >> ((b - 1u32) as u32),
        i != 0u32,
        i & 1u32 == 0u32,
        val & (((1u32 << ((b - 1u32) as u32)) - 1u32) as u32) == 0u32,
    ensures
        b < 32u32,
        i >> 1u32 == val >> b,
        i >> 1u32 != 0u32,
        val & (((1u32 << b) - 1u32) as u32) == 0u32,
{
}

/// 1-based index of the least significant set bit of `val`; 0 when `val` is 0.
pub fn ahci_ffs32(val: u32) -> (r: u32)
    ensures
        is_ffs(val, r),
{
    let mut bit: u32 = 1;
    let mut i: u32 = val;

    if i == 0 {
        return 0;
    }
    proof {
        lemma_ffs_start(val);
    }
    while i & 1 == 0
        invariant
            1 <= bit <= 32,
            i == val >> ((bit - 1) as u32),
            i != 0,
            val & (((1u32 << ((bit - 1) as u32)) - 1u32) as u32) == 0u32,
        decreases 32 - bit,
    {
        proof {
            lemma_ffs_step(val, i, bit);
        }
        i >>= 1;
        bit += 1;
    }
    assert(i & 1u32 != 0u32 ==> i & 1u32 == 1u32) by (bit_vector);
    bit
}

/// The lowest set bit position of two equal values is the same number
/// (`ahci_ffs32` is a function of its argument).
pub proof fn lemma_ffs_unique(val: u32, r1: u32, r2: u32)
    requires
        is_ffs(val, r1),
        is_ffs(val, r2),
    ensures
        r1 == r2,
{
    if val != 0 {
        assert(r1 == r2) by (bit_vector)
            requires
                1u32 <= r1 <= 32u32,
                1u32 <= r2 <= 32u32,
                (val >> ((r1 - 1u32) as u32)) & 1u32 == 1u32,
                val & (((1u32 << ((r1 - 1u32) as u32)) - 1u32) as u32) == 0u32,
                (val >> ((r2 - 1u32) as u32)) & 1u32 == 1u32,
                val & (((1u32 << ((r2 - 1u32) as u32)) - 1u32) as u32) == 0u32,
        ;
    }
}

/// Register block of port `port`: 0x100 past the host registers, 0x80 per port.
pub fn ahci_port_base(base: u64, port: u8) -> (r: u64)
    requires
        base + 0x100 + port * 0x80 <= u64::MAX,
    ensures
        r == base + 0x100 + port * 0x80,
{
    base + 0x100 + (port as u64 * 0x80)
}

/// The command slot chosen from the command-issue register: the 1-based
/// position of its lowest set bit, 0 when no bit is set.
pub fn ahci_get_cmd_slot(value: u32) -> (r: u32)
    ensures
        is_ffs(value, r),
{
    let slot: u32 = if value != 0 {
        ahci_ffs32(value)
    } else {
        0
    };
    slot
}

// ---------------------------------------------------------------- command FISes

/// A register FIS with every field zero but the type, the command bit of
/// byte 1, the command and the given fields.
pub open spec fn fis(
    command: u8,
    features: u8,
    lba_low: u8,
    lba_mid: u8,
    lba_high: u8,
    device: u8,
    lba_low_exp: u8,
    lba_mid_exp: u8,
    lba_high_exp: u8,
    sector_count: u8,
    sector_count_exp: u8,
) -> sata_fis_h2d {
    sata_fis_h2d {
        fis_type: SATA_FIS_TYPE_REGISTER_H2D,
        pm_port_c: 0x80,
        command,
        features,
        lba_low,
        lba_mid,
        lba_high,
        device,
        lba_low_exp,
        lba_mid_exp,
        lba_high_exp,
        features_exp: 0,
        sector_count,
        sector_count_exp,
        res1: 0,
        control: 0,
        res2: [0u8, 0u8, 0u8, 0u8],
    }
}

/// The READ/WRITE DMA FIS for 28-bit addressing.
pub open spec fn rw_fis_spec(block: u32, blkcnt: u32, is_write: u32) -> sata_fis_h2d {
    fis(
        if is_write != 0 {
            ATA_CMD_WRITE
        } else {
            ATA_CMD_READ
        },
        0,
        (block & 0xff) as u8,
        (block >> 8u32 & 0xff) as u8,
        (block >> 16u32 & 0xff) as u8,
        ((block >> 24u32 & 0xf) as u8 | ATA_LBA) as u8,
        0,
        0,
        0,
        (blkcnt & 0xff) as u8,
        0,
    )
}

/// The READ/WRITE DMA EXT FIS for 48-bit addressing.
pub open spec fn rw_fis_ext_spec(block: u64, blkcnt: u32, is_write: u32) -> sata_fis_h2d {
    fis(
        if is_write != 0 {
            ATA_CMD_WRITE_EXT
        } else {
            ATA_CMD_READ_EXT
        },
        0,
        (block & 0xff) as u8,
        (block >> 8u64 & 0xff) as u8,
        (block >> 16u64 & 0xff) as u8,
        ATA_LBA,
        (block >> 24u64 & 0xff) as u8,
        (block >> 32u64 & 0xff) as u8,
        (block >> 40u64 & 0xff) as u8,
        (blkcnt & 0xff) as u8,
        (blkcnt >> 8u32 & 0xff) as u8,
    )
}

/// The block address that a 28-bit FIS carries.
pub open spec fn fis_lba28(f: sata_fis_h2d) -> int {
    (f.device & 0xf) as int * 0x100_0000 + f.lba_high as int * 0x1_0000 + f.lba_mid as int * 0x100
        + f.lba_low as int
}

/// The block address that a 48-bit FIS carries.
pub open spec fn fis_lba48(f: sata_fis_h2d) -> int {
    f.lba_high_exp as int * 0x100_0000_0000 + f.lba_mid_exp as int * 0x1_0000_0000
        + f.lba_low_exp as int * 0x100_0000 + f.lba_high as int * 0x1_0000 + f.lba_mid as int
        * 0x100 + f.lba_low as int
}

/// A command to issue on a port: the FIS, the data buffer (0 when there is
/// none), its length in bytes and the direction.
#[derive(Copy, Clone)]
pub struct AhciCommand {
    pub port: u8,
    pub cfis: sata_fis_h2d,
    pub buf: u64,
    pub buf_len: u32,
    pub is_write: u32,
}

/// SET FEATURES with the given sub-command and action, without data.
pub fn ahci_set_feature(ahci_dev: &ahci_device, subcmd: u8, action: u8) -> (r: AhciCommand)
    ensures
        r == (AhciCommand {
            port: ahci_dev.port_idx,
            cfis: fis(ATA_CMD_SET_FEATURES, subcmd, 0, 0, 0, 0, 0, 0, 0, action, 0),
            buf: 0,
            buf_len: 0,
            is_write: READ_CMD,
        }),
{
    let cfis = sata_fis_h2d {
        fis_type: SATA_FIS_TYPE_REGISTER_H2D,
        pm_port_c: 0x80,
        command: ATA_CMD_SET_FEATURES,
        features: subcmd,
        lba_low: 0,
        lba_mid: 0,
        lba_high: 0,
        device: 0,
        lba_low_exp: 0,
        lba_mid_exp: 0,
        lba_high_exp: 0,
        features_exp: 0,
        sector_count: action,
        sector_count_exp: 0,
        res1: 0,
        control: 0,
        res2: [0u8, 0u8, 0u8, 0u8],
    };
    AhciCommand { port: ahci_dev.port_idx, cfis, buf: 0, buf_len: 0, is_write: READ_CMD }
}

/// IDENTIFY DEVICE, reading 512 bytes into the buffer at `id`.
pub fn ahci_sata_identify(ahci_dev: &ahci_device, id: u64) -> (r: AhciCommand)
    ensures
        r == (AhciCommand {
            port: ahci_dev.port_idx,
            cfis: fis(ATA_CMD_ID_ATA, 0, 0, 0, 0, 0, 0, 0, 0, 0, 0),
            buf: id,
            buf_len: (ATA_ID_WORDS * 2) as u32,
            is_write: READ_CMD,
        }),
{
    let cfis = sata_fis_h2d {
        fis_type: SATA_FIS_TYPE_REGISTER_H2D,
        pm_port_c: 0x80,
        command: ATA_CMD_ID_ATA,
        features: 0,
        lba_low: 0,
        lba_mid: 0,
        lba_high: 0,
        device: 0,
        lba_low_exp: 0,
        lba_mid_exp: 0,
        lba_high_exp: 0,
        features_exp: 0,
        sector_count: 0,
        sector_count_exp: 0,
        res1: 0,
        control: 0,
        res2: [0u8, 0u8, 0u8, 0u8],
    };
    AhciCommand {
        port: ahci_dev.port_idx,
        cfis,
        buf: id,
        buf_len: ATA_ID_WORDS * 2,
        is_write: READ_CMD,
    }
}

/// READ DMA / WRITE DMA of `blkcnt` sectors from block `start` (28-bit).
pub fn ahci_sata_rw_cmd(
    ahci_dev: &ahci_device,
    start: u32,
    blkcnt: u32,
    buffer: u64,
    is_write: u32,
) -> (r: AhciCommand)
    requires
        ATA_SECT_SIZE * blkcnt <= u32::MAX,
    ensures
        r == (AhciCommand {
            port: ahci_dev.port_idx,
            cfis: rw_fis_spec(start, blkcnt, is_write),
            buf: buffer,
            buf_len: (ATA_SECT_SIZE * blkcnt) as u32,
            is_write,
        }),
{
    let block: u32 = start;
    let buf_len: u32 = ATA_SECT_SIZE * blkcnt;
    let cfis = sata_fis_h2d {
        fis_type: SATA_FIS_TYPE_REGISTER_H2D,
        pm_port_c: 0x80,
        command: if is_write != 0 {
            ATA_CMD_WRITE
        } else {
            ATA_CMD_READ
        },
        features: 0,
        lba_low: (block & 0xff) as u8,
        lba_mid: (block >> 8 & 0xff) as u8,
        lba_high: (block >> 16 & 0xff) as u8,
        device: (block >> 24 & 0xf) as u8 | ATA_LBA,
        lba_low_exp: 0,
        lba_mid_exp: 0,
        lba_high_exp: 0,
        features_exp: 0,
        sector_count: (blkcnt & 0xff) as u8,
        sector_count_exp: 0,
        res1: 0,
        control: 0,
        res2: [0u8, 0u8, 0u8, 0u8],
    };
    AhciCommand { port: ahci_dev.port_idx, cfis, buf: buffer, buf_len, is_write }
}

/// READ DMA EXT / WRITE DMA EXT of `blkcnt` sectors from block `start` (48-bit).
pub fn ahci_sata_rw_cmd_ext(
    ahci_dev: &ahci_device,
    start: u64,
    blkcnt: u32,
    buffer: u64,
    is_write: u32,
) -> (r: AhciCommand)
    requires
        ATA_SECT_SIZE * blkcnt <= u32::MAX,
    ensures
        r == (AhciCommand {
            port: ahci_dev.port_idx,
            cfis: rw_fis_ext_spec(start, blkcnt, is_write),
            buf: buffer,
            buf_len: (ATA_SECT_SIZE * blkcnt) as u32,
            is_write,
        }),
{
    let block: u64 = start;
    let buf_len: u32 = ATA_SECT_SIZE * blkcnt;
    let cfis = sata_fis_h2d {
        fis_type: SATA_FIS_TYPE_REGISTER_H2D,
        pm_port_c: 0x80,
        command: if is_write != 0 {
            ATA_CMD_WRITE_EXT
        } else {
            ATA_CMD_READ_EXT
        },
        features: 0,
        lba_low: (block & 0xff) as u8,
        lba_mid: (block >> 8 & 0xff) as u8,
        lba_high: (block >> 16 & 0xff) as u8,
        device: ATA_LBA,
        lba_low_exp: (block >> 24 & 0xff) as u8,
        lba_mid_exp: (block >> 32 & 0xff) as u8,
        lba_high_exp: (block >> 40 & 0xff) as u8,
        features_exp: 0,
        sector_count: (blkcnt & 0xff) as u8,
        sector_count_exp: (blkcnt >> 8 & 0xff) as u8,
        res1: 0,
        control: 0,
        res2: [0u8, 0u8, 0u8, 0u8],
    };
    AhciCommand { port: ahci_dev.port_idx, cfis, buf: buffer, buf_len, is_write }
}

/// FLUSH CACHE, without data.
pub fn ahci_sata_flush_cache(ahci_dev: &ahci_device) -> (r: AhciCommand)
    ensures
        r == (AhciCommand {
            port: ahci_dev.port_idx,
            cfis: fis(ATA_CMD_FLUSH, 0, 0, 0, 0, 0, 0, 0, 0, 0, 0),
            buf: 0,
            buf_len: 0,
            is_write: READ_CMD,
        }),
{
    let cfis = sata_fis_h2d {
        fis_type: SATA_FIS_TYPE_REGISTER_H2D,
        pm_port_c: 0x80,
        command: ATA_CMD_FLUSH,
        features: 0,
        lba_low: 0,
        lba_mid: 0,
        lba_high: 0,
        device: 0,
        lba_low_exp: 0,
        lba_mid_exp: 0,
        lba_high_exp: 0,
        features_exp: 0,
        sector_count: 0,
        sector_count_exp: 0,
        res1: 0,
        control: 0,
        res2: [0u8, 0u8, 0u8, 0u8],
    };
    AhciCommand { port: ahci_dev.port_idx, cfis, buf: 0, buf_len: 0, is_write: READ_CMD }
}

/// FLUSH CACHE EXT, without data.
pub fn ahci_sata_flush_cache_ext(ahci_dev: &ahci_device) -> (r: AhciCommand)
    ensures
        r == (AhciCommand {
            port: ahci_dev.port_idx,
            cfis: fis(ATA_CMD_FLUSH_EXT, 0, 0, 0, 0, 0, 0, 0, 0, 0, 0),
            buf: 0,
            buf_len: 0,
            is_write: READ_CMD,
        }),
{
    let cfis = sata_fis_h2d {
        fis_type: SATA_FIS_TYPE_REGISTER_H2D,
        pm_port_c: 0x80,
        command: ATA_CMD_FLUSH_EXT,
        features: 0,
        lba_low: 0,
        lba_mid: 0,
        lba_high: 0,
        device: 0,
        lba_low_exp: 0,
        lba_mid_exp: 0,
        lba_high_exp: 0,
        features_exp: 0,
        sector_count: 0,
        sector_count_exp: 0,
        res1: 0,
        control: 0,
        res2: [0u8, 0u8, 0u8, 0u8],
    };
    AhciCommand { port: ahci_dev.port_idx, cfis, buf: 0, buf_len: 0, is_write: READ_CMD }
}

/// A 28-bit FIS carries the low 28 bits of the block it was built for.
pub proof fn lemma_rw_fis_lba28(block: u32, blkcnt: u32, is_write: u32)
    ensures
        fis_lba28(rw_fis_spec(block, blkcnt, is_write)) == block as int % 0x1000_0000,
        rw_fis_spec(block, blkcnt, is_write).sector_count as int == blkcnt as int % 0x100,
{
    let f = rw_fis_spec(block, blkcnt, is_write);
    assert(((((block >> 24u32 & 0xf) as u8 | 0x40u8) as u8) & 0xfu8) as int * 0x100_0000 + ((
    block >> 16u32 & 0xff) as u8) as int * 0x1_0000 + ((block >> 8u32 & 0xff) as u8) as int * 0x100
        + ((block & 0xff) as u8) as int == block as int % 0x1000_0000) by (bit_vector);
    assert(((blkcnt & 0xff) as u8) as int == blkcnt as int % 0x100) by (bit_vector);
}

/// A 48-bit FIS carries the low 48 bits of the block and the low 16 bits of
/// the sector count it was built for.
pub proof fn lemma_rw_fis_lba48(block: u64, blkcnt: u32, is_write: u32)
    ensures
        fis_lba48(rw_fis_ext_spec(block, blkcnt, is_write)) == block as int % 0x1_0000_0000_0000,
        rw_fis_ext_spec(block, blkcnt, is_write).sector_count_exp as int * 0x100
            + rw_fis_ext_spec(block, blkcnt, is_write).sector_count as int == blkcnt as int
            % 0x1_0000,
{
    assert(((block >> 40u64 & 0xff) as u8) as int * 0x100_0000_0000 + ((block >> 32u64 & 0xff) as u8) as int
        * 0x1_0000_0000 + ((block >> 24u64 & 0xff) as u8) as int * 0x100_0000 + ((block >> 16u64
        & 0xff) as u8) as int * 0x1_0000 + ((block >> 8u64 & 0xff) as u8) as int * 0x100 + ((block
        & 0xff) as u8) as int == block as int % 0x1_0000_0000_0000) by (bit_vector);
    assert(((blkcnt >> 8u32 & 0xff) as u8) as int * 0x100 + ((blkcnt & 0xff) as u8) as int
        == blkcnt as int % 0x1_0000) by (bit_vector);
}

// ---------------------------------------------------------------- wire images

impl sata_fis_h2d {
    /// The 20 bytes of the FIS in wire order.
    pub open spec fn bytes_spec(&self) -> Seq<u8> {
        seq![
            self.fis_type,
            self.pm_port_c,
            self.command,
            self.features,
            self.lba_low,
            self.lba_mid,
            self.lba_high,
            self.device,
            self.lba_low_exp,
            self.lba_mid_exp,
            self.lba_high_exp,
            self.features_exp,
            self.sector_count,
            self.sector_count_exp,
            self.res1,
            self.control,
            self.res2[0],
            self.res2[1],
            self.res2[2],
            self.res2[3],
        ]
    }

    /// The FIS as the bytes written into the command table.
    pub fn to_bytes(&self) -> (r: [u8; 20])
        ensures
            r@ == self.bytes_spec(),
    {
        let r = [
            self.fis_type,
            self.pm_port_c,
            self.command,
            self.features,
            self.lba_low,
            self.lba_mid,
            self.lba_high,
            self.device,
            self.lba_low_exp,
            self.lba_mid_exp,
            self.lba_high_exp,
            self.features_exp,
            self.sector_count,
            self.sector_count_exp,
            self.res1,
            self.control,
            self.res2[0],
            self.res2[1],
            self.res2[2],
            self.res2[3],
        ];
        assert(r@ =~= self.bytes_spec());
        r
    }
}

// ---------------------------------------------------------------- scatter/gather

/// Number of scatter/gather entries that a buffer of `buf_len` bytes needs.
pub open spec fn sg_count_spec(buf_len: u32) -> int {
    (buf_len - 1) / (AHCI_MAX_BYTES_PER_SG as int) + 1
}

/// Entry `i` of the scatter/gather table of the buffer at virtual address `buf`.
pub open spec fn sg_entry_spec(buf: u64, buf_len: u32, i: int) -> ahci_sg {
    let dma = virt_to_phys_spec((buf + i * AHCI_MAX_BYTES_PER_SG) as u64);
    let remaining = buf_len - i * AHCI_MAX_BYTES_PER_SG;
    let size = if remaining < AHCI_MAX_BYTES_PER_SG {
        remaining
    } else {
        AHCI_MAX_BYTES_PER_SG as int
    } - 1;
    ahci_sg {
        addr_lo: (dma & 0xffff_ffffu64) as u32,
        addr_hi: (dma >> 32u64) as u32,
        reserved: 0,
        flags_size: (0x3fffffu32 & (size as u32)) as u32,
    }
}

/// The scatter/gather table of a buffer; empty when it would need more
/// entries than a command table holds.
pub open spec fn sg_table_spec(buf: u64, buf_len: u32) -> Seq<ahci_sg> {
    if sg_count_spec(buf_len) > AHCI_MAX_SG {
        Seq::empty()
    } else {
        Seq::new(sg_count_spec(buf_len) as nat, |i: int| sg_entry_spec(buf, buf_len, i))
    }
}

/// Splits the buffer into scatter/gather entries of at most 4 MiB each.
pub fn ahci_fill_sg(ahci_dev: &ahci_device, port: u8, buf: u64, buf_len: u32) -> (r: Vec<ahci_sg>)
    requires
        buf_len >= 1,
        buf + buf_len <= u64::MAX,
    ensures
        r@ == sg_table_spec(buf, buf_len),
{
    let max_bytes: u32 = AHCI_MAX_BYTES_PER_SG;
    let sg_count: u32 = ((buf_len - 1) / max_bytes) + 1;
    let mut v: Vec<ahci_sg> = Vec::new();

    if sg_count > AHCI_MAX_SG {
        return v;
    }
    let mut remaining: u32 = buf_len;
    let mut i: u32 = 0;
    while i < sg_count
        invariant
            max_bytes == AHCI_MAX_BYTES_PER_SG,
            sg_count == sg_count_spec(buf_len),
            sg_count <= AHCI_MAX_SG,
            buf + buf_len <= u64::MAX,
            buf_len >= 1,
            i <= sg_count,
            i < sg_count ==> remaining == buf_len - i * AHCI_MAX_BYTES_PER_SG,
            v@.len() == i,
            forall|k: int| 0 <= k < i ==> v@[k] == sg_entry_spec(buf, buf_len, k),
        decreases sg_count - i,
    {
        assert(i * AHCI_MAX_BYTES_PER_SG < buf_len) by (nonlinear_arith)
            requires
                i < sg_count,
                sg_count == (buf_len - 1) / (AHCI_MAX_BYTES_PER_SG as int) + 1,
                buf_len >= 1,
        ;
        let size: u32 = (if remaining < max_bytes {
            remaining
        } else {
            max_bytes
        }) - 1;
        let offset: u64 = (i as u64) * (max_bytes as u64);
        let buf_dma: u64 = ahci_virt_to_phys(buf + offset);
        v.push(
            ahci_sg {
                addr_lo: (buf_dma & 0xffffffff) as u32,
                addr_hi: (buf_dma >> 32) as u32,
                reserved: 0,
                flags_size: 0x3fffff & size,
            },
        );
        proof {
            if i + 1 < sg_count {
                assert((i + 1) * AHCI_MAX_BYTES_PER_SG < buf_len) by (nonlinear_arith)
                    requires
                        i + 1 < sg_count,
                        sg_count == (buf_len - 1) / (AHCI_MAX_BYTES_PER_SG as int) + 1,
                        buf_len >= 1,
                ;
                assert((i + 1) * AHCI_MAX_BYTES_PER_SG == i * AHCI_MAX_BYTES_PER_SG
                    + AHCI_MAX_BYTES_PER_SG) by (nonlinear_arith);
                assert(remaining > max_bytes);
            }
        }
        remaining = remaining.wrapping_sub(max_bytes);
        i = i + 1;
    }
    assert(v@ =~= sg_table_spec(buf, buf_len));
    v
}

/// Bytes that a scatter/gather table describes.
pub open spec fn sg_total(s: Seq<ahci_sg>) -> int
    decreases s.len(),
{
    if s.len() == 0 {
        0
    } else {
        sg_total(s.drop_last()) + (s.last().flags_size as int + 1)
    }
}

proof fn lemma_sg_entry_size(buf: u64, buf_len: u32, i: int)
    requires
        buf_len >= 1,
        0 <= i < sg_count_spec(buf_len),
    ensures
        sg_entry_spec(buf, buf_len, i).flags_size + 1 == if i < sg_count_spec(buf_len) - 1 {
            AHCI_MAX_BYTES_PER_SG as int
        } else {
            buf_len - i * AHCI_MAX_BYTES_PER_SG
        },
{
    let c = sg_count_spec(buf_len);
    assert(i * AHCI_MAX_BYTES_PER_SG < buf_len) by (nonlinear_arith)
        requires
            0 <= i < c,
            c == (buf_len - 1) / (AHCI_MAX_BYTES_PER_SG as int) + 1,
            buf_len >= 1,
    ;
    if i < c - 1 {
        assert((i + 1) * AHCI_MAX_BYTES_PER_SG < buf_len) by (nonlinear_arith)
            requires
                0 <= i < c - 1,
                c == (buf_len - 1) / (AHCI_MAX_BYTES_PER_SG as int) + 1,
                buf_len >= 1,
        ;
        assert((i + 1) * AHCI_MAX_BYTES_PER_SG == i * AHCI_MAX_BYTES_PER_SG + AHCI_MAX_BYTES_PER_SG)
            by (nonlinear_arith);
    } else {
        assert(buf_len - i * AHCI_MAX_BYTES_PER_SG <= AHCI_MAX_BYTES_PER_SG) by (nonlinear_arith)
            requires
                i == c - 1,
                c == (buf_len - 1) / (AHCI_MAX_BYTES_PER_SG as int) + 1,
                buf_len >= 1,
        ;
    }
    let remaining = buf_len - i * AHCI_MAX_BYTES_PER_SG;
    let size = (if remaining < AHCI_MAX_BYTES_PER_SG {
        remaining
    } else {
        AHCI_MAX_BYTES_PER_SG as int
    } - 1) as u32;
    assert(size <= 0x3fffffu32 ==> 0x3fffffu32 & size == size) by (bit_vector);
}

proof fn lemma_sg_prefix_total(buf: u64, buf_len: u32, k: int)
    requires
        buf_len >= 1,
        sg_count_spec(buf_len) <= AHCI_MAX_SG,
        0 <= k <= sg_count_spec(buf_len),
    ensures
        sg_total(sg_table_spec(buf, buf_len).take(k)) == if k < sg_count_spec(buf_len) {
            k * AHCI_MAX_BYTES_PER_SG
        } else {
            buf_len as int
        },
    decreases k,
{
    let t = sg_table_spec(buf, buf_len);
    if k > 0 {
        lemma_sg_prefix_total(buf, buf_len, k - 1);
        assert(t.take(k).drop_last() =~= t.take(k - 1));
        lemma_sg_entry_size(buf, buf_len, k - 1);
        assert(k * AHCI_MAX_BYTES_PER_SG == (k - 1) * AHCI_MAX_BYTES_PER_SG + AHCI_MAX_BYTES_PER_SG)
            by (nonlinear_arith);
    }
}

/// The scatter/gather table of a buffer describes exactly its bytes, when
/// the buffer fits in one command table.
pub proof fn lemma_sg_table_covers_buffer(buf: u64, buf_len: u32)
    requires
        buf_len >= 1,
        sg_count_spec(buf_len) <= AHCI_MAX_SG,
    ensures
        sg_total(sg_table_spec(buf, buf_len)) == buf_len,
{
    let t = sg_table_spec(buf, buf_len);
    lemma_sg_prefix_total(buf, buf_len, sg_count_spec(buf_len));
    assert(t.take(sg_count_spec(buf_len)) =~= t);
}

// ---------------------------------------------------------------- issuing a command

/// Command-header option word: FIS length in dwords, PRD count, write bit.
pub open spec fn cmd_opts_spec(sg_count: u32, is_write: u32) -> u32 {
    (5u32 | (sg_count << 16u32) | (is_write << 6u32)) as u32
}

/// What to write to the port to issue a command.
pub struct AhciExecPlan {
    /// Command slot, taken from the command-issue register.
    pub cmd_slot: u32,
    /// Scatter/gather entries to write at `cmd_tbl_sg`.
    pub sg: Vec<ahci_sg>,
    /// Command header to write at `hdr_addr`: `AHCI_CMD_SZ * cmd_slot`
    /// headers (of `AHCI_CMD_SZ` bytes each) past the command list.
    pub hdr: ahci_cmd_hdr,
    pub hdr_addr: u64,
    /// Value to write to the command-issue register, and the bit to poll.
    pub issue_mask: u32,
}

/// The scatter/gather table that a command gets: none without a buffer.
pub open spec fn cmd_sg_spec(cmd: AhciCommand) -> Seq<ahci_sg> {
    if cmd.buf != 0 && cmd.buf_len != 0 {
        sg_table_spec(cmd.buf, cmd.buf_len)
    } else {
        Seq::empty()
    }
}

/// Plans a command on `cmd.port` given the current command-issue register.
/// `None` when no slot is free (slot 32) or the transfer exceeds the per-command
/// maximum; the command is then not issued and 0 bytes are transferred.
pub fn ahci_exec_ata_cmd(ahci_dev: &ahci_device, cmd: &AhciCommand, cmd_issue: u32) -> (r: Option<
    AhciExecPlan,
>)
    requires
        cmd.port < 32,
        cmd.buf + cmd.buf_len <= u64::MAX,
        ahci_dev.port[cmd.port as int].cmd_slot + AHCI_CMD_SZ * AHCI_CMD_SZ * AHCI_MAX_CMDS <= u64::MAX,
    ensures
        match r {
            None => {
                ||| is_ffs(cmd_issue, 32)
                ||| cmd.buf_len > AHCI_MAX_BYTES_PER_TRANS
            },
            Some(plan) => {
                let pp = ahci_dev.port[cmd.port as int];
                &&& !is_ffs(cmd_issue, 32)
                &&& cmd.buf_len <= AHCI_MAX_BYTES_PER_TRANS
                &&& is_ffs(cmd_issue, plan.cmd_slot)
                &&& plan.sg@ == cmd_sg_spec(*cmd)
                &&& plan.hdr.opts == cmd_opts_spec(plan.sg@.len() as u32, cmd.is_write)
                &&& plan.hdr.status == 0
                &&& plan.hdr.tbl_addr_lo == (pp.cmd_tbl_dma & 0xffff_ffffu64) as u32
                &&& plan.hdr.tbl_addr_hi == (pp.cmd_tbl_dma >> 32u64) as u32
                &&& plan.hdr_addr == pp.cmd_slot + AHCI_CMD_SZ * AHCI_CMD_SZ * plan.cmd_slot
                &&& plan.issue_mask == 1u32 << plan.cmd_slot
            },
        },
{
    let pp: ahci_ioport = ahci_dev.port[cmd.port as usize];
    let cmd_slot: u32 = ahci_get_cmd_slot(cmd_issue);
    if cmd_slot == 32 {
        return None;
    }
    proof {
        if is_ffs(cmd_issue, 32) {
            lemma_ffs_unique(cmd_issue, 32, cmd_slot);
        }
    }
    if cmd.buf_len > AHCI_MAX_BYTES_PER_TRANS {
        return None;
    }
    let sg: Vec<ahci_sg> = if cmd.buf != 0 && cmd.buf_len != 0 {
        ahci_fill_sg(ahci_dev, cmd.port, cmd.buf, cmd.buf_len)
    } else {
        Vec::new()
    };
    let sg_count: u32 = sg.len() as u32;
    proof {
        assert(sg@.len() <= AHCI_MAX_SG);
    }
    let opts: u32 = 5 | (sg_count << 16) | (cmd.is_write << 6);
    let hdr = ahci_cmd_hdr {
        opts,
        status: 0,
        tbl_addr_lo: (pp.cmd_tbl_dma & 0xffffffff) as u32,
        tbl_addr_hi: (pp.cmd_tbl_dma >> 32) as u32,
        reserved: [0u32, 0u32, 0u32, 0u32],
    };
    Some(
        AhciExecPlan {
            cmd_slot,
            sg,
            hdr,
            hdr_addr: pp.cmd_slot + (AHCI_CMD_SZ * AHCI_CMD_SZ * cmd_slot) as u64,
            issue_mask: 1u32 << cmd_slot,
        },
    )
}

impl ahci_cmd_hdr {
    /// The header as the eight little-endian words of a command-list entry.
    pub fn to_words(&self) -> (r: [u32; 8])
        ensures
            r@ == seq![
                self.opts,
                self.status,
                self.tbl_addr_lo,
                self.tbl_addr_hi,
                self.reserved[0],
                self.reserved[1],
                self.reserved[2],
                self.reserved[3],
            ],
    {
        let r = [
            self.opts,
            self.status,
            self.tbl_addr_lo,
            self.tbl_addr_hi,
            self.reserved[0],
            self.reserved[1],
            self.reserved[2],
            self.reserved[3],
        ];
        assert(r@ =~= seq![
            self.opts,
            self.status,
            self.tbl_addr_lo,
            self.tbl_addr_hi,
            self.reserved[0],
            self.reserved[1],
            self.reserved[2],
            self.reserved[3],
        ]);
        r
    }
}

impl ahci_sg {
    /// The entry as the four little-endian words of a PRD table slot.
    pub fn to_words(&self) -> (r: [u32; 4])
        ensures
            r@ == seq![self.addr_lo, self.addr_hi, self.reserved, self.flags_size],
    {
        let r = [self.addr_lo, self.addr_hi, self.reserved, self.flags_size];
        assert(r@ =~= seq![self.addr_lo, self.addr_hi, self.reserved, self.flags_size]);
        r
    }
}

// ---------------------------------------------------------------- chunked transfers

/// Progress of a multi-command read or write. Each command moves at most
/// `max_blocks` sectors; the transfer ends at the first command that moves
/// fewer sectors than asked (reporting 0) or when every sector has moved
/// (reporting the sector count).
pub struct AtaRwTransfer {
    pub lba48: bool,
    pub is_write: u32,
    /// First sector of the whole transfer.
    pub first: u64,
    /// Number of sectors of the whole transfer.
    pub blkcnt: u32,
    /// First sector of the next command.
    pub start: u64,
    /// Sectors not yet transferred.
    pub blks: u32,
    /// Buffer address for the next command.
    pub addr: u64,
    /// Whether a command is still to be issued.
    pub active: bool,
}

/// The sector count that one command of a transfer may move.
pub open spec fn max_blocks_spec(lba48: bool) -> u32 {
    if lba48 {
        crate::libata::ATA_MAX_SECTORS_LBA48
    } else {
        crate::libata::ATA_MAX_SECTORS
    }
}

/// The largest sector number that the addressing mode keeps in a counter.
pub open spec fn block_limit_spec(lba48: bool) -> int {
    if lba48 {
        u64::MAX as int
    } else {
        u32::MAX as int
    }
}

/// Outcome of one completed command of a transfer.
pub enum RwStep {
    /// Issue the next command.
    Continue,
    /// The transfer is over; the value is the sector count it reports.
    Finished(u32),
}

impl AtaRwTransfer {
    /// Sectors `first .. start` have been transferred by accepted commands and
    /// `blks` remain.
    pub open spec fn wf(&self) -> bool {
        &&& self.blks <= self.blkcnt
        &&& self.start == self.first + (self.blkcnt - self.blks)
        &&& self.first + self.blkcnt <= block_limit_spec(self.lba48)
    }

    /// Sector count of the next command.
    pub open spec fn chunk_spec(&self) -> u32 {
        if self.blks > max_blocks_spec(self.lba48) {
            max_blocks_spec(self.lba48)
        } else {
            self.blks
        }
    }

    /// The command for the next chunk.
    pub fn next_command(&self, ahci_dev: &ahci_device) -> (r: AhciCommand)
        requires
            self.wf(),
            self.active,
        ensures
            r.buf == self.addr,
            r.buf_len == crate::libata::ATA_SECT_SIZE * self.chunk_spec(),
            r.is_write == self.is_write,
            r.port == ahci_dev.port_idx,
            self.lba48 ==> r.cfis == rw_fis_ext_spec(self.start, self.chunk_spec(), self.is_write),
            !self.lba48 ==> r.cfis == rw_fis_spec(self.start as u32, self.chunk_spec(), self.is_write),
    {
        let max_blks: u32 = if self.lba48 {
            crate::libata::ATA_MAX_SECTORS_LBA48
        } else {
            crate::libata::ATA_MAX_SECTORS
        };
        let chunk: u32 = if self.blks > max_blks {
            max_blks
        } else {
            self.blks
        };
        if self.lba48 {
            ahci_sata_rw_cmd_ext(ahci_dev, self.start, chunk, self.addr, self.is_write)
        } else {
            ahci_sata_rw_cmd(ahci_dev, self.start as u32, chunk, self.addr, self.is_write)
        }
    }

    /// Records the value returned by issuing the next command (the number of
    /// bytes the controller accepted, 0 on refusal).
    pub fn complete(&mut self, exec_ret: u32) -> (r: RwStep)
        requires
            old(self).wf(),
            old(self).active,
        ensures
            final(self).wf(),
            final(self).lba48 == old(self).lba48,
            final(self).first == old(self).first,
            final(self).blkcnt == old(self).blkcnt,
            final(self).is_write == old(self).is_write,
            // the command covered its whole chunk
            (exec_ret > 0 || old(self).chunk_spec() == 0) ==> {
                &&& final(self).start == old(self).start + old(self).chunk_spec()
                &&& final(self).blks == old(self).blks - old(self).chunk_spec()
                &&& if final(self).blks == 0 {
                    r == RwStep::Finished(old(self).blkcnt) && !final(self).active
                        && final(self).addr == old(self).addr
                } else {
                    r == RwStep::Continue && final(self).active
                        && final(self).addr == (old(self).addr + crate::libata::ATA_SECT_SIZE
                        * old(self).chunk_spec()) % 0x1_0000_0000_0000_0000int
                }
            },
            // the command moved nothing although sectors were asked for
            !(exec_ret > 0 || old(self).chunk_spec() == 0) ==> r == RwStep::Finished(0)
                && !final(self).active && final(self).start == old(self).start && final(self).blks
                == old(self).blks && final(self).addr == old(self).addr,
    {
        let max_blks: u32 = if self.lba48 {
            crate::libata::ATA_MAX_SECTORS_LBA48
        } else {
            crate::libata::ATA_MAX_SECTORS
        };
        let chunk: u32 = if self.blks > max_blks {
            max_blks
        } else {
            self.blks
        };
        // a command reports its whole sector count when the controller accepted it
        let rc: u32 = if exec_ret > 0 {
            chunk
        } else {
            0
        };
        if rc != chunk {
            self.active = false;
            return RwStep::Finished(0);
        }
        self.start = self.start + chunk as u64;
        if self.blks > max_blks {
            self.addr = self.addr.wrapping_add((crate::libata::ATA_SECT_SIZE * max_blks) as u64);
        }
        self.blks = self.blks - chunk;
        if self.blks == 0 {
            self.active = false;
            RwStep::Finished(self.blkcnt)
        } else {
            RwStep::Continue
        }
    }
}

/// Commands an active transfer still issues when every one succeeds.
pub open spec fn commands_left(blks: int, max: int) -> int
    decreases blks,
{
    if blks <= max || max <= 0 {
        1
    } else {
        1 + commands_left(blks - max, max)
    }
}

/// A transfer of `blkcnt` sectors in chunks of at most `max` issues
/// `ceil(blkcnt / max)` commands when all succeed (one for an empty transfer).
pub proof fn lemma_transfer_command_count(blkcnt: int, max: int)
    requires
        blkcnt >= 0,
        max >= 1,
    ensures
        commands_left(blkcnt, max) == if blkcnt == 0 {
            1
        } else {
            (blkcnt + max - 1) / max
        },
    decreases blkcnt,
{
    if blkcnt > max {
        lemma_transfer_command_count(blkcnt - max, max);
        assert((blkcnt + max - 1) / max == 1 + (blkcnt - max + max - 1) / max) by (nonlinear_arith)
            requires
                max >= 1,
                blkcnt > max,
        ;
    } else if blkcnt > 0 {
        assert((blkcnt + max - 1) / max == 1) by (nonlinear_arith)
            requires
                max >= 1,
                0 < blkcnt <= max,
        ;
    }
}

/// A successful command that does not finish the transfer leaves exactly
/// one command fewer to issue; one that finishes it was the last.
pub proof fn lemma_transfer_progress(old_t: AtaRwTransfer, new_t: AtaRwTransfer)
    requires
        old_t.wf(),
        new_t.lba48 == old_t.lba48,
        new_t.blks == old_t.blks - old_t.chunk_spec(),
    ensures
        new_t.blks > 0 ==> commands_left(new_t.blks as int, max_blocks_spec(new_t.lba48) as int)
            == commands_left(old_t.blks as int, max_blocks_spec(old_t.lba48) as int) - 1,
        new_t.blks == 0 ==> commands_left(old_t.blks as int, max_blocks_spec(old_t.lba48) as int) == 1,
{
}

/// A transfer with nothing left has moved sectors `first .. first + blkcnt`.
pub proof fn lemma_finished_transfer_covers_range(t: AtaRwTransfer)
    requires
        t.wf(),
        t.blks == 0,
    ensures
        t.start == t.first + t.blkcnt,
{
}

/// Begins a transfer of `blkcnt` sectors from sector `blknr` with 28-bit
/// commands of at most 256 sectors each. The sector number is kept in 32 bits.
pub fn ata_low_level_rw_lba28(
    ahci_dev: &ahci_device,
    blknr: u64,
    blkcnt: u32,
    buffer: u64,
    is_write: u32,
) -> (r: AtaRwTransfer)
    requires
        (blknr as u32) + blkcnt <= u32::MAX,
    ensures
        r.wf(),
        r.active,
        !r.lba48,
        r.first == blknr as u32,
        r.start == r.first,
        r.blkcnt == blkcnt,
        r.blks == blkcnt,
        r.addr == buffer,
        r.is_write == is_write,
{
    let start: u32 = blknr as u32;
    AtaRwTransfer {
        lba48: false,
        is_write,
        first: start as u64,
        blkcnt,
        start: start as u64,
        blks: blkcnt,
        addr: buffer,
        active: true,
    }
}

/// Begins a transfer of `blkcnt` sectors from sector `blknr` with 48-bit
/// commands of at most 65535 sectors each.
pub fn ata_low_level_rw_lba48(
    ahci_dev: &ahci_device,
    blknr: u64,
    blkcnt: u32,
    buffer: u64,
    is_write: u32,
) -> (r: AtaRwTransfer)
    requires
        blknr + blkcnt <= u64::MAX,
    ensures
        r.wf(),
        r.active,
        r.lba48,
        r.first == blknr,
        r.start == blknr,
        r.blkcnt == blkcnt,
        r.blks == blkcnt,
        r.addr == buffer,
        r.is_write == is_write,
{
    AtaRwTransfer {
        lba48: true,
        is_write,
        first: blknr,
        blkcnt,
        start: blknr,
        blks: blkcnt,
        addr: buffer,
        active: true,
    }
}

/// The sector range that a read or write from `blknr` may address.
pub open spec fn rw_range_ok(ahci_dev: &ahci_device, blknr: u64, blkcnt: u32) -> bool {
    if ahci_dev.blk_dev.lba48 {
        blknr + blkcnt <= u64::MAX
    } else {
        (blknr as u32) + blkcnt <= u32::MAX
    }
}

/// Begins a read of `blkcnt` sectors from sector `blknr` into `buffer`, with
/// 48-bit commands when the disk supports them and 28-bit commands otherwise.
pub fn ahci_sata_read_common(ahci_dev: &ahci_device, blknr: u64, blkcnt: u32, buffer: u64) -> (r:
    AtaRwTransfer)
    requires
        rw_range_ok(ahci_dev, blknr, blkcnt),
    ensures
        r.wf(),
        r.active,
        r.lba48 == ahci_dev.blk_dev.lba48,
        r.is_write == READ_CMD,
        r.blkcnt == blkcnt,
        r.blks == blkcnt,
        r.first == if r.lba48 {
            blknr
        } else {
            (blknr as u32) as u64
        },
        r.start == r.first,
        r.addr == buffer,
{
    if ahci_dev.blk_dev.lba48 {
        ata_low_level_rw_lba48(ahci_dev, blknr, blkcnt, buffer, READ_CMD)
    } else {
        ata_low_level_rw_lba28(ahci_dev, blknr, blkcnt, buffer, READ_CMD)
    }
}

/// The cache flush that follows a write: FLUSH CACHE EXT on an LBA48 disk and
/// FLUSH CACHE otherwise, only when the write cache is on and the disk
/// supports that flush.
pub open spec fn write_flush_spec(ahci_dev: &ahci_device) -> Option<sata_fis_h2d> {
    let flags = ahci_dev.flags;
    if ahci_dev.blk_dev.lba48 {
        if flags & SATA_FLAG_WCACHE != 0 && flags & SATA_FLAG_FLUSH_EXT != 0 {
            Some(fis(ATA_CMD_FLUSH_EXT, 0, 0, 0, 0, 0, 0, 0, 0, 0, 0))
        } else {
            None
        }
    } else {
        if flags & SATA_FLAG_WCACHE != 0 && flags & SATA_FLAG_FLUSH != 0 {
            Some(fis(ATA_CMD_FLUSH, 0, 0, 0, 0, 0, 0, 0, 0, 0, 0))
        } else {
            None
        }
    }
}

/// Begins a write of `blkcnt` sectors to sector `blknr` from `buffer`, and
/// returns the flush command to issue once the transfer has finished.
pub fn ahci_sata_write_common(ahci_dev: &ahci_device, blknr: u64, blkcnt: u32, buffer: u64) -> (r: (
    AtaRwTransfer,
    Option<AhciCommand>,
))
    requires
        rw_range_ok(ahci_dev, blknr, blkcnt),
    ensures
        r.0.wf(),
        r.0.active,
        r.0.lba48 == ahci_dev.blk_dev.lba48,
        r.0.is_write == WRITE_CMD,
        r.0.blkcnt == blkcnt,
        r.0.blks == blkcnt,
        r.0.first == if r.0.lba48 {
            blknr
        } else {
            (blknr as u32) as u64
        },
        r.0.start == r.0.first,
        r.0.addr == buffer,
        match (r.1, write_flush_spec(ahci_dev)) {
            (None, None) => true,
            (Some(c), Some(f)) => c.cfis == f && c.buf == 0 && c.buf_len == 0 && c.port
                == ahci_dev.port_idx,
            _ => false,
        },
{
    let flags: u32 = ahci_dev.flags;
    if ahci_dev.blk_dev.lba48 {
        let t = ata_low_level_rw_lba48(ahci_dev, blknr, blkcnt, buffer, WRITE_CMD);
        let flush = if flags & SATA_FLAG_WCACHE != 0 && flags & SATA_FLAG_FLUSH_EXT != 0 {
            Some(ahci_sata_flush_cache_ext(ahci_dev))
        } else {
            None
        };
        (t, flush)
    } else {
        let t = ata_low_level_rw_lba28(ahci_dev, blknr, blkcnt, buffer, WRITE_CMD);
        let flush = if flags & SATA_FLAG_WCACHE != 0 && flags & SATA_FLAG_FLUSH != 0 {
            Some(ahci_sata_flush_cache(ahci_dev))
        } else {
            None
        };
        (t, flush)
    }
}

// ---------------------------------------------------------------- controller bring-up

/// Every field of the controller but the ports equals the other's.
pub open spec fn same_but_ports(a: ahci_device, b: ahci_device) -> bool {
    &&& a.mmio_base == b.mmio_base
    &&& a.flags == b.flags
    &&& a.cap == b.cap
    &&& a.cap2 == b.cap2
    &&& a.version == b.version
    &&& a.port_map == b.port_map
    &&& a.pio_mask == b.pio_mask
    &&& a.udma_mask == b.udma_mask
    &&& a.n_ports == b.n_ports
    &&& a.port_map_linkup == b.port_map_linkup
    &&& a.port_idx == b.port_idx
    &&& a.blk_dev == b.blk_dev
}

/// Number of ports the host has: the CAP register's low five bits plus one.
pub fn ahci_port_count(cap: u32) -> (r: u8)
    ensures
        r == (cap & 0x1f) + 1,
        r <= 32,
{
    assert((cap & 0x1f) + 1 <= 32) by (bit_vector);
    ((cap & 0x1f) + 1) as u8
}

/// Records the host capability registers read after the reset and gives each
/// of the `(cap & 0x1f) + 1` ports its register block.
pub fn ahci_host_init(ahci_dev: &mut ahci_device, cap: u32, cap2: u32, version: u32, port_map: u32)
    requires
        old(ahci_dev).mmio_base + 0x100 + 32 * 0x80 <= u64::MAX,
    ensures
        final(ahci_dev).cap == cap,
        final(ahci_dev).cap2 == cap2,
        final(ahci_dev).version == version,
        final(ahci_dev).port_map == port_map,
        final(ahci_dev).n_ports == (cap & 0x1f) + 1,
        final(ahci_dev).n_ports <= 32,
        final(ahci_dev).mmio_base == old(ahci_dev).mmio_base,
        final(ahci_dev).flags == old(ahci_dev).flags,
        final(ahci_dev).pio_mask == old(ahci_dev).pio_mask,
        final(ahci_dev).udma_mask == old(ahci_dev).udma_mask,
        final(ahci_dev).port_map_linkup == old(ahci_dev).port_map_linkup,
        final(ahci_dev).port_idx == old(ahci_dev).port_idx,
        final(ahci_dev).blk_dev == old(ahci_dev).blk_dev,
        forall|i: int|
            0 <= i < final(ahci_dev).n_ports ==> (#[trigger] final(ahci_dev).port[i]).port_mmio
                == old(ahci_dev).mmio_base + 0x100 + i * 0x80 && final(ahci_dev).port[i]
                == (ahci_ioport { port_mmio: final(ahci_dev).port[i].port_mmio, ..old(ahci_dev).port[i] }),
        forall|i: int|
            final(ahci_dev).n_ports <= i < 32 ==> #[trigger] final(ahci_dev).port[i] == old(
                ahci_dev,
            ).port[i],
{
    ahci_dev.cap = cap;
    ahci_dev.cap2 = cap2;
    ahci_dev.version = version;
    ahci_dev.port_map = port_map;
    ahci_dev.n_ports = ahci_port_count(cap);
    let host_mmio: u64 = ahci_dev.mmio_base;
    let n: u8 = ahci_dev.n_ports;
    let ghost before = *ahci_dev;
    let mut i: u8 = 0;
    while i < n
        invariant
            n == ahci_dev.n_ports,
            n <= 32,
            i <= n,
            host_mmio == ahci_dev.mmio_base,
            host_mmio + 0x100 + 32 * 0x80 <= u64::MAX,
            same_but_ports(*ahci_dev, before),
            forall|j: int|
                0 <= j < i ==> (#[trigger] ahci_dev.port[j]).port_mmio == host_mmio + 0x100 + j
                    * 0x80 && ahci_dev.port[j] == (ahci_ioport {
                    port_mmio: ahci_dev.port[j].port_mmio,
                    ..before.port[j]
                }),
            forall|j: int| i <= j < 32 ==> #[trigger] ahci_dev.port[j] == before.port[j],
        decreases n - i,
    {
        let mut p: ahci_ioport = ahci_dev.port[i as usize];
        p.port_mmio = ahci_port_base(host_mmio, i);
        ahci_dev.port[i as usize] = p;
        i = i + 1;
    }
}

/// Whether a port's SATA status shows an established link (DET = 3).
pub fn ahci_link_up(ssts: u32) -> (r: bool)
    ensures
        r == (ssts & 0xf == 3),
{
    (ssts & 0xf) == 0x3
}

/// Marks `port` as linked up when its SATA status shows an established link.
pub fn ahci_record_link(ahci_dev: &mut ahci_device, port: u8, ssts: u32)
    requires
        port < 32,
    ensures
        final(ahci_dev).port_map_linkup == if ssts & 0xf == 3 {
            old(ahci_dev).port_map_linkup | (1u32 << port)
        } else {
            old(ahci_dev).port_map_linkup
        },
        *final(ahci_dev) == (ahci_device {
            port_map_linkup: final(ahci_dev).port_map_linkup,
            ..*old(ahci_dev)
        }),
{
    if ahci_link_up(ssts) {
        ahci_dev.port_map_linkup = ahci_dev.port_map_linkup | (0x1u32 << port);
    }
}

/// The write that starts a host reset, from the control register value
/// `ctl`: the reset bit added, unless a reset is already under way.
pub fn host_reset_write(ctl: u32) -> (r: Option<u32>)
    ensures
        r == if ctl & crate::libahci::HOST_RESET == 0 {
            Some(ctl | crate::libahci::HOST_RESET)
        } else {
            None::<u32>
        },
{
    if ctl & crate::libahci::HOST_RESET == 0 {
        Some(ctl | crate::libahci::HOST_RESET)
    } else {
        None
    }
}

/// Whether the host reset is over, from the control register value.
pub fn host_reset_done(ctl: u32) -> (r: bool)
    ensures
        r == (ctl & crate::libahci::HOST_RESET == 0),
{
    ctl & crate::libahci::HOST_RESET == 0
}

/// The control register value that enables AHCI mode.
pub fn host_enable_write(ctl: u32) -> (r: u32)
    ensures
        r == ctl | crate::libahci::HOST_AHCI_EN,
{
    ctl | crate::libahci::HOST_AHCI_EN
}

/// Bringing a port to idle: when its command register `cmd` shows the
/// command list, FIS receive or command processing running, the write that
/// stops command processing (the caller then waits for the list to stop);
/// `None` for a port that is idle already.
pub fn port_idle_write(cmd: u32) -> (r: Option<u32>)
    ensures
        r == if cmd & (crate::libahci::PORT_CMD_LIST_ON | crate::libahci::PORT_CMD_FIS_ON | PORT_CMD_FIS_RX | PORT_CMD_START) != 0 {
            Some(cmd & !PORT_CMD_START)
        } else {
            None::<u32>
        },
{
    if cmd & (crate::libahci::PORT_CMD_LIST_ON | crate::libahci::PORT_CMD_FIS_ON | PORT_CMD_FIS_RX | PORT_CMD_START) != 0 {
        Some(cmd & !PORT_CMD_START)
    } else {
        None
    }
}

/// The command register value that spins the port's device up.
pub fn port_spin_up_write(cmd: u32) -> (r: u32)
    ensures
        r == cmd | PORT_CMD_SPIN_UP,
{
    cmd | PORT_CMD_SPIN_UP
}

/// Polls (one millisecond apart) of a port's link before giving up.
pub const LINK_POLLS: u32 = 1000;

/// The state of the wait for a port's link.
#[derive(Copy, Clone, Debug, PartialEq, Eq, Structural)]
pub enum LinkWait {
    /// Poll again; this many polls are left.
    Poll(u32),
    /// The wait is over: the link came up (DET 1 or 3), or the polls ran out
    /// (`timed_out`, also when the last poll saw a link).
    Done { timed_out: bool },
}

/// One poll of the link wait with `left` polls left, the SATA status read
/// being `ssts`.
pub fn link_wait_step(ssts: u32, left: u32) -> (r: LinkWait)
    requires
        left > 0,
    ensures
        r == if ssts & 0xf == 3 || ssts & 0xf == 1 || left - 1 == 0 {
            LinkWait::Done { timed_out: left - 1 == 0 }
        } else {
            LinkWait::Poll((left - 1) as u32)
        },
{
    let det: u32 = ssts & 0xf;
    let rest: u32 = left - 1;
    if det == 0x3 || det == 0x1 || rest == 0 {
        LinkWait::Done { timed_out: rest == 0 }
    } else {
        LinkWait::Poll(rest)
    }
}

/// The link-up map after recording the first `n` ports' SATA statuses in
/// turn into `init`: bit `i` is added for each port `i` whose link is
/// established (DET = 3).
pub open spec fn links_from(init: u32, ssts: Seq<u32>, n: int) -> u32
    decreases n,
{
    if n <= 0 {
        init
    } else {
        let p = links_from(init, ssts, n - 1);
        if ssts[n - 1] & 0xf == 3 {
            p | (1u32 << ((n - 1) as u32))
        } else {
            p
        }
    }
}

proof fn lemma_or_bit(p: u32, i: u32, j: u32)
    by (bit_vector)
    requires
        i < 32,
        j < 32,
    ensures
        ((p | (1u32 << i)) >> j) & 1u32 != 0 <==> ((p >> j) & 1u32 != 0 || i == j),
{
}

/// The link-up map built from the ports' statuses marks port `j` exactly
/// when it was marked before or `j` is one of the ports recorded and its
/// link is established (DET = 3); no other bit changes.
pub proof fn lemma_links_from(init: u32, ssts: Seq<u32>, n: int, j: int)
    requires
        0 <= n <= ssts.len(),
        n <= 32,
        0 <= j < 32,
    ensures
        linked(links_from(init, ssts, n), j) <==> (linked(init, j) || (j < n && ssts[j] & 0xf == 3)),
    decreases n,
{
    if n > 0 {
        lemma_links_from(init, ssts, n - 1, j);
        if ssts[n - 1] & 0xf == 3 {
            lemma_or_bit(links_from(init, ssts, n - 1), (n - 1) as u32, j as u32);
        }
    }
}

/// Records the link state of every port of the host from the SATA status
/// read from each (`ssts[i]` for port `i`), as host bring-up does once each
/// port is idle and spun up.
pub fn ahci_record_links(ahci_dev: &mut ahci_device, ssts: &[u32])
    requires
        ssts@.len() == old(ahci_dev).n_ports,
        old(ahci_dev).n_ports <= 32,
    ensures
        final(ahci_dev).port_map_linkup == links_from(old(ahci_dev).port_map_linkup, ssts@, ssts@.len() as int),
        *final(ahci_dev) == (ahci_device {
            port_map_linkup: final(ahci_dev).port_map_linkup,
            ..*old(ahci_dev)
        }),
{
    let ghost before = *ahci_dev;
    let mut i: usize = 0;
    while i < ssts.len()
        invariant
            i <= ssts@.len(),
            ssts@.len() <= 32,
            ahci_dev.port_map_linkup == links_from(before.port_map_linkup, ssts@, i as int),
            *ahci_dev == (ahci_device { port_map_linkup: ahci_dev.port_map_linkup, ..before }),
        decreases ssts@.len() - i,
    {
        ahci_record_link(ahci_dev, i as u8, ssts[i]);
        i = i + 1;
    }
}

/// Host bring-up from what the registers gave: the capability registers
/// read once the reset is over and AHCI is enabled (`cap`, `cap2`,
/// `version`, `port_map`), and the SATA status each port reports once it is
/// idle and spun up (`ssts[i]` for port `i`). Records the registers, gives
/// each port its register block, and adds to the link-up map every port
/// whose link is established.
pub fn ahci_host_bring_up(
    ahci_dev: &mut ahci_device,
    cap: u32,
    cap2: u32,
    version: u32,
    port_map: u32,
    ssts: &[u32],
)
    requires
        old(ahci_dev).mmio_base + 0x100 + 32 * 0x80 <= u64::MAX,
        ssts@.len() == (cap & 0x1f) + 1,
    ensures
        final(ahci_dev).cap == cap,
        final(ahci_dev).cap2 == cap2,
        final(ahci_dev).version == version,
        final(ahci_dev).port_map == port_map,
        final(ahci_dev).n_ports == (cap & 0x1f) + 1,
        forall|i: int|
            0 <= i < final(ahci_dev).n_ports ==> (#[trigger] final(ahci_dev).port[i]).port_mmio
                == old(ahci_dev).mmio_base + 0x100 + i * 0x80,
        final(ahci_dev).port_map_linkup == links_from(old(ahci_dev).port_map_linkup, ssts@, ssts@.len() as int),
        final(ahci_dev).mmio_base == old(ahci_dev).mmio_base,
        final(ahci_dev).flags == old(ahci_dev).flags,
        final(ahci_dev).port_idx == old(ahci_dev).port_idx,
        final(ahci_dev).blk_dev == old(ahci_dev).blk_dev,
{
    ahci_host_init(ahci_dev, cap, cap2, version, port_map);
    ahci_record_links(ahci_dev, ssts);
}

/// Whether the task file shows neither error, data request nor busy.
pub fn ahci_port_idle(tfd: u32) -> (r: bool)
    ensures
        r == (tfd & 0x89 == 0),
{
    assert((0x01u8 | 0x08u8 | 0x80u8) == 0x89u8) by (bit_vector);
    (tfd & ((ATA_ERR | crate::libata::ATA_DRQ | crate::libata::ATA_BUSY) as u32)) == 0
}

/// Result of looking for the port to use.
pub enum PortScan {
    /// No port has a link: the scan fails.
    NoDevice,
    /// Some port has a link, but none below `n_ports`: nothing is started.
    NoneInRange,
    /// Start this port and, when that succeeds, use it.
    Start(u8),
}

/// Bit `i` of the link-up map.
pub open spec fn linked(map: u32, i: int) -> bool {
    (map >> (i as u32)) & 1u32 != 0
}

/// Picks the lowest port below `n_ports` whose link is up.
pub fn ahci_port_scan(ahci_dev: &ahci_device) -> (r: PortScan)
    requires
        ahci_dev.n_ports <= 32,
    ensures
        match r {
            PortScan::NoDevice => ahci_dev.port_map_linkup == 0,
            PortScan::NoneInRange => ahci_dev.port_map_linkup != 0 && forall|j: int|
                0 <= j < ahci_dev.n_ports ==> !linked(ahci_dev.port_map_linkup, j),
            PortScan::Start(i) => {
                &&& ahci_dev.port_map_linkup != 0
                &&& i < ahci_dev.n_ports
                &&& linked(ahci_dev.port_map_linkup, i as int)
                &&& forall|j: int| 0 <= j < i ==> !linked(ahci_dev.port_map_linkup, j)
            },
        },
{
    let linkmap: u32 = ahci_dev.port_map_linkup;
    if linkmap == 0 {
        return PortScan::NoDevice;
    }
    let mut i: u8 = 0;
    while i < ahci_dev.n_ports
        invariant
            linkmap == ahci_dev.port_map_linkup,
            linkmap != 0,
            ahci_dev.n_ports <= 32,
            i <= ahci_dev.n_ports,
            forall|j: int| 0 <= j < i ==> !linked(linkmap, j),
        decreases ahci_dev.n_ports - i,
    {
        if (linkmap >> i & 0x1) != 0 {
            return PortScan::Start(i);
        }
        i = i + 1;
    }
    PortScan::NoneInRange
}

/// Lays out a port's command list, received-FIS area, command table and PRD
/// table in the zeroed DMA block at virtual address `mem`, with the physical
/// addresses the controller is given.
pub fn ahci_port_assign_dma(pp: &mut ahci_ioport, mem: u64)
    requires
        mem + AHCI_CMD_SLOT_SZ + AHCI_RX_FIS_SZ + AHCI_CMD_TBL_HDR_SZ <= u64::MAX,
    ensures
        final(pp).port_mmio == old(pp).port_mmio,
        final(pp).cmd_slot == mem,
        final(pp).cmd_slot_dma == virt_to_phys_spec(mem),
        final(pp).rx_fis == mem + AHCI_CMD_SLOT_SZ,
        final(pp).rx_fis_dma == virt_to_phys_spec(final(pp).rx_fis),
        final(pp).cmd_tbl == mem + AHCI_CMD_SLOT_SZ + AHCI_RX_FIS_SZ,
        final(pp).cmd_tbl_dma == virt_to_phys_spec(final(pp).cmd_tbl),
        final(pp).cmd_tbl_sg == mem + AHCI_CMD_SLOT_SZ + AHCI_RX_FIS_SZ + AHCI_CMD_TBL_HDR_SZ,
{
    let mut mem: u64 = mem;
    pp.cmd_slot = mem;
    pp.cmd_slot_dma = ahci_virt_to_phys(mem);
    mem += AHCI_CMD_SLOT_SZ as u64;
    pp.rx_fis = mem;
    pp.rx_fis_dma = ahci_virt_to_phys(mem);
    mem += AHCI_RX_FIS_SZ as u64;
    pp.cmd_tbl = mem;
    pp.cmd_tbl_dma = ahci_virt_to_phys(mem);
    mem += AHCI_CMD_TBL_HDR_SZ as u64;
    pp.cmd_tbl_sg = mem;
}

/// Register writes that start a port whose DMA block is laid out: command
/// list and received-FIS addresses (low and high halves), then the command
/// register with interface active, FIS receive, power on, spin up and start.
pub fn ahci_port_start_writes(pp: &ahci_ioport) -> (r: [(u64, u32); 5])
    requires
        pp.port_mmio + PORT_CMD <= u64::MAX,
    ensures
        r[0] == ((pp.port_mmio + PORT_LST_ADDR) as u64, (pp.cmd_slot_dma & 0xffff_ffff) as u32),
        r[1] == ((pp.port_mmio + PORT_LST_ADDR_HI) as u64, (pp.cmd_slot_dma >> 32) as u32),
        r[2] == ((pp.port_mmio + PORT_FIS_ADDR) as u64, (pp.rx_fis_dma & 0xffff_ffff) as u32),
        r[3] == ((pp.port_mmio + PORT_FIS_ADDR_HI) as u64, (pp.rx_fis_dma >> 32) as u32),
        r[4] == ((pp.port_mmio + PORT_CMD) as u64, PORT_CMD_ICC_ACTIVE | PORT_CMD_FIS_RX | PORT_CMD_POWER_ON
            | PORT_CMD_SPIN_UP | PORT_CMD_START),
{
    let m = pp.port_mmio;
    [
        (m + PORT_LST_ADDR, (pp.cmd_slot_dma & 0xffff_ffff) as u32),
        (m + PORT_LST_ADDR_HI, (pp.cmd_slot_dma >> 32) as u32),
        (m + PORT_FIS_ADDR, (pp.rx_fis_dma & 0xffff_ffff) as u32),
        (m + PORT_FIS_ADDR_HI, (pp.rx_fis_dma >> 32) as u32),
        (
            m + PORT_CMD,
            PORT_CMD_ICC_ACTIVE | PORT_CMD_FIS_RX | PORT_CMD_POWER_ON | PORT_CMD_SPIN_UP
                | PORT_CMD_START,
        ),
    ]
}

/// Polls a port starts with (one per millisecond).
pub const PORT_START_POLLS: u32 = 200;

/// Where waiting for a started port stands after one poll.
#[derive(Copy, Clone, Debug, PartialEq, Eq, Structural)]
pub enum PortStartPoll {
    /// Not idle yet: poll again with this many polls left.
    Again(u32),
    /// The task file is idle with polls to spare: the port runs.
    Started,
    /// The polls ran out (even if this last one found it idle): the port
    /// failed to start.
    TimedOut,
}

/// One poll while a port starts: `left` polls remain (counting this one) and
/// the task-file register reads `tfd`.
pub fn ahci_port_start_poll(left: u32, tfd: u32) -> (r: PortStartPoll)
    requires
        left >= 1,
    ensures
        r == if left - 1 == 0 {
            PortStartPoll::TimedOut
        } else if tfd & 0x89 == 0 {
            PortStartPoll::Started
        } else {
            PortStartPoll::Again((left - 1) as u32)
        },
{
    let left = left - 1;
    let idle = ahci_port_idle(tfd);
    if left == 0 {
        PortStartPoll::TimedOut
    } else if idle {
        PortStartPoll::Started
    } else {
        PortStartPoll::Again(left)
    }
}

// ---------------------------------------------------------------- disk identification

/// Records the PIO and UDMA mode masks of the IDENTIFY data.
pub fn ahci_sata_xfer_mode(ahci_dev: &mut ahci_device, id: &[u16])
    requires
        id_complete(id@),
    ensures
        *final(ahci_dev) == (ahci_device {
            pio_mask: id@[ATA_ID_PIO_MODES as int] as u32,
            udma_mask: id@[ATA_ID_UDMA_MODES as int] as u32,
            ..*old(ahci_dev)
        }),
{
    ahci_dev.pio_mask = id[ATA_ID_PIO_MODES as usize] as u32;
    ahci_dev.udma_mask = id[ATA_ID_UDMA_MODES as usize] as u32;
}

/// The driver flags gained from the IDENTIFY data.
pub open spec fn wcache_flags_spec(flags: u32, id: Seq<u16>) -> u32 {
    let wc = command_set_2_valid(id) && id[ATA_ID_COMMAND_SET_1 as int] & 0x20 != 0 && id[ATA_ID_CSF_DEFAULT as int] & 0xc000 == 0x4000 && id[ATA_ID_CFS_ENABLE_1 as int] & 0x20 != 0;
    let fl = command_set_2_valid(id) && id[ATA_ID_COMMAND_SET_2 as int] & 0x1000 != 0;
    let fe = command_set_2_valid(id) && id[ATA_ID_COMMAND_SET_2 as int] & 0x2000 != 0;
    let f1 = if wc { flags | SATA_FLAG_WCACHE } else { flags };
    let f2 = if fl { f1 | SATA_FLAG_FLUSH } else { f1 };
    if fe { f2 | SATA_FLAG_FLUSH_EXT } else { f2 }
}

/// `flags` with the write-cache, flush and flush-ext flags added as the
/// three conditions say.
spec fn with_cache_flags(flags: u32, wc: bool, fl: bool, fe: bool) -> u32 {
    let f1 = if wc { flags | 256u32 } else { flags };
    let f2 = if fl { f1 | 512u32 } else { f1 };
    if fe { f2 | 1024u32 } else { f2 }
}

proof fn lemma_cache_flag_bits(flags: u32, wc: bool, fl: bool, fe: bool)
    by (bit_vector)
    ensures
        (with_cache_flags(flags, wc, fl, fe) & 256u32 != 0) == (flags & 256u32 != 0 || wc),
        (with_cache_flags(flags, wc, fl, fe) & 512u32 != 0) == (flags & 512u32 != 0 || fl),
        (with_cache_flags(flags, wc, fl, fe) & 1024u32 != 0) == (flags & 1024u32 != 0 || fe),
        with_cache_flags(flags, wc, fl, fe) & flags == flags,
        with_cache_flags(flags, wc, fl, fe) & !0x700u32 == flags & !0x700u32,
{
}

/// What the IDENTIFY data does to the driver flags: the write-cache flag is
/// set exactly when the old flags had it or the disk reports its write cache
/// both supported (word 83 valid, word 82 bit 5) and enabled (word 87 valid,
/// word 85 bit 5); the flush flag exactly when it was set or word 83 is
/// valid with bit 12; the flush-ext flag likewise with bit 13. No flag is
/// ever cleared and no other bit changes.
pub proof fn lemma_wcache_flags(flags: u32, id: Seq<u16>)
    requires
        id.len() > 87,
    ensures
        (wcache_flags_spec(flags, id) & SATA_FLAG_WCACHE != 0) <==> (flags & SATA_FLAG_WCACHE != 0 || (
        id[83] & 0xc000 == 0x4000 && id[82] & 0x20 != 0 && id[87] & 0xc000 == 0x4000 && id[85] & 0x20
            != 0)),
        (wcache_flags_spec(flags, id) & SATA_FLAG_FLUSH != 0) <==> (flags & SATA_FLAG_FLUSH != 0 || (id[83]
            & 0xc000 == 0x4000 && id[83] & 0x1000 != 0)),
        (wcache_flags_spec(flags, id) & SATA_FLAG_FLUSH_EXT != 0) <==> (flags & SATA_FLAG_FLUSH_EXT != 0 || (
        id[83] & 0xc000 == 0x4000 && id[83] & 0x2000 != 0)),
        wcache_flags_spec(flags, id) & flags == flags,
        wcache_flags_spec(flags, id) & !0x700u32 == flags & !0x700u32,
{
    let wc = id[83] & 0xc000 == 0x4000 && id[82] & 0x20 != 0 && id[87] & 0xc000 == 0x4000 && id[85] & 0x20 != 0;
    let fl = id[83] & 0xc000 == 0x4000 && id[83] & 0x1000 != 0;
    let fe = id[83] & 0xc000 == 0x4000 && id[83] & 0x2000 != 0;
    assert(wcache_flags_spec(flags, id) == with_cache_flags(flags, wc, fl, fe));
    lemma_cache_flag_bits(flags, wc, fl, fe);
}

/// Sets the write-cache and flush flags that the IDENTIFY data announces.
pub fn ahci_sata_init_wcache(ahci_dev: &mut ahci_device, id: &[u16])
    requires
        id_complete(id@),
    ensures
        *final(ahci_dev) == (ahci_device {
            flags: wcache_flags_spec(old(ahci_dev).flags, id@),
            ..*old(ahci_dev)
        }),
{
    if ata_id_has_wcache(id) && ata_id_wcache_enabled(id) {
        ahci_dev.flags |= SATA_FLAG_WCACHE;
    }
    if ata_id_has_flush(id) {
        ahci_dev.flags |= SATA_FLAG_FLUSH;
    }
    if ata_id_has_flush_ext(id) {
        ahci_dev.flags |= SATA_FLAG_FLUSH_EXT;
    }
}

/// Fills the disk record from the IDENTIFY data `id`, records the transfer
/// modes and cache flags, and returns the SET FEATURES command that selects
/// the transfer mode (`ffs(udma_mask + 1) + 0x3e`).
pub fn ahci_sata_scan(ahci_dev: &mut ahci_device, id: &[u16]) -> (r: AhciCommand)
    requires
        id_complete(id@),
    ensures
        final(ahci_dev).blk_dev.product@ == c_string_result(id@, ATA_ID_PROD as int, old(ahci_dev).blk_dev.product@),
        final(ahci_dev).blk_dev.serial@ == c_string_result(id@, ATA_ID_SERNO as int, old(ahci_dev).blk_dev.serial@),
        final(ahci_dev).blk_dev.revision@ == c_string_result(id@, ATA_ID_FW_REV as int, old(ahci_dev).blk_dev.revision@),
        final(ahci_dev).blk_dev.lba as int == n_sectors_spec(id@),
        final(ahci_dev).blk_dev.blksz == ATA_SECT_SIZE,
        final(ahci_dev).blk_dev.lba48 == has_lba48_spec(id@),
        final(ahci_dev).blk_dev.queue_depth == (id@[ATA_ID_QUEUE_DEPTH as int] & 0x1f) + 1,
        final(ahci_dev).pio_mask == id@[ATA_ID_PIO_MODES as int] as u32,
        final(ahci_dev).udma_mask == id@[ATA_ID_UDMA_MODES as int] as u32,
        final(ahci_dev).flags == wcache_flags_spec(old(ahci_dev).flags, id@),
        final(ahci_dev).mmio_base == old(ahci_dev).mmio_base,
        final(ahci_dev).cap == old(ahci_dev).cap,
        final(ahci_dev).cap2 == old(ahci_dev).cap2,
        final(ahci_dev).version == old(ahci_dev).version,
        final(ahci_dev).port_map == old(ahci_dev).port_map,
        final(ahci_dev).n_ports == old(ahci_dev).n_ports,
        final(ahci_dev).port_map_linkup == old(ahci_dev).port_map_linkup,
        final(ahci_dev).port == old(ahci_dev).port,
        final(ahci_dev).port_idx == old(ahci_dev).port_idx,
        exists|slot: u32|
            #[trigger] is_ffs((id@[ATA_ID_UDMA_MODES as int] + 1) as u32, slot) && r == (AhciCommand {
                port: old(ahci_dev).port_idx,
                cfis: fis(ATA_CMD_SET_FEATURES, SETFEATURES_XFER, 0, 0, 0, 0, 0, 0, 0, (slot + 0x3e) as u8, 0),
                buf: 0,
                buf_len: 0,
                is_write: READ_CMD,
            }),
{
    let mut pdev: ahci_blk_dev = ahci_dev.blk_dev;
    ata_id_c_string(id, &mut pdev.product, ATA_ID_PROD as usize);
    ata_id_c_string(id, &mut pdev.serial, ATA_ID_SERNO as usize);
    ata_id_c_string(id, &mut pdev.revision, ATA_ID_FW_REV as usize);
    pdev.lba = ata_id_n_sectors(id);
    pdev.blksz = ATA_SECT_SIZE as u64;
    pdev.lba48 = ata_id_has_lba48(id);
    pdev.queue_depth = ata_id_queue_depth(id);
    ahci_dev.blk_dev = pdev;

    ahci_sata_xfer_mode(ahci_dev, id);
    ahci_sata_init_wcache(ahci_dev, id);

    let subcmd: u8 = SETFEATURES_XFER;
    let slot: u32 = ahci_ffs32(ahci_dev.udma_mask + 1);
    let action: u8 = (slot + 0x3e) as u8;
    ahci_set_feature(ahci_dev, subcmd, action)
}

// ---------------------------------------------------------------- controller report

/// Interface speed of the controller (CAP bits 20-23).
#[derive(Copy, Clone, Debug, PartialEq, Eq, Structural)]
pub enum AhciSpeed {
    Gen1,
    Gen2,
    Gen3,
    Unknown,
}

/// What the controller report prints: version bytes, command slots, ports,
/// speed, implemented-port map and the names of the capability flags set.
pub struct AhciInfo {
    pub vers: [u32; 4],
    pub slots: u32,
    pub ports: u32,
    pub speed: AhciSpeed,
    pub impl_map: u32,
    pub flags: Vec<&'static str>,
}

/// The capability flags that the report names, in report order: whether the
/// flag is in CAP2, its mask, and its name.
pub open spec fn cap_flag_table() -> Seq<(bool, u32, &'static str)> {
    seq![
        (false, 1u32 << 31u32, "64bit "),
        (false, 1u32 << 30u32, "ncq "),
        (false, 1u32 << 29u32, "sntf "),
        (false, 1u32 << 28u32, "ilck "),
        (false, 1u32 << 27u32, "stag "),
        (false, 1u32 << 26u32, "pm "),
        (false, 1u32 << 25u32, "led "),
        (false, 1u32 << 24u32, "clo "),
        (false, 1u32 << 18u32, "only "),
        (false, 1u32 << 17u32, "pmp "),
        (false, 1u32 << 16u32, "fbs "),
        (false, 1u32 << 15u32, "pio "),
        (false, 1u32 << 14u32, "slum "),
        (false, 1u32 << 13u32, "part "),
        (false, 1u32 << 7u32, "ccc "),
        (false, 1u32 << 6u32, "ems "),
        (false, 1u32 << 5u32, "sxs "),
        (true, 1u32 << 5u32, "deso "),
        (true, 1u32 << 4u32, "sadm "),
        (true, 1u32 << 3u32, "sds "),
        (true, 1u32 << 2u32, "apst "),
        (true, 1u32 << 1u32, "nvmp "),
        (true, 1u32 << 0u32, "boh ")
    ]
}

/// Names of the first `n` table flags that are set.
pub open spec fn cap_flag_names(cap: u32, cap2: u32, n: int) -> Seq<&'static str>
    decreases n,
{
    if n <= 0 {
        Seq::empty()
    } else {
        let prev = cap_flag_names(cap, cap2, n - 1);
        let e = cap_flag_table()[n - 1];
        if (if e.0 { cap2 } else { cap }) & e.1 != 0 {
            prev.push(e.2)
        } else {
            prev
        }
    }
}

/// The controller report of `ahci_dev`.
pub fn ahci_print_info(ahci_dev: &ahci_device) -> (r: AhciInfo)
    ensures
        r.vers@ == seq![(ahci_dev.version >> 24u32) & 0xffu32, (ahci_dev.version >> 16u32) & 0xffu32, (ahci_dev.version >> 8u32) & 0xffu32, ahci_dev.version & 0xffu32],
        r.slots == ((ahci_dev.cap >> 8u32) & 0x1fu32) + 1,
        r.ports == (ahci_dev.cap & 0x1fu32) + 1,
        r.impl_map == ahci_dev.port_map,
        r.speed == match (ahci_dev.cap >> 20u32) & 0xfu32 {
            1u32 => AhciSpeed::Gen1,
            2u32 => AhciSpeed::Gen2,
            3u32 => AhciSpeed::Gen3,
            _ => AhciSpeed::Unknown,
        },
        r.flags@ == cap_flag_names(ahci_dev.cap, ahci_dev.cap2, 23),
{
    let vers: u32 = ahci_dev.version;
    let cap: u32 = ahci_dev.cap;
    let cap2: u32 = ahci_dev.cap2;
    let speed_bits: u32 = (cap >> 20) & 0xf;
    let speed = if speed_bits == 1 {
        AhciSpeed::Gen1
    } else if speed_bits == 2 {
        AhciSpeed::Gen2
    } else if speed_bits == 3 {
        AhciSpeed::Gen3
    } else {
        AhciSpeed::Unknown
    };
    assert(((cap >> 8u32) & 0x1fu32) + 1 <= 32 && (cap & 0x1fu32) + 1 <= 32) by (bit_vector);
    let table: Vec<(bool, u32, &'static str)> = vec![
        (false, 1u32 << 31u32, "64bit "),
        (false, 1u32 << 30u32, "ncq "),
        (false, 1u32 << 29u32, "sntf "),
        (false, 1u32 << 28u32, "ilck "),
        (false, 1u32 << 27u32, "stag "),
        (false, 1u32 << 26u32, "pm "),
        (false, 1u32 << 25u32, "led "),
        (false, 1u32 << 24u32, "clo "),
        (false, 1u32 << 18u32, "only "),
        (false, 1u32 << 17u32, "pmp "),
        (false, 1u32 << 16u32, "fbs "),
        (false, 1u32 << 15u32, "pio "),
        (false, 1u32 << 14u32, "slum "),
        (false, 1u32 << 13u32, "part "),
        (false, 1u32 << 7u32, "ccc "),
        (false, 1u32 << 6u32, "ems "),
        (false, 1u32 << 5u32, "sxs "),
        (true, 1u32 << 5u32, "deso "),
        (true, 1u32 << 4u32, "sadm "),
        (true, 1u32 << 3u32, "sds "),
        (true, 1u32 << 2u32, "apst "),
        (true, 1u32 << 1u32, "nvmp "),
        (true, 1u32 << 0u32, "boh ")
    ];
    assert(table@ =~= cap_flag_table());
    let mut flags: Vec<&'static str> = Vec::new();
    let mut i: usize = 0;
    while i < table.len()
        invariant
            table@ == cap_flag_table(),
            i <= table@.len(),
            flags@ == cap_flag_names(cap, cap2, i as int),
        decreases table@.len() - i,
    {
        let e = table[i];
        let reg: u32 = if e.0 {
            cap2
        } else {
            cap
        };
        if reg & e.1 != 0 {
            flags.push(e.2);
        }
        i = i + 1;
    }
    let vers_bytes: [u32; 4] = [vers >> 24 & 0xff, vers >> 16 & 0xff, vers >> 8 & 0xff, vers & 0xff];
    assert(vers_bytes@ =~= seq![(vers >> 24u32) & 0xffu32, (vers >> 16u32) & 0xffu32, (vers >> 8u32) & 0xffu32, vers & 0xffu32]);
    AhciInfo {
        vers: vers_bytes,
        slots: (cap >> 8 & 0x1f) + 1,
        ports: (cap & 0x1f) + 1,
        speed,
        impl_map: ahci_dev.port_map,
        flags,
    }
}

} // verus!
