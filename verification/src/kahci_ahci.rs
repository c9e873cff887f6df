//! The polled AHCI controller driver: parameter checks, the command FIS and
//! PRD entry of a transfer, capacity parsing from IDENTIFY data, and the
//! interpretation of the completion registers.

use vstd::prelude::*;

verus! {

/// Port register offsets used by the controller driver.
pub const PORT_IS: usize = 0x10;
pub const PORT_TFD: usize = 0x20;
pub const PORT_SSTS: usize = 0x28;
pub const PORT_CI: usize = 0x38;

pub const PORT_CMD: usize = 0x18;

/// Global host control bits.
pub const GHC_AE: u32 = 1 << 31;
pub const GHC_IE: u32 = 1 << 1;
pub const GHC_HR: u32 = 1 << 0;

/// Port command bits.
pub const CMD_ST: u32 = 1 << 0;
pub const CMD_SUD: u32 = 1 << 1;
pub const CMD_POD: u32 = 1 << 2;
pub const CMD_FRE: u32 = 1 << 4;
pub const CMD_FR: u32 = 1 << 14;
pub const CMD_CR: u32 = 1 << 15;

/// Polls of a register before the wait is given up.
pub const REGISTER_POLLS: u32 = 1000;
/// Polls of the command-issue register before a command times out.
pub const COMMAND_POLLS: u32 = 10000;

pub const FIS_TYPE_REG_H2D: u8 = 0x27;
pub const ATA_CMD_READ_DMA_EXT: u8 = 0x25;
pub const ATA_CMD_WRITE_DMA_EXT: u8 = 0x35;
pub const ATA_CMD_IDENTIFY: u8 = 0xEC;

/// Errors of the controller driver.
#[derive(Debug, Copy, Clone, PartialEq, Eq, Structural)]
pub enum AhciError {
    InitializationFailed,
    PortNotConnected,
    CommandTimeout,
    DataTransferError,
    InvalidParameters,
}

/// The controller: its register base, and the capacity in sectors of the
/// disk found on each initialised port, in port order.
pub struct AhciController {
    pub base: usize,
    pub ports: u8,
    pub port_capacities: Vec<usize>,
}

/// Register block of port `port`.
pub fn port_base(base: usize, port: u8) -> (r: usize)
    requires
        base + 0x100 + port * 0x80 <= usize::MAX,
    ensures
        r == base + 0x100 + port * 0x80,
{
    base + 0x100 + (port as usize) * 0x80
}

/// The sector count of a buffer of `len` bytes for a transfer: fails when it
/// holds no whole sector or more than 65535.
pub open spec fn transfer_sectors_spec(len: usize) -> Result<usize, AhciError> {
    if len / 512 == 0 || len / 512 > 65535 {
        Err(AhciError::InvalidParameters)
    } else {
        Ok((len / 512) as usize)
    }
}

/// The sector count of a buffer of `len` bytes for a transfer: fails when it
/// holds no whole sector or more than 65535.
pub fn transfer_sectors(len: usize) -> (r: Result<usize, AhciError>)
    ensures
        r == transfer_sectors_spec(len),
{
    let sectors = len / 512;
    if sectors == 0 || sectors > 65535 {
        return Err(AhciError::InvalidParameters);
    }
    Ok(sectors)
}

/// A transfer moves the whole sectors its buffer holds: every buffer of
/// 1 to 65535 whole sectors is accepted, with exactly that many sectors
/// (a buffer of `k * 512` bytes moves `k` sectors, and any tail shorter
/// than a sector is left out); only a buffer with no whole sector or more
/// than 65535 is refused, and then with `InvalidParameters`.
pub proof fn lemma_transfer_whole_sectors(len: usize)
    ensures
        512 <= len < 65536 * 512 ==> transfer_sectors_spec(len) is Ok,
        transfer_sectors_spec(len) matches Ok(s) ==> 1 <= s <= 65535 && s * 512 <= len < s * 512 + 512,
        transfer_sectors_spec(len) matches Err(e) ==> e == AhciError::InvalidParameters && (len < 512
            || len >= 65536 * 512),
{
}

/// The 16 command-FIS bytes of a 48-bit command: type, command bit, command,
/// LBA bytes 0-2, LBA mode, LBA bytes 3-5, sector count (two bytes).
pub open spec fn command_fis_spec(command: u8, lba: u64, sectors: usize) -> Seq<u8> {
    seq![
        FIS_TYPE_REG_H2D,
        0x80u8,
        command,
        0u8,
        (lba & 0xFF) as u8,
        ((lba >> 8u64) & 0xFF) as u8,
        ((lba >> 16u64) & 0xFF) as u8,
        0x40u8,
        ((lba >> 24u64) & 0xFF) as u8,
        ((lba >> 32u64) & 0xFF) as u8,
        ((lba >> 40u64) & 0xFF) as u8,
        0u8,
        (sectors & 0xFF) as u8,
        ((sectors >> 8usize) & 0xFF) as u8,
        0u8,
        0u8,
    ]
}

/// A command FIS is a host-to-device register FIS with the command bit set
/// and the command in byte 2, in LBA mode (device byte 0x40); its six LBA
/// bytes, read little-endian (bytes 4-6, then 8-10), give the block number
/// modulo 2^48, and its two count bytes (12, 13) give the sector count
/// modulo 2^16.
pub proof fn lemma_command_fis_encodes(command: u8, lba: u64, sectors: usize)
    ensures
        ({
            let f = command_fis_spec(command, lba, sectors);
            &&& f.len() == 16
            &&& f[0] == FIS_TYPE_REG_H2D && f[1] == 0x80 && f[2] == command && f[7] == 0x40
            &&& f[4] + f[5] * 0x100 + f[6] * 0x1_0000 + f[8] * 0x100_0000 + f[9] * 0x1_0000_0000 + f[10]
                * 0x100_0000_0000 == lba as int % 0x1_0000_0000_0000
            &&& f[12] + f[13] * 0x100 == sectors as int % 0x1_0000
        }),
{
    assert(((lba >> 40u64 & 0xff) as u8) as int * 0x100_0000_0000 + ((lba >> 32u64 & 0xff) as u8) as int
        * 0x1_0000_0000 + ((lba >> 24u64 & 0xff) as u8) as int * 0x100_0000 + ((lba >> 16u64 & 0xff)
        as u8) as int * 0x1_0000 + ((lba >> 8u64 & 0xff) as u8) as int * 0x100 + ((lba & 0xff) as u8) as int
        == lba as int % 0x1_0000_0000_0000) by (bit_vector);
    let s16 = (sectors % 0x1_0000) as u32;
    assert(((s16 >> 8u32 & 0xff) as u8) as int * 0x100 + ((s16 & 0xff) as u8) as int == s16 as int) by (bit_vector)
        requires
            s16 < 0x1_0000,
    ;
    assert(((sectors >> 8usize) & 0xFF) as u8 == ((s16 >> 8u32) & 0xff) as u8 && (sectors & 0xFF) as u8 == (s16 & 0xff) as u8) by (bit_vector)
        requires
            s16 == (sectors % 0x1_0000) as u32,
    ;
}

/// The command FIS bytes written to the command table.
pub fn command_fis(command: u8, lba: u64, sectors: usize) -> (r: [u8; 16])
    ensures
        r@ == command_fis_spec(command, lba, sectors),
{
    let mut fis: [u8; 16] = [0u8; 16];
    fis[0] = FIS_TYPE_REG_H2D;
    fis[1] = 0x80;
    fis[2] = command;
    fis[3] = 0;
    fis[4] = (lba & 0xFF) as u8;
    fis[5] = ((lba >> 8) & 0xFF) as u8;
    fis[6] = ((lba >> 16) & 0xFF) as u8;
    fis[7] = 0x40;
    fis[8] = ((lba >> 24) & 0xFF) as u8;
    fis[9] = ((lba >> 32) & 0xFF) as u8;
    fis[10] = ((lba >> 40) & 0xFF) as u8;
    fis[11] = 0;
    fis[12] = (sectors & 0xFF) as u8;
    fis[13] = ((sectors >> 8) & 0xFF) as u8;
    assert(fis@ =~= command_fis_spec(command, lba, sectors));
    fis
}

/// The single PRD entry of a transfer: data address low and high words, and
/// the byte count minus one.
pub fn prdt_entry(data_addr: u64, sectors: usize) -> (r: (u32, u32, u32))
    requires
        1 <= sectors <= 65535,
    ensures
        r.0 == (data_addr & 0xffff_ffff) as u32,
        r.1 == (data_addr >> 32u64) as u32,
        r.2 == sectors * 512 - 1,
{
    ((data_addr & 0xffff_ffff) as u32, (data_addr >> 32) as u32, (sectors * 512 - 1) as u32)
}

/// How a polled command ended: a timeout, an error bit in the task file, or
/// success.
pub fn command_outcome(timed_out: bool, tfd: u32) -> (r: Result<(), AhciError>)
    ensures
        r == if timed_out {
            Err::<(), AhciError>(AhciError::CommandTimeout)
        } else if tfd & 1 != 0 {
            Err::<(), AhciError>(AhciError::DataTransferError)
        } else {
            Ok(())
        },
{
    if timed_out {
        return Err(AhciError::CommandTimeout);
    }
    if tfd & 0x1 != 0 {
        return Err(AhciError::DataTransferError);
    }
    Ok(())
}

/// Capacity in sectors from IDENTIFY data: the 48-bit count of words 100-103
/// when nonzero, else the 28-bit count of words 60-61.
pub fn identify_capacity(data: &[u16]) -> (r: u64)
    requires
        data@.len() >= 104,
    ensures
        r == if crate::libata::id_u64_spec(data@, 100) > 0 {
            crate::libata::id_u64_spec(data@, 100)
        } else {
            crate::libata::id_u32_spec(data@, 60)
        },
{
    let lba48_sectors = crate::libata::ata_id_u64(data, 100);
    if lba48_sectors > 0 {
        lba48_sectors
    } else {
        crate::libata::ata_id_u32(data, 60) as u64
    }
}

/// How initialising the controller goes on once the reset was waited for:
/// it fails when the reset did not finish or port 0 is not implemented;
/// otherwise the host is switched to AHCI mode with interrupts
/// (`GHC_AE | GHC_IE`) and port 0 is set up.
pub fn initialize_outcome(reset_done: bool, ports_impl: u32) -> (r: Result<u32, AhciError>)
    ensures
        r == if !reset_done || ports_impl & 1 == 0 {
            Err::<u32, AhciError>(AhciError::InitializationFailed)
        } else {
            Ok(GHC_AE | GHC_IE)
        },
{
    if !reset_done {
        return Err(AhciError::InitializationFailed);
    }
    if ports_impl & 1 == 0 {
        return Err(AhciError::InitializationFailed);
    }
    Ok(GHC_AE | GHC_IE)
}

/// One poll of a register wait: the wait goes on while the polled bits are
/// set (`waiting`) and polls are `left`; returns the polls left after this
/// one, or `None` when the wait is over.
pub fn poll_step(waiting: bool, left: u32) -> (r: Option<u32>)
    ensures
        r == if waiting && left > 0 {
            Some((left - 1) as u32)
        } else {
            None::<u32>
        },
{
    if waiting && left > 0 {
        Some(left - 1)
    } else {
        None
    }
}

/// The command register with command processing and FIS receive stopped.
pub fn port_cmd_stopped(cmd: u32) -> (r: u32)
    ensures
        r == cmd & !(CMD_ST | CMD_FRE),
{
    cmd & !(CMD_ST | CMD_FRE)
}

/// The command register with FIS receive enabled and the device spun up and
/// powered on.
pub fn port_cmd_enabled(cmd: u32) -> (r: u32)
    ensures
        r == cmd | CMD_FRE | CMD_SUD | CMD_POD,
{
    cmd | CMD_FRE | CMD_SUD | CMD_POD
}

/// The command register with command processing started.
pub fn port_cmd_started(cmd: u32) -> (r: u32)
    ensures
        r == cmd | CMD_ST,
{
    cmd | CMD_ST
}

/// Whether the port still runs its command list or FIS receive.
pub fn port_still_running(cmd: u32) -> (r: bool)
    ensures
        r == (cmd & (CMD_FR | CMD_CR) != 0),
{
    cmd & (CMD_FR | CMD_CR) != 0
}

/// The command header of slot 0 for a command table at physical address
/// `table`: a 5-dword FIS, one PRD entry, and the table address in halves.
pub fn command_header(table: u64) -> (r: (u16, u16, u32, u32))
    ensures
        r == (5u16, 1u16, (table & 0xffff_ffff) as u32, (table >> 32u64) as u32),
{
    (5, 1, (table & 0xffff_ffff) as u32, (table >> 32) as u32)
}

impl AhciController {
    /// Capacity in bytes of the disk on `port`; 0 when the port has none.
    pub fn get_capacity(&self, port: u8) -> (r: usize)
        requires
            forall|i: int| 0 <= i < self.port_capacities@.len() ==> self.port_capacities@[i] * 512 <= usize::MAX,
        ensures
            r == if (port as int) < self.port_capacities@.len() {
                self.port_capacities@[port as int] * 512
            } else {
                0
            },
    {
        if (port as usize) < self.port_capacities.len() {
            self.port_capacities[port as usize] * 512
        } else {
            0
        }
    }

    /// Whether a port interrupt status value means an interrupt to clear.
    pub fn handle_interrupt(&self, is: u32) -> (r: bool)
        ensures
            r == (is != 0),
    {
        is != 0
    }

    /// Whether a port's SATA status shows a connected device.
    pub fn is_port_connected(&self, ssts: u32) -> (r: bool)
        ensures
            r == (ssts & 0xF == 3),
    {
        (ssts & 0xF) == 0x3
    }

    /// The command of a block read: READ DMA EXT of the buffer's sectors.
    pub fn read_blocks(&self, lba: usize, len: usize) -> (r: Result<(u8, u64, usize), AhciError>)
        ensures
            r == match transfer_sectors_spec(len) {
                Ok(s) => Ok::<(u8, u64, usize), AhciError>((ATA_CMD_READ_DMA_EXT, lba as u64, s)),
                Err(e) => Err(e),
            },
    {
        let sectors = transfer_sectors(len)?;
        Ok((ATA_CMD_READ_DMA_EXT, lba as u64, sectors))
    }

    /// The command of a block write: WRITE DMA EXT of the buffer's sectors.
    pub fn write_blocks(&self, lba: usize, len: usize) -> (r: Result<(u8, u64, usize), AhciError>)
        ensures
            r == match transfer_sectors_spec(len) {
                Ok(s) => Ok::<(u8, u64, usize), AhciError>((ATA_CMD_WRITE_DMA_EXT, lba as u64, s)),
                Err(e) => Err(e),
            },
    {
        let sectors = transfer_sectors(len)?;
        Ok((ATA_CMD_WRITE_DMA_EXT, lba as u64, sectors))
    }
}

} // verus!
