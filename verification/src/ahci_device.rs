//! The AHCI controller record and its SATA disks: which ports are
//! implemented, where their registers lie, the per-port disk table, and the
//! sector read/write entry points, which give the DMA command for a port to run.

use vstd::prelude::*;
use crate::ahci_regs::{GlobalHostControl, HostCapabilities, PortCommand, SerialATAStatus};
use crate::ahci_platform::{ahci_platform_phys_to_virt, DIRECT_MAP_BASE};
use crate::kahci_ahci::{command_fis, command_fis_spec, ATA_CMD_READ_DMA_EXT, ATA_CMD_WRITE_DMA_EXT};

verus! {

/// Maximum number of ports of a controller.
pub const AHCI_MAX_PORTS: usize = 32;
/// Sector size of a SATA disk.
pub const SATA_BLOCK_SIZE: usize = 512;

/// A SATA disk on one port.
pub struct AhciBlkDev {
    pub port_num: usize,
    /// Address of the port's register block.
    pub port_regs: usize,
    /// Capacity in sectors.
    pub capacity: u64,
    pub model_string: [u8; 40],
    pub serial_string: [u8; 20],
    pub supports_lba48: bool,
    /// Virtual addresses of the command list, the received-FIS area and the
    /// 32 command tables.
    pub command_list: usize,
    pub received_fis: usize,
    pub command_tables: Vec<usize>,
}

/// The AHCI controller.
pub struct AhciDevice {
    pub base_addr: usize,
    /// Register block of each implemented port.
    pub ports: Vec<Option<usize>>,
    /// Disk found on each port.
    pub devices: Vec<Option<AhciBlkDev>>,
    pub capabilities: HostCapabilities,
    pub ports_implemented: u32,
}

/// Register block of port `port` of the controller at `base`.
pub open spec fn port_base_spec(base: usize, port: int) -> int {
    base + 0x100 + port * 0x80
}

impl AhciDevice {
    /// The table sizes hold: one entry per possible port.
    pub open spec fn wf(&self) -> bool {
        &&& self.ports@.len() == AHCI_MAX_PORTS
        &&& self.devices@.len() == AHCI_MAX_PORTS
    }

    /// A controller at `base_addr` with no port and no disk known yet.
    pub fn new(base_addr: usize) -> (r: Result<Self, &'static str>)
        ensures
            r is Ok,
            r matches Ok(d) && d.wf() && d.base_addr == base_addr && d.ports_implemented == 0
                && d.capabilities.bits == 0 && (forall|i: int| 0 <= i < 32 ==> d.ports@[i] is None && d.devices@[i] is None),
    {
        let mut ports: Vec<Option<usize>> = Vec::new();
        let mut devices: Vec<Option<AhciBlkDev>> = Vec::new();
        let mut i: usize = 0;
        while i < AHCI_MAX_PORTS
            invariant
                i <= AHCI_MAX_PORTS,
                ports@.len() == i,
                devices@.len() == i,
                forall|j: int| 0 <= j < i ==> ports@[j] is None && devices@[j] is None,
            decreases AHCI_MAX_PORTS - i,
        {
            ports.push(None);
            devices.push(None);
            i = i + 1;
        }
        Ok(
            AhciDevice {
                base_addr,
                ports,
                devices,
                capabilities: HostCapabilities::empty(),
                ports_implemented: 0,
            },
        )
    }

    /// Records the capability and ports-implemented registers, gives each
    /// implemented port its register block, and returns the value written to
    /// the global host control register (`ghc` with AHCI enabled).
    pub fn init_controller(&mut self, cap: u32, pi: u32, ghc: u32) -> (r: Result<u32, &'static str>)
        requires
            old(self).wf(),
            old(self).base_addr + 0x100 + 32 * 0x80 <= usize::MAX,
        ensures
            final(self).wf(),
            r == Ok::<u32, &'static str>(ghc | GlobalHostControl::AE),
            final(self).capabilities.bits == cap & HostCapabilities::ALL,
            final(self).ports_implemented == pi,
            final(self).base_addr == old(self).base_addr,
            final(self).devices@ == old(self).devices@,
            forall|i: int|
                0 <= i < 32 ==> #[trigger] final(self).ports@[i] == if (pi >> (i as u32)) & 1u32 != 0 {
                    Some(port_base_spec(old(self).base_addr, i) as usize)
                } else {
                    old(self).ports@[i]
                },
    {
        self.capabilities = HostCapabilities::from_bits_truncate(cap);
        self.ports_implemented = pi;
        let ghc_val: u32 = ghc | GlobalHostControl::AE;
        let ghost before = self.ports@;
        let mut port: usize = 0;
        while port < AHCI_MAX_PORTS
            invariant
                port <= AHCI_MAX_PORTS,
                self.ports@.len() == AHCI_MAX_PORTS,
                self.devices@.len() == AHCI_MAX_PORTS,
                self.ports_implemented == pi,
                self.capabilities.bits == cap & HostCapabilities::ALL,
                self.base_addr == old(self).base_addr,
                self.devices@ == old(self).devices@,
                before.len() == AHCI_MAX_PORTS,
                self.base_addr + 0x100 + 32 * 0x80 <= usize::MAX,
                forall|i: int|
                    0 <= i < port ==> #[trigger] self.ports@[i] == if (pi >> (i as u32)) & 1u32 != 0 {
                        Some(port_base_spec(self.base_addr, i) as usize)
                    } else {
                        before[i]
                    },
                forall|i: int| port <= i < 32 ==> #[trigger] self.ports@[i] == before[i],
            decreases AHCI_MAX_PORTS - port,
        {
            let p: u32 = port as u32;
            assert(p < 32 ==> ((pi & (1u32 << p)) != 0u32) == ((pi >> p) & 1u32 != 0u32)) by (bit_vector);
            if (self.ports_implemented & (1u32 << (port as u32))) != 0 {
                let port_base: usize = self.base_addr + 0x100 + port * 0x80;
                self.ports.set(port, Some(port_base));
            }
            port = port + 1;
        }
        Ok(ghc_val)
    }

    /// Whether a device answers on `port_num`, given its SATA status: an
    /// error for a port that is out of range or not implemented.
    pub fn scan_port(&self, port_num: usize, ssts: u32) -> (r: Result<bool, &'static str>)
        requires
            self.wf(),
        ensures
            port_num >= 32 || self.ports@[port_num as int] is None ==> r == Err::<bool, &'static str>("Invalid port number"),
            port_num < 32 && self.ports@[port_num as int] is Some ==> r == Ok::<bool, &'static str>(ssts & SerialATAStatus::DET_MASK == SerialATAStatus::DET_ESTABLISHED),
    {
        if port_num >= AHCI_MAX_PORTS || self.ports[port_num].is_none() {
            return Err("Invalid port number");
        }
        let det: u32 = ssts & SerialATAStatus::DET_MASK;
        Ok(det == SerialATAStatus::DET_ESTABLISHED)
    }

    /// Puts `device` on port `port_num`; nothing happens out of range.
    pub fn add_device(&mut self, port_num: usize, device: AhciBlkDev)
        requires
            old(self).wf(),
        ensures
            final(self).wf(),
            final(self).ports@ == old(self).ports@,
            port_num < 32 ==> final(self).devices@ == old(self).devices@.update(port_num as int, Some(device)),
            port_num >= 32 ==> final(self).devices@ == old(self).devices@,
    {
        if port_num < AHCI_MAX_PORTS {
            self.devices.set(port_num, Some(device));
        }
    }

    /// The disk on port `port_num`, if any.
    pub fn get_device(&self, port_num: usize) -> (r: Option<&AhciBlkDev>)
        requires
            self.wf(),
        ensures
            r == if port_num < 32 {
                match self.devices@[port_num as int] {
                    Some(d) => Some(&d),
                    None => None,
                }
            } else {
                None
            },
    {
        if port_num < AHCI_MAX_PORTS {
            match &self.devices[port_num] {
                Some(d) => Some(d),
                None => None,
            }
        } else {
            None
        }
    }
}

impl AhciBlkDev {
    /// The disk on port `port_num`, using the command list and received-FIS
    /// areas whose physical addresses the port registers hold, and the given
    /// command tables. Capacity, strings and LBA48 support are not known yet.
    pub fn new(
        port_num: usize,
        port_regs: usize,
        cl_phys: u64,
        rfis_phys: u64,
        command_tables: Vec<usize>,
    ) -> (r: Result<Self, &'static str>)
        requires
            usize::MAX == u64::MAX,
            cl_phys < DIRECT_MAP_BASE ==> cl_phys + DIRECT_MAP_BASE <= u64::MAX,
            rfis_phys < DIRECT_MAP_BASE ==> rfis_phys + DIRECT_MAP_BASE <= u64::MAX,
        ensures
            r matches Ok(d) && d.port_num == port_num && d.port_regs == port_regs && d.capacity == 0
                && !d.supports_lba48 && d.command_tables@ == command_tables@ && d.command_list
                == (if cl_phys < DIRECT_MAP_BASE { cl_phys + DIRECT_MAP_BASE } else { cl_phys as int })
                && d.received_fis == (if rfis_phys < DIRECT_MAP_BASE { rfis_phys + DIRECT_MAP_BASE } else { rfis_phys as int }),
    {
        let cl_ptr = ahci_platform_phys_to_virt(cl_phys as usize);
        let rfis_ptr = ahci_platform_phys_to_virt(rfis_phys as usize);
        Ok(
            AhciBlkDev {
                port_num,
                port_regs,
                capacity: 0,
                model_string: [0u8; 40],
                serial_string: [0u8; 20],
                supports_lba48: false,
                command_list: cl_ptr,
                received_fis: rfis_ptr,
                command_tables,
            },
        )
    }

    /// Gives a freshly found disk its placeholder identity: 2048 sectors,
    /// model "Test SSD    ", serial "12345678".
    pub fn set_test_identity(&mut self)
        ensures
            final(self).capacity == 2048,
            final(self).model_string@.subrange(0, 12) == seq![0x54u8, 0x65u8, 0x73u8, 0x74u8, 0x20u8, 0x53u8, 0x53u8, 0x44u8, 0x20u8, 0x20u8, 0x20u8, 0x20u8],
            final(self).model_string@.subrange(12, 40) == old(self).model_string@.subrange(12, 40),
            final(self).serial_string@.subrange(0, 8) == seq![0x31u8, 0x32u8, 0x33u8, 0x34u8, 0x35u8, 0x36u8, 0x37u8, 0x38u8],
            final(self).serial_string@.subrange(8, 20) == old(self).serial_string@.subrange(8, 20),
            final(self).port_num == old(self).port_num,
            final(self).supports_lba48 == old(self).supports_lba48,
    {
        self.capacity = 2048;
        // "Test SSD    "
        let model: [u8; 12] = [0x54u8, 0x65u8, 0x73u8, 0x74u8, 0x20u8, 0x53u8, 0x53u8, 0x44u8, 0x20u8, 0x20u8, 0x20u8, 0x20u8];
        // "12345678"
        let serial: [u8; 8] = [0x31u8, 0x32u8, 0x33u8, 0x34u8, 0x35u8, 0x36u8, 0x37u8, 0x38u8];
        let mut i: usize = 0;
        while i < 12
            invariant
                i <= 12,
                self.capacity == 2048,
                self.port_num == old(self).port_num,
                self.supports_lba48 == old(self).supports_lba48,
                self.serial_string == old(self).serial_string,
                forall|k: int| 0 <= k < i ==> self.model_string@[k] == model@[k],
                forall|k: int| 12 <= k < 40 ==> self.model_string@[k] == old(self).model_string@[k],
            decreases 12 - i,
        {
            self.model_string[i] = model[i];
            i = i + 1;
        }
        let mut j: usize = 0;
        while j < 8
            invariant
                j <= 8,
                self.capacity == 2048,
                self.port_num == old(self).port_num,
                self.supports_lba48 == old(self).supports_lba48,
                forall|k: int| 0 <= k < 12 ==> self.model_string@[k] == model@[k],
                forall|k: int| 12 <= k < 40 ==> self.model_string@[k] == old(self).model_string@[k],
                forall|k: int| 0 <= k < j ==> self.serial_string@[k] == serial@[k],
                forall|k: int| 8 <= k < 20 ==> self.serial_string@[k] == old(self).serial_string@[k],
            decreases 8 - j,
        {
            self.serial_string[j] = serial[j];
            j = j + 1;
        }
        assert(self.model_string@.subrange(0, 12) =~= model@);
        assert(self.model_string@.subrange(12, 40) =~= old(self).model_string@.subrange(12, 40));
        assert(self.serial_string@.subrange(0, 8) =~= serial@);
        assert(self.serial_string@.subrange(8, 20) =~= old(self).serial_string@.subrange(8, 20));
    }

    /// Reads `sector_count` sectors from `start_lba` into `buffer`: fails when
    /// the buffer is smaller than that; otherwise gives the READ DMA EXT
    /// command that the port runs to fill the first `512 * sector_count`
    /// bytes of the buffer with those sectors. The buffer is filled by the
    /// device, not here.
    pub fn read_sectors(&mut self, start_lba: u64, sector_count: u32, buffer: &mut [u8]) -> (r: Result<SectorCommand, &'static str>)
        requires
            sector_count * SATA_BLOCK_SIZE <= usize::MAX,
        ensures
            final(buffer)@ == old(buffer)@,
            *final(self) == *old(self),
            old(buffer)@.len() < sector_count * SATA_BLOCK_SIZE ==> r == Err::<SectorCommand, &'static str>("Buffer too small"),
            old(buffer)@.len() >= sector_count * SATA_BLOCK_SIZE ==> (r matches Ok(c) && is_sector_command(c, ATA_CMD_READ_DMA_EXT, start_lba, sector_count)),
    {
        if buffer.len() < (sector_count as usize * SATA_BLOCK_SIZE) {
            return Err("Buffer too small");
        }
        Ok(sector_command(ATA_CMD_READ_DMA_EXT, start_lba, sector_count))
    }

    /// Writes `sector_count` sectors from `buffer` to `start_lba`: fails when
    /// the buffer is smaller than that; otherwise gives the WRITE DMA EXT
    /// command that the port runs to store the first `512 * sector_count`
    /// bytes of the buffer in those sectors.
    pub fn write_sectors(&mut self, start_lba: u64, sector_count: u32, buffer: &[u8]) -> (r: Result<SectorCommand, &'static str>)
        requires
            sector_count * SATA_BLOCK_SIZE <= usize::MAX,
        ensures
            *final(self) == *old(self),
            buffer@.len() < sector_count * SATA_BLOCK_SIZE ==> r == Err::<SectorCommand, &'static str>("Buffer too small"),
            buffer@.len() >= sector_count * SATA_BLOCK_SIZE ==> (r matches Ok(c) && is_sector_command(c, ATA_CMD_WRITE_DMA_EXT, start_lba, sector_count)),
    {
        if buffer.len() < (sector_count as usize * SATA_BLOCK_SIZE) {
            return Err("Buffer too small");
        }
        Ok(sector_command(ATA_CMD_WRITE_DMA_EXT, start_lba, sector_count))
    }

    /// Capacity in sectors.
    pub fn capacity(&self) -> (r: u64)
        ensures
            r == self.capacity,
    {
        self.capacity
    }

    /// Whether the disk supports 48-bit addressing.
    pub fn supports_lba48(&self) -> (r: bool)
        ensures
            r == self.supports_lba48,
    {
        self.supports_lba48
    }
}

/// Polls of a stopping port (one microsecond apart) before giving up.
pub const PORT_STOP_POLLS: u32 = 500000;

/// Bytes and alignment of a port's command list (32 entries of 32 bytes)
/// and of its received-FIS area.
pub const COMMAND_LIST_BYTES: usize = 1024;
pub const RECEIVED_FIS_BYTES: usize = 256;

/// Bringing a port up: the command register with command processing and
/// FIS receive cleared, written first.
pub fn port_stop_value(cmd: u32) -> (r: u32)
    ensures
        r == cmd & !(PortCommand::ST | PortCommand::FRE),
{
    cmd & !(PortCommand::ST | PortCommand::FRE)
}

/// The outcome of waiting for a port to stop, with `left` polls unused when
/// the wait ended: none left means it did not stop.
pub fn port_stop_result(left: u32) -> (r: Result<(), &'static str>)
    ensures
        r == if left == 0 {
            Err::<(), &'static str>("Port stop timeout")
        } else {
            Ok(())
        },
{
    if left == 0 {
        Err("Port stop timeout")
    } else {
        Ok(())
    }
}

/// The three command-register values written once the port's memory is set
/// up, from the value `cmd` then read: FIS receive on; the device powered on
/// and spun up; command processing started.
pub fn port_start_writes(cmd: u32) -> (r: [u32; 3])
    ensures
        r[0] == cmd | PortCommand::FRE,
        r[1] == cmd | PortCommand::FRE | PortCommand::POD | PortCommand::SUD,
        r[2] == cmd | PortCommand::FRE | PortCommand::POD | PortCommand::SUD | PortCommand::ST,
{
    let fre: u32 = cmd | PortCommand::FRE;
    let on: u32 = fre | PortCommand::POD | PortCommand::SUD;
    let start: u32 = on | PortCommand::ST;
    [fre, on, start]
}

/// A sector transfer for a port to run: the command FIS (an LBA48 command
/// for `count` sectors from `lba`) and the number of buffer bytes its DMA
/// moves.
#[derive(Copy, Clone, Debug, PartialEq, Eq)]
pub struct SectorCommand {
    pub fis: [u8; 16],
    pub bytes: usize,
}

/// Whether `c` is the transfer of `count` sectors from `lba` with ATA
/// command `command`.
pub open spec fn is_sector_command(c: SectorCommand, command: u8, lba: u64, count: u32) -> bool {
    &&& c.fis@ == command_fis_spec(command, lba, count as usize)
    &&& c.bytes == count * SATA_BLOCK_SIZE
}

/// The transfer of `count` sectors from `lba` with ATA command `command`.
pub fn sector_command(command: u8, lba: u64, count: u32) -> (r: SectorCommand)
    requires
        count * SATA_BLOCK_SIZE <= usize::MAX,
    ensures
        is_sector_command(r, command, lba, count),
{
    let fis = command_fis(command, lba, count as usize);
    SectorCommand { fis, bytes: count as usize * SATA_BLOCK_SIZE }
}

} // verus!
