//! AHCI 1.1 register bit definitions and in-memory command structures.

use vstd::prelude::*;

verus! {

/// Host Capabilities (CAP) register flags.
#[derive(Copy, Clone, Debug)]
pub struct HostCapabilities {
    pub bits: u32,
}

impl HostCapabilities {
    /// Supports 64-bit Addressing
    pub const S64A: u32 = 1 << 31;
    /// Supports Native Command Queuing
    pub const SNCQ: u32 = 1 << 30;
    /// Supports SNotification Register
    pub const SSNTF: u32 = 1 << 29;
    /// Supports Mechanical Presence Switch
    pub const SMPS: u32 = 1 << 28;
    /// Supports Staggered Spin-up
    pub const SSS: u32 = 1 << 27;
    /// Supports Aggressive Link Power Management
    pub const SALP: u32 = 1 << 26;
    /// Supports Activity LED
    pub const SAL: u32 = 1 << 25;
    /// Supports Command List Override
    pub const SCLO: u32 = 1 << 24;
    /// Supports AHCI mode only
    pub const SAM: u32 = 1 << 18;
    /// Supports Port Multiplier
    pub const SPM: u32 = 1 << 17;
    /// FIS-based Switching Supported
    pub const FBSS: u32 = 1 << 16;
    /// PIO Multiple DRQ Block
    pub const PMD: u32 = 1 << 15;
    /// Slumber State Capable
    pub const SSC: u32 = 1 << 14;
    /// Partial State Capable
    pub const PSC: u32 = 1 << 13;
    /// Command Completion Coalescing Supported
    pub const CCCS: u32 = 1 << 7;
    /// Enclosure Management Supported
    pub const EMS: u32 = 1 << 6;
    /// Supports External SATA
    pub const SXS: u32 = 1 << 5;
    /// Every defined flag.
    pub const ALL: u32 = Self::S64A | Self::SNCQ | Self::SSNTF | Self::SMPS | Self::SSS | Self::SALP
        | Self::SAL | Self::SCLO | Self::SAM | Self::SPM | Self::FBSS | Self::PMD | Self::SSC
        | Self::PSC | Self::CCCS | Self::EMS | Self::SXS;

    /// No capability.
    pub fn empty() -> (r: Self)
        ensures
            r.bits == 0,
    {
        HostCapabilities { bits: 0 }
    }

    /// The defined capabilities of a CAP value; other bits are dropped.
    pub fn from_bits_truncate(bits: u32) -> (r: Self)
        ensures
            r.bits == bits & Self::ALL,
    {
        HostCapabilities { bits: bits & Self::ALL }
    }

    /// Whether every flag of `other` is present.
    pub fn contains(&self, other: u32) -> (r: bool)
        ensures
            r == (self.bits & other == other),
    {
        self.bits & other == other
    }
}

/// Global Host Control (GHC) register flags.
pub struct GlobalHostControl;

impl GlobalHostControl {
    /// AHCI Enable
    pub const AE: u32 = 1 << 31;
    /// MSI Revert to Single Message
    pub const MRSM: u32 = 1 << 2;
    /// Interrupt Enable
    pub const IE: u32 = 1 << 1;
    /// HBA Reset
    pub const HR: u32 = 1 << 0;
}

/// Port Command and Status (PxCMD) register flags.
pub struct PortCommand;

impl PortCommand {
    /// Command List Running
    pub const CR: u32 = 1 << 15;
    /// FIS Receive Running
    pub const FR: u32 = 1 << 14;
    /// FIS Receive Enable
    pub const FRE: u32 = 1 << 4;
    /// Command List Override
    pub const CLO: u32 = 1 << 3;
    /// Power On Device
    pub const POD: u32 = 1 << 2;
    /// Spin-Up Device
    pub const SUD: u32 = 1 << 1;
    /// Start
    pub const ST: u32 = 1 << 0;
}

/// Serial ATA Status (PxSSTS) register fields.
pub struct SerialATAStatus;

impl SerialATAStatus {
    /// Device Detection
    pub const DET_MASK: u32 = 0xF;
    /// Device presence detected and Phy communication established
    pub const DET_ESTABLISHED: u32 = 0x3;
}

/// AHCI Command List Entry
#[derive(Debug, Clone, Copy)]
pub struct AhciCommandListEntry {
    /// Command FIS length and PRDT length
    pub flags_prdtl: u32,
    /// Physical Region Descriptor Byte Count
    pub prdbc: u32,
    /// Command Table Base Address
    pub ctba: u64,
    pub reserved: [u32; 4],
}

/// AHCI Physical Region Descriptor Table Entry
#[derive(Debug, Clone, Copy)]
pub struct AhciPRDTEntry {
    /// Data Base Address
    pub dba: u64,
    pub reserved: u32,
    /// Interrupt on completion and Data Byte Count
    pub flags_dbc: u32,
}

/// AHCI Command Table: command FIS, ATAPI command and the PRD table.
pub struct AhciCommandTable {
    pub cfis: [u8; 64],
    pub acmd: [u8; 16],
    pub reserved: [u8; 48],
    pub prdt: Vec<AhciPRDTEntry>,
}

/// SATA FIS types.
#[derive(Debug, Clone, Copy, PartialEq, Eq, Structural)]
pub enum FISType {
    /// Register FIS - host to device
    RegH2D,
    /// Register FIS - device to host
    RegD2H,
    /// DMA activate FIS - device to host
    DMAActivate,
    /// DMA setup FIS - bidirectional
    DMASetup,
    /// Data FIS - bidirectional
    Data,
    /// BIST activate FIS - bidirectional
    BIST,
    /// PIO setup FIS - device to host
    PIOSetup,
    /// Set device bits FIS - device to host
    DevBits,
}

impl FISType {
    /// The type byte on the wire.
    pub open spec fn code_spec(self) -> u8 {
        match self {
            FISType::RegH2D => 0x27,
            FISType::RegD2H => 0x34,
            FISType::DMAActivate => 0x39,
            FISType::DMASetup => 0x41,
            FISType::Data => 0x46,
            FISType::BIST => 0x58,
            FISType::PIOSetup => 0x5F,
            FISType::DevBits => 0xA1,
        }
    }

    /// The type byte on the wire.
    pub fn code(&self) -> (r: u8)
        ensures
            r == self.code_spec(),
    {
        match self {
            FISType::RegH2D => 0x27,
            FISType::RegD2H => 0x34,
            FISType::DMAActivate => 0x39,
            FISType::DMASetup => 0x41,
            FISType::Data => 0x46,
            FISType::BIST => 0x58,
            FISType::PIOSetup => 0x5F,
            FISType::DevBits => 0xA1,
        }
    }

    /// The FIS type of a type byte, if it is one.
    pub fn from_code(b: u8) -> (r: Option<FISType>)
        ensures
            match r {
                Some(t) => t.code_spec() == b,
                None => forall|t: FISType| t.code_spec() != b,
            },
    {
        match b {
            0x27 => Some(FISType::RegH2D),
            0x34 => Some(FISType::RegD2H),
            0x39 => Some(FISType::DMAActivate),
            0x41 => Some(FISType::DMASetup),
            0x46 => Some(FISType::Data),
            0x58 => Some(FISType::BIST),
            0x5F => Some(FISType::PIOSetup),
            0xA1 => Some(FISType::DevBits),
            _ => None,
        }
    }
}

/// Distinct FIS types have distinct type bytes.
pub proof fn lemma_fis_code_injective(a: FISType, b: FISType)
    ensures
        a.code_spec() == b.code_spec() ==> a == b,
{
}

} // verus!
