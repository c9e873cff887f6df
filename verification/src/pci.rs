//! PCI configuration space of one function: where its registers lie, and the
//! fields read from or written to them. The caller performs the 32-bit
//! accesses at the addresses and with the values computed here.

use vstd::prelude::*;

verus! {

/// Configuration space of function `function` of device `device` on bus `bus`.
pub struct PciConfig {
    pub base: u64,
    pub bus: u8,
    pub device: u8,
    pub function: u8,
}

/// Address of configuration register `offset`: bus 0 is mapped 256 bytes per
/// device, other buses use the ECAM layout (bus << 20 | dev << 15 | fn << 12).
pub open spec fn config_addr_spec(base: u64, bus: u8, device: u8, function: u8, offset: u8) -> int {
    if bus == 0 {
        base + device * 0x100 + offset
    } else {
        base + bus * 0x10_0000 + device * 0x8000 + function * 0x1000 + offset
    }
}

impl PciConfig {
    /// The configuration space of a function.
    pub fn new(config_base: u64, bus: u8, device: u8, function: u8) -> (r: Self)
        ensures
            r == (PciConfig { base: config_base, bus, device, function }),
    {
        Self { base: config_base, bus, device, function }
    }

    /// The address that stays in range for every register of this function.
    pub open spec fn in_range(&self) -> bool {
        config_addr_spec(self.base, self.bus, self.device, self.function, 0xff) <= u64::MAX
    }

    /// Address of the 32-bit register at `offset`.
    pub fn config_addr(&self, offset: u8) -> (r: u64)
        requires
            self.in_range(),
        ensures
            r == config_addr_spec(self.base, self.bus, self.device, self.function, offset),
    {
        let device = self.device;
        let bus = self.bus;
        let function = self.function;
        assert((device as u64) << 8u64 == device * 0x100 && (bus as u64) << 20u64 == bus * 0x10_0000
            && (device as u64) << 15u64 == device * 0x8000 && (function as u64) << 12u64 == function
            * 0x1000) by (bit_vector);
        if self.bus == 0 {
            self.base + ((self.device as u64) << 8) + (offset as u64)
        } else {
            self.base + ((self.bus as u64) << 20) + ((self.device as u64) << 15) + ((
            self.function as u64) << 12) + (offset as u64)
        }
    }

    /// Vendor ID: low half of the register at 0x0.
    pub fn vendor_id(&self, reg0: u32) -> (r: u16)
        ensures
            r == reg0 % 0x1_0000,
    {
        assert(((reg0 & 0xFFFFu32) as u16) as int == reg0 % 0x1_0000) by (bit_vector);
        (reg0 & 0xFFFF) as u16
    }

    /// Device ID: high half of the register at 0x0.
    pub fn device_id(&self, reg0: u32) -> (r: u16)
        ensures
            r == reg0 / 0x1_0000,
    {
        assert(((reg0 >> 16u32) as u16) as int == reg0 / 0x1_0000) by (bit_vector);
        (reg0 >> 16) as u16
    }

    /// Class code: top byte of the register at 0x8.
    pub fn class_code(&self, reg8: u32) -> (r: u8)
        ensures
            r == reg8 / 0x100_0000,
    {
        assert(((reg8 >> 24u32) as u8) as int == reg8 / 0x100_0000) by (bit_vector);
        (reg8 >> 24) as u8
    }

    /// Subclass: byte 2 of the register at 0x8.
    pub fn subclass(&self, reg8: u32) -> (r: u8)
        ensures
            r == (reg8 / 0x1_0000) % 0x100,
    {
        assert(((reg8 >> 16u32) as u8) as int == (reg8 / 0x1_0000) % 0x100) by (bit_vector);
        (reg8 >> 16) as u8
    }

    /// Programming interface: byte 1 of the register at 0x8.
    pub fn interface(&self, reg8: u32) -> (r: u8)
        ensures
            r == (reg8 / 0x100) % 0x100,
    {
        assert(((reg8 >> 8u32) as u8) as int == (reg8 / 0x100) % 0x100) by (bit_vector);
        (reg8 >> 8) as u8
    }

    /// Register offset of base address register `index`; `None` past BAR 5,
    /// whose value reads as 0.
    pub fn bar(&self, index: u8) -> (r: Option<u8>)
        ensures
            r == if index > 5 {
                None
            } else {
                Some((0x10 + index * 4) as u8)
            },
    {
        if index > 5 {
            return None;
        }
        Some(0x10 + index * 4)
    }

    /// Register offset and value written to set base address register
    /// `index`; nothing is written past BAR 5.
    pub fn set_bar(&self, index: u8, value: u32) -> (r: Option<(u8, u32)>)
        ensures
            r == if index <= 5 {
                Some(((0x10 + index * 4) as u8, value))
            } else {
                None
            },
    {
        if index <= 5 {
            Some((0x10 + index * 4, value))
        } else {
            None
        }
    }

    /// Command register: low half of the register at 0x4.
    pub fn command(&self, reg4: u32) -> (r: u16)
        ensures
            r == reg4 % 0x1_0000,
    {
        assert(((reg4 & 0xFFFFu32) as u16) as int == reg4 % 0x1_0000) by (bit_vector);
        (reg4 & 0xFFFF) as u16
    }

    /// Value written to the register at 0x4 to set the command register: the
    /// status half read before is kept.
    pub fn set_command(&self, reg4: u32, value: u16) -> (r: u32)
        ensures
            r == (reg4 / 0x1_0000) * 0x1_0000 + value,
    {
        let status: u32 = reg4 & 0xFFFF0000;
        assert((reg4 & 0xFFFF0000u32) | (value as u32) == (reg4 / 0x1_0000) * 0x1_0000 + value)
            by (bit_vector);
        status | (value as u32)
    }

    /// Value written to the register at 0x4 to turn bus mastering on.
    pub fn enable_bus_master(&self, reg4: u32) -> (r: u32)
        ensures
            r == (reg4 / 0x1_0000) * 0x1_0000 + ((reg4 % 0x1_0000) as u16 | 0x4u16),
    {
        let cmd = self.command(reg4);
        self.set_command(reg4, cmd | 0x4)
    }

    /// Value written to the register at 0x4 to turn memory decoding on.
    pub fn enable_memory_space(&self, reg4: u32) -> (r: u32)
        ensures
            r == (reg4 / 0x1_0000) * 0x1_0000 + ((reg4 % 0x1_0000) as u16 | 0x2u16),
    {
        let cmd = self.command(reg4);
        self.set_command(reg4, cmd | 0x2)
    }
}

/// Setting the command register and reading it back gives the value set, and
/// the status half is untouched.
pub proof fn lemma_set_command_then_command(reg4: u32, value: u16)
    ensures
        ((reg4 / 0x1_0000) * 0x1_0000 + value) % 0x1_0000 == value,
        ((reg4 / 0x1_0000) * 0x1_0000 + value) / 0x1_0000 == reg4 / 0x1_0000,
{
    assert(((reg4 & 0xFFFF0000u32) | (value as u32)) as int == (reg4 / 0x1_0000) * 0x1_0000 + value
        && (((reg4 & 0xFFFF0000u32) | (value as u32)) & 0xFFFFu32) == value as u32
        && (((reg4 & 0xFFFF0000u32) | (value as u32)) >> 16u32) == reg4 >> 16u32) by (bit_vector);
    assert(((reg4 & 0xFFFF0000u32) | (value as u32)) as int % 0x1_0000 == (((reg4 & 0xFFFF0000u32) | (value as u32)) & 0xFFFFu32)
        && ((reg4 & 0xFFFF0000u32) | (value as u32)) as int / 0x1_0000 == (((reg4 & 0xFFFF0000u32) | (value as u32)) >> 16u32)
        && reg4 as int / 0x1_0000 == (reg4 >> 16u32)) by (bit_vector);
}

} // verus!
