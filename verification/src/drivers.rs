//! Driver records of the AHCI block driver and the NS16550A UART, and the
//! address at which the UART's registers are mapped.

use vstd::prelude::*;

verus! {

/// The AHCI block driver.
pub struct AhciDriver;

impl AhciDriver {
    pub fn new() -> (r: Self) {
        Self
    }

    /// Name under which the driver registers.
    pub fn get_id(&self) -> (r: &'static str)
        ensures
            r@ == "kahci"@,
    {
        "kahci"
    }
}

/// Name under which the block-device view of the AHCI driver registers.
pub fn ahci_block_device_id() -> (r: &'static str)
    ensures
        r@ == "kahci-block"@,
{
    "kahci-block"
}

/// The NS16550A UART: the address of its registers and its interrupt lines.
pub struct NS16550a {
    pub base: u64,
    pub irqs: Vec<u32>,
}

/// Physical address of the UART of the LS2K1000 board.
pub const LS2K1000_UART_PHYS: u64 = 0x1fe20000;
/// Uncached mapping of that UART.
pub const LS2K1000_UART_UNCACHED: u64 = 0x800000001fe20000;

/// Where the UART at physical `addr` is accessed: the board UART through its
/// uncached mapping, any other through the kernel's direct map at `virt_start`.
pub fn uart_address(addr: u64, virt_start: u64) -> (r: u64)
    requires
        addr != LS2K1000_UART_PHYS ==> virt_start + addr <= u64::MAX,
    ensures
        r == if addr == LS2K1000_UART_PHYS {
            LS2K1000_UART_UNCACHED as int
        } else {
            virt_start + addr
        },
{
    if addr == LS2K1000_UART_PHYS {
        LS2K1000_UART_UNCACHED
    } else {
        virt_start + addr
    }
}

impl NS16550a {
    /// The UART at `base` with the given interrupt lines.
    pub fn new(base: u64, irqs: Vec<u32>) -> (r: Self)
        ensures
            r.base == base,
            r.irqs@ == irqs@,
    {
        NS16550a { base, irqs }
    }

    /// Name under which the driver registers.
    pub fn get_id(&self) -> (r: &'static str)
        ensures
            r@ == "ns16550a"@,
    {
        "ns16550a"
    }

    /// Interrupts are not handled by this driver: always `false`.
    pub fn try_handle_interrupt(&self, irq: u32) -> (r: bool)
        ensures
            !r,
    {
        false
    }

    /// The UART's interrupt lines.
    pub fn interrupts(&self) -> (r: &[u32])
        ensures
            r@ == self.irqs@,
    {
        self.irqs.as_slice()
    }
}

/// The kernel's console logger, writing to the board UART.
pub struct Logger;

/// The kernel's page allocator hook.
pub struct PageAllocImpl;

} // verus!
