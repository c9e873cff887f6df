//! Verified core logic of a small LoongArch/RISC-V kernel: ATA/AHCI command
//! encoding and port state machines, PCI config-space decoding and BAR
//! assignment, the ext4 block-device cursor, the per-process file-descriptor
//! table, `pselect`/`splice`/`mmap` decisions, ELF loading plans, page-fault
//! classification and a few memory-layout helpers.
#![allow(non_camel_case_types)]

pub mod libata;
pub mod kahci_platform;
pub mod libahci;
pub mod drv_ahci;
pub mod ext4_disk;
pub mod fd_table;
pub mod fd_select;
pub mod fd_types;
pub mod kahci_core;
pub mod pci;
pub mod ahci_regs;
pub mod ahci_platform;
pub mod ahci_device;
pub mod kahci_ahci;
pub mod task_mem;
pub mod drivers;
pub mod kvirtio;
pub mod ext4_file;
pub mod page_fault;
pub mod logging;
pub mod mmap;
pub mod splice;
pub mod elf_load;
pub mod user_areas;
pub mod fd_calls;
pub mod boot;
