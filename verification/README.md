# monkeyos

The decision-making core of a small LoongArch/RISC-V kernel, written in Verus:
every executable function in `src/` carries a contract; all but a few
small wrappers of outside calls (listed below) are proved against theirs.

## Layout

- `src/` — the verified library.
  - Storage: `libata` (IDENTIFY data, ATA commands), `libahci`, `drv_ahci`,
    `ahci_regs`, `ahci_device`, `ahci_platform`, `kahci_ahci`, `kahci_core`,
    `kahci_platform` (AHCI command slots, FIS encoding, port start-up, DMA
    buffers), `ext4_disk` and `ext4_file` (the block cursor under ext4, path
    handling, directory entries).
  - Buses and devices: `pci`, `kvirtio` (BAR assignment), `drivers`.
  - Processes: `fd_table`, `fd_types`, `fd_select`, `fd_calls`, `splice`,
    `mmap`, `task_mem`, `user_areas`, `page_fault`, `elf_load`.
  - Boot and logging: `boot`, `logging`.
  Laws that span several functions are public `lemma_*` proof functions next
  to the functions they relate.
- `tests/` — concrete cases run against the compiled library.
- `app/` — the parts that touch hardware or other crates' traits: register
  access, the PCI walk over `virtio-drivers`, the `log` back end, and the
  loops that drive the library's state machines.

Outside calls that the library makes itself (`bit_field`, `xmas-elf`,
`core::str::from_utf8`, `core::hint::spin_loop`) go through small
`#[verifier::external_body]` functions whose doc comments say what their
contracts assume.
