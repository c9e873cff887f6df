use monkeyos::ahci_device::{AhciBlkDev, AhciDevice};
use monkeyos::ahci_platform::{
    ahci_platform_dma_pages, ahci_platform_init, ahci_platform_phys_to_virt,
    ahci_platform_virt_to_phys,
};
use monkeyos::ahci_regs::{FISType, GlobalHostControl, HostCapabilities};
use monkeyos::drivers::{ahci_block_device_id, uart_address, AhciDriver, NS16550a};
use monkeyos::kahci_ahci::{
    command_fis, command_header, command_outcome, identify_capacity, initialize_outcome,
    poll_step, port_base, port_cmd_enabled, port_cmd_started, port_cmd_stopped,
    port_still_running, prdt_entry, transfer_sectors, AhciController, AhciError,
};
use monkeyos::kahci_core::{
    ahci_buffer_sectors, ahci_capacity, ahci_host_enable, ahci_init, ahci_port_scan,
    KahciInitRegs,
};
use monkeyos::kahci_platform::{
    ahci_malloc_align, ahci_malloc_pages, ahci_phys_to_uncached, ahci_virt_to_phys,
    DmaAllocation, StaticDmaBuffer, StaticDmaPool,
};
use monkeyos::libahci::ahci_device;
use monkeyos::logging::{level_prefix, log_level_from_name, LogLevel};
use monkeyos::ahci_device::{port_start_writes, port_stop_result, port_stop_value};

#[test]
fn uncached_window_round_trip() {
    let pa = 0x1234_5000u64;
    let va = ahci_phys_to_uncached(pa);
    assert_eq!(va, 0x8000_0000_1234_5000);
    assert_eq!(ahci_virt_to_phys(va), pa);
    assert_eq!(ahci_virt_to_phys(0x9000_0000_0000_1000), 0x1000);
    assert_eq!(ahci_virt_to_phys(0x4000), 0x4000);
}

#[test]
fn dma_allocation_prefers_frames_then_static_buffers() {
    assert_eq!(ahci_malloc_pages(0), 0);
    assert_eq!(ahci_malloc_pages(1), 1);
    assert_eq!(ahci_malloc_pages(4097), 2);
    let mut pool = StaticDmaPool::new();
    assert!(ahci_malloc_align(&mut pool, 8192, Some(0x10_0000), None) == DmaAllocation::Frames(0x10_0000));
    assert!(ahci_malloc_align(&mut pool, 100, None, Some(0x20_0000)) == DmaAllocation::Frames(0x20_0000));
    // a single frame is only used for one page
    assert!(
        ahci_malloc_align(&mut pool, 8192, None, Some(0x20_0000))
            == DmaAllocation::Static(StaticDmaBuffer::CommandTables)
    );
    assert!(ahci_malloc_align(&mut pool, 1024, None, None) == DmaAllocation::Static(StaticDmaBuffer::CommandList));
    assert!(ahci_malloc_align(&mut pool, 256, None, None) == DmaAllocation::Static(StaticDmaBuffer::ReceivedFis));
    // the identify buffer is handed out again and again
    assert!(ahci_malloc_align(&mut pool, 256, None, None) == DmaAllocation::Static(StaticDmaBuffer::Identify));
    assert!(ahci_malloc_align(&mut pool, 512, None, None) == DmaAllocation::Static(StaticDmaBuffer::Identify));
    assert!(ahci_malloc_align(&mut pool, 1024, None, None) == DmaAllocation::Failed);
    assert!(pool.cl_used && pool.fis_used && pool.ct_used);
}

#[test]
fn board_controller_bring_up() {
    assert_eq!(ahci_host_enable(0x2), (0x8000_0002, 0x8000_0002));
    let regs = KahciInitRegs { cap: 0x4000_0000, cap2: 0, version: 0x10300, port_map: 1, ghc: 0, port0_ssts: 0x123 };
    let mut dev = ahci_device::default();
    assert_eq!(ahci_init(&mut dev, &regs), 0);
    assert_eq!(dev.mmio_base, 0x8000_0000_400e_0000);
    assert_eq!(dev.port[0].port_mmio, 0x8000_0000_400e_0100);
    assert_eq!(dev.port_map_linkup, 1);
    assert_eq!(dev.blk_dev.lba, 1024 * 1024);
    assert_eq!(ahci_capacity(&dev), 512 * 1024 * 1024);
    let no_link = KahciInitRegs { port0_ssts: 0x1, ..regs };
    let mut dev = ahci_device::default();
    assert_eq!(ahci_init(&mut dev, &no_link), -1);
    let mut dev = ahci_device::default();
    dev.port_map = 0b10;
    assert_eq!(ahci_port_scan(&mut dev, 0x3), -1);
    assert_eq!(ahci_buffer_sectors(511), None);
    assert_eq!(ahci_buffer_sectors(1536), Some(3));
}

#[test]
fn controller_transfer_checks() {
    assert_eq!(port_base(0x1000, 1), 0x1180);
    assert_eq!(transfer_sectors(511), Err(AhciError::InvalidParameters));
    assert_eq!(transfer_sectors(1024), Ok(2));
    assert_eq!(transfer_sectors(512 * 65536), Err(AhciError::InvalidParameters));
    let c = AhciController { base: 0, ports: 1, port_capacities: vec![2048] };
    assert_eq!(c.read_blocks(7, 4096), Ok((0x25, 7, 8)));
    assert_eq!(c.write_blocks(7, 100), Err(AhciError::InvalidParameters));
    assert_eq!(c.get_capacity(0), 2048 * 512);
    assert_eq!(c.get_capacity(1), 0);
    assert!(c.handle_interrupt(4));
    assert!(!c.handle_interrupt(0));
    assert!(c.is_port_connected(0x133));
    assert!(!c.is_port_connected(0x131));
}

#[test]
fn controller_command_layout() {
    let fis = command_fis(0x25, 0x0102_0304_0506, 0x0203);
    assert_eq!(fis, [0x27, 0x80, 0x25, 0, 0x06, 0x05, 0x04, 0x40, 0x03, 0x02, 0x01, 0, 0x03, 0x02, 0, 0]);
    assert_eq!(prdt_entry(0x1_2345_6000, 2), (0x2345_6000, 1, 1023));
    assert_eq!(command_header(0x2_0000_3000), (5, 1, 0x3000, 2));
    assert_eq!(command_outcome(true, 0), Err(AhciError::CommandTimeout));
    assert_eq!(command_outcome(false, 0x51), Err(AhciError::DataTransferError));
    assert_eq!(command_outcome(false, 0x50), Ok(()));
    assert_eq!(initialize_outcome(false, 1), Err(AhciError::InitializationFailed));
    assert_eq!(initialize_outcome(true, 0b10), Err(AhciError::InitializationFailed));
    assert_eq!(initialize_outcome(true, 1), Ok(0x8000_0002));
    assert_eq!(poll_step(true, 3), Some(2));
    assert_eq!(poll_step(true, 0), None);
    assert_eq!(poll_step(false, 3), None);
    assert_eq!(port_cmd_stopped(0xC017), 0xC006);
    assert_eq!(port_cmd_enabled(0), 0x16);
    assert_eq!(port_cmd_started(0x16), 0x17);
    assert!(port_still_running(0x4000));
    assert!(!port_still_running(0x17));
}

#[test]
fn identify_capacity_prefers_lba48_words() {
    let mut id = vec![0u16; 256];
    id[60] = 0x5678;
    id[61] = 0x0012;
    assert_eq!(identify_capacity(&id), 0x12_5678);
    id[100] = 1;
    id[102] = 1;
    assert_eq!(identify_capacity(&id), 0x1_0000_0001);
}

#[test]
fn platform_direct_map() {
    assert!(ahci_platform_init().is_ok());
    assert_eq!(ahci_platform_phys_to_virt(0x1000), 0x9000_0000_0000_1000);
    assert_eq!(ahci_platform_virt_to_phys(0x9000_0000_0000_1000), 0x1000);
    assert_eq!(ahci_platform_phys_to_virt(0x9000_0000_0000_0000), 0x9000_0000_0000_0000);
    assert_eq!(ahci_platform_virt_to_phys(0x1000), 0x1000);
    assert_eq!(ahci_platform_dma_pages(4096), 1);
    assert_eq!(ahci_platform_dma_pages(4097), 2);
}

#[test]
fn device_table_and_disk_record() {
    let mut dev = AhciDevice::new(0x10_0000).unwrap();
    assert_eq!(dev.ports.len(), 32);
    let ghc = dev.init_controller(0xFFFF_FFFF, 0b101, 0x2).unwrap();
    assert_eq!(ghc, 0x8000_0002);
    assert_eq!(ghc, 0x2 | GlobalHostControl::AE);
    assert_eq!(dev.capabilities.bits, HostCapabilities::ALL);
    assert!(dev.capabilities.contains(HostCapabilities::SNCQ));
    assert_eq!(dev.ports[0], Some(0x10_0100));
    assert_eq!(dev.ports[1], None);
    assert_eq!(dev.ports[2], Some(0x10_0200));
    assert_eq!(dev.scan_port(0, 0x3), Ok(true));
    assert_eq!(dev.scan_port(0, 0x1), Ok(false));
    assert_eq!(dev.scan_port(1, 0x3), Err("Invalid port number"));
    assert_eq!(dev.scan_port(40, 0x3), Err("Invalid port number"));
    let mut disk = AhciBlkDev::new(0, 0x10_0100, 0x8000, 0x9000, vec![0xA000]).unwrap();
    assert_eq!(disk.command_list, 0x9000_0000_0000_8000);
    assert_eq!(disk.received_fis, 0x9000_0000_0000_9000);
    disk.set_test_identity();
    assert_eq!(disk.capacity(), 2048);
    assert_eq!(&disk.model_string[..12], b"Test SSD    ");
    assert_eq!(&disk.serial_string[..8], b"12345678");
    assert!(!disk.supports_lba48());
    let mut buf = vec![0u8; 600];
    assert_eq!(disk.read_sectors(0, 2, &mut buf), Err("Buffer too small"));
    let rd = disk.read_sectors(0x0102_0304_0506, 1, &mut buf).unwrap();
    assert_eq!(rd.bytes, 512);
    assert_eq!(
        rd.fis,
        [0x27, 0x80, 0x25, 0, 0x06, 0x05, 0x04, 0x40, 0x03, 0x02, 0x01, 0, 1, 0, 0, 0]
    );
    assert!(buf.iter().all(|b| *b == 0));
    let wr = disk.write_sectors(7, 1, &buf).unwrap();
    assert_eq!(wr.fis[2], 0x35);
    assert_eq!(wr.fis[4], 7);
    assert_eq!(wr.bytes, 512);
    assert_eq!(disk.write_sectors(0, 2, &buf), Err("Buffer too small"));
    dev.add_device(0, disk);
    assert_eq!(dev.get_device(0).unwrap().capacity(), 2048);
    assert!(dev.get_device(1).is_none());
    assert!(dev.get_device(99).is_none());
}

#[test]
fn fis_type_codes() {
    assert_eq!(FISType::RegH2D.code(), 0x27);
    assert_eq!(FISType::from_code(0x34), Some(FISType::RegD2H));
    assert_eq!(FISType::from_code(0xA1), Some(FISType::DevBits));
    assert_eq!(FISType::from_code(0x00), None);
    let caps = HostCapabilities::from_bits_truncate(0xFFFF_FFFF);
    assert_eq!(caps.bits, HostCapabilities::ALL);
    assert!(!HostCapabilities::empty().contains(HostCapabilities::S64A));
}

#[test]
fn driver_names_and_uart() {
    assert_eq!(AhciDriver::new().get_id(), "kahci");
    assert_eq!(ahci_block_device_id(), "kahci-block");
    let uart = NS16550a::new(0x1fe20000, vec![2, 3]);
    assert_eq!(uart.get_id(), "ns16550a");
    assert!(!uart.try_handle_interrupt(2));
    assert_eq!(uart.interrupts(), &[2, 3]);
    assert_eq!(uart_address(0x1fe20000, 0x9000_0000_0000_0000), 0x8000_0000_1fe2_0000);
    assert_eq!(uart_address(0x1000_0000, 0x9000_0000_0000_0000), 0x9000_0000_1000_0000);
}

#[test]
fn log_levels() {
    assert_eq!(log_level_from_name(Some(b"error".as_slice())), LogLevel::Error);
    assert_eq!(log_level_from_name(Some(b"warn".as_slice())), LogLevel::Warn);
    assert_eq!(log_level_from_name(Some(b"debug".as_slice())), LogLevel::Debug);
    assert_eq!(log_level_from_name(Some(b"trace".as_slice())), LogLevel::Trace);
    assert_eq!(log_level_from_name(Some(b"info".as_slice())), LogLevel::Info);
    assert_eq!(log_level_from_name(Some(b"verbose".as_slice())), LogLevel::Info);
    assert_eq!(log_level_from_name(None), LogLevel::Info);
    assert_eq!(level_prefix(LogLevel::Warn), "[WARN ]");
    assert_eq!(level_prefix(LogLevel::Error), "[ERROR]");
}

#[test]
fn sata_port_bring_up_values() {
    assert_eq!(port_stop_value(0xffff_ffff), 0xffff_ffee);
    assert_eq!(port_stop_value(0x0000_c011), 0x0000_c000);
    assert_eq!(port_stop_result(0), Err("Port stop timeout"));
    assert_eq!(port_stop_result(3), Ok(()));
    assert_eq!(port_start_writes(0), [0x10, 0x16, 0x17]);
    assert_eq!(port_start_writes(0x100), [0x110, 0x116, 0x117]);
}
