use monkeyos::kahci_core;
use monkeyos::drv_ahci::{
    host_enable_write, host_reset_done, host_reset_write, link_wait_step, port_idle_write,
    port_spin_up_write, LinkWait,
};
use monkeyos::drv_ahci::{
    ahci_exec_ata_cmd, ahci_ffs32, ahci_fill_sg, ahci_get_cmd_slot, ahci_host_init, ahci_link_up,
    ahci_port_assign_dma, ahci_port_base, ahci_port_idle, ahci_port_scan, ahci_port_start_poll,
    ahci_port_start_writes, ahci_print_info, ahci_record_link, ahci_sata_flush_cache,
    ahci_sata_flush_cache_ext, ahci_sata_identify, ahci_sata_read_common, ahci_sata_rw_cmd,
    ahci_record_links, ahci_sata_rw_cmd_ext, ahci_sata_scan, ahci_sata_write_common, ahci_set_feature, AhciSpeed,
    PortScan, PortStartPoll, RwStep,
};
use monkeyos::libahci::{ahci_device, ahci_ioport, SATA_FLAG_FLUSH_EXT, SATA_FLAG_WCACHE};

fn device() -> ahci_device {
    ahci_device::default()
}

#[test]
fn ffs_finds_lowest_set_bit() {
    assert_eq!(ahci_ffs32(0), 0);
    assert_eq!(ahci_ffs32(1), 1);
    assert_eq!(ahci_ffs32(0b1000), 4);
    assert_eq!(ahci_ffs32(0b1100), 3);
    assert_eq!(ahci_ffs32(0x8000_0000), 32);
    assert_eq!(ahci_get_cmd_slot(0), 0);
    assert_eq!(ahci_get_cmd_slot(6), 2);
}

#[test]
fn port_register_blocks() {
    assert_eq!(ahci_port_base(0x1000, 0), 0x1100);
    assert_eq!(ahci_port_base(0x1000, 2), 0x1200);
}

#[test]
fn lba48_fis_carries_block_and_count() {
    let mut dev = device();
    dev.port_idx = 3;
    let cmd = ahci_sata_rw_cmd_ext(&dev, 0x0102_0304_0506, 0x0203, 0x9000, 0);
    assert_eq!(cmd.port, 3);
    assert_eq!(cmd.buf, 0x9000);
    assert_eq!(cmd.buf_len, 512 * 0x203);
    let f = cmd.cfis;
    assert_eq!(
        f.to_bytes(),
        [0x27, 0x80, 0x25, 0, 0x06, 0x05, 0x04, 0x40, 0x03, 0x02, 0x01, 0, 0x03, 0x02, 0, 0, 0, 0, 0, 0]
    );
    let w = ahci_sata_rw_cmd_ext(&dev, 7, 1, 0x9000, 1);
    assert_eq!(w.cfis.command, 0x35);
    assert_eq!(w.is_write, 1);
}

#[test]
fn lba28_fis_puts_top_nibble_in_device() {
    let dev = device();
    let cmd = ahci_sata_rw_cmd(&dev, 0x0ABC_DEF1, 8, 0x4000, 1);
    assert_eq!(cmd.buf_len, 4096);
    assert_eq!(
        cmd.cfis.to_bytes(),
        [0x27, 0x80, 0xCA, 0, 0xF1, 0xDE, 0xBC, 0x4A, 0, 0, 0, 0, 8, 0, 0, 0, 0, 0, 0, 0]
    );
    let r = ahci_sata_rw_cmd(&dev, 5, 1, 0x4000, 0);
    assert_eq!(r.cfis.command, 0xC8);
}

#[test]
fn commands_without_data() {
    let dev = device();
    let sf = ahci_set_feature(&dev, 0x03, 0x46);
    assert_eq!(sf.cfis.command, 0xEF);
    assert_eq!(sf.cfis.features, 0x03);
    assert_eq!(sf.cfis.sector_count, 0x46);
    assert_eq!(sf.buf_len, 0);
    let id = ahci_sata_identify(&dev, 0x5000);
    assert_eq!(id.cfis.command, 0xEC);
    assert_eq!(id.buf, 0x5000);
    assert_eq!(id.buf_len, 512);
    assert_eq!(ahci_sata_flush_cache(&dev).cfis.command, 0xE7);
    assert_eq!(ahci_sata_flush_cache_ext(&dev).cfis.command, 0xEA);
}

#[test]
fn scatter_gather_splits_at_four_mib() {
    let dev = device();
    let sg = ahci_fill_sg(&dev, 0, 0x1_0000_0000, 5 * 1024 * 1024);
    assert_eq!(sg.len(), 2);
    assert_eq!(sg[0].to_words(), [0, 1, 0, 0x3F_FFFF]);
    assert_eq!(sg[1].to_words(), [0x0040_0000, 1, 0, 0xF_FFFF]);
    // an uncached virtual address is translated to its physical address
    let sg = ahci_fill_sg(&dev, 0, 0x8000_0000_0010_0000, 512);
    assert_eq!(sg.len(), 1);
    assert_eq!(sg[0].addr_lo, 0x10_0000);
    assert_eq!(sg[0].addr_hi, 0);
    assert_eq!(sg[0].flags_size, 511);
}

#[test]
fn exec_plan_for_one_sector() {
    let mut dev = device();
    dev.port[0].cmd_slot = 0x1000;
    dev.port[0].cmd_tbl_dma = 0x2_0000_3000;
    let cmd = ahci_sata_rw_cmd_ext(&dev, 0, 1, 0x9000, 0);
    let plan = ahci_exec_ata_cmd(&dev, &cmd, 0b100).expect("a slot is free");
    assert_eq!(plan.cmd_slot, 3);
    assert_eq!(plan.sg.len(), 1);
    assert_eq!(plan.sg[0].to_words(), [0x9000, 0, 0, 511]);
    assert_eq!(plan.hdr.to_words(), [0x1_0005, 0, 0x3000, 2, 0, 0, 0, 0]);
    assert_eq!(plan.hdr_addr, 0x1000 + 3 * 1024);
    assert_eq!(plan.issue_mask, 8);
    // slot 32 is refused
    assert!(ahci_exec_ata_cmd(&dev, &cmd, 0x8000_0000).is_none());
    // a transfer beyond 56 entries of 4 MiB is refused
    let mut big = cmd;
    big.buf_len = 56 * 4 * 1024 * 1024 + 1;
    assert!(ahci_exec_ata_cmd(&dev, &big, 1).is_none());
    // a command without data gets no entries
    let flush = ahci_sata_flush_cache(&dev);
    let plan = ahci_exec_ata_cmd(&dev, &flush, 1).unwrap();
    assert_eq!(plan.sg.len(), 0);
    assert_eq!(plan.hdr.opts, 5);
}

#[test]
fn lba48_transfer_runs_in_chunks() {
    let dev = device();
    let mut t = ahci_sata_read_common(&dev, 100, 70000, 0x10000);
    assert!(t.lba48);
    let c1 = t.next_command(&dev);
    assert_eq!(c1.buf, 0x10000);
    assert_eq!(c1.buf_len, 512 * 65535);
    assert_eq!(c1.cfis.sector_count, 0xFF);
    assert_eq!(c1.cfis.sector_count_exp, 0xFF);
    assert!(matches!(t.complete(c1.buf_len), RwStep::Continue));
    assert_eq!(t.start, 100 + 65535);
    assert_eq!(t.blks, 70000 - 65535);
    let c2 = t.next_command(&dev);
    assert_eq!(c2.buf, 0x10000 + 512 * 65535);
    assert_eq!(c2.buf_len, 512 * 4465);
    assert!(matches!(t.complete(c2.buf_len), RwStep::Finished(70000)));
    assert!(!t.active);
}

#[test]
fn lba28_transfer_stops_on_refused_command() {
    let mut dev = device();
    dev.blk_dev.lba48 = false;
    let mut t = ahci_sata_read_common(&dev, 10, 300, 0x2000);
    assert!(!t.lba48);
    let c1 = t.next_command(&dev);
    assert_eq!(c1.buf_len, 512 * 256);
    assert_eq!(c1.cfis.sector_count, 0);
    assert!(matches!(t.complete(1), RwStep::Continue));
    assert_eq!(t.blks, 44);
    assert!(matches!(t.complete(0), RwStep::Finished(0)));
    assert!(!t.active);
}

#[test]
fn write_asks_for_a_flush_when_cached() {
    let mut dev = device();
    let (t, flush) = ahci_sata_write_common(&dev, 0, 8, 0x3000);
    assert_eq!(t.is_write, 1);
    assert!(flush.is_none());
    dev.flags = SATA_FLAG_WCACHE | SATA_FLAG_FLUSH_EXT;
    let (_, flush) = ahci_sata_write_common(&dev, 0, 8, 0x3000);
    assert_eq!(flush.unwrap().cfis.command, 0xEA);
}

#[test]
fn host_init_gives_each_port_its_block() {
    let mut dev = device();
    dev.mmio_base = 0x4000;
    ahci_host_init(&mut dev, 0x4000_0003, 0, 0x0001_0300, 0xf);
    assert_eq!(dev.n_ports, 4);
    assert_eq!(dev.port[0].port_mmio, 0x4100);
    assert_eq!(dev.port[2].port_mmio, 0x4200);
    assert_eq!(dev.port[4].port_mmio, 0);
    assert_eq!(dev.port_map, 0xf);
}

#[test]
fn link_detection_and_port_choice() {
    assert!(ahci_link_up(0x113));
    assert!(!ahci_link_up(0x1));
    let mut dev = device();
    dev.n_ports = 4;
    assert!(matches!(ahci_port_scan(&dev), PortScan::NoDevice));
    ahci_record_link(&mut dev, 2, 0x1);
    assert_eq!(dev.port_map_linkup, 0);
    ahci_record_link(&mut dev, 2, 0x113);
    assert_eq!(dev.port_map_linkup, 0b100);
    assert!(matches!(ahci_port_scan(&dev), PortScan::Start(2)));
    dev.n_ports = 2;
    assert!(matches!(ahci_port_scan(&dev), PortScan::NoneInRange));
}

#[test]
fn port_start_sequence() {
    let mut pp = ahci_ioport::default();
    pp.port_mmio = 0x4100;
    ahci_port_assign_dma(&mut pp, 0x8000_0000_0010_0000);
    assert_eq!(pp.cmd_slot, 0x8000_0000_0010_0000);
    assert_eq!(pp.cmd_slot_dma, 0x10_0000);
    assert_eq!(pp.rx_fis_dma, 0x10_0400);
    assert_eq!(pp.cmd_tbl_dma, 0x10_0500);
    assert_eq!(pp.cmd_tbl_sg, 0x8000_0000_0010_0580);
    pp.cmd_slot_dma = 0x1_0000_2000;
    let w = ahci_port_start_writes(&pp);
    assert_eq!(w[0], (0x4100, 0x2000));
    assert_eq!(w[1], (0x4104, 1));
    assert_eq!(w[2], (0x4108, 0x10_0400));
    assert_eq!(w[3], (0x410c, 0));
    assert_eq!(w[4], (0x4118, 0x1000_0017));
    assert!(ahci_port_idle(0x50));
    assert!(!ahci_port_idle(0x80));
    assert_eq!(ahci_port_start_poll(200, 0x80), PortStartPoll::Again(199));
    assert_eq!(ahci_port_start_poll(5, 0), PortStartPoll::Started);
    // the last poll times out even when the port became idle
    assert_eq!(ahci_port_start_poll(1, 0), PortStartPoll::TimedOut);
}

#[test]
fn identify_data_fills_the_disk_record() {
    let mut id = vec![0u16; 256];
    id[27] = u16::from_be_bytes([b'Q', b'E']);
    id[28] = u16::from_be_bytes([b'M', b'U']);
    for w in 29..47 {
        id[w] = u16::from_be_bytes([b' ', b' ']);
    }
    id[49] = 1 << 9;
    id[64] = 0x3;
    id[75] = 0x3f;
    id[83] = 0x4000 | 0x1000 | 0x2000 | 0x400;
    id[88] = 0x003f;
    id[100] = 0x1000;
    let mut dev = device();
    let cmd = ahci_sata_scan(&mut dev, &id);
    assert_eq!(&dev.blk_dev.product[..5], b"QEMU\0");
    assert_eq!(dev.blk_dev.lba, 0x1000);
    assert!(dev.blk_dev.lba48);
    assert_eq!(dev.blk_dev.queue_depth, 0x20);
    assert_eq!(dev.pio_mask, 3);
    assert_eq!(dev.udma_mask, 0x3f);
    assert_eq!(dev.flags, 512 | 1024);
    assert_eq!(cmd.cfis.command, 0xEF);
    assert_eq!(cmd.cfis.features, 0x03);
    assert_eq!(cmd.cfis.sector_count, 0x3e + 7);
}

#[test]
fn controller_report() {
    let mut dev = device();
    dev.version = 0x0001_0300;
    dev.cap = (1 << 31) | (1 << 30) | (2 << 20) | (31 << 8) | 3;
    dev.cap2 = 1;
    dev.port_map = 0xf;
    let info = ahci_print_info(&dev);
    assert_eq!(info.vers, [0, 1, 3, 0]);
    assert_eq!(info.slots, 32);
    assert_eq!(info.ports, 4);
    assert!(info.speed == AhciSpeed::Gen2);
    assert_eq!(info.impl_map, 0xf);
    assert_eq!(info.flags, vec!["64bit ", "ncq ", "boh "]);
}

#[test]
fn lba28_transfer_advances_the_buffer() {
    let mut dev = device();
    dev.blk_dev.lba48 = false;
    let mut t = ahci_sata_read_common(&dev, 10, 600, 0x2000);
    let c1 = t.next_command(&dev);
    assert_eq!((c1.buf, c1.buf_len), (0x2000, 512 * 256));
    assert!(matches!(t.complete(1), RwStep::Continue));
    let c2 = t.next_command(&dev);
    assert_eq!((c2.buf, c2.buf_len), (0x2000 + 131072, 512 * 256));
    assert_eq!(t.start, 266);
    assert!(matches!(t.complete(1), RwStep::Continue));
    let c3 = t.next_command(&dev);
    assert_eq!((c3.buf, c3.buf_len), (0x2000 + 2 * 131072, 512 * 88));
    assert_eq!(t.start, 522);
    assert!(matches!(t.complete(1), RwStep::Finished(600)));
    assert_eq!(t.addr, 0x2000 + 2 * 131072);
}

#[test]
fn link_map_records_every_linked_port() {
    let mut dev = device();
    dev.n_ports = 4;
    ahci_record_links(&mut dev, &[0x123, 0x1, 0x3, 0x113]);
    assert_eq!(dev.port_map_linkup, 0b1101);
}

#[test]
fn board_controller_read_and_write_begin_transfers() {
    let mut dev = device();
    dev.blk_dev.lba48 = true;
    let mut t = kahci_core::ahci_sata_read_common(&dev, 8, 3, 0x5000);
    assert!(t.active && t.is_write == 0 && t.first == 8 && t.blks == 3 && t.addr == 0x5000);
    let c = t.next_command(&dev);
    assert_eq!(c.buf_len, 3 * 512);
    assert!(matches!(t.complete(c.buf_len), RwStep::Finished(3)));
    dev.flags = monkeyos::libahci::SATA_FLAG_WCACHE | monkeyos::libahci::SATA_FLAG_FLUSH_EXT;
    let (w, flush) = kahci_core::ahci_sata_write_common(&dev, 8, 3, 0x5000);
    assert_eq!(w.is_write, 1);
    assert!(flush.is_some());
    dev.blk_dev.lba48 = false;
    dev.flags = monkeyos::libahci::SATA_FLAG_WCACHE | monkeyos::libahci::SATA_FLAG_FLUSH;
    let (_, flush) = kahci_core::ahci_sata_write_common(&dev, 8, 3, 0x5000);
    assert!(flush.is_none());
}

#[test]
fn host_bring_up_decisions() {
    assert_eq!(host_reset_write(0x8000_0000), Some(0x8000_0001));
    assert_eq!(host_reset_write(0x1), None);
    assert!(host_reset_done(0x8000_0000));
    assert!(!host_reset_done(0x1));
    assert_eq!(host_enable_write(0x2), 0x8000_0002);
    assert_eq!(port_idle_write(0x0000_0002), None);
    assert_eq!(port_idle_write(0x0000_8001), Some(0x0000_8000));
    assert_eq!(port_idle_write(0x0000_0010), Some(0x0000_0010));
    assert_eq!(port_spin_up_write(0x10), 0x12);
    assert_eq!(link_wait_step(0x113, 1000), LinkWait::Done { timed_out: false });
    assert_eq!(link_wait_step(0x1, 5), LinkWait::Done { timed_out: false });
    assert_eq!(link_wait_step(0x0, 5), LinkWait::Poll(4));
    assert_eq!(link_wait_step(0x0, 1), LinkWait::Done { timed_out: true });
    assert_eq!(link_wait_step(0x3, 1), LinkWait::Done { timed_out: true });
}

#[test]
fn host_bring_up_records_registers_ports_and_links() {
    let mut dev = device();
    dev.mmio_base = 0x4000_0000;
    // CAP low bits 3: four ports
    monkeyos::drv_ahci::ahci_host_bring_up(&mut dev, 0x4000_0003, 0x4, 0x10300, 0xf, &[0x113, 0x0, 0x3, 0x1]);
    assert_eq!(dev.cap, 0x4000_0003);
    assert_eq!(dev.cap2, 0x4);
    assert_eq!(dev.version, 0x10300);
    assert_eq!(dev.port_map, 0xf);
    assert_eq!(dev.n_ports, 4);
    assert_eq!(dev.port[3].port_mmio, 0x4000_0000 + 0x100 + 3 * 0x80);
    assert_eq!(dev.port_map_linkup, 0b101);
    assert_eq!(monkeyos::drv_ahci::ahci_port_count(0x1f), 32);
}
