use monkeyos::kvirtio::{
    align_up, assign_bar_step, bar_address_expected, BarAllocator, BarKind, BarWrite,
};
use monkeyos::pci::PciConfig;

#[test]
fn config_space_addresses() {
    let f = PciConfig::new(0x2000_0000, 0, 3, 0);
    assert_eq!(f.config_addr(0x10), 0x2000_0310);
    let g = PciConfig::new(0x2000_0000, 1, 2, 1);
    assert_eq!(g.config_addr(4), 0x2000_0000 + 0x10_0000 + 0x1_0000 + 0x1000 + 4);
}

#[test]
fn config_register_fields() {
    let f = PciConfig::new(0, 0, 0, 0);
    assert_eq!(f.vendor_id(0x1000_1AF4), 0x1AF4);
    assert_eq!(f.device_id(0x1000_1AF4), 0x1000);
    assert_eq!(f.class_code(0x0106_0100), 0x01);
    assert_eq!(f.subclass(0x0106_0100), 0x06);
    assert_eq!(f.interface(0x0106_0100), 0x01);
    assert_eq!(f.bar(0), Some(0x10));
    assert_eq!(f.bar(5), Some(0x24));
    assert_eq!(f.bar(6), None);
    assert_eq!(f.set_bar(2, 0xdead_0000), Some((0x18, 0xdead_0000)));
    assert_eq!(f.set_bar(6, 1), None);
}

#[test]
fn command_register_keeps_status() {
    let f = PciConfig::new(0, 0, 0, 0);
    let reg4 = 0x0010_0003;
    assert_eq!(f.command(reg4), 3);
    let w = f.set_command(reg4, 0x0407);
    assert_eq!(w, 0x0010_0407);
    // reading back the written value gives what was set
    assert_eq!(f.command(w), 0x0407);
    assert_eq!(f.enable_bus_master(reg4), 0x0010_0007);
    assert_eq!(f.enable_memory_space(0x0010_0001), 0x0010_0003);
}

#[test]
fn align_up_rounds_to_power_of_two() {
    assert_eq!(align_up(0x1001, 0x1000), 0x2000);
    assert_eq!(align_up(0x2000, 0x1000), 0x2000);
    assert_eq!(align_up(5, 1), 5);
}

#[test]
fn bar_allocator_fills_32bit_window_then_64bit() {
    let mut a = BarAllocator::new();
    assert_eq!(a.next, 0x5800_0000);
    assert_eq!(a.allocate_bar_address(0x1000), Some(0x5800_0000));
    assert_eq!(a.allocate_bar_address(0x4000), Some(0x5800_4000));
    assert_eq!(a.next, 0x5800_8000);
    a.next = 0x7FFF_F000;
    assert_eq!(a.allocate_bar_address(0x2000), Some(0x1000_0000_0000));
    assert_eq!(a.next, 0x1000_0000_2000);
    assert_eq!(a.allocate_bar_address(0x1000), None);
    assert_eq!(a.next, 0x1000_0000_2000);
}

#[test]
fn bar_walk_steps() {
    let mut a = BarAllocator::new();
    let r = assign_bar_step(&mut a, 0, BarKind::Memory { size: 0x1000, address: 0, width64: Some(false) });
    assert_eq!(r, (BarWrite::Bar32(0x5800_0000), 1));
    let r = assign_bar_step(&mut a, 1, BarKind::Memory { size: 0x4000, address: 0, width64: Some(true) });
    assert_eq!(r, (BarWrite::Bar64(0x5800_4000), 3));
    let r = assign_bar_step(&mut a, 3, BarKind::Memory { size: 0x1000, address: 0x6000_0000, width64: Some(false) });
    assert_eq!(r, (BarWrite::Nothing, 4));
    let r = assign_bar_step(&mut a, 4, BarKind::Io { size: 0x100, address: 0 });
    assert_eq!(r, (BarWrite::Bar32(0x5800_8000), 5));
    let r = assign_bar_step(&mut a, 5, BarKind::Unavailable);
    assert_eq!(r, (BarWrite::Nothing, 6));
    let r = assign_bar_step(&mut a, 0, BarKind::Memory { size: 0x1000, address: 0, width64: None });
    assert_eq!(r, (BarWrite::Nothing, 1));
    // the allocation was made even though the type is not handled
    assert_eq!(a.next, 0x5800_A000);
}

#[test]
fn expected_bar_windows() {
    assert!(bar_address_expected(0x5800_0000));
    assert!(!bar_address_expected(0x1000));
    assert!(!bar_address_expected(0x9000_0000));
    assert!(bar_address_expected(0x1000_0000_0000));
}

#[test]
fn bar_regions_never_overlap_over_a_run() {
    let mut alloc = monkeyos::kvirtio::BarAllocator::new();
    let mut got: Vec<(u64, u64)> = Vec::new();
    for size in [0x1000u64, 0x10_0000, 0x4000, 0x1000_0000, 0x2000_0000, 0x1000] {
        if let Some(a) = alloc.allocate_bar_address(size) {
            assert_eq!(a % size, 0);
            got.push((a, size));
        }
    }
    for i in 0..got.len() {
        for j in i + 1..got.len() {
            assert!(got[i].0 + got[i].1 <= got[j].0);
        }
    }
    assert!(got.len() >= 5);
}
