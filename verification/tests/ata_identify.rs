use monkeyos::libata::{
    ata_id_c_string, ata_id_has_flush, ata_id_has_flush_ext, ata_id_has_lba, ata_id_has_lba48,
    ata_id_has_wcache, ata_id_n_sectors, ata_id_queue_depth, ata_id_u32, ata_id_u64,
    ata_id_wcache_enabled,
};

fn blank_id() -> Vec<u16> {
    vec![0u16; 257]
}

#[test]
fn u32_and_u64_are_little_endian_words() {
    let mut id = blank_id();
    id[60] = 0x5678;
    id[61] = 0x1234;
    assert_eq!(ata_id_u32(&id, 60), 0x1234_5678);
    id[100] = 0x4444;
    id[101] = 0x3333;
    id[102] = 0x2222;
    id[103] = 0x1111;
    assert_eq!(ata_id_u64(&id, 100), 0x1111_2222_3333_4444);
}

#[test]
fn lba_and_lba48_capacity() {
    let mut id = blank_id();
    assert!(!ata_id_has_lba(&id));
    assert_eq!(ata_id_n_sectors(&id), 0);
    id[49] = 1 << 9;
    id[60] = 0x0000;
    id[61] = 0x0010;
    // no valid command set 2 word: 28-bit count
    assert!(!ata_id_has_lba48(&id));
    assert_eq!(ata_id_n_sectors(&id), 0x10_0000);
    id[83] = 0x4000 | (1 << 10);
    id[100] = 0x0000;
    id[101] = 0x0100;
    assert!(ata_id_has_lba48(&id));
    assert_eq!(ata_id_n_sectors(&id), 0x100_0000);
    // a zero 48-bit capacity disables lba48
    id[101] = 0;
    assert!(!ata_id_has_lba48(&id));
}

#[test]
fn flush_and_cache_bits_need_valid_words() {
    let mut id = blank_id();
    id[83] = (1 << 12) | (1 << 13);
    assert!(!ata_id_has_flush(&id));
    assert!(!ata_id_has_flush_ext(&id));
    id[83] |= 0x4000;
    assert!(ata_id_has_flush(&id));
    assert!(ata_id_has_flush_ext(&id));
    id[82] = 1 << 5;
    assert!(ata_id_has_wcache(&id));
    id[85] = 1 << 5;
    assert!(!ata_id_wcache_enabled(&id));
    id[87] = 0x4000;
    assert!(ata_id_wcache_enabled(&id));
}

#[test]
fn queue_depth_is_low_five_bits_plus_one() {
    let mut id = blank_id();
    assert_eq!(ata_id_queue_depth(&id), 1);
    id[75] = 0x1f;
    assert_eq!(ata_id_queue_depth(&id), 32);
    id[75] = 0x3f;
    assert_eq!(ata_id_queue_depth(&id), 32);
    id[75] = 0xff05;
    assert_eq!(ata_id_queue_depth(&id), 6);
}

#[test]
fn c_string_swaps_bytes_and_trims_spaces() {
    let mut id = blank_id();
    // "AB" "C " "  "
    id[10] = u16::from_be_bytes([b'A', b'B']);
    id[11] = u16::from_be_bytes([b'C', b' ']);
    id[12] = u16::from_be_bytes([b' ', b' ']);
    let mut s = [0xffu8; 7];
    ata_id_c_string(&id, &mut s, 10);
    assert_eq!(&s[..4], b"ABC\0");
    // bytes after the NUL keep what was copied; the last byte is untouched
    assert_eq!(&s[4..], &[b' ', b' ', 0xff]);
}

#[test]
fn c_string_all_spaces_is_empty() {
    let mut id = blank_id();
    id[0] = u16::from_be_bytes([b' ', b' ']);
    let mut s = [7u8; 3];
    ata_id_c_string(&id, &mut s, 0);
    assert_eq!(s, [0, b' ', 7]);
}
