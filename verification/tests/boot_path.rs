use monkeyos::boot::{boot_dtb_pointer, bss_words, hex_digits};

#[test]
fn device_tree_pointer_fallback() {
    assert_eq!(boot_dtb_pointer(0x9000_0000, 0x1234), 0x9000_0000);
    assert_eq!(boot_dtb_pointer(0, 0x1234), 0x1234);
}

#[test]
fn bss_clear_count() {
    assert_eq!(bss_words(0x1000, 0x1000), 0);
    assert_eq!(bss_words(0x1000, 0x1040), 4);
    assert_eq!(bss_words(0x1000, 0x104f), 4);
}

#[test]
fn trace_hex_digits() {
    assert_eq!(&hex_digits(0x8000_0000_1fe2_0000), b"800000001fe20000");
    assert_eq!(&hex_digits(0), b"0000000000000000");
    assert_eq!(&hex_digits(u64::MAX), b"ffffffffffffffff");
    assert_eq!(&hex_digits(0x0123_4567_89ab_cdef), b"0123456789abcdef");
}
