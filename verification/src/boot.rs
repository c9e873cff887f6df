//! Arithmetic of the LoongArch boot path: which device-tree pointer the
//! kernel starts from, how many words clearing `.bss` writes, and the hex
//! digits the early UART trace prints.

use vstd::prelude::*;

verus! {

/// The device-tree pointer the kernel starts from: the one the boot loader
/// passed in `a1`, or, when it passed none (0), the one saved at entry.
pub fn boot_dtb_pointer(dt_raw: u64, saved: u64) -> (r: u64)
    ensures
        r == if dt_raw != 0 {
            dt_raw
        } else {
            saved
        },
{
    if dt_raw != 0 {
        dt_raw
    } else {
        saved
    }
}

/// The number of 16-byte words cleared between `sbss` and `ebss`.
pub fn bss_words(sbss: u64, ebss: u64) -> (r: u64)
    requires
        sbss <= ebss,
    ensures
        r == (ebss - sbss) / 16,
{
    (ebss - sbss) / 16
}

/// The lower-case hex character of a digit below 16.
pub open spec fn hex_char(d: u64) -> u8 {
    if d < 10 {
        (48 + d) as u8
    } else {
        (87 + d) as u8
    }
}

/// Digit `i` (0 the lowest) of `val` in base 16.
pub open spec fn nibble(val: u64, i: int) -> u64 {
    (val >> ((4 * i) as u64)) & 0xf
}

/// The 16 hex characters of `val`, most significant first, as the early
/// UART trace prints a value.
pub fn hex_digits(val: u64) -> (r: [u8; 16])
    ensures
        forall|j: int| 0 <= j < 16 ==> #[trigger] r[j] == hex_char(nibble(val, 15 - j)),
{
    let hex: [u8; 16] = [48u8, 49, 50, 51, 52, 53, 54, 55, 56, 57, 97, 98, 99, 100, 101, 102];
    let mut out: [u8; 16] = [0u8; 16];
    assert(forall|x: u64| (x & 0xf) < 16) by (bit_vector);
    let mut j: usize = 0;
    while j < 16
        invariant
            j <= 16,
            forall|x: u64| (x & 0xf) < 16,
            hex@ == seq![48u8, 49, 50, 51, 52, 53, 54, 55, 56, 57, 97, 98, 99, 100, 101, 102],
            forall|k: int| 0 <= k < j ==> #[trigger] out[k] == hex_char(nibble(val, 15 - k)),
        decreases 16 - j,
    {
        let shift: u64 = (4 * (15 - j)) as u64;
        let d: u64 = (val >> shift) & 0xf;
        assert(d < 16);
        assert(d == nibble(val, 15 - j));
        out.set(j, hex[d as usize]);
        j = j + 1;
    }
    out
}

} // verus!
