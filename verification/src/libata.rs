//! ATA definitions and decoding of the IDENTIFY DEVICE data block.

use vstd::prelude::*;

verus! {

pub const SETFEATURES_XFER: u8 = 0x03;

pub const ATA_CMD_FLUSH: u8 = 0xE7;
pub const ATA_CMD_FLUSH_EXT: u8 = 0xEA;
pub const ATA_CMD_ID_ATA: u8 = 0xEC;
pub const ATA_CMD_READ: u8 = 0xC8;
pub const ATA_CMD_READ_EXT: u8 = 0x25;
pub const ATA_CMD_WRITE: u8 = 0xCA;
pub const ATA_CMD_WRITE_EXT: u8 = 0x35;
pub const ATA_CMD_SET_FEATURES: u8 = 0xEF;

pub const ATA_LBA: u8 = 0x40;
pub const ATA_BUSY: u8 = 0x80;
pub const ATA_DRQ: u8 = 0x08;
pub const ATA_ERR: u8 = 0x01;

pub const ATA_ID_WORDS: u32 = 256;
pub const ATA_ID_SERNO: u32 = 10;
pub const ATA_ID_FW_REV: u32 = 23;
pub const ATA_ID_PROD: u32 = 27;
pub const ATA_ID_CAPABILITY: u32 = 49;
pub const ATA_ID_LBA_CAPACITY: u32 = 60;
pub const ATA_ID_PIO_MODES: u32 = 64;
pub const ATA_ID_QUEUE_DEPTH: u32 = 75;
pub const ATA_ID_COMMAND_SET_1: u32 = 82;
pub const ATA_ID_COMMAND_SET_2: u32 = 83;
pub const ATA_ID_CFS_ENABLE_1: u32 = 85;
pub const ATA_ID_CSF_DEFAULT: u32 = 87;
pub const ATA_ID_UDMA_MODES: u32 = 88;
pub const ATA_ID_LBA_CAPACITY_2: u32 = 100;

pub const ATA_ID_SERNO_LEN: u32 = 20;
pub const ATA_ID_FW_REV_LEN: u32 = 8;
pub const ATA_ID_PROD_LEN: u32 = 40;

pub const ATA_SECT_SIZE: u32 = 512;
pub const ATA_MAX_SECTORS: u32 = 256;
pub const ATA_MAX_SECTORS_LBA48: u32 = 65535;

pub const SATA_FIS_TYPE_REGISTER_H2D: u8 = 39;

/// Host-to-device register FIS, laid out as on the wire.
#[derive(Copy, Clone)]
pub struct sata_fis_h2d {
    pub fis_type: u8,
    pub pm_port_c: u8,
    pub command: u8,
    pub features: u8,
    pub lba_low: u8,
    pub lba_mid: u8,
    pub lba_high: u8,
    pub device: u8,
    pub lba_low_exp: u8,
    pub lba_mid_exp: u8,
    pub lba_high_exp: u8,
    pub features_exp: u8,
    pub sector_count: u8,
    pub sector_count_exp: u8,
    pub res1: u8,
    pub control: u8,
    pub res2: [u8; 4],
}

/// The 32-bit value stored little-endian in words `n` and `n + 1`.
pub open spec fn id_u32_spec(id: Seq<u16>, n: int) -> int {
    id[n + 1] as int * 0x10000 + id[n] as int
}

/// The 64-bit value stored little-endian in words `n` to `n + 3`.
pub open spec fn id_u64_spec(id: Seq<u16>, n: int) -> int {
    id[n + 3] as int * 0x1_0000_0000_0000 + id[n + 2] as int * 0x1_0000_0000 + id[n + 1] as int
        * 0x10000 + id[n] as int
}

/// Command-set word 83 carries valid data only when its top two bits are `01`.
pub open spec fn command_set_2_valid(id: Seq<u16>) -> bool {
    id[ATA_ID_COMMAND_SET_2 as int] & 0xc000 == 0x4000
}

pub open spec fn has_lba_spec(id: Seq<u16>) -> bool {
    id[ATA_ID_CAPABILITY as int] & 0x200 != 0
}

pub open spec fn has_lba48_spec(id: Seq<u16>) -> bool {
    command_set_2_valid(id) && id_u64_spec(id, ATA_ID_LBA_CAPACITY_2 as int) != 0
        && id[ATA_ID_COMMAND_SET_2 as int] & 0x400 != 0
}

pub open spec fn n_sectors_spec(id: Seq<u16>) -> int {
    if has_lba_spec(id) {
        if has_lba48_spec(id) {
            id_u64_spec(id, ATA_ID_LBA_CAPACITY_2 as int)
        } else {
            id_u32_spec(id, ATA_ID_LBA_CAPACITY as int)
        }
    } else {
        0
    }
}

/// The capacity a disk reports: none without LBA (word 49 bit 9); with
/// 48-bit addressing usable (word 83 valid with bit 10, and a nonzero
/// count in words 100-103) the 64-bit count of words 100-103, least
/// significant word first; otherwise the 32-bit count of words 60-61. It
/// always fits in 64 bits.
pub proof fn lemma_capacity_words(id: Seq<u16>)
    requires
        id.len() > 103,
    ensures
        id[49] & 0x200 == 0 ==> n_sectors_spec(id) == 0,
        id[49] & 0x200 != 0 && id[83] & 0xc000 == 0x4000 && id[83] & 0x400 != 0 && (id[100] != 0 || id[101]
            != 0 || id[102] != 0 || id[103] != 0) ==> n_sectors_spec(id) == id[103] as int
            * 0x1_0000_0000_0000 + id[102] as int * 0x1_0000_0000 + id[101] as int * 0x1_0000 + id[100] as int,
        id[49] & 0x200 != 0 && !(id[83] & 0xc000 == 0x4000 && id[83] & 0x400 != 0 && (id[100] != 0 || id[101]
            != 0 || id[102] != 0 || id[103] != 0)) ==> n_sectors_spec(id) == id[61] as int * 0x1_0000
            + id[60] as int,
        0 <= n_sectors_spec(id) <= u64::MAX,
{
    assert(id_u64_spec(id, 100) == 0 <==> (id[100] == 0 && id[101] == 0 && id[102] == 0 && id[103] == 0));
}

/// An IDENTIFY block long enough for every word that the decoders read.
pub open spec fn id_complete(id: Seq<u16>) -> bool {
    id.len() >= ATA_ID_WORDS
}

/// The single-bit masks of the IDENTIFY words that the decoders test.
proof fn lemma_id_bit_masks()
    by (bit_vector)
    ensures
        (1u16 << 9u16) == 0x200,
        (1u16 << 12u16) == 0x1000,
        (1u16 << 13u16) == 0x2000,
        (1u16 << 10u16) == 0x400,
        (1u16 << 5u16) == 0x20,
{
}

/// Whether the device supports LBA addressing (word 49, bit 9).
pub fn ata_id_has_lba(id: &[u16]) -> (r: bool)
    requires
        id@.len() > ATA_ID_CAPABILITY,
    ensures
        r == has_lba_spec(id@),
{
    proof {
        lemma_id_bit_masks();
    }
    (id[ATA_ID_CAPABILITY as usize] & (1 << 9)) != 0
}

/// Queue depth of the device: the low five bits of word 75 plus one, so
/// between 1 and 32.
pub fn ata_id_queue_depth(id: &[u16]) -> (r: u32)
    requires
        id@.len() > ATA_ID_QUEUE_DEPTH,
    ensures
        r == (id@[ATA_ID_QUEUE_DEPTH as int] & 0x1f) + 1,
        1 <= r <= 32,
{
    let w: u16 = id[ATA_ID_QUEUE_DEPTH as usize];
    assert(w & 0x1f <= 0x1f) by (bit_vector);
    ((w & 0x1f) + 1) as u32
}

/// Reads the 32-bit value stored in words `n` (low half) and `n + 1` (high half).
pub fn ata_id_u32(id: &[u16], n: u32) -> (r: u32)
    requires
        n + 1 < id@.len(),
        n < u32::MAX,
    ensures
        r as int == id_u32_spec(id@, n as int),
{
    let hi = id[(n + 1) as usize];
    let lo = id[n as usize];
    let r = (hi as u32) << 16 | (lo as u32);
    assert(((hi as u32) << 16 | (lo as u32)) as int == hi as int * 0x10000 + lo as int)
        by (bit_vector);
    r
}

/// Reads the 64-bit value stored in words `n` to `n + 3`, least significant word first.
pub fn ata_id_u64(id: &[u16], n: u32) -> (r: u64)
    requires
        n + 3 < id@.len(),
        n <= u32::MAX - 3,
    ensures
        r as int == id_u64_spec(id@, n as int),
{
    let w3 = id[(n + 3) as usize];
    let w2 = id[(n + 2) as usize];
    let w1 = id[(n + 1) as usize];
    let w0 = id[(n + 0) as usize];
    let mut val: u64 = 0;
    val |= (w3 as u64) << 48;
    val |= (w2 as u64) << 32;
    val |= (w1 as u64) << 16;
    val |= (w0 as u64) << 0;
    assert((((((0u64 | ((w3 as u64) << 48)) | ((w2 as u64) << 32)) | ((w1 as u64) << 16)) | ((
    w0 as u64) << 0)) as int) == w3 as int * 0x1_0000_0000_0000 + w2 as int * 0x1_0000_0000
        + w1 as int * 0x10000 + w0 as int) by (bit_vector);
    val
}

/// FLUSH CACHE supported (word 83 valid and bit 12 set).
pub fn ata_id_has_flush(id: &[u16]) -> (r: bool)
    requires
        id@.len() > 83,
    ensures
        r == (command_set_2_valid(id@) && id@[ATA_ID_COMMAND_SET_2 as int] & 0x1000 != 0),
{
    if (id[ATA_ID_COMMAND_SET_2 as usize] & 0xc000) != 0x4000 {
        return false;
    }
    proof {
        lemma_id_bit_masks();
    }
    (id[ATA_ID_COMMAND_SET_2 as usize] & (1 << 12)) != 0
}

/// FLUSH CACHE EXT supported (word 83 valid and bit 13 set).
pub fn ata_id_has_flush_ext(id: &[u16]) -> (r: bool)
    requires
        id@.len() > 83,
    ensures
        r == (command_set_2_valid(id@) && id@[ATA_ID_COMMAND_SET_2 as int] & 0x2000 != 0),
{
    if (id[ATA_ID_COMMAND_SET_2 as usize] & 0xc000) != 0x4000 {
        return false;
    }
    proof {
        lemma_id_bit_masks();
    }
    (id[ATA_ID_COMMAND_SET_2 as usize] & (1 << 13)) != 0
}

/// 48-bit addressing supported: word 83 valid, a nonzero 48-bit capacity,
/// and bit 10 of word 83 set.
pub fn ata_id_has_lba48(id: &[u16]) -> (r: bool)
    requires
        id@.len() > 103,
    ensures
        r == has_lba48_spec(id@),
{
    if (id[ATA_ID_COMMAND_SET_2 as usize] & 0xc000) != 0x4000 {
        return false;
    }
    if ata_id_u64(id, ATA_ID_LBA_CAPACITY_2) == 0 {
        return false;
    }
    proof {
        lemma_id_bit_masks();
    }
    (id[ATA_ID_COMMAND_SET_2 as usize] & (1 << 10)) != 0
}

/// Volatile write cache supported (word 83 valid and word 82 bit 5 set).
pub fn ata_id_has_wcache(id: &[u16]) -> (r: bool)
    requires
        id@.len() > 83,
    ensures
        r == (command_set_2_valid(id@) && id@[ATA_ID_COMMAND_SET_1 as int] & 0x20 != 0),
{
    if (id[ATA_ID_COMMAND_SET_2 as usize] & 0xc000) != 0x4000 {
        return false;
    }
    proof {
        lemma_id_bit_masks();
    }
    (id[ATA_ID_COMMAND_SET_1 as usize] & (1 << 5)) != 0
}

/// Write cache enabled (word 87 valid and word 85 bit 5 set).
pub fn ata_id_wcache_enabled(id: &[u16]) -> (r: bool)
    requires
        id@.len() > 87,
    ensures
        r == (id@[ATA_ID_CSF_DEFAULT as int] & 0xc000 == 0x4000 && id@[ATA_ID_CFS_ENABLE_1 as int]
            & 0x20 != 0),
{
    if (id[ATA_ID_CSF_DEFAULT as usize] & 0xc000) != 0x4000 {
        return false;
    }
    proof {
        lemma_id_bit_masks();
    }
    (id[ATA_ID_CFS_ENABLE_1 as usize] & (1 << 5)) != 0
}

/// Device capacity in sectors: the 48-bit count when LBA48 is usable, the
/// 28-bit count when only LBA is, and 0 without LBA.
pub fn ata_id_n_sectors(id: &[u16]) -> (r: u64)
    requires
        id@.len() > 103,
    ensures
        r as int == n_sectors_spec(id@),
{
    if ata_id_has_lba(id) {
        if ata_id_has_lba48(id) {
            return ata_id_u64(id, ATA_ID_LBA_CAPACITY_2);
        } else {
            return ata_id_u32(id, ATA_ID_LBA_CAPACITY) as u64;
        }
    } else {
        return 0;
    }
}

/// Byte `k` of the big-endian string stored from word `ofs` on.
pub open spec fn id_string_byte(id: Seq<u16>, ofs: int, k: int) -> u8 {
    if k % 2 == 0 {
        (id[ofs + k / 2] >> 8u16) as u8
    } else {
        (id[ofs + k / 2] & 0xffu16) as u8
    }
}

/// The `len` raw bytes of the string stored from word `ofs` on.
pub open spec fn id_string_bytes(id: Seq<u16>, ofs: int, len: nat) -> Seq<u8> {
    Seq::new(len, |k: int| id_string_byte(id, ofs, k))
}

/// Length of `s` without its trailing spaces.
pub open spec fn trimmed_len(s: Seq<u8>) -> nat
    decreases s.len(),
{
    if s.len() == 0 {
        0
    } else if s.last() != 0x20u8 {
        s.len()
    } else {
        trimmed_len(s.drop_last())
    }
}

/// The contents of `s` after `ata_id_c_string`: the raw string bytes, the
/// untouched last byte, and a NUL written just past the last non-space byte.
pub open spec fn c_string_result(id: Seq<u16>, ofs: int, old_s: Seq<u8>) -> Seq<u8> {
    let len = (old_s.len() - 1) as nat;
    let raw = id_string_bytes(id, ofs, len);
    raw.push(old_s[len as int]).update(trimmed_len(raw) as int, 0u8)
}

/// Copies the big-endian ATA string from words `ofs..` into `s`, then writes a
/// NUL after its last non-space byte.
pub fn ata_id_c_string(id: &[u16], s: &mut [u8], ofs: usize)
    requires
        old(s)@.len() >= 1,
        old(s)@.len() % 2 == 1,
        ofs + old(s)@.len() / 2 <= id@.len(),
    ensures
        final(s)@ == c_string_result(id@, ofs as int, old(s)@),
{
    let len: usize = s.len() - 1;
    let len_id: usize = (len + 1) / 2;
    let ghost old_s = s@;
    let ghost raw = id_string_bytes(id@, ofs as int, len as nat);
    let mut i: usize = 0;
    while i < len_id
        invariant
            len == old_s.len() - 1,
            len % 2 == 0,
            len_id == len / 2,
            ofs + len_id <= id.len(),
            i <= len_id,
            s@.len() == old_s.len(),
            raw == id_string_bytes(id@, ofs as int, len as nat),
            forall|k: int| 0 <= k < 2 * i ==> s@[k] == raw[k],
            forall|k: int| 2 * i <= k < s@.len() ==> s@[k] == old_s[k],
        decreases len_id - i,
    {
        let word = id[ofs + i];
        let idx = i * 2;
        assert(word >> 8u16 < 256u16 && word & 0xffu16 < 256u16) by (bit_vector);
        s[idx] = (word >> 8) as u8;
        s[idx + 1] = (word & 0xff) as u8;
        proof {
            assert(raw[idx as int] == (word >> 8u16) as u8);
            assert(raw[idx + 1] == (word & 0xffu16) as u8);
        }
        i = i + 1;
    }
    // position just past the last non-space byte of the copied string
    let mut new_len: usize = len;
    proof {
        assert(raw.subrange(0, len as int) =~= raw);
    }
    while new_len > 0 && s[new_len - 1] == 0x20
        invariant
            new_len <= len,
            len == old_s.len() - 1,
            s@.len() == old_s.len(),
            forall|k: int| 0 <= k < len ==> s@[k] == raw[k],
            s@[len as int] == old_s[len as int],
            raw.len() == len,
            trimmed_len(raw) == trimmed_len(raw.subrange(0, new_len as int)),
        decreases new_len,
    {
        proof {
            let t = raw.subrange(0, new_len as int);
            assert(t.last() == 0x20u8);
            assert(t.drop_last() =~= raw.subrange(0, new_len - 1));
        }
        new_len = new_len - 1;
    }
    proof {
        let t = raw.subrange(0, new_len as int);
        if new_len > 0 {
            assert(t.last() != 0x20u8);
        }
        assert(trimmed_len(t) == new_len);
        assert(raw.subrange(0, len as int) =~= raw);
    }
    s[new_len] = 0;
    proof {
        assert(s@ =~= raw.push(old_s[len as int]).update(new_len as int, 0u8));
    }
}

} // verus!
