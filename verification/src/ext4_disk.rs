//! The byte cursor that the ext4 layer keeps on a 512-byte-sector block
//! device, and how a byte-granular read or write is split into sector
//! operations.

use vstd::prelude::*;

verus! {

/// Sector size of the underlying block device.
pub const BLOCK_SIZE: usize = 0x200;

/// `whence` values of a seek, as in the C library.
pub const SEEK_SET: u32 = 0;
pub const SEEK_CUR: u32 = 1;
pub const SEEK_END: u32 = 2;

/// A cursor on block device `blk_id`: sector `block_id`, byte `offset` in it.
pub struct Ext4DiskWrapper {
    pub block_id: usize,
    pub offset: usize,
    pub blk_id: usize,
}

/// One sector operation of a transfer.
#[derive(Copy, Clone)]
pub enum DiskSegment {
    /// Read sector `block` whole, and move `len` bytes between byte `offset`
    /// of it and the caller's buffer at `buf_start`; a write then stores the
    /// sector back.
    Partial { block: usize, offset: usize, len: usize, buf_start: usize },
    /// Move `count` whole sectors from sector `block` on, directly to or from
    /// the caller's buffer at `buf_start`.
    Full { block: usize, count: usize, buf_start: usize },
}

impl DiskSegment {
    pub open spec fn buf_start(self) -> int {
        match self {
            DiskSegment::Partial { buf_start, .. } => buf_start as int,
            DiskSegment::Full { buf_start, .. } => buf_start as int,
        }
    }

    /// Number of bytes of the caller's buffer that the operation moves.
    pub open spec fn len(self) -> int {
        match self {
            DiskSegment::Partial { len, .. } => len as int,
            DiskSegment::Full { count, .. } => count * BLOCK_SIZE,
        }
    }

    /// Byte position on the device of the first byte moved.
    pub open spec fn disk_start(self) -> int {
        match self {
            DiskSegment::Partial { block, offset, .. } => block * BLOCK_SIZE + offset,
            DiskSegment::Full { block, .. } => block * BLOCK_SIZE,
        }
    }

    /// A partial operation stays inside its sector.
    pub open spec fn well_shaped(self) -> bool {
        match self {
            DiskSegment::Partial { offset, len, .. } => offset + len <= BLOCK_SIZE,
            DiskSegment::Full { count, .. } => count > 0,
        }
    }
}

/// The operations move bytes `0 .. total` of the buffer, in order, from or to
/// the device bytes `pos .. pos + total`.
pub open spec fn segments_cover(segs: Seq<DiskSegment>, pos: int, total: int) -> bool {
    &&& forall|i: int| 0 <= i < segs.len() ==> (#[trigger] segs[i]).well_shaped()
    &&& forall|i: int| 0 <= i < segs.len() ==> (#[trigger] segs[i]).disk_start() == pos + segs[i].buf_start()
    &&& segs.len() > 0 ==> segs[0].buf_start() == 0
    &&& forall|i: int| 0 <= i < segs.len() - 1 ==> (#[trigger] segs[i + 1]).buf_start() == segs[i].buf_start() + segs[i].len()
    &&& if segs.len() == 0 {
        total == 0
    } else {
        segs.last().buf_start() + segs.last().len() == total
    }
}

impl Ext4DiskWrapper {
    /// The cursor's byte offset lies inside a sector.
    pub open spec fn wf(&self) -> bool {
        self.offset < BLOCK_SIZE
    }

    /// Byte position of the cursor.
    pub open spec fn pos(&self) -> int {
        self.block_id * BLOCK_SIZE + self.offset
    }

    /// The cursor moved to byte `pos`, taken as a `usize`.
    pub open spec fn with_position(self, pos: u64) -> Self {
        Ext4DiskWrapper {
            block_id: (pos as usize) / BLOCK_SIZE,
            offset: (pos as usize) % BLOCK_SIZE,
            blk_id: self.blk_id,
        }
    }

    /// A cursor at the start of block device `blk_id`.
    pub fn new(blk_id: usize) -> (r: Self)
        ensures
            r.wf(),
            r.pos() == 0,
            r.blk_id == blk_id,
    {
        Self { block_id: 0, offset: 0, blk_id }
    }

    /// Byte position of the cursor.
    pub fn position(&self) -> (r: u64)
        requires
            self.pos() <= usize::MAX,
        ensures
            r == self.pos(),
    {
        (self.block_id * BLOCK_SIZE + self.offset) as u64
    }

    /// Moves the cursor to byte `pos` (taken as a `usize`).
    pub fn set_position(&mut self, pos: u64)
        ensures
            *final(self) == old(self).with_position(pos),
    {
        self.block_id = pos as usize / BLOCK_SIZE;
        self.offset = pos as usize % BLOCK_SIZE;
    }

    /// Splits a transfer of `len` bytes at the cursor into sector operations
    /// (a partial head sector when the cursor is inside a sector, whole
    /// sectors, a partial tail sector) and advances the cursor past them.
    /// The transfer always moves all `len` bytes.
    pub fn plan_transfer(&mut self, len: usize) -> (r: Vec<DiskSegment>)
        requires
            old(self).wf(),
            old(self).pos() + len + BLOCK_SIZE <= usize::MAX,
        ensures
            final(self).wf(),
            final(self).blk_id == old(self).blk_id,
            final(self).pos() == old(self).pos() + len,
            segments_cover(r@, old(self).pos(), len as int),
            // a head operation exactly when the cursor was inside a sector
            old(self).offset != 0 <==> (r@.len() > 0 && r@[0] is Partial && r@[0]->Partial_offset
                != 0),
            old(self).offset != 0 ==> r@[0]->Partial_offset == old(self).offset,
    {
        let mut segs: Vec<DiskSegment> = Vec::new();
        let mut done: usize = 0;
        let mut off_in_block: usize = self.offset;
        let mut blk_id: usize = self.block_id;
        let ghost pos0 = self.pos();

        // leading partial sector
        if off_in_block != 0 {
            let can: usize = if BLOCK_SIZE - off_in_block < len {
                BLOCK_SIZE - off_in_block
            } else {
                len
            };
            segs.push(
                DiskSegment::Partial { block: blk_id, offset: off_in_block, len: can, buf_start: 0 },
            );
            done += can;
            off_in_block += can;
            if off_in_block == BLOCK_SIZE {
                off_in_block = 0;
                blk_id += 1;
            }
        }
        assert(blk_id * BLOCK_SIZE + off_in_block == pos0 + done);
        assert(segments_cover(segs@, pos0, done as int));

        // whole sectors
        let remain: usize = len - done;
        if remain >= BLOCK_SIZE {
            let full_bytes: usize = remain - (remain % BLOCK_SIZE);
            if full_bytes > 0 {
                assert(off_in_block == 0);
                segs.push(
                    DiskSegment::Full {
                        block: blk_id,
                        count: full_bytes / BLOCK_SIZE,
                        buf_start: done,
                    },
                );
                blk_id += full_bytes / BLOCK_SIZE;
                done += full_bytes;
            }
        }
        assert(blk_id * BLOCK_SIZE + off_in_block == pos0 + done);

        // trailing partial sector
        let tail: usize = len - done;
        if tail > 0 {
            assert(off_in_block == 0);
            segs.push(DiskSegment::Partial { block: blk_id, offset: 0, len: tail, buf_start: done });
            off_in_block = tail;
        }
        self.block_id = blk_id;
        self.offset = off_in_block % BLOCK_SIZE;
        segs
    }

    /// Moves the cursor as a seek does: to `off` (SEEK_SET and unknown
    /// `whence`), by `off` (SEEK_CUR) or to `off` past the device's end
    /// (SEEK_END, with `size` its capacity in bytes). Fails with -1 when the
    /// target is negative or overflows.
    pub fn seek(&mut self, off: i64, whence: i32, size: usize) -> (r: Result<i64, i32>)
        requires
            old(self).pos() <= usize::MAX,
        ensures
            r == seek_target_spec(old(self).pos(), off, whence, size),
            match r {
                Ok(p) => *final(self) == old(self).with_position(p as u64),
                Err(_) => *final(self) == *old(self),
            },
    {
        let w: u32 = whence as u32;
        let new_pos: Option<i64> = if w == SEEK_SET {
            Some(off)
        } else if w == SEEK_CUR {
            match self.position().checked_add_signed(off) {
                Some(v) => Some(v as i64),
                None => None,
            }
        } else if w == SEEK_END {
            match (size as u64).checked_add_signed(off) {
                Some(v) => if v <= usize::MAX as u64 {
                    Some(v as i64)
                } else {
                    None
                },
                None => None,
            }
        } else {
            Some(off)
        };
        match new_pos {
            None => Err(-1),
            Some(p) => {
                self.set_position(p as u64);
                Ok(p)
            },
        }
    }
}

/// Target of a seek from byte position `cur`.
pub open spec fn seek_target_spec(cur: int, off: i64, whence: i32, size: usize) -> Result<i64, i32> {
    let w = whence as u32;
    if w == SEEK_CUR {
        if 0 <= cur + off <= u64::MAX {
            Ok(((cur + off) as u64) as i64)
        } else {
            Err(-1i32)
        }
    } else if w == SEEK_END {
        if 0 <= size + off <= usize::MAX {
            Ok(((size + off) as u64) as i64)
        } else {
            Err(-1i32)
        }
    } else {
        Ok(off)
    }
}

/// Moving the cursor to a position and reading the position back gives that
/// position, and the cursor stays inside a sector.
pub proof fn lemma_position_round_trip(d: Ext4DiskWrapper, pos: u64)
    requires
        pos <= usize::MAX,
    ensures
        d.with_position(pos).pos() == pos,
        d.with_position(pos).wf(),
{
}

/// A successful seek leaves the cursor at the position it reports.
pub proof fn lemma_seek_lands_on_target(d: Ext4DiskWrapper, off: i64, whence: i32, size: usize)
    requires
        d.pos() <= usize::MAX,
        seek_target_spec(d.pos(), off, whence, size) is Ok,
        0 <= seek_target_spec(d.pos(), off, whence, size)->Ok_0 <= usize::MAX,
    ensures
        d.with_position(seek_target_spec(d.pos(), off, whence, size)->Ok_0 as u64).pos()
            == seek_target_spec(d.pos(), off, whence, size)->Ok_0,
{
}

} // verus!
