//! The adapter that turns a caller's block device into the callbacks that
//! the engine invokes.

use vstd::prelude::*;

use crate::error::{Ext4Result, EIO, EOK};

verus! {

/// Device block size.
pub const EXT4_DEV_BSIZE: usize = 512;

/// A block device of `EXT4_DEV_BSIZE`-byte blocks.
///
/// Nothing is asked of what a device does. A device may say of itself, in
/// `wrote` and `read`, which outcomes its transfers can have; one that says
/// nothing allows every outcome. The callbacks of the adapter speak of the
/// device's answers in these terms.
pub trait BlockDevice {
    /// Whether a write of `data` from block `block_id` on may take the
    /// device from `before` to `after` and be answered by `r`.
    open spec fn wrote(
        before: &Self,
        block_id: u64,
        data: Seq<u8>,
        after: &Self,
        r: Ext4Result<usize>,
    ) -> bool {
        true
    }

    /// Whether a read from block `block_id` on into a buffer that held
    /// `held` may take the device from `before` to `after`, leave `data` in
    /// the buffer and be answered by `r`.
    open spec fn read(
        before: &Self,
        block_id: u64,
        held: Seq<u8>,
        after: &Self,
        data: Seq<u8>,
        r: Ext4Result<usize>,
    ) -> bool {
        true
    }

    /// Writes blocks to the device, starting from the given block ID.
    fn write_blocks(&mut self, block_id: u64, buf: &[u8]) -> (r: Ext4Result<usize>)
        ensures
            Self::wrote(old(self), block_id, buf@, final(self), r),
    ;

    /// Reads blocks from the device, starting from the given block ID.
    fn read_blocks(&mut self, block_id: u64, buf: &mut [u8]) -> (r: Ext4Result<usize>)
        ensures
            Self::read(old(self), block_id, old(buf)@, final(self), final(buf)@, r),
    ;

    /// Gets the number of blocks on the device.
    fn num_blocks(&self) -> Ext4Result<u64>;
}

/// A caller's device together with what the engine's callbacks keep about
/// it: the number of its blocks and the byte extent that can be addressed.
pub struct Ext4BlockDevice<Dev: BlockDevice> {
    pub dev: Dev,
    /// Number of device blocks, as last asked of the device.
    pub ph_bcnt: u64,
    /// Byte offset of the partition on the device.
    pub part_offset: u64,
    /// Size of the partition in bytes.
    pub part_size: u64,
}

/// The status that a device's answer becomes: success, or the generic
/// input/output failure whatever the device's own error was.
pub open spec fn status_of<T>(r: Ext4Result<T>) -> i32 {
    if r is Ok {
        EOK
    } else {
        EIO
    }
}

/// Maps a device's answer to the status that the engine is given.
pub fn device_status<T>(r: &Ext4Result<T>) -> (status: i32)
    ensures
        status == status_of(*r),
{
    match r {
        Ok(_) => EOK,
        Err(_) => EIO,
    }
}

/// Number of bytes that `blk_cnt` device blocks take.
pub open spec fn transfer_len(blk_cnt: u32) -> int {
    EXT4_DEV_BSIZE * blk_cnt
}

impl<Dev: BlockDevice> Ext4BlockDevice<Dev> {
    /// Wraps a device; nothing is known of its size until it is opened.
    pub fn new(dev: Dev) -> (r: Self)
        ensures
            r.dev == dev,
            r.ph_bcnt == 0,
            r.part_offset == 0,
            r.part_size == 0,
    {
        Ext4BlockDevice { dev, ph_bcnt: 0, part_offset: 0, part_size: 0 }
    }

    /// What `opened` leaves for an answer of the device to the question how
    /// many blocks it has.
    pub open spec fn after_open(before: Self, after: Self, blocks: Ext4Result<u64>, status: i32) -> bool {
        &&& after.dev == before.dev
        &&& if blocks is Ok && blocks->Ok_0 * EXT4_DEV_BSIZE <= u64::MAX {
            &&& status == EOK
            &&& after.ph_bcnt == blocks->Ok_0
            &&& after.part_offset == 0
            &&& after.part_size == blocks->Ok_0 * EXT4_DEV_BSIZE
        } else {
            &&& status == EIO
            &&& after.ph_bcnt == before.ph_bcnt
            &&& after.part_offset == before.part_offset
            &&& after.part_size == before.part_size
        }
    }

    /// Records the size of the device from its answer: the partition starts
    /// at zero and spans block count times block size bytes. An error of the
    /// device, or an extent beyond 64 bits, is an input/output failure and
    /// changes nothing.
    pub fn opened(&mut self, blocks: Ext4Result<u64>) -> (status: i32)
        ensures
            Self::after_open(*old(self), *final(self), blocks, status),
    {
        match blocks {
            Ok(count) => {
                if count > u64::MAX / (EXT4_DEV_BSIZE as u64) {
                    return EIO;
                }
                self.ph_bcnt = count;
                self.part_offset = 0;
                self.part_size = count * (EXT4_DEV_BSIZE as u64);
                EOK
            },
            Err(_) => EIO,
        }
    }

    /// The engine's open callback: asks the device for its size and records
    /// it.
    pub fn dev_open(&mut self) -> (status: i32)
        ensures
            exists|blocks: Ext4Result<u64>|
                Self::after_open(*old(self), *final(self), blocks, status),
    {
        let blocks = self.dev.num_blocks();
        self.opened(blocks)
    }

    /// Whether `status` is what the read callback returns after the device
    /// answered a read from block `blk_id` on: the read took the device and
    /// the buffer to where they are now, and the status is success for an
    /// answer of success and the input/output failure for any error.
    pub open spec fn read_answered(
        before: Self,
        after: Self,
        held: Seq<u8>,
        data: Seq<u8>,
        blk_id: u64,
        status: i32,
    ) -> bool {
        exists|r: Ext4Result<usize>| #[trigger]
            Dev::read(&before.dev, blk_id, held, &after.dev, data, r) && status == status_of(r)
    }

    /// Whether `status` is what the write callback returns after the device
    /// answered a write of `data` from block `blk_id` on: the write took the
    /// device to where it is now, and the status is success for an answer of
    /// success and the input/output failure for any error.
    pub open spec fn write_answered(
        before: Self,
        after: Self,
        data: Seq<u8>,
        blk_id: u64,
        status: i32,
    ) -> bool {
        exists|r: Ext4Result<usize>| #[trigger]
            Dev::wrote(&before.dev, blk_id, data, &after.dev, r) && status == status_of(r)
    }

    /// The engine's read callback: reads `blk_cnt` blocks from block
    /// `blk_id` on into `buf`. A count of zero succeeds without a call to
    /// the device. Any other count is one read of the device from `blk_id`
    /// on into the whole buffer; an error of the device is an input/output
    /// failure. What is known of the device's size stays.
    pub fn dev_bread(&mut self, buf: &mut [u8], blk_id: u64, blk_cnt: u32) -> (status: i32)
        requires
            old(buf)@.len() == transfer_len(blk_cnt),
        ensures
            status == EOK || status == EIO,
            blk_cnt == 0 ==> status == EOK && *final(self) == *old(self) && final(buf)@ == old(
                buf,
            )@,
            blk_cnt != 0 ==> Self::read_answered(
                *old(self),
                *final(self),
                old(buf)@,
                final(buf)@,
                blk_id,
                status,
            ),
            final(self).ph_bcnt == old(self).ph_bcnt,
            final(self).part_offset == old(self).part_offset,
            final(self).part_size == old(self).part_size,
    {
        if blk_cnt == 0 {
            return EOK;
        }
        let ghost before = *self;
        let ghost held = buf@;
        let r = self.dev.read_blocks(blk_id, buf);
        assert(Dev::read(&before.dev, blk_id, held, &self.dev, buf@, r));
        device_status(&r)
    }

    /// The engine's write callback: writes the `blk_cnt` blocks in `buf` to
    /// the device from block `blk_id` on. A count of zero succeeds without a
    /// call to the device. Any other count is one write of the whole buffer
    /// to the device from `blk_id` on; an error of the device is an
    /// input/output failure. What is known of the device's size stays.
    pub fn dev_bwrite(&mut self, buf: &[u8], blk_id: u64, blk_cnt: u32) -> (status: i32)
        requires
            buf@.len() == transfer_len(blk_cnt),
        ensures
            status == EOK || status == EIO,
            blk_cnt == 0 ==> status == EOK && *final(self) == *old(self),
            blk_cnt != 0 ==> Self::write_answered(*old(self), *final(self), buf@, blk_id, status),
            final(self).ph_bcnt == old(self).ph_bcnt,
            final(self).part_offset == old(self).part_offset,
            final(self).part_size == old(self).part_size,
    {
        if blk_cnt == 0 {
            return EOK;
        }
        let ghost before = *self;
        let r = self.dev.write_blocks(blk_id, buf);
        assert(Dev::wrote(&before.dev, blk_id, buf@, &self.dev, r));
        device_status(&r)
    }

    /// The engine's close callback: nothing to do.
    pub fn dev_close(&mut self) -> (status: i32)
        ensures
            status == EOK,
            *final(self) == *old(self),
    {
        EOK
    }
}

} // verus!
