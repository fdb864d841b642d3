//! Reads, writes, resizing and symlink targets of a checked-out inode.

use vstd::prelude::*;

use crate::error::{Ext4Error, Ext4Result, ENAMETOOLONG};
use crate::fs::SystemHal;
use crate::inode::layout::{
    addresses_fit, blocks_touched, coalesce, distinct_blocks, is_plan, lemma_div_mod_of,
    lemma_plan_reads_holes_as_zeros, lemma_split, lemma_written_plan_reads_back, plan_read,
    plan_written, Device, Layout, Segment, SegmentKind,
};
use crate::inode::{InodeRef, InodeType, RawInode, INLINE_AREA_SIZE};
use crate::util::get_block_size;

verus! {

/// The logical blocks of a file that a transfer touches: `count` blocks from
/// block `first` on.
#[derive(Clone, Copy, Debug, PartialEq, Eq, Structural)]
pub struct BlockSpan {
    pub first: u32,
    pub count: u32,
}

/// Number of bytes that a read of `buf_len` bytes at `pos` returns from a
/// file of `size` bytes.
pub open spec fn read_length(size: u64, buf_len: usize, pos: u64) -> int {
    if pos >= size {
        0
    } else if buf_len <= size - pos {
        buf_len as int
    } else {
        size - pos
    }
}

/// The blocks touched by the range `[pos, pos + len)`.
pub open spec fn span_of(block_size: int, pos: int, len: int) -> BlockSpan {
    if len <= 0 {
        BlockSpan { first: 0, count: 0 }
    } else {
        BlockSpan {
            first: (pos / block_size) as u32,
            count: blocks_touched(block_size, pos, len) as u32,
        }
    }
}

/// Computes the blocks touched by a non-empty range whose blocks have 32-bit
/// numbers.
fn span(block_size: u32, pos: u64, len: usize) -> (r: BlockSpan)
    requires
        block_size > 0,
        len > 0,
        pos + len <= u64::MAX,
        (pos + len) / (block_size as int) < u32::MAX,
    ensures
        r == span_of(block_size as int, pos as int, len as int),
        r.first == pos / (block_size as u64),
        r.count == blocks_touched(block_size as int, pos as int, len as int),
        r.first + r.count <= u32::MAX,
{
    let bs: u64 = block_size as u64;
    let first: u64 = pos / bs;
    let last: u64 = (pos + (len as u64) - 1) / bs;
    proof {
        vstd::arithmetic::div_mod::lemma_div_is_ordered(pos as int, pos + len - 1, bs as int);
        vstd::arithmetic::div_mod::lemma_div_is_ordered(pos + len - 1, pos + len, bs as int);
    }
    BlockSpan { first: first as u32, count: (last - first + 1) as u32 }
}

/// What a read is made of: the number of bytes it returns and the segments
/// that fill that many bytes of the buffer.
pub struct ReadPlan {
    pub len: usize,
    pub segments: Vec<Segment>,
}

/// What a write is made of: the number of bytes it takes from the buffer and
/// the segments that put them on the device.
pub struct WritePlan {
    pub len: usize,
    pub segments: Vec<Segment>,
}

/// The blocks that a write needs, and how each is come by.
#[derive(Clone, Copy, Debug, PartialEq, Eq)]
pub struct WriteSpan {
    /// The size to which the file is first extended, where the write starts
    /// beyond its end.
    pub extend_to: Option<u64>,
    /// The blocks that the write touches.
    pub blocks: BlockSpan,
    /// Touched blocks below this number exist and are initialised; those from
    /// it on are appended, in order, each under the number expected.
    pub first_append: u32,
}

/// How the physical block of one block of a write is come by.
#[derive(Clone, Copy, Debug, PartialEq, Eq, Structural)]
pub enum BlockRequest {
    /// The file has the block: it is initialised in place.
    Init { block: u32 },
    /// The file ends before the block: a block is appended, and must come
    /// out under the number `expect`.
    Append { expect: u32 },
}

impl WriteSpan {
    /// The request for the `k`-th block of the span.
    pub open spec fn spec_request(self, k: u32) -> BlockRequest {
        if self.blocks.first + k < self.first_append {
            BlockRequest::Init { block: (self.blocks.first + k) as u32 }
        } else {
            BlockRequest::Append { expect: (self.blocks.first + k) as u32 }
        }
    }

    pub fn request(&self, k: u32) -> (r: BlockRequest)
        requires
            k < self.blocks.count,
            self.blocks.first + self.blocks.count <= u32::MAX,
        ensures
            r == self.spec_request(k),
    {
        let block: u32 = self.blocks.first + k;
        if block < self.first_append {
            BlockRequest::Init { block }
        } else {
            BlockRequest::Append { expect: block }
        }
    }
}

/// How the length of a file changes.
#[derive(Clone, Copy, Debug, PartialEq, Eq, Structural)]
pub enum Resize {
    /// The file has that length already.
    Unchanged,
    /// The engine has to cut the file down, inside a write-back window.
    Truncate,
    /// The file grows by a hole; only its size changes.
    Extend,
}

/// Where the target of a symlink is kept.
#[derive(Clone, Copy, Debug, PartialEq, Eq, Structural)]
pub enum SymlinkStore {
    /// In the inode body.
    Inline,
    /// In one freshly appended block.
    Block,
}

/// Flag of an inode that maps its blocks by extents.
pub const INODE_FLAG_EXTENTS: u32 = 0x8_0000;

/// Number of blocks of `block_size` bytes that hold `size` bytes.
pub open spec fn blocks_for(size: int, block_size: int) -> int {
    (size + block_size - 1) / block_size
}

impl<Hal: SystemHal> InodeRef<Hal> {
    /// Whether this is a symlink short enough to have its target in the
    /// inode body.
    pub open spec fn spec_inline_symlink(&self) -> bool {
        self.spec_inode_type() == InodeType::Symlink && self.inode.size < INLINE_AREA_SIZE
    }

    pub fn is_inline_symlink(&self) -> (b: bool)
        ensures
            b == self.spec_inline_symlink(),
    {
        self.inode_type() == InodeType::Symlink && self.inode.size < INLINE_AREA_SIZE as u64
    }

    /// Every block of the first `end` bytes of the file has a 32-bit number.
    pub open spec fn addressable(&self, end: int) -> bool {
        end / self.sb.block_size() < u32::MAX
    }

    /// Tests whether every block of the first `end` bytes has a 32-bit
    /// number.
    pub fn can_address(&self, end: u64) -> (b: bool)
        requires
            self.sb.wf(),
        ensures
            b == self.addressable(end as int),
    {
        let bs = get_block_size(&self.sb);
        end / (bs as u64) < u32::MAX as u64
    }

    /// Number of bytes that a read into a buffer of `buf_len` bytes at `pos`
    /// returns: the buffer's length, cut down to what the file holds from
    /// `pos` on.
    pub fn read_len(&self, buf_len: usize, pos: u64) -> (n: usize)
        ensures
            n == read_length(self.inode.size, buf_len, pos),
    {
        let size: u64 = self.inode.size;
        if pos >= size {
            0
        } else if (buf_len as u64) <= size - pos {
            buf_len
        } else {
            (size - pos) as usize
        }
    }

    /// The blocks whose physical blocks a read needs: none for an empty read
    /// or one served from the inode body, else those that the clamped range
    /// touches.
    pub open spec fn spec_read_span(&self, buf_len: usize, pos: u64) -> BlockSpan {
        if self.spec_inline_symlink() {
            BlockSpan { first: 0, count: 0 }
        } else {
            span_of(
                self.sb.block_size(),
                pos as int,
                read_length(self.inode.size, buf_len, pos),
            )
        }
    }

    pub fn read_span(&self, buf_len: usize, pos: u64) -> (r: BlockSpan)
        requires
            self.wf(),
            self.addressable(self.inode.size as int),
        ensures
            r == self.spec_read_span(buf_len, pos),
    {
        let n = self.read_len(buf_len, pos);
        if n == 0 || self.is_inline_symlink() {
            return BlockSpan { first: 0, count: 0 };
        }
        let bs = get_block_size(&self.sb);
        proof {
            vstd::arithmetic::div_mod::lemma_div_is_ordered(
                pos + n,
                self.inode.size as int,
                bs as int,
            );
        }
        span(bs, pos, n)
    }

    /// The layout of a read.
    pub open spec fn read_layout(&self, buf_len: usize, pos: u64, fblocks: Seq<u64>) -> Layout {
        Layout {
            block_size: self.sb.block_size(),
            pos: pos as int,
            len: read_length(self.inode.size, buf_len, pos),
            fblocks,
            holes: true,
        }
    }

    /// Whether `plan` is the plan of a read of up to `buf_len` bytes at
    /// `pos`: it returns the clamped length; a short symlink is served from
    /// the inode body in one segment, any other file by segments that tile
    /// the buffer, each from where the layout has the bytes.
    pub open spec fn is_read_plan(
        &self,
        buf_len: usize,
        pos: u64,
        fblocks: Seq<u64>,
        plan: ReadPlan,
    ) -> bool {
        &&& plan.len == read_length(self.inode.size, buf_len, pos)
        &&& plan.len == 0 ==> plan.segments@.len() == 0
        &&& plan.len > 0 && self.spec_inline_symlink() ==> plan.segments@ == seq![
            Segment { kind: SegmentKind::Inline { offset: pos }, start: 0, len: plan.len },
        ]
        &&& plan.len > 0 && !self.spec_inline_symlink() ==> is_plan(
            self.read_layout(buf_len, pos, fblocks),
            plan.segments@,
        )
    }

    /// Plans a read of up to `buf_len` bytes at `pos`. `fblocks` holds the
    /// physical block of each block of `read_span`, zero for an unmapped
    /// one. The read returns the clamped length. A short symlink is served
    /// from the inode body in one segment; any other file by the segments
    /// of `coalesce`, with holes read as zeros.
    pub fn read_at(&self, buf_len: usize, pos: u64, fblocks: &Vec<u64>) -> (plan: ReadPlan)
        requires
            self.wf(),
            self.addressable(self.inode.size as int),
            fblocks@.len() == self.spec_read_span(buf_len, pos).count,
            addresses_fit(self.sb.block_size(), fblocks@),
        ensures
            self.is_read_plan(buf_len, pos, fblocks@, plan),
    {
        let n = self.read_len(buf_len, pos);
        if n == 0 {
            return ReadPlan { len: 0, segments: Vec::new() };
        }
        if self.is_inline_symlink() {
            let mut segments: Vec<Segment> = Vec::new();
            segments.push(Segment { kind: SegmentKind::Inline { offset: pos }, start: 0, len: n });
            assert(segments@ =~= seq![
                Segment { kind: SegmentKind::Inline { offset: pos }, start: 0, len: n },
            ]);
            return ReadPlan { len: n, segments };
        }
        let bs = get_block_size(&self.sb);
        proof {
            reveal(Layout::wf);
            vstd::arithmetic::div_mod::lemma_div_is_ordered(
                pos + n,
                self.inode.size as int,
                bs as int,
            );
            vstd::arithmetic::div_mod::lemma_div_is_ordered(pos as int, pos + n - 1, bs as int);
            vstd::arithmetic::div_mod::lemma_div_is_ordered(pos + n - 1, pos + n, bs as int);
        }
        let segments = coalesce(bs, pos, n, fblocks, true);
        ReadPlan { len: n, segments }
    }

    /// The bytes of the inode body from `pos` on, `len` of them: what an
    /// inline segment of a read puts in the buffer.
    pub fn inline_bytes(&self, pos: u64, len: usize) -> (out: Vec<u8>)
        requires
            self.wf(),
            pos + len <= INLINE_AREA_SIZE,
        ensures
            out@ == self.inode.blocks@.subrange(pos as int, pos + len),
    {
        let mut out: Vec<u8> = Vec::new();
        let start: usize = pos as usize;
        let mut i: usize = 0;
        while i < len
            invariant
                i <= len,
                start == pos,
                pos + len <= INLINE_AREA_SIZE,
                self.inode.blocks@.len() == INLINE_AREA_SIZE,
                out@ == self.inode.blocks@.subrange(pos as int, pos + i),
            decreases len - i,
        {
            out.push(self.inode.blocks[start + i]);
            i = i + 1;
            assert(out@ =~= self.inode.blocks@.subrange(pos as int, pos + i));
        }
        out
    }

    /// The size of the file after a write of `buf_len` bytes at `pos`.
    pub open spec fn size_after_write(&self, buf_len: usize, pos: u64) -> int {
        if pos + buf_len > self.inode.size {
            pos + buf_len
        } else {
            self.inode.size as int
        }
    }

    /// The size that decides which blocks a write appends: the file's size,
    /// or the start of the write where that lies beyond it.
    pub open spec fn size_before_blocks(&self, pos: u64) -> int {
        if pos > self.inode.size {
            pos as int
        } else {
            self.inode.size as int
        }
    }

    /// What `write_span` returns.
    pub open spec fn spec_write_span(&self, buf_len: usize, pos: u64) -> WriteSpan {
        WriteSpan {
            extend_to: if pos > self.inode.size {
                Some(pos)
            } else {
                None
            },
            blocks: span_of(self.sb.block_size(), pos as int, buf_len as int),
            first_append: blocks_for(self.size_before_blocks(pos), self.sb.block_size()) as u32,
        }
    }

    /// The blocks that a write of `buf_len` bytes at `pos` needs. A write
    /// that starts beyond the end of the file first extends it to `pos` by a
    /// hole. The touched blocks that the extended file has already are
    /// initialised in place; the others are appended.
    pub fn write_span(&self, buf_len: usize, pos: u64) -> (r: WriteSpan)
        requires
            self.wf(),
            pos + buf_len <= u64::MAX,
            self.addressable(pos + buf_len),
            self.addressable(self.inode.size as int),
        ensures
            r == self.spec_write_span(buf_len, pos),
            r.blocks.first + r.blocks.count <= u32::MAX,
    {
        let bs = get_block_size(&self.sb);
        let size: u64 = self.inode.size;
        let (extend_to, base) = if pos > size {
            (Some(pos), pos)
        } else {
            (None, size)
        };
        proof {
            vstd::arithmetic::div_mod::lemma_div_is_ordered(
                pos as int,
                pos + buf_len,
                bs as int,
            );
            lemma_split(base as int, bs as int);
            let q = base as int / bs as int;
            if base % (bs as u64) == 0 {
                lemma_div_mod_of(base + bs - 1, bs as int, q, bs - 1);
            } else {
                assert((q + 1) * bs == q * bs + bs) by (nonlinear_arith);
                lemma_div_mod_of(base + bs - 1, bs as int, q + 1, base % (bs as u64) - 1);
            }
        }
        let whole: u64 = base / (bs as u64);
        let first_append: u32 = if base % (bs as u64) == 0 {
            whole as u32
        } else {
            (whole + 1) as u32
        };
        let blocks = if buf_len == 0 {
            BlockSpan { first: 0, count: 0 }
        } else {
            span(bs, pos, buf_len)
        };
        WriteSpan { extend_to, blocks, first_append }
    }

    /// The layout of a write.
    pub open spec fn write_layout(&self, buf_len: usize, pos: u64, fblocks: Seq<u64>) -> Layout {
        Layout {
            block_size: self.sb.block_size(),
            pos: pos as int,
            len: buf_len as int,
            fblocks,
            holes: false,
        }
    }

    /// Whether `plan` and the inode `after` are what a write of `buf_len`
    /// bytes at `pos` makes of the inode `before`: the whole buffer is
    /// written along the layout, the file ends where the write ended unless
    /// it was longer, and the inode is dirty where its size changed.
    pub open spec fn is_write(
        before: Self,
        after: Self,
        buf_len: usize,
        pos: u64,
        fblocks: Seq<u64>,
        plan: WritePlan,
    ) -> bool {
        &&& plan.len == buf_len
        &&& is_plan(before.write_layout(buf_len, pos, fblocks), plan.segments@)
        &&& after.inode == (RawInode {
            size: before.size_after_write(buf_len, pos) as u64,
            ..before.inode
        })
        &&& after.dirty == (before.dirty || before.size_after_write(buf_len, pos)
            != before.inode.size)
        &&& after.index == before.index
        &&& after.sb == before.sb
    }

    /// Plans a write of `buf_len` bytes at `pos` and records the new size.
    /// `fblocks` holds the physical block of each block of `write_span`. The
    /// write takes the whole buffer. Afterwards the file ends where the write
    /// ended, unless it was longer before; the inode is marked dirty where
    /// its size changed.
    pub fn write_at(&mut self, buf_len: usize, pos: u64, fblocks: &Vec<u64>) -> (plan: WritePlan)
        requires
            old(self).wf(),
            pos + buf_len <= u64::MAX,
            old(self).addressable(pos + buf_len),
            fblocks@.len() == old(self).spec_write_span(buf_len, pos).blocks.count,
            addresses_fit(old(self).sb.block_size(), fblocks@),
        ensures
            Self::is_write(*old(self), *final(self), buf_len, pos, fblocks@, plan),
    {
        let bs = get_block_size(&self.sb);
        proof {
            reveal(Layout::wf);
            if buf_len > 0 {
                vstd::arithmetic::div_mod::lemma_div_is_ordered(
                    pos as int,
                    pos + buf_len - 1,
                    bs as int,
                );
                vstd::arithmetic::div_mod::lemma_div_is_ordered(
                    pos + buf_len - 1,
                    pos + buf_len,
                    bs as int,
                );
            }
        }
        let segments = coalesce(bs, pos, buf_len, fblocks, false);
        let end: u64 = pos + buf_len as u64;
        if end > self.inode.size {
            self.inode.size = end;
            self.dirty = true;
        }
        WritePlan { len: buf_len, segments }
    }

    /// Whether `r` and the inode `after` are what setting the length `len`
    /// makes of the inode `before`.
    pub open spec fn is_resize(before: Self, after: Self, len: u64, r: Resize) -> bool {
        &&& r == if len < before.inode.size {
            Resize::Truncate
        } else if len > before.inode.size {
            Resize::Extend
        } else {
            Resize::Unchanged
        }
        &&& after.inode == (RawInode { size: len, ..before.inode })
        &&& after.dirty == (before.dirty || len > before.inode.size)
        &&& after.index == before.index
        &&& after.sb == before.sb
    }

    /// Sets the length of the file. Shrinking is the engine's work, to be
    /// done inside a write-back window; growing adds a hole, which changes
    /// the size alone and marks the inode dirty.
    pub fn set_len(&mut self, len: u64) -> (r: Resize)
        ensures
            Self::is_resize(*old(self), *final(self), len, r),
    {
        let cur: u64 = self.inode.size;
        if len < cur {
            self.inode.size = len;
            Resize::Truncate
        } else if len > cur {
            self.inode.size = len;
            self.dirty = true;
            Resize::Extend
        } else {
            Resize::Unchanged
        }
    }

    /// The inode body with `target` stored at its start.
    pub open spec fn body_with(body: Seq<u8>, target: Seq<u8>) -> Seq<u8> {
        target + body.subrange(target.len() as int, body.len() as int)
    }

    /// Whether `r` and the inode `after` are what storing the symlink
    /// target `target` makes of the inode `before`.
    pub open spec fn is_symlink_set(
        before: Self,
        after: Self,
        target: Seq<u8>,
        r: Ext4Result<SymlinkStore>,
    ) -> bool {
        &&& after.wf()
        &&& after.index == before.index
        &&& after.sb == before.sb
        &&& if target.len() > before.sb.block_size() {
            &&& r == Err::<SymlinkStore, Ext4Error>(
                Ext4Error { code: ENAMETOOLONG, context: Some("symlink too long") },
            )
            &&& after == before
        } else if target.len() < INLINE_AREA_SIZE {
            &&& r == Ok::<SymlinkStore, Ext4Error>(SymlinkStore::Inline)
            &&& after.inode == (RawInode {
                size: target.len() as u64,
                flags: before.inode.flags & !INODE_FLAG_EXTENTS,
                blocks: after.inode.blocks,
                ..before.inode
            })
            &&& after.inode.blocks@ == Self::body_with(before.inode.blocks@, target)
            &&& after.dirty
        } else {
            &&& r == Ok::<SymlinkStore, Ext4Error>(SymlinkStore::Block)
            &&& after.inode == (RawInode { size: target.len() as u64, ..before.inode })
            &&& after.dirty
        }
    }

    /// Makes `target` the content of this symlink. A target longer than a
    /// block is refused as too long. One shorter than the inode body goes
    /// into the body, and the inode no longer maps blocks by extents; a
    /// longer one goes into a block that the caller appends. Either way the
    /// size becomes the target's length and the inode is dirty.
    pub fn set_symlink(&mut self, target: &[u8]) -> (r: Ext4Result<SymlinkStore>)
        requires
            old(self).wf(),
        ensures
            Self::is_symlink_set(*old(self), *final(self), target@, r),
    {
        let bs = get_block_size(&self.sb);
        let n: usize = target.len();
        if n > bs as usize {
            return Err(Ext4Error::new(ENAMETOOLONG, Some("symlink too long")));
        }
        let store = if n < INLINE_AREA_SIZE {
            let mut i: usize = 0;
            while i < n
                invariant
                    i <= n,
                    n == target@.len(),
                    n < INLINE_AREA_SIZE,
                    self.inode.blocks@.len() == INLINE_AREA_SIZE,
                    old(self).inode.blocks@.len() == INLINE_AREA_SIZE,
                    self.index == old(self).index,
                    self.sb == old(self).sb,
                    self.dirty == old(self).dirty,
                    self.inode == (RawInode { blocks: self.inode.blocks, ..old(self).inode }),
                    self.inode.blocks@ == target@.subrange(0, i as int) + old(
                        self,
                    ).inode.blocks@.subrange(i as int, INLINE_AREA_SIZE as int),
                decreases n - i,
            {
                let b: u8 = target[i];
                self.inode.blocks.set(i, b);
                i = i + 1;
                assert(self.inode.blocks@ =~= target@.subrange(0, i as int) + old(
                    self,
                ).inode.blocks@.subrange(i as int, INLINE_AREA_SIZE as int));
            }
            assert(target@.subrange(0, n as int) =~= target@);
            self.inode.flags = self.inode.flags & !INODE_FLAG_EXTENTS;
            SymlinkStore::Inline
        } else {
            SymlinkStore::Block
        };
        self.inode.size = n as u64;
        self.dirty = true;
        Ok(store)
    }

    /// The segment that writes a symlink target of `len` bytes into the
    /// block `fblock` that was appended for it.
    pub fn symlink_block(&self, len: usize, fblock: u64) -> (s: Segment)
        requires
            self.wf(),
            len <= self.sb.block_size(),
            fblock * self.sb.block_size() <= u64::MAX,
        ensures
            s == (Segment {
                kind: SegmentKind::Bytes { addr: (fblock * self.sb.block_size()) as u64 },
                start: 0,
                len,
            }),
    {
        let bs = get_block_size(&self.sb);
        Segment { kind: SegmentKind::Bytes { addr: fblock * (bs as u64) }, start: 0, len }
    }
}

/// Bytes written to a file and then read back from the same range, before
/// anything else changes, are the bytes written: carrying out the plan of
/// the write and then the plan of the read, both along the same block
/// mapping in which every block is mapped and none serves two blocks, fills
/// the buffer with the data.
pub proof fn lemma_write_then_read_back<Hal: SystemHal>(
    before: InodeRef<Hal>,
    after: InodeRef<Hal>,
    buf_len: usize,
    pos: u64,
    fblocks: Seq<u64>,
    written: WritePlan,
    read: ReadPlan,
    data: Seq<u8>,
    dev: Device,
)
    requires
        buf_len > 0,
        pos + buf_len <= u64::MAX,
        data.len() == buf_len,
        before.write_layout(buf_len, pos, fblocks).wf(),
        distinct_blocks(fblocks),
        forall|k: int| 0 <= k < fblocks.len() ==> fblocks[k] != 0,
        InodeRef::is_write(before, after, buf_len, pos, fblocks, written),
        !after.spec_inline_symlink(),
        after.is_read_plan(buf_len, pos, fblocks, read),
    ensures
        read.len == buf_len,
        plan_read(
            plan_written(dev, before.sb.block_size(), written.segments@, data),
            before.sb.block_size(),
            read.segments@,
            buf_len as int,
        ) == data,
{
    let w = before.write_layout(buf_len, pos, fblocks);
    assert(after.read_layout(buf_len, pos, fblocks) == Layout { holes: true, ..w });
    lemma_written_plan_reads_back(dev, w, written.segments@, read.segments@, data);
}

/// After a write that started beyond the end of the file, the file reaches
/// to the end of the write, so a read of the gap between the old end and
/// the start of the write is not cut short; and carrying out the plan of
/// that read leaves zeros at each byte of the gap that lies in a block still
/// unmapped.
pub proof fn lemma_gap_reads_zero<Hal: SystemHal>(
    before: InodeRef<Hal>,
    buf_len: usize,
    pos: u64,
    after: InodeRef<Hal>,
    gap_len: usize,
    fblocks: Seq<u64>,
    plan: ReadPlan,
    dev: Device,
    i: int,
)
    requires
        pos > before.inode.size,
        pos + buf_len <= u64::MAX,
        after.inode.size == before.size_after_write(buf_len, pos),
        after.sb == before.sb,
        !after.spec_inline_symlink(),
        gap_len == pos - before.inode.size,
        after.read_layout(gap_len, before.inode.size, fblocks).wf(),
        after.is_read_plan(gap_len, before.inode.size, fblocks, plan),
        0 <= i < gap_len,
        after.read_layout(gap_len, before.inode.size, fblocks).fblock_at(i) == 0,
    ensures
        before.spec_write_span(buf_len, pos).extend_to == Some(pos),
        after.inode.size == pos + buf_len,
        plan.len == gap_len,
        plan_read(dev, after.sb.block_size(), plan.segments@, gap_len as int)[i] == 0,
{
    lemma_plan_reads_holes_as_zeros(
        dev,
        after.read_layout(gap_len, before.inode.size, fblocks),
        plan.segments@,
        i,
    );
}

/// A short symlink target is kept and read back without any block: storing
/// it asks for no block, a read of it afterwards looks up no block, is one
/// segment served from the inode body, and the bytes there are the target.
pub proof fn lemma_inline_symlink_reads_back<Hal: SystemHal>(
    before: InodeRef<Hal>,
    after: InodeRef<Hal>,
    target: Seq<u8>,
    stored: Ext4Result<SymlinkStore>,
    buf_len: usize,
    plan: ReadPlan,
)
    requires
        before.wf(),
        0 < target.len() < INLINE_AREA_SIZE,
        InodeRef::is_symlink_set(before, after, target, stored),
        after.spec_inode_type() == InodeType::Symlink,
        buf_len >= target.len(),
        after.is_read_plan(buf_len, 0, Seq::empty(), plan),
    ensures
        stored == Ok::<SymlinkStore, Ext4Error>(SymlinkStore::Inline),
        after.spec_read_span(buf_len, 0).count == 0,
        plan.len == target.len(),
        plan.segments@ == seq![
            Segment { kind: SegmentKind::Inline { offset: 0 }, start: 0, len: plan.len },
        ],
        after.inode.blocks@.subrange(0, plan.len as int) == target,
{
    crate::util::lemma_block_size_bounds(before.sb);
    assert(after.inode.blocks@.subrange(0, target.len() as int) =~= target);
}

} // verus!
