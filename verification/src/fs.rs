//! The mounted filesystem: clock capability, statistics, the operations on
//! checked-out inodes and the composite directory operations.

use core::marker::PhantomData;
use core::time::Duration;
use vstd::prelude::*;

use crate::error::{Ext4Error, Ext4Result, EFBIG, EIO, EISDIR, ENOENT, ENOTEMPTY, ENOTSUP};
use crate::inode::attr::FileAttr;
use crate::inode::dir::{
    check_records, has_other_entry, records_ok, DirLookupResult, DirReader, RawDirEntry,
};
use crate::inode::file::{BlockSpan, ReadPlan, Resize, SymlinkStore, WritePlan, WriteSpan};
use crate::inode::layout::{addresses_fit, check_addresses};
use crate::inode::{InodeRef, InodeType, INLINE_AREA_SIZE};
use crate::util::{get_block_size, Superblock, MAX_LOG_BLOCK_SIZE};

verus! {

/// What the embedding system provides besides the block device.
pub trait SystemHal {
    /// Time since the epoch, if the system has a clock.
    fn now() -> Option<Duration>;
}

/// A system without a clock.
pub struct DummyHal;

impl SystemHal for DummyHal {
    fn now() -> (r: Option<Duration>)
        ensures
            r is None,
    {
        None
    }
}

/// Filesystem-wide totals.
#[derive(Debug, Clone, Copy, PartialEq, Eq, Structural)]
pub struct StatFs {
    pub inodes_count: u32,
    pub free_inodes_count: u32,
    pub blocks_count: u64,
    pub free_blocks_count: u64,
    pub block_size: u32,
}

/// Mask of the permission bits of a mode.
pub const PERMISSION_BITS: u32 = 0x1ff;

/// One step of a directory operation, for the engine to carry out.
#[derive(Debug, Clone, Copy, PartialEq, Eq)]
pub enum FsOp<'a> {
    /// Add the entry `name` for inode `ino` to directory `dir`, and count
    /// one more link to `ino`.
    AddEntry { dir: u32, name: &'a str, ino: u32 },
    /// Remove the entry `name` from directory `dir`.
    RemoveEntry { dir: u32, name: &'a str },
    /// Make the existing entry `name` of directory `dir` name inode `ino`.
    PointEntry { dir: u32, name: &'a str, ino: u32 },
    /// Count one more link to `ino`, as the engine sees fit.
    IncLinks { ino: u32 },
    /// Count one link less to `ino`, as the engine sees fit.
    DecLinks { ino: u32 },
    /// Set the link count of `ino`.
    SetLinks { ino: u32, count: u16 },
    /// Set the mode of `ino`.
    SetMode { ino: u32, mode: u32 },
    /// Cut the content of `ino` down to `size` bytes, inside a write-back
    /// window.
    Truncate { ino: u32, size: u64 },
    /// Give the inode `ino` back to the filesystem.
    FreeInode { ino: u32 },
}

/// A mounted filesystem, as far as this layer reads it: its superblock,
/// whose block size is known to be computable.
pub struct Ext4Filesystem<Hal: SystemHal> {
    sb: Superblock,
    _phantom: PhantomData<Hal>,
}

/// The error for a superblock whose block size cannot be computed.
pub open spec fn block_size_error() -> Ext4Error {
    Ext4Error { code: ENOTSUP, context: Some("block size") }
}

/// The error for a snapshot whose block-pointer area has not its size.
pub open spec fn inode_body_error() -> Ext4Error {
    Ext4Error { code: EIO, context: Some("inode body") }
}

/// The error for a file with blocks beyond 32-bit block numbers.
pub open spec fn too_large_error() -> Ext4Error {
    Ext4Error { code: EFBIG, context: Some("file too large") }
}

/// The error for a block mapping of the wrong length.
pub open spec fn mapping_error() -> Ext4Error {
    Ext4Error { code: EIO, context: Some("block mapping") }
}

/// The error for a physical block whose bytes lie beyond 64-bit addresses.
pub open spec fn address_error() -> Ext4Error {
    Ext4Error { code: EIO, context: Some("block address out of range") }
}

/// The error for directory records that cannot be listed.
pub open spec fn records_error() -> Ext4Error {
    Ext4Error { code: EIO, context: Some("directory entry") }
}

/// Why a snapshot cannot be worked on, if it cannot.
pub open spec fn inode_fault<Hal: SystemHal>(inode: InodeRef<Hal>) -> Option<Ext4Error> {
    if !inode.sb.wf() {
        Some(block_size_error())
    } else if inode.inode.blocks@.len() != INLINE_AREA_SIZE {
        Some(inode_body_error())
    } else {
        None
    }
}

/// Why the first `end` bytes of a file cannot be transferred, if they
/// cannot.
pub open spec fn range_fault<Hal: SystemHal>(inode: InodeRef<Hal>, end: int) -> Option<Ext4Error> {
    if inode_fault(inode) is Some {
        inode_fault(inode)
    } else if end > u64::MAX || !inode.addressable(end) || !inode.addressable(
        inode.inode.size as int,
    ) {
        Some(too_large_error())
    } else {
        None
    }
}

/// Why a transfer cannot go along a block mapping, if it cannot.
pub open spec fn mapping_fault<Hal: SystemHal>(
    inode: InodeRef<Hal>,
    count: u32,
    fblocks: Seq<u64>,
) -> Option<Ext4Error> {
    if fblocks.len() != count {
        Some(mapping_error())
    } else if !addresses_fit(inode.sb.block_size(), fblocks) {
        Some(address_error())
    } else {
        None
    }
}

/// Tests whether a snapshot can be worked on.
pub fn check_inode<Hal: SystemHal>(inode: &InodeRef<Hal>) -> (r: Ext4Result<()>)
    ensures
        r == match inode_fault(*inode) {
            Some(e) => Err::<(), Ext4Error>(e),
            None => Ok::<(), Ext4Error>(()),
        },
{
    if !inode.sb.valid() {
        Err(Ext4Error::new(ENOTSUP, Some("block size")))
    } else if !inode.usable() {
        Err(Ext4Error::new(EIO, Some("inode body")))
    } else {
        Ok(())
    }
}

/// Tests whether the bytes from `pos` on, `len` of them, can be
/// transferred.
pub fn check_range<Hal: SystemHal>(inode: &InodeRef<Hal>, pos: u64, len: usize) -> (r: Ext4Result<()>)
    ensures
        r == match range_fault(*inode, pos + len) {
            Some(e) => Err::<(), Ext4Error>(e),
            None => Ok::<(), Ext4Error>(()),
        },
{
    match check_inode(inode) {
        Ok(()) => {},
        Err(e) => {
            return Err(e);
        },
    }
    if len as u64 > u64::MAX - pos {
        return Err(Ext4Error::new(EFBIG, Some("file too large")));
    }
    if !inode.can_address(pos + len as u64) || !inode.can_address(inode.size()) {
        return Err(Ext4Error::new(EFBIG, Some("file too large")));
    }
    Ok(())
}

/// Tests whether a transfer can go along a block mapping.
pub fn check_mapping<Hal: SystemHal>(inode: &InodeRef<Hal>, count: u32, fblocks: &Vec<u64>) -> (r:
    Ext4Result<()>)
    requires
        inode.sb.wf(),
    ensures
        r == match mapping_fault(*inode, count, fblocks@) {
            Some(e) => Err::<(), Ext4Error>(e),
            None => Ok::<(), Ext4Error>(()),
        },
{
    if fblocks.len() != count as usize {
        return Err(Ext4Error::new(EIO, Some("block mapping")));
    }
    if !check_addresses(get_block_size(&inode.sb), fblocks) {
        return Err(Ext4Error::new(EIO, Some("block address out of range")));
    }
    Ok(())
}

/// The mode of a fresh inode with the permission bits asked for.
pub open spec fn mode_with_permissions(current: u32, mode: u32) -> u32 {
    (current & !PERMISSION_BITS) | (mode & PERMISSION_BITS)
}

/// The steps of `create`.
pub open spec fn create_ops<'a>(
    parent: u32,
    name: &'a str,
    child: u32,
    child_mode: u32,
    ty: InodeType,
    mode: u32,
) -> Seq<FsOp<'a>> {
    let first = seq![FsOp::AddEntry { dir: parent, name, ino: child }];
    let own = if ty == InodeType::Directory {
        seq![
            FsOp::AddEntry { dir: child, name: ".", ino: child },
            FsOp::AddEntry { dir: child, name: "..", ino: parent },
            FsOp::SetLinks { ino: child, count: 2 },
        ]
    } else {
        seq![]
    };
    first + own + seq![
        FsOp::SetMode { ino: child, mode: mode_with_permissions(child_mode, mode) },
    ]
}

/// The steps of `unlink` for an entry that may be removed.
pub open spec fn unlink_ops<'a>(
    dir: u32,
    name: &'a str,
    child: u32,
    child_is_dir: bool,
    child_links: u16,
    block_size: u32,
) -> Seq<FsOp<'a>> {
    let cut = if child_is_dir {
        seq![
            FsOp::Truncate { ino: child, size: block_size as u64 },
            FsOp::Truncate { ino: child, size: 0 },
        ]
    } else {
        seq![FsOp::Truncate { ino: child, size: 0 }]
    };
    let parent = if child_is_dir {
        seq![FsOp::DecLinks { ino: dir }]
    } else {
        seq![]
    };
    let own = if child_links > 0 {
        seq![FsOp::DecLinks { ino: child }]
    } else {
        seq![]
    };
    cut + seq![FsOp::RemoveEntry { dir, name }] + parent + own + seq![
        FsOp::SetLinks { ino: child, count: 0 },
        FsOp::FreeInode { ino: child },
    ]
}

/// The steps of `rename` once the target name is free.
pub open spec fn rename_ops<'a>(
    src_dir: u32,
    src_name: &'a str,
    dst_dir: u32,
    dst_name: &'a str,
    src: u32,
    src_is_dir: bool,
) -> Seq<FsOp<'a>> {
    let reparent = if src_is_dir {
        seq![
            FsOp::PointEntry { dir: src, name: "..", ino: dst_dir },
            FsOp::DecLinks { ino: src_dir },
            FsOp::IncLinks { ino: dst_dir },
        ]
    } else {
        seq![]
    };
    reparent + seq![
        FsOp::RemoveEntry { dir: src_dir, name: src_name },
        FsOp::AddEntry { dir: dst_dir, name: dst_name, ino: src },
    ]
}

impl<Hal: SystemHal> Ext4Filesystem<Hal> {
    #[verifier::type_invariant]
    spec fn block_size_known(self) -> bool {
        self.sb.wf()
    }

    /// The superblock that this filesystem was mounted with.
    pub closed spec fn sb(&self) -> Superblock {
        self.sb
    }

    /// The superblock, whose block size can be computed.
    pub fn superblock(&self) -> (sb: &Superblock)
        ensures
            *sb == self.sb(),
            sb.wf(),
    {
        proof {
            use_type_invariant(self);
        }
        &self.sb
    }

    /// Takes a fresh reading of the superblock, as long as it gives the
    /// block size that the filesystem was mounted with.
    pub fn refresh(&mut self, sb: Superblock) -> (r: Ext4Result<()>)
        ensures
            sb.block_size() == old(self).sb().block_size() ==> r is Ok && final(self).sb() == sb,
            sb.block_size() != old(self).sb().block_size() ==> r == Err::<(), Ext4Error>(
                Ext4Error { code: ENOTSUP, context: Some("block size mismatch") },
            ) && final(self).sb() == old(self).sb(),
    {
        proof {
            use_type_invariant(&*self);
        }
        let bs = get_block_size(&self.sb);
        match Self::new(sb, bs) {
            Ok(fresh) => {
                *self = fresh;
                Ok(())
            },
            Err(e) => Err(e),
        }
    }

    /// Takes the superblock of a filesystem that the engine has mounted,
    /// and the item size that the block cache was set up with. The two
    /// sizes must agree; a cache of another item size is not supported.
    pub fn new(sb: Superblock, cache_item_size: u32) -> (r: Ext4Result<Self>)
        ensures
            sb.block_size() == cache_item_size ==> r is Ok && r->Ok_0.sb() == sb && sb.wf(),
            sb.block_size() != cache_item_size ==> r == Err::<Self, Ext4Error>(
                Ext4Error { code: ENOTSUP, context: Some("block size mismatch") },
            ),
    {
        if sb.log_block_size > MAX_LOG_BLOCK_SIZE {
            proof {
                crate::util::lemma_block_size_overflows(sb);
            }
            return Err(Ext4Error::new(ENOTSUP, Some("block size mismatch")));
        }
        let bs = get_block_size(&sb);
        if bs != cache_item_size {
            return Err(Ext4Error::new(ENOTSUP, Some("block size mismatch")));
        }
        Ok(Ext4Filesystem { sb, _phantom: PhantomData })
    }

    /// Totals of the filesystem, from the superblock.
    pub fn stat(&self) -> (r: Ext4Result<StatFs>)
        ensures
            r == Ok::<StatFs, Ext4Error>(
                StatFs {
                    inodes_count: self.sb().inodes_count,
                    free_inodes_count: self.sb().free_inodes_count,
                    blocks_count: (self.sb().blocks_count_hi * 0x1_0000_0000
                        + self.sb().blocks_count_lo) as u64,
                    free_blocks_count: (self.sb().free_blocks_count_hi * 0x1_0000_0000
                        + self.sb().free_blocks_count_lo) as u64,
                    block_size: self.sb().block_size() as u32,
                },
            ),
    {
        proof {
            use_type_invariant(self);
        }
        let sb = &self.sb;
        let bhi: u64 = sb.blocks_count_hi as u64;
        let blo: u64 = sb.blocks_count_lo as u64;
        let fhi: u64 = sb.free_blocks_count_hi as u64;
        let flo: u64 = sb.free_blocks_count_lo as u64;
        assert((bhi << 32) | blo == bhi * 0x1_0000_0000 + blo) by (bit_vector)
            requires
                bhi <= 0xffff_ffff,
                blo <= 0xffff_ffff,
        ;
        assert((fhi << 32) | flo == fhi * 0x1_0000_0000 + flo) by (bit_vector)
            requires
                fhi <= 0xffff_ffff,
                flo <= 0xffff_ffff,
        ;
        Ok(
            StatFs {
                inodes_count: sb.inodes_count,
                free_inodes_count: sb.free_inodes_count,
                blocks_count: (bhi << 32) | blo,
                free_blocks_count: (fhi << 32) | flo,
                block_size: get_block_size(sb),
            },
        )
    }

    /// Plans the creation of `name` in directory `parent`. `child` is the
    /// inode that was allocated for it. The entry is added; a directory
    /// also gets its entries `.` and `..` and the link count two; at the
    /// end the permission bits of `mode` replace those of the fresh inode.
    pub fn create<'a>(
        &self,
        parent: u32,
        name: &'a str,
        child: &InodeRef<Hal>,
        ty: InodeType,
        mode: u32,
    ) -> (ops: Vec<FsOp<'a>>)
        ensures
            ops@ == create_ops(parent, name, child.index, child.inode.mode, ty, mode),
    {
        let ino = child.ino();
        let mut ops: Vec<FsOp<'a>> = Vec::new();
        ops.push(FsOp::AddEntry { dir: parent, name, ino });
        if ty == InodeType::Directory {
            ops.push(FsOp::AddEntry { dir: ino, name: ".", ino });
            ops.push(FsOp::AddEntry { dir: ino, name: "..", ino: parent });
            ops.push(FsOp::SetLinks { ino, count: 2 });
        }
        ops.push(
            FsOp::SetMode { ino, mode: (child.mode() & !PERMISSION_BITS) | (mode & PERMISSION_BITS) },
        );
        assert(ops@ =~= create_ops(parent, name, child.index, child.inode.mode, ty, mode));
        ops
    }

    /// Plans a further link `name` in directory `dir` to inode `child`. A
    /// directory cannot be linked to.
    pub fn link<'a>(&self, dir: u32, name: &'a str, child: &InodeRef<Hal>) -> (r: Ext4Result<
        Vec<FsOp<'a>>,
    >)
        ensures
            child.spec_inode_type() == InodeType::Directory ==> r == Err::<Vec<FsOp<'a>>, Ext4Error>(
                Ext4Error { code: EISDIR, context: Some("cannot link to directory") },
            ),
            child.spec_inode_type() != InodeType::Directory ==> r is Ok && r->Ok_0@ == seq![
                FsOp::AddEntry { dir, name, ino: child.index },
            ],
    {
        if child.is_dir() {
            return Err(Ext4Error::new(EISDIR, Some("cannot link to directory")));
        }
        let mut ops: Vec<FsOp<'a>> = Vec::new();
        ops.push(FsOp::AddEntry { dir, name, ino: child.ino() });
        assert(ops@ =~= seq![FsOp::AddEntry { dir, name, ino: child.index }]);
        Ok(ops)
    }

    /// Plans the removal of the entry `name`, which names `child`, from
    /// directory `dir`. `entries` are the records of `child` where it is a
    /// directory. A directory that holds an entry other than `.` and `..` is
    /// refused as not empty. Otherwise the content is cut to nothing (a
    /// directory first to one block), the entry removed, the links counted
    /// down, and the inode freed. Records that cannot be listed are an
    /// input/output failure.
    pub fn unlink<'a>(
        &self,
        dir: u32,
        name: &'a str,
        child: InodeRef<Hal>,
        entries: Vec<RawDirEntry>,
    ) -> (r: Ext4Result<Vec<FsOp<'a>>>)
        ensures
            !records_ok(child.sb, 0, entries@) ==> r == Err::<Vec<FsOp<'a>>, Ext4Error>(
                records_error(),
            ),
            records_ok(child.sb, 0, entries@) && child.spec_inode_type() == InodeType::Directory
                && has_other_entry(entries@, child.sb) ==> r == Err::<Vec<FsOp<'a>>, Ext4Error>(
                Ext4Error { code: ENOTEMPTY, context: None },
            ),
            records_ok(child.sb, 0, entries@) && !(child.spec_inode_type() == InodeType::Directory
                && has_other_entry(entries@, child.sb)) ==> r is Ok && r->Ok_0@ == unlink_ops(
                dir,
                name,
                child.index,
                child.spec_inode_type() == InodeType::Directory,
                child.inode.links_count,
                self.sb().block_size() as u32,
            ),
    {
        proof {
            use_type_invariant(self);
        }
        if !check_records(&child.sb, 0, &entries) {
            return Err(Ext4Error::new(EIO, Some("directory entry")));
        }
        let ino = child.ino();
        let is_dir = child.is_dir();
        let links = child.nlink();
        match child.has_children(entries) {
            Ok(true) => {
                return Err(Ext4Error::new(ENOTEMPTY, None));
            },
            Ok(false) => {},
            Err(e) => {
                return Err(e);
            },
        }
        let mut ops: Vec<FsOp<'a>> = Vec::new();
        if is_dir {
            let bs = get_block_size(&self.sb);
            ops.push(FsOp::Truncate { ino, size: bs as u64 });
        }
        ops.push(FsOp::Truncate { ino, size: 0 });
        ops.push(FsOp::RemoveEntry { dir, name });
        if is_dir {
            ops.push(FsOp::DecLinks { ino: dir });
        }
        if links > 0 {
            ops.push(FsOp::DecLinks { ino });
        }
        ops.push(FsOp::SetLinks { ino, count: 0 });
        ops.push(FsOp::FreeInode { ino });
        assert(ops@ =~= unlink_ops(dir, name, ino, is_dir, links, self.sb.block_size() as u32));
        Ok(ops)
    }

    /// Plans the move of the entry `src_name` of directory `src_dir`, which
    /// names `src`, to `dst_name` in directory `dst_dir`. `dst_removed` is
    /// what unlinking `dst_name` from `dst_dir` gave beforehand; that there
    /// was no such entry is no error, any other failure ends the rename. A
    /// directory that moves gets `dst_dir` as its `..`, and the two
    /// directories' links are counted down and up.
    pub fn rename<'a>(
        &self,
        src_dir: u32,
        src_name: &'a str,
        dst_dir: u32,
        dst_name: &'a str,
        dst_removed: Ext4Result<()>,
        src: &InodeRef<Hal>,
    ) -> (r: Ext4Result<Vec<FsOp<'a>>>)
        ensures
            dst_removed is Err && dst_removed->Err_0.code != ENOENT ==> r == Err::<
                Vec<FsOp<'a>>,
                Ext4Error,
            >(dst_removed->Err_0),
            dst_removed is Ok || dst_removed->Err_0.code == ENOENT ==> r is Ok && r->Ok_0@
                == rename_ops(
                src_dir,
                src_name,
                dst_dir,
                dst_name,
                src.index,
                src.spec_inode_type() == InodeType::Directory,
            ),
    {
        match dst_removed {
            Ok(()) => {},
            Err(err) => {
                if err.code != ENOENT {
                    return Err(err);
                }
            },
        }
        let ino = src.ino();
        let mut ops: Vec<FsOp<'a>> = Vec::new();
        if src.is_dir() {
            ops.push(FsOp::PointEntry { dir: ino, name: "..", ino: dst_dir });
            ops.push(FsOp::DecLinks { ino: src_dir });
            ops.push(FsOp::IncLinks { ino: dst_dir });
        }
        ops.push(FsOp::RemoveEntry { dir: src_dir, name: src_name });
        ops.push(FsOp::AddEntry { dir: dst_dir, name: dst_name, ino });
        assert(ops@ =~= rename_ops(
            src_dir,
            src_name,
            dst_dir,
            dst_name,
            src.index,
            src.spec_inode_type() == InodeType::Directory,
        ));
        Ok(ops)
    }

    /// Fills `attr` with the metadata of a checked-out inode. A snapshot
    /// whose block size cannot be computed is refused, and `attr` stays as it
    /// was.
    pub fn get_attr(&self, inode: &InodeRef<Hal>, attr: &mut FileAttr) -> (r: Ext4Result<()>)
        ensures
            inode.sb.wf() ==> r is Ok && inode.described_by(*final(attr)),
            !inode.sb.wf() ==> r == Err::<(), Ext4Error>(block_size_error()) && *final(attr)
                == *old(attr),
    {
        if !inode.sb.valid() {
            return Err(Ext4Error::new(ENOTSUP, Some("block size")));
        }
        inode.get_attr(attr);
        Ok(())
    }

    /// The blocks whose physical blocks a read of a checked-out inode
    /// needs, or why the file cannot be read.
    pub fn read_span(&self, inode: &InodeRef<Hal>, buf_len: usize, offset: u64) -> (r: Ext4Result<
        BlockSpan,
    >)
        ensures
            r == match range_fault(*inode, inode.inode.size as int) {
                Some(e) => Err::<BlockSpan, Ext4Error>(e),
                None => Ok::<BlockSpan, Ext4Error>(inode.spec_read_span(buf_len, offset)),
            },
    {
        match check_range(inode, inode.size(), 0) {
            Ok(()) => {},
            Err(e) => {
                return Err(e);
            },
        }
        Ok(inode.read_span(buf_len, offset))
    }

    /// Plans a read of a checked-out inode along the physical blocks of
    /// `read_span`, or says why it cannot be planned.
    pub fn read_at(
        &self,
        inode: &InodeRef<Hal>,
        buf_len: usize,
        offset: u64,
        fblocks: &Vec<u64>,
    ) -> (r: Ext4Result<ReadPlan>)
        ensures
            match range_fault(*inode, inode.inode.size as int) {
                Some(e) => r == Err::<ReadPlan, Ext4Error>(e),
                None => match mapping_fault(
                    *inode,
                    inode.spec_read_span(buf_len, offset).count,
                    fblocks@,
                ) {
                    Some(e) => r == Err::<ReadPlan, Ext4Error>(e),
                    None => r is Ok && inode.is_read_plan(buf_len, offset, fblocks@, r->Ok_0),
                },
            },
    {
        match check_range(inode, inode.size(), 0) {
            Ok(()) => {},
            Err(e) => {
                return Err(e);
            },
        }
        let span = inode.read_span(buf_len, offset);
        match check_mapping(inode, span.count, fblocks) {
            Ok(()) => {},
            Err(e) => {
                return Err(e);
            },
        }
        Ok(inode.read_at(buf_len, offset, fblocks))
    }

    /// The blocks that a write to a checked-out inode needs and how each is
    /// come by, or why the range cannot be written.
    pub fn write_span(&self, inode: &InodeRef<Hal>, buf_len: usize, offset: u64) -> (r: Ext4Result<
        WriteSpan,
    >)
        ensures
            match range_fault(*inode, offset + buf_len) {
                Some(e) => r == Err::<WriteSpan, Ext4Error>(e),
                None => r == Ok::<WriteSpan, Ext4Error>(inode.spec_write_span(buf_len, offset))
                    && r->Ok_0.blocks.first + r->Ok_0.blocks.count <= u32::MAX,
            },
    {
        match check_range(inode, offset, buf_len) {
            Ok(()) => {},
            Err(e) => {
                return Err(e);
            },
        }
        Ok(inode.write_span(buf_len, offset))
    }

    /// Plans a write to a checked-out inode along the physical blocks of
    /// `write_span` and records the new size, or says why it cannot be
    /// planned and leaves the inode as it was.
    pub fn write_at(
        &self,
        inode: &mut InodeRef<Hal>,
        buf_len: usize,
        offset: u64,
        fblocks: &Vec<u64>,
    ) -> (r: Ext4Result<WritePlan>)
        ensures
            match range_fault(*old(inode), offset + buf_len) {
                Some(e) => r == Err::<WritePlan, Ext4Error>(e) && *final(inode) == *old(inode),
                None => match mapping_fault(
                    *old(inode),
                    old(inode).spec_write_span(buf_len, offset).blocks.count,
                    fblocks@,
                ) {
                    Some(e) => r == Err::<WritePlan, Ext4Error>(e) && *final(inode) == *old(inode),
                    None => r is Ok && InodeRef::is_write(
                        *old(inode),
                        *final(inode),
                        buf_len,
                        offset,
                        fblocks@,
                        r->Ok_0,
                    ),
                },
            },
    {
        match check_range(inode, offset, buf_len) {
            Ok(()) => {},
            Err(e) => {
                return Err(e);
            },
        }
        let span = inode.write_span(buf_len, offset);
        match check_mapping(inode, span.blocks.count, fblocks) {
            Ok(()) => {},
            Err(e) => {
                return Err(e);
            },
        }
        Ok(inode.write_at(buf_len, offset, fblocks))
    }

    /// Sets the length of a checked-out inode and says what the engine has
    /// to do for it.
    pub fn set_len(&self, inode: &mut InodeRef<Hal>, len: u64) -> (r: Ext4Result<Resize>)
        ensures
            r is Ok,
            InodeRef::is_resize(*old(inode), *final(inode), len, r->Ok_0),
    {
        Ok(inode.set_len(len))
    }

    /// Makes `target` the content of a checked-out symlink, or says why it
    /// cannot and leaves the inode as it was.
    pub fn set_symlink(&self, inode: &mut InodeRef<Hal>, target: &[u8]) -> (r: Ext4Result<
        SymlinkStore,
    >)
        ensures
            match inode_fault(*old(inode)) {
                Some(e) => r == Err::<SymlinkStore, Ext4Error>(e) && *final(inode) == *old(inode),
                None => InodeRef::is_symlink_set(*old(inode), *final(inode), target@, r),
            },
    {
        match check_inode(inode) {
            Ok(()) => {},
            Err(e) => {
                return Err(e);
            },
        }
        inode.set_symlink(target)
    }

    /// Wraps what a search of a checked-out directory for a name gave. An
    /// entry that does not hold its name is an input/output failure.
    pub fn lookup(&self, parent: InodeRef<Hal>, status: i32, found: RawDirEntry) -> (r: Ext4Result<
        DirLookupResult<Hal>,
    >)
        ensures
            status != 0 ==> r == Err::<DirLookupResult<Hal>, Ext4Error>(
                Ext4Error { code: status, context: Some("ext4_dir_find_entry") },
            ),
            status == 0 && !found.wf(parent.sb) ==> r == Err::<DirLookupResult<Hal>, Ext4Error>(
                records_error(),
            ),
            status == 0 && found.wf(parent.sb) ==> r == Ok::<DirLookupResult<Hal>, Ext4Error>(
                DirLookupResult { parent, inner: found },
            ),
    {
        if status == 0 && !found.holds_name(&parent.sb) {
            return Err(Ext4Error::new(EIO, Some("directory entry")));
        }
        parent.lookup(status, found)
    }

    /// Opens a reader over the records of a checked-out directory from byte
    /// `offset` on. Records that cannot be listed are an input/output
    /// failure.
    pub fn read_dir(&self, parent: InodeRef<Hal>, offset: u64, entries: Vec<RawDirEntry>) -> (r:
        Ext4Result<DirReader<Hal>>)
        ensures
            !records_ok(parent.sb, offset, entries@) ==> r == Err::<DirReader<Hal>, Ext4Error>(
                records_error(),
            ),
            records_ok(parent.sb, offset, entries@) ==> r is Ok && r->Ok_0.opened_at(
                parent,
                offset,
                entries,
            ),
    {
        if !check_records(&parent.sb, offset, &entries) {
            return Err(Ext4Error::new(EIO, Some("directory entry")));
        }
        Ok(parent.read_dir(offset, entries))
    }
}

} // verus!
