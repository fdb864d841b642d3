//! Checked-out inodes.

use core::marker::PhantomData;
use vstd::prelude::*;

use crate::fs::SystemHal;
use crate::util::Superblock;

pub mod attr;
pub mod dir;
pub mod file;
pub mod layout;

verus! {

/// Size in bytes of the block-pointer area of an inode, which also holds the
/// target of a short symlink.
pub const INLINE_AREA_SIZE: usize = 60;

/// Inode type.
#[derive(PartialEq, Eq, Clone, Copy, Debug, Structural)]
pub enum InodeType {
    Unknown,
    Fifo,
    CharacterDevice,
    Directory,
    BlockDevice,
    RegularFile,
    Symlink,
    Socket,
}

impl InodeType {
    /// The type that a type code stands for; codes that stand for none are
    /// `Unknown`.
    pub open spec fn of_code(value: u8) -> InodeType {
        if value == 1 {
            InodeType::Fifo
        } else if value == 2 {
            InodeType::CharacterDevice
        } else if value == 4 {
            InodeType::Directory
        } else if value == 6 {
            InodeType::BlockDevice
        } else if value == 8 {
            InodeType::RegularFile
        } else if value == 10 {
            InodeType::Symlink
        } else if value == 12 {
            InodeType::Socket
        } else {
            InodeType::Unknown
        }
    }

    /// The numeric code of a type, as the high byte of an inode's mode holds
    /// it.
    pub open spec fn spec_code(self) -> u8 {
        match self {
            InodeType::Unknown => 0,
            InodeType::Fifo => 1,
            InodeType::CharacterDevice => 2,
            InodeType::Directory => 4,
            InodeType::BlockDevice => 6,
            InodeType::RegularFile => 8,
            InodeType::Symlink => 10,
            InodeType::Socket => 12,
        }
    }

    /// The numeric code of this type.
    pub fn code(self) -> (c: u8)
        ensures
            c == self.spec_code(),
            InodeType::of_code(c) == self,
    {
        match self {
            InodeType::Unknown => 0,
            InodeType::Fifo => 1,
            InodeType::CharacterDevice => 2,
            InodeType::Directory => 4,
            InodeType::BlockDevice => 6,
            InodeType::RegularFile => 8,
            InodeType::Symlink => 10,
            InodeType::Socket => 12,
        }
    }
}

impl Default for InodeType {
    fn default() -> (t: Self)
        ensures
            t == InodeType::Unknown,
    {
        InodeType::Unknown
    }
}

impl From<u8> for InodeType {
    fn from(value: u8) -> (t: Self) {
        match value {
            1 => InodeType::Fifo,
            2 => InodeType::CharacterDevice,
            4 => InodeType::Directory,
            6 => InodeType::BlockDevice,
            8 => InodeType::RegularFile,
            10 => InodeType::Symlink,
            12 => InodeType::Socket,
            _ => InodeType::Unknown,
        }
    }
}

impl vstd::std_specs::convert::FromSpecImpl<u8> for InodeType {
    open spec fn obeys_from_spec() -> bool {
        true
    }

    open spec fn from_spec(value: u8) -> Self {
        InodeType::of_code(value)
    }
}

/// The fields of an on-disk inode that this layer reads or changes, in host
/// byte order.
#[derive(Clone, Debug)]
pub struct RawInode {
    pub mode: u32,
    pub uid: u16,
    pub gid: u16,
    pub links_count: u16,
    pub size: u64,
    pub blocks_count: u64,
    pub flags: u32,
    pub access_time: u32,
    pub atime_extra: u32,
    pub modification_time: u32,
    pub mtime_extra: u32,
    pub change_inode_time: u32,
    pub ctime_extra: u32,
    /// The block-pointer area, as bytes.
    pub blocks: Vec<u8>,
}

/// A checked-out inode: its number, a snapshot of its fields and of the
/// superblock of its filesystem, and whether the snapshot has changes that
/// are still to be written back.
pub struct InodeRef<Hal: SystemHal> {
    pub index: u32,
    pub inode: RawInode,
    pub sb: Superblock,
    pub dirty: bool,
    pub _phantom: PhantomData<Hal>,
}

impl<Hal: SystemHal> InodeRef<Hal> {
    /// The snapshot is usable: the block-pointer area has its fixed size and
    /// the block size can be computed.
    pub open spec fn wf(&self) -> bool {
        &&& self.inode.blocks@.len() == INLINE_AREA_SIZE
        &&& self.sb.wf()
    }

    /// Tests whether the snapshot is usable.
    pub fn usable(&self) -> (b: bool)
        ensures
            b == self.wf(),
    {
        self.inode.blocks.len() == INLINE_AREA_SIZE && self.sb.valid()
    }

    /// Wraps the snapshot of inode `index`; nothing is changed yet.
    pub fn new(index: u32, inode: RawInode, sb: Superblock) -> (r: Self)
        ensures
            r.index == index,
            r.inode == inode,
            r.sb == sb,
            !r.dirty,
    {
        InodeRef { index, inode, sb, dirty: false, _phantom: PhantomData }
    }

    pub fn ino(&self) -> (n: u32)
        ensures
            n == self.index,
    {
        self.index
    }

    pub fn superblock(&self) -> (sb: &Superblock)
        ensures
            *sb == self.sb,
    {
        &self.sb
    }

    /// Records that the snapshot differs from what the engine holds.
    pub fn mark_dirty(&mut self)
        ensures
            final(self).dirty,
            final(self).index == old(self).index,
            final(self).inode == old(self).inode,
            final(self).sb == old(self).sb,
    {
        self.dirty = true;
    }

    /// Sets the link count and marks the inode dirty.
    pub fn set_nlink(&mut self, nlink: u16)
        ensures
            final(self).inode == (RawInode { links_count: nlink, ..old(self).inode }),
            final(self).dirty,
            final(self).index == old(self).index,
            final(self).sb == old(self).sb,
    {
        self.inode.links_count = nlink;
        self.dirty = true;
    }
}

} // verus!
