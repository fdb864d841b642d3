//! Safety and lifecycle layer of an ext4 filesystem binding.
//!
//! The block-oriented engine that understands the on-disk layout is driven
//! from outside this crate. Everything here works on plain values: snapshots
//! of inodes, superblocks and directory records, and plans that say which
//! engine calls an operation is made of, in which order. Every function
//! carries a contract that is proved.
//!
//! - [`error`]: status codes and the typed result built from them.
//! - [`util`]: the superblock fields that are read, and the block size.
//! - [`blockdev`]: the adapter between a caller's block device and the
//!   engine's callbacks.
//! - [`inode`]: checked-out inodes, their attributes and times
//!   ([`inode::attr`]), byte ranges cut into segments ([`inode::layout`]),
//!   reads, writes, resizing and symlinks ([`inode::file`]), directory
//!   records, readers and lookups ([`inode::dir`]).
//! - [`fs`]: the mounted filesystem, the operations on checked-out inodes
//!   and the composite directory operations.
//! - [`mount`]: the steps of mounting and unmounting, and what a failed
//!   mount has to undo.
//! - [`namespace`]: what the steps of the directory operations do to names
//!   and link counts.

pub mod blockdev;
pub mod error;
pub mod fs;
pub mod inode;
pub mod mount;
pub mod namespace;
pub mod util;

pub use blockdev::{BlockDevice, Ext4BlockDevice, EXT4_DEV_BSIZE};
pub use error::{Ext4Error, Ext4Result};
pub use fs::{DummyHal, Ext4Filesystem, FsOp, StatFs, SystemHal};
pub use inode::attr::FileAttr;
pub use inode::dir::{DirEntry, DirLookupResult, DirReader, DirStream, RawDirEntry};
pub use inode::file::{BlockSpan, ReadPlan, Resize, SymlinkStore, WritePlan, WriteSpan};
pub use inode::layout::{Segment, SegmentKind};
pub use inode::{InodeRef, InodeType, RawInode};
pub use util::{get_block_size, revision_tuple, Superblock};
