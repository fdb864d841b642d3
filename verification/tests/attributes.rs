use core::time::Duration;
use lwext4_rust::inode::attr::TimeField;
use lwext4_rust::{
    get_block_size, revision_tuple, DummyHal, FileAttr, InodeRef, InodeType, RawInode, Superblock,
    SystemHal,
};

struct FixedClock;

impl SystemHal for FixedClock {
    fn now() -> Option<Duration> {
        Some(Duration::new(0x1_0000_0002, 7))
    }
}

fn superblock(log_block_size: u32) -> Superblock {
    Superblock {
        inodes_count: 128,
        free_inodes_count: 100,
        blocks_count_lo: 4096,
        blocks_count_hi: 0,
        free_blocks_count_lo: 1000,
        free_blocks_count_hi: 0,
        log_block_size,
        rev_level: 1,
        minor_rev_level: 3,
    }
}

fn raw(mode: u32) -> RawInode {
    RawInode {
        mode,
        uid: 1000,
        gid: 100,
        links_count: 3,
        size: 777,
        blocks_count: 16,
        flags: 0,
        access_time: 5,
        atime_extra: (9 << 2) | 1,
        modification_time: 6,
        mtime_extra: 0,
        change_inode_time: 7,
        ctime_extra: 2,
        blocks: vec![0; 60],
    }
}

#[test]
fn block_size_is_1024_shifted() {
    assert_eq!(get_block_size(&superblock(0)), 1024);
    assert_eq!(get_block_size(&superblock(2)), 4096);
    assert_eq!(get_block_size(&superblock(6)), 65536);
    assert_eq!(get_block_size(&superblock(21)), 0x8000_0000);
    assert_eq!(revision_tuple(&superblock(0)), (1, 3));
}

#[test]
fn inode_type_from_code() {
    assert_eq!(InodeType::from(0), InodeType::Unknown);
    assert_eq!(InodeType::from(1), InodeType::Fifo);
    assert_eq!(InodeType::from(2), InodeType::CharacterDevice);
    assert_eq!(InodeType::from(4), InodeType::Directory);
    assert_eq!(InodeType::from(6), InodeType::BlockDevice);
    assert_eq!(InodeType::from(8), InodeType::RegularFile);
    assert_eq!(InodeType::from(10), InodeType::Symlink);
    assert_eq!(InodeType::from(12), InodeType::Socket);
    assert_eq!(InodeType::from(3), InodeType::Unknown);
    assert_eq!(InodeType::from(255), InodeType::Unknown);
    assert_eq!(InodeType::default(), InodeType::Unknown);
    assert_eq!(InodeType::Symlink.code(), 10);
    assert_eq!(InodeType::from(InodeType::Socket.code()), InodeType::Socket);
}

#[test]
fn inode_type_is_the_high_byte_of_the_mode() {
    let ino: InodeRef<DummyHal> = InodeRef::new(2, raw((4 << 24) | 0o755), superblock(0));
    assert_eq!(ino.inode_type(), InodeType::Directory);
    assert!(ino.is_dir());
    let ino: InodeRef<DummyHal> = InodeRef::new(2, raw((8 << 24) | 0o644), superblock(0));
    assert_eq!(ino.inode_type(), InodeType::RegularFile);
    assert!(!ino.is_dir());
    assert_eq!(ino.ino(), 2);
    assert_eq!(ino.nlink(), 3);
    assert_eq!(ino.uid(), 1000);
    assert_eq!(ino.gid(), 100);
    assert_eq!(ino.size(), 777);
    assert_eq!(ino.mode(), (8 << 24) | 0o644);
    assert_eq!(*ino.superblock(), superblock(0));
}

#[test]
fn mutators_mark_dirty() {
    let mut ino: InodeRef<DummyHal> = InodeRef::new(2, raw(8 << 24), superblock(0));
    assert!(!ino.dirty);
    ino.set_mode(0o600);
    assert_eq!(ino.mode(), 0o600);
    assert!(ino.dirty);
    ino.dirty = false;
    ino.set_nlink(9);
    assert_eq!(ino.nlink(), 9);
    assert!(ino.dirty);
    ino.dirty = false;
    ino.mark_dirty();
    assert!(ino.dirty);
}

#[test]
fn set_times_store_the_encoded_pair() {
    let mut ino: InodeRef<DummyHal> = InodeRef::new(2, raw(8 << 24), superblock(0));
    ino.set_atime(&Duration::new(0x2_0000_0010, 1));
    assert_eq!((ino.inode.access_time, ino.inode.atime_extra), (0x10, (1 << 2) | 2));
    ino.set_mtime(&Duration::new(20, 500));
    assert_eq!((ino.inode.modification_time, ino.inode.mtime_extra), (20, 500 << 2));
    ino.set_ctime(&Duration::new(0x3_0000_0000, 0));
    assert_eq!((ino.inode.change_inode_time, ino.inode.ctime_extra), (0, 3));
    ino.dirty = false;
    ino.set_time(TimeField::Access, &Duration::new(1, 1));
    assert_eq!((ino.inode.access_time, ino.inode.atime_extra), (1, 4));
    assert!(ino.dirty);
}

#[test]
fn update_times_without_a_clock_change_nothing() {
    let mut ino: InodeRef<DummyHal> = InodeRef::new(2, raw(8 << 24), superblock(0));
    ino.update_atime();
    ino.update_mtime();
    ino.update_ctime();
    assert!(!ino.dirty);
    assert_eq!((ino.inode.access_time, ino.inode.atime_extra), (5, 37));
    assert_eq!((ino.inode.modification_time, ino.inode.mtime_extra), (6, 0));
    assert_eq!((ino.inode.change_inode_time, ino.inode.ctime_extra), (7, 2));
}

#[test]
fn update_times_take_the_clock() {
    let mut ino: InodeRef<FixedClock> = InodeRef::new(2, raw(8 << 24), superblock(0));
    ino.update_atime();
    assert!(ino.dirty);
    assert_eq!((ino.inode.access_time, ino.inode.atime_extra), (2, (7 << 2) | 1));
    ino.update_mtime();
    assert_eq!((ino.inode.modification_time, ino.inode.mtime_extra), (2, (7 << 2) | 1));
    ino.update_ctime();
    assert_eq!((ino.inode.change_inode_time, ino.inode.ctime_extra), (2, (7 << 2) | 1));
    ino.stamp(TimeField::Access, None);
    assert_eq!((ino.inode.access_time, ino.inode.atime_extra), (2, (7 << 2) | 1));
    ino.stamp(TimeField::Access, Some(Duration::new(3, 0)));
    assert_eq!((ino.inode.access_time, ino.inode.atime_extra), (3, 0));
}

#[test]
fn get_attr_projects_the_inode() {
    let ino: InodeRef<DummyHal> = InodeRef::new(42, raw((8 << 24) | 0o644), superblock(2));
    let mut attr = FileAttr::default();
    assert_eq!(attr.atime, Duration::new(0, 0));
    ino.get_attr(&mut attr);
    assert_eq!(attr.device, 0);
    assert_eq!(attr.ino, 42);
    assert_eq!(attr.nlink, 3);
    assert_eq!(attr.mode, (8 << 24) | 0o644);
    assert_eq!(attr.uid, 1000);
    assert_eq!(attr.gid, 100);
    assert_eq!(attr.size, 777);
    assert_eq!(attr.block_size, 4096);
    assert_eq!(attr.blocks, 16);
    assert_eq!(attr.atime, Duration::new(0x1_0000_0005, 9));
    assert_eq!(attr.mtime, Duration::new(6, 0));
    assert_eq!(attr.ctime, Duration::new(0x2_0000_0007, 0));
    let copy = attr.clone();
    assert_eq!(copy.atime, attr.atime);
}
