use lwext4_rust::inode::dir::{dot_name, entry_type_code, wide_names};
use lwext4_rust::{
    DirEntry, DirStream, DummyHal, InodeRef, InodeType, RawDirEntry, RawInode, Superblock,
};

fn superblock(rev_level: u32, minor_rev_level: u16) -> Superblock {
    Superblock {
        inodes_count: 128,
        free_inodes_count: 100,
        blocks_count_lo: 4096,
        blocks_count_hi: 0,
        free_blocks_count_lo: 1000,
        free_blocks_count_hi: 0,
        log_block_size: 0,
        rev_level,
        minor_rev_level,
    }
}

fn dir_inode(mode: u32) -> InodeRef<DummyHal> {
    let raw = RawInode {
        mode,
        uid: 0,
        gid: 0,
        links_count: 2,
        size: 1024,
        blocks_count: 2,
        flags: 0,
        access_time: 0,
        atime_extra: 0,
        modification_time: 0,
        mtime_extra: 0,
        change_inode_time: 0,
        ctime_extra: 0,
        blocks: vec![0; 60],
    };
    InodeRef::new(2, raw, superblock(1, 0))
}

fn entry(inode: u32, entry_len: u16, name: &[u8], code: u8) -> RawDirEntry {
    RawDirEntry {
        inode,
        entry_len,
        name_len: name.len() as u8,
        type_or_high: code,
        name: name.to_vec(),
    }
}

const DIRECTORY: u32 = 4 << 24;
const REGULAR: u32 = 8 << 24;

#[test]
fn raw_entry_accessors() {
    let mut e = entry(11, 12, b"a.txt", 1);
    assert_eq!(e.ino(), 11);
    assert_eq!(e.len(), 12);
    e.set_ino(99);
    assert_eq!(e.ino(), 99);
    assert_eq!(e.name(&superblock(1, 0)), b"a.txt");
    assert_eq!(e.inode_type(&superblock(1, 0)), InodeType::RegularFile);
}

#[test]
fn entry_type_byte_maps_to_inode_type() {
    let sb = superblock(0, 5);
    let expect = [
        (0, InodeType::Unknown),
        (1, InodeType::RegularFile),
        (2, InodeType::Directory),
        (3, InodeType::CharacterDevice),
        (4, InodeType::BlockDevice),
        (5, InodeType::Fifo),
        (6, InodeType::Socket),
        (7, InodeType::Symlink),
        (8, InodeType::Unknown),
    ];
    for (code, ty) in expect {
        assert_eq!(entry(1, 12, b"x", code).inode_type(&sb), ty);
    }
    for (code, ty) in &expect[..8] {
        assert_eq!(entry_type_code(*ty), *code);
    }
}

#[test]
fn old_revisions_have_wide_names_and_no_type() {
    assert!(wide_names(&superblock(0, 4)));
    assert!(!wide_names(&superblock(0, 5)));
    assert!(!wide_names(&superblock(1, 0)));
    let sb = superblock(0, 4);
    let mut e = entry(5, 280, &[b'n'; 300], 1);
    e.name_len = 4;
    assert_eq!(e.name(&sb).len(), 260);
    assert_eq!(e.name_length(&sb), 260);
    assert_eq!(e.inode_type(&sb), InodeType::Unknown);
    e.type_or_high = 0xf1;
    assert_eq!(e.name_length(&sb), 260);
    assert!(e.holds_name(&sb));
    e.type_or_high = 0x02;
    assert_eq!(e.name_length(&sb), 516);
    assert!(!e.holds_name(&sb));
    e.type_or_high = 0x01;
    assert_eq!(e.name(&superblock(0, 5)), b"nnnn");
}

#[test]
fn dir_entry_reads_through_the_superblock() {
    let sb = superblock(1, 0);
    let raw = entry(7, 16, b"hello", 2);
    let e = DirEntry { inner: &raw, sb: &sb };
    assert_eq!(e.ino(), 7);
    assert_eq!(e.name(), b"hello");
    assert_eq!(e.inode_type(), InodeType::Directory);
    assert_eq!(e.len(), 16);
    assert!(!e.is_empty());
    assert_eq!(e.raw_entry().entry_len, 16);
    let raw = entry(0, 0, b"", 0);
    assert!(DirEntry { inner: &raw, sb: &sb }.is_empty());
}

#[test]
fn dot_names() {
    assert!(dot_name(b"."));
    assert!(dot_name(b".."));
    assert!(!dot_name(b""));
    assert!(!dot_name(b"..."));
    assert!(!dot_name(b"a"));
    assert!(!dot_name(b".a"));
    assert!(!dot_name(b"a."));
}

#[test]
fn reader_walks_entries_in_use_and_tracks_offsets() {
    let entries = vec![
        entry(0, 12, b"", 0),
        entry(2, 12, b".", 2),
        entry(2, 12, b"..", 2),
        entry(0, 20, b"gone", 1),
        entry(15, 968, b"file", 1),
    ];
    let mut reader = dir_inode(DIRECTORY).read_dir(100, entries);
    assert_eq!(reader.offset(), 112);
    assert_eq!(reader.current().unwrap().name(), b".");
    assert_eq!(reader.step(), Ok(()));
    assert_eq!(reader.offset(), 124);
    assert_eq!(reader.current().unwrap().name(), b"..");
    assert_eq!(reader.step(), Ok(()));
    assert_eq!(reader.offset(), 156);
    assert_eq!(reader.current().unwrap().ino(), 15);
    assert_eq!(reader.step(), Ok(()));
    assert!(reader.current().is_none());
    assert_eq!(reader.offset(), 1124);
    assert_eq!(reader.step(), Ok(()));
    assert!(reader.current().is_none());
    assert_eq!(reader.offset(), 1124);
}

#[test]
fn reader_over_nothing_is_exhausted() {
    let reader = dir_inode(DIRECTORY).read_dir(0, vec![]);
    assert!(reader.current().is_none());
    assert_eq!(reader.offset(), 0);
    let reader = dir_inode(DIRECTORY).read_dir(7, vec![entry(0, 12, b"", 0)]);
    assert!(reader.current().is_none());
    assert_eq!(reader.offset(), 19);
}

#[test]
fn has_children_ignores_dot_entries_and_unused_records() {
    let dots = vec![entry(2, 12, b".", 2), entry(2, 12, b"..", 2), entry(0, 1000, b"old", 1)];
    assert_eq!(dir_inode(DIRECTORY).has_children(dots.clone()), Ok(false));
    let mut with_child = dots;
    with_child.push(entry(15, 16, b"kid", 1));
    assert_eq!(dir_inode(DIRECTORY).has_children(with_child.clone()), Ok(true));
    assert_eq!(dir_inode(REGULAR).has_children(with_child), Ok(false));
    assert_eq!(dir_inode(DIRECTORY).has_children(vec![]), Ok(false));
    assert_eq!(dir_inode(DIRECTORY).has_children(vec![entry(3, 12, b"...", 1)]), Ok(true));
}

#[test]
fn lookup_wraps_the_search_result() {
    let found = dir_inode(DIRECTORY).lookup(0, entry(15, 16, b"kid", 1)).unwrap();
    assert_eq!(found.entry().ino(), 15);
    assert_eq!(found.entry().name(), b"kid");
    assert_eq!(found.parent.ino(), 2);
    let err = dir_inode(DIRECTORY).lookup(2, entry(0, 0, b"", 0)).err().unwrap();
    assert_eq!(err.code, 2);
    assert_eq!(err.context, Some("ext4_dir_find_entry"));
    let err = dir_inode(DIRECTORY).lookup(5, entry(0, 0, b"", 0)).err().unwrap();
    assert_eq!(err.code, 5);
}

#[test]
fn stream_puts_records_at_their_offsets() {
    let mut stream = DirStream::new(100);
    assert!(stream.push(100, entry(2, 12, b".", 2)));
    assert!(stream.push(112, entry(2, 12, b"..", 2)));
    assert!(stream.push(200, entry(15, 24, b"file", 1)));
    assert!(!stream.push(223, entry(16, 24, b"late", 1)));
    assert!(!stream.push(u64::MAX - 3, entry(16, 24, b"far", 1)));
    assert!(stream.push(224 + 70000, entry(17, 16, b"x", 1)));
    assert_eq!((stream.start, stream.end), (100, 224 + 70000 + 16));
    let lens: Vec<(u32, u16)> = stream.entries.iter().map(|e| (e.inode, e.entry_len)).collect();
    assert_eq!(
        lens,
        vec![(2, 12), (2, 12), (0, 76), (15, 24), (0, 65535), (0, 4465), (17, 16)]
    );
    let mut reader = dir_inode(DIRECTORY).read_dir(100, stream.entries);
    assert_eq!(reader.offset(), 100);
    assert_eq!(reader.step(), Ok(()));
    assert_eq!(reader.offset(), 112);
    assert_eq!(reader.step(), Ok(()));
    assert_eq!(reader.offset(), 200);
    assert_eq!(reader.current().unwrap().name(), b"file");
    assert_eq!(reader.step(), Ok(()));
    assert_eq!(reader.offset(), 224 + 70000);
    assert_eq!(reader.step(), Ok(()));
    assert_eq!(reader.offset(), 224 + 70000 + 16);
    assert!(reader.current().is_none());
}
