use lwext4_rust::mount::{
    mount_progress, unmount, unwind, MountOutcome, MountStep, Teardown,
};
use lwext4_rust::{
    DummyHal, Ext4Error, Ext4Filesystem, FsOp, InodeRef, InodeType, RawDirEntry, RawInode, StatFs,
    Superblock,
};

fn entry(inode: u32, name: &[u8]) -> RawDirEntry {
    RawDirEntry {
        inode,
        entry_len: 12,
        name_len: name.len() as u8,
        type_or_high: 1,
        name: name.to_vec(),
    }
}

fn dots() -> Vec<RawDirEntry> {
    vec![entry(21, b"."), entry(2, b"..")]
}

fn superblock(log_block_size: u32) -> Superblock {
    Superblock {
        inodes_count: 128,
        free_inodes_count: 100,
        blocks_count_lo: 4096,
        blocks_count_hi: 3,
        free_blocks_count_lo: 1000,
        free_blocks_count_hi: 1,
        log_block_size,
        rev_level: 1,
        minor_rev_level: 0,
    }
}

fn fs() -> Ext4Filesystem<DummyHal> {
    Ext4Filesystem::new(superblock(2), 4096).ok().unwrap()
}

fn inode(index: u32, mode: u32, links_count: u16) -> InodeRef<DummyHal> {
    let raw = RawInode {
        mode,
        uid: 0,
        gid: 0,
        links_count,
        size: 0,
        blocks_count: 0,
        flags: 0,
        access_time: 0,
        atime_extra: 0,
        modification_time: 0,
        mtime_extra: 0,
        change_inode_time: 0,
        ctime_extra: 0,
        blocks: vec![0; 60],
    };
    InodeRef::new(index, raw, superblock(2))
}

const DIRECTORY: u32 = 4 << 24;
const REGULAR: u32 = 8 << 24;

#[test]
fn mount_needs_matching_cache_item_size() {
    assert!(Ext4Filesystem::<DummyHal>::new(superblock(0), 1024).is_ok());
    let err = Ext4Filesystem::<DummyHal>::new(superblock(0), 4096).err().unwrap();
    assert_eq!(err, Ext4Error { code: 95, context: Some("block size mismatch") });
    let err = Ext4Filesystem::<DummyHal>::new(superblock(40), 1024).err().unwrap();
    assert_eq!(err, Ext4Error { code: 95, context: Some("block size mismatch") });
}

#[test]
fn stat_reads_the_superblock() {
    assert_eq!(
        fs().stat(),
        Ok(StatFs {
            inodes_count: 128,
            free_inodes_count: 100,
            blocks_count: (3 << 32) | 4096,
            free_blocks_count: (1 << 32) | 1000,
            block_size: 4096,
        })
    );
}

#[test]
fn create_file_adds_one_entry_and_sets_permissions() {
    let child = inode(20, REGULAR | 0o777, 0);
    let ops = fs().create(2, "a.txt", &child, InodeType::RegularFile, 0o100644);
    assert_eq!(
        ops,
        vec![
            FsOp::AddEntry { dir: 2, name: "a.txt", ino: 20 },
            FsOp::SetMode { ino: 20, mode: REGULAR | 0o644 },
        ]
    );
}

#[test]
fn create_directory_adds_dot_entries_and_two_links() {
    let child = inode(21, DIRECTORY, 0);
    let ops = fs().create(2, "sub", &child, InodeType::Directory, 0o755);
    assert_eq!(
        ops,
        vec![
            FsOp::AddEntry { dir: 2, name: "sub", ino: 21 },
            FsOp::AddEntry { dir: 21, name: ".", ino: 21 },
            FsOp::AddEntry { dir: 21, name: "..", ino: 2 },
            FsOp::SetLinks { ino: 21, count: 2 },
            FsOp::SetMode { ino: 21, mode: DIRECTORY | 0o755 },
        ]
    );
}

#[test]
fn link_refuses_directories() {
    let err = fs().link(2, "d2", &inode(21, DIRECTORY, 2)).err().unwrap();
    assert_eq!(err, Ext4Error { code: 21, context: Some("cannot link to directory") });
    assert_eq!(
        fs().link(2, "f2", &inode(20, REGULAR, 1)),
        Ok(vec![FsOp::AddEntry { dir: 2, name: "f2", ino: 20 }])
    );
}

#[test]
fn unlink_refuses_directories_with_children() {
    let mut entries = dots();
    entries.push(entry(30, b"kid"));
    let err = fs().unlink(2, "sub", inode(21, DIRECTORY, 2), entries).err().unwrap();
    assert_eq!(err, Ext4Error { code: 39, context: None });
}

#[test]
fn unlink_of_an_empty_directory() {
    assert_eq!(
        fs().unlink(2, "sub", inode(21, DIRECTORY, 2), dots()),
        Ok(vec![
            FsOp::Truncate { ino: 21, size: 4096 },
            FsOp::Truncate { ino: 21, size: 0 },
            FsOp::RemoveEntry { dir: 2, name: "sub" },
            FsOp::DecLinks { ino: 2 },
            FsOp::DecLinks { ino: 21 },
            FsOp::SetLinks { ino: 21, count: 0 },
            FsOp::FreeInode { ino: 21 },
        ])
    );
}

#[test]
fn unlink_of_a_file() {
    assert_eq!(
        fs().unlink(2, "f", inode(20, REGULAR, 1), vec![]),
        Ok(vec![
            FsOp::Truncate { ino: 20, size: 0 },
            FsOp::RemoveEntry { dir: 2, name: "f" },
            FsOp::DecLinks { ino: 20 },
            FsOp::SetLinks { ino: 20, count: 0 },
            FsOp::FreeInode { ino: 20 },
        ])
    );
    assert_eq!(
        fs().unlink(2, "f", inode(20, REGULAR, 0), vec![entry(9, b"not a directory")]),
        Ok(vec![
            FsOp::Truncate { ino: 20, size: 0 },
            FsOp::RemoveEntry { dir: 2, name: "f" },
            FsOp::SetLinks { ino: 20, count: 0 },
            FsOp::FreeInode { ino: 20 },
        ])
    );
}

#[test]
fn rename_of_a_file() {
    let moved = vec![
        FsOp::RemoveEntry { dir: 2, name: "a" },
        FsOp::AddEntry { dir: 5, name: "b", ino: 20 },
    ];
    assert_eq!(fs().rename(2, "a", 5, "b", Ok(()), &inode(20, REGULAR, 1)), Ok(moved.clone()));
    let missing = Err(Ext4Error { code: 2, context: Some("ext4_dir_find_entry") });
    assert_eq!(fs().rename(2, "a", 5, "b", missing, &inode(20, REGULAR, 1)), Ok(moved));
}

#[test]
fn rename_of_a_directory_moves_its_parent_entry() {
    assert_eq!(
        fs().rename(2, "a", 5, "b", Ok(()), &inode(21, DIRECTORY, 2)),
        Ok(vec![
            FsOp::PointEntry { dir: 21, name: "..", ino: 5 },
            FsOp::DecLinks { ino: 2 },
            FsOp::IncLinks { ino: 5 },
            FsOp::RemoveEntry { dir: 2, name: "a" },
            FsOp::AddEntry { dir: 5, name: "b", ino: 21 },
        ])
    );
}

#[test]
fn rename_stops_where_the_target_cannot_be_removed() {
    let not_empty = Ext4Error { code: 39, context: None };
    assert_eq!(
        fs().rename(2, "a", 5, "b", Err(not_empty), &inode(20, REGULAR, 1)),
        Err(not_empty)
    );
}

#[test]
fn unmount_order() {
    assert_eq!(
        unmount(),
        vec![
            Teardown::FsFini,
            Teardown::CacheCleanup,
            Teardown::CacheFini,
            Teardown::WriteBackOff,
            Teardown::BlockFini,
        ]
    );
}

#[test]
fn failed_mount_unwinds_what_was_set_up() {
    assert_eq!(unwind(MountStep::BlockInit), vec![]);
    assert_eq!(unwind(MountStep::WriteBackOn), vec![Teardown::BlockFini]);
    assert_eq!(unwind(MountStep::FsInit), vec![Teardown::WriteBackOff, Teardown::BlockFini]);
    assert_eq!(
        unwind(MountStep::CacheInit),
        vec![Teardown::FsFini, Teardown::WriteBackOff, Teardown::BlockFini]
    );
    assert_eq!(unwind(MountStep::CacheSizeCheck), unmount());
    assert_eq!(unwind(MountStep::CacheBind), unmount());
    assert_eq!(MountStep::FsInit.label(), "ext4_fs_init");
    assert_eq!(MountStep::CacheBind.label(), "ext4_block_bind_bcache");
}

fn checked_out(size: u64) -> InodeRef<DummyHal> {
    let mut ino = inode(20, REGULAR, 1);
    ino.inode.size = size;
    ino
}

#[test]
fn filesystem_plans_reads_of_checked_out_inodes() {
    let ino = checked_out(10000);
    let span = fs().read_span(&ino, 5000, 4000).unwrap();
    assert_eq!((span.first, span.count), (0, 3));
    let plan = fs().read_at(&ino, 5000, 4000, &vec![7, 8, 9]).ok().unwrap();
    assert_eq!(plan.len, 5000);
    assert_eq!(plan.segments.len(), 3);
    assert_eq!(plan.segments[1].start, 96);
    assert_eq!(plan.segments[1].len, 4096);
}

#[test]
fn filesystem_refuses_a_wrong_block_mapping() {
    let ino = checked_out(10000);
    let err = fs().read_at(&ino, 5000, 4000, &vec![7, 8]).err().unwrap();
    assert_eq!(err, Ext4Error { code: 5, context: Some("block mapping") });
    let err = fs().read_at(&ino, 5000, 4000, &vec![7, 8, u64::MAX]).err().unwrap();
    assert_eq!(err, Ext4Error { code: 5, context: Some("block address out of range") });
}

#[test]
fn filesystem_refuses_unusable_snapshots() {
    let mut ino = checked_out(10000);
    ino.sb.log_block_size = 22;
    let err = fs().read_span(&ino, 1, 0).err().unwrap();
    assert_eq!(err, Ext4Error { code: 95, context: Some("block size") });
    let mut attr = lwext4_rust::FileAttr::default();
    assert_eq!(fs().get_attr(&ino, &mut attr), Err(err));
    assert_eq!(attr.ino, 0);
    let mut ino = checked_out(10000);
    ino.inode.blocks.pop();
    let err = fs().write_span(&ino, 1, 0).err().unwrap();
    assert_eq!(err, Ext4Error { code: 5, context: Some("inode body") });
    assert_eq!(fs().set_symlink(&mut ino, b"x"), Err(err));
}

#[test]
fn filesystem_refuses_files_beyond_32_bit_block_numbers() {
    let mut ino = checked_out(10000);
    let big = 4096 * (u32::MAX as u64);
    let err = fs().write_span(&ino, 1, big).err().unwrap();
    assert_eq!(err, Ext4Error { code: 27, context: Some("file too large") });
    assert_eq!(fs().write_span(&ino, 1, u64::MAX).err().unwrap(), err);
    assert_eq!(fs().write_at(&mut ino, 1, big, &vec![1]).err().unwrap(), err);
    assert_eq!(ino.size(), 10000);
    assert!(fs().write_span(&ino, 1, big - 4096).is_ok());
    ino.inode.size = big;
    assert_eq!(fs().read_span(&ino, 1, 0).err().unwrap(), err);
}

#[test]
fn filesystem_plans_writes_and_resizes() {
    let mut ino = checked_out(100);
    let span = fs().write_span(&ino, 10, 4090).unwrap();
    assert_eq!(span.extend_to, Some(4090));
    assert_eq!((span.blocks.first, span.blocks.count, span.first_append), (0, 2, 1));
    let plan = fs().write_at(&mut ino, 10, 4090, &vec![3, 4]).ok().unwrap();
    assert_eq!(plan.len, 10);
    assert_eq!(ino.size(), 4100);
    assert_eq!(fs().set_len(&mut ino, 50), Ok(lwext4_rust::Resize::Truncate));
    assert_eq!(ino.size(), 50);
    let mut attr = lwext4_rust::FileAttr::default();
    assert_eq!(fs().get_attr(&ino, &mut attr), Ok(()));
    assert_eq!((attr.ino, attr.size, attr.block_size), (20, 50, 4096));
    assert_eq!(
        fs().set_symlink(&mut ino, b"target"),
        Ok(lwext4_rust::SymlinkStore::Inline)
    );
}

#[test]
fn filesystem_checks_directory_records() {
    let mut bad = entry(5, b"name");
    bad.name_len = 200;
    let err = fs().read_dir(inode(2, DIRECTORY, 2), 0, vec![bad.clone()]).err().unwrap();
    assert_eq!(err, Ext4Error { code: 5, context: Some("directory entry") });
    let err = fs().read_dir(inode(2, DIRECTORY, 2), u64::MAX, dots()).err().unwrap();
    assert_eq!(err, Ext4Error { code: 5, context: Some("directory entry") });
    assert_eq!(fs().lookup(inode(2, DIRECTORY, 2), 0, bad.clone()).err().unwrap(), err);
    assert_eq!(fs().unlink(2, "x", inode(21, DIRECTORY, 2), vec![bad.clone()]), Err(err));
    let missing = fs().lookup(inode(2, DIRECTORY, 2), 2, bad).err().unwrap();
    assert_eq!(missing, Ext4Error { code: 2, context: Some("ext4_dir_find_entry") });
    let reader = fs().read_dir(inode(2, DIRECTORY, 2), 24, dots()).ok().unwrap();
    assert_eq!(reader.offset(), 24);
    assert_eq!(reader.current().unwrap().name(), b".");
    let found = fs().lookup(inode(2, DIRECTORY, 2), 0, entry(7, b"seven")).ok().unwrap();
    assert_eq!(found.entry().ino(), 7);
}

#[test]
fn refresh_keeps_the_block_size() {
    let mut f = fs();
    let mut sb = superblock(2);
    sb.free_inodes_count = 1;
    assert_eq!(f.refresh(sb), Ok(()));
    assert_eq!(f.stat().unwrap().free_inodes_count, 1);
    assert_eq!(*f.superblock(), sb);
    let err = f.refresh(superblock(3)).err().unwrap();
    assert_eq!(err, Ext4Error { code: 95, context: Some("block size mismatch") });
    assert_eq!(f.stat().unwrap().block_size, 4096);
    assert_eq!(f.stat().unwrap().free_inodes_count, 1);
}

#[test]
fn mounting_goes_on_step_by_step() {
    let order = [
        MountStep::BlockInit,
        MountStep::WriteBackOn,
        MountStep::FsInit,
        MountStep::CacheInit,
        MountStep::CacheSizeCheck,
        MountStep::CacheBind,
    ];
    for pair in order.windows(2) {
        assert_eq!(mount_progress(pair[0], 0), MountOutcome::Next(pair[1]));
        assert_eq!(pair[0].next(), Some(pair[1]));
    }
    assert_eq!(mount_progress(MountStep::CacheBind, 0), MountOutcome::Mounted);
    assert_eq!(MountStep::CacheBind.next(), None);
}

#[test]
fn failed_mount_step_reports_its_label_and_what_to_undo() {
    assert_eq!(
        mount_progress(MountStep::FsInit, 5),
        MountOutcome::Failed {
            error: Ext4Error { code: 5, context: Some("ext4_fs_init") },
            undo: vec![Teardown::WriteBackOff, Teardown::BlockFini],
        }
    );
    assert_eq!(
        mount_progress(MountStep::CacheSizeCheck, 95),
        MountOutcome::Failed {
            error: Ext4Error { code: 95, context: Some("block size mismatch") },
            undo: unmount(),
        }
    );
    assert_eq!(
        mount_progress(MountStep::BlockInit, -1),
        MountOutcome::Failed {
            error: Ext4Error { code: -1, context: Some("ext4_block_init") },
            undo: vec![],
        }
    );
}
