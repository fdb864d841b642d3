use lwext4_rust::inode::file::BlockRequest;
use lwext4_rust::inode::layout::{bulk_window, check_addresses, coalesce, BulkWindow};
use lwext4_rust::{
    BlockSpan, DummyHal, InodeRef, RawInode, Resize, Segment, SegmentKind, Superblock,
    SymlinkStore,
};

fn superblock(log_block_size: u32) -> Superblock {
    Superblock {
        inodes_count: 128,
        free_inodes_count: 100,
        blocks_count_lo: 4096,
        blocks_count_hi: 0,
        free_blocks_count_lo: 1000,
        free_blocks_count_hi: 0,
        log_block_size,
        rev_level: 1,
        minor_rev_level: 0,
    }
}

fn inode(mode: u32, size: u64) -> InodeRef<DummyHal> {
    let raw = RawInode {
        mode,
        uid: 0,
        gid: 0,
        links_count: 1,
        size,
        blocks_count: 0,
        flags: 0x8_0000,
        access_time: 0,
        atime_extra: 0,
        modification_time: 0,
        mtime_extra: 0,
        change_inode_time: 0,
        ctime_extra: 0,
        blocks: vec![0xee; 60],
    };
    InodeRef::new(12, raw, superblock(0))
}

const REGULAR: u32 = 8 << 24;
const SYMLINK: u32 = 10 << 24;

fn seg(kind: SegmentKind, start: usize, len: usize) -> Segment {
    Segment { kind, start, len }
}

#[test]
fn coalesce_of_nothing_is_empty() {
    assert_eq!(coalesce(1024, 77, 0, &vec![], true), vec![]);
}

#[test]
fn coalesce_inside_one_block_is_one_bytewise_segment() {
    let segs = coalesce(1024, 100, 50, &vec![7], true);
    assert_eq!(segs, vec![seg(SegmentKind::Bytes { addr: 7 * 1024 + 100 }, 0, 50)]);
}

#[test]
fn coalesce_joins_blocks_that_follow_each_other() {
    let segs = coalesce(1024, 1000, 3000, &vec![5, 6, 7, 9], true);
    assert_eq!(
        segs,
        vec![
            seg(SegmentKind::Bytes { addr: 5 * 1024 + 1000 }, 0, 24),
            seg(SegmentKind::Blocks { fblock: 6, count: 2 }, 24, 2048),
            seg(SegmentKind::Bytes { addr: 9 * 1024 }, 2072, 928),
        ]
    );
}

#[test]
fn coalesce_breaks_runs_at_a_gap_on_the_device() {
    let segs = coalesce(1024, 0, 3072, &vec![3, 5, 6], true);
    assert_eq!(
        segs,
        vec![
            seg(SegmentKind::Blocks { fblock: 3, count: 1 }, 0, 1024),
            seg(SegmentKind::Blocks { fblock: 5, count: 2 }, 1024, 2048),
        ]
    );
}

#[test]
fn coalesce_reads_holes_as_segments_of_their_own() {
    let segs = coalesce(1024, 0, 5 * 1024, &vec![3, 0, 0, 4, 5], true);
    assert_eq!(
        segs,
        vec![
            seg(SegmentKind::Blocks { fblock: 3, count: 1 }, 0, 1024),
            seg(SegmentKind::Hole, 1024, 1024),
            seg(SegmentKind::Hole, 2048, 1024),
            seg(SegmentKind::Blocks { fblock: 4, count: 2 }, 3072, 2048),
        ]
    );
}

#[test]
fn coalesce_partial_hole_is_a_hole() {
    let segs = coalesce(1024, 10, 20, &vec![0], true);
    assert_eq!(segs, vec![seg(SegmentKind::Hole, 0, 20)]);
    let segs = coalesce(1024, 1024, 1030, &vec![0, 0], true);
    assert_eq!(segs, vec![seg(SegmentKind::Hole, 0, 1024), seg(SegmentKind::Hole, 1024, 6)]);
}

#[test]
fn coalesce_for_a_write_knows_no_holes() {
    let segs = coalesce(1024, 0, 2048, &vec![0, 1], false);
    assert_eq!(segs, vec![seg(SegmentKind::Blocks { fblock: 0, count: 2 }, 0, 2048)]);
}

#[test]
fn coalesce_ending_on_a_block_boundary_has_no_tail() {
    let segs = coalesce(4096, 4000, 96 + 4096, &vec![8, 9], true);
    assert_eq!(
        segs,
        vec![
            seg(SegmentKind::Bytes { addr: 8 * 4096 + 4000 }, 0, 96),
            seg(SegmentKind::Blocks { fblock: 9, count: 1 }, 96, 4096),
        ]
    );
}

#[test]
fn check_addresses_refuses_blocks_beyond_the_device_limit() {
    assert!(check_addresses(1024, &vec![0, 1, 1 << 40]));
    assert!(check_addresses(1024, &vec![(u64::MAX / 1024) - 1]));
    assert!(!check_addresses(1024, &vec![3, u64::MAX / 1024]));
    assert!(!check_addresses(1024, &vec![u64::MAX]));
}

#[test]
fn read_is_clamped_to_the_end_of_the_file() {
    let ino = inode(REGULAR, 5000);
    assert_eq!(ino.read_len(10000, 4000), 1000);
    assert_eq!(ino.read_len(10, 4000), 10);
    assert_eq!(ino.read_len(10, 5000), 0);
    assert_eq!(ino.read_len(10, 6000), 0);
    assert_eq!(ino.read_len(0, 0), 0);
    assert_eq!(ino.read_span(10000, 4000), BlockSpan { first: 3, count: 2 });
    let plan = ino.read_at(10000, 4000, &vec![10, 11]);
    assert_eq!(plan.len, 1000);
    assert_eq!(
        plan.segments,
        vec![
            seg(SegmentKind::Bytes { addr: 10 * 1024 + 928 }, 0, 96),
            seg(SegmentKind::Bytes { addr: 11 * 1024 }, 96, 904),
        ]
    );
}

#[test]
fn read_beyond_the_end_or_into_nothing_reads_nothing() {
    let ino = inode(REGULAR, 5000);
    assert_eq!(ino.read_span(100, 5000), BlockSpan { first: 0, count: 0 });
    let plan = ino.read_at(100, 5000, &vec![]);
    assert_eq!(plan.len, 0);
    assert!(plan.segments.is_empty());
    let plan = ino.read_at(0, 10, &vec![]);
    assert_eq!(plan.len, 0);
    assert!(plan.segments.is_empty());
}

#[test]
fn read_over_a_hole_zero_fills() {
    let ino = inode(REGULAR, 4096);
    let plan = ino.read_at(4096, 0, &vec![9, 0, 0, 10]);
    assert_eq!(plan.len, 4096);
    assert_eq!(
        plan.segments,
        vec![
            seg(SegmentKind::Blocks { fblock: 9, count: 1 }, 0, 1024),
            seg(SegmentKind::Hole, 1024, 1024),
            seg(SegmentKind::Hole, 2048, 1024),
            seg(SegmentKind::Blocks { fblock: 10, count: 1 }, 3072, 1024),
        ]
    );
}

#[test]
fn write_beyond_the_end_extends_the_file() {
    let mut ino = inode(REGULAR, 100);
    let span = ino.write_span(2048, 3000);
    assert_eq!(span.extend_to, Some(3000));
    assert_eq!(span.blocks, BlockSpan { first: 2, count: 3 });
    assert_eq!(span.first_append, 3);
    let plan = ino.write_at(2048, 3000, &vec![20, 21, 22]);
    assert_eq!(plan.len, 2048);
    assert_eq!(
        plan.segments,
        vec![
            seg(SegmentKind::Bytes { addr: 20 * 1024 + 952 }, 0, 72),
            seg(SegmentKind::Blocks { fblock: 21, count: 1 }, 72, 1024),
            seg(SegmentKind::Bytes { addr: 22 * 1024 }, 1096, 952),
        ]
    );
    assert_eq!(ino.size(), 5048);
    assert!(ino.dirty);
    assert_eq!(ino.read_len(2900, 100), 2900);
}

#[test]
fn write_inside_the_file_keeps_its_size() {
    let mut ino = inode(REGULAR, 5000);
    let span = ino.write_span(10, 1020);
    assert_eq!(span.extend_to, None);
    assert_eq!(span.blocks, BlockSpan { first: 0, count: 2 });
    assert_eq!(span.first_append, 5);
    let plan = ino.write_at(10, 1020, &vec![4, 8]);
    assert_eq!(
        plan.segments,
        vec![
            seg(SegmentKind::Bytes { addr: 4 * 1024 + 1020 }, 0, 4),
            seg(SegmentKind::Bytes { addr: 8 * 1024 }, 4, 6),
        ]
    );
    assert_eq!(ino.size(), 5000);
    assert!(!ino.dirty);
}

#[test]
fn empty_write_beyond_the_end_only_extends() {
    let mut ino = inode(REGULAR, 2048);
    let span = ino.write_span(0, 4096);
    assert_eq!(span.extend_to, Some(4096));
    assert_eq!(span.blocks, BlockSpan { first: 0, count: 0 });
    assert_eq!(span.first_append, 4);
    let plan = ino.write_at(0, 4096, &vec![]);
    assert_eq!(plan.len, 0);
    assert!(plan.segments.is_empty());
    assert_eq!(ino.size(), 4096);
    assert!(ino.dirty);
}

#[test]
fn written_range_reads_back_from_the_same_addresses() {
    let mut ino = inode(REGULAR, 0);
    let fblocks = vec![40, 41, 50, 51, 52];
    let written = ino.write_at(4500, 300, &fblocks).segments;
    let read = ino.read_at(4500, 300, &fblocks);
    assert_eq!(read.len, 4500);
    assert_eq!(read.segments, written);
}

#[test]
fn set_len_tells_shrinking_from_growing() {
    let mut ino = inode(REGULAR, 1000);
    assert_eq!(ino.set_len(1000), Resize::Unchanged);
    assert!(!ino.dirty);
    assert_eq!(ino.set_len(10), Resize::Truncate);
    assert_eq!(ino.size(), 10);
    assert_eq!(ino.set_len(5000), Resize::Extend);
    assert_eq!(ino.size(), 5000);
    assert!(ino.dirty);
}

#[test]
fn short_symlink_is_kept_in_the_inode() {
    let mut ino = inode(SYMLINK, 0);
    let target = b"/usr/lib/x";
    assert_eq!(ino.set_symlink(target), Ok(SymlinkStore::Inline));
    assert_eq!(ino.size(), 10);
    assert_eq!(ino.inode.flags, 0);
    assert_eq!(&ino.inode.blocks[..10], target);
    assert_eq!(&ino.inode.blocks[10..], &[0xee; 50][..]);
    assert!(ino.dirty);
    assert!(ino.is_inline_symlink());
    assert_eq!(ino.read_span(100, 0), BlockSpan { first: 0, count: 0 });
    let plan = ino.read_at(100, 3, &vec![]);
    assert_eq!(plan.len, 7);
    assert_eq!(plan.segments, vec![seg(SegmentKind::Inline { offset: 3 }, 0, 7)]);
    assert_eq!(ino.inline_bytes(3, 7), b"r/lib/x".to_vec());
}

#[test]
fn long_symlink_goes_to_a_block() {
    let mut ino = inode(SYMLINK, 0);
    let target = vec![b'a'; 60];
    assert_eq!(ino.set_symlink(&target), Ok(SymlinkStore::Block));
    assert_eq!(ino.size(), 60);
    assert_eq!(ino.inode.flags, 0x8_0000);
    assert_eq!(ino.inode.blocks, vec![0xee; 60]);
    assert!(!ino.is_inline_symlink());
    assert_eq!(
        ino.symlink_block(60, 33),
        seg(SegmentKind::Bytes { addr: 33 * 1024 }, 0, 60)
    );
    let target = vec![b'a'; 1024];
    assert_eq!(ino.set_symlink(&target), Ok(SymlinkStore::Block));
    assert_eq!(ino.size(), 1024);
}

#[test]
fn symlink_longer_than_a_block_is_refused() {
    let mut ino = inode(SYMLINK, 5);
    let target = vec![b'a'; 1025];
    let err = ino.set_symlink(&target).unwrap_err();
    assert_eq!(err.code, 36);
    assert_eq!(err.context, Some("symlink too long"));
    assert_eq!(ino.size(), 5);
    assert!(!ino.dirty);
}

#[test]
fn write_requests_tell_existing_blocks_from_new_ones() {
    let ino = inode(REGULAR, 2500);
    let span = ino.write_span(4096, 1024);
    assert_eq!(span.blocks, BlockSpan { first: 1, count: 4 });
    assert_eq!(span.first_append, 3);
    assert_eq!(span.request(0), BlockRequest::Init { block: 1 });
    assert_eq!(span.request(1), BlockRequest::Init { block: 2 });
    assert_eq!(span.request(2), BlockRequest::Append { expect: 3 });
    assert_eq!(span.request(3), BlockRequest::Append { expect: 4 });
}

#[test]
fn bulk_window_spans_the_whole_block_segments() {
    let segs = coalesce(1024, 1000, 5000, &vec![5, 6, 0, 7, 9, 10], true);
    assert_eq!(segs.len(), 6);
    assert_eq!(bulk_window(1024, &segs), BulkWindow { from: 1, to: 5 });
    let segs = coalesce(1024, 0, 2048, &vec![5, 6], true);
    assert_eq!(bulk_window(1024, &segs), BulkWindow { from: 0, to: 1 });
    let segs = coalesce(1024, 10, 20, &vec![5], true);
    assert_eq!(bulk_window(1024, &segs), BulkWindow { from: 1, to: 1 });
    assert_eq!(bulk_window(1024, &vec![]), BulkWindow { from: 0, to: 0 });
}

#[test]
fn inline_threshold_is_the_size_of_the_inode_body() {
    let mut ino = inode(SYMLINK, 0);
    assert_eq!(ino.set_symlink(&[b'x'; 59]), Ok(SymlinkStore::Inline));
    assert!(ino.is_inline_symlink());
    assert_eq!(&ino.inode.blocks[..59], &[b'x'; 59][..]);
    assert_eq!(ino.inode.blocks[59], 0xee);
    let plan = ino.read_at(59, 0, &vec![]);
    assert_eq!(plan.segments, vec![seg(SegmentKind::Inline { offset: 0 }, 0, 59)]);
    assert_eq!(ino.inline_bytes(0, 59), vec![b'x'; 59]);
    assert_eq!(ino.set_symlink(&[b'y'; 60]), Ok(SymlinkStore::Block));
    assert!(!ino.is_inline_symlink());
    assert_eq!(ino.read_span(60, 0), BlockSpan { first: 0, count: 1 });
    let plan = ino.read_at(60, 0, &vec![17]);
    assert_eq!(plan.segments, vec![seg(SegmentKind::Bytes { addr: 17 * 1024 }, 0, 60)]);
    let mut regular = inode(REGULAR, 10);
    regular.inode.size = 10;
    assert!(!regular.is_inline_symlink());
}
