//! Directory entries, directory readers and lookup results.

use vstd::prelude::*;

use crate::error::{check_status, Ext4Error, Ext4Result};
use crate::fs::SystemHal;
use crate::inode::{InodeRef, InodeType};
use crate::util::{revision_tuple, Superblock};

verus! {

/// Directory-entry type byte: unknown.
pub const EXT4_DE_UNKNOWN: u8 = 0;

/// Directory-entry type byte: regular file.
pub const EXT4_DE_REG_FILE: u8 = 1;

/// Directory-entry type byte: directory.
pub const EXT4_DE_DIR: u8 = 2;

/// Directory-entry type byte: character device.
pub const EXT4_DE_CHRDEV: u8 = 3;

/// Directory-entry type byte: block device.
pub const EXT4_DE_BLKDEV: u8 = 4;

/// Directory-entry type byte: fifo.
pub const EXT4_DE_FIFO: u8 = 5;

/// Directory-entry type byte: socket.
pub const EXT4_DE_SOCK: u8 = 6;

/// Directory-entry type byte: symlink.
pub const EXT4_DE_SYMLINK: u8 = 7;

/// Whether the filesystem's revision is older than 0.5. Such a filesystem
/// keeps no type byte in its directory entries; the low nibble of the byte
/// holds the high bits of the name's length instead.
pub open spec fn spec_wide_names(sb: Superblock) -> bool {
    sb.rev_level == 0 && sb.minor_rev_level < 5
}

pub fn wide_names(sb: &Superblock) -> (b: bool)
    ensures
        b == spec_wide_names(*sb),
{
    let (major, minor) = revision_tuple(sb);
    major == 0 && minor < 5
}

/// The type that a directory-entry type byte stands for.
pub open spec fn type_of_entry_code(code: u8) -> InodeType {
    if code == EXT4_DE_DIR {
        InodeType::Directory
    } else if code == EXT4_DE_REG_FILE {
        InodeType::RegularFile
    } else if code == EXT4_DE_SYMLINK {
        InodeType::Symlink
    } else if code == EXT4_DE_CHRDEV {
        InodeType::CharacterDevice
    } else if code == EXT4_DE_BLKDEV {
        InodeType::BlockDevice
    } else if code == EXT4_DE_FIFO {
        InodeType::Fifo
    } else if code == EXT4_DE_SOCK {
        InodeType::Socket
    } else {
        InodeType::Unknown
    }
}

/// The directory-entry type byte of an inode type.
pub open spec fn entry_code_of_type(ty: InodeType) -> u8 {
    match ty {
        InodeType::Fifo => EXT4_DE_FIFO,
        InodeType::CharacterDevice => EXT4_DE_CHRDEV,
        InodeType::Directory => EXT4_DE_DIR,
        InodeType::BlockDevice => EXT4_DE_BLKDEV,
        InodeType::RegularFile => EXT4_DE_REG_FILE,
        InodeType::Symlink => EXT4_DE_SYMLINK,
        InodeType::Socket => EXT4_DE_SOCK,
        InodeType::Unknown => EXT4_DE_UNKNOWN,
    }
}

/// The directory-entry type byte under which an inode of type `ty` is
/// allocated.
pub fn entry_type_code(ty: InodeType) -> (code: u8)
    ensures
        code == entry_code_of_type(ty),
        type_of_entry_code(code) == ty,
{
    match ty {
        InodeType::Fifo => EXT4_DE_FIFO,
        InodeType::CharacterDevice => EXT4_DE_CHRDEV,
        InodeType::Directory => EXT4_DE_DIR,
        InodeType::BlockDevice => EXT4_DE_BLKDEV,
        InodeType::RegularFile => EXT4_DE_REG_FILE,
        InodeType::Symlink => EXT4_DE_SYMLINK,
        InodeType::Socket => EXT4_DE_SOCK,
        InodeType::Unknown => EXT4_DE_UNKNOWN,
    }
}

/// One record of a directory, in host byte order.
#[derive(Clone, Debug)]
pub struct RawDirEntry {
    /// Number of the inode that the entry names; zero in an unused record.
    pub inode: u32,
    /// Length of the whole record in bytes.
    pub entry_len: u16,
    /// Low byte of the name's length.
    pub name_len: u8,
    /// The type byte, or in an old revision a nibble with the high bits of
    /// the name's length.
    pub type_or_high: u8,
    /// The bytes of the record from the name on.
    pub name: Vec<u8>,
}

impl RawDirEntry {
    /// Length of the name in a filesystem of the given superblock.
    pub open spec fn spec_name_len(&self, sb: Superblock) -> int {
        if spec_wide_names(sb) {
            self.name_len + 256 * (self.type_or_high % 16)
        } else {
            self.name_len as int
        }
    }

    /// The record holds all the bytes of its name.
    pub open spec fn wf(&self, sb: Superblock) -> bool {
        self.spec_name_len(sb) <= self.name@.len()
    }

    /// The name in a filesystem of the given superblock.
    pub open spec fn spec_name(&self, sb: Superblock) -> Seq<u8> {
        self.name@.subrange(0, self.spec_name_len(sb))
    }

    /// The type in a filesystem of the given superblock.
    pub open spec fn spec_inode_type(&self, sb: Superblock) -> InodeType {
        if spec_wide_names(sb) {
            InodeType::Unknown
        } else {
            type_of_entry_code(self.type_or_high)
        }
    }

    /// Length of the name: the length byte, and in an old revision the high
    /// nibble of the length from the type byte.
    pub fn name_length(&self, sb: &Superblock) -> (n: usize)
        ensures
            n == self.spec_name_len(*sb),
    {
        let low: usize = self.name_len as usize;
        if wide_names(sb) {
            let byte: u8 = self.type_or_high;
            let high: u8 = byte & 0x0f;
            assert(byte & 0x0f == byte % 16) by (bit_vector);
            low + 256 * (high as usize)
        } else {
            low
        }
    }

    /// Tests whether the record holds all the bytes of its name.
    pub fn holds_name(&self, sb: &Superblock) -> (b: bool)
        ensures
            b == self.wf(*sb),
    {
        let name_len = self.name_length(sb);
        name_len <= self.name.len()
    }

    pub fn ino(&self) -> (n: u32)
        ensures
            n == self.inode,
    {
        self.inode
    }

    pub fn set_ino(&mut self, ino: u32)
        ensures
            *final(self) == (RawDirEntry { inode: ino, ..*old(self) }),
    {
        self.inode = ino;
    }

    pub fn len(&self) -> (n: u16)
        ensures
            n == self.entry_len,
    {
        self.entry_len
    }

    /// The name: the first `name_length` bytes of the name area.
    pub fn name<'a>(&'a self, sb: &Superblock) -> (n: &'a [u8])
        requires
            self.wf(*sb),
        ensures
            n@ == self.spec_name(*sb),
    {
        let name_len = self.name_length(sb);
        vstd::slice::slice_subrange(self.name.as_slice(), 0, name_len)
    }

    /// The type: unknown in an old revision, else what the type byte says.
    pub fn inode_type(&self, sb: &Superblock) -> (t: InodeType)
        ensures
            t == self.spec_inode_type(*sb),
    {
        if wide_names(sb) {
            InodeType::Unknown
        } else {
            let code = self.type_or_high;
            if code == EXT4_DE_DIR {
                InodeType::Directory
            } else if code == EXT4_DE_REG_FILE {
                InodeType::RegularFile
            } else if code == EXT4_DE_SYMLINK {
                InodeType::Symlink
            } else if code == EXT4_DE_CHRDEV {
                InodeType::CharacterDevice
            } else if code == EXT4_DE_BLKDEV {
                InodeType::BlockDevice
            } else if code == EXT4_DE_FIFO {
                InodeType::Fifo
            } else if code == EXT4_DE_SOCK {
                InodeType::Socket
            } else {
                InodeType::Unknown
            }
        }
    }
}

/// A directory entry seen through the superblock of its filesystem.
pub struct DirEntry<'a> {
    pub inner: &'a RawDirEntry,
    pub sb: &'a Superblock,
}

impl<'a> DirEntry<'a> {
    pub fn ino(&self) -> (n: u32)
        ensures
            n == self.inner.inode,
    {
        self.inner.ino()
    }

    pub fn name(&self) -> (n: &[u8])
        requires
            self.inner.wf(*self.sb),
        ensures
            n@ == self.inner.spec_name(*self.sb),
    {
        self.inner.name(self.sb)
    }

    pub fn inode_type(&self) -> (t: InodeType)
        ensures
            t == self.inner.spec_inode_type(*self.sb),
    {
        self.inner.inode_type(self.sb)
    }

    pub fn len(&self) -> (n: u16)
        ensures
            n == self.inner.entry_len,
    {
        self.inner.len()
    }

    pub fn is_empty(&self) -> (b: bool)
        ensures
            b == (self.inner.entry_len == 0),
    {
        self.inner.len() == 0
    }

    pub fn raw_entry(&self) -> (e: &RawDirEntry)
        ensures
            *e == *self.inner,
    {
        self.inner
    }
}

/// Whether a name is `.` or `..`.
pub open spec fn is_dot_name(name: Seq<u8>) -> bool {
    name == seq![46u8] || name == seq![46u8, 46u8]
}

/// Tests whether a name is `.` or `..`.
pub fn dot_name(name: &[u8]) -> (b: bool)
    ensures
        b == is_dot_name(name@),
{
    let n = name.len();
    if n == 1 {
        let r = name[0] == 46u8;
        assert(r ==> name@ =~= seq![46u8]);
        assert(!r ==> name@[0] != seq![46u8][0]);
        r
    } else if n == 2 {
        let r = name[0] == 46u8 && name[1] == 46u8;
        assert(r ==> name@ =~= seq![46u8, 46u8]);
        assert(!r ==> name@[0] != seq![46u8, 46u8][0] || name@[1] != seq![46u8, 46u8][1]);
        r
    } else {
        assert(seq![46u8].len() == 1);
        assert(seq![46u8, 46u8].len() == 2);
        false
    }
}

/// Largest length of one directory record.
pub const MAX_ENTRY_LEN: u64 = 0xffff;

/// Index of the first record in use at or after `from`, or the number of
/// records where there is none.
pub open spec fn next_used(entries: Seq<RawDirEntry>, from: int) -> int
    decreases entries.len() - from,
{
    if from >= entries.len() {
        entries.len() as int
    } else if from >= 0 && entries[from].inode != 0 {
        from
    } else {
        next_used(entries, from + 1)
    }
}

/// Bytes that the first `index` records take.
pub open spec fn stream_offset(entries: Seq<RawDirEntry>, index: int) -> int
    decreases index,
{
    if index <= 0 {
        0
    } else {
        stream_offset(entries, index - 1) + entries[index - 1].entry_len
    }
}

/// The records up to `index` take at most `index` records of the largest
/// length.
proof fn lemma_stream_offset_bound(entries: Seq<RawDirEntry>, index: int)
    requires
        0 <= index <= entries.len(),
    ensures
        0 <= stream_offset(entries, index) <= MAX_ENTRY_LEN * index,
    decreases index,
{
    if index > 0 {
        lemma_stream_offset_bound(entries, index - 1);
    }
}

/// The next record in use lies at or after `from`, within the stream, and
/// every record passed on the way to it is unused.
pub proof fn lemma_next_used(entries: Seq<RawDirEntry>, from: int)
    requires
        0 <= from <= entries.len(),
    ensures
        from <= next_used(entries, from) <= entries.len(),
        next_used(entries, from) < entries.len() ==> entries[next_used(entries, from)].inode != 0,
        forall|j: int| from <= j < next_used(entries, from) ==> (#[trigger] entries[j]).inode == 0,
    decreases entries.len() - from,
{
    if from < entries.len() && entries[from].inode == 0 {
        lemma_next_used(entries, from + 1);
    }
}

/// The byte count of the first `k` records depends on those records alone.
proof fn lemma_stream_prefix(a: Seq<RawDirEntry>, b: Seq<RawDirEntry>, k: int)
    requires
        0 <= k <= a.len(),
        k <= b.len(),
        forall|j: int| 0 <= j < k ==> a[j] == b[j],
    ensures
        stream_offset(a, k) == stream_offset(b, k),
    decreases k,
{
    if k > 0 {
        lemma_stream_prefix(a, b, k - 1);
    }
}

/// Whether a record is an unused one without a name.
pub open spec fn is_filler(e: RawDirEntry) -> bool {
    e.inode == 0 && e.name_len == 0 && e.type_or_high == 0 && e.name@.len() == 0
}

/// The records of a directory from byte `start` up to byte `end`, gathered
/// from the records in use and their byte offsets.
pub struct DirStream {
    pub start: u64,
    pub end: u64,
    pub entries: Vec<RawDirEntry>,
}

impl DirStream {
    /// The records take the bytes from `start` to `end`.
    pub open spec fn wf(&self) -> bool {
        self.end == self.start + stream_offset(self.entries@, self.entries@.len() as int)
    }

    /// Whether the stream `after` is the stream `before` with the record
    /// `entry` added at byte `offset`: unused records fill the stretch in
    /// between, so that the record comes to stand at its offset.
    pub open spec fn extended(before: Self, after: Self, offset: u64, entry: RawDirEntry) -> bool {
        let n = before.entries@.len() as int;
        let m = after.entries@.len() as int;
        &&& after.wf()
        &&& after.start == before.start
        &&& after.end == offset + entry.entry_len
        &&& m > n
        &&& after.entries@.subrange(0, n) == before.entries@
        &&& after.entries@[m - 1] == entry
        &&& forall|j: int| n <= j < m - 1 ==> is_filler(#[trigger] after.entries@[j])
        &&& after.start + stream_offset(after.entries@, m - 1) == offset
    }

    /// An empty stream that starts at byte `start`.
    pub fn new(start: u64) -> (r: Self)
        ensures
            r.wf(),
            r.start == start,
            r.end == start,
            r.entries@.len() == 0,
    {
        DirStream { start, end: start, entries: Vec::new() }
    }

    /// Adds the record `entry`, found at byte `offset`. A record that starts
    /// before the end of the stream, or ends beyond 64-bit offsets, is not
    /// taken.
    pub fn push(&mut self, offset: u64, entry: RawDirEntry) -> (ok: bool)
        requires
            old(self).wf(),
        ensures
            ok == (old(self).end <= offset && offset + entry.entry_len <= u64::MAX),
            ok ==> Self::extended(*old(self), *final(self), offset, entry),
            !ok ==> *final(self) == *old(self),
    {
        if offset < self.end || entry.entry_len as u64 > u64::MAX - offset {
            return false;
        }
        let ghost n = self.entries@.len() as int;
        let mut gap: u64 = offset - self.end;
        assert(self.entries@.subrange(0, n) =~= old(self).entries@);
        while gap > 0
            invariant
                self.wf(),
                self.start == old(self).start,
                self.end + gap == offset,
                n == old(self).entries@.len(),
                self.entries@.len() >= n,
                self.entries@.subrange(0, n) == old(self).entries@,
                forall|j: int| n <= j < self.entries@.len() ==> is_filler(#[trigger] self.entries@[j]),
            decreases gap,
        {
            let len: u64 = if gap > MAX_ENTRY_LEN {
                MAX_ENTRY_LEN
            } else {
                gap
            };
            let filler = RawDirEntry {
                inode: 0,
                entry_len: len as u16,
                name_len: 0,
                type_or_high: 0,
                name: Vec::new(),
            };
            let ghost before = self.entries@;
            self.entries.push(filler);
            proof {
                lemma_stream_prefix(before, self.entries@, before.len() as int);
                assert(self.entries@.subrange(0, n) =~= before.subrange(0, n));
            }
            self.end = self.end + len;
            gap = gap - len;
        }
        let ghost before = self.entries@;
        self.end = offset + entry.entry_len as u64;
        self.entries.push(entry);
        proof {
            lemma_stream_prefix(before, self.entries@, before.len() as int);
            assert(self.entries@.subrange(0, n) =~= before.subrange(0, n));
        }
        true
    }
}

/// Whether the records, read from byte `offset` on, can be listed: each
/// holds its name, and their byte offsets fit in 64 bits.
pub open spec fn records_ok(sb: Superblock, offset: u64, entries: Seq<RawDirEntry>) -> bool {
    &&& offset + MAX_ENTRY_LEN * entries.len() <= u64::MAX
    &&& forall|j: int| 0 <= j < entries.len() ==> (#[trigger] entries[j]).wf(sb)
}

/// Tests whether the records can be listed.
pub fn check_records(sb: &Superblock, offset: u64, entries: &Vec<RawDirEntry>) -> (ok: bool)
    ensures
        ok == records_ok(*sb, offset, entries@),
{
    let n = entries.len();
    if (n as u64) > (u64::MAX - offset) / MAX_ENTRY_LEN {
        assert(offset + MAX_ENTRY_LEN * n > u64::MAX) by (nonlinear_arith)
            requires
                n > (u64::MAX - offset) / (MAX_ENTRY_LEN as int),
                MAX_ENTRY_LEN == 0xffff,
                0 <= offset <= u64::MAX,
        ;
        return false;
    }
    assert(offset + MAX_ENTRY_LEN * n <= u64::MAX) by (nonlinear_arith)
        requires
            n <= (u64::MAX - offset) / (MAX_ENTRY_LEN as int),
            MAX_ENTRY_LEN == 0xffff,
            0 <= offset <= u64::MAX,
    ;
    let mut k: usize = 0;
    while k < n
        invariant
            k <= n,
            n == entries@.len(),
            forall|j: int| 0 <= j < k ==> (#[trigger] entries@[j]).wf(*sb),
        decreases n - k,
    {
        if !entries[k].holds_name(sb) {
            return false;
        }
        k = k + 1;
    }
    true
}

/// Reader over the records of a directory from some byte offset on. It
/// stands at a record in use, or is exhausted.
pub struct DirReader<Hal: SystemHal> {
    pub parent: InodeRef<Hal>,
    /// The records from `start` on, in on-disk order.
    pub entries: Vec<RawDirEntry>,
    /// Byte offset of the first record.
    pub start: u64,
    /// Index of the record that the reader stands at.
    pub index: usize,
    /// Byte offset of that record.
    pub curr_off: u64,
}

impl<Hal: SystemHal> DirReader<Hal> {
    /// The reader stands at a record in use or at the end, knows that
    /// record's byte offset, and every record holds its name.
    pub open spec fn wf(&self) -> bool {
        &&& self.index <= self.entries@.len()
        &&& self.index < self.entries@.len() ==> self.entries@[self.index as int].inode != 0
        &&& self.curr_off == self.start + stream_offset(self.entries@, self.index as int)
        &&& self.start + MAX_ENTRY_LEN * self.entries@.len() <= u64::MAX
        &&& forall|j: int|
            0 <= j < self.entries@.len() ==> (#[trigger] self.entries@[j]).wf(self.parent.sb)
    }

    /// Whether this is the reader that `read_dir` opens on `parent` over the
    /// records `entries` from byte `offset` on: it stands at the first
    /// record in use.
    pub open spec fn opened_at(&self, parent: InodeRef<Hal>, offset: u64, entries: Vec<RawDirEntry>) -> bool {
        &&& self.wf()
        &&& self.parent == parent
        &&& self.entries == entries
        &&& self.start == offset
        &&& self.index == next_used(entries@, 0)
    }

    /// Whether the reader has passed its last record.
    pub open spec fn exhausted(&self) -> bool {
        self.index >= self.entries@.len()
    }

    /// Moves on over unused records and keeps the byte offset.
    fn skip_unused(&mut self)
        requires
            old(self).index <= old(self).entries@.len(),
            old(self).curr_off == old(self).start + stream_offset(
                old(self).entries@,
                old(self).index as int,
            ),
            old(self).start + MAX_ENTRY_LEN * old(self).entries@.len() <= u64::MAX,
            forall|j: int|
                0 <= j < old(self).entries@.len() ==> (#[trigger] old(self).entries@[j]).wf(
                    old(self).parent.sb,
                ),
        ensures
            final(self).wf(),
            final(self).index == next_used(old(self).entries@, old(self).index as int),
            final(self).entries == old(self).entries,
            final(self).parent == old(self).parent,
            final(self).start == old(self).start,
    {
        while self.index < self.entries.len() && self.entries[self.index].inode == 0
            invariant
                self.index <= self.entries@.len(),
                self.curr_off == self.start + stream_offset(self.entries@, self.index as int),
                self.start + MAX_ENTRY_LEN * self.entries@.len() <= u64::MAX,
                self.entries == old(self).entries,
                self.parent == old(self).parent,
                self.start == old(self).start,
                next_used(self.entries@, self.index as int) == next_used(
                    old(self).entries@,
                    old(self).index as int,
                ),
            decreases self.entries@.len() - self.index,
        {
            proof {
                lemma_stream_offset_bound(self.entries@, self.index + 1);
            }
            self.curr_off = self.curr_off + self.entries[self.index].entry_len as u64;
            self.index = self.index + 1;
        }
    }

    /// The entry that the reader stands at, or `None` once it is exhausted.
    pub fn current(&self) -> (r: Option<DirEntry<'_>>)
        requires
            self.wf(),
        ensures
            self.exhausted() ==> r is None,
            !self.exhausted() ==> r is Some && *r->0.inner == self.entries@[self.index as int]
                && *r->0.sb == self.parent.sb,
    {
        if self.index >= self.entries.len() {
            return None;
        }
        Some(DirEntry { inner: &self.entries[self.index], sb: &self.parent.sb })
    }

    /// Moves to the next record in use. An exhausted reader stays exhausted.
    pub fn step(&mut self) -> (r: Ext4Result<()>)
        requires
            old(self).wf(),
        ensures
            r is Ok,
            final(self).wf(),
            final(self).entries == old(self).entries,
            final(self).parent == old(self).parent,
            final(self).start == old(self).start,
            old(self).exhausted() ==> *final(self) == *old(self),
            !old(self).exhausted() ==> final(self).index == next_used(
                old(self).entries@,
                old(self).index + 1,
            ),
    {
        if self.index < self.entries.len() {
            proof {
                lemma_stream_offset_bound(self.entries@, self.index + 1);
            }
            self.curr_off = self.curr_off + self.entries[self.index].entry_len as u64;
            self.index = self.index + 1;
            self.skip_unused();
        }
        Ok(())
    }

    /// Byte offset of the record that the reader stands at, from which a
    /// later listing can go on.
    pub fn offset(&self) -> (n: u64)
        requires
            self.wf(),
        ensures
            n == self.start + stream_offset(self.entries@, self.index as int),
    {
        self.curr_off
    }
}

/// A directory entry found by name, together with the directory it was found
/// in.
pub struct DirLookupResult<Hal: SystemHal> {
    pub parent: InodeRef<Hal>,
    pub inner: RawDirEntry,
}

impl<Hal: SystemHal> DirLookupResult<Hal> {
    /// The entry found.
    pub fn entry(&self) -> (e: DirEntry<'_>)
        ensures
            *e.inner == self.inner,
            *e.sb == self.parent.sb,
    {
        DirEntry { inner: &self.inner, sb: &self.parent.sb }
    }
}

/// Whether some record in use has a name other than `.` and `..`.
pub open spec fn has_other_entry(entries: Seq<RawDirEntry>, sb: Superblock) -> bool {
    exists|k: int|
        0 <= k < entries.len() && (#[trigger] entries[k]).inode != 0 && !is_dot_name(
            entries[k].spec_name(sb),
        )
}

impl<Hal: SystemHal> InodeRef<Hal> {
    /// Opens a reader over the records of this directory that start at byte
    /// `offset`, given in on-disk order. The reader stands at the first
    /// record in use.
    pub fn read_dir(self, offset: u64, entries: Vec<RawDirEntry>) -> (r: DirReader<Hal>)
        requires
            offset + MAX_ENTRY_LEN * entries@.len() <= u64::MAX,
            forall|j: int| 0 <= j < entries@.len() ==> (#[trigger] entries@[j]).wf(self.sb),
        ensures
            r.opened_at(self, offset, entries),
    {
        let mut reader = DirReader { parent: self, entries, start: offset, index: 0, curr_off: offset };
        reader.skip_unused();
        reader
    }

    /// Wraps what a search of this directory for a name gave: the entry found
    /// where the status is zero, else the status as an error. A name that is
    /// not there comes back as the status for "not found".
    pub fn lookup(self, status: i32, found: RawDirEntry) -> (r: Ext4Result<DirLookupResult<Hal>>)
        ensures
            status == 0 ==> r == Ok::<DirLookupResult<Hal>, Ext4Error>(
                DirLookupResult { parent: self, inner: found },
            ),
            status != 0 ==> r == Err::<DirLookupResult<Hal>, Ext4Error>(
                Ext4Error { code: status, context: Some("ext4_dir_find_entry") },
            ),
    {
        match check_status(status, "ext4_dir_find_entry") {
            Ok(()) => Ok(DirLookupResult { parent: self, inner: found }),
            Err(e) => Err(e),
        }
    }

    /// Whether this is a directory that holds an entry other than `.` and
    /// `..`. `entries` are the records of the directory from its start.
    pub fn has_children(self, entries: Vec<RawDirEntry>) -> (r: Ext4Result<bool>)
        requires
            MAX_ENTRY_LEN * entries@.len() <= u64::MAX,
            forall|j: int| 0 <= j < entries@.len() ==> (#[trigger] entries@[j]).wf(self.sb),
        ensures
            r == Ok::<bool, Ext4Error>(
                self.spec_inode_type() == InodeType::Directory && has_other_entry(
                    entries@,
                    self.sb,
                ),
            ),
    {
        if self.inode_type() != InodeType::Directory {
            return Ok(false);
        }
        let ghost sb = self.sb;
        let ghost is_dir = self.spec_inode_type() == InodeType::Directory;
        let mut reader = self.read_dir(0, entries);
        proof {
            lemma_next_used(entries@, 0);
        }
        loop
            invariant
                is_dir,
                is_dir == (self.spec_inode_type() == InodeType::Directory),
                sb == self.sb,
                reader.wf(),
                reader.entries == entries,
                reader.parent.sb == sb,
                forall|j: int|
                    0 <= j < reader.index ==> (#[trigger] entries@[j]).inode == 0 || is_dot_name(
                        entries@[j].spec_name(sb),
                    ),
            decreases entries@.len() - reader.index,
        {
            let ghost at = reader.index as int;
            let other = match reader.current() {
                None => {
                    return Ok(false);
                },
                Some(curr) => !dot_name(curr.name()),
            };
            if other {
                assert(entries@[at].inode != 0 && !is_dot_name(entries@[at].spec_name(sb)));
                return Ok(true);
            }
            proof {
                lemma_next_used(entries@, at + 1);
            }
            match reader.step() {
                Ok(()) => {},
                Err(e) => {
                    return Err(e);
                },
            }
        }
    }
}

} // verus!
