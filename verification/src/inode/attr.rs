//! Inode attributes and the on-disk time format.

use core::time::Duration;
use vstd::prelude::*;

use crate::fs::SystemHal;
use crate::inode::{InodeRef, InodeType, RawInode};
use crate::util::get_block_size;

verus! {

/// Nanoseconds in a second.
pub const NANOS_PER_SEC: u32 = 1_000_000_000;

/// First second count that the on-disk format cannot hold: 32 bits and two
/// extension bits.
pub const TIME_SECS_LIMIT: u64 = 0x4_0000_0000;

/// The whole seconds of a duration: what `Duration::as_secs` returns.
pub uninterp spec fn duration_secs(d: Duration) -> u64;

/// The part of a duration below a second, in nanoseconds: what
/// `Duration::subsec_nanos` returns.
pub uninterp spec fn duration_subsec_nanos(d: Duration) -> u32;

/// `Duration::as_secs` returns the whole seconds of the duration.
pub assume_specification[ Duration::as_secs ](d: &Duration) -> (secs: u64)
    ensures
        secs == duration_secs(*d),
;

/// `Duration::subsec_nanos` returns the fractional part in nanoseconds,
/// which is below one second.
pub assume_specification[ Duration::subsec_nanos ](d: &Duration) -> (nanos: u32)
    ensures
        nanos == duration_subsec_nanos(*d),
        nanos < 1_000_000_000u32,
;

/// `Duration::new` builds the duration of `secs` seconds and `nanos`
/// nanoseconds, carrying whole seconds out of `nanos`; it needs the carry
/// not to overflow the seconds.
pub assume_specification[ Duration::new ](secs: u64, nanos: u32) -> (d: Duration)
    requires
        secs + nanos / 1_000_000_000u32 <= u64::MAX,
    ensures
        duration_secs(d) == secs + nanos / 1_000_000_000u32,
        duration_subsec_nanos(d) == nanos % 1_000_000_000u32,
;

/// Cloning a duration, which is a plain value, gives the same duration.
pub assume_specification[ <Duration as Clone>::clone ](d: &Duration) -> (r: Duration)
    ensures
        r == *d,
;

/// Filesystem node metadata.
#[derive(Clone, Debug)]
pub struct FileAttr {
    /// ID of device containing file
    pub device: u64,
    /// Inode number
    pub ino: u32,
    /// Number of hard links
    pub nlink: u64,
    /// Permission mode
    pub mode: u32,
    /// User ID of owner
    pub uid: u32,
    /// Group ID of owner
    pub gid: u32,
    /// Total size in bytes
    pub size: u64,
    /// Block size for filesystem I/O
    pub block_size: u64,
    /// Number of 512B blocks allocated
    pub blocks: u64,
    /// Time of last access
    pub atime: Duration,
    /// Time of last modification
    pub mtime: Duration,
    /// Time of last status change
    pub ctime: Duration,
}

impl Default for FileAttr {
    fn default() -> (a: Self)
        ensures
            a.device == 0,
            a.ino == 0,
            a.nlink == 0,
            a.mode == 0,
            a.uid == 0,
            a.gid == 0,
            a.size == 0,
            a.block_size == 0,
            a.blocks == 0,
            is_time(a.atime, 0, 0),
            is_time(a.mtime, 0, 0),
            is_time(a.ctime, 0, 0),
    {
        FileAttr {
            device: 0,
            ino: 0,
            nlink: 0,
            mode: 0,
            uid: 0,
            gid: 0,
            size: 0,
            block_size: 0,
            blocks: 0,
            atime: Duration::new(0, 0),
            mtime: Duration::new(0, 0),
            ctime: Duration::new(0, 0),
        }
    }
}

/// The duration is `secs` seconds and `nanos` nanoseconds.
pub open spec fn is_time(d: Duration, secs: int, nanos: int) -> bool {
    duration_secs(d) == secs && duration_subsec_nanos(d) == nanos
}

/// The seconds field of the on-disk pair: the low 32 bits of the seconds.
pub open spec fn encoded_secs(secs: u64) -> u32 {
    (secs % 0x1_0000_0000) as u32
}

/// The extra field of the on-disk pair: the nanoseconds in the upper 30
/// bits, bits 32 and 33 of the seconds in the lower two.
pub open spec fn encoded_extra(secs: u64, nanos: u32) -> u32 {
    ((nanos % 0x4000_0000) * 4 + (secs / 0x1_0000_0000) % 4) as u32
}

/// The seconds that an on-disk pair stands for.
pub open spec fn decoded_secs(time: u32, extra: u32) -> u64 {
    (time + (extra % 4) * 0x1_0000_0000) as u64
}

/// The nanoseconds that an on-disk pair stands for.
pub open spec fn decoded_nanos(extra: u32) -> u32 {
    extra / 4
}

/// The on-disk pair for `secs` seconds and `nanos` nanoseconds.
pub fn encode_parts(secs: u64, nanos: u32) -> (r: (u32, u32))
    ensures
        r.0 == encoded_secs(secs),
        r.1 == encoded_extra(secs, nanos),
{
    let time: u32 = (secs & 0xffff_ffff) as u32;
    let high: u32 = ((secs >> 32) & 3) as u32;
    let low: u32 = (nanos & 0x3fff_ffff) << 2;
    let extra: u32 = low | high;
    assert(secs & 0xffff_ffff == secs % 0x1_0000_0000) by (bit_vector);
    assert((secs >> 32) & 3 == (secs / 0x1_0000_0000) % 4) by (bit_vector);
    assert((nanos & 0x3fff_ffff) << 2 == (nanos % 0x4000_0000) * 4) by (bit_vector);
    assert(low | high == low + high) by (bit_vector)
        requires
            low == (nanos & 0x3fff_ffff) << 2,
            high < 4,
    ;
    assert(low + high <= u32::MAX) by (bit_vector)
        requires
            low == (nanos & 0x3fff_ffff) << 2,
            high < 4,
    ;
    (time, extra)
}

/// The seconds and nanoseconds that an on-disk pair stands for.
pub fn decode_parts(time: u32, extra: u32) -> (r: (u64, u32))
    ensures
        r.0 == decoded_secs(time, extra),
        r.1 == decoded_nanos(extra),
        r.0 < TIME_SECS_LIMIT,
{
    let epoch: u64 = (extra & 3) as u64;
    let nanos: u32 = extra >> 2;
    assert(extra & 3 == extra % 4) by (bit_vector);
    assert(extra >> 2 == extra / 4) by (bit_vector);
    assert(epoch << 32 == epoch * 0x1_0000_0000) by (bit_vector)
        requires
            epoch < 4,
    ;
    let secs: u64 = time as u64 + (epoch << 32);
    (secs, nanos)
}

/// Encoding a time and decoding the pair gives the time back, as long as the
/// seconds fit in 34 bits and the nanoseconds are below one second.
pub proof fn lemma_time_round_trip(secs: u64, nanos: u32)
    requires
        secs < TIME_SECS_LIMIT,
        nanos < NANOS_PER_SEC,
    ensures
        decoded_secs(encoded_secs(secs), encoded_extra(secs, nanos)) == secs,
        decoded_nanos(encoded_extra(secs, nanos)) == nanos,
{
}

/// The on-disk pair for a duration.
pub fn encode_time(dur: &Duration) -> (r: (u32, u32))
    ensures
        r.0 == encoded_secs(duration_secs(*dur)),
        r.1 == encoded_extra(duration_secs(*dur), duration_subsec_nanos(*dur)),
{
    encode_parts(dur.as_secs(), dur.subsec_nanos())
}

/// The duration that an on-disk pair stands for. A pair whose nanoseconds
/// reach a second, which no encoding produces, counts them into the
/// seconds.
pub fn decode_time(time: u32, extra: u32) -> (d: Duration)
    ensures
        is_decoded(d, time, extra),
{
    let (secs, nanos) = decode_parts(time, extra);
    Duration::new(secs, nanos)
}

/// Whether `d` is the duration that `decode_time` returns for an on-disk
/// pair.
pub open spec fn is_decoded(d: Duration, time: u32, extra: u32) -> bool {
    is_time(
        d,
        decoded_secs(time, extra) + decoded_nanos(extra) / NANOS_PER_SEC,
        (decoded_nanos(extra) % NANOS_PER_SEC) as int,
    )
}

/// A duration within the format's range survives encoding and decoding.
pub proof fn lemma_duration_round_trip(d: Duration)
    requires
        duration_secs(d) < TIME_SECS_LIMIT,
        duration_subsec_nanos(d) < NANOS_PER_SEC,
    ensures
        is_decoded(
            d,
            encoded_secs(duration_secs(d)),
            encoded_extra(duration_secs(d), duration_subsec_nanos(d)),
        ),
{
    lemma_time_round_trip(duration_secs(d), duration_subsec_nanos(d));
}

/// Which of an inode's three timestamps.
#[derive(Clone, Copy, Debug, PartialEq, Eq, Structural)]
pub enum TimeField {
    Access,
    Modification,
    Change,
}

/// The inode with one timestamp replaced by the on-disk pair of a time.
pub open spec fn with_time(inode: RawInode, field: TimeField, secs: u64, nanos: u32) -> RawInode {
    let time = encoded_secs(secs);
    let extra = encoded_extra(secs, nanos);
    match field {
        TimeField::Access => RawInode { access_time: time, atime_extra: extra, ..inode },
        TimeField::Modification => RawInode {
            modification_time: time,
            mtime_extra: extra,
            ..inode
        },
        TimeField::Change => RawInode { change_inode_time: time, ctime_extra: extra, ..inode },
    }
}

impl<Hal: SystemHal> InodeRef<Hal> {
    /// The type that the high byte of the mode stands for.
    pub open spec fn spec_inode_type(&self) -> InodeType {
        InodeType::of_code((self.inode.mode / 0x100_0000) as u8)
    }

    pub fn inode_type(&self) -> (t: InodeType)
        ensures
            t == self.spec_inode_type(),
    {
        let mode: u32 = self.inode.mode;
        assert(mode >> 24 == mode / 0x100_0000) by (bit_vector);
        assert(mode >> 24 <= 0xff) by (bit_vector);
        let code: u8 = (mode >> 24) as u8;
        InodeType::from(code)
    }

    pub fn is_dir(&self) -> (b: bool)
        ensures
            b == (self.spec_inode_type() == InodeType::Directory),
    {
        self.inode_type() == InodeType::Directory
    }

    pub fn size(&self) -> (n: u64)
        ensures
            n == self.inode.size,
    {
        self.inode.size
    }

    pub fn mode(&self) -> (m: u32)
        ensures
            m == self.inode.mode,
    {
        self.inode.mode
    }

    /// Replaces the mode and marks the inode dirty.
    pub fn set_mode(&mut self, mode: u32)
        ensures
            final(self).inode == (RawInode { mode, ..old(self).inode }),
            final(self).dirty,
            final(self).index == old(self).index,
            final(self).sb == old(self).sb,
    {
        self.inode.mode = mode;
        self.mark_dirty();
    }

    pub fn nlink(&self) -> (n: u16)
        ensures
            n == self.inode.links_count,
    {
        self.inode.links_count
    }

    pub fn uid(&self) -> (n: u16)
        ensures
            n == self.inode.uid,
    {
        self.inode.uid
    }

    pub fn gid(&self) -> (n: u16)
        ensures
            n == self.inode.gid,
    {
        self.inode.gid
    }

    /// Stores a time in one of the three timestamps and marks the inode
    /// dirty.
    pub fn set_time(&mut self, field: TimeField, dur: &Duration)
        ensures
            final(self).inode == with_time(
                old(self).inode,
                field,
                duration_secs(*dur),
                duration_subsec_nanos(*dur),
            ),
            final(self).dirty,
            final(self).index == old(self).index,
            final(self).sb == old(self).sb,
    {
        let (time, extra) = encode_time(dur);
        match field {
            TimeField::Access => {
                self.inode.access_time = time;
                self.inode.atime_extra = extra;
            },
            TimeField::Modification => {
                self.inode.modification_time = time;
                self.inode.mtime_extra = extra;
            },
            TimeField::Change => {
                self.inode.change_inode_time = time;
                self.inode.ctime_extra = extra;
            },
        }
        self.mark_dirty();
    }

    /// Sets the time of last access.
    pub fn set_atime(&mut self, dur: &Duration)
        ensures
            final(self).inode == with_time(
                old(self).inode,
                TimeField::Access,
                duration_secs(*dur),
                duration_subsec_nanos(*dur),
            ),
            final(self).dirty,
            final(self).index == old(self).index,
            final(self).sb == old(self).sb,
    {
        self.set_time(TimeField::Access, dur);
    }

    /// Sets the time of last modification.
    pub fn set_mtime(&mut self, dur: &Duration)
        ensures
            final(self).inode == with_time(
                old(self).inode,
                TimeField::Modification,
                duration_secs(*dur),
                duration_subsec_nanos(*dur),
            ),
            final(self).dirty,
            final(self).index == old(self).index,
            final(self).sb == old(self).sb,
    {
        self.set_time(TimeField::Modification, dur);
    }

    /// Sets the time of last status change.
    pub fn set_ctime(&mut self, dur: &Duration)
        ensures
            final(self).inode == with_time(
                old(self).inode,
                TimeField::Change,
                duration_secs(*dur),
                duration_subsec_nanos(*dur),
            ),
            final(self).dirty,
            final(self).index == old(self).index,
            final(self).sb == old(self).sb,
    {
        self.set_time(TimeField::Change, dur);
    }

    /// What a timestamp update leaves for a given reading of the clock: the
    /// time stored and the inode dirty, or, without a clock, nothing changed.
    pub open spec fn stamped(old_ref: Self, new_ref: Self, field: TimeField, now: Option<Duration>) -> bool {
        match now {
            Some(d) => {
                &&& new_ref.inode == with_time(
                    old_ref.inode,
                    field,
                    duration_secs(d),
                    duration_subsec_nanos(d),
                )
                &&& new_ref.dirty
                &&& new_ref.index == old_ref.index
                &&& new_ref.sb == old_ref.sb
            },
            None => new_ref == old_ref,
        }
    }

    /// Stores the given reading of the clock, if there is one, in a
    /// timestamp.
    pub fn stamp(&mut self, field: TimeField, now: Option<Duration>)
        ensures
            Self::stamped(*old(self), *final(self), field, now),
    {
        if let Some(dur) = now {
            self.set_time(field, &dur);
        }
    }

    /// Sets the time of last access to the system's clock, if it has one.
    pub fn update_atime(&mut self)
        ensures
            exists|now: Option<Duration>|
                Self::stamped(*old(self), *final(self), TimeField::Access, now),
    {
        let now = Hal::now();
        self.stamp(TimeField::Access, now);
    }

    /// Sets the time of last modification to the system's clock, if it has
    /// one.
    pub fn update_mtime(&mut self)
        ensures
            exists|now: Option<Duration>|
                Self::stamped(*old(self), *final(self), TimeField::Modification, now),
    {
        let now = Hal::now();
        self.stamp(TimeField::Modification, now);
    }

    /// Sets the time of last status change to the system's clock, if it has
    /// one.
    pub fn update_ctime(&mut self)
        ensures
            exists|now: Option<Duration>|
                Self::stamped(*old(self), *final(self), TimeField::Change, now),
    {
        let now = Hal::now();
        self.stamp(TimeField::Change, now);
    }

    /// Whether `attr` is the snapshot of this inode's metadata: the fields of
    /// the inode, the block size of its filesystem, and the three times
    /// decoded from their on-disk pairs.
    pub open spec fn described_by(&self, attr: FileAttr) -> bool {
        &&& attr.device == 0
        &&& attr.ino == self.index
        &&& attr.nlink == self.inode.links_count
        &&& attr.mode == self.inode.mode
        &&& attr.uid == self.inode.uid
        &&& attr.gid == self.inode.gid
        &&& attr.size == self.inode.size
        &&& attr.block_size == self.sb.block_size()
        &&& attr.blocks == self.inode.blocks_count
        &&& is_decoded(attr.atime, self.inode.access_time, self.inode.atime_extra)
        &&& is_decoded(attr.mtime, self.inode.modification_time, self.inode.mtime_extra)
        &&& is_decoded(attr.ctime, self.inode.change_inode_time, self.inode.ctime_extra)
    }

    /// Fills `attr` with a snapshot of this inode's metadata.
    pub fn get_attr(&self, attr: &mut FileAttr)
        requires
            self.sb.wf(),
        ensures
            self.described_by(*final(attr)),
    {
        attr.device = 0;
        attr.ino = self.index;
        attr.nlink = self.nlink() as u64;
        attr.mode = self.mode();
        attr.uid = self.uid() as u32;
        attr.gid = self.gid() as u32;
        attr.size = self.size();
        attr.block_size = get_block_size(&self.sb) as u64;
        attr.blocks = self.inode.blocks_count;
        attr.atime = decode_time(self.inode.access_time, self.inode.atime_extra);
        attr.mtime = decode_time(self.inode.modification_time, self.inode.mtime_extra);
        attr.ctime = decode_time(self.inode.change_inode_time, self.inode.ctime_extra);
    }
}

} // verus!
