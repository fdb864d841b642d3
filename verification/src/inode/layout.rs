//! Byte ranges of a file cut into the fewest engine calls.

use vstd::prelude::*;

verus! {

/// How one stretch of the caller's buffer is served.
#[derive(Clone, Copy, Debug, PartialEq, Eq, Structural)]
pub enum SegmentKind {
    /// Content kept in the inode body itself, from byte `offset` of it.
    Inline { offset: u64 },
    /// An unmapped block: the stretch is filled with zeros.
    Hole,
    /// Part of one block, moved byte-wise at device byte address `addr`.
    Bytes { addr: u64 },
    /// `count` whole blocks that lie next to each other on the device, moved
    /// in one call, starting at physical block `fblock`.
    Blocks { fblock: u64, count: u32 },
}

/// The stretch `[start, start + len)` of the caller's buffer and how it is
/// served.
#[derive(Clone, Copy, Debug, PartialEq, Eq, Structural)]
pub struct Segment {
    pub kind: SegmentKind,
    pub start: usize,
    pub len: usize,
}

/// A byte range of a file, the physical block of each logical block it
/// touches, and whether physical block zero stands for a hole.
pub struct Layout {
    pub block_size: int,
    pub pos: int,
    pub len: int,
    pub fblocks: Seq<u64>,
    pub holes: bool,
}

/// Number of logical blocks that the range `[pos, pos + len)` touches.
pub open spec fn blocks_touched(block_size: int, pos: int, len: int) -> int {
    if len <= 0 {
        0
    } else {
        (pos + len - 1) / block_size - pos / block_size + 1
    }
}

impl Layout {
    /// The range is well formed, every touched block has its physical block,
    /// and every byte address on the device fits in 64 bits.
    #[verifier::opaque]
    pub open spec fn wf(&self) -> bool {
        &&& self.block_size > 0
        &&& self.pos >= 0
        &&& self.len >= 0
        &&& self.fblocks.len() == blocks_touched(self.block_size, self.pos, self.len)
        &&& forall|k: int|
            0 <= k < self.fblocks.len() ==> (#[trigger] self.fblocks[k]) * self.block_size
                + self.block_size <= u64::MAX
    }

    /// Index, among the touched blocks, of the block that holds buffer byte
    /// `i`.
    #[verifier::opaque]
    pub open spec fn block_index(&self, i: int) -> int {
        (self.pos + i) / self.block_size - self.pos / self.block_size
    }

    /// Buffer byte `i` is the first byte of a block.
    #[verifier::opaque]
    pub open spec fn aligned(&self, i: int) -> bool {
        (self.pos + i) % self.block_size == 0
    }

    /// Physical block behind buffer byte `i`.
    pub open spec fn fblock_at(&self, i: int) -> u64 {
        self.fblocks[self.block_index(i)]
    }

    /// Device byte address of buffer byte `i`, or `None` where the byte lies
    /// in a hole.
    #[verifier::opaque]
    pub open spec fn byte_addr(&self, i: int) -> Option<int> {
        let f = self.fblock_at(i);
        if self.holes && f == 0 {
            None
        } else {
            Some(f * self.block_size + (self.pos + i) % self.block_size)
        }
    }

    /// First buffer byte that lies in the same block as buffer byte `i`.
    #[verifier::opaque]
    pub open spec fn slice_start(&self, i: int) -> int {
        let b = (self.pos + i) / self.block_size;
        if b * self.block_size - self.pos > 0 {
            b * self.block_size - self.pos
        } else {
            0
        }
    }

    /// One past the last buffer byte that lies in the same block as buffer
    /// byte `i`.
    #[verifier::opaque]
    pub open spec fn slice_end(&self, i: int) -> int {
        let b = (self.pos + i) / self.block_size;
        if (b + 1) * self.block_size - self.pos < self.len {
            (b + 1) * self.block_size - self.pos
        } else {
            self.len
        }
    }

    /// The segment is exactly the part of the buffer that lies in one block.
    pub open spec fn is_block_slice(&self, s: Segment) -> bool {
        &&& s.start as int == self.slice_start(s.start as int)
        &&& s.start + s.len == self.slice_end(s.start as int)
    }

    /// The segment lies in the buffer and serves its stretch from where the
    /// layout says the bytes are: a hole only for an unmapped block, a
    /// byte-wise transfer only for a block that the range covers in part, a
    /// bulk transfer for whole blocks that follow each other on the device.
    #[verifier::opaque]
    pub open spec fn segment_ok(&self, s: Segment) -> bool {
        &&& s.len > 0
        &&& s.start + s.len <= self.len
        &&& match s.kind {
            SegmentKind::Inline { .. } => false,
            SegmentKind::Hole => {
                &&& self.holes
                &&& self.is_block_slice(s)
                &&& self.fblock_at(s.start as int) == 0
            },
            SegmentKind::Bytes { addr } => {
                &&& self.is_block_slice(s)
                &&& s.len < self.block_size
                &&& self.byte_addr(s.start as int) == Some(addr as int)
            },
            SegmentKind::Blocks { fblock, count } => {
                &&& self.aligned(s.start as int)
                &&& count >= 1
                &&& s.len == count * self.block_size
                &&& forall|c: int|
                    0 <= c < count ==> #[trigger] self.fblocks[self.block_index(s.start as int)
                        + c] == fblock + c
                &&& self.holes ==> fblock != 0
            },
        }
    }
}

/// The segments follow each other without gap or overlap and cover the
/// buffer bytes `[0, len)`.
pub open spec fn segments_tile(segs: Seq<Segment>, len: int) -> bool {
    &&& forall|j: int| 0 <= j < segs.len() ==> (#[trigger] segs[j]).len > 0
    &&& forall|i: int, j: int|
        0 <= i && j == i + 1 && j < segs.len() ==> (#[trigger] segs[i]).start + segs[i].len == (
        #[trigger] segs[j]).start
    &&& if segs.len() == 0 {
        len == 0
    } else {
        segs[0].start == 0 && segs[segs.len() - 1].start + segs[segs.len() - 1].len == len
    }
}

/// Whether segment `b` may come right after segment `a`: two bulk runs may
/// not, where the second starts at the physical block after the first's
/// last, for they would have been one run.
pub open spec fn may_follow(a: Segment, b: Segment) -> bool {
    match (a.kind, b.kind) {
        (
            SegmentKind::Blocks { fblock: f1, count: c1 },
            SegmentKind::Blocks { fblock: f2, .. },
        ) => f1 + c1 != f2,
        _ => true,
    }
}

/// No two neighbouring bulk transfers could have been one.
pub open spec fn runs_maximal(segs: Seq<Segment>) -> bool {
    forall|i: int, j: int|
        0 <= i && j == i + 1 && j < segs.len() ==> may_follow(#[trigger] segs[i], #[trigger] segs[j])
}

/// The plan that `coalesce` owes for a layout: segments that tile the
/// buffer, each served from the right place, with bulk runs as long as they
/// can be.
pub open spec fn is_plan(layout: Layout, segs: Seq<Segment>) -> bool {
    &&& segments_tile(segs, layout.len)
    &&& forall|j: int| 0 <= j < segs.len() ==> layout.segment_ok(#[trigger] segs[j])
    &&& runs_maximal(segs)
}

/// The layout that `coalesce` works on.
pub open spec fn layout_of(
    block_size: u32,
    pos: u64,
    len: usize,
    fblocks: Seq<u64>,
    holes: bool,
) -> Layout {
    Layout { block_size: block_size as int, pos: pos as int, len: len as int, fblocks, holes }
}

/// Division with remainder, read from the quotient and the remainder.
pub(crate) proof fn lemma_div_mod_of(x: int, d: int, q: int, r: int)
    requires
        d > 0,
        0 <= r < d,
        x == q * d + r,
    ensures
        x / d == q,
        x % d == r,
{
    vstd::arithmetic::div_mod::lemma_fundamental_div_mod_converse(x, d, q, r);
}

/// Division with remainder, read from the dividend.
pub(crate) proof fn lemma_split(x: int, d: int)
    requires
        d > 0,
    ensures
        x == (x / d) * d + x % d,
        0 <= x % d < d,
{
    vstd::arithmetic::div_mod::lemma_fundamental_div_mod(x, d);
    vstd::arithmetic::div_mod::lemma_mod_bound(x, d);
    assert(d * (x / d) == (x / d) * d) by (nonlinear_arith);
}

/// A byte of the range lies in a touched block.
proof fn lemma_block_in_range(l: Layout, i: int)
    requires
        l.wf(),
        0 <= i < l.len,
    ensures
        0 <= l.block_index(i) < l.fblocks.len(),
{
    reveal(Layout::wf);
    reveal(Layout::block_index);
    vstd::arithmetic::div_mod::lemma_div_is_ordered(l.pos, l.pos + i, l.block_size);
    vstd::arithmetic::div_mod::lemma_div_is_ordered(l.pos + i, l.pos + l.len - 1, l.block_size);
}

/// Adding a segment that starts where the plan so far ends, and that is not
/// a bulk run continuing the last one, keeps the plan a plan.
proof fn lemma_plan_push(l: Layout, segs: Seq<Segment>, end: int, s: Segment)
    requires
        segments_tile(segs, end),
        forall|j: int| 0 <= j < segs.len() ==> l.segment_ok(#[trigger] segs[j]),
        runs_maximal(segs),
        l.segment_ok(s),
        s.start == end,
        segs.len() > 0 ==> may_follow(segs[segs.len() - 1], s),
    ensures
        segments_tile(segs.push(s), end + s.len),
        forall|j: int| 0 <= j < segs.push(s).len() ==> l.segment_ok(#[trigger] segs.push(s)[j]),
        runs_maximal(segs.push(s)),
{
    let t = segs.push(s);
    assert(s.len > 0) by {
        reveal(Layout::segment_ok);
    }
    assert forall|i: int, j: int| 0 <= i && j == i + 1 && j < t.len() implies (#[trigger] t[i]).start
        + t[i].len == (#[trigger] t[j]).start && may_follow(t[i], t[j]) by {
        assert(t[i] == segs[i]);
        if j < segs.len() {
            assert(t[j] == segs[j]);
        }
    }
}

/// The first segment of a range that starts inside a block: it ends with
/// that block or with the range, whichever comes first.
proof fn lemma_first_partial(l: Layout, s: Segment, addr: int)
    requires
        l.wf(),
        l.len > 0,
        l.pos % l.block_size > 0,
        s.start == 0,
        s.len == if l.len < l.block_size - l.pos % l.block_size {
            l.len
        } else {
            l.block_size - l.pos % l.block_size
        },
        addr == l.fblocks[0] * l.block_size + l.pos % l.block_size,
        s.kind == if l.holes && l.fblocks[0] == 0 {
            SegmentKind::Hole
        } else {
            SegmentKind::Bytes { addr: addr as u64 }
        },
        0 <= addr <= u64::MAX,
    ensures
        l.segment_ok(s),
        s.len < l.len ==> l.aligned(s.len as int) && l.block_index(s.len as int) == 1,
{
    reveal(Layout::wf);
    reveal(Layout::block_index);
    reveal(Layout::byte_addr);
    reveal(Layout::slice_start);
    reveal(Layout::slice_end);
    reveal(Layout::segment_ok);
    reveal(Layout::aligned);
    let bs = l.block_size;
    let b = l.pos / bs;
    lemma_split(l.pos, bs);
    assert((b + 1) * bs == b * bs + bs) by (nonlinear_arith);
    assert(l.block_index(0) == 0);
    assert(l.is_block_slice(s));
    if s.len < l.len {
        lemma_div_mod_of(l.pos + s.len, bs, b + 1, 0);
    }
}

/// What holds at a block boundary `at` of the buffer: the block there is a
/// touched one, and the part of the buffer in that block starts at `at`.
proof fn lemma_boundary(l: Layout, at: int)
    requires
        l.wf(),
        0 <= at < l.len,
        l.aligned(at),
    ensures
        0 <= l.block_index(at) < l.fblocks.len(),
        l.slice_start(at) == at,
        at + l.block_size <= l.len ==> l.slice_end(at) == at + l.block_size,
        at + l.block_size > l.len ==> l.slice_end(at) == l.len,
        l.aligned(at + l.block_size),
        at + l.block_size < l.len ==> l.block_index(at + l.block_size) == l.block_index(at) + 1,
        l.byte_addr(at) == if l.holes && l.fblock_at(at) == 0 {
            None
        } else {
            Some(l.fblock_at(at) * l.block_size)
        },
{
    lemma_block_in_range(l, at);
    reveal(Layout::wf);
    reveal(Layout::block_index);
    reveal(Layout::byte_addr);
    reveal(Layout::slice_start);
    reveal(Layout::slice_end);
    reveal(Layout::aligned);
    let bs = l.block_size;
    let b = (l.pos + at) / bs;
    lemma_split(l.pos + at, bs);
    assert((b + 1) * bs == b * bs + bs) by (nonlinear_arith);
    lemma_div_mod_of(l.pos + at + bs, bs, b + 1, 0);
}

/// A whole unmapped block at a block boundary is a sound hole segment.
proof fn lemma_hole_block(l: Layout, s: Segment)
    requires
        l.wf(),
        l.holes,
        l.aligned(s.start as int),
        s.start + l.block_size <= l.len,
        s.len == l.block_size,
        s.kind == SegmentKind::Hole,
        l.fblock_at(s.start as int) == 0,
    ensures
        l.segment_ok(s),
{
    reveal(Layout::wf);
    reveal(Layout::segment_ok);
    lemma_boundary(l, s.start as int);
}

/// The last segment of a range that ends inside a block.
proof fn lemma_last_partial(l: Layout, s: Segment, addr: int)
    requires
        l.wf(),
        s.start < l.len,
        l.aligned(s.start as int),
        s.start + s.len == l.len,
        s.len < l.block_size,
        addr == l.fblock_at(s.start as int) * l.block_size,
        0 <= addr <= u64::MAX,
        s.kind == if l.holes && l.fblock_at(s.start as int) == 0 {
            SegmentKind::Hole
        } else {
            SegmentKind::Bytes { addr: addr as u64 }
        },
    ensures
        l.segment_ok(s),
{
    reveal(Layout::segment_ok);
    lemma_boundary(l, s.start as int);
}

/// The device addresses of a block fit in 64 bits, and so does the number of
/// the block after it.
proof fn lemma_fblock_fits(l: Layout, k: int)
    requires
        l.wf(),
        0 <= k < l.fblocks.len(),
    ensures
        0 <= l.fblocks[k] * l.block_size <= u64::MAX - l.block_size,
        l.fblocks[k] + 1 <= u64::MAX,
{
    reveal(Layout::wf);
    let f = l.fblocks[k] as int;
    let bs = l.block_size;
    assert(f * bs + bs <= u64::MAX);
    assert(0 <= f * bs && f + 1 <= f * bs + bs) by (nonlinear_arith)
        requires
            f >= 0,
            bs > 0,
    ;
}

/// The bulk segment that stands for a run of `count` blocks which ends at
/// the buffer byte `done` and takes `run_len` bytes of the buffer.
spec fn run_segment(run_start: u64, count: u32, done: int, run_len: int) -> Segment {
    Segment {
        kind: SegmentKind::Blocks { fblock: run_start, count },
        start: (done - run_len) as usize,
        len: run_len as usize,
    }
}

/// A run of whole blocks grows by the block at the boundary `done`, which
/// lies on the device right after the run's last block (or starts a run).
proof fn lemma_run_grows(l: Layout, run_start: u64, run_count: u32, done: int, run_len: int)
    requires
        l.wf(),
        l.len <= usize::MAX,
        0 <= run_len <= done,
        done + l.block_size <= l.len,
        l.aligned(done),
        run_count < u32::MAX,
        l.fblock_at(done) == run_start + run_count,
        !(l.holes && l.fblock_at(done) == 0),
        run_count == 0 ==> run_len == 0,
        run_count > 0 ==> l.segment_ok(run_segment(run_start, run_count, done, run_len))
            && l.block_index(done - run_len) + run_count == l.block_index(done),
    ensures
        l.segment_ok(
            run_segment(
                run_start,
                (run_count + 1) as u32,
                done + l.block_size,
                run_len + l.block_size,
            ),
        ),
        l.block_index(done - run_len) + run_count == l.block_index(done),
{
    reveal(Layout::wf);
    reveal(Layout::segment_ok);
    let bs = l.block_size;
    assert((run_count + 1) * bs == run_count * bs + bs) by (nonlinear_arith);
    assert(0 * bs == 0) by (nonlinear_arith);
    let base = l.block_index(done - run_len);
    assert forall|c: int| 0 <= c < run_count + 1 implies #[trigger] l.fblocks[base + c]
        == run_start + c by {
        if c < run_count {
        } else {
            assert(base + c == l.block_index(done));
        }
    }
}

/// Cuts the buffer bytes `[0, len)`, which stand for the file bytes
/// `[pos, pos + len)`, into segments. `fblocks` holds the physical block of
/// each logical block that the range touches, in order. A block that the
/// range covers in part becomes a byte-wise segment; whole blocks become bulk
/// segments, one for each longest run of blocks that follow each other on the
/// device. With `holes` set, physical block zero stands for an unmapped block
/// and becomes a hole segment of its own.
pub fn coalesce(block_size: u32, pos: u64, len: usize, fblocks: &Vec<u64>, holes: bool) -> (segs:
    Vec<Segment>)
    requires
        layout_of(block_size, pos, len, fblocks@, holes).wf(),
        pos + len <= u64::MAX,
        fblocks@.len() <= u32::MAX,
    ensures
        is_plan(layout_of(block_size, pos, len, fblocks@, holes), segs@),
{
    let ghost l = layout_of(block_size, pos, len, fblocks@, holes);
    let bs: usize = block_size as usize;
    let bs64: u64 = block_size as u64;
    let mut segs: Vec<Segment> = Vec::new();
    if len == 0 {
        return segs;
    }
    assert(bs > 0) by {
        reveal(Layout::wf);
    }
    let mut done: usize = 0;
    let mut k: usize = 0;
    let offset: u64 = pos % bs64;
    proof {
        lemma_block_in_range(l, 0);
        lemma_fblock_fits(l, 0);
        if offset == 0 {
            assert(l.aligned(0)) by {
                reveal(Layout::aligned);
            }
            assert(l.block_index(0) == 0) by {
                reveal(Layout::block_index);
            }
        }
    }
    if offset > 0 {
        let room: usize = (bs64 - offset) as usize;
        let m: usize = if len < room {
            len
        } else {
            room
        };
        let f: u64 = fblocks[0];
        let addr: u64 = f * bs64 + offset;
        let kind = if holes && f == 0 {
            SegmentKind::Hole
        } else {
            SegmentKind::Bytes { addr }
        };
        let s = Segment { kind, start: 0, len: m };
        proof {
            lemma_first_partial(l, s, addr as int);
            lemma_plan_push(l, segs@, 0, s);
        }
        segs.push(s);
        done = m;
        k = 1;
    }
    let mut run_start: u64 = 0;
    let mut run_count: u32 = 0;
    let mut run_len: usize = 0;
    while len - done >= bs
        invariant
            l == layout_of(block_size, pos, len, fblocks@, holes),
            l.wf(),
            fblocks@.len() <= u32::MAX,
            bs == block_size,
            bs > 0,
            done <= len,
            k <= fblocks@.len(),
            run_count <= k,
            run_len <= done,
            done == len || l.aligned(done as int),
            done < len ==> k as int == l.block_index(done as int),
            run_count == 0 ==> run_len == 0 && (segs@.len() == 0 || !(segs@[segs@.len()
                - 1].kind is Blocks)),
            run_count > 0 ==> l.segment_ok(
                run_segment(run_start, run_count, done as int, run_len as int),
            ) && l.block_index(done - run_len) + run_count == k && run_start + run_count
                <= u64::MAX,
            run_count > 0 && segs@.len() > 0 ==> match segs@[segs@.len() - 1].kind {
                SegmentKind::Blocks { fblock: f1, count: c1 } => f1 + c1 != run_start,
                _ => true,
            },
            segments_tile(segs@, done - run_len),
            forall|j: int| 0 <= j < segs@.len() ==> l.segment_ok(#[trigger] segs@[j]),
            runs_maximal(segs@),
        decreases len - done,
    {
        proof {
            lemma_boundary(l, done as int);
            lemma_fblock_fits(l, k as int);
        }
        let f: u64 = fblocks[k];
        if f != run_start + run_count as u64 {
            if run_count > 0 {
                let s = Segment {
                    kind: SegmentKind::Blocks { fblock: run_start, count: run_count },
                    start: done - run_len,
                    len: run_len,
                };
                proof {
                    lemma_plan_push(l, segs@, done - run_len, s);
                }
                segs.push(s);
            }
            run_start = f;
            run_count = 0;
            run_len = 0;
        }
        if holes && f == 0 {
            let s = Segment { kind: SegmentKind::Hole, start: done, len: bs };
            proof {
                lemma_hole_block(l, s);
                lemma_plan_push(l, segs@, done as int, s);
            }
            segs.push(s);
        } else {
            proof {
                lemma_run_grows(l, run_start, run_count, done as int, run_len as int);
            }
            run_count = run_count + 1;
            run_len = run_len + bs;
        }
        done = done + bs;
        k = k + 1;
    }
    if run_count > 0 {
        let s = Segment {
            kind: SegmentKind::Blocks { fblock: run_start, count: run_count },
            start: done - run_len,
            len: run_len,
        };
        proof {
            lemma_plan_push(l, segs@, done - run_len, s);
        }
        segs.push(s);
    }
    if done < len {
        proof {
            lemma_boundary(l, done as int);
            lemma_fblock_fits(l, k as int);
        }
        let f: u64 = fblocks[k];
        let addr: u64 = f * bs64;
        let kind = if holes && f == 0 {
            SegmentKind::Hole
        } else {
            SegmentKind::Bytes { addr }
        };
        let s = Segment { kind, start: done, len: len - done };
        proof {
            lemma_last_partial(l, s, addr as int);
            lemma_plan_push(l, segs@, done as int, s);
        }
        segs.push(s);
    }
    segs
}

/// Device byte address that a segment gives to buffer byte `i` of its
/// stretch, or `None` where the segment moves nothing from the device.
pub open spec fn segment_addr(block_size: int, s: Segment, i: int) -> Option<int> {
    match s.kind {
        SegmentKind::Inline { .. } => None,
        SegmentKind::Hole => None,
        SegmentKind::Bytes { addr } => Some(addr + (i - s.start)),
        SegmentKind::Blocks { fblock, .. } => Some(fblock * block_size + (i - s.start)),
    }
}

/// A buffer byte in the same block-slice as `at` lies in the same block.
proof fn lemma_same_block(l: Layout, at: int, i: int)
    requires
        l.wf(),
        0 <= at < l.len,
        l.slice_start(at) <= i < l.slice_end(at),
    ensures
        l.block_index(i) == l.block_index(at),
        (l.pos + i) % l.block_size - (l.pos + at) % l.block_size == i - at,
{
    reveal(Layout::wf);
    reveal(Layout::block_index);
    reveal(Layout::slice_start);
    reveal(Layout::slice_end);
    let bs = l.block_size;
    let b = (l.pos + at) / bs;
    lemma_split(l.pos + at, bs);
    assert((b + 1) * bs == b * bs + bs) by (nonlinear_arith);
    lemma_div_mod_of(l.pos + i, bs, b, l.pos + i - b * bs);
}

/// Every segment of a plan moves each byte of its stretch to or from the
/// device address that the layout gives that byte, and a hole segment covers
/// only bytes that the layout puts in a hole.
pub proof fn lemma_segment_bytes(l: Layout, s: Segment, i: int)
    requires
        l.wf(),
        l.segment_ok(s),
        s.start <= i < s.start + s.len,
    ensures
        segment_addr(l.block_size, s, i) == l.byte_addr(i),
        s.kind is Hole <==> l.holes && l.fblock_at(i) == 0,
{
    reveal(Layout::segment_ok);
    let bs = l.block_size;
    assert(bs > 0) by {
        reveal(Layout::wf);
    }
    match s.kind {
        SegmentKind::Inline { .. } => {},
        SegmentKind::Hole => {
            lemma_same_block(l, s.start as int, i);
            reveal(Layout::byte_addr);
        },
        SegmentKind::Bytes { addr } => {
            lemma_same_block(l, s.start as int, i);
            reveal(Layout::byte_addr);
        },
        SegmentKind::Blocks { fblock, count } => {
            reveal(Layout::byte_addr);
            reveal(Layout::block_index);
            reveal(Layout::aligned);
            let d = i - s.start;
            let c = d / bs;
            let r = d % bs;
            lemma_split(d, bs);
            lemma_split(l.pos + s.start, bs);
            let b = (l.pos + s.start) / bs;
            assert((b + c) * bs == b * bs + c * bs) by (nonlinear_arith);
            lemma_div_mod_of(l.pos + i, bs, b + c, r);
            assert(0 <= c < count) by (nonlinear_arith)
                requires
                    d == c * bs + r,
                    0 <= r < bs,
                    0 <= d < count * bs,
            ;
            assert(l.fblocks[l.block_index(s.start as int) + c] == fblock + c);
            assert((fblock + c) * bs == fblock * bs + c * bs) by (nonlinear_arith);
        },
    }
}

/// In a tiling, a segment ends before any later segment begins.
proof fn lemma_tile_ordered(segs: Seq<Segment>, len: int, a: int, b: int)
    requires
        segments_tile(segs, len),
        0 <= a < b < segs.len(),
    ensures
        segs[a].start + segs[a].len <= segs[b].start,
    decreases b - a,
{
    if a + 1 < b {
        lemma_tile_ordered(segs, len, a, b - 1);
        assert(segs[b - 1].start + segs[b - 1].len == segs[b].start);
    } else {
        assert(segs[a].start + segs[a].len == segs[b].start);
    }
}

/// In a tiling, a byte before the end of segment `k` lies in a segment up to
/// `k`.
proof fn lemma_find_segment(segs: Seq<Segment>, len: int, i: int, k: int) -> (j: int)
    requires
        segments_tile(segs, len),
        0 <= k < segs.len(),
        0 <= i < segs[k].start + segs[k].len,
    ensures
        0 <= j <= k,
        segs[j].start <= i < segs[j].start + segs[j].len,
    decreases k,
{
    if i >= segs[k].start {
        k
    } else if k == 0 {
        0
    } else {
        assert(segs[k - 1].start + segs[k - 1].len == segs[k].start);
        lemma_find_segment(segs, len, i, k - 1)
    }
}

/// Every byte of the buffer is served by exactly one segment of a plan, and
/// that segment takes it from, or puts it at, the device address that the
/// layout gives the byte. The segment's index is returned.
pub proof fn lemma_plan_serves_every_byte(l: Layout, segs: Seq<Segment>, i: int) -> (j: int)
    requires
        l.wf(),
        is_plan(l, segs),
        0 <= i < l.len,
    ensures
        0 <= j < segs.len(),
        segs[j].start <= i < segs[j].start + segs[j].len,
        segment_addr(l.block_size, segs[j], i) == l.byte_addr(i),
        segs[j].kind is Hole <==> l.holes && l.fblock_at(i) == 0,
        forall|k: int|
            0 <= k < segs.len() && k != j ==> !((#[trigger] segs[k]).start <= i < segs[k].start
                + segs[k].len),
{
    let j = lemma_find_segment(segs, l.len, i, segs.len() - 1);
    lemma_segment_bytes(l, segs[j], i);
    assert forall|k: int| 0 <= k < segs.len() && k != j implies !((#[trigger] segs[k]).start <= i
        < segs[k].start + segs[k].len) by {
        if k < j {
            lemma_tile_ordered(segs, l.len, k, j);
        } else {
            lemma_tile_ordered(segs, l.len, j, k);
        }
    }
    j
}

/// The stretch of a plan that moves whole blocks: the segments with index
/// in `[from, to)`. Around these a write-back window is kept open, so that
/// the cache is not flushed between them; the segments before and after
/// move less than a block each.
#[derive(Clone, Copy, Debug, PartialEq, Eq, Structural)]
pub struct BulkWindow {
    pub from: usize,
    pub to: usize,
}

/// Whether `w` is the window of the segments: it starts at the first segment
/// of at least a block, ends after the last such, and is empty at the end of
/// the plan where there is none.
pub open spec fn is_bulk_window(block_size: int, segs: Seq<Segment>, w: BulkWindow) -> bool {
    &&& w.from <= w.to <= segs.len()
    &&& forall|j: int| 0 <= j < w.from ==> (#[trigger] segs[j]).len < block_size
    &&& forall|j: int| w.to <= j < segs.len() ==> (#[trigger] segs[j]).len < block_size
    &&& w.from < w.to ==> segs[w.from as int].len >= block_size && segs[w.to - 1].len
        >= block_size
    &&& w.from == w.to ==> w.from == segs.len()
}

/// Finds the stretch of a plan that moves whole blocks.
pub fn bulk_window(block_size: u32, segs: &Vec<Segment>) -> (w: BulkWindow)
    ensures
        is_bulk_window(block_size as int, segs@, w),
{
    let bs: usize = block_size as usize;
    let n = segs.len();
    let mut from: usize = 0;
    while from < n && segs[from].len < bs
        invariant
            from <= n,
            n == segs@.len(),
            bs == block_size,
            forall|j: int| 0 <= j < from ==> (#[trigger] segs@[j]).len < block_size,
        decreases n - from,
    {
        from = from + 1;
    }
    if from == n {
        return BulkWindow { from: n, to: n };
    }
    let mut to: usize = n;
    while to > from + 1 && segs[to - 1].len < bs
        invariant
            from < to <= n,
            n == segs@.len(),
            bs == block_size,
            segs@[from as int].len >= block_size,
            forall|j: int| to <= j < n ==> (#[trigger] segs@[j]).len < block_size,
        decreases to,
    {
        to = to - 1;
    }
    BulkWindow { from, to }
}

/// Whether the device byte addresses of every block fit in 64 bits.
pub open spec fn addresses_fit(block_size: int, fblocks: Seq<u64>) -> bool {
    forall|k: int|
        0 <= k < fblocks.len() ==> (#[trigger] fblocks[k]) * block_size + block_size <= u64::MAX
}

/// Tests whether a transfer over these physical blocks can be planned: every
/// block, taken times the block size, must leave room for one more block
/// below the 64-bit limit.
pub fn check_addresses(block_size: u32, fblocks: &Vec<u64>) -> (ok: bool)
    requires
        block_size > 0,
    ensures
        ok == addresses_fit(block_size as int, fblocks@),
{
    proof {
        lemma_split(u64::MAX as int, block_size as int);
        let q = (u64::MAX as int) / (block_size as int);
        let r = (u64::MAX as int) % (block_size as int);
        assert(q >= 1) by (nonlinear_arith)
            requires
                u64::MAX == q * block_size + r,
                0 <= r < block_size,
                block_size <= u32::MAX,
        ;
    }
    let limit: u64 = u64::MAX / (block_size as u64) - 1;
    let mut k: usize = 0;
    while k < fblocks.len()
        invariant
            k <= fblocks@.len(),
            block_size > 0,
            limit == u64::MAX / (block_size as u64) - 1,
            forall|j: int|
                0 <= j < k ==> (#[trigger] fblocks@[j]) * block_size + block_size <= u64::MAX,
        decreases fblocks@.len() - k,
    {
        let f: u64 = fblocks[k];
        proof {
            lemma_limit(block_size as int, f as int);
        }
        if f > limit {
            return false;
        }
        k = k + 1;
    }
    true
}

/// A block's addresses fit in 64 bits exactly when the block's number is at
/// most the largest quotient less one.
proof fn lemma_limit(bs: int, f: int)
    requires
        bs > 0,
        f >= 0,
    ensures
        f * bs + bs <= u64::MAX <==> f <= (u64::MAX as int) / bs - 1,
{
    let q = (u64::MAX as int) / bs;
    lemma_split(u64::MAX as int, bs);
    if f <= q - 1 {
        assert(f * bs + bs <= q * bs) by (nonlinear_arith)
            requires
                f + 1 <= q,
                bs > 0,
        ;
    } else {
        assert(f * bs + bs >= q * bs + bs) by (nonlinear_arith)
            requires
                f >= q,
                bs > 0,
        ;
    }
}

/// A device as the bytes at its byte addresses.
pub type Device = Map<int, u8>;

/// What a read along the layout returns from the device: the byte at each
/// byte's address, and zero for a byte in a hole.
pub open spec fn read_result(dev: Device, l: Layout) -> Seq<u8> {
    Seq::new(
        l.len as nat,
        |i: int|
            match l.byte_addr(i) {
                Some(a) => dev[a],
                None => 0u8,
            },
    )
}

/// No physical block serves two logical blocks.
pub open spec fn distinct_blocks(fblocks: Seq<u64>) -> bool {
    forall|j: int, k: int|
        0 <= j < fblocks.len() && 0 <= k < fblocks.len() && j != k ==> fblocks[j] != fblocks[k]
}

/// Two bytes of a range whose blocks are all distinct have different device
/// addresses.
pub proof fn lemma_addresses_differ(l: Layout, i: int, j: int)
    requires
        l.wf(),
        distinct_blocks(l.fblocks),
        0 <= i < l.len,
        0 <= j < l.len,
        l.byte_addr(i) is Some,
        l.byte_addr(i) == l.byte_addr(j),
    ensures
        i == j,
{
    reveal(Layout::wf);
    reveal(Layout::byte_addr);
    lemma_block_in_range(l, i);
    lemma_block_in_range(l, j);
    reveal(Layout::block_index);
    let bs = l.block_size;
    let a = l.byte_addr(i)->0;
    lemma_split(l.pos + i, bs);
    lemma_split(l.pos + j, bs);
    lemma_div_mod_of(a, bs, l.fblock_at(i) as int, (l.pos + i) % bs);
    lemma_div_mod_of(a, bs, l.fblock_at(j) as int, (l.pos + j) % bs);
    assert(l.block_index(i) == l.block_index(j));
}

/// Device address of the first byte that a segment moves.
pub open spec fn first_addr(block_size: int, s: Segment) -> int {
    match s.kind {
        SegmentKind::Bytes { addr } => addr as int,
        SegmentKind::Blocks { fblock, .. } => fblock * block_size,
        _ => 0,
    }
}

/// Whether a segment moves the byte at device address `a`.
pub open spec fn covers(block_size: int, s: Segment, a: int) -> bool {
    &&& s.kind is Bytes || s.kind is Blocks
    &&& first_addr(block_size, s) <= a < first_addr(block_size, s) + s.len
}

/// The device after one segment of a write put its stretch of `data` there.
pub open spec fn segment_written(dev: Device, block_size: int, s: Segment, data: Seq<u8>) -> Device {
    Map::new(
        |a: int| dev.dom().contains(a) || covers(block_size, s, a),
        |a: int|
            if covers(block_size, s, a) {
                data[s.start + (a - first_addr(block_size, s))]
            } else {
                dev[a]
            },
    )
}

/// The device after the segments of a write were carried out in order.
pub open spec fn plan_written(dev: Device, block_size: int, segs: Seq<Segment>, data: Seq<u8>) -> Device
    decreases segs.len(),
{
    if segs.len() == 0 {
        dev
    } else {
        segment_written(
            plan_written(dev, block_size, segs.drop_last(), data),
            block_size,
            segs.last(),
            data,
        )
    }
}

/// What a segment of a read from the device puts at buffer byte `i` of its
/// stretch: the byte at the byte's device address, or zero for a hole.
pub open spec fn segment_read_byte(dev: Device, block_size: int, s: Segment, i: int) -> u8 {
    match segment_addr(block_size, s, i) {
        Some(a) => dev[a],
        None => 0u8,
    }
}

/// Buffer byte `i` after the segments of a read from the device were
/// carried out in order.
pub open spec fn plan_read_byte(dev: Device, block_size: int, segs: Seq<Segment>, i: int) -> u8
    decreases segs.len(),
{
    if segs.len() == 0 {
        0u8
    } else if segs.last().start <= i < segs.last().start + segs.last().len {
        segment_read_byte(dev, block_size, segs.last(), i)
    } else {
        plan_read_byte(dev, block_size, segs.drop_last(), i)
    }
}

/// The first `len` bytes of the buffer after the segments of a read were
/// carried out.
pub open spec fn plan_read(dev: Device, block_size: int, segs: Seq<Segment>, len: int) -> Seq<u8> {
    Seq::new(len as nat, |i: int| plan_read_byte(dev, block_size, segs, i))
}

/// Carrying out the first `k` segments of a read, of which segment `j` is
/// the only one that holds buffer byte `i`, leaves at `i` what segment `j`
/// puts there.
proof fn lemma_read_byte(dev: Device, block_size: int, segs: Seq<Segment>, k: int, j: int, i: int)
    requires
        0 <= j < k <= segs.len(),
        segs[j].start <= i < segs[j].start + segs[j].len,
        forall|m: int|
            0 <= m < segs.len() && m != j ==> !((#[trigger] segs[m]).start <= i < segs[m].start
                + segs[m].len),
    ensures
        plan_read_byte(dev, block_size, segs.subrange(0, k), i) == segment_read_byte(
            dev,
            block_size,
            segs[j],
            i,
        ),
    decreases k,
{
    let prefix = segs.subrange(0, k);
    assert(prefix.last() == segs[k - 1]);
    if k - 1 != j {
        assert(prefix.drop_last() =~= segs.subrange(0, k - 1));
        lemma_read_byte(dev, block_size, segs, k - 1, j, i);
    }
}

/// A segment of a write plan that moves the byte at the address of buffer
/// byte `i` is the segment that holds `i`, as long as no two bytes of the
/// range share an address.
proof fn lemma_covering_segment(w: Layout, s: Segment, i: int)
    requires
        w.wf(),
        !w.holes,
        distinct_blocks(w.fblocks),
        w.segment_ok(s),
        0 <= i < w.len,
        w.byte_addr(i) is Some,
        covers(w.block_size, s, w.byte_addr(i)->0),
    ensures
        s.start <= i < s.start + s.len,
        i == s.start + (w.byte_addr(i)->0 - first_addr(w.block_size, s)),
{
    let a = w.byte_addr(i)->0;
    let at = s.start + (a - first_addr(w.block_size, s));
    assert(at < w.len) by {
        reveal(Layout::segment_ok);
    }
    lemma_segment_bytes(w, s, at);
    lemma_addresses_differ(w, i, at);
}

/// After the first `k` segments of a write plan were carried out, among
/// them segment `j`, which holds buffer byte `i`, the device holds that byte
/// of the data at the byte's address.
proof fn lemma_written_byte(
    dev: Device,
    w: Layout,
    segs: Seq<Segment>,
    data: Seq<u8>,
    k: int,
    j: int,
    i: int,
)
    requires
        w.wf(),
        !w.holes,
        distinct_blocks(w.fblocks),
        forall|m: int| 0 <= m < segs.len() ==> w.segment_ok(#[trigger] segs[m]),
        0 <= j < k <= segs.len(),
        0 <= i < w.len,
        data.len() == w.len,
        segs[j].start <= i < segs[j].start + segs[j].len,
        w.byte_addr(i) is Some,
    ensures
        plan_written(dev, w.block_size, segs.subrange(0, k), data).dom().contains(
            w.byte_addr(i)->0,
        ),
        plan_written(dev, w.block_size, segs.subrange(0, k), data)[w.byte_addr(i)->0] == data[i],
    decreases k,
{
    let bs = w.block_size;
    let a = w.byte_addr(i)->0;
    let prefix = segs.subrange(0, k);
    let last = segs[k - 1];
    assert(prefix.last() == last);
    assert(prefix.drop_last() =~= segs.subrange(0, k - 1));
    if covers(bs, last, a) {
        lemma_covering_segment(w, last, i);
    } else {
        if k - 1 == j {
            lemma_segment_bytes(w, last, i);
            assert(false);
        }
        lemma_written_byte(dev, w, segs, data, k - 1, j, i);
    }
}

/// Bytes written by the segments of a write plan and read back by the
/// segments of a read plan for the same range and the same block mapping,
/// with nothing changed in between, are the bytes written.
pub proof fn lemma_written_plan_reads_back(
    dev: Device,
    w: Layout,
    written: Seq<Segment>,
    read: Seq<Segment>,
    data: Seq<u8>,
)
    requires
        w.wf(),
        !w.holes,
        data.len() == w.len,
        distinct_blocks(w.fblocks),
        forall|k: int| 0 <= k < w.fblocks.len() ==> w.fblocks[k] != 0,
        is_plan(w, written),
        is_plan(Layout { holes: true, ..w }, read),
    ensures
        plan_read(
            plan_written(dev, w.block_size, written, data),
            w.block_size,
            read,
            w.len,
        ) == data,
{
    let r = Layout { holes: true, ..w };
    let bs = w.block_size;
    let after = plan_written(dev, bs, written, data);
    assert(r.wf()) by {
        reveal(Layout::wf);
    }
    assert forall|i: int| 0 <= i < w.len implies #[trigger] plan_read(after, bs, read, w.len)[i]
        == data[i] by {
        lemma_block_in_range(w, i);
        assert(r.byte_addr(i) == w.byte_addr(i) && w.byte_addr(i) is Some) by {
            reveal(Layout::byte_addr);
            reveal(Layout::block_index);
        }
        let jr = lemma_plan_serves_every_byte(r, read, i);
        let jw = lemma_plan_serves_every_byte(w, written, i);
        lemma_read_byte(after, bs, read, read.len() as int, jr, i);
        assert(read.subrange(0, read.len() as int) =~= read);
        lemma_written_byte(dev, w, written, data, written.len() as int, jw, i);
        assert(written.subrange(0, written.len() as int) =~= written);
    }
    assert(plan_read(after, bs, read, w.len) =~= data);
}

/// Carrying out the segments of a read plan fills the buffer with what the
/// layout says a read returns: each byte from its device address, and zero
/// for a byte in a hole.
pub proof fn lemma_plan_reads_layout(dev: Device, l: Layout, segs: Seq<Segment>)
    requires
        l.wf(),
        is_plan(l, segs),
    ensures
        plan_read(dev, l.block_size, segs, l.len) == read_result(dev, l),
{
    let bs = l.block_size;
    assert(l.len >= 0) by {
        reveal(Layout::wf);
    }
    assert forall|i: int| 0 <= i < l.len implies #[trigger] plan_read(dev, bs, segs, l.len)[i]
        == read_result(dev, l)[i] by {
        let j = lemma_plan_serves_every_byte(l, segs, i);
        lemma_read_byte(dev, bs, segs, segs.len() as int, j, i);
        assert(segs.subrange(0, segs.len() as int) =~= segs);
    }
    assert(plan_read(dev, bs, segs, l.len) =~= read_result(dev, l));
}

/// Carrying out a read plan leaves zeros at each buffer byte that lies in
/// an unmapped block, whatever the device holds.
pub proof fn lemma_plan_reads_holes_as_zeros(dev: Device, l: Layout, segs: Seq<Segment>, i: int)
    requires
        l.wf(),
        l.holes,
        is_plan(l, segs),
        0 <= i < l.len,
        l.fblock_at(i) == 0,
    ensures
        plan_read(dev, l.block_size, segs, l.len)[i] == 0,
{
    lemma_plan_reads_layout(dev, l, segs);
    lemma_hole_reads_zero(dev, l, i);
}

/// A byte in an unmapped block reads as zero, whatever the device holds.
pub proof fn lemma_hole_reads_zero(dev: Device, l: Layout, i: int)
    requires
        l.wf(),
        l.holes,
        0 <= i < l.len,
        l.fblock_at(i) == 0,
    ensures
        read_result(dev, l)[i] == 0,
{
    reveal(Layout::byte_addr);
}

} // verus!
