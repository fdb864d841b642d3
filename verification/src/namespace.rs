//! What the steps of a directory operation do to the names and link counts
//! of a filesystem, and what the composite operations therefore achieve.

use vstd::prelude::*;

use crate::fs::{create_ops, rename_ops, unlink_ops, FsOp};
use crate::inode::InodeType;

verus! {

/// The names and link counts of a filesystem.
pub struct Namespace {
    /// The inode that each name of each directory stands for.
    pub entries: Map<(u32, Seq<char>), u32>,
    /// The link count of each inode.
    pub links: spec_fn(u32) -> int,
    /// The count below which the engine does not take an inode's links.
    pub floor: spec_fn(u32) -> int,
}

impl Namespace {
    /// The inode that `name` stands for in directory `dir`, if any.
    pub open spec fn lookup(self, dir: u32, name: Seq<char>) -> Option<u32> {
        if self.entries.dom().contains((dir, name)) {
            Some(self.entries[(dir, name)])
        } else {
            None
        }
    }

    /// The namespace with the link count of `ino` set to `count`.
    pub open spec fn with_links(self, ino: u32, count: int) -> Namespace {
        Namespace {
            links: |i: u32|
                if i == ino {
                    count
                } else {
                    (self.links)(i)
                },
            ..self
        }
    }

    /// The namespace after one step. Adding an entry counts a link, as long
    /// as the engine's limits allow; counting a link down stops at the
    /// floor.
    pub open spec fn apply(self, op: FsOp) -> Namespace {
        match op {
            FsOp::AddEntry { dir, name, ino } => Namespace {
                entries: self.entries.insert((dir, name@), ino),
                ..self.with_links(ino, (self.links)(ino) + 1)
            },
            FsOp::RemoveEntry { dir, name } => Namespace {
                entries: self.entries.remove((dir, name@)),
                ..self
            },
            FsOp::PointEntry { dir, name, ino } => Namespace {
                entries: self.entries.insert((dir, name@), ino),
                ..self
            },
            FsOp::IncLinks { ino } => self.with_links(ino, (self.links)(ino) + 1),
            FsOp::DecLinks { ino } => if (self.links)(ino) > (self.floor)(ino) {
                self.with_links(ino, (self.links)(ino) - 1)
            } else {
                self
            },
            FsOp::SetLinks { ino, count } => self.with_links(ino, count as int),
            FsOp::SetMode { .. } => self,
            FsOp::Truncate { .. } => self,
            FsOp::FreeInode { .. } => self,
        }
    }

    /// The namespace after the steps, taken in order.
    pub open spec fn apply_all(self, ops: Seq<FsOp>) -> Namespace
        decreases ops.len(),
    {
        if ops.len() == 0 {
            self
        } else {
            self.apply_all(ops.drop_last()).apply(ops.last())
        }
    }
}

/// Taking one more step after some steps.
proof fn lemma_then(ns: Namespace, ops: Seq<FsOp>, op: FsOp)
    ensures
        ns.apply_all(ops.push(op)) == ns.apply_all(ops).apply(op),
{
    assert(ops.push(op).drop_last() =~= ops);
}

/// The names `.` and `..` differ.
proof fn lemma_dots_differ()
    ensures
        "."@ != ".."@,
{
    reveal_strlit(".");
    reveal_strlit("..");
    assert("."@.len() == 1);
    assert(".."@.len() == 2);
}

/// Creating a directory leaves the new name resolving to the child, the
/// child's `.` resolving to itself and its `..` to the parent, and the child
/// with two links.
pub proof fn lemma_create_directory(
    ns: Namespace,
    parent: u32,
    name: &str,
    child: u32,
    child_mode: u32,
    mode: u32,
)
    ensures
        ({
            let after = ns.apply_all(
                create_ops(parent, name, child, child_mode, InodeType::Directory, mode),
            );
            &&& after.lookup(parent, name@) == Some(child)
            &&& after.lookup(child, "."@) == Some(child)
            &&& after.lookup(child, ".."@) == Some(parent)
            &&& (after.links)(child) == 2
        }),
{
    lemma_dots_differ();
    let o1 = FsOp::AddEntry { dir: parent, name, ino: child };
    let o2 = FsOp::AddEntry { dir: child, name: ".", ino: child };
    let o3 = FsOp::AddEntry { dir: child, name: "..", ino: parent };
    let o4 = FsOp::SetLinks { ino: child, count: 2 };
    let o5 = FsOp::SetMode {
        ino: child,
        mode: crate::fs::mode_with_permissions(child_mode, mode),
    };
    let e = Seq::<FsOp>::empty();
    lemma_then(ns, e, o1);
    lemma_then(ns, e.push(o1), o2);
    lemma_then(ns, e.push(o1).push(o2), o3);
    lemma_then(ns, e.push(o1).push(o2).push(o3), o4);
    lemma_then(ns, e.push(o1).push(o2).push(o3).push(o4), o5);
    assert(create_ops(parent, name, child, child_mode, InodeType::Directory, mode) =~= e.push(
        o1,
    ).push(o2).push(o3).push(o4).push(o5));
}

/// Creating anything leaves the new name resolving to the child.
pub proof fn lemma_create_adds_name(
    ns: Namespace,
    parent: u32,
    name: &str,
    child: u32,
    child_mode: u32,
    ty: InodeType,
    mode: u32,
)
    requires
        ty != InodeType::Directory,
    ensures
        ({
            let after = ns.apply_all(create_ops(parent, name, child, child_mode, ty, mode));
            &&& after.lookup(parent, name@) == Some(child)
            &&& (after.links)(child) == (ns.links)(child) + 1
        }),
{
    let o1 = FsOp::AddEntry { dir: parent, name, ino: child };
    let o5 = FsOp::SetMode {
        ino: child,
        mode: crate::fs::mode_with_permissions(child_mode, mode),
    };
    let e = Seq::<FsOp>::empty();
    lemma_then(ns, e, o1);
    lemma_then(ns, e.push(o1), o5);
    assert(create_ops(parent, name, child, child_mode, ty, mode) =~= e.push(o1).push(o5));
}

/// Unlinking an empty directory removes its name and takes one link from
/// the parent, as long as the parent is above the floor that the engine
/// keeps.
pub proof fn lemma_unlink_directory(
    ns: Namespace,
    dir: u32,
    name: &str,
    child: u32,
    child_links: u16,
    block_size: u32,
)
    requires
        dir != child,
        (ns.links)(dir) > (ns.floor)(dir),
    ensures
        ({
            let after = ns.apply_all(unlink_ops(dir, name, child, true, child_links, block_size));
            &&& after.lookup(dir, name@) is None
            &&& (after.links)(dir) == (ns.links)(dir) - 1
            &&& (after.links)(child) == 0
        }),
{
    let t1 = FsOp::Truncate { ino: child, size: block_size as u64 };
    let t2 = FsOp::Truncate { ino: child, size: 0 };
    let o1 = FsOp::RemoveEntry { dir, name };
    let o2 = FsOp::DecLinks { ino: dir };
    let o3 = FsOp::DecLinks { ino: child };
    let o4 = FsOp::SetLinks { ino: child, count: 0 };
    let o5 = FsOp::FreeInode { ino: child };
    let e = Seq::<FsOp>::empty();
    let base = e.push(t1).push(t2).push(o1).push(o2);
    lemma_then(ns, e, t1);
    lemma_then(ns, e.push(t1), t2);
    lemma_then(ns, e.push(t1).push(t2), o1);
    lemma_then(ns, e.push(t1).push(t2).push(o1), o2);
    if child_links > 0 {
        lemma_then(ns, base, o3);
        lemma_then(ns, base.push(o3), o4);
        lemma_then(ns, base.push(o3).push(o4), o5);
        assert(unlink_ops(dir, name, child, true, child_links, block_size) =~= base.push(o3).push(
            o4,
        ).push(o5));
    } else {
        lemma_then(ns, base, o4);
        lemma_then(ns, base.push(o4), o5);
        assert(unlink_ops(dir, name, child, true, child_links, block_size) =~= base.push(o4).push(
            o5,
        ));
    }
}

/// Renaming leaves the new name resolving to the inode that the old name
/// stood for, and the old name, unless it is the new one, resolving to
/// nothing. A directory that was moved, and that is neither of the two
/// directories, has the target directory as its `..`.
pub proof fn lemma_rename_moves(
    ns: Namespace,
    src_dir: u32,
    src_name: &str,
    dst_dir: u32,
    dst_name: &str,
    src: u32,
    src_is_dir: bool,
)
    ensures
        ({
            let after = ns.apply_all(
                rename_ops(src_dir, src_name, dst_dir, dst_name, src, src_is_dir),
            );
            &&& after.lookup(dst_dir, dst_name@) == Some(src)
            &&& (src_dir, src_name@) != (dst_dir, dst_name@) ==> after.lookup(src_dir, src_name@)
                is None
            &&& src_is_dir && src != src_dir && src != dst_dir ==> after.lookup(src, ".."@) == Some(
                dst_dir,
            )
        }),
{
    let point = FsOp::PointEntry { dir: src, name: "..", ino: dst_dir };
    let down = FsOp::DecLinks { ino: src_dir };
    let up = FsOp::IncLinks { ino: dst_dir };
    let removed = FsOp::RemoveEntry { dir: src_dir, name: src_name };
    let renamed = FsOp::AddEntry { dir: dst_dir, name: dst_name, ino: src };
    let e = Seq::<FsOp>::empty();
    if src_is_dir {
        let base = e.push(point).push(down).push(up);
        lemma_then(ns, e, point);
        lemma_then(ns, e.push(point), down);
        lemma_then(ns, e.push(point).push(down), up);
        lemma_then(ns, base, removed);
        lemma_then(ns, base.push(removed), renamed);
        assert(rename_ops(src_dir, src_name, dst_dir, dst_name, src, src_is_dir) =~= base.push(
            removed,
        ).push(renamed));
    } else {
        lemma_then(ns, e, removed);
        lemma_then(ns, e.push(removed), renamed);
        assert(rename_ops(src_dir, src_name, dst_dir, dst_name, src, src_is_dir) =~= e.push(
            removed,
        ).push(renamed));
    }
}

} // verus!
