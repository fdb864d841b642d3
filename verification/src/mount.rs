//! The order in which a filesystem is mounted and taken apart again.

use vstd::prelude::*;

use crate::error::{check_status, Ext4Error};

verus! {

/// The steps of mounting, in the order in which they are taken.
#[derive(Debug, Clone, Copy, PartialEq, Eq, Structural)]
pub enum MountStep {
    /// The block device is initialised.
    BlockInit,
    /// Write-back caching is switched on.
    WriteBackOn,
    /// The engine reads the filesystem.
    FsInit,
    /// The block cache is set up with the filesystem's block size.
    CacheInit,
    /// The cache's item size is held against the block size.
    CacheSizeCheck,
    /// The cache is bound to the device.
    CacheBind,
}

/// The steps of taking a mount apart.
#[derive(Debug, Clone, Copy, PartialEq, Eq, Structural)]
pub enum Teardown {
    /// The engine lets go of the filesystem.
    FsFini,
    /// The block cache drops what it holds.
    CacheCleanup,
    /// The block cache is finalised.
    CacheFini,
    /// Write-back caching is switched off, which flushes.
    WriteBackOff,
    /// The block device is finalised.
    BlockFini,
}

/// What unmounting consists of: first the filesystem state, then the block
/// cache that it refers to, then the device.
pub open spec fn unmount_steps() -> Seq<Teardown> {
    seq![
        Teardown::FsFini,
        Teardown::CacheCleanup,
        Teardown::CacheFini,
        Teardown::WriteBackOff,
        Teardown::BlockFini,
    ]
}

/// Whether a mount step that succeeded leaves something that the given
/// teardown step has to undo, once mounting has come as far as `failed`.
pub open spec fn set_up_before(failed: MountStep, t: Teardown) -> bool {
    match t {
        Teardown::BlockFini => failed != MountStep::BlockInit,
        Teardown::WriteBackOff => failed != MountStep::BlockInit && failed
            != MountStep::WriteBackOn,
        Teardown::FsFini => failed == MountStep::CacheInit || failed == MountStep::CacheSizeCheck
            || failed == MountStep::CacheBind,
        Teardown::CacheCleanup | Teardown::CacheFini => failed == MountStep::CacheSizeCheck
            || failed == MountStep::CacheBind,
    }
}

/// What has to be undone when the mount step `failed` fails: the steps of
/// unmounting, in their order, without those whose resource was not set up
/// yet.
pub open spec fn unwind_steps(failed: MountStep) -> Seq<Teardown> {
    unmount_steps().filter(|t: Teardown| set_up_before(failed, t))
}

impl MountStep {
    /// The label under which a failure of this step is reported.
    pub open spec fn spec_label(self) -> &'static str {
        match self {
            MountStep::BlockInit => "ext4_block_init",
            MountStep::WriteBackOn => "ext4_block_cache_write_back",
            MountStep::FsInit => "ext4_fs_init",
            MountStep::CacheInit => "ext4_bcache_init_dynamic",
            MountStep::CacheSizeCheck => "block size mismatch",
            MountStep::CacheBind => "ext4_block_bind_bcache",
        }
    }

    pub fn label(self) -> (l: &'static str)
        ensures
            l == self.spec_label(),
    {
        match self {
            MountStep::BlockInit => "ext4_block_init",
            MountStep::WriteBackOn => "ext4_block_cache_write_back",
            MountStep::FsInit => "ext4_fs_init",
            MountStep::CacheInit => "ext4_bcache_init_dynamic",
            MountStep::CacheSizeCheck => "block size mismatch",
            MountStep::CacheBind => "ext4_block_bind_bcache",
        }
    }
}

/// The steps of unmounting, in order.
pub fn unmount() -> (steps: Vec<Teardown>)
    ensures
        steps@ == unmount_steps(),
{
    let mut steps: Vec<Teardown> = Vec::new();
    steps.push(Teardown::FsFini);
    steps.push(Teardown::CacheCleanup);
    steps.push(Teardown::CacheFini);
    steps.push(Teardown::WriteBackOff);
    steps.push(Teardown::BlockFini);
    assert(steps@ =~= unmount_steps());
    steps
}

/// Filtering a sequence that ends in `t` filters what comes before and
/// keeps or drops `t`.
proof fn lemma_filter_push(s: Seq<Teardown>, t: Teardown, failed: MountStep)
    ensures
        s.push(t).filter(|t: Teardown| set_up_before(failed, t)) == if set_up_before(failed, t) {
            s.filter(|t: Teardown| set_up_before(failed, t)).push(t)
        } else {
            s.filter(|t: Teardown| set_up_before(failed, t))
        },
{
    reveal(Seq::filter);
    assert(s.push(t).drop_last() =~= s);
}

/// The steps that take apart what mounting has set up when step `failed`
/// fails, so that nothing of the engine's is left behind.
pub fn unwind(failed: MountStep) -> (steps: Vec<Teardown>)
    ensures
        steps@ == unwind_steps(failed),
{
    let all = unmount();
    let mut steps: Vec<Teardown> = Vec::new();
    let mut i: usize = 0;
    proof {
        reveal(Seq::filter);
        assert(all@.subrange(0, 0) =~= Seq::<Teardown>::empty());
    }
    while i < all.len()
        invariant
            i <= all@.len(),
            all@ == unmount_steps(),
            steps@ == all@.subrange(0, i as int).filter(|t: Teardown| set_up_before(failed, t)),
        decreases all@.len() - i,
    {
        let t = all[i];
        let keep = match t {
            Teardown::BlockFini => !matches!(failed, MountStep::BlockInit),
            Teardown::WriteBackOff => !matches!(failed, MountStep::BlockInit | MountStep::WriteBackOn),
            Teardown::FsFini => matches!(
                failed,
                MountStep::CacheInit | MountStep::CacheSizeCheck | MountStep::CacheBind
            ),
            Teardown::CacheCleanup | Teardown::CacheFini => matches!(
                failed,
                MountStep::CacheSizeCheck | MountStep::CacheBind
            ),
        };
        proof {
            lemma_filter_push(all@.subrange(0, i as int), t, failed);
            assert(all@.subrange(0, i + 1) =~= all@.subrange(0, i as int).push(t));
        }
        if keep {
            steps.push(t);
        }
        i = i + 1;
    }
    assert(all@.subrange(0, all@.len() as int) =~= all@);
    steps
}


/// How mounting goes on after a step.
#[derive(Debug, Clone, PartialEq, Eq)]
pub enum MountOutcome {
    /// The step succeeded; this one is next.
    Next(MountStep),
    /// The last step succeeded.
    Mounted,
    /// The step failed with `error`; `undo` takes apart what was set up.
    Failed { error: Ext4Error, undo: Vec<Teardown> },
}

impl MountStep {
    /// The step after this one, if there is one.
    pub open spec fn spec_next(self) -> Option<MountStep> {
        match self {
            MountStep::BlockInit => Some(MountStep::WriteBackOn),
            MountStep::WriteBackOn => Some(MountStep::FsInit),
            MountStep::FsInit => Some(MountStep::CacheInit),
            MountStep::CacheInit => Some(MountStep::CacheSizeCheck),
            MountStep::CacheSizeCheck => Some(MountStep::CacheBind),
            MountStep::CacheBind => None,
        }
    }

    pub fn next(self) -> (n: Option<MountStep>)
        ensures
            n == self.spec_next(),
    {
        match self {
            MountStep::BlockInit => Some(MountStep::WriteBackOn),
            MountStep::WriteBackOn => Some(MountStep::FsInit),
            MountStep::FsInit => Some(MountStep::CacheInit),
            MountStep::CacheInit => Some(MountStep::CacheSizeCheck),
            MountStep::CacheSizeCheck => Some(MountStep::CacheBind),
            MountStep::CacheBind => None,
        }
    }
}

/// Whether `outcome` is how mounting goes on after `step` ended with
/// `status`: on to the next step or done where the status is zero, else
/// failed with the status under the step's label, and with the steps that
/// undo what was set up.
pub open spec fn is_progress(step: MountStep, status: i32, outcome: MountOutcome) -> bool {
    match outcome {
        MountOutcome::Next(next) => status == 0 && step.spec_next() == Some(next),
        MountOutcome::Mounted => status == 0 && step.spec_next() is None,
        MountOutcome::Failed { error, undo } => {
            &&& status != 0
            &&& error == Ext4Error { code: status, context: Some(step.spec_label()) }
            &&& undo@ == unwind_steps(step)
        },
    }
}

/// Decides how mounting goes on after `step` ended with `status`.
pub fn mount_progress(step: MountStep, status: i32) -> (outcome: MountOutcome)
    ensures
        is_progress(step, status, outcome),
{
    match check_status(status, step.label()) {
        Ok(()) => match step.next() {
            Some(next) => MountOutcome::Next(next),
            None => MountOutcome::Mounted,
        },
        Err(error) => MountOutcome::Failed { error, undo: unwind(step) },
    }
}

} // verus!
