//! The superblock fields this layer reads.

use vstd::arithmetic::power2::{
    lemma2_to64, lemma_pow2_pos, lemma_pow2_strictly_increases, pow2,
};
use vstd::bits::lemma_u32_shl_is_mul;
use vstd::prelude::*;

verus! {

/// Largest block-size exponent for which the block size fits in 32 bits.
pub const MAX_LOG_BLOCK_SIZE: u32 = 21;

/// Snapshot of the superblock fields that this layer reads, in host byte
/// order.
#[derive(Clone, Copy, Debug, PartialEq, Eq, Structural)]
pub struct Superblock {
    pub inodes_count: u32,
    pub free_inodes_count: u32,
    pub blocks_count_lo: u32,
    pub blocks_count_hi: u32,
    pub free_blocks_count_lo: u32,
    pub free_blocks_count_hi: u32,
    pub log_block_size: u32,
    pub rev_level: u32,
    pub minor_rev_level: u16,
}

impl Superblock {
    /// The block size can be computed without overflow.
    pub open spec fn wf(&self) -> bool {
        self.log_block_size <= MAX_LOG_BLOCK_SIZE
    }

    /// Tests whether the block size can be computed.
    pub fn valid(&self) -> (b: bool)
        ensures
            b == self.wf(),
    {
        self.log_block_size <= MAX_LOG_BLOCK_SIZE
    }

    /// Block size in bytes, as a mathematical integer.
    pub open spec fn block_size(&self) -> int {
        1024 * (pow2(self.log_block_size as nat) as int)
    }
}

/// The block size of a usable superblock lies between 1 KiB and 2 GiB.
pub proof fn lemma_block_size_bounds(sb: Superblock)
    requires
        sb.wf(),
    ensures
        1024 <= sb.block_size() <= 0x8000_0000,
{
    lemma2_to64();
    lemma_pow2_pos(sb.log_block_size as nat);
    if sb.log_block_size < MAX_LOG_BLOCK_SIZE {
        lemma_pow2_strictly_increases(sb.log_block_size as nat, MAX_LOG_BLOCK_SIZE as nat);
    }
}

/// The block size of an unusable superblock does not fit in 32 bits.
pub proof fn lemma_block_size_overflows(sb: Superblock)
    requires
        !sb.wf(),
    ensures
        sb.block_size() > u32::MAX,
{
    lemma2_to64();
    if sb.log_block_size > MAX_LOG_BLOCK_SIZE + 1 {
        lemma_pow2_strictly_increases((MAX_LOG_BLOCK_SIZE + 1) as nat, sb.log_block_size as nat);
    }
}

/// Filesystem block size: 1024 shifted left by the superblock's exponent.
pub fn get_block_size(sb: &Superblock) -> (bs: u32)
    requires
        sb.wf(),
    ensures
        bs as int == sb.block_size(),
        1024 <= bs <= 0x8000_0000,
{
    proof {
        lemma_block_size_bounds(*sb);
        lemma_u32_shl_is_mul(1024, sb.log_block_size);
    }
    1024u32 << sb.log_block_size
}

/// The filesystem revision as the pair (major, minor), which orders
/// revisions lexicographically.
pub fn revision_tuple(sb: &Superblock) -> (r: (u32, u16))
    ensures
        r == (sb.rev_level, sb.minor_rev_level),
{
    (sb.rev_level, sb.minor_rev_level)
}

} // verus!
