use vstd::prelude::*;
use crate::block_header::{BlockHeader, difficulty_target, spec_difficulty_target,
    spec_meets_difficulty};

verus! {

/// A header equal to `h` in every field but the nonce, which is `n`.
pub open spec fn spec_with_nonce(h: BlockHeader, n: u32) -> BlockHeader {
    BlockHeader { nonce: n, ..h }
}

/// A mining worker: it is handed a block header, searches the nonce space for
/// a solution, and hands the solved header back.
pub struct Agent;

impl Agent {
    /// Scans nonces upward from the value the header arrived with, testing the
    /// difficulty predicate at each, and stops at the first satisfying nonce.
    /// On success the result carries version 4, the input's previous hash,
    /// merkle root and time, the fixed difficulty target, and the winning
    /// nonce; no nonce below it satisfies the predicate. `None` means no nonce
    /// from the starting value up to the end of the search range satisfies it.
    pub fn mine_block(&self, block_header: BlockHeader) -> (r: Option<BlockHeader>)
        ensures
            r matches Some(b) ==> {
                &&& block_header.nonce <= b.nonce < u32::MAX
                &&& spec_meets_difficulty(spec_with_nonce(block_header, b.nonce))
                &&& forall|m: u32|
                    block_header.nonce <= m < b.nonce ==> !spec_meets_difficulty(
                        spec_with_nonce(block_header, m))
                &&& b.version == 4
                &&& b.prev_block_hash == block_header.prev_block_hash
                &&& b.merkle_root == block_header.merkle_root
                &&& b.time == block_header.time
                &&& b.difficulty@ == spec_difficulty_target()
            },
            r is None ==> forall|m: u32|
                block_header.nonce <= m < u32::MAX ==> !spec_meets_difficulty(
                    spec_with_nonce(block_header, m)),
    {
        let mut header = block_header;
        while header.nonce < u32::MAX
            invariant
                block_header.nonce <= header.nonce,
                header == spec_with_nonce(block_header, header.nonce),
                forall|m: u32|
                    block_header.nonce <= m < header.nonce ==> !spec_meets_difficulty(
                        spec_with_nonce(block_header, m)),
            decreases u32::MAX - header.nonce,
        {
            if header.is_less_than_difficulty() {
                return Some(BlockHeader {
                    version: 0x04,
                    prev_block_hash: header.prev_block_hash,
                    merkle_root: header.merkle_root,
                    time: header.time,
                    difficulty: difficulty_target(),
                    nonce: header.nonce,
                });
            } else {
                header.nonce = header.nonce + 1;
            }
        }
        None
    }
}

} // verus!
