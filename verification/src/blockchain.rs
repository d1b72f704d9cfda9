use vstd::prelude::*;
use crate::block_header::{BlockHeader, spec_difficulty_target, spec_hash, spec_meets_difficulty,
    spec_zero_hash};

verus! {

/// What became of a candidate header handed to the ledger.
#[derive(Clone, Copy, Debug, PartialEq, Eq, Structural)]
pub enum SubmitOutcome {
    /// The candidate differed from the current header and met difficulty: it
    /// is the new current header, and the old one went into the history.
    Accepted,
    /// The candidate was byte-for-byte the current header: nothing changed.
    Duplicate,
    /// The candidate failed the difficulty check: nothing changed.
    Rejected,
}

/// The append-only record of accepted headers plus the current one; owned by
/// the coordinator, which alone reads and updates it.
pub struct Blockchain {
    /// The most recently accepted header, or the genesis header.
    pub current_block: BlockHeader,
    /// Every header that was current before, oldest first.
    pub blocks: Vec<BlockHeader>,
}

impl Blockchain {
    /// Starts a chain at a genesis header: all-zero previous hash, version 4,
    /// zero merkle root, the fixed difficulty target, nonce 0, timestamped
    /// with the wall clock; the history starts empty.
    pub fn new() -> (chain: Blockchain)
        ensures
            chain.blocks@.len() == 0,
            chain.current_block.version == 4,
            chain.current_block.prev_block_hash@ == spec_zero_hash(),
            chain.current_block.merkle_root@ == spec_zero_hash(),
            chain.current_block.difficulty@ == spec_difficulty_target(),
            chain.current_block.nonce == 0,
    {
        let zero: [u8; 32] = [0u8; 32];
        proof {
            assert(zero@ =~= spec_zero_hash());
        }
        let genesis_block = BlockHeader::new(zero);
        Blockchain { current_block: genesis_block, blocks: Vec::new() }
    }

    /// Replaces the current header with `new_block_header` and appends the
    /// prior current header to the history.
    pub fn update(&mut self, new_block_header: BlockHeader)
        ensures
            final(self).current_block == new_block_header,
            final(self).blocks@ == old(self).blocks@.push(old(self).current_block),
    {
        let previous = self.current_block;
        self.current_block = new_block_header;
        self.blocks.push(previous);
    }

    /// Returns the latest header.
    pub fn get_current_block(&self) -> (r: BlockHeader)
        ensures
            r == self.current_block,
    {
        self.current_block
    }

    /// The acceptance rule: the ledger changes exactly when the candidate
    /// differs from the current header and meets difficulty, and then as
    /// `update` describes; a duplicate or an invalid candidate leaves the
    /// ledger untouched.
    pub fn submit_candidate(&mut self, candidate: BlockHeader) -> (outcome: SubmitOutcome)
        ensures
            candidate == old(self).current_block ==> {
                &&& *final(self) == *old(self)
                &&& outcome == SubmitOutcome::Duplicate
            },
            candidate != old(self).current_block && spec_meets_difficulty(candidate) ==> {
                &&& final(self).current_block == candidate
                &&& final(self).blocks@ == old(self).blocks@.push(old(self).current_block)
                &&& outcome == SubmitOutcome::Accepted
            },
            candidate != old(self).current_block && !spec_meets_difficulty(candidate) ==> {
                &&& *final(self) == *old(self)
                &&& outcome == SubmitOutcome::Rejected
            },
    {
        if candidate == self.current_block {
            SubmitOutcome::Duplicate
        } else if candidate.is_less_than_difficulty() {
            self.update(candidate);
            SubmitOutcome::Accepted
        } else {
            SubmitOutcome::Rejected
        }
    }

    /// Builds the next work item to broadcast: a fresh header whose previous
    /// hash is the current header's hash, timestamped with the wall clock.
    pub fn next_work_header(&self) -> (h: BlockHeader)
        ensures
            h.version == 4,
            h.prev_block_hash@ == spec_hash(self.current_block),
            h.merkle_root@ == spec_zero_hash(),
            h.difficulty@ == spec_difficulty_target(),
            h.nonce == 0,
    {
        BlockHeader::new(self.current_block.hash())
    }
}

} // verus!
