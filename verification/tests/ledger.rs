use powchain::agent::Agent;
use powchain::block_header::BlockHeader;
use powchain::blockchain::{Blockchain, SubmitOutcome};

fn mined_successor(chain: &Blockchain) -> BlockHeader {
    let work = chain.next_work_header();
    Agent.mine_block(work).expect("the target leaves two free leading bytes")
}

fn failing_candidate(chain: &Blockchain) -> BlockHeader {
    let mut candidate = chain.next_work_header();
    while candidate.is_less_than_difficulty() {
        candidate.nonce += 1;
    }
    candidate
}

#[test]
fn update_replaces_current_and_appends_the_old_header() {
    let mut chain = Blockchain::new();
    let genesis = chain.get_current_block();
    let successor = mined_successor(&chain);
    chain.update(successor);
    assert_eq!(chain.get_current_block(), successor);
    assert_eq!(chain.blocks.len(), 1);
    assert_eq!(chain.blocks[0], genesis);
}

#[test]
fn valid_successor_is_accepted() {
    let mut chain = Blockchain::new();
    let genesis = chain.get_current_block();
    let candidate = mined_successor(&chain);
    assert_eq!(candidate.prev_block_hash, genesis.hash());
    assert_eq!(chain.submit_candidate(candidate), SubmitOutcome::Accepted);
    assert_eq!(chain.get_current_block(), candidate);
    assert_eq!(chain.blocks.len(), 1);
    assert_eq!(chain.blocks[0], genesis);
}

#[test]
fn duplicate_submission_is_a_noop() {
    let mut chain = Blockchain::new();
    let candidate = mined_successor(&chain);
    assert_eq!(chain.submit_candidate(candidate), SubmitOutcome::Accepted);
    assert_eq!(chain.submit_candidate(candidate), SubmitOutcome::Duplicate);
    assert_eq!(chain.get_current_block(), candidate);
    assert_eq!(chain.blocks.len(), 1);
}

#[test]
fn failing_candidate_is_rejected_and_ledger_unchanged() {
    let mut chain = Blockchain::new();
    let genesis = chain.get_current_block();
    let candidate = failing_candidate(&chain);
    assert!(!candidate.is_less_than_difficulty());
    assert_eq!(chain.submit_candidate(candidate), SubmitOutcome::Rejected);
    assert_eq!(chain.get_current_block(), genesis);
    assert_eq!(chain.blocks.len(), 0);
}

#[test]
fn update_occurs_iff_different_and_meets_difficulty() {
    let mut chain = Blockchain::new();
    let genesis = chain.get_current_block();

    // Identical to current: no update.
    assert_eq!(chain.submit_candidate(genesis), SubmitOutcome::Duplicate);
    assert_eq!(chain.get_current_block(), genesis);
    assert_eq!(chain.blocks.len(), 0);

    // Different but failing difficulty: no update.
    let bad = failing_candidate(&chain);
    assert_ne!(bad, genesis);
    assert_eq!(chain.submit_candidate(bad), SubmitOutcome::Rejected);
    assert_eq!(chain.get_current_block(), genesis);
    assert_eq!(chain.blocks.len(), 0);

    // Different and meeting difficulty: update.
    let good = mined_successor(&chain);
    assert_ne!(good, genesis);
    assert_eq!(chain.submit_candidate(good), SubmitOutcome::Accepted);
    assert_eq!(chain.get_current_block(), good);
    assert_eq!(chain.blocks.len(), 1);
}

#[test]
fn racing_candidates_first_wins_and_stale_one_is_still_accepted() {
    let mut chain = Blockchain::new();
    let genesis = chain.get_current_block();
    let work = chain.next_work_header();

    // Two agents solve the same work item at different nonces.
    let first = Agent.mine_block(work).expect("a first solution exists");
    let mut restarted = work;
    restarted.nonce = first.nonce + 1;
    let second = Agent.mine_block(restarted).expect("a later solution exists");
    assert_ne!(first, second);

    // Whichever candidate arrives first wins the race.
    assert_eq!(chain.submit_candidate(first), SubmitOutcome::Accepted);
    assert_eq!(chain.get_current_block(), first);

    // The stale candidate differs from the new current header and still meets
    // difficulty, so the acceptance rule (which checks no lineage) takes it
    // again: the second solution for the same parent also enters the chain.
    assert_eq!(chain.submit_candidate(second), SubmitOutcome::Accepted);
    assert_eq!(chain.get_current_block(), second);
    assert_eq!(chain.blocks.len(), 2);
    assert_eq!(chain.blocks[0], genesis);
    assert_eq!(chain.blocks[1], first);
}
