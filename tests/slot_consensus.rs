use vastrum_node::consensus::{BlockCandidateState, Consensus, SlotConsensusState};
use vastrum_node::crypto::Sha256Digest;

/// Sets the candidate for `block_hash`, replacing one that is there.
fn set_candidate(slot: &mut SlotConsensusState, block_hash: Sha256Digest, voted_stake: u64) {
    let candidate = BlockCandidateState { block_hash, voted_stake, votes: vec![] };
    match slot.block_candidates.iter().position(|c| c.block_hash == block_hash) {
        Some(i) => slot.block_candidates[i] = candidate,
        None => slot.block_candidates.push(candidate),
    }
}

#[test]
fn test_check_consensus_for_slot() {
    let mut slot_consensus_state = SlotConsensusState::new(0);
    let block_hash = Sha256Digest::from_u64(0);
    let total_validator_stake = 100;

    set_candidate(&mut slot_consensus_state, block_hash, 1);
    assert_eq!(slot_consensus_state.check_consensus_for_slot(total_validator_stake), Consensus::Undecided);

    set_candidate(&mut slot_consensus_state, block_hash, 30);
    assert_eq!(slot_consensus_state.check_consensus_for_slot(total_validator_stake), Consensus::Undecided);

    set_candidate(&mut slot_consensus_state, block_hash, 77);
    assert!(matches!(
        slot_consensus_state.check_consensus_for_slot(total_validator_stake),
        Consensus::ViewBlock(_)
    ));

    set_candidate(&mut slot_consensus_state, block_hash, 81);
    assert!(matches!(
        slot_consensus_state.check_consensus_for_slot(total_validator_stake),
        Consensus::FinalizedBlock(_)
    ));
}

#[test]
fn test_check_nullification() {
    let mut slot_consensus_state = SlotConsensusState::new(0);
    let block_hash = Sha256Digest::from_u64(0);
    let total_validator_stake = 100;

    set_candidate(&mut slot_consensus_state, block_hash, 1);
    assert_eq!(slot_consensus_state.check_consensus_for_slot(total_validator_stake), Consensus::Undecided);

    set_candidate(&mut slot_consensus_state, block_hash, 30);
    assert_eq!(slot_consensus_state.check_consensus_for_slot(total_validator_stake), Consensus::Undecided);

    set_candidate(&mut slot_consensus_state, block_hash, 55);
    assert!(matches!(
        slot_consensus_state.check_consensus_for_slot(total_validator_stake),
        Consensus::ViewBlock(_)
    ));

    slot_consensus_state.null_stake = 39;
    assert!(matches!(
        slot_consensus_state.check_consensus_for_slot(total_validator_stake),
        Consensus::ViewBlock(_)
    ));

    slot_consensus_state.null_stake = 42;
    assert!(matches!(
        slot_consensus_state.check_consensus_for_slot(total_validator_stake),
        Consensus::FinalizedNullification(_)
    ));
}

#[test]
fn test_check_implicit_nullification() {
    let mut slot_consensus_state = SlotConsensusState::new(0);
    let block_hash = Sha256Digest::from_u64(0);
    let total_validator_stake = 100;

    set_candidate(&mut slot_consensus_state, block_hash, 1);
    assert_eq!(slot_consensus_state.check_consensus_for_slot(total_validator_stake), Consensus::Undecided);

    set_candidate(&mut slot_consensus_state, block_hash, 30);
    assert_eq!(slot_consensus_state.check_consensus_for_slot(total_validator_stake), Consensus::Undecided);

    set_candidate(&mut slot_consensus_state, block_hash, 55);
    assert!(matches!(
        slot_consensus_state.check_consensus_for_slot(total_validator_stake),
        Consensus::ViewBlock(_)
    ));

    slot_consensus_state.null_stake = 39;
    assert!(matches!(
        slot_consensus_state.check_consensus_for_slot(total_validator_stake),
        Consensus::ViewBlock(_)
    ));

    // A second candidate receives a vote: the non-leading stake (2) plus the
    // null stake (39) reaches 40.
    set_candidate(&mut slot_consensus_state, Sha256Digest::from_u64(1), 2);
    assert!(matches!(
        slot_consensus_state.check_consensus_for_slot(total_validator_stake),
        Consensus::ImplicitNullification
    ));
}
