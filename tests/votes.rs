use vastrum_node::consensus::{
    BlockNotarization, Consensus, EpochState, HandleBlockVoteResult, HandleNullificationVoteResult,
    NullificationNotarization,
};
use vastrum_node::crypto::{PrivateKey, Sha256Digest};
use vastrum_node::types::{
    calculate_null_hash, BlockData, BlockVote, Notarization, NotarizedBlock, NullVote,
};
use vastrum_node::validator::ValidatorStateMachine;

fn genesis_block() -> NotarizedBlock {
    let block_data = BlockData {
        transactions: vec![],
        height: 0,
        previous_block_hash: Sha256Digest::from(*b"aaaaaaaaaaaaaaaaaaaaaaaaaaaaaaaa"),
    };
    let block_hash = block_data.calculate_block_hash();
    let signature = PrivateKey::from_seed(100).sign_hash(block_hash);
    let notarization = Notarization { validator_index: 0, signature };
    NotarizedBlock {
        transactions: block_data.transactions,
        height: block_data.height,
        previous_block_hash: block_data.previous_block_hash,
        slot_leader_signature: signature,
        votes: vec![notarization],
    }
}

struct Validator {
    private_key: PrivateKey,
    validator_index: u64,
    stake: u64,
}

fn validators() -> (Validator, Validator, Validator, Validator) {
    (
        Validator { private_key: PrivateKey::from_seed(1), validator_index: 0, stake: 20 },
        Validator { private_key: PrivateKey::from_seed(2), validator_index: 1, stake: 20 },
        Validator { private_key: PrivateKey::from_seed(3), validator_index: 2, stake: 60 },
        Validator { private_key: PrivateKey::from_seed(4), validator_index: 3, stake: 0 },
    )
}

fn machine(v1: &Validator, v2: &Validator, v3: &Validator) -> ValidatorStateMachine {
    let mut epoch_state = EpochState::new();
    epoch_state.add_registered_validator(v1.private_key.public_key(), v1.stake);
    epoch_state.add_registered_validator(v2.private_key.public_key(), v2.stake);
    epoch_state.add_registered_validator(v3.private_key.public_key(), v3.stake);
    assert_eq!(100, epoch_state.total_validator_stake);
    let mut m = ValidatorStateMachine::new(PrivateKey::from_seed(0), 0);
    m.init_state(genesis_block(), epoch_state);
    m
}

// Votes go to slot 1: slot 0 holds the genesis block and is already final.
const SLOT: u64 = 1;

#[test]
fn test_check_block_vote_finalization() {
    let (validator_1, validator_2, validator_3, not_valid_validator) = validators();
    let mut m = machine(&validator_1, &validator_2, &validator_3);
    let block_hash = Sha256Digest::from_u64(0);

    assert_eq!(
        m.handle_block_vote(BlockVote {
            slot_height: SLOT,
            block_hash,
            signature: not_valid_validator.private_key.sign_hash(block_hash),
            validator_index: not_valid_validator.validator_index,
        }),
        HandleBlockVoteResult::ErrorCouldNotFindValidatorIndex
    );
    assert_eq!(
        m.handle_block_vote(BlockVote {
            slot_height: SLOT,
            block_hash,
            signature: validator_2.private_key.sign_hash(block_hash),
            validator_index: validator_1.validator_index,
        }),
        HandleBlockVoteResult::ErrorInvalidSignature
    );
    assert_eq!(
        m.handle_block_vote(BlockVote {
            slot_height: SLOT,
            block_hash,
            signature: validator_1.private_key.sign_hash(block_hash),
            validator_index: validator_1.validator_index,
        }),
        HandleBlockVoteResult::Success(Consensus::Undecided)
    );
    assert_eq!(
        m.handle_block_vote(BlockVote {
            slot_height: SLOT,
            block_hash,
            signature: validator_2.private_key.sign_hash(block_hash),
            validator_index: validator_2.validator_index,
        }),
        HandleBlockVoteResult::Success(Consensus::ViewBlock(BlockNotarization {
            votes: vec![
                Notarization {
                    validator_index: validator_1.validator_index,
                    signature: validator_1.private_key.sign_hash(block_hash)
                },
                Notarization {
                    validator_index: validator_2.validator_index,
                    signature: validator_2.private_key.sign_hash(block_hash)
                },
            ],
            block_hash,
            height: SLOT,
        }))
    );
    assert_eq!(
        m.handle_block_vote(BlockVote {
            slot_height: SLOT,
            block_hash,
            signature: validator_3.private_key.sign_hash(block_hash),
            validator_index: validator_3.validator_index,
        }),
        HandleBlockVoteResult::Success(Consensus::FinalizedBlock(BlockNotarization {
            votes: vec![
                Notarization {
                    validator_index: validator_1.validator_index,
                    signature: validator_1.private_key.sign_hash(block_hash)
                },
                Notarization {
                    validator_index: validator_2.validator_index,
                    signature: validator_2.private_key.sign_hash(block_hash)
                },
                Notarization {
                    validator_index: validator_3.validator_index,
                    signature: validator_3.private_key.sign_hash(block_hash)
                },
            ],
            block_hash,
            height: SLOT,
        }))
    );
}

#[test]
fn test_check_null_vote_nullification() {
    let (validator_1, validator_2, validator_3, not_valid_validator) = validators();
    let mut m = machine(&validator_1, &validator_2, &validator_3);
    let null_hash = calculate_null_hash(SLOT);

    assert_eq!(
        m.handle_nullification_vote(NullVote {
            slot_height: SLOT,
            signature: not_valid_validator.private_key.sign_hash(null_hash),
            validator_index: not_valid_validator.validator_index,
        }),
        HandleNullificationVoteResult::ErrorCouldNotFindValidatorIndex
    );
    assert_eq!(
        m.handle_nullification_vote(NullVote {
            slot_height: SLOT,
            signature: validator_2.private_key.sign_hash(null_hash),
            validator_index: validator_1.validator_index,
        }),
        HandleNullificationVoteResult::ErrorInvalidSignature
    );
    assert_eq!(
        m.handle_nullification_vote(NullVote {
            slot_height: SLOT,
            signature: validator_1.private_key.sign_hash(null_hash),
            validator_index: validator_1.validator_index,
        }),
        HandleNullificationVoteResult::Success(Consensus::Undecided)
    );
    let two_votes = vec![
        Notarization {
            validator_index: validator_1.validator_index,
            signature: validator_1.private_key.sign_hash(null_hash),
        },
        Notarization {
            validator_index: validator_2.validator_index,
            signature: validator_2.private_key.sign_hash(null_hash),
        },
    ];
    assert_eq!(
        m.handle_nullification_vote(NullVote {
            slot_height: SLOT,
            signature: validator_2.private_key.sign_hash(null_hash),
            validator_index: validator_2.validator_index,
        }),
        HandleNullificationVoteResult::Success(Consensus::FinalizedNullification(
            NullificationNotarization { votes: two_votes.clone(), height: SLOT }
        ))
    );
    let mut three_votes = two_votes;
    three_votes.push(Notarization {
        validator_index: validator_3.validator_index,
        signature: validator_3.private_key.sign_hash(null_hash),
    });
    assert_eq!(
        m.handle_nullification_vote(NullVote {
            slot_height: SLOT,
            signature: validator_3.private_key.sign_hash(null_hash),
            validator_index: validator_3.validator_index,
        }),
        HandleNullificationVoteResult::Success(Consensus::FinalizedNullification(
            NullificationNotarization { votes: three_votes, height: SLOT }
        ))
    );
}

#[test]
fn test_check_vote_implicit_nullification() {
    let (validator_1, validator_2, validator_3, _) = validators();
    let mut m = machine(&validator_1, &validator_2, &validator_3);
    let null_hash = calculate_null_hash(SLOT);
    let block_hash_1 = Sha256Digest::from_u64(0);
    let block_hash_2 = Sha256Digest::from_u64(1);

    assert_eq!(
        m.handle_nullification_vote(NullVote {
            slot_height: SLOT,
            signature: validator_1.private_key.sign_hash(null_hash),
            validator_index: validator_1.validator_index,
        }),
        HandleNullificationVoteResult::Success(Consensus::Undecided)
    );
    // cannot change a null vote into a block vote
    assert_eq!(
        m.handle_block_vote(BlockVote {
            slot_height: SLOT,
            block_hash: block_hash_1,
            signature: validator_1.private_key.sign_hash(block_hash_1),
            validator_index: validator_1.validator_index,
        }),
        HandleBlockVoteResult::ErrorValidatorHasAlreadyVotedInThisSlot
    );
    assert_eq!(
        m.handle_block_vote(BlockVote {
            slot_height: SLOT,
            block_hash: block_hash_1,
            signature: validator_2.private_key.sign_hash(block_hash_1),
            validator_index: validator_2.validator_index,
        }),
        HandleBlockVoteResult::Success(Consensus::Undecided)
    );
    assert_eq!(
        m.handle_block_vote(BlockVote {
            slot_height: SLOT,
            block_hash: block_hash_2,
            signature: validator_3.private_key.sign_hash(block_hash_2),
            validator_index: validator_3.validator_index,
        }),
        HandleBlockVoteResult::Success(Consensus::ImplicitNullification)
    );
    // the block vote turns into a null vote: the nullification is finalized
    assert_eq!(
        m.handle_nullification_vote(NullVote {
            slot_height: SLOT,
            signature: validator_2.private_key.sign_hash(null_hash),
            validator_index: validator_2.validator_index,
        }),
        HandleNullificationVoteResult::Success(Consensus::FinalizedNullification(
            NullificationNotarization {
                votes: vec![
                    Notarization {
                        validator_index: validator_1.validator_index,
                        signature: validator_1.private_key.sign_hash(null_hash)
                    },
                    Notarization {
                        validator_index: validator_2.validator_index,
                        signature: validator_2.private_key.sign_hash(null_hash)
                    },
                ],
                height: SLOT
            }
        ))
    );
    // cannot vote null again
    assert_eq!(
        m.handle_nullification_vote(NullVote {
            slot_height: SLOT,
            signature: validator_2.private_key.sign_hash(null_hash),
            validator_index: validator_2.validator_index,
        }),
        HandleNullificationVoteResult::ErrorValidatorHasAlreadyVotedNullInThisSlot
    );
}

#[test]
fn vote_for_finalized_slot_is_refused() {
    let (validator_1, validator_2, validator_3, _) = validators();
    let mut m = machine(&validator_1, &validator_2, &validator_3);
    let block_hash = Sha256Digest::from_u64(0);
    assert_eq!(
        m.handle_block_vote(BlockVote {
            slot_height: 0,
            block_hash,
            signature: validator_1.private_key.sign_hash(block_hash),
            validator_index: 0,
        }),
        HandleBlockVoteResult::ErrorSlotAlreadyFinalized
    );
    assert_eq!(
        m.handle_nullification_vote(NullVote {
            slot_height: 0,
            signature: validator_1.private_key.sign_hash(calculate_null_hash(0)),
            validator_index: 0,
        }),
        HandleNullificationVoteResult::ErrorSlotAlreadyFinalized
    );
}

#[test]
fn vote_without_epoch_is_refused() {
    let mut m = ValidatorStateMachine::new(PrivateKey::from_seed(0), 0);
    let block_hash = Sha256Digest::from_u64(0);
    assert_eq!(
        m.handle_block_vote(BlockVote {
            slot_height: 1,
            block_hash,
            signature: PrivateKey::from_seed(1).sign_hash(block_hash),
            validator_index: 0,
        }),
        HandleBlockVoteResult::ErrorEpochStateDoesNotYetExistForSlot
    );
    assert_eq!(
        m.handle_nullification_vote(NullVote {
            slot_height: 1,
            signature: PrivateKey::from_seed(1).sign_hash(calculate_null_hash(1)),
            validator_index: 0,
        }),
        HandleNullificationVoteResult::ErrorEpochStateDoesNotYetExistForSlot
    );
}

#[test]
fn second_block_vote_is_refused() {
    let (validator_1, validator_2, validator_3, _) = validators();
    let mut m = machine(&validator_1, &validator_2, &validator_3);
    let a = Sha256Digest::from_u64(5);
    let b = Sha256Digest::from_u64(6);
    assert_eq!(
        m.handle_block_vote(BlockVote {
            slot_height: SLOT,
            block_hash: a,
            signature: validator_3.private_key.sign_hash(a),
            validator_index: 2,
        }),
        HandleBlockVoteResult::Success(Consensus::ViewBlock(BlockNotarization {
            votes: vec![Notarization { validator_index: 2, signature: validator_3.private_key.sign_hash(a) }],
            block_hash: a,
            height: SLOT,
        }))
    );
    assert_eq!(
        m.handle_block_vote(BlockVote {
            slot_height: SLOT,
            block_hash: b,
            signature: validator_3.private_key.sign_hash(b),
            validator_index: 2,
        }),
        HandleBlockVoteResult::ErrorValidatorHasAlreadyVotedInThisSlot
    );
}

#[test]
fn fleeing_validator_keeps_its_block_vote_counted() {
    let (validator_1, validator_2, validator_3, _) = validators();
    let mut m = machine(&validator_1, &validator_2, &validator_3);
    let a = Sha256Digest::from_u64(5);
    m.handle_block_vote(BlockVote {
        slot_height: SLOT,
        block_hash: a,
        signature: validator_2.private_key.sign_hash(a),
        validator_index: 1,
    });
    let null_hash = calculate_null_hash(SLOT);
    let r = m.handle_nullification_vote(NullVote {
        slot_height: SLOT,
        signature: validator_2.private_key.sign_hash(null_hash),
        validator_index: 1,
    });
    assert_eq!(r, HandleNullificationVoteResult::Success(Consensus::Undecided));
    let slot = m.slot_consensus.get(&SLOT).unwrap();
    assert_eq!(slot.block_candidates.len(), 1);
    assert_eq!(slot.block_candidates[0].voted_stake, 20);
    assert_eq!(slot.block_candidates[0].votes.len(), 1);
    assert_eq!(slot.null_stake, 20);
    // a further block vote from it is refused
    assert_eq!(
        m.handle_block_vote(BlockVote {
            slot_height: SLOT,
            block_hash: a,
            signature: validator_2.private_key.sign_hash(a),
            validator_index: 1,
        }),
        HandleBlockVoteResult::ErrorValidatorHasAlreadyVotedInThisSlot
    );
}

#[test]
fn notarization_votes_are_sorted_by_validator_index() {
    let (validator_1, validator_2, validator_3, _) = validators();
    let mut m = machine(&validator_1, &validator_2, &validator_3);
    let block_hash = Sha256Digest::from_u64(3);
    for (v, i) in [(&validator_3, 2u64), (&validator_1, 0u64)] {
        m.handle_block_vote(BlockVote {
            slot_height: SLOT,
            block_hash,
            signature: v.private_key.sign_hash(block_hash),
            validator_index: i,
        });
    }
    let r = m.handle_block_vote(BlockVote {
        slot_height: SLOT,
        block_hash,
        signature: validator_2.private_key.sign_hash(block_hash),
        validator_index: 1,
    });
    let HandleBlockVoteResult::Success(Consensus::FinalizedBlock(n)) = r else { panic!("{:?}", r) };
    let order: Vec<u64> = n.votes.iter().map(|v| v.validator_index).collect();
    assert_eq!(order, vec![0, 1, 2]);
}
