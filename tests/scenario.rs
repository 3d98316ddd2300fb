use vastrum_node::consensus::{Consensus, HandleBlockVoteResult};
use vastrum_node::crypto::PrivateKey;
use vastrum_node::types::{Block, BlockData, BlockVote, SlotState, Transaction};
use vastrum_node::validator::{genesis_block, genesis_epoch_state, Action, ValidatorStateMachine};

fn client_transaction() -> Transaction {
    let key = PrivateKey::from_seed(77);
    let probe = Transaction {
        pub_key: key.public_key(),
        signature: key.sign(&[]),
        calldata: vec![10, 20, 30],
        pow_nonce: 5,
    };
    let signature = key.sign_hash(probe.calculate_calldata_hash());
    Transaction { signature, ..probe }
}

/// Five validators with 100 stake each; the leader of height 1 (validator
/// 1 mod 5) proposes an empty-parented block on genesis; four of five vote for
/// it; the next tick finalizes and commits it.
#[test]
fn end_to_end_first_block_is_finalized() {
    let genesis = genesis_block();
    let epoch = genesis_epoch_state();
    assert_eq!(epoch.total_validator_stake, 500);
    // an observer: not a validator, not a leader
    let mut node = ValidatorStateMachine::new(PrivateKey::from_seed(0), 0);
    node.init_state(genesis.clone(), epoch.clone());

    let tx = client_transaction();
    node.handle_new_mempool_tx(tx.clone());
    assert_eq!(node.mempool().len(), 1);
    node.handle_new_mempool_tx(tx.clone());
    assert_eq!(node.mempool().len(), 1);

    let leader_key = PrivateKey::from_seed(2);
    assert_eq!(node.get_leader_for_slot(1).unwrap().pub_key, leader_key.public_key());
    assert_eq!(node.get_leader_for_slot(1).unwrap().validator_index, 1);

    let data = BlockData {
        height: 1,
        transactions: vec![tx.clone()],
        previous_block_hash: genesis.calculate_block_hash(),
    };
    let block_hash = data.calculate_block_hash();
    let block = Block {
        height: 1,
        transactions: data.transactions.clone(),
        previous_block_hash: data.previous_block_hash,
        slot_leader_signature: leader_key.sign_hash(block_hash),
    };
    node.handle_block_proposal_received(block.clone());
    assert_eq!(node.get_slot_block_proposal(1), Some(block.clone()));

    let mut last = HandleBlockVoteResult::ErrorInvalidSignature;
    for index in 1..5u64 {
        let key = PrivateKey::from_seed(index + 1);
        last = node.handle_block_vote(BlockVote {
            block_hash,
            slot_height: 1,
            signature: key.sign_hash(block_hash),
            validator_index: index,
        });
    }
    assert!(matches!(last, HandleBlockVoteResult::Success(Consensus::FinalizedBlock(_))));

    node.tick(100);

    assert_eq!(node.latest_view_height(), 1);
    assert_eq!(node.latest_non_cancellable_slot_height(), 1);
    assert_eq!(node.latest_finalized_block_height(), 1);
    match node.viewchain_slot(1) {
        Some(SlotState::Block(b)) => {
            assert_eq!(b.height, 1);
            assert_eq!(b.calculate_block_hash(), block_hash);
            assert_eq!(b.votes.len(), 4);
        }
        other => panic!("height 1 is not the block: {:?}", other),
    }
    let actions = node.take_actions();
    let persisted_block = actions.iter().any(|a| match a {
        Action::PersistSlot(SlotState::Block(b)) => b.height == 1 && b.calculate_block_hash() == block_hash,
        _ => false,
    });
    assert!(persisted_block);
    assert!(actions.iter().any(|a| matches!(a, Action::ApplyBlock(b) if b.height == 1)));
    assert_eq!(node.mempool().len(), 0);
}

#[test]
fn proposal_with_wrong_parent_is_refused_and_unknown_parent_deferred() {
    let genesis = genesis_block();
    let mut node = ValidatorStateMachine::new(PrivateKey::from_seed(0), 0);
    node.init_state(genesis.clone(), genesis_epoch_state());
    let leader_key = PrivateKey::from_seed(2);
    let data = BlockData {
        height: 1,
        transactions: vec![],
        previous_block_hash: vastrum_node::crypto::Sha256Digest::from_u64(1),
    };
    let wrong_parent = Block {
        height: 1,
        transactions: vec![],
        previous_block_hash: data.previous_block_hash,
        slot_leader_signature: leader_key.sign_hash(data.calculate_block_hash()),
    };
    assert_eq!(
        node.verify_block(&wrong_parent),
        vastrum_node::consensus::BlockVerificationResult::Verifiable(false)
    );
    // height 3 sits above height 2, which the view chain does not hold yet
    let leader_3 = PrivateKey::from_seed(4);
    let data_3 = BlockData { height: 3, transactions: vec![], previous_block_hash: genesis.calculate_block_hash() };
    let far = Block {
        height: 3,
        transactions: vec![],
        previous_block_hash: data_3.previous_block_hash,
        slot_leader_signature: leader_3.sign_hash(data_3.calculate_block_hash()),
    };
    assert_eq!(node.verify_block(&far), vastrum_node::consensus::BlockVerificationResult::CouldNotVerifyDefer);
    let right = BlockData { height: 1, transactions: vec![], previous_block_hash: genesis.calculate_block_hash() };
    let good = Block {
        height: 1,
        transactions: vec![],
        previous_block_hash: right.previous_block_hash,
        slot_leader_signature: leader_key.sign_hash(right.calculate_block_hash()),
    };
    assert_eq!(node.verify_block(&good), vastrum_node::consensus::BlockVerificationResult::Verifiable(true));
}

#[test]
fn validator_votes_null_after_the_proposal_deadline() {
    let mut node = ValidatorStateMachine::new(PrivateKey::from_seed(1), 0);
    node.init_state(genesis_block(), genesis_epoch_state());
    node.tick(500);
    assert!(node.take_actions().is_empty());
    node.tick(2_500);
    let actions = node.take_actions();
    assert!(actions.iter().any(|a| matches!(a, Action::BroadcastNullVote(v) if v.slot_height == 1 && v.validator_index == 0)));
}

/// A validator that voted for a block votes null once the slot is implicitly
/// nullified, and its null vote then completes the nullification.
#[test]
fn validator_flees_to_safety() {
    let genesis = genesis_block();
    let mut node = ValidatorStateMachine::new(PrivateKey::from_seed(1), 0);
    node.init_state(genesis.clone(), genesis_epoch_state());
    let leader_key = PrivateKey::from_seed(2);
    let data = BlockData { height: 1, transactions: vec![], previous_block_hash: genesis.calculate_block_hash() };
    let block_hash = data.calculate_block_hash();
    node.handle_block_proposal_received(Block {
        height: 1,
        transactions: vec![],
        previous_block_hash: data.previous_block_hash,
        slot_leader_signature: leader_key.sign_hash(block_hash),
    });
    node.tick(100);
    let first = node.take_actions();
    assert!(first.iter().any(|a| matches!(a, Action::BroadcastBlockVote(v) if v.validator_index == 0 && v.block_hash == block_hash)));

    // two validators back another block, one votes null: 100 + 100 of 500
    // stake can no longer let any block reach 80%
    let other = vastrum_node::crypto::Sha256Digest::from_u64(42);
    for index in 1..3u64 {
        let key = PrivateKey::from_seed(index + 1);
        node.handle_block_vote(BlockVote { block_hash: other, slot_height: 1, signature: key.sign_hash(other), validator_index: index });
    }
    let null_hash = vastrum_node::types::calculate_null_hash(1);
    let r = node.handle_nullification_vote(vastrum_node::types::NullVote {
        slot_height: 1,
        signature: PrivateKey::from_seed(4).sign_hash(null_hash),
        validator_index: 3,
    });
    assert_eq!(r, vastrum_node::consensus::HandleNullificationVoteResult::Success(Consensus::ImplicitNullification));

    node.tick(200);
    let second = node.take_actions();
    assert!(second.iter().any(|a| matches!(a, Action::BroadcastNullVote(v) if v.validator_index == 0 && v.slot_height == 1)));
    // its vote moved to the null side: 200 of 500 finalizes the nullification
    assert!(matches!(node.viewchain_slot(1), Some(SlotState::Nullification(_))));
    let again = node.handle_nullification_vote(vastrum_node::types::NullVote {
        slot_height: 1,
        signature: PrivateKey::from_seed(1).sign_hash(null_hash),
        validator_index: 0,
    });
    assert_eq!(again, vastrum_node::consensus::HandleNullificationVoteResult::ErrorValidatorHasAlreadyVotedNullInThisSlot);
}

/// Transactions enter the mempool in the order of their hashes, whatever
/// the order in which they arrive.
#[test]
fn mempool_is_kept_in_txhash_order() {
    let mut node = ValidatorStateMachine::new(PrivateKey::from_seed(0), 0);
    node.init_state(genesis_block(), genesis_epoch_state());
    let base = client_transaction();
    let txs: Vec<Transaction> =
        [9u64, 3, 7, 1, 5].iter().map(|n| Transaction { pow_nonce: *n, ..base.clone() }).collect();
    for tx in &txs {
        node.handle_new_mempool_tx(tx.clone());
    }
    assert_eq!(node.mempool().len(), 5);
    let hashes: Vec<[u8; 32]> = node.mempool().iter().map(|t| t.calculate_txhash().data).collect();
    let mut sorted = hashes.clone();
    sorted.sort();
    assert_eq!(hashes, sorted);
    let mut expected: Vec<[u8; 32]> = txs.iter().map(|t| t.calculate_txhash().data).collect();
    expected.sort();
    assert_eq!(hashes, expected);
}
