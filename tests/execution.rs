use vastrum_node::application::{SiteCall, TransactionData, TransactionType};
use vastrum_node::codec::encode;
use vastrum_node::crypto::{PrivateKey, Sha256Digest};
use vastrum_node::execution::Execution;
use vastrum_node::types::Transaction;

#[test]
fn verify_tx() {
    let private_key = PrivateKey::from_seed(0xcadfefe);
    let component_data = vec![123, 33, 12, 55, 123];
    let deploy_website_tx_data = TransactionData {
        transaction_type: TransactionType::DeployNewComponent,
        calldata: component_data,
    };
    let calldata_hash = deploy_website_tx_data.calculate_hash();
    let deploy_website_tx = Transaction {
        pub_key: private_key.public_key(),
        signature: private_key.sign_hash(calldata_hash),
        calldata: encode(&deploy_website_tx_data),
        pow_nonce: 0,
    };
    let execution = Execution::new();
    assert!(execution.verify_transaction(&deploy_website_tx));
}

#[test]
fn verify_call_tx() {
    let private_key = PrivateKey::from_seed(0xcadfefe);
    let create_post_json =
        r#"{"signature":"create_post","posttitle":"second post", "postcontent": "hello world"}"#;
    let create_post_tx_data = TransactionData {
        transaction_type: TransactionType::Call,
        calldata: encode(&SiteCall {
            site_id: Sha256Digest::from_u64(0),
            args: create_post_json.as_bytes().to_vec(),
        }),
    };
    let calldata_hash = create_post_tx_data.calculate_hash();
    let create_post_tx = Transaction {
        pub_key: private_key.public_key(),
        signature: private_key.sign_hash(calldata_hash),
        calldata: encode(&create_post_tx_data),
        pow_nonce: 2,
    };
    let execution = Execution::new();
    assert!(execution.verify_transaction(&create_post_tx));
}

fn signed_transaction(seed: u64, calldata: Vec<u8>, pow_nonce: u64) -> Transaction {
    let key = PrivateKey::from_seed(seed);
    let probe = Transaction { pub_key: key.public_key(), signature: key.sign(&[]), calldata, pow_nonce };
    let signature = key.sign_hash(probe.calculate_calldata_hash());
    Transaction { signature, ..probe }
}

#[test]
fn bad_signature_is_invalid() {
    let mut t = signed_transaction(3, vec![1, 2, 3], 0);
    t.calldata.push(4);
    assert!(!Execution::new().verify_transaction(&t));
}

#[test]
fn spent_proof_of_work_is_invalid() {
    let t = signed_transaction(3, vec![1, 2, 3], 9);
    let mut execution = Execution::new();
    assert!(execution.execute_transaction(&t));
    assert_eq!(execution.seen_pow_hash, vec![t.calculate_pow_hash()]);
    assert!(!execution.verify_transaction(&t));
    assert!(!execution.execute_transaction(&t));
    assert_eq!(execution.seen_pow_hash.len(), 1);
}

#[test]
fn pow_threshold_is_all_ones() {
    assert_eq!(Execution::new().pow_threshold(), Sha256Digest::from([255u8; 32]));
}

#[test]
fn signed_transaction_verifies() {
    let key = PrivateKey::from_seed(0xcadfefe);
    let data = TransactionData { transaction_type: TransactionType::RegisterDomain, calldata: vec![9, 9] };
    let t = Transaction::new_signed(&key, &data, 3);
    assert_eq!(t.calldata, encode(&data));
    assert_eq!(t.calculate_calldata_hash(), data.calculate_hash());
    assert!(Execution::new().verify_transaction(&t));
}
