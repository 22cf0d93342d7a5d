use soroban_sdk::{Bytes, Env};
use stellar_bridge::error::ContractError;
use stellar_bridge::htlc::{
    calculate_fill_reward, checked_fill_reward, is_timelock_expired, validate_secret,
};
use stellar_bridge::hashing::derive_fill_leaf;
use stellar_bridge::partial_fills::{
    calculate_optimal_fill_sizes, execute_partial_fill, verify_merkle_proof,
};
use stellar_bridge::types::{Swap, SwapState};

fn keccak(env: &Env, data: &[u8]) -> Vec<u8> {
    env.crypto().keccak256(&Bytes::from_slice(env, data)).to_array().to_vec()
}

fn combine(env: &Env, a: &Vec<u8>, b: &Vec<u8>) -> Vec<u8> {
    let mut buf: Vec<u8> = Vec::new();
    if a < b {
        buf.extend_from_slice(a);
        buf.extend_from_slice(b);
    } else {
        buf.extend_from_slice(b);
        buf.extend_from_slice(a);
    }
    keccak(env, &buf)
}

#[test]
fn test_error_classification() {
    assert!(ContractError::InvalidAmount.is_user_error());
    assert!(ContractError::SystemError.is_critical());
    assert!(!ContractError::SwapNotFound.is_critical());
    assert!(!ContractError::SystemError.is_user_error());
}

#[test]
fn test_error_messages() {
    assert_eq!(
        ContractError::InvalidAmount.error_message(),
        "Amount must be positive"
    );
    assert_eq!(
        ContractError::SwapNotFound.error_message(),
        "Swap does not exist"
    );
}

#[test]
fn test_error_codes() {
    assert_eq!(ContractError::InvalidAmount.code(), 1);
    assert_eq!(ContractError::SwapNotFound.code(), 10);
    assert_eq!(ContractError::SecretAlreadyUsed.code(), 21);
    assert_eq!(ContractError::ExceedsSwapAmount.code(), 32);
    assert_eq!(ContractError::CalculationOverflow.code(), 83);
}

#[test]
fn test_validate_secret() {
    let env = Env::default();
    let secret: Vec<u8> = vec![7u8; 32];
    let secret_hash = keccak(&env, &secret);

    assert!(validate_secret(&env, &secret, &secret_hash));

    let wrong_hash: Vec<u8> = vec![9u8; 32];
    assert!(!validate_secret(&env, &secret, &wrong_hash));
}

#[test]
fn test_secret_hash_is_not_identity() {
    // The digest of a secret must differ from the secret itself, so a
    // stored hash can never pass as its own preimage.
    let env = Env::default();
    let secret: Vec<u8> = vec![7u8; 32];
    let secret_hash = keccak(&env, &secret);
    assert_ne!(secret_hash, secret);
    assert!(!validate_secret(&env, &secret_hash, &secret_hash));
}

#[test]
fn test_timelock_expired() {
    assert!(!is_timelock_expired(1000, 2000));
    assert!(is_timelock_expired(1000, 500));
    assert!(is_timelock_expired(1000, 1000));
}

#[test]
fn test_calculate_fill_reward() {
    // 1% fee (100 basis points)
    assert_eq!(calculate_fill_reward(10000, 100), 100);

    // 0.1% fee (10 basis points)
    assert_eq!(calculate_fill_reward(10000, 10), 10);

    // 10% fee (1000 basis points)
    assert_eq!(calculate_fill_reward(10000, 1000), 1000);
}

#[test]
fn test_checked_fill_reward() {
    assert_eq!(checked_fill_reward(10000, 100), Ok(100));
    assert_eq!(checked_fill_reward(0, 100), Ok(0));
    assert_eq!(
        checked_fill_reward(i128::MAX, 10),
        Err(ContractError::CalculationOverflow)
    );
}

#[test]
fn test_verify_merkle_proof_single() {
    let env = Env::default();
    let leaf: Vec<u8> = keccak(&env, b"leaf");
    let proof: Vec<Vec<u8>> = Vec::new();

    // Single leaf tree - root equals leaf
    assert!(verify_merkle_proof(&env, &proof, &leaf, &leaf));
}

#[test]
fn test_verify_merkle_proof_pair() {
    let env = Env::default();
    let leaf1 = keccak(&env, b"first leaf");
    let leaf2 = keccak(&env, b"second leaf");

    // Calculate root for two-leaf tree
    let root = combine(&env, &leaf1, &leaf2);

    let proof = vec![leaf2];
    assert!(verify_merkle_proof(&env, &proof, &root, &leaf1));
}

#[test]
fn test_merkle_proof_flipped_bytes() {
    let env = Env::default();
    let leaf1 = keccak(&env, b"first leaf");
    let leaf2 = keccak(&env, b"second leaf");
    let root = combine(&env, &leaf1, &leaf2);
    let proof = vec![leaf2.clone()];
    assert!(verify_merkle_proof(&env, &proof, &root, &leaf1));

    let mut bad_leaf = leaf1.clone();
    bad_leaf[0] ^= 1;
    assert!(!verify_merkle_proof(&env, &proof, &root, &bad_leaf));

    let mut bad_root = root.clone();
    bad_root[31] ^= 1;
    assert!(!verify_merkle_proof(&env, &proof, &bad_root, &leaf1));

    let mut bad_sibling = leaf2.clone();
    bad_sibling[16] ^= 1;
    let bad_proof = vec![bad_sibling];
    assert!(!verify_merkle_proof(&env, &bad_proof, &root, &leaf1));
}

#[test]
fn test_calculate_optimal_fill_sizes() {
    // Test even distribution
    let fills = calculate_optimal_fill_sizes(1000, 4, 100);
    assert_eq!(fills.len(), 4);
    assert_eq!(fills.iter().sum::<i128>(), 1000);

    // Test with remainder
    let fills = calculate_optimal_fill_sizes(1001, 4, 100);
    assert_eq!(fills.len(), 4);
    assert_eq!(fills.iter().sum::<i128>(), 1001);

    // Test minimum fill size constraint
    let fills = calculate_optimal_fill_sizes(50, 4, 100);
    assert_eq!(fills.len(), 1);
    assert_eq!(fills[0], 50);
}

#[test]
fn test_edge_cases() {
    // Zero amount
    let fills = calculate_optimal_fill_sizes(0, 4, 100);
    assert_eq!(fills.len(), 0);

    // Zero resolvers
    let fills = calculate_optimal_fill_sizes(1000, 0, 100);
    assert_eq!(fills.len(), 0);

    // Single resolver
    let fills = calculate_optimal_fill_sizes(1000, 1, 100);
    assert_eq!(fills.len(), 1);
    assert_eq!(fills[0], 1000);
}

#[test]
fn test_fill_sizes_distribution() {
    // The leftover units go to the earliest slots, one each.
    let fills = calculate_optimal_fill_sizes(1001, 4, 100);
    assert_eq!(fills, vec![251, 250, 250, 250]);

    // Below-average totals degrade to minimum-sized slots with the rest
    // dumped into the final one.
    let fills = calculate_optimal_fill_sizes(250, 4, 100);
    assert_eq!(fills, vec![100, 100, 50]);
}

#[test]
fn test_execute_partial_fill_on_record() {
    let env = Env::default();
    let resolver = b"resolver".to_vec();
    let fill_amount = 4_000i128;
    let nonce = 9u64;
    let leaf = derive_fill_leaf(&env, &resolver, fill_amount, nonce);

    let mut swap = Swap {
        initiator: b"initiator".to_vec(),
        token: b"token".to_vec(),
        amount: 10_000,
        filled: 0,
        secret_hash: vec![5u8; 32],
        timelock: 1_000,
        counterpart_address: vec![0u8; 20],
        state: SwapState::Initiated,
        partial_fill_enabled: true,
        // A single-leaf authorization tree: the root is the leaf.
        merkle_root: leaf,
        created_at: 1,
    };

    // 100 basis points of 4000 is 40.
    let reward = execute_partial_fill(
        &env,
        &mut swap,
        &resolver,
        fill_amount,
        &Vec::new(),
        nonce,
        100,
        500,
    )
    .unwrap();
    assert_eq!(reward, 40);
    assert_eq!(swap.filled, 4_000);
    assert_eq!(swap.state, SwapState::PartialFilled);

    // A replayed leaf with a different nonce is no longer authorized.
    assert_eq!(
        execute_partial_fill(&env, &mut swap, &resolver, fill_amount, &Vec::new(), nonce + 1, 100, 500),
        Err(ContractError::InvalidMerkleProof)
    );
    assert_eq!(swap.filled, 4_000);

    // Filling the remainder completes the record.
    let leaf2 = derive_fill_leaf(&env, &resolver, 6_000, 10);
    swap.merkle_root = leaf2;
    execute_partial_fill(&env, &mut swap, &resolver, 6_000, &Vec::new(), 10, 100, 500).unwrap();
    assert_eq!(swap.state, SwapState::Completed);
    assert_eq!(swap.filled, swap.amount);
}
