use soroban_sdk::{Bytes, Env};
use stellar_bridge::error::ContractError;
use stellar_bridge::hashing::derive_fill_leaf;
use stellar_bridge::types::{Resolver, SwapState};
use stellar_bridge::StellarBridge;

fn keccak(env: &Env, data: &[u8]) -> Vec<u8> {
    env.crypto().keccak256(&Bytes::from_slice(env, data)).to_array().to_vec()
}

fn combine(env: &Env, a: &Vec<u8>, b: &Vec<u8>) -> Vec<u8> {
    let mut buf: Vec<u8> = Vec::new();
    if a < b {
        buf.extend_from_slice(a);
        buf.extend_from_slice(b);
    } else {
        buf.extend_from_slice(b);
        buf.extend_from_slice(a);
    }
    keccak(env, &buf)
}

fn admin() -> Vec<u8> {
    b"admin".to_vec()
}

fn initiator() -> Vec<u8> {
    b"initiator".to_vec()
}

fn token() -> Vec<u8> {
    b"token".to_vec()
}

fn new_bridge() -> StellarBridge {
    StellarBridge::initialize(
        admin(),
        60,
        2_592_000,
        1_000_000_000,
        10,
        10,
        b"native".to_vec(),
    )
}

#[test]
fn test_complete_swap_flow() {
    let env = Env::default();
    let mut bridge = new_bridge();

    let amount = 1_500_000_000i128;
    let secret: Vec<u8> = vec![1u8; 32];
    let secret_hash = keccak(&env, &secret);
    let counterpart: Vec<u8> = vec![0u8; 20];
    let merkle_root: Vec<u8> = vec![2u8; 32];
    let now = 100u64;

    let swap_id = bridge
        .initiate_swap(
            &env,
            &initiator(),
            &token(),
            amount,
            &secret_hash,
            3600,
            &counterpart,
            true,
            &merkle_root,
            now,
        )
        .unwrap();

    let swap = bridge.get_swap(&swap_id).unwrap();
    assert_eq!(swap.initiator, initiator());
    assert_eq!(swap.amount, amount);
    assert_eq!(swap.state, SwapState::Initiated);

    let remaining = bridge.complete_swap(&env, &swap_id, &secret, now + 10).unwrap();
    assert_eq!(remaining, amount);

    let completed_swap = bridge.get_swap(&swap_id).unwrap();
    assert_eq!(completed_swap.state, SwapState::Completed);
}

#[test]
fn test_partial_fills_with_multiple_resolvers() {
    let env = Env::default();
    let mut bridge = new_bridge();

    let resolver1 = b"resolver-1".to_vec();
    let resolver2 = b"resolver-2".to_vec();
    let resolver3 = b"resolver-3".to_vec();
    let now = 1000u64;

    let stake_amount = 2_000_000_000i128;
    bridge.register_resolver(&resolver1, stake_amount, now).unwrap();
    bridge.register_resolver(&resolver2, stake_amount, now).unwrap();
    bridge.register_resolver(&resolver3, stake_amount, now).unwrap();

    let total_amount = 10_000_000_000i128;
    let fill_amounts = [3_333_333_333i128, 3_333_333_333i128, 3_333_333_334i128];

    // Pre-commit a three-leaf authorization tree with the sorted-pair
    // rule: one leaf per (resolver, amount, nonce) slot.
    let l1 = derive_fill_leaf(&env, &resolver1, fill_amounts[0], 1);
    let l2 = derive_fill_leaf(&env, &resolver2, fill_amounts[1], 2);
    let l3 = derive_fill_leaf(&env, &resolver3, fill_amounts[2], 3);
    let n12 = combine(&env, &l1, &l2);
    let merkle_root = combine(&env, &n12, &l3);
    let proofs = [
        vec![l2.clone(), l3.clone()],
        vec![l1.clone(), l3.clone()],
        vec![n12.clone()],
    ];

    let secret_hash: Vec<u8> = vec![3u8; 32];
    let counterpart: Vec<u8> = vec![1u8; 20];

    let swap_id = bridge
        .initiate_swap(
            &env,
            &initiator(),
            &token(),
            total_amount,
            &secret_hash,
            7200,
            &counterpart,
            true,
            &merkle_root,
            now,
        )
        .unwrap();

    let resolvers = [&resolver1, &resolver2, &resolver3];
    let mut expected_filled = 0i128;
    for i in 0..3 {
        bridge
            .execute_partial_fill(
                &env,
                &swap_id,
                resolvers[i],
                fill_amounts[i],
                &proofs[i],
                (i + 1) as u64,
                now + 10,
            )
            .unwrap();

        expected_filled += fill_amounts[i];
        let swap = bridge.get_swap(&swap_id).unwrap();
        assert_eq!(swap.filled, expected_filled);
        assert!(swap.filled >= 0 && swap.filled <= swap.amount);
    }

    let final_swap = bridge.get_swap(&swap_id).unwrap();
    assert_eq!(final_swap.state, SwapState::Completed);
    assert_eq!(final_swap.filled, total_amount);

    for resolver_addr in resolvers.iter() {
        let resolver = bridge.get_resolver(resolver_addr).unwrap();
        assert!(resolver.total_volume > 0);
    }
}

#[test]
fn test_swap_refund_after_timeout() {
    let env = Env::default();
    let mut bridge = new_bridge();

    let amount = 5_000_000_000i128;
    let secret_hash: Vec<u8> = vec![8u8; 32];
    let counterpart: Vec<u8> = vec![2u8; 20];
    let merkle_root: Vec<u8> = vec![9u8; 32];
    let now = 500u64;

    let swap_id = bridge
        .initiate_swap(
            &env,
            &initiator(),
            &token(),
            amount,
            &secret_hash,
            60,
            &counterpart,
            false,
            &merkle_root,
            now,
        )
        .unwrap();

    // Past the timelock the initiator gets the whole amount back.
    let refunded = bridge.refund_swap(&swap_id, &initiator(), now + 61).unwrap();
    assert_eq!(refunded, amount);

    let refunded_swap = bridge.get_swap(&swap_id).unwrap();
    assert_eq!(refunded_swap.state, SwapState::Refunded);
}

#[test]
fn test_resolver_registration_and_performance() {
    let mut bridge = new_bridge();
    let resolver = b"resolver".to_vec();
    let stake = 3_000_000_000i128;

    bridge.register_resolver(&resolver, stake, 700).unwrap();

    let resolver_info = bridge.get_resolver(&resolver).unwrap();
    assert_eq!(resolver_info.stake, stake);
    assert_eq!(resolver_info.reputation, 1000);
    assert_eq!(resolver_info.total_volume, 0);
    assert_eq!(resolver_info.success_rate, 10000);
    assert_eq!(resolver_info.active, true);

    let analytics = bridge.get_analytics();
    assert_eq!(analytics.total_resolvers, 1);

    assert_eq!(
        bridge.register_resolver(&resolver, stake, 800),
        Err(ContractError::ResolverAlreadyRegistered)
    );
    assert_eq!(
        bridge.register_resolver(&b"poor".to_vec(), 1, 800),
        Err(ContractError::InsufficientStake)
    );
}

#[test]
fn test_invalid_secret_rejection() {
    let env = Env::default();
    let mut bridge = new_bridge();

    let amount = 1_000_000_000i128;
    let correct_secret: Vec<u8> = vec![10u8; 32];
    let correct_secret_hash = keccak(&env, &correct_secret);
    let wrong_secret: Vec<u8> = vec![11u8; 32];
    let counterpart: Vec<u8> = vec![3u8; 20];
    let merkle_root: Vec<u8> = vec![12u8; 32];
    let now = 50u64;

    let swap_id = bridge
        .initiate_swap(
            &env,
            &initiator(),
            &token(),
            amount,
            &correct_secret_hash,
            3600,
            &counterpart,
            false,
            &merkle_root,
            now,
        )
        .unwrap();

    let result = bridge.complete_swap(&env, &swap_id, &wrong_secret, now + 1);
    assert_eq!(result, Err(ContractError::InvalidSecret));

    let swap = bridge.get_swap(&swap_id).unwrap();
    assert_eq!(swap.state, SwapState::Initiated);

    bridge.complete_swap(&env, &swap_id, &correct_secret, now + 2).unwrap();
    let completed_swap = bridge.get_swap(&swap_id).unwrap();
    assert_eq!(completed_swap.state, SwapState::Completed);
}

#[test]
fn test_merkle_proof_validation() {
    let env = Env::default();
    let mut bridge = new_bridge();

    let resolver = b"resolver".to_vec();
    bridge.register_resolver(&resolver, 2_000_000_000i128, 10).unwrap();

    let amount = 6_000_000_000i128;
    let fill_amount = 2_000_000_000i128;
    let nonce = 1u64;

    // A two-leaf tree: the authorized slot and one sibling.
    let leaf = derive_fill_leaf(&env, &resolver, fill_amount, nonce);
    let sibling: Vec<u8> = vec![15u8; 32];
    let merkle_root = combine(&env, &leaf, &sibling);
    let valid_proof = vec![sibling.clone()];

    let secret_hash: Vec<u8> = vec![13u8; 32];
    let counterpart: Vec<u8> = vec![4u8; 20];
    let now = 20u64;

    let swap_id = bridge
        .initiate_swap(
            &env,
            &initiator(),
            &token(),
            amount,
            &secret_hash,
            3600,
            &counterpart,
            true,
            &merkle_root,
            now,
        )
        .unwrap();

    // An unauthorized proof is rejected before anything changes.
    let bad_proof: Vec<Vec<u8>> = vec![vec![16u8; 32]];
    assert_eq!(
        bridge.execute_partial_fill(&env, &swap_id, &resolver, fill_amount, &bad_proof, nonce, now + 1),
        Err(ContractError::InvalidMerkleProof)
    );

    bridge
        .execute_partial_fill(&env, &swap_id, &resolver, fill_amount, &valid_proof, nonce, now + 1)
        .unwrap();

    let swap = bridge.get_swap(&swap_id).unwrap();
    assert_eq!(swap.filled, fill_amount);
    assert_eq!(swap.state, SwapState::PartialFilled);

    let fills = bridge.get_partial_fills(&swap_id);
    assert_eq!(fills.len(), 1);
    assert_eq!(fills[0].resolver, resolver);
    assert_eq!(fills[0].amount, fill_amount);
}

#[test]
fn test_analytics_tracking() {
    let env = Env::default();
    let mut bridge = new_bridge();

    let initial_analytics = bridge.get_analytics();
    assert_eq!(initial_analytics.total_swaps, 0);
    assert_eq!(initial_analytics.total_volume, 0);

    let now = 40u64;
    for i in 0..3u8 {
        let amount = (i + 1) as i128 * 1_000_000_000i128;
        let secret: Vec<u8> = vec![i + 20; 32];
        let secret_hash = keccak(&env, &secret);
        let counterpart: Vec<u8> = vec![i + 5; 20];
        let merkle_root: Vec<u8> = vec![i + 25; 32];

        let swap_id = bridge
            .initiate_swap(
                &env,
                &initiator(),
                &token(),
                amount,
                &secret_hash,
                3600,
                &counterpart,
                false,
                &merkle_root,
                now,
            )
            .unwrap();

        bridge.complete_swap(&env, &swap_id, &secret, now + 1).unwrap();
    }

    let final_analytics = bridge.get_analytics();
    assert_eq!(final_analytics.total_swaps, 3);
    assert_eq!(final_analytics.total_volume, 6_000_000_000i128);
    assert_eq!(final_analytics.success_rate, 10000);
}

#[test]
fn test_contract_pause_functionality() {
    let env = Env::default();
    let mut bridge = new_bridge();

    assert!(!bridge.is_paused());

    assert_eq!(
        bridge.pause(&b"intruder".to_vec()),
        Err(ContractError::Unauthorized)
    );
    bridge.pause(&admin()).unwrap();
    assert!(bridge.is_paused());

    let amount = 1_000_000_000i128;
    let secret_hash: Vec<u8> = vec![30u8; 32];
    let counterpart: Vec<u8> = vec![10u8; 20];
    let merkle_root: Vec<u8> = vec![31u8; 32];

    let result = bridge.initiate_swap(
        &env,
        &initiator(),
        &token(),
        amount,
        &secret_hash,
        3600,
        &counterpart,
        false,
        &merkle_root,
        10,
    );
    assert_eq!(result, Err(ContractError::ContractPaused));

    bridge.unpause(&admin()).unwrap();
    assert!(!bridge.is_paused());
    bridge
        .initiate_swap(
            &env,
            &initiator(),
            &token(),
            amount,
            &secret_hash,
            3600,
            &counterpart,
            false,
            &merkle_root,
            10,
        )
        .unwrap();
}

#[test]
fn test_terminal_states_reject() {
    let env = Env::default();
    let mut bridge = new_bridge();

    let secret: Vec<u8> = vec![40u8; 32];
    let secret_hash = keccak(&env, &secret);
    let now = 60u64;

    let swap_id = bridge
        .initiate_swap(
            &env,
            &initiator(),
            &token(),
            1_000i128,
            &secret_hash,
            3600,
            &vec![0u8; 20],
            true,
            &vec![2u8; 32],
            now,
        )
        .unwrap();

    bridge.complete_swap(&env, &swap_id, &secret, now + 1).unwrap();

    // A completed swap accepts nothing more, and its record no longer
    // changes.
    assert_eq!(
        bridge.complete_swap(&env, &swap_id, &secret, now + 2),
        Err(ContractError::SwapAlreadyCompleted)
    );
    assert_eq!(
        bridge.refund_swap(&swap_id, &initiator(), now + 7200),
        Err(ContractError::SwapAlreadyCompleted)
    );
    assert_eq!(
        bridge.execute_partial_fill(&env, &swap_id, &b"r".to_vec(), 1, &Vec::new(), 1, now + 2),
        Err(ContractError::InvalidSwapState)
    );
    assert_eq!(bridge.get_swap(&swap_id).unwrap().state, SwapState::Completed);

    // The same holds for a refunded swap.
    let secret2: Vec<u8> = vec![41u8; 32];
    let swap_id2 = bridge
        .initiate_swap(
            &env,
            &initiator(),
            &token(),
            2_000i128,
            &keccak(&env, &secret2),
            60,
            &vec![0u8; 20],
            false,
            &vec![2u8; 32],
            now,
        )
        .unwrap();
    bridge.refund_swap(&swap_id2, &initiator(), now + 61).unwrap();
    assert_eq!(
        bridge.complete_swap(&env, &swap_id2, &secret2, now + 62),
        Err(ContractError::SwapAlreadyRefunded)
    );
    assert_eq!(
        bridge.refund_swap(&swap_id2, &initiator(), now + 62),
        Err(ContractError::SwapAlreadyRefunded)
    );
    assert_eq!(bridge.get_swap(&swap_id2).unwrap().state, SwapState::Refunded);
}

#[test]
fn test_secret_replay_across_swaps() {
    let env = Env::default();
    let mut bridge = new_bridge();

    let secret: Vec<u8> = vec![50u8; 32];
    let secret_hash = keccak(&env, &secret);
    let now = 70u64;

    // Two different swaps lock funds against the same secret hash.
    let id1 = bridge
        .initiate_swap(
            &env,
            &initiator(),
            &token(),
            1_000i128,
            &secret_hash,
            3600,
            &vec![0u8; 20],
            false,
            &vec![2u8; 32],
            now,
        )
        .unwrap();
    let id2 = bridge
        .initiate_swap(
            &env,
            &initiator(),
            &token(),
            2_000i128,
            &secret_hash,
            3600,
            &vec![0u8; 20],
            false,
            &vec![2u8; 32],
            now,
        )
        .unwrap();
    assert_ne!(id1, id2);

    assert!(!bridge.is_secret_used(&secret));
    bridge.complete_swap(&env, &id1, &secret, now + 1).unwrap();
    assert!(bridge.is_secret_used(&secret));

    // The secret is consumed system-wide, not per swap.
    assert_eq!(
        bridge.complete_swap(&env, &id2, &secret, now + 2),
        Err(ContractError::SecretAlreadyUsed)
    );
    assert_eq!(bridge.get_swap(&id2).unwrap().state, SwapState::Initiated);
}

#[test]
fn test_complete_refund_windows_exclusive() {
    let env = Env::default();

    let secret: Vec<u8> = vec![60u8; 32];
    let now = 80u64;

    // Before expiry: refund is rejected, completion succeeds.
    let mut early = new_bridge();
    let id = early
        .initiate_swap(
            &env,
            &initiator(),
            &token(),
            1_000i128,
            &keccak(&env, &secret),
            3600,
            &vec![0u8; 20],
            false,
            &vec![2u8; 32],
            now,
        )
        .unwrap();
    assert_eq!(
        early.refund_swap(&id, &initiator(), now + 3599),
        Err(ContractError::TimelockNotExpired)
    );
    early.complete_swap(&env, &id, &secret, now + 3599).unwrap();

    // From the expiry instant on: completion is rejected, refund
    // succeeds. The boundary itself is expired.
    let mut late = new_bridge();
    let id = late
        .initiate_swap(
            &env,
            &initiator(),
            &token(),
            1_000i128,
            &keccak(&env, &secret),
            3600,
            &vec![0u8; 20],
            false,
            &vec![2u8; 32],
            now,
        )
        .unwrap();
    assert_eq!(
        late.complete_swap(&env, &id, &secret, now + 3600),
        Err(ContractError::SwapExpired)
    );
    late.refund_swap(&id, &initiator(), now + 3600).unwrap();
}

#[test]
fn test_initiate_validation_errors() {
    let env = Env::default();
    let mut bridge = new_bridge();
    let secret_hash: Vec<u8> = vec![70u8; 32];
    let counterpart: Vec<u8> = vec![0u8; 20];
    let root: Vec<u8> = vec![2u8; 32];
    let now = 90u64;

    assert_eq!(
        bridge.initiate_swap(&env, &initiator(), &token(), 0, &secret_hash, 3600, &counterpart, false, &root, now),
        Err(ContractError::InvalidAmount)
    );
    assert_eq!(
        bridge.initiate_swap(&env, &initiator(), &token(), -5, &secret_hash, 3600, &counterpart, false, &root, now),
        Err(ContractError::InvalidAmount)
    );
    assert_eq!(
        bridge.initiate_swap(&env, &initiator(), &token(), 10, &vec![0u8; 32], 3600, &counterpart, false, &root, now),
        Err(ContractError::InvalidSecretHash)
    );
    assert_eq!(
        bridge.initiate_swap(&env, &initiator(), &token(), 10, &secret_hash, 59, &counterpart, false, &root, now),
        Err(ContractError::InvalidTimelock)
    );
    assert_eq!(
        bridge.initiate_swap(&env, &initiator(), &token(), 10, &secret_hash, 2_592_001, &counterpart, false, &root, now),
        Err(ContractError::InvalidTimelock)
    );

    // The same parameters at the same instant derive the same
    // identifier: the collision is rejected, not overwritten.
    bridge
        .initiate_swap(&env, &initiator(), &token(), 10, &secret_hash, 3600, &counterpart, false, &root, now)
        .unwrap();
    assert_eq!(
        bridge.initiate_swap(&env, &initiator(), &token(), 10, &secret_hash, 3600, &counterpart, false, &root, now),
        Err(ContractError::SwapAlreadyExists)
    );

    assert_eq!(
        bridge.complete_swap(&env, &vec![1u8; 32], &secret_hash, now),
        Err(ContractError::SwapNotFound)
    );
    assert_eq!(
        bridge.refund_swap(&vec![1u8; 32], &initiator(), now),
        Err(ContractError::SwapNotFound)
    );
}

#[test]
fn test_fill_validation_errors() {
    let env = Env::default();
    let mut bridge = new_bridge();
    let resolver = b"resolver".to_vec();
    bridge.register_resolver(&resolver, 2_000_000_000i128, 5).unwrap();

    let now = 95u64;
    let secret_hash: Vec<u8> = vec![80u8; 32];

    // Partial fills must be enabled on the swap.
    let leaf = derive_fill_leaf(&env, &resolver, 100, 1);
    let disabled_id = bridge
        .initiate_swap(&env, &initiator(), &token(), 1_000i128, &secret_hash, 3600, &vec![0u8; 20], false, &leaf, now)
        .unwrap();
    assert_eq!(
        bridge.execute_partial_fill(&env, &disabled_id, &resolver, 100, &Vec::new(), 1, now + 1),
        Err(ContractError::PartialFillsNotEnabled)
    );

    // A single-leaf tree authorizing (resolver, 100, nonce 1).
    let secret_hash2: Vec<u8> = vec![81u8; 32];
    let enabled_id = bridge
        .initiate_swap(&env, &initiator(), &token(), 1_000i128, &secret_hash2, 3600, &vec![1u8; 20], true, &leaf, now)
        .unwrap();

    assert_eq!(
        bridge.execute_partial_fill(&env, &enabled_id, &resolver, 0, &Vec::new(), 1, now + 1),
        Err(ContractError::InvalidFillAmount)
    );
    assert_eq!(
        bridge.execute_partial_fill(&env, &enabled_id, &resolver, 1_001, &Vec::new(), 1, now + 1),
        Err(ContractError::ExceedsSwapAmount)
    );
    assert_eq!(
        bridge.execute_partial_fill(&env, &enabled_id, &resolver, 100, &Vec::new(), 1, now + 3600),
        Err(ContractError::SwapExpired)
    );
    assert_eq!(
        bridge.execute_partial_fill(&env, &enabled_id, &b"unknown".to_vec(), 100, &Vec::new(), 1, now + 1),
        Err(ContractError::ResolverNotFound)
    );
    assert_eq!(
        bridge.execute_partial_fill(&env, &vec![1u8; 32], &resolver, 100, &Vec::new(), 1, now + 1),
        Err(ContractError::SwapNotFound)
    );

    // A registered entry that was administratively deactivated may not
    // fill.
    let dormant = b"dormant".to_vec();
    bridge.resolvers.push((
        dormant.clone(),
        Resolver {
            stake: 2_000_000_000,
            reputation: 1000,
            total_volume: 0,
            success_rate: 10000,
            active: false,
            registration_time: 5,
        },
    ));
    assert_eq!(
        bridge.execute_partial_fill(&env, &enabled_id, &dormant, 100, &Vec::new(), 1, now + 1),
        Err(ContractError::ResolverNotActive)
    );

    // The authorized fill itself goes through.
    bridge
        .execute_partial_fill(&env, &enabled_id, &resolver, 100, &Vec::new(), 1, now + 1)
        .unwrap();
    assert_eq!(bridge.get_swap(&enabled_id).unwrap().filled, 100);
}

#[test]
fn test_reward_overflow_fails_loudly() {
    let env = Env::default();
    let mut bridge = new_bridge();
    let resolver = b"resolver".to_vec();
    bridge.register_resolver(&resolver, 2_000_000_000i128, 5).unwrap();

    let now = 99u64;
    let amount = i128::MAX;
    let fill_amount = i128::MAX;
    let leaf = derive_fill_leaf(&env, &resolver, fill_amount, 1);

    let swap_id = bridge
        .initiate_swap(&env, &initiator(), &token(), amount, &vec![90u8; 32], 3600, &vec![0u8; 20], true, &leaf, now)
        .unwrap();

    // A fill near the representable maximum with a nonzero rate must
    // fail the reward computation, never wrap, and change nothing.
    assert_eq!(
        bridge.execute_partial_fill(&env, &swap_id, &resolver, fill_amount, &Vec::new(), 1, now + 1),
        Err(ContractError::CalculationOverflow)
    );
    assert_eq!(bridge.get_swap(&swap_id).unwrap().filled, 0);
    assert_eq!(bridge.get_resolver(&resolver).unwrap().total_volume, 0);
}

#[test]
fn test_refund_authorization() {
    let env = Env::default();
    let mut bridge = new_bridge();
    let now = 30u64;

    let swap_id = bridge
        .initiate_swap(&env, &initiator(), &token(), 1_000i128, &vec![85u8; 32], 60, &vec![0u8; 20], false, &vec![2u8; 32], now)
        .unwrap();

    assert_eq!(
        bridge.refund_swap(&swap_id, &b"intruder".to_vec(), now + 61),
        Err(ContractError::UnauthorizedRefund)
    );
    bridge.refund_swap(&swap_id, &initiator(), now + 61).unwrap();
}

#[test]
fn test_pause_gates_mutations() {
    let env = Env::default();
    let mut bridge = new_bridge();
    let secret: Vec<u8> = vec![77u8; 32];
    let now = 25u64;
    let swap_id = bridge
        .initiate_swap(&env, &initiator(), &token(), 1_000i128, &keccak(&env, &secret), 60, &vec![0u8; 20], true, &vec![2u8; 32], now)
        .unwrap();

    bridge.pause(&admin()).unwrap();
    assert_eq!(
        bridge.complete_swap(&env, &swap_id, &secret, now + 1),
        Err(ContractError::ContractPaused)
    );
    assert_eq!(
        bridge.refund_swap(&swap_id, &initiator(), now + 61),
        Err(ContractError::ContractPaused)
    );
    assert_eq!(
        bridge.execute_partial_fill(&env, &swap_id, &b"r".to_vec(), 1, &Vec::new(), 1, now + 1),
        Err(ContractError::ContractPaused)
    );
    assert_eq!(
        bridge.register_resolver(&b"r".to_vec(), 2_000_000_000, now),
        Err(ContractError::ContractPaused)
    );
    assert_eq!(
        bridge.unpause(&b"intruder".to_vec()),
        Err(ContractError::Unauthorized)
    );
    bridge.unpause(&admin()).unwrap();
    bridge.complete_swap(&env, &swap_id, &secret, now + 1).unwrap();
}

#[test]
fn test_partial_fill_audit_log() {
    let env = Env::default();
    let mut bridge = new_bridge();
    let resolver = b"resolver".to_vec();
    bridge.register_resolver(&resolver, 2_000_000_000i128, 5).unwrap();
    let now = 15u64;

    // Two independent swaps, each authorizing one fill by the same
    // resolver.
    let leaf_a = derive_fill_leaf(&env, &resolver, 100, 1);
    let id_a = bridge
        .initiate_swap(&env, &initiator(), &token(), 500i128, &vec![91u8; 32], 3600, &vec![0u8; 20], true, &leaf_a, now)
        .unwrap();
    let leaf_b = derive_fill_leaf(&env, &resolver, 200, 2);
    let id_b = bridge
        .initiate_swap(&env, &initiator(), &token(), 900i128, &vec![92u8; 32], 3600, &vec![0u8; 20], true, &leaf_b, now)
        .unwrap();

    bridge.execute_partial_fill(&env, &id_a, &resolver, 100, &Vec::new(), 1, now + 1).unwrap();
    bridge.execute_partial_fill(&env, &id_b, &resolver, 200, &Vec::new(), 2, now + 2).unwrap();

    // The audit log is filtered per swap and keeps execution order.
    let fills_a = bridge.get_partial_fills(&id_a);
    assert_eq!(fills_a.len(), 1);
    assert_eq!(fills_a[0].amount, 100);
    assert_eq!(fills_a[0].timestamp, now + 1);

    let fills_b = bridge.get_partial_fills(&id_b);
    assert_eq!(fills_b.len(), 1);
    assert_eq!(fills_b[0].amount, 200);

    assert_eq!(bridge.get_partial_fills(&vec![9u8; 32]).len(), 0);

    // The resolver's cumulative volume spans both swaps.
    assert_eq!(bridge.get_resolver(&resolver).unwrap().total_volume, 300);
}
