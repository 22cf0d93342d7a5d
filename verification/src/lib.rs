pub mod bytes;
pub mod error;
pub mod hashing;
pub mod htlc;
pub mod partial_fills;
pub mod store;
pub mod types;

use vstd::prelude::*;

use crate::bytes::{bytes_eq, bytes_seq_view, clone_bytes, clone_bytes_vec};
use crate::error::ContractError;
use crate::hashing::{
    derive_fill_leaf, derive_swap_id, fill_leaf_preimage, is_zero_hash, keccak_of,
    swap_id_preimage, zero_hash,
};
use crate::htlc::{
    can_complete_res, can_complete_swap, can_refund_res, can_refund_swap, checked_fill_reward,
    fill_reward_res, lemma_complete_refund_exclusive, lemma_terminal_state_rejects,
    validate_fill_res, validate_partial_fill, validate_secret,
};
use crate::partial_fills::{merkle_fold, verify_merkle_proof};
use crate::store::{
    contains_bytes, distinct_keys, find_bytes, find_key, lemma_contains_push, lemma_to_map_dom,
    lemma_to_map_index, lemma_to_map_push, lemma_to_map_update, to_map,
};
use crate::types::{
    after_fill, is_terminal_state, state_rank, with_state, Analytics, PartialFill,
    PartialFillView, Resolver, Swap, SwapState, SwapView,
};

verus! {

/// The deployment-wide parameters of the engine. One reward rate,
/// `resolver_reward_rate`, governs every partial fill; `base_fee_rate`
/// is carried for the host's own fee accounting.
pub struct Config {
    pub admin: Vec<u8>,
    pub min_timelock: u64,
    pub max_timelock: u64,
    pub min_stake: i128,
    pub base_fee_rate: u32,
    pub resolver_reward_rate: u32,
    pub native_token: Vec<u8>,
}

/// The mathematical value of the configuration.
pub struct ConfigView {
    pub admin: Seq<u8>,
    pub min_timelock: u64,
    pub max_timelock: u64,
    pub min_stake: i128,
    pub base_fee_rate: u32,
    pub resolver_reward_rate: u32,
    pub native_token: Seq<u8>,
}

impl View for Config {
    type V = ConfigView;

    open spec fn view(&self) -> ConfigView {
        ConfigView {
            admin: self.admin@,
            min_timelock: self.min_timelock,
            max_timelock: self.max_timelock,
            min_stake: self.min_stake,
            base_fee_rate: self.base_fee_rate,
            resolver_reward_rate: self.resolver_reward_rate,
            native_token: self.native_token@,
        }
    }
}

/// The swap engine: configuration, the administrative pause flag, and
/// the keyed records that the host would hold in its store — swaps by
/// identifier, resolvers by address, the set of consumed secrets, the
/// append-only fill audit log, and the aggregate counters.
pub struct StellarBridge {
    pub config: Config,
    pub paused: bool,
    pub total_swaps: u32,
    pub analytics: Analytics,
    pub swaps: Vec<(Vec<u8>, Swap)>,
    pub resolvers: Vec<(Vec<u8>, Resolver)>,
    pub used_secrets: Vec<Vec<u8>>,
    pub fills: Vec<(Vec<u8>, PartialFill)>,
}

impl StellarBridge {
    /// The swap records as a map from identifier to value.
    pub open spec fn swaps_map(self) -> Map<Seq<u8>, SwapView> {
        to_map(self.swaps@)
    }

    /// The resolver ledger as a map from address to entry.
    pub open spec fn resolvers_map(self) -> Map<Seq<u8>, Resolver> {
        to_map(self.resolvers@)
    }

    /// Whether a secret has ever been consumed, anywhere in the system.
    pub open spec fn secret_used(self, secret: Seq<u8>) -> bool {
        contains_bytes(self.used_secrets@, secret)
    }

    /// The audit log of executed fills, as (swap identifier, record)
    /// pairs in execution order.
    pub open spec fn fills_view(self) -> Seq<(Seq<u8>, PartialFillView)> {
        self.fills@.map_values(|p: (Vec<u8>, PartialFill)| (p.0@, p.1@))
    }

    /// The engine's invariant: record keys are unique and every stored
    /// swap is well-formed — in particular `0 <= filled <= amount`.
    pub open spec fn wf(self) -> bool {
        &&& distinct_keys(self.swaps@)
        &&& distinct_keys(self.resolvers@)
        &&& forall|i: int| 0 <= i < self.swaps@.len() ==> (#[trigger] self.swaps@[i]).1@.wf()
    }

    /// Sets up a fresh engine: nothing stored, nothing paused, counters
    /// at zero and the success rate at its full 10000 basis points.
    pub fn initialize(
        admin: Vec<u8>,
        min_timelock: u64,
        max_timelock: u64,
        min_stake: i128,
        base_fee_rate: u32,
        resolver_reward_rate: u32,
        native_token: Vec<u8>,
    ) -> (r: StellarBridge)
        ensures
            r.wf(),
            r.config@ == (ConfigView {
                admin: admin@,
                min_timelock,
                max_timelock,
                min_stake,
                base_fee_rate,
                resolver_reward_rate,
                native_token: native_token@,
            }),
            !r.paused,
            r.total_swaps == 0,
            r.analytics == (Analytics {
                total_volume: 0,
                total_swaps: 0,
                total_resolvers: 0,
                success_rate: 10000,
                average_completion_time: 0,
            }),
            r.swaps_map() == Map::<Seq<u8>, SwapView>::empty(),
            r.resolvers_map() == Map::<Seq<u8>, Resolver>::empty(),
            forall|x: Seq<u8>| !r.secret_used(x),
            r.fills_view() == Seq::<(Seq<u8>, PartialFillView)>::empty(),
    {
        let r = StellarBridge {
            config: Config {
                admin,
                min_timelock,
                max_timelock,
                min_stake,
                base_fee_rate,
                resolver_reward_rate,
                native_token,
            },
            paused: false,
            total_swaps: 0,
            analytics: Analytics {
                total_volume: 0,
                total_swaps: 0,
                total_resolvers: 0,
                success_rate: 10000,
                average_completion_time: 0,
            },
            swaps: Vec::new(),
            resolvers: Vec::new(),
            used_secrets: Vec::new(),
            fills: Vec::new(),
        };
        proof {
            assert(r.fills_view() =~= Seq::<(Seq<u8>, PartialFillView)>::empty());
        }
        r
    }

    /// Looks a swap up by identifier and returns a copy of its record.
    pub fn get_swap(&self, swap_id: &Vec<u8>) -> (r: Result<Swap, ContractError>)
        requires
            self.wf(),
        ensures
            match r {
                Ok(s) => self.swaps_map().contains_key(swap_id@)
                    && s@ == self.swaps_map()[swap_id@],
                Err(e) => !self.swaps_map().contains_key(swap_id@) && e
                    == ContractError::SwapNotFound,
            },
    {
        proof {
            lemma_to_map_dom(self.swaps@, swap_id@);
        }
        match find_key(&self.swaps, swap_id) {
            Some(i) => {
                proof {
                    lemma_to_map_index(self.swaps@, i as int);
                }
                Ok(self.swaps[i].1.clone())
            },
            None => Err(ContractError::SwapNotFound),
        }
    }

    /// Looks a resolver up by address and returns its ledger entry.
    pub fn get_resolver(&self, resolver: &Vec<u8>) -> (r: Result<Resolver, ContractError>)
        requires
            self.wf(),
        ensures
            match r {
                Ok(entry) => self.resolvers_map().contains_key(resolver@) && entry
                    == self.resolvers_map()[resolver@],
                Err(e) => !self.resolvers_map().contains_key(resolver@) && e
                    == ContractError::ResolverNotFound,
            },
    {
        proof {
            lemma_to_map_dom(self.resolvers@, resolver@);
        }
        match find_key(&self.resolvers, resolver) {
            Some(i) => {
                proof {
                    lemma_to_map_index(self.resolvers@, i as int);
                }
                Ok(self.resolvers[i].1)
            },
            None => Err(ContractError::ResolverNotFound),
        }
    }

    /// The aggregate counters.
    pub fn get_analytics(&self) -> (r: Analytics)
        ensures
            r == self.analytics,
    {
        self.analytics
    }

    /// Whether the secret has ever been consumed by a completion.
    pub fn is_secret_used(&self, secret: &Vec<u8>) -> (r: bool)
        ensures
            r == self.secret_used(secret@),
    {
        find_bytes(&self.used_secrets, secret)
    }

    /// Whether the mutating operations are currently gated off.
    pub fn is_paused(&self) -> (r: bool)
        ensures
            r == self.paused,
    {
        self.paused
    }

    /// Pauses the engine; only the administrator may do so.
    pub fn pause(&mut self, caller: &Vec<u8>) -> (r: Result<(), ContractError>)
        requires
            old(self).wf(),
        ensures
            final(self).wf(),
            r == (if caller@ == old(self).config@.admin {
                Ok::<(), ContractError>(())
            } else {
                Err::<(), ContractError>(ContractError::Unauthorized)
            }),
            r is Err ==> *final(self) == *old(self),
            r is Ok ==> final(self).paused,
            final(self).config == old(self).config,
            final(self).total_swaps == old(self).total_swaps,
            final(self).analytics == old(self).analytics,
            final(self).swaps == old(self).swaps,
            final(self).resolvers == old(self).resolvers,
            final(self).used_secrets == old(self).used_secrets,
            final(self).fills == old(self).fills,
    {
        if !bytes_eq(caller, &self.config.admin) {
            return Err(ContractError::Unauthorized);
        }
        self.paused = true;
        Ok(())
    }

    /// Unpauses the engine; only the administrator may do so.
    pub fn unpause(&mut self, caller: &Vec<u8>) -> (r: Result<(), ContractError>)
        requires
            old(self).wf(),
        ensures
            final(self).wf(),
            r == (if caller@ == old(self).config@.admin {
                Ok::<(), ContractError>(())
            } else {
                Err::<(), ContractError>(ContractError::Unauthorized)
            }),
            r is Err ==> *final(self) == *old(self),
            r is Ok ==> !final(self).paused,
            final(self).config == old(self).config,
            final(self).total_swaps == old(self).total_swaps,
            final(self).analytics == old(self).analytics,
            final(self).swaps == old(self).swaps,
            final(self).resolvers == old(self).resolvers,
            final(self).used_secrets == old(self).used_secrets,
            final(self).fills == old(self).fills,
    {
        if !bytes_eq(caller, &self.config.admin) {
            return Err(ContractError::Unauthorized);
        }
        self.paused = false;
        Ok(())
    }
}

/// The result of completing a swap: the checks run in order — pause,
/// existence, the completion guard, the secret-hash match, and global
/// one-time use of the secret — and the first failure wins. On success
/// the unfilled remainder `amount - filled` is owed.
pub open spec fn complete_outcome(b: StellarBridge, id: Seq<u8>, secret: Seq<u8>, now: u64) -> Result<
    i128,
    ContractError,
> {
    if b.paused {
        Err(ContractError::ContractPaused)
    } else if !b.swaps_map().contains_key(id) {
        Err(ContractError::SwapNotFound)
    } else {
        let s = b.swaps_map()[id];
        match can_complete_res(s, now) {
            Err(e) => Err(e),
            Ok(_) => if keccak_of(secret) != s.secret_hash {
                Err(ContractError::InvalidSecret)
            } else if b.secret_used(secret) {
                Err(ContractError::SecretAlreadyUsed)
            } else {
                Ok((s.amount - s.filled) as i128)
            },
        }
    }
}

/// The result of refunding a swap: pause, existence, then the refund
/// guard (initiator only, live swap, timelock expired). On success the
/// unfilled remainder `amount - filled` is owed back to the initiator.
pub open spec fn refund_outcome(b: StellarBridge, id: Seq<u8>, caller: Seq<u8>, now: u64) -> Result<
    i128,
    ContractError,
> {
    if b.paused {
        Err(ContractError::ContractPaused)
    } else if !b.swaps_map().contains_key(id) {
        Err(ContractError::SwapNotFound)
    } else {
        let s = b.swaps_map()[id];
        match can_refund_res(s, caller, now) {
            Err(e) => Err(e),
            Ok(_) => Ok((s.amount - s.filled) as i128),
        }
    }
}

impl StellarBridge {
    /// Completes a swap by revealing the secret behind its hash, before
    /// expiry. On success the secret is consumed system-wide, the swap
    /// becomes `Completed`, and the unfilled remainder — the amount owed
    /// to the claimant — is returned. On any error nothing changes.
    pub fn complete_swap(
        &mut self,
        env: &soroban_sdk::Env,
        swap_id: &Vec<u8>,
        secret: &Vec<u8>,
        now: u64,
    ) -> (r: Result<i128, ContractError>)
        requires
            old(self).wf(),
        ensures
            final(self).wf(),
            r == complete_outcome(*old(self), swap_id@, secret@, now),
            r is Err ==> *final(self) == *old(self),
            r is Ok ==> final(self).swaps_map() == old(self).swaps_map().insert(
                swap_id@,
                with_state(old(self).swaps_map()[swap_id@], SwapState::Completed),
            ),
            r is Ok ==> forall|x: Seq<u8>|
                final(self).secret_used(x) <==> (old(self).secret_used(x) || x == secret@),
            final(self).config == old(self).config,
            final(self).paused == old(self).paused,
            final(self).total_swaps == old(self).total_swaps,
            final(self).analytics == old(self).analytics,
            final(self).resolvers == old(self).resolvers,
            final(self).fills == old(self).fills,
    {
        if self.paused {
            return Err(ContractError::ContractPaused);
        }
        proof {
            lemma_to_map_dom(self.swaps@, swap_id@);
        }
        let idx = match find_key(&self.swaps, swap_id) {
            Some(i) => i,
            None => {
                return Err(ContractError::SwapNotFound);
            },
        };
        proof {
            lemma_to_map_index(self.swaps@, idx as int);
        }
        match can_complete_swap(&self.swaps[idx].1, now) {
            Err(e) => {
                return Err(e);
            },
            Ok(_) => {},
        }
        if !validate_secret(env, secret, &self.swaps[idx].1.secret_hash) {
            return Err(ContractError::InvalidSecret);
        }
        if find_bytes(&self.used_secrets, secret) {
            return Err(ContractError::SecretAlreadyUsed);
        }
        let ghost old_secrets = self.used_secrets@;
        self.used_secrets.push(clone_bytes(secret));
        proof {
            assert forall|x: Seq<u8>|
                self.secret_used(x) <==> (contains_bytes(old_secrets, x) || x == secret@) by {
                lemma_contains_push(old_secrets, self.used_secrets@.last(), x);
            }
        }
        let ghost old_swaps = self.swaps@;
        let remaining = self.swaps[idx].1.amount - self.swaps[idx].1.filled;
        self.swaps[idx].1.state = SwapState::Completed;
        proof {
            lemma_to_map_update(old_swaps, self.swaps@, idx as int);
            assert forall|i: int| 0 <= i < self.swaps@.len() implies (
            #[trigger] self.swaps@[i]).1@.wf() by {
                if i != idx as int {
                    assert(self.swaps@[i] == old_swaps[i]);
                }
            }
        }
        Ok(remaining)
    }

    /// Refunds an expired swap to its initiator: the unfilled remainder
    /// is owed back, and the swap becomes `Refunded`. Only the initiator
    /// may refund, and only once the timelock has expired. On any error
    /// nothing changes.
    pub fn refund_swap(&mut self, swap_id: &Vec<u8>, caller: &Vec<u8>, now: u64) -> (r: Result<
        i128,
        ContractError,
    >)
        requires
            old(self).wf(),
        ensures
            final(self).wf(),
            r == refund_outcome(*old(self), swap_id@, caller@, now),
            r is Err ==> *final(self) == *old(self),
            r is Ok ==> final(self).swaps_map() == old(self).swaps_map().insert(
                swap_id@,
                with_state(old(self).swaps_map()[swap_id@], SwapState::Refunded),
            ),
            final(self).config == old(self).config,
            final(self).paused == old(self).paused,
            final(self).total_swaps == old(self).total_swaps,
            final(self).analytics == old(self).analytics,
            final(self).resolvers == old(self).resolvers,
            final(self).used_secrets == old(self).used_secrets,
            final(self).fills == old(self).fills,
    {
        if self.paused {
            return Err(ContractError::ContractPaused);
        }
        proof {
            lemma_to_map_dom(self.swaps@, swap_id@);
        }
        let idx = match find_key(&self.swaps, swap_id) {
            Some(i) => i,
            None => {
                return Err(ContractError::SwapNotFound);
            },
        };
        proof {
            lemma_to_map_index(self.swaps@, idx as int);
        }
        match can_refund_swap(&self.swaps[idx].1, caller, now) {
            Err(e) => {
                return Err(e);
            },
            Ok(_) => {},
        }
        let ghost old_swaps = self.swaps@;
        let remaining = self.swaps[idx].1.amount - self.swaps[idx].1.filled;
        self.swaps[idx].1.state = SwapState::Refunded;
        proof {
            lemma_to_map_update(old_swaps, self.swaps@, idx as int);
            assert forall|i: int| 0 <= i < self.swaps@.len() implies (
            #[trigger] self.swaps@[i]).1@.wf() by {
                if i != idx as int {
                    assert(self.swaps@[i] == old_swaps[i]);
                }
            }
        }
        Ok(remaining)
    }
}

/// The result of initiating a swap: the checks run in order — pause,
/// positive amount, non-zero secret hash, timelock delta within the
/// configured window — then identifier derivation and the collision
/// check, and the first failure wins.
pub open spec fn initiate_outcome(
    b: StellarBridge,
    initiator: Seq<u8>,
    token: Seq<u8>,
    amount: i128,
    secret_hash: Seq<u8>,
    timelock: u64,
    now: u64,
) -> Result<Seq<u8>, ContractError> {
    if b.paused {
        Err(ContractError::ContractPaused)
    } else if amount <= 0 {
        Err(ContractError::InvalidAmount)
    } else if secret_hash == zero_hash() {
        Err(ContractError::InvalidSecretHash)
    } else if timelock < b.config@.min_timelock || timelock > b.config@.max_timelock {
        Err(ContractError::InvalidTimelock)
    } else {
        let id = keccak_of(swap_id_preimage(initiator, token, amount, secret_hash, timelock, now));
        if b.swaps_map().contains_key(id) {
            Err(ContractError::SwapAlreadyExists)
        } else {
            Ok(id)
        }
    }
}

/// A returned swap identifier, as its mathematical value.
pub open spec fn id_result_view(r: Result<Vec<u8>, ContractError>) -> Result<
    Seq<u8>,
    ContractError,
> {
    match r {
        Ok(v) => Ok(v@),
        Err(e) => Err(e),
    }
}

/// The record a successful initiation stores: freshly created, nothing
/// filled, expiring `timelock` after `now`.
pub open spec fn new_swap_view(
    initiator: Seq<u8>,
    token: Seq<u8>,
    amount: i128,
    secret_hash: Seq<u8>,
    timelock: u64,
    counterpart_address: Seq<u8>,
    partial_fill_enabled: bool,
    merkle_root: Seq<u8>,
    now: u64,
) -> SwapView {
    SwapView {
        initiator: initiator,
        token: token,
        amount: amount,
        filled: 0,
        secret_hash: secret_hash,
        timelock: (now + timelock) as u64,
        counterpart_address: counterpart_address,
        state: SwapState::Initiated,
        partial_fill_enabled: partial_fill_enabled,
        merkle_root: merkle_root,
        created_at: now,
    }
}

impl StellarBridge {
    /// Creates a new swap: validates the inputs, derives the identifier
    /// from the creation parameters and the current instant, rejects a
    /// collision with an existing record, and stores the swap in state
    /// `Initiated` with nothing filled. The locked amount is owed to the
    /// escrow by the initiator. On any error nothing changes.
    pub fn initiate_swap(
        &mut self,
        env: &soroban_sdk::Env,
        initiator: &Vec<u8>,
        token: &Vec<u8>,
        amount: i128,
        secret_hash: &Vec<u8>,
        timelock: u64,
        counterpart_address: &Vec<u8>,
        partial_fill_enabled: bool,
        merkle_root: &Vec<u8>,
        now: u64,
    ) -> (r: Result<Vec<u8>, ContractError>)
        requires
            old(self).wf(),
            secret_hash@.len() == 32,
            merkle_root@.len() == 32,
            now + timelock <= u64::MAX,
            old(self).total_swaps < u32::MAX,
            old(self).analytics.total_swaps < u32::MAX,
            old(self).analytics.total_volume + amount <= i128::MAX,
        ensures
            final(self).wf(),
            id_result_view(r) == initiate_outcome(
                *old(self),
                initiator@,
                token@,
                amount,
                secret_hash@,
                timelock,
                now,
            ),
            r is Err ==> *final(self) == *old(self),
            r matches Ok(id) ==> final(self).swaps_map() == old(self).swaps_map().insert(
                id@,
                new_swap_view(
                    initiator@,
                    token@,
                    amount,
                    secret_hash@,
                    timelock,
                    counterpart_address@,
                    partial_fill_enabled,
                    merkle_root@,
                    now,
                ),
            ),
            r is Ok ==> final(self).total_swaps == old(self).total_swaps + 1,
            r is Ok ==> final(self).analytics == (Analytics {
                total_volume: (old(self).analytics.total_volume + amount) as i128,
                total_swaps: (old(self).analytics.total_swaps + 1) as u32,
                total_resolvers: old(self).analytics.total_resolvers,
                success_rate: old(self).analytics.success_rate,
                average_completion_time: old(self).analytics.average_completion_time,
            }),
            final(self).config == old(self).config,
            final(self).paused == old(self).paused,
            final(self).resolvers == old(self).resolvers,
            final(self).used_secrets == old(self).used_secrets,
            final(self).fills == old(self).fills,
    {
        if self.paused {
            return Err(ContractError::ContractPaused);
        }
        if amount <= 0 {
            return Err(ContractError::InvalidAmount);
        }
        if is_zero_hash(secret_hash) {
            return Err(ContractError::InvalidSecretHash);
        }
        if timelock < self.config.min_timelock || timelock > self.config.max_timelock {
            return Err(ContractError::InvalidTimelock);
        }
        let swap_id = derive_swap_id(env, initiator, token, amount, secret_hash, timelock, now);
        proof {
            lemma_to_map_dom(self.swaps@, swap_id@);
        }
        match find_key(&self.swaps, &swap_id) {
            Some(_) => {
                return Err(ContractError::SwapAlreadyExists);
            },
            None => {},
        }
        let swap = Swap {
            initiator: clone_bytes(initiator),
            token: clone_bytes(token),
            amount: amount,
            filled: 0,
            secret_hash: clone_bytes(secret_hash),
            timelock: now + timelock,
            counterpart_address: clone_bytes(counterpart_address),
            state: SwapState::Initiated,
            partial_fill_enabled: partial_fill_enabled,
            merkle_root: clone_bytes(merkle_root),
            created_at: now,
        };
        let key = clone_bytes(&swap_id);
        let ghost old_swaps = self.swaps@;
        self.swaps.push((key, swap));
        proof {
            lemma_to_map_push(old_swaps, self.swaps@.last().0, self.swaps@.last().1);
            assert(self.swaps@.drop_last() =~= old_swaps);
            assert forall|i: int| 0 <= i < self.swaps@.len() implies (
            #[trigger] self.swaps@[i]).1@.wf() by {
                if i < old_swaps.len() {
                    assert(self.swaps@[i] == old_swaps[i]);
                }
            }
        }
        self.total_swaps = self.total_swaps + 1;
        self.analytics.total_swaps = self.analytics.total_swaps + 1;
        self.analytics.total_volume = self.analytics.total_volume + amount;
        Ok(swap_id)
    }
}

/// The result of one partial-fill operation against the engine: pause,
/// existence, the fill validation chain, resolver eligibility, the
/// Merkle authorization gate, then the reward and volume-counter
/// arithmetic, either of which may overflow and fail before anything
/// changes.
pub open spec fn fill_outcome(
    b: StellarBridge,
    id: Seq<u8>,
    resolver: Seq<u8>,
    fill_amount: i128,
    proof_nodes: Seq<Seq<u8>>,
    nonce: u64,
    now: u64,
) -> Result<i128, ContractError> {
    if b.paused {
        Err(ContractError::ContractPaused)
    } else if !b.swaps_map().contains_key(id) {
        Err(ContractError::SwapNotFound)
    } else {
        let s = b.swaps_map()[id];
        match validate_fill_res(s, fill_amount, now) {
            Err(e) => Err(e),
            Ok(_) => if !b.resolvers_map().contains_key(resolver) {
                Err(ContractError::ResolverNotFound)
            } else if !b.resolvers_map()[resolver].active {
                Err(ContractError::ResolverNotActive)
            } else if merkle_fold(
                keccak_of(fill_leaf_preimage(resolver, fill_amount, nonce)),
                proof_nodes,
            ) != s.merkle_root {
                Err(ContractError::InvalidMerkleProof)
            } else {
                match fill_reward_res(fill_amount, b.config@.resolver_reward_rate) {
                    Err(e) => Err(e),
                    Ok(reward) => if b.resolvers_map()[resolver].total_volume + fill_amount
                        > i128::MAX {
                        Err(ContractError::CalculationOverflow)
                    } else {
                        Ok(reward)
                    },
                }
            },
        }
    }
}

/// The result of registering a resolver: pause, the stake floor, then
/// the uniqueness of the address.
pub open spec fn register_outcome(
    b: StellarBridge,
    resolver: Seq<u8>,
    stake: i128,
    now: u64,
) -> Result<(), ContractError> {
    if b.paused {
        Err(ContractError::ContractPaused)
    } else if stake < b.config@.min_stake {
        Err(ContractError::InsufficientStake)
    } else if b.resolvers_map().contains_key(resolver) {
        Err(ContractError::ResolverAlreadyRegistered)
    } else {
        Ok(())
    }
}

/// The fresh ledger entry a successful registration stores.
pub open spec fn new_resolver_entry(stake: i128, now: u64) -> Resolver {
    Resolver {
        stake: stake,
        reputation: 1000,
        total_volume: 0,
        success_rate: 10000,
        active: true,
        registration_time: now,
    }
}

/// The audit records of the fills executed against one swap, in
/// execution order.
pub open spec fn fills_for(log: Seq<(Seq<u8>, PartialFillView)>, id: Seq<u8>) -> Seq<
    PartialFillView,
>
    decreases log.len(),
{
    if log.len() == 0 {
        Seq::empty()
    } else if log.last().0 == id {
        fills_for(log.drop_last(), id).push(log.last().1)
    } else {
        fills_for(log.drop_last(), id)
    }
}

/// The views of a vector of fill records.
pub open spec fn fill_records_view(s: Seq<PartialFill>) -> Seq<PartialFillView> {
    s.map_values(|f: PartialFill| f@)
}

impl StellarBridge {
    /// Executes one authorized partial fill: validates the request,
    /// requires a registered and active resolver, gates the fill behind
    /// a Merkle proof over the leaf derived from (resolver, amount,
    /// nonce), then applies it — the swap's filled quantity grows and it
    /// completes when full, the resolver's cumulative volume grows, an
    /// audit record is appended, and the reward (the configured
    /// basis-point share of the fill) is owed to the resolver. On any
    /// error, including overflow of the reward or volume arithmetic,
    /// nothing changes.
    pub fn execute_partial_fill(
        &mut self,
        env: &soroban_sdk::Env,
        swap_id: &Vec<u8>,
        resolver: &Vec<u8>,
        fill_amount: i128,
        merkle_proof: &Vec<Vec<u8>>,
        nonce: u64,
        now: u64,
    ) -> (r: Result<i128, ContractError>)
        requires
            old(self).wf(),
        ensures
            final(self).wf(),
            r == fill_outcome(
                *old(self),
                swap_id@,
                resolver@,
                fill_amount,
                bytes_seq_view(merkle_proof@),
                nonce,
                now,
            ),
            r is Err ==> *final(self) == *old(self),
            r is Ok ==> final(self).swaps_map() == old(self).swaps_map().insert(
                swap_id@,
                after_fill(old(self).swaps_map()[swap_id@], fill_amount),
            ),
            r is Ok ==> final(self).resolvers_map() == old(self).resolvers_map().insert(
                resolver@,
                Resolver {
                    total_volume: (old(self).resolvers_map()[resolver@].total_volume
                        + fill_amount) as i128,
                    ..old(self).resolvers_map()[resolver@]
                },
            ),
            r is Ok ==> final(self).fills_view() == old(self).fills_view().push(
                (
                    swap_id@,
                    PartialFillView {
                        resolver: resolver@,
                        amount: fill_amount,
                        timestamp: now,
                        merkle_proof: bytes_seq_view(merkle_proof@),
                    },
                ),
            ),
            final(self).config == old(self).config,
            final(self).paused == old(self).paused,
            final(self).total_swaps == old(self).total_swaps,
            final(self).analytics == old(self).analytics,
            final(self).used_secrets == old(self).used_secrets,
    {
        if self.paused {
            return Err(ContractError::ContractPaused);
        }
        proof {
            lemma_to_map_dom(self.swaps@, swap_id@);
        }
        let sidx = match find_key(&self.swaps, swap_id) {
            Some(i) => i,
            None => {
                return Err(ContractError::SwapNotFound);
            },
        };
        proof {
            lemma_to_map_index(self.swaps@, sidx as int);
        }
        match validate_partial_fill(&self.swaps[sidx].1, fill_amount, now) {
            Err(e) => {
                return Err(e);
            },
            Ok(_) => {},
        }
        proof {
            lemma_to_map_dom(self.resolvers@, resolver@);
        }
        let ridx = match find_key(&self.resolvers, resolver) {
            Some(i) => i,
            None => {
                return Err(ContractError::ResolverNotFound);
            },
        };
        proof {
            lemma_to_map_index(self.resolvers@, ridx as int);
        }
        if !self.resolvers[ridx].1.active {
            return Err(ContractError::ResolverNotActive);
        }
        let leaf = derive_fill_leaf(env, resolver, fill_amount, nonce);
        if !verify_merkle_proof(env, merkle_proof, &self.swaps[sidx].1.merkle_root, &leaf) {
            return Err(ContractError::InvalidMerkleProof);
        }
        let reward = match checked_fill_reward(fill_amount, self.config.resolver_reward_rate) {
            Ok(rw) => rw,
            Err(e) => {
                return Err(e);
            },
        };
        let new_volume = match self.resolvers[ridx].1.total_volume.checked_add(fill_amount) {
            Some(v) => v,
            None => {
                return Err(ContractError::CalculationOverflow);
            },
        };
        let ghost old_swaps = self.swaps@;
        self.swaps[sidx].1.filled = self.swaps[sidx].1.filled + fill_amount;
        self.swaps[sidx].1.state = if self.swaps[sidx].1.filled == self.swaps[sidx].1.amount {
            SwapState::Completed
        } else {
            SwapState::PartialFilled
        };
        proof {
            lemma_to_map_update(old_swaps, self.swaps@, sidx as int);
            assert forall|i: int| 0 <= i < self.swaps@.len() implies (
            #[trigger] self.swaps@[i]).1@.wf() by {
                if i != sidx as int {
                    assert(self.swaps@[i] == old_swaps[i]);
                }
            }
        }
        let ghost old_resolvers = self.resolvers@;
        self.resolvers[ridx].1.total_volume = new_volume;
        proof {
            lemma_to_map_update(old_resolvers, self.resolvers@, ridx as int);
        }
        let record = PartialFill {
            resolver: clone_bytes(resolver),
            amount: fill_amount,
            timestamp: now,
            merkle_proof: clone_bytes_vec(merkle_proof),
        };
        let ghost old_fills_view = self.fills_view();
        self.fills.push((clone_bytes(swap_id), record));
        proof {
            assert(self.fills_view() =~= old_fills_view.push(
                (
                    swap_id@,
                    PartialFillView {
                        resolver: resolver@,
                        amount: fill_amount,
                        timestamp: now,
                        merkle_proof: bytes_seq_view(merkle_proof@),
                    },
                ),
            ));
        }
        Ok(reward)
    }

    /// Registers a resolver with its stake: the stake must reach the
    /// configured minimum and the address must be new. The entry starts
    /// with reputation 1000, full success rate, no volume, and active.
    /// The stake is owed to the engine's custody. On any error nothing
    /// changes.
    pub fn register_resolver(&mut self, resolver: &Vec<u8>, stake_amount: i128, now: u64) -> (r:
        Result<(), ContractError>)
        requires
            old(self).wf(),
            old(self).analytics.total_resolvers < u32::MAX,
        ensures
            final(self).wf(),
            r == register_outcome(*old(self), resolver@, stake_amount, now),
            r is Err ==> *final(self) == *old(self),
            r is Ok ==> final(self).resolvers_map() == old(self).resolvers_map().insert(
                resolver@,
                new_resolver_entry(stake_amount, now),
            ),
            r is Ok ==> final(self).analytics == (Analytics {
                total_resolvers: (old(self).analytics.total_resolvers + 1) as u32,
                ..old(self).analytics
            }),
            final(self).config == old(self).config,
            final(self).paused == old(self).paused,
            final(self).total_swaps == old(self).total_swaps,
            final(self).swaps == old(self).swaps,
            final(self).used_secrets == old(self).used_secrets,
            final(self).fills == old(self).fills,
    {
        if self.paused {
            return Err(ContractError::ContractPaused);
        }
        if stake_amount < self.config.min_stake {
            return Err(ContractError::InsufficientStake);
        }
        proof {
            lemma_to_map_dom(self.resolvers@, resolver@);
        }
        match find_key(&self.resolvers, resolver) {
            Some(_) => {
                return Err(ContractError::ResolverAlreadyRegistered);
            },
            None => {},
        }
        let entry = Resolver {
            stake: stake_amount,
            reputation: 1000,
            total_volume: 0,
            success_rate: 10000,
            active: true,
            registration_time: now,
        };
        let ghost old_resolvers = self.resolvers@;
        self.resolvers.push((clone_bytes(resolver), entry));
        proof {
            lemma_to_map_push(old_resolvers, self.resolvers@.last().0, self.resolvers@.last().1);
        }
        self.analytics.total_resolvers = self.analytics.total_resolvers + 1;
        Ok(())
    }

    /// The audit records of the fills executed against one swap, oldest
    /// first.
    pub fn get_partial_fills(&self, swap_id: &Vec<u8>) -> (r: Vec<PartialFill>)
        ensures
            fill_records_view(r@) == fills_for(self.fills_view(), swap_id@),
    {
        let ghost log = self.fills_view();
        let mut out: Vec<PartialFill> = Vec::new();
        let n = self.fills.len();
        let mut i: usize = 0;
        proof {
            assert(log.subrange(0, 0) =~= Seq::<(Seq<u8>, PartialFillView)>::empty());
            assert(fill_records_view(out@) =~= fills_for(log.subrange(0, 0), swap_id@));
        }
        while i < n
            invariant
                n == self.fills@.len(),
                log == self.fills_view(),
                i <= n,
                fill_records_view(out@) == fills_for(log.subrange(0, i as int), swap_id@),
            decreases n - i,
        {
            let ghost prev = out@;
            proof {
                assert(log.subrange(0, i + 1 as int).drop_last() =~= log.subrange(0, i as int));
                assert(log.subrange(0, i + 1 as int).last() == log[i as int]);
                assert(log[i as int] == (self.fills@[i as int].0@, self.fills@[i as int].1@));
            }
            if bytes_eq(&self.fills[i].0, swap_id) {
                out.push(self.fills[i].1.clone());
                proof {
                    assert(fill_records_view(out@) =~= fill_records_view(prev).push(
                        self.fills@[i as int].1@,
                    ));
                }
            }
            i += 1;
        }
        proof {
            assert(log.subrange(0, n as int) =~= log);
        }
        out
    }
}

/// Every stored swap keeps `0 <= filled <= amount`; the bound is part of
/// the engine's invariant, which every operation preserves.
pub proof fn lemma_filled_within_bounds(b: StellarBridge, id: Seq<u8>)
    requires
        b.wf(),
        b.swaps_map().contains_key(id),
    ensures
        0 <= b.swaps_map()[id].filled <= b.swaps_map()[id].amount,
{
    lemma_to_map_dom(b.swaps@, id);
    let i = choose|i: int| 0 <= i < b.swaps@.len() && b.swaps@[i].0@ == id;
    lemma_to_map_index(b.swaps@, i);
}

/// A swap that has ended — completed, refunded or expired — accepts no
/// further mutating operation: completion, refund and partial fill all
/// fail, and each operation's contract says the engine is unchanged on
/// every error.
pub proof fn lemma_terminal_swap_rejects(
    b: StellarBridge,
    id: Seq<u8>,
    caller: Seq<u8>,
    secret: Seq<u8>,
    resolver: Seq<u8>,
    fill_amount: i128,
    proof_nodes: Seq<Seq<u8>>,
    nonce: u64,
    now: u64,
)
    requires
        b.swaps_map().contains_key(id),
        is_terminal_state(b.swaps_map()[id].state),
    ensures
        complete_outcome(b, id, secret, now) is Err,
        refund_outcome(b, id, caller, now) is Err,
        fill_outcome(b, id, resolver, fill_amount, proof_nodes, nonce, now) is Err,
{
    lemma_terminal_state_rejects(b.swaps_map()[id], caller, fill_amount, now);
}

/// The transition graph has no back-edges: a successful completion or
/// refund moves a live swap to a strictly higher-ranked terminal state,
/// and a successful fill keeps the rank and never returns a swap to
/// `Initiated`.
pub proof fn lemma_transitions_monotonic(
    b: StellarBridge,
    id: Seq<u8>,
    caller: Seq<u8>,
    secret: Seq<u8>,
    fill_amount: i128,
    now: u64,
)
    requires
        b.swaps_map().contains_key(id),
    ensures
        complete_outcome(b, id, secret, now) is Ok ==> state_rank(b.swaps_map()[id].state)
            < state_rank(with_state(b.swaps_map()[id], SwapState::Completed).state),
        refund_outcome(b, id, caller, now) is Ok ==> state_rank(b.swaps_map()[id].state)
            < state_rank(with_state(b.swaps_map()[id], SwapState::Refunded).state),
        validate_fill_res(b.swaps_map()[id], fill_amount, now) is Ok ==> state_rank(
            b.swaps_map()[id].state,
        ) <= state_rank(after_fill(b.swaps_map()[id], fill_amount).state) && after_fill(
            b.swaps_map()[id],
            fill_amount,
        ).state != SwapState::Initiated,
{
}

/// A secret, once consumed, can complete no swap ever again — the same
/// swap or any other: completion with it always fails, and exactly with
/// `SecretAlreadyUsed` once every earlier guard passes.
pub proof fn lemma_used_secret_rejected(b: StellarBridge, id: Seq<u8>, secret: Seq<u8>, now: u64)
    requires
        b.secret_used(secret),
    ensures
        !(complete_outcome(b, id, secret, now) is Ok),
        (!b.paused && b.swaps_map().contains_key(id) && can_complete_res(b.swaps_map()[id], now)
            is Ok && keccak_of(secret) == b.swaps_map()[id].secret_hash) ==> complete_outcome(
            b,
            id,
            secret,
            now,
        ) == Err::<i128, ContractError>(ContractError::SecretAlreadyUsed),
{
}

/// For one swap, at any instant, at most one of completion and refund
/// can succeed: the two windows never overlap, whoever calls.
pub proof fn lemma_windows_exclusive(
    b: StellarBridge,
    id: Seq<u8>,
    caller: Seq<u8>,
    secret: Seq<u8>,
    now: u64,
)
    ensures
        !(complete_outcome(b, id, secret, now) is Ok && refund_outcome(b, id, caller, now) is Ok),
{
    if b.swaps_map().contains_key(id) {
        lemma_complete_refund_exclusive(b.swaps_map()[id], caller, now);
    }
}

} // verus!
