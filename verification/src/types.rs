use vstd::prelude::*;

use crate::bytes::{bytes_seq_view, clone_bytes, clone_bytes_vec};

verus! {

/// The lifecycle states of a swap. Transitions are one-directional:
/// `Completed` and `Refunded` are terminal, and `Expired` (a lazily
/// recorded form of expiry) accepts no further operation either.
#[derive(Clone, Copy, Debug, PartialEq, Eq, Structural)]
pub enum SwapState {
    Initiated,
    PartialFilled,
    Completed,
    Refunded,
    Expired,
}

/// States in which no mutating operation is accepted any more.
pub open spec fn is_terminal_state(s: SwapState) -> bool {
    s == SwapState::Completed || s == SwapState::Refunded || s == SwapState::Expired
}

/// A rank that every transition the engine performs strictly increases;
/// its existence shows the transition graph has no back-edges.
pub open spec fn state_rank(s: SwapState) -> int {
    match s {
        SwapState::Initiated => 0,
        SwapState::PartialFilled => 1,
        SwapState::Completed => 2,
        SwapState::Refunded => 2,
        SwapState::Expired => 2,
    }
}

/// A hash-time-locked swap record. Addresses and 256-bit digests are
/// held as plain byte vectors.
#[derive(Debug, PartialEq, Eq)]
pub struct Swap {
    pub initiator: Vec<u8>,
    pub token: Vec<u8>,
    pub amount: i128,
    pub filled: i128,
    pub secret_hash: Vec<u8>,
    pub timelock: u64,
    pub counterpart_address: Vec<u8>,
    pub state: SwapState,
    pub partial_fill_enabled: bool,
    pub merkle_root: Vec<u8>,
    pub created_at: u64,
}

/// The mathematical value of a swap record.
pub struct SwapView {
    pub initiator: Seq<u8>,
    pub token: Seq<u8>,
    pub amount: i128,
    pub filled: i128,
    pub secret_hash: Seq<u8>,
    pub timelock: u64,
    pub counterpart_address: Seq<u8>,
    pub state: SwapState,
    pub partial_fill_enabled: bool,
    pub merkle_root: Seq<u8>,
    pub created_at: u64,
}

impl View for Swap {
    type V = SwapView;

    open spec fn view(&self) -> SwapView {
        SwapView {
            initiator: self.initiator@,
            token: self.token@,
            amount: self.amount,
            filled: self.filled,
            secret_hash: self.secret_hash@,
            timelock: self.timelock,
            counterpart_address: self.counterpart_address@,
            state: self.state,
            partial_fill_enabled: self.partial_fill_enabled,
            merkle_root: self.merkle_root@,
            created_at: self.created_at,
        }
    }
}

impl Clone for Swap {
    fn clone(&self) -> (r: Self)
        ensures
            r@ == self@,
    {
        Swap {
            initiator: clone_bytes(&self.initiator),
            token: clone_bytes(&self.token),
            amount: self.amount,
            filled: self.filled,
            secret_hash: clone_bytes(&self.secret_hash),
            timelock: self.timelock,
            counterpart_address: clone_bytes(&self.counterpart_address),
            state: self.state,
            partial_fill_enabled: self.partial_fill_enabled,
            merkle_root: clone_bytes(&self.merkle_root),
            created_at: self.created_at,
        }
    }
}

impl SwapView {
    /// Every stored swap keeps these bounds; in particular the filled
    /// quantity never leaves `[0, amount]`.
    pub open spec fn wf(self) -> bool {
        &&& self.amount > 0
        &&& 0 <= self.filled <= self.amount
        &&& self.secret_hash.len() == 32
        &&& self.merkle_root.len() == 32
    }
}

/// The same swap with its state replaced; every other field is kept.
pub open spec fn with_state(s: SwapView, st: SwapState) -> SwapView {
    SwapView {
        initiator: s.initiator,
        token: s.token,
        amount: s.amount,
        filled: s.filled,
        secret_hash: s.secret_hash,
        timelock: s.timelock,
        counterpart_address: s.counterpart_address,
        state: st,
        partial_fill_enabled: s.partial_fill_enabled,
        merkle_root: s.merkle_root,
        created_at: s.created_at,
    }
}

/// The swap after a partial fill of `fill_amount`: the filled quantity
/// grows by it, and the swap completes exactly when it reaches the total
/// amount.
pub open spec fn after_fill(s: SwapView, fill_amount: i128) -> SwapView
    recommends
        0 <= s.filled + fill_amount <= s.amount,
{
    SwapView {
        initiator: s.initiator,
        token: s.token,
        amount: s.amount,
        filled: (s.filled + fill_amount) as i128,
        secret_hash: s.secret_hash,
        timelock: s.timelock,
        counterpart_address: s.counterpart_address,
        state: if s.filled + fill_amount == s.amount {
            SwapState::Completed
        } else {
            SwapState::PartialFilled
        },
        partial_fill_enabled: s.partial_fill_enabled,
        merkle_root: s.merkle_root,
        created_at: s.created_at,
    }
}

/// A registered resolver's ledger entry. All fields are scalars.
#[derive(Clone, Copy, Debug, PartialEq, Eq, Structural)]
pub struct Resolver {
    pub stake: i128,
    pub reputation: u32,
    pub total_volume: i128,
    pub success_rate: u32,
    pub active: bool,
    pub registration_time: u64,
}

impl View for Resolver {
    type V = Resolver;

    open spec fn view(&self) -> Resolver {
        *self
    }
}

/// An append-only audit record of one executed partial fill.
#[derive(Debug, PartialEq, Eq)]
pub struct PartialFill {
    pub resolver: Vec<u8>,
    pub amount: i128,
    pub timestamp: u64,
    pub merkle_proof: Vec<Vec<u8>>,
}

impl Clone for PartialFill {
    fn clone(&self) -> (r: Self)
        ensures
            r@ == self@,
    {
        let r = PartialFill {
            resolver: clone_bytes(&self.resolver),
            amount: self.amount,
            timestamp: self.timestamp,
            merkle_proof: clone_bytes_vec(&self.merkle_proof),
        };
        proof {
            assert(bytes_seq_view(r.merkle_proof@) == bytes_seq_view(self.merkle_proof@));
        }
        r
    }
}

/// The mathematical value of a partial-fill record.
pub struct PartialFillView {
    pub resolver: Seq<u8>,
    pub amount: i128,
    pub timestamp: u64,
    pub merkle_proof: Seq<Seq<u8>>,
}

impl View for PartialFill {
    type V = PartialFillView;

    open spec fn view(&self) -> PartialFillView {
        PartialFillView {
            resolver: self.resolver@,
            amount: self.amount,
            timestamp: self.timestamp,
            merkle_proof: bytes_seq_view(self.merkle_proof@),
        }
    }
}

/// Aggregate counters kept beside the swap records.
#[derive(Clone, Copy, Debug, PartialEq, Eq, Structural)]
pub struct Analytics {
    pub total_volume: i128,
    pub total_swaps: u32,
    pub total_resolvers: u32,
    pub success_rate: u32,
    pub average_completion_time: u64,
}

impl View for Analytics {
    type V = Analytics;

    open spec fn view(&self) -> Analytics {
        *self
    }
}

} // verus!
