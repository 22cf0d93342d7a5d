use vstd::prelude::*;

use crate::bytes::bytes_eq;
use crate::error::ContractError;
use crate::hashing::{hash_secret, keccak_of};
use crate::types::{is_terminal_state, Swap, SwapState, SwapView};
use vstd::arithmetic::mul::lemma_mul_nonnegative;

verus! {

/// Whether the revealed secret hashes to the stored secret hash.
pub fn validate_secret(env: &soroban_sdk::Env, secret: &Vec<u8>, secret_hash: &Vec<u8>) -> (r:
    bool)
    ensures
        r == (keccak_of(secret@) == secret_hash@),
{
    let computed = hash_secret(env, secret);
    bytes_eq(&computed, secret_hash)
}

/// Whether a timelock has expired at the given instant: the boundary
/// instant itself counts as expired.
pub fn is_timelock_expired(now: u64, timelock: u64) -> (r: bool)
    ensures
        r == (now >= timelock),
{
    now >= timelock
}

/// Whether a swap may be completed at instant `now`: it must still be
/// live (initiated or partially filled) and not yet expired.
pub open spec fn can_complete_res(s: SwapView, now: u64) -> Result<(), ContractError> {
    match s.state {
        SwapState::Initiated | SwapState::PartialFilled => if now >= s.timelock {
            Err(ContractError::SwapExpired)
        } else {
            Ok(())
        },
        SwapState::Completed => Err(ContractError::SwapAlreadyCompleted),
        SwapState::Refunded => Err(ContractError::SwapAlreadyRefunded),
        SwapState::Expired => Err(ContractError::SwapExpired),
    }
}

/// Guard for completion; returns the exact error of the first failing
/// check.
pub fn can_complete_swap(swap: &Swap, now: u64) -> (r: Result<(), ContractError>)
    ensures
        r == can_complete_res(swap@, now),
{
    match swap.state {
        SwapState::Initiated | SwapState::PartialFilled => {
            if is_timelock_expired(now, swap.timelock) {
                Err(ContractError::SwapExpired)
            } else {
                Ok(())
            }
        },
        SwapState::Completed => Err(ContractError::SwapAlreadyCompleted),
        SwapState::Refunded => Err(ContractError::SwapAlreadyRefunded),
        SwapState::Expired => Err(ContractError::SwapExpired),
    }
}

/// Whether a swap may be refunded to `caller` at instant `now`: only the
/// initiator may refund, only a live swap, and only once the timelock
/// has expired.
pub open spec fn can_refund_res(s: SwapView, caller: Seq<u8>, now: u64) -> Result<
    (),
    ContractError,
> {
    if caller != s.initiator {
        Err(ContractError::UnauthorizedRefund)
    } else {
        match s.state {
            SwapState::Initiated | SwapState::PartialFilled => if now < s.timelock {
                Err(ContractError::TimelockNotExpired)
            } else {
                Ok(())
            },
            SwapState::Completed => Err(ContractError::SwapAlreadyCompleted),
            SwapState::Refunded => Err(ContractError::SwapAlreadyRefunded),
            SwapState::Expired => Err(ContractError::SwapExpired),
        }
    }
}

/// Guard for refunding; returns the exact error of the first failing
/// check.
pub fn can_refund_swap(swap: &Swap, caller: &Vec<u8>, now: u64) -> (r: Result<(), ContractError>)
    ensures
        r == can_refund_res(swap@, caller@, now),
{
    if !bytes_eq(caller, &swap.initiator) {
        return Err(ContractError::UnauthorizedRefund);
    }
    match swap.state {
        SwapState::Initiated | SwapState::PartialFilled => {
            if !is_timelock_expired(now, swap.timelock) {
                Err(ContractError::TimelockNotExpired)
            } else {
                Ok(())
            }
        },
        SwapState::Completed => Err(ContractError::SwapAlreadyCompleted),
        SwapState::Refunded => Err(ContractError::SwapAlreadyRefunded),
        SwapState::Expired => Err(ContractError::SwapExpired),
    }
}

/// Whether a partial fill of `fill_amount` is admissible for the swap at
/// instant `now`, with the exact error of the first failing check.
pub open spec fn validate_fill_res(s: SwapView, fill_amount: i128, now: u64) -> Result<
    (),
    ContractError,
> {
    if !s.partial_fill_enabled {
        Err(ContractError::PartialFillsNotEnabled)
    } else if !(s.state == SwapState::Initiated || s.state == SwapState::PartialFilled) {
        Err(ContractError::InvalidSwapState)
    } else if now >= s.timelock {
        Err(ContractError::SwapExpired)
    } else if fill_amount <= 0 {
        Err(ContractError::InvalidFillAmount)
    } else if s.filled + fill_amount > s.amount {
        Err(ContractError::ExceedsSwapAmount)
    } else {
        Ok(())
    }
}

/// Validates a partial fill request against a well-formed swap record.
pub fn validate_partial_fill(swap: &Swap, fill_amount: i128, now: u64) -> (r: Result<
    (),
    ContractError,
>)
    requires
        swap@.wf(),
    ensures
        r == validate_fill_res(swap@, fill_amount, now),
{
    if !swap.partial_fill_enabled {
        return Err(ContractError::PartialFillsNotEnabled);
    }
    match swap.state {
        SwapState::Initiated | SwapState::PartialFilled => {},
        _ => {
            return Err(ContractError::InvalidSwapState);
        },
    }
    if is_timelock_expired(now, swap.timelock) {
        return Err(ContractError::SwapExpired);
    }
    if fill_amount <= 0 {
        return Err(ContractError::InvalidFillAmount);
    }
    if fill_amount > swap.amount - swap.filled {
        return Err(ContractError::ExceedsSwapAmount);
    }
    Ok(())
}

/// The reward owed for a fill, as a basis-point share of the fill
/// amount, rounded down; overflow of the widened product is an error.
pub open spec fn fill_reward_res(fill_amount: i128, rate: u32) -> Result<i128, ContractError>
    recommends
        fill_amount >= 0,
{
    if fill_amount * (rate as int) > i128::MAX {
        Err(ContractError::CalculationOverflow)
    } else {
        Ok((fill_amount * (rate as int) / 10000) as i128)
    }
}

/// The proportional reward for a fill: `fill_amount * base_fee_rate`
/// basis points, rounded down. The caller must rule overflow out; the
/// engine's fallible path is `checked_fill_reward`.
pub fn calculate_fill_reward(fill_amount: i128, base_fee_rate: u32) -> (r: i128)
    requires
        0 <= fill_amount,
        fill_amount * (base_fee_rate as int) <= i128::MAX,
    ensures
        r == fill_amount * (base_fee_rate as int) / 10000,
{
    proof {
        lemma_mul_nonnegative(fill_amount as int, base_fee_rate as int);
    }
    (fill_amount * (base_fee_rate as i128)) / 10000
}

/// The reward for a fill, failing with `CalculationOverflow` instead of
/// wrapping when the widened product exceeds the representable range.
pub fn checked_fill_reward(fill_amount: i128, rate: u32) -> (r: Result<i128, ContractError>)
    requires
        0 <= fill_amount,
    ensures
        r == fill_reward_res(fill_amount, rate),
{
    proof {
        lemma_mul_nonnegative(fill_amount as int, rate as int);
    }
    match fill_amount.checked_mul(rate as i128) {
        Some(product) => Ok(product / 10000),
        None => Err(ContractError::CalculationOverflow),
    }
}

/// The completion and refund windows of one swap never overlap: at any
/// instant, for any caller, at most one of the two guards can pass.
pub proof fn lemma_complete_refund_exclusive(s: SwapView, caller: Seq<u8>, now: u64)
    ensures
        !(can_complete_res(s, now) is Ok && can_refund_res(s, caller, now) is Ok),
{
}

/// A swap in a terminal state accepts no further operation: completion,
/// refund and partial fill all fail, each with the error naming how the
/// swap already ended.
pub proof fn lemma_terminal_state_rejects(
    s: SwapView,
    caller: Seq<u8>,
    fill_amount: i128,
    now: u64,
)
    requires
        is_terminal_state(s.state),
    ensures
        can_complete_res(s, now) is Err,
        can_refund_res(s, caller, now) is Err,
        validate_fill_res(s, fill_amount, now) is Err,
        s.state == SwapState::Completed ==> can_complete_res(s, now) == Err::<
            (),
            ContractError,
        >(ContractError::SwapAlreadyCompleted),
        s.state == SwapState::Refunded ==> can_complete_res(s, now) == Err::<
            (),
            ContractError,
        >(ContractError::SwapAlreadyRefunded),
        s.state == SwapState::Completed && caller == s.initiator ==> can_refund_res(s, caller, now)
            == Err::<(), ContractError>(ContractError::SwapAlreadyCompleted),
        s.state == SwapState::Refunded && caller == s.initiator ==> can_refund_res(s, caller, now)
            == Err::<(), ContractError>(ContractError::SwapAlreadyRefunded),
{
}

} // verus!
