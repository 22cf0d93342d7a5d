use vstd::prelude::*;

use crate::bytes::{append_bytes, bytes_eq, bytes_lex_less, bytes_seq_view, clone_bytes, lex_less};
use crate::error::ContractError;
use crate::hashing::{derive_fill_leaf, fill_leaf_preimage, keccak256, keccak_of};
use crate::htlc::{checked_fill_reward, fill_reward_res, validate_fill_res, validate_partial_fill};
use crate::types::{after_fill, state_rank, Swap, SwapState, SwapView};
use vstd::arithmetic::div_mod::lemma_fundamental_div_mod;

verus! {

/// One Merkle combining step: the two nodes are hashed in sorted order,
/// so verification is independent of the leaf's position in the tree.
pub open spec fn merkle_combine(a: Seq<u8>, b: Seq<u8>) -> Seq<u8> {
    if lex_less(a, b) {
        keccak_of(a + b)
    } else {
        keccak_of(b + a)
    }
}

/// The node obtained by folding the proof elements, in order, into the
/// leaf with the sorted-pair combining rule.
pub open spec fn merkle_fold(leaf: Seq<u8>, proof_nodes: Seq<Seq<u8>>) -> Seq<u8>
    decreases proof_nodes.len(),
{
    if proof_nodes.len() == 0 {
        leaf
    } else {
        merkle_fold(merkle_combine(leaf, proof_nodes[0]), proof_nodes.skip(1))
    }
}

/// Verifies a Merkle inclusion proof: the proof elements folded into the
/// leaf must reproduce the root. An empty proof is valid exactly when
/// the leaf is the root itself.
pub fn verify_merkle_proof(
    env: &soroban_sdk::Env,
    proof_nodes: &Vec<Vec<u8>>,
    root: &Vec<u8>,
    leaf: &Vec<u8>,
) -> (r: bool)
    ensures
        r == (merkle_fold(leaf@, bytes_seq_view(proof_nodes@)) == root@),
{
    let ghost pview = bytes_seq_view(proof_nodes@);
    let mut computed = clone_bytes(leaf);
    let n = proof_nodes.len();
    let mut i: usize = 0;
    proof {
        assert(pview.skip(0) =~= pview);
    }
    while i < n
        invariant
            n == proof_nodes@.len(),
            pview == bytes_seq_view(proof_nodes@),
            i <= n,
            merkle_fold(leaf@, pview) == merkle_fold(computed@, pview.skip(i as int)),
        decreases n - i,
    {
        proof {
            assert(pview[i as int] == proof_nodes@[i as int]@);
            assert(pview.skip(i as int)[0] == pview[i as int]);
            assert(pview.skip(i as int).skip(1) =~= pview.skip(i + 1 as int));
        }
        let element = &proof_nodes[i];
        let next = if bytes_lex_less(&computed, element) {
            let mut buf = clone_bytes(&computed);
            append_bytes(&mut buf, element);
            keccak256(env, &buf)
        } else {
            let mut buf = clone_bytes(element);
            append_bytes(&mut buf, &computed);
            keccak256(env, &buf)
        };
        proof {
            assert(next@ == merkle_combine(computed@, pview[i as int]));
        }
        computed = next;
        i += 1;
    }
    proof {
        assert(pview.skip(n as int) =~= Seq::<Seq<u8>>::empty());
    }
    bytes_eq(&computed, root)
}

/// The result of one partial fill against a single swap record: the
/// validation chain, then the Merkle authorization gate on the leaf
/// derived from (resolver, amount, nonce), then the reward computation.
pub open spec fn partial_fill_outcome(
    s: SwapView,
    resolver: Seq<u8>,
    fill_amount: i128,
    proof_nodes: Seq<Seq<u8>>,
    nonce: u64,
    reward_rate: u32,
    now: u64,
) -> Result<i128, ContractError> {
    match validate_fill_res(s, fill_amount, now) {
        Err(e) => Err(e),
        Ok(_) => {
            let leaf = keccak_of(fill_leaf_preimage(resolver, fill_amount, nonce));
            if merkle_fold(leaf, proof_nodes) != s.merkle_root {
                Err(ContractError::InvalidMerkleProof)
            } else {
                fill_reward_res(fill_amount, reward_rate)
            }
        },
    }
}

/// Applies one authorized partial fill to a swap record and returns the
/// resolver's reward. The record changes only on success: the filled
/// quantity grows by the fill amount and the swap completes exactly when
/// it is fully filled. The reward rate is taken as a parameter: the
/// engine applies one configured rate to every fill.
pub fn execute_partial_fill(
    env: &soroban_sdk::Env,
    swap: &mut Swap,
    resolver: &Vec<u8>,
    fill_amount: i128,
    merkle_proof: &Vec<Vec<u8>>,
    nonce: u64,
    reward_rate: u32,
    now: u64,
) -> (r: Result<i128, ContractError>)
    requires
        old(swap)@.wf(),
    ensures
        r == partial_fill_outcome(
            old(swap)@,
            resolver@,
            fill_amount,
            bytes_seq_view(merkle_proof@),
            nonce,
            reward_rate,
            now,
        ),
        final(swap)@.wf(),
        r is Err ==> final(swap)@ == old(swap)@,
        r is Ok ==> final(swap)@ == after_fill(old(swap)@, fill_amount),
        state_rank(old(swap)@.state) <= state_rank(final(swap)@.state),
{
    match validate_partial_fill(swap, fill_amount, now) {
        Err(e) => {
            return Err(e);
        },
        Ok(_) => {},
    }
    let leaf = derive_fill_leaf(env, resolver, fill_amount, nonce);
    if !verify_merkle_proof(env, merkle_proof, &swap.merkle_root, &leaf) {
        return Err(ContractError::InvalidMerkleProof);
    }
    let reward = match checked_fill_reward(fill_amount, reward_rate) {
        Ok(rw) => rw,
        Err(e) => {
            return Err(e);
        },
    };
    swap.filled = swap.filled + fill_amount;
    swap.state = if swap.filled == swap.amount {
        SwapState::Completed
    } else {
        SwapState::PartialFilled
    };
    Ok(reward)
}

/// The sum of a sequence of amounts.
pub open spec fn seq_sum(s: Seq<i128>) -> int
    decreases s.len(),
{
    if s.len() == 0 {
        0
    } else {
        seq_sum(s.drop_last()) + s.last()
    }
}

/// Appending one amount adds it to the sum.
pub proof fn lemma_seq_sum_push(s: Seq<i128>, x: i128)
    ensures
        seq_sum(s.push(x)) == seq_sum(s) + x,
{
    assert(s.push(x).drop_last() =~= s);
}

/// How many of the first `i` slots receive one extra unit when
/// `rem` units are left over.
spec fn extra_units(i: int, rem: int) -> int {
    if i <= rem {
        i
    } else {
        rem
    }
}

/// Splits `total_amount` into at most `num_resolvers` positive fill
/// sizes that sum to exactly `total_amount`. When the per-slot average
/// reaches `min_fill_size`, every slot is used and the remainder is
/// spread one unit at a time over the earliest slots; otherwise slots of
/// `min_fill_size` are emitted while they fit, and whatever is left goes
/// into the final slot even if it is below the minimum.
pub fn calculate_optimal_fill_sizes(
    total_amount: i128,
    num_resolvers: u32,
    min_fill_size: i128,
) -> (r: Vec<i128>)
    ensures
        (total_amount <= 0 || num_resolvers == 0) ==> r@.len() == 0,
        total_amount > 0 && num_resolvers > 0 ==> seq_sum(r@) == total_amount,
        forall|j: int| 0 <= j < r@.len() ==> r@[j] > 0,
        r@.len() <= num_resolvers,
        (total_amount > 0 && num_resolvers > 0 && min_fill_size >= 1 && total_amount as int
            / num_resolvers as int >= min_fill_size) ==> {
            &&& r@.len() == num_resolvers
            &&& forall|j: int|
                0 <= j < r@.len() ==> r@[j] as int == total_amount as int / num_resolvers as int
                    + (if j < total_amount as int % num_resolvers as int {
                    1int
                } else {
                    0int
                })
        },
{
    let mut fill_sizes: Vec<i128> = Vec::new();
    if num_resolvers == 0 || total_amount <= 0 {
        return fill_sizes;
    }
    let num: i128 = num_resolvers as i128;
    let base_fill: i128 = total_amount / num;
    let remainder: i128 = total_amount % num;
    proof {
        lemma_fundamental_div_mod(total_amount as int, num as int);
    }
    let ghost tot: int = total_amount as int;
    let ghost b: int = base_fill as int;
    let ghost rem: int = remainder as int;
    let ghost mfs: int = min_fill_size as int;
    proof {
        assert(tot == num as int * b + rem);
        assert(0 <= rem < num as int);
        assert(b >= 0);
        if b < mfs {
            // The average is below the minimum, so the whole amount is
            // below num * min_fill_size.
            assert(tot < num as int * mfs) by (nonlinear_arith)
                requires
                    tot == num as int * b + rem,
                    0 <= rem < num as int,
                    b < mfs,
                    num as int >= 1,
            ;
        }
    }
    let mut remaining: i128 = total_amount;
    let mut i: u32 = 0;
    while i < num_resolvers && remaining > 0
        invariant
            1 <= num_resolvers,
            num == num_resolvers as i128,
            tot == total_amount as int,
            b == base_fill as int,
            rem == remainder as int,
            mfs == min_fill_size as int,
            total_amount > 0,
            tot == num as int * b + rem,
            0 <= rem < num as int,
            b >= 0,
            b < mfs ==> tot < num as int * mfs,
            i <= num_resolvers,
            0 <= remaining,
            seq_sum(fill_sizes@) == tot - remaining,
            forall|j: int| 0 <= j < fill_sizes@.len() ==> fill_sizes@[j] > 0,
            fill_sizes@.len() <= i,
            b >= mfs ==> remaining == tot - (i as int * b + extra_units(i as int, rem)),
            (b >= mfs && mfs >= 1) ==> {
                &&& fill_sizes@.len() == i
                &&& forall|j: int|
                    0 <= j < fill_sizes@.len() ==> fill_sizes@[j] as int == b + (if j < rem {
                        1int
                    } else {
                        0int
                    })
            },
            (b < mfs && remaining > 0) ==> remaining + i as int * mfs <= tot,
        decreases num_resolvers - i,
    {
        let ghost prev_sizes = fill_sizes@;
        let ghost prev_remaining = remaining as int;
        let fill_size: i128 = if base_fill >= min_fill_size {
            let extra: i128 = if (i as i128) < remainder {
                1
            } else {
                0
            };
            proof {
                if extra == 1 {
                    // A leftover unit exists, so there are at least two
                    // slots and the base is at most half the total.
                    assert(b + 1 <= i128::MAX) by (nonlinear_arith)
                        requires
                            tot == num as int * b + rem,
                            0 <= rem < num as int,
                            b >= 0,
                            num as int >= 2,
                            tot <= i128::MAX,
                    ;
                }
            }
            base_fill + extra
        } else if remaining >= min_fill_size {
            if min_fill_size < remaining {
                min_fill_size
            } else {
                remaining
            }
        } else {
            remaining
        };
        proof {
            if b >= mfs {
                // The slot never exceeds what is still undistributed.
                assert(fill_size as int <= remaining as int) by (nonlinear_arith)
                    requires
                        tot == num as int * b + rem,
                        0 <= rem < num as int,
                        b >= 0,
                        remaining as int == tot - (i as int * b + extra_units(i as int, rem)),
                        0 <= (i as int) && (i as int) < num as int,
                        fill_size as int == b + (if (i as int) < rem {
                            1int
                        } else {
                            0int
                        }),
                ;
            }
        }
        if fill_size > 0 {
            fill_sizes.push(fill_size);
            proof {
                lemma_seq_sum_push(prev_sizes, fill_size);
            }
            remaining = remaining - fill_size;
        }
        proof {
            if b >= mfs {
                assert(remaining as int == tot - ((i as int + 1) * b + extra_units(
                    i as int + 1,
                    rem,
                ))) by (nonlinear_arith)
                    requires
                        remaining as int == (if fill_size > 0 {
                            prev_remaining - fill_size as int
                        } else {
                            prev_remaining
                        }),
                        prev_remaining == tot - (i as int * b + extra_units(i as int, rem)),
                        fill_size as int == b + (if (i as int) < rem {
                            1int
                        } else {
                            0int
                        }),
                        extra_units(i as int + 1, rem) == extra_units(i as int, rem) + (if (
                        i as int) < rem {
                            1int
                        } else {
                            0int
                        }),
                        b >= 0,
                ;
                if mfs >= 1 {
                    assert(fill_size > 0);
                }
            }
            if b < mfs && remaining > 0 {
                assert(remaining as int + (i as int + 1) * mfs <= tot) by (nonlinear_arith)
                    requires
                        remaining as int > 0,
                        remaining as int == prev_remaining - fill_size as int,
                        fill_size as int == mfs,
                        prev_remaining > 0 ==> prev_remaining + i as int * mfs <= tot,
                        prev_remaining > 0,
                ;
            }
        }
        i += 1;
    }
    proof {
        if remaining > 0 {
            // The loop can only stop with something left when every slot
            // was used, and then nothing is left in either mode.
            assert(i == num_resolvers);
            if b >= mfs {
                assert(extra_units(num as int, rem) == rem);
                assert(remaining as int == 0);
            } else {
                assert(false) by (nonlinear_arith)
                    requires
                        remaining as int + num as int * mfs <= tot,
                        tot < num as int * mfs,
                        remaining as int > 0,
                ;
            }
        }
        if b >= mfs && mfs >= 1 && i < num_resolvers {
            // With a positive base every slot is positive, so the loop
            // cannot have run out of amount early.
            assert(remaining as int > 0) by (nonlinear_arith)
                requires
                    remaining as int == tot - (i as int * b + extra_units(i as int, rem)),
                    tot == num as int * b + rem,
                    0 <= rem < num as int,
                    b >= 1,
                    0 <= (i as int) && (i as int) < num as int,
                    extra_units(i as int, rem) <= rem,
            ;
            assert(false);
        }
    }
    fill_sizes
}

} // verus!
