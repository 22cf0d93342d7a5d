use vstd::prelude::*;

use crate::bytes::append_bytes;

verus! {

// The Soroban environment handle carries the host's cryptographic
// capability; the engine treats it as an opaque value and only ever
// hands it to the digest wrapper below.
#[verifier::external_type_specification]
#[verifier::external_body]
pub struct ExEnv(soroban_sdk::Env);

/// The Keccak-256 digest of a byte string. The digest is a function of
/// the input bytes alone; its definition is the host's.
pub uninterp spec fn keccak_of(data: Seq<u8>) -> Seq<u8>;

/// Relies on soroban_sdk's `Crypto::keccak256`: it returns the 32-byte
/// Keccak-256 digest of the input bytes, a function of those bytes alone.
#[verifier::external_body]
pub(crate) fn keccak256(env: &soroban_sdk::Env, data: &Vec<u8>) -> (r: Vec<u8>)
    ensures
        r@ == keccak_of(data@),
        r@.len() == 32,
{
    let b = soroban_sdk::Bytes::from_slice(env, data.as_slice());
    env.crypto().keccak256(&b).to_array().to_vec()
}

/// The eight bytes of `x` in big-endian order.
pub open spec fn u64_be_bytes(x: u64) -> Seq<u8> {
    Seq::new(8, |i: int| (((x >> (((7 - i) * 8) as u64)) & 0xff) as u8))
}

/// The sixteen bytes of a non-negative `x` in big-endian order.
pub open spec fn i128_be_bytes(x: i128) -> Seq<u8>
    recommends
        x >= 0,
{
    Seq::new(16, |i: int| ((((x as u128) >> (((15 - i) * 8) as u128)) & 0xff) as u8))
}

/// Appends the big-endian encoding of `x` to `out`.
pub fn push_u64_be(out: &mut Vec<u8>, x: u64)
    ensures
        final(out)@ == old(out)@ + u64_be_bytes(x),
{
    let mut i: usize = 0;
    while i < 8
        invariant
            i <= 8,
            out@ == old(out)@ + u64_be_bytes(x).subrange(0, i as int),
        decreases 8 - i,
    {
        let sh: u64 = (7 - (i as u64)) * 8;
        out.push(((x >> sh) & 0xff) as u8);
        proof {
            assert(out@ =~= old(out)@ + u64_be_bytes(x).subrange(0, i + 1 as int));
        }
        i += 1;
    }
    proof {
        assert(out@ =~= old(out)@ + u64_be_bytes(x));
    }
}

/// Appends the big-endian encoding of a non-negative `x` to `out`.
pub fn push_i128_be(out: &mut Vec<u8>, x: i128)
    requires
        x >= 0,
    ensures
        final(out)@ == old(out)@ + i128_be_bytes(x),
{
    let u: u128 = x as u128;
    let mut i: usize = 0;
    while i < 16
        invariant
            u == x as u128,
            x >= 0,
            i <= 16,
            out@ == old(out)@ + i128_be_bytes(x).subrange(0, i as int),
        decreases 16 - i,
    {
        let sh: u128 = (15 - (i as u128)) * 8;
        out.push(((u >> sh) & 0xff) as u8);
        proof {
            assert(out@ =~= old(out)@ + i128_be_bytes(x).subrange(0, i + 1 as int));
        }
        i += 1;
    }
    proof {
        assert(out@ =~= old(out)@ + i128_be_bytes(x));
    }
}

/// The 32-byte string of zeroes: the one secret-hash value rejected at
/// swap creation.
pub open spec fn zero_hash() -> Seq<u8> {
    Seq::new(32, |i: int| 0u8)
}

/// Whether a 32-byte string is all zeroes.
pub fn is_zero_hash(b: &Vec<u8>) -> (r: bool)
    requires
        b@.len() == 32,
    ensures
        r == (b@ == zero_hash()),
{
    let mut i: usize = 0;
    while i < 32
        invariant
            b@.len() == 32,
            i <= 32,
            forall|j: int| 0 <= j < i ==> b@[j] == 0u8,
        decreases 32 - i,
    {
        if b[i] != 0 {
            proof {
                assert(b@[i as int] != zero_hash()[i as int]);
            }
            return false;
        }
        i += 1;
    }
    proof {
        assert(b@ =~= zero_hash());
    }
    true
}

/// The framed bytes from which a swap identifier is derived: each
/// variable-length field is length-prefixed, scalars are big-endian.
pub open spec fn swap_id_preimage(
    initiator: Seq<u8>,
    token: Seq<u8>,
    amount: i128,
    secret_hash: Seq<u8>,
    timelock: u64,
    now: u64,
) -> Seq<u8> {
    u64_be_bytes(initiator.len() as u64) + initiator + u64_be_bytes(token.len() as u64) + token
        + i128_be_bytes(amount) + secret_hash + u64_be_bytes(timelock) + u64_be_bytes(now)
}

/// Derives a swap identifier: the Keccak-256 digest of the framed
/// creation parameters and the creation instant.
pub fn derive_swap_id(
    env: &soroban_sdk::Env,
    initiator: &Vec<u8>,
    token: &Vec<u8>,
    amount: i128,
    secret_hash: &Vec<u8>,
    timelock: u64,
    now: u64,
) -> (r: Vec<u8>)
    requires
        amount >= 0,
    ensures
        r@ == keccak_of(swap_id_preimage(initiator@, token@, amount, secret_hash@, timelock, now)),
        r@.len() == 32,
{
    let mut buf: Vec<u8> = Vec::new();
    push_u64_be(&mut buf, initiator.len() as u64);
    append_bytes(&mut buf, initiator);
    push_u64_be(&mut buf, token.len() as u64);
    append_bytes(&mut buf, token);
    push_i128_be(&mut buf, amount);
    append_bytes(&mut buf, secret_hash);
    push_u64_be(&mut buf, timelock);
    push_u64_be(&mut buf, now);
    keccak256(env, &buf)
}

/// The framed bytes of one authorized fill slot: the resolver's address
/// (length-prefixed), the fill amount and the slot's nonce. Note that
/// the leaf does not bind the swap identifier: a Merkle root shared by
/// two swaps authorizes the same slots in each, so roots should be
/// per-swap.
pub open spec fn fill_leaf_preimage(resolver: Seq<u8>, fill_amount: i128, nonce: u64) -> Seq<u8> {
    u64_be_bytes(resolver.len() as u64) + resolver + i128_be_bytes(fill_amount) + u64_be_bytes(
        nonce,
    )
}

/// Builds the authorization leaf for a fill slot: the Keccak-256 digest
/// of the framed (resolver, amount, nonce) triple.
pub fn derive_fill_leaf(
    env: &soroban_sdk::Env,
    resolver: &Vec<u8>,
    fill_amount: i128,
    nonce: u64,
) -> (r: Vec<u8>)
    requires
        fill_amount >= 0,
    ensures
        r@ == keccak_of(fill_leaf_preimage(resolver@, fill_amount, nonce)),
        r@.len() == 32,
{
    let mut buf: Vec<u8> = Vec::new();
    push_u64_be(&mut buf, resolver.len() as u64);
    append_bytes(&mut buf, resolver);
    push_i128_be(&mut buf, fill_amount);
    push_u64_be(&mut buf, nonce);
    keccak256(env, &buf)
}

/// Hashes a revealed secret, for comparison against a stored secret hash.
pub fn hash_secret(env: &soroban_sdk::Env, secret: &Vec<u8>) -> (r: Vec<u8>)
    ensures
        r@ == keccak_of(secret@),
        r@.len() == 32,
{
    keccak256(env, secret)
}

} // verus!
