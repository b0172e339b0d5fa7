//! The hash lock: a commitment is opened by the secret whose SHA-256 digest,
//! read as a number, equals it.

use crate::storage::DATA_BYTES_LENGTH;
use crate::u256::{be_value, U256};
use vstd::prelude::*;

verus! {

/// The SHA-256 digest of `data`.
pub uninterp spec fn sha256_of(data: Seq<u8>) -> Seq<u8>;

/// Calls `soroban_sdk::crypto::Crypto::sha256` on a host of its own, made
/// by `soroban_sdk::Env::default`. Believed, not proved: the 32 bytes that
/// come back are the SHA-256 digest of `data`, which depends on `data`
/// alone. Only candidates of the required length are hashed, so the host's
/// budget for one call is never at stake.
#[verifier::external_body]
fn sha256(data: &[u8]) -> (digest: [u8; 32])
    requires
        data@.len() == DATA_BYTES_LENGTH,
    ensures
        digest@ == sha256_of(data@),
{
    let env = soroban_sdk::Env::default();
    let bytes = soroban_sdk::Bytes::from_slice(&env, data);
    env.crypto().sha256(&bytes).to_array()
}

/// Whether `digest`, read as a big-endian number, is the commitment `hash`.
pub open spec fn matches_digest(hash: U256, digest: Seq<u8>) -> bool {
    be_value(digest) == hash@
}

/// Whether the candidate `data` opens the commitment `hash`: it has the
/// required length and its digest is the commitment.
pub open spec fn opens(hash: U256, data: Seq<u8>) -> bool {
    data.len() == DATA_BYTES_LENGTH && matches_digest(hash, sha256_of(data))
}

/// Compares a digest, read as a big-endian number, with the commitment.
pub fn digest_matches(hash: &U256, digest: &[u8; 32]) -> (ok: bool)
    ensures
        ok == matches_digest(*hash, digest@),
{
    let val = U256::from_be_bytes(digest);
    proof {
        val.lemma_view_injective(*hash);
    }
    val == *hash
}

/// Checks a candidate secret against the commitment. A candidate of the
/// wrong length and one with the wrong digest are refused alike.
pub fn valid_signature(hash: &U256, data: &[u8]) -> (ok: bool)
    ensures
        ok == opens(*hash, data@),
{
    if data.len() != DATA_BYTES_LENGTH as usize {
        return false;
    }
    let signature = sha256(data);
    digest_matches(hash, &signature)
}

} // verus!
