//! SHA-256, as the Soroban host computes it.
use vstd::prelude::*;

verus! {

#[verifier::external_type_specification]
#[verifier::external_body]
pub struct ExHostEnv(soroban_sdk::Env);

/// The SHA-256 digest of `data`.
pub uninterp spec fn sha256_digest(data: Seq<u8>) -> Seq<u8>;

/// Hashes `data` with the host's SHA-256 (`soroban_sdk::crypto::Crypto::sha256`).
/// Claimed: the digest depends on `data` alone, and is named `sha256_digest`.
/// Not claimed: that the call returns. The host charges the hashing to the
/// running call's budget and aborts the call when the budget runs out, which
/// depends on the host's metering and not on `data` alone.
#[verifier::external_body]
pub(crate) fn sha256(host: &soroban_sdk::Env, data: &Vec<u8>) -> (digest: [u8; 32])
    ensures
        digest@ == sha256_digest(data@),
{
    host.crypto().sha256(&soroban_sdk::Bytes::from_slice(host, data)).to_array()
}

} // verus!
