//! Calls into the Soroban host: SHA-256 and the XDR encoding of 32-byte values.
use vstd::prelude::*;

use soroban_sdk::xdr::ToXdr;
use soroban_sdk::{Bytes, BytesN, Env};

use crate::types::Hash32;

verus! {

/// The Soroban environment: the handle through which host functions are called.
#[verifier::external_type_specification]
#[verifier::external_body]
pub struct ExEnv(Env);

/// The SHA-256 digest of a byte string.
pub uninterp spec fn spec_sha256(data: Seq<u8>) -> Seq<u8>;

/// SHA-256 through the host (`soroban_sdk::crypto::Crypto::sha256`): the digest
/// depends on the bytes alone.
#[verifier::external_body]
pub(crate) fn sha256(env: &Env, data: &[u8]) -> (r: Hash32)
    ensures
        r@ == spec_sha256(data@),
{
    env.crypto().sha256(&Bytes::from_slice(env, data)).to_array()
}

/// The XDR encoding of a 32-byte value as an `ScVal`: the `SCV_BYTES`
/// discriminant (13) and the length (32), each a big-endian 32-bit word,
/// then the bytes themselves (no padding is needed for 32 bytes).
pub open spec fn spec_bytes32_xdr(b: Seq<u8>) -> Seq<u8> {
    seq![0u8, 0u8, 0u8, 13u8, 0u8, 0u8, 0u8, 32u8] + b
}

/// `BytesN<32>::to_xdr` (`soroban_sdk::xdr::ToXdr`): the value is converted to
/// an `ScVal::Bytes` and serialized; the contract states that encoding.
#[verifier::external_body]
pub(crate) fn bytes32_to_xdr(env: &Env, b: &Hash32) -> (r: Vec<u8>)
    ensures
        r@ == spec_bytes32_xdr(b@),
{
    BytesN::<32>::from_array(env, b).to_xdr(env).iter().collect()
}

} // verus!
