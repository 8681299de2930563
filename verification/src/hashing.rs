//! The byte strings the registry hashes, and the helpers that build them.
use vstd::prelude::*;

use crate::claims::AttestedClaims;
use crate::crypto::spec_bytes32_xdr;
use crate::model::VerificationKey;
use crate::types::Scalar;

verus! {

/// Little-endian bytes of a 32-bit word.
pub open spec fn u32_le(x: u32) -> Seq<u8> {
    seq![(x % 256) as u8, ((x / 256) % 256) as u8, ((x / 65536) % 256) as u8, (x / 16777216) as u8]
}

/// Big-endian bytes of a 32-bit word.
pub open spec fn u32_be(x: u32) -> Seq<u8> {
    seq![(x / 16777216) as u8, ((x / 65536) % 256) as u8, ((x / 256) % 256) as u8, (x % 256) as u8]
}

/// The concatenation of a sequence of fixed-size byte arrays.
pub open spec fn flatten<const N: usize>(s: Seq<[u8; N]>) -> Seq<u8>
    decreases s.len(),
{
    if s.len() == 0 {
        Seq::empty()
    } else {
        flatten(s.drop_last()) + s.last()@
    }
}

/// Canonical encoding of attested claims: age, country code and humanity
/// (1 or 0), each as a little-endian 32-bit word.
pub open spec fn claims_preimage(c: AttestedClaims) -> Seq<u8> {
    u32_le(c.age) + u32_le(c.country_code) + u32_le(if c.is_human { 1u32 } else { 0u32 })
}

/// What the attestation hash binds: the XDR of prover, app id and subject,
/// then the XDR of the nullifier and of the public-inputs hash.
pub open spec fn attestation_preimage(
    prover: Seq<u8>,
    app_id: Seq<u8>,
    subject: Seq<u8>,
    nullifier: Seq<u8>,
    public_inputs_hash: Seq<u8>,
) -> Seq<u8> {
    prover + app_id + subject + spec_bytes32_xdr(nullifier) + spec_bytes32_xdr(public_inputs_hash)
}

/// The public signals, each in its 32-byte big-endian encoding, followed by
/// the current date as a big-endian word when one is bound (non-zero).
pub open spec fn pub_signals_preimage(signals: Seq<Scalar>, current_date_ymd: u32) -> Seq<u8> {
    flatten(signals) + (if current_date_ymd == 0 {
        Seq::<u8>::empty()
    } else {
        u32_be(current_date_ymd)
    })
}

/// The verification key's points in order: alpha, beta, gamma, delta, then IC.
pub open spec fn vk_preimage(vk: VerificationKey) -> Seq<u8> {
    vk.alpha@ + vk.beta@ + vk.gamma@ + vk.delta@ + flatten(vk.ic@)
}

/// Appends the bytes of `b` to `v`.
pub fn append_bytes(v: &mut Vec<u8>, b: &[u8])
    ensures
        final(v)@ == old(v)@ + b@,
{
    let ghost start = v@;
    let mut i: usize = 0;
    while i < b.len()
        invariant
            i <= b@.len(),
            v@ == start + b@.subrange(0, i as int),
        decreases b@.len() - i,
    {
        v.push(b[i]);
        i = i + 1;
        assert(v@ =~= start + b@.subrange(0, i as int));
    }
    assert(b@.subrange(0, b@.len() as int) =~= b@);
}

/// Appends the little-endian bytes of `x` to `v`.
pub fn push_u32_le(v: &mut Vec<u8>, x: u32)
    ensures
        final(v)@ == old(v)@ + u32_le(x),
{
    let ghost start = v@;
    v.push((x % 256) as u8);
    v.push(((x / 256) % 256) as u8);
    v.push(((x / 65536) % 256) as u8);
    v.push((x / 16777216) as u8);
    assert(v@ =~= start + u32_le(x));
}

/// Appends the big-endian bytes of `x` to `v`.
pub fn push_u32_be(v: &mut Vec<u8>, x: u32)
    ensures
        final(v)@ == old(v)@ + u32_be(x),
{
    let ghost start = v@;
    v.push((x / 16777216) as u8);
    v.push(((x / 65536) % 256) as u8);
    v.push(((x / 256) % 256) as u8);
    v.push((x % 256) as u8);
    assert(v@ =~= start + u32_be(x));
}

/// Appends each array of `items` to `v`, in order.
pub fn append_all<const N: usize>(v: &mut Vec<u8>, items: &Vec<[u8; N]>)
    ensures
        final(v)@ == old(v)@ + flatten(items@),
{
    let ghost start = v@;
    let mut i: usize = 0;
    while i < items.len()
        invariant
            i <= items@.len(),
            v@ == start + flatten(items@.subrange(0, i as int)),
        decreases items@.len() - i,
    {
        let item: [u8; N] = items[i];
        append_bytes(v, &item);
        i = i + 1;
        assert(items@.subrange(0, i as int).drop_last() =~= items@.subrange(0, i - 1));
        assert(v@ =~= start + flatten(items@.subrange(0, i as int)));
    }
    assert(items@.subrange(0, items@.len() as int) =~= items@);
}

} // verus!
