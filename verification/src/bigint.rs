//! Big decimal numbers through `num-bigint`, and their big-endian bytes.
use vstd::prelude::*;

use core::str::FromStr;
use num_bigint::BigUint;

use crate::text::{digits_value, is_digit};
use vstd::string::StringSliceAdditionalSpecFns;

verus! {

/// What `BigUint::from_str` accepts and yields: after at most one leading `+`
/// (not followed by another `+`), a non-empty run of decimal digits and
/// underscores that does not start with an underscore; the value is that of
/// the digits, the underscores ignored.
pub open spec fn spec_parse_biguint(s: Seq<u8>) -> Option<nat> {
    let t = if s.len() >= 1 && s[0] == 43 && !(s.len() >= 2 && s[1] == 43) {
        s.drop_first()
    } else {
        s
    };
    if t.len() == 0 || t[0] == 95 {
        None
    } else if forall|i: int| 0 <= i < t.len() ==> is_digit(#[trigger] t[i]) || t[i] == 95 {
        Some(digits_value(t.filter(|b: u8| b != 95)))
    } else {
        None
    }
}

/// The value of a big-endian byte string.
pub open spec fn be_value(b: Seq<u8>) -> nat
    decreases b.len(),
{
    if b.len() == 0 {
        0
    } else {
        be_value(b.drop_last()) * 256 + b.last() as nat
    }
}

/// The length of the shortest big-endian encoding of `n` (one byte for zero).
pub open spec fn be_len(n: nat) -> nat
    decreases n,
{
    if n < 256 {
        1
    } else {
        1 + be_len(n / 256)
    }
}

pub open spec fn pow256(k: nat) -> nat
    decreases k,
{
    if k == 0 {
        1
    } else {
        256 * pow256((k - 1) as nat)
    }
}

/// `BigUint::from_str` on the text, the parsed number converted to its bytes
/// with `BigUint::to_bytes_be`: the contract states the value of the bytes
/// and that they are the shortest encoding; the parse error is dropped.
#[verifier::external_body]
pub(crate) fn decimal_to_be_bytes(s: &str) -> (r: Option<Vec<u8>>)
    ensures
        match spec_parse_biguint(s.spec_bytes()) {
            Some(n) => r matches Some(b) && be_value(b@) == n && b@.len() == be_len(n),
            None => r is None,
        },
{
    match BigUint::from_str(s) {
        Ok(n) => Some(n.to_bytes_be()),
        Err(_) => None,
    }
}

pub proof fn lemma_be_value_concat(p: Seq<u8>, q: Seq<u8>)
    ensures
        be_value(p + q) == be_value(p) * pow256(q.len()) + be_value(q),
    decreases q.len(),
{
    if q.len() == 0 {
        assert(p + q =~= p);
        assert(pow256(0) == 1);
        assert(be_value(q) == 0);
        assert(be_value(p) * 1 == be_value(p));
    } else {
        let q0 = q.drop_last();
        assert((p + q).drop_last() =~= p + q0);
        assert((p + q).last() == q.last());
        lemma_be_value_concat(p, q0);
        let a = be_value(p);
        let k = pow256(q0.len());
        assert(pow256(q.len()) == 256 * k);
        assert(be_value(q) == be_value(q0) * 256 + q.last() as nat);
        assert(be_value(p + q) == be_value(p + q0) * 256 + q.last() as nat);
        assert((a * k + be_value(q0)) * 256 + q.last() as nat == a * (256 * k) + (be_value(q0) * 256
            + q.last() as nat)) by (nonlinear_arith);
    }
}

pub proof fn lemma_be_value_bound(q: Seq<u8>)
    ensures
        be_value(q) < pow256(q.len()),
    decreases q.len(),
{
    if q.len() > 0 {
        lemma_be_value_bound(q.drop_last());
        let v = be_value(q.drop_last());
        let k = pow256(q.drop_last().len());
        let l = q.last() as nat;
        assert(v * 256 + l < 256 * k) by (nonlinear_arith)
            requires
                v < k,
                l < 256,
        ;
    }
}

pub proof fn lemma_be_value_zeros(k: nat, b: Seq<u8>)
    ensures
        be_value(Seq::new(k, |i: int| 0u8) + b) == be_value(b),
    decreases k,
{
    let z = Seq::new(k, |i: int| 0u8);
    lemma_be_value_concat(z, b);
    lemma_be_value_zero(k);
    assert(0 * pow256(b.len()) == 0) by (nonlinear_arith);
}

pub proof fn lemma_be_value_zero(k: nat)
    ensures
        be_value(Seq::new(k, |i: int| 0u8)) == 0,
    decreases k,
{
    if k > 0 {
        assert(Seq::new(k, |i: int| 0u8).drop_last() =~= Seq::new((k - 1) as nat, |i: int| 0u8));
        lemma_be_value_zero((k - 1) as nat);
    }
}

/// The `k`-byte big-endian encoding of `n` (modulo 256^k).
pub open spec fn be_bytes_fixed(n: nat, k: nat) -> Seq<u8>
    decreases k,
{
    if k == 0 {
        Seq::empty()
    } else {
        be_bytes_fixed(n / 256, (k - 1) as nat) + seq![(n % 256) as u8]
    }
}

/// A byte string is the fixed-width encoding of its own value.
pub proof fn lemma_be_bytes_fixed_of_value(b: Seq<u8>)
    ensures
        b == be_bytes_fixed(be_value(b), b.len()),
    decreases b.len(),
{
    if b.len() > 0 {
        let p = b.drop_last();
        lemma_be_bytes_fixed_of_value(p);
        let v = be_value(p);
        let l = b.last() as nat;
        assert((v * 256 + l) / 256 == v && (v * 256 + l) % 256 == l) by (nonlinear_arith)
            requires
                l < 256,
        ;
        assert(b =~= p + seq![b.last()]);
    }
}

/// The value of at most four big-endian bytes.
pub fn be_u32(b: &[u8]) -> (r: u32)
    requires
        b@.len() <= 4,
    ensures
        r == be_value(b@),
{
    let mut acc: u32 = 0;
    let mut i: usize = 0;
    while i < b.len()
        invariant
            i <= b@.len() <= 4,
            acc == be_value(b@.subrange(0, i as int)),
        decreases b@.len() - i,
    {
        let ghost prev = b@.subrange(0, i as int);
        let ghost next = b@.subrange(0, i + 1);
        assert(next.drop_last() =~= prev);
        proof {
            lemma_be_value_bound(prev);
            assert(pow256(prev.len()) <= pow256(3)) by {
                reveal_with_fuel(pow256, 4);
            }
            reveal_with_fuel(pow256, 4);
        }
        acc = acc * 256 + b[i] as u32;
        i = i + 1;
    }
    assert(b@.subrange(0, b@.len() as int) =~= b@);
    acc
}

} // verus!
