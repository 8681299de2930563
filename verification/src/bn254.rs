//! BN254 points as the Soroban host takes them, the host's curve operations,
//! and the Groth16 pairing check built from them.
//!
//! A G1 point is 64 bytes, `be(x) || be(y)`; a G2 point is 128 bytes, each
//! coordinate an Fp2 element `be(c1) || be(c0)`. All zeros is the point at
//! infinity. The host traps on any other encoding that is not a valid point,
//! so every operation here requires valid points, and the checks below decide
//! validity without trapping.
use vstd::prelude::*;

use ark_bn254::{Fq, Fq2, G2Affine};
use ark_ff::PrimeField;
use soroban_sdk::crypto::bn254::{Bn254Fr, Bn254G1Affine, Bn254G2Affine};
use soroban_sdk::{BytesN, Env};

use vstd::arithmetic::div_mod::lemma_mod_multiples_vanish;

use crate::bigint::{
    be_bytes_fixed, be_value, lemma_be_value_bound, lemma_be_value_concat, lemma_be_value_zero, pow256,
};
use crate::model::{Proof, VerificationKey};
use crate::types::Scalar;

verus! {

/// The big-endian bytes of the BN254 base-field modulus p.
pub open spec fn fp_modulus_bytes() -> Seq<u8> {
    seq![
        0x30u8, 0x64u8, 0x4eu8, 0x72u8, 0xe1u8, 0x31u8, 0xa0u8, 0x29u8, 0xb8u8, 0x50u8, 0x45u8,
        0xb6u8, 0x81u8, 0x81u8, 0x58u8, 0x5du8, 0x97u8, 0x81u8, 0x6au8, 0x91u8, 0x68u8, 0x71u8,
        0xcau8, 0x8du8, 0x3cu8, 0x20u8, 0x8cu8, 0x16u8, 0xd8u8, 0x7cu8, 0xfdu8, 0x47u8,
    ]
}

/// The BN254 base-field modulus p.
pub open spec fn fp_modulus() -> nat {
    be_value(fp_modulus_bytes())
}

/// The big-endian value of the `i`-th 32-byte coordinate of an encoding.
pub open spec fn coord(b: Seq<u8>, i: int) -> nat {
    be_value(b.subrange(32 * i, 32 * i + 32))
}

/// Every byte is zero: the encoding of the point at infinity.
pub open spec fn all_zero(b: Seq<u8>) -> bool {
    forall|i: int| 0 <= i < b.len() ==> b[i] == 0
}

/// The first `n` coordinates are canonical field elements (below p).
pub open spec fn coords_canonical(b: Seq<u8>, n: int) -> bool {
    forall|i: int| 0 <= i < n ==> #[trigger] coord(b, i) < fp_modulus()
}

/// `(x, y)` satisfies the G1 curve equation `y^2 = x^3 + 3` over F_p.
pub open spec fn g1_on_curve(b: Seq<u8>) -> bool {
    let (x, y) = (coord(b, 0), coord(b, 1));
    (y * y) % fp_modulus() == (x * x * x + 3) % fp_modulus()
}

/// A G1 encoding the host accepts: infinity, or a point on the curve with
/// canonical coordinates (G1 needs no subgroup check).
pub open spec fn g1_valid(b: Seq<u8>) -> bool {
    b.len() == 64 && (all_zero(b) || (coords_canonical(b, 2) && g1_on_curve(b)))
}

/// Whether arkworks places the G2 point with these coordinates (read modulo
/// p) on the curve.
pub uninterp spec fn spec_g2_on_curve(p: Seq<u8>) -> bool;

/// Whether arkworks places the G2 point with these coordinates (read modulo
/// p) in the prime-order subgroup, assuming it is on the curve.
pub uninterp spec fn spec_g2_in_subgroup(p: Seq<u8>) -> bool;

/// A G2 encoding the host accepts: infinity, or a point with canonical
/// coordinates that is on the curve and in the prime-order subgroup.
pub open spec fn g2_valid(b: Seq<u8>) -> bool {
    b.len() == 128 && (all_zero(b) || (coords_canonical(b, 4) && spec_g2_on_curve(b)
        && spec_g2_in_subgroup(b)))
}

/// The sum of two G1 points, as the host computes it.
pub uninterp spec fn spec_g1_add(p: Seq<u8>, q: Seq<u8>) -> Seq<u8>;

/// A G1 point times a scalar (read modulo the group order), as the host computes it.
pub uninterp spec fn spec_g1_mul(p: Seq<u8>, s: Seq<u8>) -> Seq<u8>;

/// Whether the product of the pairings `e(g1[i], g2[i])` is one, as the host decides.
pub uninterp spec fn spec_pairing_check(g1: Seq<Seq<u8>>, g2: Seq<Seq<u8>>) -> bool;

/// `-y` in F_p for a canonical `y`.
pub open spec fn fp_neg(y: nat) -> nat {
    if y == 0 {
        0
    } else {
        (fp_modulus() - y) as nat
    }
}

/// The negation of a G1 point: `(x, -y)`.
pub open spec fn g1_negated(p: Seq<u8>) -> Seq<u8> {
    p.subrange(0, 32) + be_bytes_fixed(fp_neg(coord(p, 1)), 32)
}

pub open spec fn g1_views(s: Seq<[u8; 64]>) -> Seq<Seq<u8>> {
    s.map_values(|p: [u8; 64]| p@)
}

pub open spec fn g2_views(s: Seq<[u8; 128]>) -> Seq<Seq<u8>> {
    s.map_values(|p: [u8; 128]| p@)
}

/// `Bn254::g1_is_on_curve`: the host reads the point without validating it
/// (trapping only on non-canonical coordinates) and reports whether it is
/// infinity or satisfies the curve equation.
#[verifier::external_body]
fn g1_is_on_curve(env: &Env, p: &[u8; 64]) -> (r: bool)
    requires
        coords_canonical(p@, 2),
    ensures
        r == (all_zero(p@) || g1_on_curve(p@)),
{
    env.crypto().bn254().g1_is_on_curve(&Bn254G1Affine::from_array(env, p))
}

/// arkworks' `Affine::<g2::Config>::is_on_curve` on the point with these
/// coordinates (`Fq::from_be_bytes_mod_order`, `Fq2::new(c0, c1)`,
/// `G2Affine::new_unchecked`), as the host runs it before a pairing.
#[verifier::external_body]
fn g2_is_on_curve(p: &[u8; 128]) -> (r: bool)
    ensures
        r == spec_g2_on_curve(p@),
{
    let x = Fq2::new(Fq::from_be_bytes_mod_order(&p[32..64]), Fq::from_be_bytes_mod_order(&p[0..32]));
    let y = Fq2::new(Fq::from_be_bytes_mod_order(&p[96..128]), Fq::from_be_bytes_mod_order(&p[64..96]));
    G2Affine::new_unchecked(x, y).is_on_curve()
}

/// arkworks' `Affine::<g2::Config>::is_in_correct_subgroup_assuming_on_curve`
/// on the point with these coordinates, as the host runs it before a pairing.
#[verifier::external_body]
fn g2_is_in_subgroup(p: &[u8; 128]) -> (r: bool)
    ensures
        r == spec_g2_in_subgroup(p@),
{
    let x = Fq2::new(Fq::from_be_bytes_mod_order(&p[32..64]), Fq::from_be_bytes_mod_order(&p[0..32]));
    let y = Fq2::new(Fq::from_be_bytes_mod_order(&p[96..128]), Fq::from_be_bytes_mod_order(&p[64..96]));
    G2Affine::new_unchecked(x, y).is_in_correct_subgroup_assuming_on_curve()
}

/// `Bn254::g1_add`: the host adds two valid points and returns the sum,
/// itself a valid point.
#[verifier::external_body]
fn g1_add(env: &Env, p: &[u8; 64], q: &[u8; 64]) -> (r: [u8; 64])
    requires
        g1_valid(p@),
        g1_valid(q@),
    ensures
        r@ == spec_g1_add(p@, q@),
        g1_valid(r@),
{
    let a = Bn254G1Affine::from_array(env, p);
    let b = Bn254G1Affine::from_array(env, q);
    env.crypto().bn254().g1_add(&a, &b).to_array()
}

/// `Bn254::g1_mul`: the host multiplies a valid point by the scalar (the
/// 32 bytes read big-endian and reduced modulo the group order) and returns
/// the product, itself a valid point.
#[verifier::external_body]
fn g1_mul(env: &Env, p: &[u8; 64], s: &Scalar) -> (r: [u8; 64])
    requires
        g1_valid(p@),
    ensures
        r@ == spec_g1_mul(p@, s@),
        g1_valid(r@),
{
    let a = Bn254G1Affine::from_array(env, p);
    let k = Bn254Fr::from_bytes(BytesN::from_array(env, s));
    env.crypto().bn254().g1_mul(&a, &k).to_array()
}

/// `Neg for Bn254G1Affine`: keeps `x` and replaces `y` by `-y` in F_p; it
/// panics when `y` is not canonical.
#[verifier::external_body]
fn g1_neg(env: &Env, p: &[u8; 64]) -> (r: [u8; 64])
    requires
        coord(p@, 1) < fp_modulus(),
    ensures
        r@ == g1_negated(p@),
{
    (-Bn254G1Affine::from_array(env, p)).to_array()
}

/// `Bn254::pairing_check`: whether the product of the pairings of the
/// paired points is one; the host takes equally many (at least one) valid
/// points of each group.
#[verifier::external_body]
fn pairing_check(env: &Env, g1: &Vec<[u8; 64]>, g2: &Vec<[u8; 128]>) -> (r: bool)
    requires
        g1@.len() == g2@.len(),
        g1@.len() > 0,
        forall|i: int| 0 <= i < g1@.len() ==> g1_valid(#[trigger] g1@[i]@),
        forall|i: int| 0 <= i < g2@.len() ==> g2_valid(#[trigger] g2@[i]@),
    ensures
        r == spec_pairing_check(g1_views(g1@), g2_views(g2@)),
{
    let mut a = soroban_sdk::Vec::new(env);
    for p in g1.iter() {
        a.push_back(Bn254G1Affine::from_array(env, p));
    }
    let mut b = soroban_sdk::Vec::new(env);
    for p in g2.iter() {
        b.push_back(Bn254G2Affine::from_array(env, p));
    }
    env.crypto().bn254().pairing_check(a, b)
}

/// Of two big-endian byte strings of one length that agree before index
/// `k` and differ at it, the smaller value has the smaller byte at `k`.
proof fn lemma_be_lex(a: Seq<u8>, m: Seq<u8>, k: int)
    requires
        a.len() == m.len(),
        0 <= k < a.len(),
        a.subrange(0, k) == m.subrange(0, k),
        a[k] != m[k],
    ensures
        (be_value(a) < be_value(m)) == (a[k] < m[k]),
{
    let n = a.len() as int;
    let (ha, ta) = (a.subrange(0, k + 1), a.subrange(k + 1, n));
    let (hm, tm) = (m.subrange(0, k + 1), m.subrange(k + 1, n));
    assert(a =~= ha + ta);
    assert(m =~= hm + tm);
    lemma_be_value_concat(ha, ta);
    lemma_be_value_concat(hm, tm);
    lemma_be_value_bound(ta);
    lemma_be_value_bound(tm);
    assert(ha.drop_last() =~= a.subrange(0, k));
    assert(hm.drop_last() =~= m.subrange(0, k));
    let pre = be_value(a.subrange(0, k));
    let x = pow256(ta.len());
    assert(ta.len() == tm.len());
    assert(be_value(ha) == pre * 256 + a[k] as nat);
    assert(be_value(hm) == pre * 256 + m[k] as nat);
    let (va, vm) = (be_value(ta), be_value(tm));
    let (ak, mk) = (a[k] as int, m[k] as int);
    if ak < mk {
        assert((pre * 256 + ak) * x + va < (pre * 256 + mk) * x + vm) by (nonlinear_arith)
            requires
                ak < mk,
                va < x,
                vm >= 0,
        ;
    } else {
        assert((pre * 256 + mk) * x + vm < (pre * 256 + ak) * x + va) by (nonlinear_arith)
            requires
                mk < ak,
                vm < x,
                va >= 0,
        ;
    }
}

/// Whether the 32 bytes at `start` are a canonical field element (below p).
fn below_modulus(b: &[u8], start: usize) -> (r: bool)
    requires
        start + 32 <= b@.len(),
    ensures
        r == (be_value(b@.subrange(start as int, start + 32)) < fp_modulus()),
{
    let m: [u8; 32] = [
        0x30, 0x64, 0x4e, 0x72, 0xe1, 0x31, 0xa0, 0x29, 0xb8, 0x50, 0x45, 0xb6, 0x81, 0x81, 0x58,
        0x5d, 0x97, 0x81, 0x6a, 0x91, 0x68, 0x71, 0xca, 0x8d, 0x3c, 0x20, 0x8c, 0x16, 0xd8, 0x7c,
        0xfd, 0x47,
    ];
    assert(m@ =~= fp_modulus_bytes());
    let ghost a = b@.subrange(start as int, start + 32);
    let mut i: usize = 0;
    while i < 32
        invariant
            start + 32 <= b.len(),
            a == b@.subrange(start as int, start + 32),
            m@ == fp_modulus_bytes(),
            i <= 32,
            a.subrange(0, i as int) == m@.subrange(0, i as int),
        decreases 32 - i,
    {
        if b[start + i] != m[i] {
            proof {
                assert(a[i as int] == b@[start + i]);
                lemma_be_lex(a, m@, i as int);
            }
            return b[start + i] < m[i];
        }
        assert(a.subrange(0, i + 1) =~= m@.subrange(0, i + 1)) by {
            assert(a[i as int] == b@[start + i]);
        }
        i = i + 1;
    }
    assert(a =~= m@) by {
        assert(a.subrange(0, 32) =~= a);
        assert(m@.subrange(0, 32) =~= m@);
    }
    false
}

/// Whether every byte is zero.
fn is_all_zero(b: &[u8]) -> (r: bool)
    ensures
        r == all_zero(b@),
{
    let mut i: usize = 0;
    while i < b.len()
        invariant
            i <= b@.len(),
            forall|j: int| 0 <= j < i ==> b@[j] == 0,
        decreases b@.len() - i,
    {
        if b[i] != 0 {
            return false;
        }
        i = i + 1;
    }
    true
}

/// Whether the first `n` coordinates are canonical.
fn coords_below_modulus(b: &[u8], n: usize) -> (r: bool)
    requires
        32 * n <= b@.len(),
    ensures
        r == coords_canonical(b@, n as int),
{
    let mut i: usize = 0;
    while i < n
        invariant
            i <= n,
            32 * n <= b.len(),
            forall|j: int| 0 <= j < i ==> #[trigger] coord(b@, j) < fp_modulus(),
        decreases n - i,
    {
        assert(32 * i + 32 <= 32 * n) by (nonlinear_arith)
            requires
                i < n,
        ;
        let start: usize = 32 * i;
        if !below_modulus(b, start) {
            assert(coord(b@, i as int) >= fp_modulus());
            return false;
        }
        i = i + 1;
    }
    true
}

/// Whether the host accepts the encoding as a G1 point.
pub fn g1_point_valid(env: &Env, p: &[u8; 64]) -> (r: bool)
    ensures
        r == g1_valid(p@),
{
    if is_all_zero(p) {
        return true;
    }
    if !coords_below_modulus(p, 2) {
        return false;
    }
    g1_is_on_curve(env, p)
}

/// Whether the host accepts the encoding as a G2 point.
pub fn g2_point_valid(p: &[u8; 128]) -> (r: bool)
    ensures
        r == g2_valid(p@),
{
    if is_all_zero(p) {
        return true;
    }
    if !coords_below_modulus(p, 4) {
        return false;
    }
    g2_is_on_curve(p) && g2_is_in_subgroup(p)
}

proof fn lemma_be_bytes_fixed_value(n: nat, k: nat)
    requires
        n < pow256(k),
    ensures
        be_bytes_fixed(n, k).len() == k,
        be_value(be_bytes_fixed(n, k)) == n,
    decreases k,
{
    if k > 0 {
        assert(n / 256 < pow256((k - 1) as nat)) by (nonlinear_arith)
            requires
                n < 256 * pow256((k - 1) as nat),
        ;
        lemma_be_bytes_fixed_value(n / 256, (k - 1) as nat);
        let b = be_bytes_fixed(n, k);
        assert(b.drop_last() =~= be_bytes_fixed(n / 256, (k - 1) as nat));
    }
}

proof fn lemma_be_bytes_fixed_zero(k: nat)
    ensures
        be_bytes_fixed(0, k) =~= Seq::new(k, |i: int| 0u8),
    decreases k,
{
    if k > 0 {
        lemma_be_bytes_fixed_zero((k - 1) as nat);
    }
}

/// A valid G1 point has a canonical `y`.
proof fn lemma_valid_g1_y(p: Seq<u8>)
    requires
        g1_valid(p),
    ensures
        coord(p, 1) < fp_modulus(),
{
    if all_zero(p) {
        let z = Seq::new(32, |i: int| 0u8);
        assert(p.subrange(32, 64) =~= z);
        lemma_be_value_zero(32);
        assert(z.subrange(0, 0) =~= fp_modulus_bytes().subrange(0, 0));
        lemma_be_lex(z, fp_modulus_bytes(), 0);
    } else {
        assert(coord(p, 1) < fp_modulus());
    }
}

/// Negating a valid G1 point gives a valid G1 point.
proof fn lemma_negated_valid(p: Seq<u8>)
    requires
        g1_valid(p),
    ensures
        g1_valid(g1_negated(p)),
{
    let pm = fp_modulus();
    let y = coord(p, 1);
    let x_bytes = p.subrange(0, 32);
    let q = g1_negated(p);
    lemma_be_value_bound(fp_modulus_bytes());
    if all_zero(p) {
        assert(p.subrange(32, 64) =~= Seq::new(32, |i: int| 0u8));
        lemma_be_value_zero(32);
        lemma_be_bytes_fixed_zero(32);
        assert forall|i: int| 0 <= i < q.len() implies q[i] == 0 by {
            if i < 32 {
                assert(q[i] == p[i]);
            }
        }
    } else {
        let ny = fp_neg(y);
        assert(coord(p, 0) < pm);
        assert(ny < pm);
        lemma_be_bytes_fixed_value(ny, 32);
        let t = be_bytes_fixed(ny, 32);
        assert(q.subrange(0, 32) =~= x_bytes);
        assert(q.subrange(32, 64) =~= t);
        assert(coord(q, 0) == coord(p, 0));
        assert(coord(q, 1) == ny);
        assert(coords_canonical(q, 2)) by {
            assert forall|i: int| 0 <= i < 2 implies #[trigger] coord(q, i) < pm by {
                if i == 0 {
                    assert(coord(q, 0) < pm);
                } else {
                    assert(coord(q, 1) < pm);
                }
            }
        }
        if y != 0 {
            let (yi, pi) = (y as int, pm as int);
            assert((pi - yi) * (pi - yi) == pi * (pi - 2 * yi) + yi * yi) by (nonlinear_arith);
            lemma_mod_multiples_vanish(pi - 2 * yi, yi * yi, pi);
        }
    }
}

/// `vk_x` over the first `n` signals: `ic[0] + s[0]·ic[1] + ... + s[n-1]·ic[n]`,
/// summed left to right.
pub open spec fn spec_vk_x(ic: Seq<[u8; 64]>, s: Seq<Scalar>, n: nat) -> Seq<u8>
    decreases n,
{
    if n == 0 {
        ic[0]@
    } else {
        spec_g1_add(spec_vk_x(ic, s, (n - 1) as nat), spec_g1_mul(ic[n as int]@, s[n - 1]@))
    }
}

/// Every point of the key and of the proof is one the host accepts.
pub open spec fn groth16_points_valid(vk: VerificationKey, proof: Proof) -> bool {
    &&& g1_valid(vk.alpha@)
    &&& g2_valid(vk.beta@)
    &&& g2_valid(vk.gamma@)
    &&& g2_valid(vk.delta@)
    &&& forall|i: int| 0 <= i < vk.ic@.len() ==> g1_valid(#[trigger] vk.ic@[i]@)
    &&& g1_valid(proof.a@)
    &&& g2_valid(proof.b@)
    &&& g1_valid(proof.c@)
}

/// The Groth16 verification equation
/// `e(-A, B) · e(alpha, beta) · e(vk_x, gamma) · e(C, delta) = 1`.
pub open spec fn spec_groth16_valid(vk: VerificationKey, proof: Proof, signals: Seq<Scalar>) -> bool {
    spec_pairing_check(
        seq![g1_negated(proof.a@), vk.alpha@, spec_vk_x(vk.ic@, signals, signals.len()), proof.c@],
        seq![proof.b@, vk.beta@, vk.gamma@, vk.delta@],
    )
}

/// Whether every point of the key and of the proof is one the host accepts.
pub fn groth16_points_check(env: &Env, vk: &VerificationKey, proof: &Proof) -> (r: bool)
    ensures
        r == groth16_points_valid(*vk, *proof),
{
    if !g1_point_valid(env, &vk.alpha) || !g2_point_valid(&vk.beta) || !g2_point_valid(&vk.gamma)
        || !g2_point_valid(&vk.delta) {
        return false;
    }
    let mut i: usize = 0;
    while i < vk.ic.len()
        invariant
            i <= vk.ic@.len(),
            forall|j: int| 0 <= j < i ==> g1_valid(#[trigger] vk.ic@[j]@),
        decreases vk.ic@.len() - i,
    {
        if !g1_point_valid(env, &vk.ic[i]) {
            return false;
        }
        i = i + 1;
    }
    g1_point_valid(env, &proof.a) && g2_point_valid(&proof.b) && g1_point_valid(env, &proof.c)
}

/// The Groth16 pairing check of a proof against a key and public signals.
pub fn verify_groth16(env: &Env, vk: &VerificationKey, proof: &Proof, signals: &Vec<Scalar>) -> (r: bool)
    requires
        signals@.len() + 1 == vk.ic@.len(),
        groth16_points_valid(*vk, *proof),
    ensures
        r == spec_groth16_valid(*vk, *proof, signals@),
{
    assert(g1_valid(vk.ic@[0]@));
    let mut acc: [u8; 64] = vk.ic[0];
    let mut i: usize = 0;
    while i < signals.len()
        invariant
            signals@.len() + 1 == vk.ic@.len(),
            groth16_points_valid(*vk, *proof),
            i <= signals@.len(),
            acc@ == spec_vk_x(vk.ic@, signals@, i as nat),
            g1_valid(acc@),
        decreases signals@.len() - i,
    {
        assert(g1_valid(vk.ic@[i + 1]@));
        let prod = g1_mul(env, &vk.ic[i + 1], &signals[i]);
        acc = g1_add(env, &acc, &prod);
        i = i + 1;
    }
    proof {
        lemma_valid_g1_y(proof.a@);
        lemma_negated_valid(proof.a@);
    }
    let neg_a = g1_neg(env, &proof.a);
    let mut g1: Vec<[u8; 64]> = Vec::new();
    g1.push(neg_a);
    g1.push(vk.alpha);
    g1.push(acc);
    g1.push(proof.c);
    let mut g2: Vec<[u8; 128]> = Vec::new();
    g2.push(proof.b);
    g2.push(vk.beta);
    g2.push(vk.gamma);
    g2.push(vk.delta);
    assert(g1_views(g1@) =~= seq![g1_negated(proof.a@), vk.alpha@, acc@, proof.c@]);
    assert(g2_views(g2@) =~= seq![proof.b@, vk.beta@, vk.gamma@, vk.delta@]);
    pairing_check(env, &g1, &g2)
}

} // verus!
