//! Properties of the registry that hold across operations.
use vstd::prelude::*;

use vstd::arithmetic::div_mod::lemma_fundamental_div_mod_converse;
use vstd::utf8::{encode_utf8, is_ascii_chars, is_ascii_chars_encode_utf8};

use crate::claims::{full_year, spec_age, spec_age_result, spec_derive, AttestedClaims, ClaimLayout};
use crate::error::{AdapterError, IdentityError};
use crate::rarimo::{birth_missing, derive_age_ok, padded_birth, spec_derive_age};
use crate::text::{is_white_space, spec_parse_unsigned, trim_end_ws, trim_start_ws, trim_ws};
use crate::contract::{
    attested_error, groth16_failure, policy_violation, record_visible, register_app_error,
    subject_verified, transition, update_app_error,
    with_approval, with_policy, with_record, without_app, RegistryView,
};
use crate::crypto::spec_sha256;
use crate::hashing::{claims_preimage, flatten, pub_signals_preimage, u32_be, u32_le, vk_preimage};
use crate::bigint::{be_value, lemma_be_bytes_fixed_of_value};
use crate::bn254::{
    coord, fp_modulus, g1_negated, groth16_points_valid, spec_groth16_valid, spec_pairing_check, spec_vk_x,
};
use crate::model::{AppPolicyView, Proof, RecordView, VerificationKey};
use crate::types::{Hash32, Scalar};

verus! {

/// Every record is filed under its own app and subject, and its nullifier is
/// burned for its app.
pub open spec fn records_consistent(s: RegistryView) -> bool {
    forall|k: (Seq<u8>, Seq<u8>)| #[trigger]
        s.records.contains_key(k) ==> {
            &&& s.records[k].app_id == k.0
            &&& s.records[k].subject == k.1
            &&& s.nullifiers.contains((k.0, s.records[k].nullifier@))
        }
}

/// Used nullifiers are permanently burned: no operation, revocation
/// included, releases one.
pub proof fn nullifiers_are_permanent(s: RegistryView, t: RegistryView)
    requires
        transition(s, t),
    ensures
        s.nullifiers.subset_of(t.nullifiers),
{
}

/// Used nullifiers stay burned over any run of operations.
pub proof fn nullifiers_are_permanent_over_runs(states: Seq<RegistryView>)
    requires
        states.len() >= 1,
        forall|i: int| 0 <= i < states.len() - 1 ==> transition(#[trigger] states[i], states[i + 1]),
    ensures
        states[0].nullifiers.subset_of(states.last().nullifiers),
    decreases states.len(),
{
    if states.len() > 1 {
        let prefix = states.drop_last();
        assert forall|i: int| 0 <= i < prefix.len() - 1 implies transition(
            #[trigger] prefix[i],
            prefix[i + 1],
        ) by {
            assert(prefix[i] == states[i]);
            assert(prefix[i + 1] == states[i + 1]);
        }
        nullifiers_are_permanent_over_runs(prefix);
        assert(transition(states[states.len() - 2], states[states.len() - 1]));
        nullifiers_are_permanent(states[states.len() - 2], states[states.len() - 1]);
    }
}

/// Verification records are never deleted: revoking an app keeps them, and a
/// later verification of the same subject replaces its record.
pub proof fn records_are_never_deleted(s: RegistryView, t: RegistryView)
    requires
        transition(s, t),
    ensures
        s.records.dom().subset_of(t.records.dom()),
{
}

/// A recorded verification burns a nullifier that was unused for its app.
pub proof fn recording_uses_a_fresh_nullifier(s: RegistryView, t: RegistryView, k: (Seq<u8>, Seq<u8>))
    requires
        transition(s, t),
        records_consistent(s),
        t.records.contains_key(k),
        !s.records.contains_key(k) || s.records[k] != t.records[k],
    ensures
        !s.nullifiers.contains((k.0, t.records[k].nullifier@)),
        t.nullifiers.contains((k.0, t.records[k].nullifier@)),
{
    let r = choose|r: RecordView|
        !s.nullifiers.contains((r.app_id, r.nullifier@)) && t == #[trigger] with_record(s, r);
    assert(k == (r.app_id, r.subject));
}

/// The records stay consistent with the nullifiers under every operation.
pub proof fn records_stay_consistent(s: RegistryView, t: RegistryView)
    requires
        transition(s, t),
        records_consistent(s),
    ensures
        records_consistent(t),
{
    if exists|r: RecordView|
        !s.nullifiers.contains((r.app_id, r.nullifier@)) && t == #[trigger] with_record(s, r) {
        let r = choose|r: RecordView|
            !s.nullifiers.contains((r.app_id, r.nullifier@)) && t == #[trigger] with_record(s, r);
        assert forall|k: (Seq<u8>, Seq<u8>)| #[trigger] t.records.contains_key(k) implies {
            &&& t.records[k].app_id == k.0
            &&& t.records[k].subject == k.1
            &&& t.nullifiers.contains((k.0, t.records[k].nullifier@))
        } by {
            if k != (r.app_id, r.subject) {
                assert(s.records.contains_key(k));
            }
        }
    }
}

/// Nullifiers are app-scoped: recording a verification burns its nullifier
/// for its own app and for no other.
pub proof fn nullifiers_are_app_scoped(s: RegistryView, r: RecordView, app: Seq<u8>, nullifier: Seq<u8>)
    requires
        app != r.app_id,
    ensures
        with_record(s, r).nullifiers.contains((app, nullifier)) == s.nullifiers.contains((app, nullifier)),
        with_record(s, r).nullifiers.contains((r.app_id, r.nullifier@)),
{
}

/// Sanctions screening fails closed: a policy with it enabled can be neither
/// registered nor installed by an update.
pub proof fn sanctions_fail_closed(s: RegistryView, app: Seq<u8>, p: AppPolicyView)
    requires
        p.sanctions_enabled,
    ensures
        register_app_error(s, app, p) is Some,
        update_app_error(s, app, p) is Some,
{
}

/// The admin, once set, never changes.
pub proof fn admin_is_fixed(s: RegistryView, t: RegistryView)
    requires
        transition(s, t),
        s.admin is Some,
    ensures
        t.admin == s.admin,
{
}

/// A registered application keeps its owner for as long as it stays registered.
pub proof fn owner_is_fixed(s: RegistryView, t: RegistryView, app: Seq<u8>)
    requires
        transition(s, t),
        s.policies.contains_key(app),
        t.policies.contains_key(app),
    ensures
        t.policies[app].owner == s.policies[app].owner,
{
    if exists|a: Seq<u8>, p: AppPolicyView, vk: Option<Hash32>|
        (!s.policies.contains_key(a) || s.policies[a].owner == p.owner) && t
            == #[trigger] with_policy(s, a, p, vk) {
        let (a, p, vk) = choose|a: Seq<u8>, p: AppPolicyView, vk: Option<Hash32>|
            (!s.policies.contains_key(a) || s.policies[a].owner == p.owner) && t
                == #[trigger] with_policy(s, a, p, vk);
        if a != app {
            assert(t.policies[app] == s.policies[app]);
        }
    }
}

/// A stored policy is what a later read of the app returns, and so is the
/// verification-key hash stored with it.
pub proof fn policy_read_after_write(s: RegistryView, app: Seq<u8>, p: AppPolicyView, vk: Option<Hash32>)
    ensures
        with_policy(s, app, p, vk).policies.contains_key(app),
        with_policy(s, app, p, vk).policies[app] == p,
        vk matches Some(h) ==> with_policy(s, app, p, vk).vk_hashes.contains_key(app)
            && with_policy(s, app, p, vk).vk_hashes[app] == h,
        vk is None ==> with_policy(s, app, p, vk).vk_hashes == s.vk_hashes,
{
}

/// An approval decision is what a later read of the app's approval returns.
pub proof fn approval_read_after_write(s: RegistryView, app: Seq<u8>, approved: bool)
    ensures
        with_approval(s, app, approved).approved.contains(app) == approved,
{
}

/// Revoking an app removes its policy, key hash and approval, and keeps its
/// records and nullifiers.
pub proof fn revocation_clears_the_app(s: RegistryView, app: Seq<u8>)
    ensures
        !without_app(s, app).policies.contains_key(app),
        !without_app(s, app).vk_hashes.contains_key(app),
        !without_app(s, app).approved.contains(app),
        without_app(s, app).records == s.records,
        without_app(s, app).nullifiers == s.nullifiers,
{
}

/// A record that has expired stays expired at every later ledger.
pub proof fn expiry_is_final(s: RegistryView, app: Seq<u8>, subject: Seq<u8>, earlier: u32, later: u32)
    requires
        earlier <= later,
        !record_visible(s, app, subject, earlier),
    ensures
        !record_visible(s, app, subject, later),
{
}

/// A just-recorded verification is visible at the ledger it was made in,
/// while its app is registered.
pub proof fn new_record_is_visible(s: RegistryView, r: RecordView)
    requires
        s.policies.contains_key(r.app_id),
    ensures
        record_visible(with_record(s, r), r.app_id, r.subject, r.verified_ledger),
{
}

/// The attested path records only claims that satisfy the app's policy, from
/// the configured prover, with an unused nullifier and no live record.
pub proof fn attested_records_satisfy_policy(
    s: RegistryView,
    prover: Seq<u8>,
    app: Seq<u8>,
    subject: Seq<u8>,
    nullifier: Hash32,
    public_inputs_hash: Hash32,
    attestation_hash: Hash32,
    claims: AttestedClaims,
    ledger: u32,
)
    requires
        attested_error(
            s,
            prover,
            app,
            subject,
            nullifier,
            public_inputs_hash,
            attestation_hash,
            claims,
            ledger,
        ) is None,
    ensures
        s.prover == Some(prover),
        s.policies.contains_key(app),
        !policy_violation(s.policies[app], claims),
        !s.policies[app].sanctions_enabled,
        !s.nullifiers.contains((app, nullifier@)),
        !subject_verified(s, app, subject, s.policies[app].expiration_window, ledger),
{
}

/// The Groth16 path records only claims that the public signals carry under
/// the app's layout and that satisfy its policy, for a key whose hash was
/// registered, and only when the proof passes the pairing check.
pub proof fn groth16_records_satisfy_policy(
    s: RegistryView,
    app: Seq<u8>,
    subject: Seq<u8>,
    nullifier: Hash32,
    public_inputs_hash: Hash32,
    vk: VerificationKey,
    zk_proof: Proof,
    signals: Seq<Scalar>,
    current_date_ymd: u32,
    claims: AttestedClaims,
    ledger: u32,
)
    requires
        groth16_failure(
            s,
            app,
            subject,
            nullifier,
            public_inputs_hash,
            vk,
            zk_proof,
            signals,
            current_date_ymd,
            claims,
            ledger,
        ) is None,
    ensures
        s.policies.contains_key(app),
        spec_derive(signals, s.policies[app].claim_layout, current_date_ymd) == Ok::<
            AttestedClaims,
            crate::error::IdentityError,
        >(claims),
        !policy_violation(s.policies[app], claims),
        !s.policies[app].sanctions_enabled,
        s.vk_hashes.contains_key(app),
        s.vk_hashes[app]@ == spec_sha256(vk_preimage(vk)),
        !s.nullifiers.contains((app, nullifier@)),
        !subject_verified(s, app, subject, s.policies[app].expiration_window, ledger),
        groth16_points_valid(vk, zk_proof),
        spec_groth16_valid(vk, zk_proof, signals),
{
}

/// Rarimo layouts always attest humanity.
pub proof fn rarimo_claims_are_human(signals: Seq<Scalar>, current_date_ymd: u32)
    ensures
        spec_derive(signals, ClaimLayout::RarimoQuery, current_date_ymd) matches Ok(c) ==> c.is_human,
{
}

/// The public-inputs digest binds the current date: different dates give
/// different hashed byte strings for the same signals.
pub proof fn pub_signals_hash_binds_date(signals: Seq<Scalar>, d1: u32, d2: u32)
    requires
        d1 != d2,
    ensures
        pub_signals_preimage(signals, d1) != pub_signals_preimage(signals, d2),
{
    let f = flatten(signals);
    let a = pub_signals_preimage(signals, d1);
    let b = pub_signals_preimage(signals, d2);
    if d1 != 0 && d2 != 0 {
        let n = f.len() as int;
        if a == b {
            assert(a[n] == b[n]);
            assert(a[n + 1] == b[n + 1]);
            assert(a[n + 2] == b[n + 2]);
            assert(a[n + 3] == b[n + 3]);
            u32_be_injective(d1, d2);
        }
    } else {
        assert(a.len() != b.len());
    }
}

proof fn u32_be_injective(x: u32, y: u32)
    requires
        u32_be(x) == u32_be(y),
    ensures
        x == y,
{
    assert(u32_be(x)[0] == u32_be(y)[0]);
    assert(u32_be(x)[1] == u32_be(y)[1]);
    assert(u32_be(x)[2] == u32_be(y)[2]);
    assert(u32_be(x)[3] == u32_be(y)[3]);
    assert((x / 16777216) as u8 == (y / 16777216) as u8 && ((x / 65536) % 256) as u8 == ((y
        / 65536) % 256) as u8 && ((x / 256) % 256) as u8 == ((y / 256) % 256) as u8 && (x
        % 256) as u8 == (y % 256) as u8 ==> x == y) by (nonlinear_arith);
}

/// A date written as six ASCII decimal digits, `YYMMDD`.
pub open spec fn is_yymmdd_text(s: Seq<char>) -> bool {
    s.len() == 6 && forall|i: int| 0 <= i < 6 ==> '0' <= #[trigger] s[i] <= '9'
}

/// The number the two digits at `i` spell.
pub open spec fn two_digits(s: Seq<char>, i: int) -> int {
    (s[i] as int - 48) * 10 + (s[i + 1] as int - 48)
}

/// The `YYMMDD` number a six-digit text spells.
pub open spec fn yymmdd_number(s: Seq<char>) -> int {
    two_digits(s, 0) * 10000 + two_digits(s, 2) * 100 + two_digits(s, 4)
}

proof fn lemma_two_digit_field(w: Seq<u8>, max: nat)
    requires
        w.len() == 2,
        48 <= w[0] <= 57,
        48 <= w[1] <= 57,
        max >= 99,
    ensures
        spec_parse_unsigned(w, max) == Some(((w[0] - 48) * 10 + (w[1] - 48)) as nat),
{
    assert(w.drop_last().drop_last() =~= Seq::<u8>::empty());
    reveal_with_fuel(crate::text::digits_value, 3);
}

proof fn lemma_yymmdd_parts(y: int, m: int, d: int)
    requires
        0 <= y <= 99,
        0 <= m <= 99,
        0 <= d <= 99,
    ensures
        (y * 10000 + m * 100 + d) / 10000 == y,
        ((y * 10000 + m * 100 + d) / 100) % 100 == m,
        (y * 10000 + m * 100 + d) % 100 == d,
{
    let n = y * 10000 + m * 100 + d;
    lemma_fundamental_div_mod_converse(n, 10000, y, m * 100 + d);
    lemma_fundamental_div_mod_converse(n, 100, y * 100 + m, d);
    lemma_fundamental_div_mod_converse(y * 100 + m, 100, y, m);
}

/// The bytes of a six-digit text are its characters, and its two-digit
/// fields parse to the numbers they spell.
proof fn lemma_yymmdd_bytes(s: Seq<char>)
    requires
        is_yymmdd_text(s),
    ensures
        encode_utf8(s).len() == 6,
        forall|i: int| 0 <= i < 6 ==> 48 <= #[trigger] encode_utf8(s)[i] <= 57,
        forall|i: int, max: nat|
            (i == 0 || i == 2 || i == 4) && max >= 99 ==> #[trigger] spec_parse_unsigned(
                encode_utf8(s).subrange(i, i + 2),
                max,
            ) == Some(two_digits(s, i) as nat),
{
    assert(is_ascii_chars(s)) by {
        assert forall|i: int| 0 <= i < s.len() implies '\0' <= #[trigger] s[i] <= '\u{7f}' by {
            assert('0' <= s[i] <= '9');
        }
    }
    is_ascii_chars_encode_utf8(s);
    let b = encode_utf8(s);
    assert forall|i: int| 0 <= i < 6 implies 48 <= #[trigger] b[i] <= 57 && b[i] as int == s[i] as int by {
        assert(s[i] as u8 == b[i]);
        assert('0' <= s[i] <= '9');
    }
    assert forall|i: int, max: nat|
        (i == 0 || i == 2 || i == 4) && max >= 99 implies #[trigger] spec_parse_unsigned(
            b.subrange(i, i + 2),
            max,
        ) == Some(two_digits(s, i) as nat) by {
        let w = b.subrange(i, i + 2);
        assert(w[0] == b[i] && w[1] == b[i + 1]);
        assert(b[i] as int == s[i] as int);
        assert(b[i + 1] as int == s[i + 1] as int);
        lemma_two_digit_field(w, max);
    }
}

/// The adapter and the registry agree on age: for a birth date and a current
/// date written as six decimal digits `YYMMDD`, neither all zeros and the
/// birth year not after the current year, the age the adapter derives from
/// the text is the age the registry computes from the same numbers.
pub proof fn adapter_and_registry_agree_on_age(birth: Seq<char>, current: Seq<char>)
    requires
        is_yymmdd_text(birth),
        is_yymmdd_text(current),
        yymmdd_number(birth) != 0,
        yymmdd_number(current) != 0,
        full_year(two_digits(birth, 0)) <= full_year(two_digits(current, 0)),
    ensures
        derive_age_ok(birth, encode_utf8(current)),
        spec_derive_age(birth, encode_utf8(current)) matches Ok(age) && spec_age_result(
            yymmdd_number(birth) as u32,
            yymmdd_number(current) as u32,
        ) == Ok::<u32, IdentityError>(age),
{
    lemma_yymmdd_bytes(birth);
    lemma_yymmdd_bytes(current);
    let b = encode_utf8(birth);
    let c = encode_utf8(current);
    assert(!is_white_space(birth[0]) && !is_white_space(birth[5])) by {
        assert('0' <= birth[0] <= '9');
        assert('0' <= birth[5] <= '9');
    }
    assert(trim_start_ws(birth) == birth);
    assert(trim_end_ws(birth) == birth);
    assert(trim_ws(birth) == birth);
    assert(!birth_missing(birth)) by {
        assert(b.len() != seq![48u8].len());
    }
    assert(padded_birth(birth) == b);
    let (by, bm, bd) = (two_digits(birth, 0), two_digits(birth, 2), two_digits(birth, 4));
    let (cy, cm, cd) = (two_digits(current, 0), two_digits(current, 2), two_digits(current, 4));
    assert(spec_parse_unsigned(b.subrange(0, 2), 65535) == Some(by as nat));
    assert(spec_parse_unsigned(b.subrange(2, 4), 255) == Some(bm as nat));
    assert(spec_parse_unsigned(b.subrange(4, 6), 255) == Some(bd as nat));
    assert(spec_parse_unsigned(c.subrange(0, 2), 65535) == Some(cy as nat));
    assert(spec_parse_unsigned(c.subrange(2, 4), 255) == Some(cm as nat));
    assert(spec_parse_unsigned(c.subrange(4, 6), 255) == Some(cd as nat));
    assert(0 <= by <= 99 && 0 <= bm <= 99 && 0 <= bd <= 99) by {
        assert('0' <= birth[0] <= '9' && '0' <= birth[1] <= '9');
        assert('0' <= birth[2] <= '9' && '0' <= birth[3] <= '9');
        assert('0' <= birth[4] <= '9' && '0' <= birth[5] <= '9');
    }
    assert(0 <= cy <= 99 && 0 <= cm <= 99 && 0 <= cd <= 99) by {
        assert('0' <= current[0] <= '9' && '0' <= current[1] <= '9');
        assert('0' <= current[2] <= '9' && '0' <= current[3] <= '9');
        assert('0' <= current[4] <= '9' && '0' <= current[5] <= '9');
    }
    lemma_yymmdd_parts(by, bm, bd);
    lemma_yymmdd_parts(cy, cm, cd);
    reveal(spec_age);
}

/// The Groth16 check is the Groth16 equation
/// `e(-A, B) · e(alpha, beta) · e(vk_x, gamma) · e(C, delta) = 1`: it pairs
/// the point `q` with A's `x` and the field negation of A's `y` (the point
/// with `A + q` at infinity), not A itself, then alpha, `vk_x` and C, against
/// B, beta, gamma and delta.
pub proof fn groth16_check_pairs_the_negated_proof_point(
    vk: VerificationKey,
    zk_proof: Proof,
    signals: Seq<Scalar>,
    q: Seq<u8>,
)
    requires
        q.len() == 64,
        coord(zk_proof.a@, 1) < fp_modulus(),
        coord(q, 1) < fp_modulus(),
        coord(q, 0) == coord(zk_proof.a@, 0),
        (coord(q, 1) + coord(zk_proof.a@, 1)) % fp_modulus() == 0,
    ensures
        spec_groth16_valid(vk, zk_proof, signals) == spec_pairing_check(
            seq![q, vk.alpha@, spec_vk_x(vk.ic@, signals, signals.len()), zk_proof.c@],
            seq![zk_proof.b@, vk.beta@, vk.gamma@, vk.delta@],
        ),
{
    let a = zk_proof.a@;
    let pm = fp_modulus();
    let (y, qy) = (coord(a, 1), coord(q, 1));
    let n = g1_negated(a);
    // x halves: equal values of equal length are equal bytes.
    lemma_be_bytes_fixed_of_value(a.subrange(0, 32));
    lemma_be_bytes_fixed_of_value(q.subrange(0, 32));
    assert(q.subrange(0, 32) == a.subrange(0, 32));
    // y halves: the only canonical y' with y' + y divisible by p is -y.
    assert(qy == crate::bn254::fp_neg(y)) by {
        if y == 0 {
            assert(qy % pm == 0);
            if qy > 0 {
                assert(qy % pm == qy) by {
                    vstd::arithmetic::div_mod::lemma_small_mod(qy, pm);
                }
            }
        } else {
            let t = qy + y;
            assert(0 < t < 2 * pm);
            if t != pm {
                if t < pm {
                    vstd::arithmetic::div_mod::lemma_small_mod(t, pm);
                } else {
                    vstd::arithmetic::div_mod::lemma_fundamental_div_mod_converse(
                        t as int,
                        pm as int,
                        1,
                        t - pm,
                    );
                }
            }
        }
    }
    lemma_be_bytes_fixed_of_value(q.subrange(32, 64));
    assert(q =~= q.subrange(0, 32) + q.subrange(32, 64));
    assert(q =~= n);
}

/// A verification the attested path records has a country at no position
/// of the policy's excluded list, an age of at least the policy's minimum,
/// and humanity whenever the policy requires it.
pub proof fn attested_claims_meet_every_policy_rule(
    s: RegistryView,
    prover: Seq<u8>,
    app: Seq<u8>,
    subject: Seq<u8>,
    nullifier: Hash32,
    public_inputs_hash: Hash32,
    attestation_hash: Hash32,
    claims: AttestedClaims,
    ledger: u32,
)
    requires
        attested_error(
            s,
            prover,
            app,
            subject,
            nullifier,
            public_inputs_hash,
            attestation_hash,
            claims,
            ledger,
        ) is None,
    ensures
        forall|i: int|
            0 <= i < s.policies[app].excluded_countries.len()
                ==> #[trigger] s.policies[app].excluded_countries[i] != claims.country_code,
        claims.age >= s.policies[app].min_age,
        s.policies[app].require_humanity ==> claims.is_human,
{
    assert forall|i: int| 0 <= i < s.policies[app].excluded_countries.len() implies #[trigger]
        s.policies[app].excluded_countries[i] != claims.country_code by {
        if s.policies[app].excluded_countries[i] == claims.country_code {
            assert(s.policies[app].excluded_countries.contains(claims.country_code));
        }
    }
}

/// A subject from a country at any position of the app's excluded list is
/// never recorded, on either path.
pub proof fn excluded_countries_are_refused(
    s: RegistryView,
    prover: Seq<u8>,
    app: Seq<u8>,
    subject: Seq<u8>,
    nullifier: Hash32,
    public_inputs_hash: Hash32,
    attestation_hash: Hash32,
    vk: VerificationKey,
    zk_proof: Proof,
    signals: Seq<Scalar>,
    current_date_ymd: u32,
    claims: AttestedClaims,
    ledger: u32,
    i: int,
)
    requires
        s.policies.contains_key(app),
        0 <= i < s.policies[app].excluded_countries.len(),
        s.policies[app].excluded_countries[i] == claims.country_code,
    ensures
        attested_error(
            s,
            prover,
            app,
            subject,
            nullifier,
            public_inputs_hash,
            attestation_hash,
            claims,
            ledger,
        ) is Some,
        groth16_failure(
            s,
            app,
            subject,
            nullifier,
            public_inputs_hash,
            vk,
            zk_proof,
            signals,
            current_date_ymd,
            claims,
            ledger,
        ) is Some,
{
    assert(s.policies[app].excluded_countries.contains(claims.country_code));
}

/// A record is visible exactly while its app is registered and either the
/// app's window is zero (records never expire) or at most `window` ledgers
/// have passed since it was made.
pub proof fn visibility_follows_the_expiration_window(
    s: RegistryView,
    app: Seq<u8>,
    subject: Seq<u8>,
    ledger: u32,
)
    ensures
        record_visible(s, app, subject, ledger) <==> {
            &&& s.policies.contains_key(app)
            &&& s.records.contains_key((app, subject))
            &&& (s.policies[app].expiration_window == 0 || ledger <= s.records[(
                app,
                subject,
            )].verified_ledger + s.policies[app].expiration_window)
        },
{
}

/// Under a window of zero a recorded subject stays verified at every ledger,
/// and cannot be verified again on either path.
pub proof fn zero_window_records_never_expire(
    s: RegistryView,
    prover: Seq<u8>,
    app: Seq<u8>,
    subject: Seq<u8>,
    nullifier: Hash32,
    public_inputs_hash: Hash32,
    attestation_hash: Hash32,
    vk: VerificationKey,
    zk_proof: Proof,
    signals: Seq<Scalar>,
    current_date_ymd: u32,
    claims: AttestedClaims,
    ledger: u32,
)
    requires
        s.policies.contains_key(app),
        s.policies[app].expiration_window == 0,
        s.records.contains_key((app, subject)),
    ensures
        record_visible(s, app, subject, ledger),
        attested_error(
            s,
            prover,
            app,
            subject,
            nullifier,
            public_inputs_hash,
            attestation_hash,
            claims,
            ledger,
        ) is Some,
        groth16_failure(
            s,
            app,
            subject,
            nullifier,
            public_inputs_hash,
            vk,
            zk_proof,
            signals,
            current_date_ymd,
            claims,
            ledger,
        ) is Some,
{
}

/// Age counts completed years: for dates `YYMMDD` with components up to 99
/// (neither all zero) and the birth year not after the current year, the age
/// is the difference of the full years once the birthday has come round in
/// the current year (a later month, or the same month and a day not
/// earlier), and one less before that.
pub proof fn age_counts_completed_years(by: int, bm: int, bd: int, cy: int, cm: int, cd: int)
    requires
        0 <= by <= 99,
        0 <= bm <= 99,
        0 <= bd <= 99,
        0 <= cy <= 99,
        0 <= cm <= 99,
        0 <= cd <= 99,
        by * 10000 + bm * 100 + bd != 0,
        cy * 10000 + cm * 100 + cd != 0,
        full_year(by) <= full_year(cy),
    ensures
        (cm > bm || (cm == bm && cd >= bd)) ==> spec_age_result(
            (by * 10000 + bm * 100 + bd) as u32,
            (cy * 10000 + cm * 100 + cd) as u32,
        ) == Ok::<u32, IdentityError>((full_year(cy) - full_year(by)) as u32),
        (cm < bm || (cm == bm && cd < bd)) && full_year(by) < full_year(cy) ==> spec_age_result(
            (by * 10000 + bm * 100 + bd) as u32,
            (cy * 10000 + cm * 100 + cd) as u32,
        ) == Ok::<u32, IdentityError>((full_year(cy) - full_year(by) - 1) as u32),
{
    lemma_yymmdd_parts(by, bm, bd);
    lemma_yymmdd_parts(cy, cm, cd);
    reveal(spec_age);
}

/// The adapter's age counts completed years in the same way: for six-digit
/// texts, the full-year difference once the birthday has come round, and
/// one less before that.
pub proof fn adapter_age_counts_completed_years(birth: Seq<char>, current: Seq<char>)
    requires
        is_yymmdd_text(birth),
        is_yymmdd_text(current),
        yymmdd_number(birth) != 0,
        yymmdd_number(current) != 0,
        full_year(two_digits(birth, 0)) <= full_year(two_digits(current, 0)),
    ensures
        ({
            let (by, bm, bd) = (two_digits(birth, 0), two_digits(birth, 2), two_digits(birth, 4));
            let (cy, cm, cd) = (two_digits(current, 0), two_digits(current, 2), two_digits(current, 4));
            &&& (cm > bm || (cm == bm && cd >= bd)) ==> spec_derive_age(birth, encode_utf8(current))
                == Ok::<u32, AdapterError>((full_year(cy) - full_year(by)) as u32)
            &&& (cm < bm || (cm == bm && cd < bd)) && full_year(by) < full_year(cy)
                ==> spec_derive_age(birth, encode_utf8(current)) == Ok::<u32, AdapterError>(
                (full_year(cy) - full_year(by) - 1) as u32)
        }),
{
    adapter_and_registry_agree_on_age(birth, current);
    let (by, bm, bd) = (two_digits(birth, 0), two_digits(birth, 2), two_digits(birth, 4));
    let (cy, cm, cd) = (two_digits(current, 0), two_digits(current, 2), two_digits(current, 4));
    assert(0 <= by <= 99 && 0 <= bm <= 99 && 0 <= bd <= 99) by {
        assert('0' <= birth[0] <= '9' && '0' <= birth[1] <= '9');
        assert('0' <= birth[2] <= '9' && '0' <= birth[3] <= '9');
        assert('0' <= birth[4] <= '9' && '0' <= birth[5] <= '9');
    }
    assert(0 <= cy <= 99 && 0 <= cm <= 99 && 0 <= cd <= 99) by {
        assert('0' <= current[0] <= '9' && '0' <= current[1] <= '9');
        assert('0' <= current[2] <= '9' && '0' <= current[3] <= '9');
        assert('0' <= current[4] <= '9' && '0' <= current[5] <= '9');
    }
    age_counts_completed_years(by, bm, bd, cy, cm, cd);
}

proof fn u32_le_injective(x: u32, y: u32)
    requires
        u32_le(x) == u32_le(y),
    ensures
        x == y,
{
    assert(u32_le(x)[0] == u32_le(y)[0]);
    assert(u32_le(x)[1] == u32_le(y)[1]);
    assert(u32_le(x)[2] == u32_le(y)[2]);
    assert(u32_le(x)[3] == u32_le(y)[3]);
    assert((x % 256) as u8 == (y % 256) as u8 && ((x / 256) % 256) as u8 == ((y / 256) % 256) as u8
        && ((x / 65536) % 256) as u8 == ((y / 65536) % 256) as u8 && (x / 16777216) as u8 == (y
        / 16777216) as u8 ==> x == y) by (nonlinear_arith);
}

/// The hashed encoding of attested claims determines them: claims that
/// differ in age, country or humanity have different encodings, so a claims
/// hash binds all three.
pub proof fn claims_encoding_binds_every_claim(c1: AttestedClaims, c2: AttestedClaims)
    requires
        claims_preimage(c1) == claims_preimage(c2),
    ensures
        c1 == c2,
{
    let (a, b) = (claims_preimage(c1), claims_preimage(c2));
    assert(a.subrange(0, 4) =~= u32_le(c1.age) && b.subrange(0, 4) =~= u32_le(c2.age));
    assert(a.subrange(4, 8) =~= u32_le(c1.country_code) && b.subrange(4, 8) =~= u32_le(c2.country_code));
    let (h1, h2) = (if c1.is_human { 1u32 } else { 0u32 }, if c2.is_human { 1u32 } else { 0u32 });
    assert(a.subrange(8, 12) =~= u32_le(h1) && b.subrange(8, 12) =~= u32_le(h2));
    u32_le_injective(c1.age, c2.age);
    u32_le_injective(c1.country_code, c2.country_code);
    u32_le_injective(h1, h2);
}

} // verus!
