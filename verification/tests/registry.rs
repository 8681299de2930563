use soroban_sdk::testutils::Address as _;
use soroban_sdk::testutils::EnvTestConfig;
use soroban_sdk::xdr::ToXdr;
use soroban_sdk::Address as SdkAddress;
use soroban_sdk::Env;
use soroban_sdk::Symbol as SdkSymbol;

use ark_ec::AffineRepr;
use ark_ff::{BigInteger, PrimeField};
use stellar_identity_core::bn254::{g1_point_valid, g2_point_valid};
use stellar_identity_core::claims::{AttestedClaims, ClaimLayout};
use stellar_identity_core::contract::{Outcome, RegistryEntries, StellarIdentityCore};
use stellar_identity_core::error::IdentityError;
use stellar_identity_core::store::StoreParts;
use stellar_identity_core::model::{
    AppPolicy, AppRegistered, AppRevoked, AppUpdated, ContractEvent, Initialized, Proof,
    ProverUpdated, VerificationKey, VerificationRecorded, VerificationSource,
};
use stellar_identity_core::types::{Address, Symbol};

fn quiet_env() -> Env {
    Env::new_with_config(EnvTestConfig { capture_snapshot_at_drop: false })
}

fn generate(env: &Env) -> Address {
    let a = SdkAddress::generate(env);
    Address { xdr: a.to_xdr(env).iter().collect() }
}

fn symbol(env: &Env, s: &str) -> Symbol {
    Symbol { xdr: SdkSymbol::new(env, s).to_xdr(env).iter().collect() }
}

fn bytes32(v: u8) -> [u8; 32] {
    [v; 32]
}

fn fr(v: u32) -> [u8; 32] {
    let mut out = [0u8; 32];
    out[28..].copy_from_slice(&v.to_be_bytes());
    out
}

fn claims(age: u32, country_code: u32, is_human: bool) -> AttestedClaims {
    AttestedClaims { age, country_code, is_human }
}

fn policy(
    owner: &Address,
    min_age: u32,
    require_humanity: bool,
    sanctions_root: u8,
    excluded_countries: Vec<u32>,
    expiration_window: u32,
    sanctions_enabled: bool,
) -> AppPolicy {
    AppPolicy {
        owner: owner.clone(),
        min_age,
        require_humanity,
        sanctions_root: bytes32(sanctions_root),
        excluded_countries,
        expiration_window,
        sanctions_enabled,
        claim_layout: ClaimLayout::Standard,
    }
}

fn zero_vk(ic_count: usize) -> VerificationKey {
    VerificationKey {
        alpha: [0u8; 64],
        beta: [0u8; 128],
        gamma: [0u8; 128],
        delta: [0u8; 128],
        ic: vec![[0u8; 64]; ic_count],
    }
}

fn zero_proof() -> Proof {
    Proof { a: [0u8; 64], b: [0u8; 128], c: [0u8; 64] }
}

fn attested_hashes(
    env: &Env,
    prover: &Address,
    app_id: &Symbol,
    subject: &Address,
    nullifier: &[u8; 32],
    claim_values: &AttestedClaims,
) -> ([u8; 32], [u8; 32]) {
    let public_inputs_hash = StellarIdentityCore::hash_attested_claims(env, *claim_values);
    let attestation_hash = StellarIdentityCore::hash_attestation(
        env,
        prover,
        app_id,
        subject,
        nullifier,
        *claim_values,
    );
    (public_inputs_hash, attestation_hash)
}

fn initialized(admin: &Address, prover: &Address) -> StellarIdentityCore {
    let mut core = StellarIdentityCore::new();
    core.init(admin.clone(), prover.clone()).result.unwrap();
    core
}

#[allow(clippy::too_many_arguments)]
fn attest(
    core: &mut StellarIdentityCore,
    env: &Env,
    ledger: u32,
    prover: &Address,
    app_id: &Symbol,
    subject: &Address,
    nullifier: [u8; 32],
    claim_values: AttestedClaims,
) -> Outcome<stellar_identity_core::model::VerificationRecord> {
    let (pub_hash, att_hash) =
        attested_hashes(env, prover, app_id, subject, &nullifier, &claim_values);
    core.record_attested_result(
        env,
        ledger,
        prover.clone(),
        app_id.clone(),
        subject.clone(),
        nullifier,
        pub_hash,
        att_hash,
        claim_values,
    )
}

fn groth16_error(
    core: &mut StellarIdentityCore,
    env: &Env,
    app_id: &Symbol,
    subject: &Address,
    vk: VerificationKey,
    signals: Vec<[u8; 32]>,
    claim_values: AttestedClaims,
) -> Option<IdentityError> {
    let pub_inputs_hash = StellarIdentityCore::compute_pub_signals_hash(env, &signals, 0).unwrap();
    core.verify_and_record(
        env,
        0,
        app_id.clone(),
        subject.clone(),
        bytes32(0),
        pub_inputs_hash,
        vk,
        zero_proof(),
        signals,
        0,
        claim_values,
    )
    .result
    .err()
}

// ---------------------------------------------------------------------------
// Scenarios of the registry, each run by the tests below.

fn scenario_init_emits_initialization_event() {
    let env = quiet_env();
    let admin = generate(&env);
    let prover = generate(&env);
    let mut core = StellarIdentityCore::new();
    let o = core.init(admin.clone(), prover.clone());
    assert_eq!(o.result, Ok(()));
    assert_eq!(o.event, Some(ContractEvent::Initialized(Initialized { admin, prover })));
}

fn scenario_register_app_emits_event() {
    let env = quiet_env();
    let admin = generate(&env);
    let prover = generate(&env);
    let owner = generate(&env);
    let app_id = symbol(&env, "wave");
    let mut core = initialized(&admin, &prover);

    let p = policy(&owner, 18, true, 9, Vec::new(), 0, false);
    let o = core.register_app(app_id.clone(), p, None);
    o.result.unwrap();
    assert_eq!(o.event, Some(ContractEvent::AppRegistered(AppRegistered { app_id, owner })));
}

fn scenario_app_lifecycle_emits_events() {
    let env = quiet_env();
    let admin = generate(&env);
    let prover = generate(&env);
    let owner = generate(&env);
    let app_id = symbol(&env, "wave");
    let mut core = initialized(&admin, &prover);

    let o = core.register_app(app_id.clone(), policy(&owner, 18, false, 1, Vec::new(), 0, false), None);
    o.result.unwrap();
    assert_eq!(
        o.event,
        Some(ContractEvent::AppRegistered(AppRegistered { app_id: app_id.clone(), owner: owner.clone() }))
    );

    let o = core.update_app_policy(app_id.clone(), policy(&owner, 21, false, 1, Vec::new(), 0, false), None);
    o.result.unwrap();
    assert_eq!(
        o.event,
        Some(ContractEvent::AppUpdated(AppUpdated { app_id: app_id.clone(), owner: owner.clone() }))
    );

    let o = core.revoke_app(app_id.clone());
    o.result.unwrap();
    assert_eq!(o.event, Some(ContractEvent::AppRevoked(AppRevoked { app_id, owner })));
}

fn scenario_record_attested_result_emits_event_and_blocks_replay() {
    let env = quiet_env();
    let admin = generate(&env);
    let prover = generate(&env);
    let owner = generate(&env);
    let subject = generate(&env);
    let app_id = symbol(&env, "drips");
    let nullifier = bytes32(7);
    let mut core = initialized(&admin, &prover);
    core.register_app(app_id.clone(), policy(&owner, 21, true, 1, vec![840], 0, false), None)
        .result
        .unwrap();

    let claim_values = claims(22, 566, true);
    let (public_inputs_hash, attestation_hash) =
        attested_hashes(&env, &prover, &app_id, &subject, &nullifier, &claim_values);

    let o = core.record_attested_result(
        &env,
        0,
        prover.clone(),
        app_id.clone(),
        subject.clone(),
        nullifier,
        public_inputs_hash,
        attestation_hash,
        claim_values,
    );
    let record = o.result.unwrap();
    assert_eq!(record.source, VerificationSource::AttestedProver(attestation_hash));
    assert_eq!(
        o.event,
        Some(ContractEvent::VerificationRecorded(VerificationRecorded {
            app_id: app_id.clone(),
            subject: subject.clone(),
            nullifier,
            source: VerificationSource::AttestedProver(attestation_hash),
        }))
    );

    let replay = core.record_attested_result(
        &env,
        0,
        prover.clone(),
        app_id.clone(),
        subject.clone(),
        nullifier,
        public_inputs_hash,
        attestation_hash,
        claim_values,
    );
    assert_eq!(replay.result.err(), Some(IdentityError::NullifierAlreadyUsed));
}

fn scenario_set_prover_emits_update_event() {
    let env = quiet_env();
    let admin = generate(&env);
    let prover = generate(&env);
    let next_prover = generate(&env);
    let mut core = initialized(&admin, &prover);
    let o = core.set_prover(next_prover.clone());
    o.result.unwrap();
    assert_eq!(
        o.event,
        Some(ContractEvent::ProverUpdated(ProverUpdated { previous: prover, current: next_prover }))
    );
}

fn scenario_rejects_malformed_vk_before_pairing() {
    let env = quiet_env();
    let admin = generate(&env);
    let prover = generate(&env);
    let owner = generate(&env);
    let subject = generate(&env);
    let app_id = symbol(&env, "mvp");
    let mut core = initialized(&admin, &prover);
    core.register_app(app_id.clone(), policy(&owner, 16, false, 2, Vec::new(), 0, false), None)
        .result
        .unwrap();

    let result = groth16_error(
        &mut core,
        &env,
        &app_id,
        &subject,
        zero_vk(1),
        vec![fr(33), fr(840), fr(1)],
        claims(33, 840, true),
    );
    assert_eq!(result, Some(IdentityError::MalformedVerifyingKey));
}

fn scenario_not_initialized_blocks_stateful_operations() {
    let env = quiet_env();
    let _admin = generate(&env);
    let prover = generate(&env);
    let owner = generate(&env);
    let subject = generate(&env);
    let app_id = symbol(&env, "notinit");
    let mut core = StellarIdentityCore::new();

    let uninitialized =
        core.register_app(app_id.clone(), policy(&owner, 0, false, 1, Vec::new(), 0, false), None);
    assert_eq!(uninitialized.result.err(), Some(IdentityError::NotInitialized));

    let verify_uninitialized = core.verify_and_record(
        &env,
        0,
        app_id.clone(),
        subject.clone(),
        bytes32(0),
        bytes32(1),
        zero_vk(1),
        zero_proof(),
        vec![fr(25)],
        0,
        claims(25, 840, true),
    );
    assert_eq!(verify_uninitialized.result.err(), Some(IdentityError::NotInitialized));

    let attested_uninitialized = core.record_attested_result(
        &env,
        0,
        prover.clone(),
        app_id.clone(),
        subject.clone(),
        bytes32(1),
        bytes32(2),
        bytes32(3),
        claims(25, 840, true),
    );
    assert_eq!(attested_uninitialized.result.err(), Some(IdentityError::NotInitialized));

    let revoke_uninitialized = core.revoke_app(app_id.clone());
    assert_eq!(revoke_uninitialized.result.err(), Some(IdentityError::NotInitialized));

    let update_uninitialized =
        core.update_app_policy(app_id.clone(), policy(&owner, 0, false, 1, Vec::new(), 0, false), None);
    assert_eq!(update_uninitialized.result.err(), Some(IdentityError::NotInitialized));
}

fn scenario_unauthorized_prover_blocks_attested_path() {
    let env = quiet_env();
    let admin = generate(&env);
    let configured_prover = generate(&env);
    let wrong_prover = generate(&env);
    let owner = generate(&env);
    let subject = generate(&env);
    let app_id = symbol(&env, "wrongprover");
    let mut core = initialized(&admin, &configured_prover);
    core.register_app(app_id.clone(), policy(&owner, 0, false, 1, Vec::new(), 0, false), None)
        .result
        .unwrap();

    let wrong_prover_result = core.record_attested_result(
        &env,
        0,
        wrong_prover.clone(),
        app_id.clone(),
        subject.clone(),
        bytes32(1),
        bytes32(2),
        bytes32(3),
        claims(25, 840, true),
    );
    assert_eq!(wrong_prover_result.result.err(), Some(IdentityError::Unauthorized));
}

fn scenario_app_owner_mismatch_blocks_policy_update() {
    let env = quiet_env();
    let admin = generate(&env);
    let prover = generate(&env);
    let original_owner = generate(&env);
    let wrong_owner = generate(&env);
    let app_id = symbol(&env, "ownerchange");
    let mut core = initialized(&admin, &prover);
    core.register_app(app_id.clone(), policy(&original_owner, 0, false, 1, Vec::new(), 0, false), None)
        .result
        .unwrap();

    let owner_mismatch =
        core.update_app_policy(app_id.clone(), policy(&wrong_owner, 0, false, 1, Vec::new(), 0, false), None);
    assert_eq!(owner_mismatch.result.err(), Some(IdentityError::AppOwnerMismatch));
}

fn scenario_blocks_policy_violations_and_duplicate_subjects() {
    let env = quiet_env();
    let admin = generate(&env);
    let prover = generate(&env);
    let owner = generate(&env);
    let subject = generate(&env);
    let app_id = symbol(&env, "gated");
    let mut core = initialized(&admin, &prover);
    core.register_app(app_id.clone(), policy(&owner, 21, true, 1, vec![566], 0, false), None)
        .result
        .unwrap();

    let too_young = attest(&mut core, &env, 0, &prover, &app_id, &subject, bytes32(8), claims(20, 840, true));
    assert_eq!(too_young.result.err(), Some(IdentityError::PolicyViolation));

    let blocked_country =
        attest(&mut core, &env, 0, &prover, &app_id, &subject, bytes32(10), claims(30, 566, true));
    assert_eq!(blocked_country.result.err(), Some(IdentityError::PolicyViolation));

    attest(&mut core, &env, 0, &prover, &app_id, &subject, bytes32(11), claims(30, 840, true))
        .result
        .unwrap();

    let duplicate_subject =
        attest(&mut core, &env, 0, &prover, &app_id, &subject, bytes32(12), claims(30, 840, true));
    assert_eq!(duplicate_subject.result.err(), Some(IdentityError::SubjectAlreadyVerified));
}

fn scenario_verify_and_record_requires_vk_hash() {
    let env = quiet_env();
    let admin = generate(&env);
    let prover = generate(&env);
    let owner = generate(&env);
    let subject = generate(&env);
    let app_id = symbol(&env, "vkreq");
    let mut core = initialized(&admin, &prover);
    core.register_app(app_id.clone(), policy(&owner, 0, false, 1, Vec::new(), 0, false), None)
        .result
        .unwrap();

    let result = groth16_error(
        &mut core,
        &env,
        &app_id,
        &subject,
        zero_vk(4),
        vec![fr(25), fr(840), fr(1)],
        claims(25, 840, true),
    );
    assert_eq!(result, Some(IdentityError::VkNotRegistered));
}

fn scenario_revoke_app_preserves_records_and_nullifiers() {
    let env = quiet_env();
    let admin = generate(&env);
    let prover = generate(&env);
    let owner = generate(&env);
    let subject = generate(&env);
    let app_id = symbol(&env, "revival");
    let nullifier = bytes32(77);
    let mut core = initialized(&admin, &prover);
    core.register_app(app_id.clone(), policy(&owner, 0, false, 1, Vec::new(), 0, false), None)
        .result
        .unwrap();

    attest(&mut core, &env, 0, &prover, &app_id, &subject, nullifier, claims(30, 840, true))
        .result
        .unwrap();

    assert!(core.is_verified(0, &app_id, &subject));
    assert!(core.has_nullifier(&app_id, &nullifier));

    core.revoke_app(app_id.clone()).result.unwrap();

    assert!(core.has_nullifier(&app_id, &nullifier));
    assert!(core.get_record(0, &app_id, &subject).is_none());

    core.register_app(app_id.clone(), policy(&owner, 0, false, 1, Vec::new(), 0, false), None)
        .result
        .unwrap();

    let blocked = attest(&mut core, &env, 0, &prover, &app_id, &subject, bytes32(88), claims(30, 840, true));
    assert_eq!(blocked.result.err(), Some(IdentityError::SubjectAlreadyVerified));
}

fn scenario_expired_records_can_refresh_with_fresh_nullifier() {
    let env = quiet_env();
    let admin = generate(&env);
    let prover = generate(&env);
    let owner = generate(&env);
    let subject = generate(&env);
    let app_id = symbol(&env, "expires");
    let original_nullifier = bytes32(21);
    let refresh_nullifier = bytes32(22);
    let mut core = initialized(&admin, &prover);
    core.register_app(app_id.clone(), policy(&owner, 0, false, 1, Vec::new(), 1, false), None)
        .result
        .unwrap();

    attest(&mut core, &env, 10, &prover, &app_id, &subject, original_nullifier, claims(30, 840, true))
        .result
        .unwrap();

    assert!(core.is_verified(11, &app_id, &subject));
    assert!(!core.is_verified(12, &app_id, &subject));
    assert!(core.get_record(12, &app_id, &subject).is_none());
    assert!(core.has_nullifier(&app_id, &original_nullifier));

    let old_nullifier_reuse =
        attest(&mut core, &env, 12, &prover, &app_id, &subject, original_nullifier, claims(30, 840, true));
    assert_eq!(old_nullifier_reuse.result.err(), Some(IdentityError::NullifierAlreadyUsed));

    attest(&mut core, &env, 12, &prover, &app_id, &subject, refresh_nullifier, claims(30, 840, true))
        .result
        .unwrap();

    assert!(core.is_verified(12, &app_id, &subject));
    let refreshed_record = core.get_record(12, &app_id, &subject).unwrap();
    assert_eq!(refreshed_record.nullifier, refresh_nullifier);
}

fn scenario_revoke_clears_approval_state() {
    let env = quiet_env();
    let admin = generate(&env);
    let prover = generate(&env);
    let owner = generate(&env);
    let app_id = symbol(&env, "approvals");
    let mut core = initialized(&admin, &prover);

    core.set_approval_mode(true).result.unwrap();
    core.set_app_approval(app_id.clone(), true).result.unwrap();
    assert!(core.is_approved_app(&app_id));

    core.register_app(app_id.clone(), policy(&owner, 0, false, 1, Vec::new(), 0, false), None)
        .result
        .unwrap();
    core.revoke_app(app_id.clone()).result.unwrap();

    assert!(!core.is_approved_app(&app_id));
}

fn scenario_verify_and_record_rejects_vk_mismatch() {
    let env = quiet_env();
    let admin = generate(&env);
    let prover = generate(&env);
    let owner = generate(&env);
    let subject = generate(&env);
    let app_id = symbol(&env, "vkmismatch");
    let mut core = initialized(&admin, &prover);
    core.register_app(app_id.clone(), policy(&owner, 0, false, 1, Vec::new(), 0, false), Some(bytes32(99)))
        .result
        .unwrap();

    let result = groth16_error(
        &mut core,
        &env,
        &app_id,
        &subject,
        zero_vk(4),
        vec![fr(25), fr(840), fr(1)],
        claims(25, 840, true),
    );
    assert_eq!(result, Some(IdentityError::VkMismatch));
}

fn scenario_verify_and_record_rejects_claim_mismatch() {
    let env = quiet_env();
    let admin = generate(&env);
    let prover = generate(&env);
    let owner = generate(&env);
    let subject = generate(&env);
    let app_id = symbol(&env, "claimmismatch");
    let mut core = initialized(&admin, &prover);
    core.register_app(app_id.clone(), policy(&owner, 18, false, 1, Vec::new(), 0, false), Some(bytes32(42)))
        .result
        .unwrap();

    let result = groth16_error(
        &mut core,
        &env,
        &app_id,
        &subject,
        zero_vk(4),
        vec![fr(25), fr(840), fr(1)],
        claims(99, 840, true),
    );
    assert_eq!(result, Some(IdentityError::ClaimMismatch));
}

fn scenario_app_approval_mode_blocks_registration() {
    let env = quiet_env();
    let admin = generate(&env);
    let prover = generate(&env);
    let owner = generate(&env);
    let app_id = symbol(&env, "needsapproval");
    let mut core = initialized(&admin, &prover);

    core.set_approval_mode(true).result.unwrap();

    let p = policy(&owner, 18, false, 1, Vec::new(), 0, false);
    let unregistered = core.register_app(app_id.clone(), p.clone(), None);
    assert_eq!(unregistered.result.err(), Some(IdentityError::AppNotApproved));

    core.set_app_approval(app_id.clone(), true).result.unwrap();

    let registered = core.register_app(app_id.clone(), p.clone(), None).result.unwrap();
    assert_eq!(registered.owner, p.owner);
}

fn scenario_sanctions_stub_rejects_zero_root() {
    let env = quiet_env();
    let admin = generate(&env);
    let prover = generate(&env);
    let owner = generate(&env);
    let _subject = generate(&env);
    let app_id = symbol(&env, "sanctionszero");
    let mut core = initialized(&admin, &prover);

    let register_result =
        core.register_app(app_id.clone(), policy(&owner, 0, false, 0, Vec::new(), 0, true), Some(bytes32(1)));
    assert_eq!(register_result.result.err(), Some(IdentityError::SanctionsCheckFailed));
}

fn scenario_sanctions_failsafe_blocks_with_nonzero_root() {
    let env = quiet_env();
    let admin = generate(&env);
    let prover = generate(&env);
    let owner = generate(&env);
    let _subject = generate(&env);
    let app_id = symbol(&env, "sanctionsfail");
    let mut core = initialized(&admin, &prover);
    core.register_app(app_id.clone(), policy(&owner, 0, false, 42, Vec::new(), 0, false), Some(bytes32(99)))
        .result
        .unwrap();

    let update_result =
        core.update_app_policy(app_id.clone(), policy(&owner, 0, false, 42, Vec::new(), 0, true), None);
    assert_eq!(update_result.result.err(), Some(IdentityError::SanctionsCheckFailed));
}

fn scenario_with_sanctions_disabled_vk_mismatch_is_reached() {
    let env = quiet_env();
    let admin = generate(&env);
    let prover = generate(&env);
    let owner = generate(&env);
    let subject = generate(&env);
    let app_id = symbol(&env, "sanctionsdisabled");
    let mut core = initialized(&admin, &prover);
    core.register_app(app_id.clone(), policy(&owner, 0, false, 42, Vec::new(), 0, false), Some(bytes32(99)))
        .result
        .unwrap();

    let result = groth16_error(
        &mut core,
        &env,
        &app_id,
        &subject,
        zero_vk(4),
        vec![fr(25), fr(840), fr(1)],
        claims(25, 840, true),
    );
    assert_eq!(result, Some(IdentityError::VkMismatch));
}

// ---------------------------------------------------------------------------
// The scenarios under their plain names.

#[test]
fn test_init_emits_initialization_event() {
    scenario_init_emits_initialization_event();
}

#[test]
fn test_register_app_emits_event() {
    scenario_register_app_emits_event();
}

#[test]
fn test_app_lifecycle_emits_events() {
    scenario_app_lifecycle_emits_events();
}

#[test]
fn test_record_attested_result_emits_event_and_blocks_replay() {
    scenario_record_attested_result_emits_event_and_blocks_replay();
}

#[test]
fn test_set_prover_emits_update_event() {
    scenario_set_prover_emits_update_event();
}

#[test]
fn test_rejects_malformed_vk_before_pairing() {
    scenario_rejects_malformed_vk_before_pairing();
}

#[test]
fn test_not_initialized_blocks_stateful_operations() {
    scenario_not_initialized_blocks_stateful_operations();
}

#[test]
fn test_unauthorized_prover_blocks_attested_path() {
    scenario_unauthorized_prover_blocks_attested_path();
}

#[test]
fn test_app_owner_mismatch_blocks_policy_update() {
    scenario_app_owner_mismatch_blocks_policy_update();
}

#[test]
fn test_blocks_policy_violations_and_duplicate_subjects() {
    scenario_blocks_policy_violations_and_duplicate_subjects();
}

#[test]
fn test_verify_and_record_requires_vk_hash() {
    scenario_verify_and_record_requires_vk_hash();
}

#[test]
fn test_revoke_app_preserves_records_and_nullifiers() {
    scenario_revoke_app_preserves_records_and_nullifiers();
}

#[test]
fn test_expired_records_can_refresh_with_fresh_nullifier() {
    scenario_expired_records_can_refresh_with_fresh_nullifier();
}

#[test]
fn test_revoke_clears_approval_state() {
    scenario_revoke_clears_approval_state();
}

#[test]
fn test_verify_and_record_rejects_vk_mismatch() {
    scenario_verify_and_record_rejects_vk_mismatch();
}

#[test]
fn test_verify_and_record_rejects_claim_mismatch() {
    scenario_verify_and_record_rejects_claim_mismatch();
}

#[test]
fn test_app_approval_mode_blocks_registration() {
    scenario_app_approval_mode_blocks_registration();
}

#[test]
fn test_sanctions_stub_rejects_zero_root() {
    scenario_sanctions_stub_rejects_zero_root();
}

#[test]
fn test_sanctions_failsafe_blocks_with_nonzero_root() {
    scenario_sanctions_failsafe_blocks_with_nonzero_root();
}

#[test]
fn test_with_sanctions_disabled_vk_mismatch_is_reached() {
    scenario_with_sanctions_disabled_vk_mismatch_is_reached();
}

// ---------------------------------------------------------------------------
// The scenarios grouped by concern: auth, events, groth16, policy lifecycle.

#[test]
fn auth_not_initialized_blocks_stateful_operations() {
    scenario_not_initialized_blocks_stateful_operations();
}

#[test]
fn auth_unauthorized_prover_blocks_attested_path() {
    scenario_unauthorized_prover_blocks_attested_path();
}

#[test]
fn auth_app_owner_mismatch_blocks_policy_update() {
    scenario_app_owner_mismatch_blocks_policy_update();
}

#[test]
fn events_init_emits_initialization_event() {
    scenario_init_emits_initialization_event();
}

#[test]
fn events_register_app_emits_event() {
    scenario_register_app_emits_event();
}

#[test]
fn events_app_lifecycle_emits_events() {
    scenario_app_lifecycle_emits_events();
}

#[test]
fn events_record_attested_result_emits_event_and_blocks_replay() {
    scenario_record_attested_result_emits_event_and_blocks_replay();
}

#[test]
fn events_set_prover_emits_update_event() {
    scenario_set_prover_emits_update_event();
}

#[test]
fn groth16_rejects_malformed_vk_before_pairing() {
    scenario_rejects_malformed_vk_before_pairing();
}

#[test]
fn groth16_verify_and_record_requires_vk_hash() {
    scenario_verify_and_record_requires_vk_hash();
}

#[test]
fn groth16_verify_and_record_rejects_vk_mismatch() {
    scenario_verify_and_record_rejects_vk_mismatch();
}

#[test]
fn groth16_verify_and_record_rejects_claim_mismatch() {
    scenario_verify_and_record_rejects_claim_mismatch();
}

#[test]
fn groth16_with_sanctions_disabled_vk_mismatch_is_reached() {
    scenario_with_sanctions_disabled_vk_mismatch_is_reached();
}

#[test]
fn policy_lifecycle_blocks_policy_violations_and_duplicate_subjects() {
    scenario_blocks_policy_violations_and_duplicate_subjects();
}

#[test]
fn policy_lifecycle_revoke_app_preserves_records_and_nullifiers() {
    scenario_revoke_app_preserves_records_and_nullifiers();
}

#[test]
fn policy_lifecycle_expired_records_can_refresh_with_fresh_nullifier() {
    scenario_expired_records_can_refresh_with_fresh_nullifier();
}

#[test]
fn policy_lifecycle_revoke_clears_approval_state() {
    scenario_revoke_clears_approval_state();
}

#[test]
fn policy_lifecycle_app_approval_mode_blocks_registration() {
    scenario_app_approval_mode_blocks_registration();
}

#[test]
fn policy_lifecycle_sanctions_stub_rejects_zero_root() {
    scenario_sanctions_stub_rejects_zero_root();
}

#[test]
fn policy_lifecycle_sanctions_failsafe_blocks_with_nonzero_root() {
    scenario_sanctions_failsafe_blocks_with_nonzero_root();
}

// ---------------------------------------------------------------------------
// Further behaviour of the registry.

fn sha256(env: &Env, data: &[u8]) -> [u8; 32] {
    env.crypto().sha256(&soroban_sdk::Bytes::from_slice(env, data)).to_array()
}

fn vk_hash(env: &Env, vk: &VerificationKey) -> [u8; 32] {
    let mut bytes: Vec<u8> = Vec::new();
    bytes.extend_from_slice(&vk.alpha);
    bytes.extend_from_slice(&vk.beta);
    bytes.extend_from_slice(&vk.gamma);
    bytes.extend_from_slice(&vk.delta);
    for p in &vk.ic {
        bytes.extend_from_slice(p);
    }
    sha256(env, &bytes)
}

#[test]
fn empty_signals_hash_to_the_sha256_of_nothing() {
    let env = quiet_env();
    let h = StellarIdentityCore::compute_pub_signals_hash(&env, &Vec::new(), 0).unwrap();
    let expected: [u8; 32] = [
        0xe3, 0xb0, 0xc4, 0x42, 0x98, 0xfc, 0x1c, 0x14, 0x9a, 0xfb, 0xf4, 0xc8, 0x99, 0x6f, 0xb9,
        0x24, 0x27, 0xae, 0x41, 0xe4, 0x64, 0x9b, 0x93, 0x4c, 0xa4, 0x95, 0x99, 0x1b, 0x78, 0x52,
        0xb8, 0x55,
    ];
    assert_eq!(h, expected);
}

#[test]
fn signal_hash_appends_the_date_big_endian() {
    let env = quiet_env();
    let signals = vec![fr(25), fr(840), fr(1)];
    let mut bytes: Vec<u8> = Vec::new();
    for s in &signals {
        bytes.extend_from_slice(s);
    }
    assert_eq!(
        StellarIdentityCore::compute_pub_signals_hash(&env, &signals, 0).unwrap(),
        sha256(&env, &bytes)
    );
    bytes.extend_from_slice(&260_515u32.to_be_bytes());
    assert_eq!(
        StellarIdentityCore::compute_pub_signals_hash(&env, &signals, 260_515).unwrap(),
        sha256(&env, &bytes)
    );
}

#[test]
fn claims_hash_is_little_endian_words() {
    let env = quiet_env();
    let mut bytes: Vec<u8> = Vec::new();
    bytes.extend_from_slice(&25u32.to_le_bytes());
    bytes.extend_from_slice(&840u32.to_le_bytes());
    bytes.extend_from_slice(&1u32.to_le_bytes());
    assert_eq!(StellarIdentityCore::hash_attested_claims(&env, claims(25, 840, true)), sha256(&env, &bytes));
}

#[test]
fn attestation_hash_binds_xdr_encodings() {
    let env = quiet_env();
    let prover_sdk = SdkAddress::generate(&env);
    let subject_sdk = SdkAddress::generate(&env);
    let app_sdk = SdkSymbol::new(&env, "drips");
    let nullifier = bytes32(7);
    let c = claims(22, 566, true);
    let pih = StellarIdentityCore::hash_attested_claims(&env, c);

    let mut preimage = soroban_sdk::Bytes::new(&env);
    preimage.append(&prover_sdk.clone().to_xdr(&env));
    preimage.append(&app_sdk.clone().to_xdr(&env));
    preimage.append(&subject_sdk.clone().to_xdr(&env));
    preimage.append(&soroban_sdk::BytesN::from_array(&env, &nullifier).to_xdr(&env));
    preimage.append(&soroban_sdk::BytesN::from_array(&env, &pih).to_xdr(&env));
    let expected = env.crypto().sha256(&preimage).to_array();

    let prover = Address { xdr: prover_sdk.to_xdr(&env).iter().collect() };
    let subject = Address { xdr: subject_sdk.to_xdr(&env).iter().collect() };
    let app_id = Symbol { xdr: app_sdk.to_xdr(&env).iter().collect() };
    assert_eq!(StellarIdentityCore::hash_attestation(&env, &prover, &app_id, &subject, &nullifier, c), expected);
}

#[test]
fn init_happens_once_and_is_authorized_by_the_admin() {
    let env = quiet_env();
    let admin = generate(&env);
    let prover = generate(&env);
    let mut core = StellarIdentityCore::new();
    assert_eq!(core.get_admin(), Err(IdentityError::NotInitialized));
    assert_eq!(core.get_prover(), Err(IdentityError::NotInitialized));
    let o = core.init(admin.clone(), prover.clone());
    assert_eq!(o.auths, vec![admin.clone()]);
    let again = core.init(prover.clone(), admin.clone());
    assert_eq!(again.result, Err(IdentityError::AlreadyInitialized));
    assert!(again.auths.is_empty());
    assert_eq!(again.event, None);
    assert_eq!(core.get_admin(), Ok(admin.clone()));
    assert_eq!(core.get_prover(), Ok(prover));

    let next = generate(&env);
    let o = core.set_prover(next.clone());
    assert_eq!(o.auths, vec![admin.clone()]);
    assert_eq!(core.get_prover(), Ok(next));
    assert_eq!(core.get_admin(), Ok(admin));
}

#[test]
fn policy_reads_back_what_was_written() {
    let env = quiet_env();
    let admin = generate(&env);
    let prover = generate(&env);
    let owner = generate(&env);
    let app_id = symbol(&env, "wave");
    let mut core = initialized(&admin, &prover);
    assert!(!core.is_app_registered(&app_id));
    assert_eq!(core.get_policy(&app_id), None);

    let p = policy(&owner, 18, true, 9, vec![566, 826], 5, false);
    let o = core.register_app(app_id.clone(), p.clone(), Some(bytes32(3)));
    assert_eq!(o.auths, vec![owner.clone()]);
    assert!(core.is_app_registered(&app_id));
    assert_eq!(core.get_policy(&app_id), Some(p));
    assert_eq!(core.get_vk_hash(&app_id), Some(bytes32(3)));

    let again = core.register_app(app_id.clone(), policy(&owner, 0, false, 1, Vec::new(), 0, false), None);
    assert_eq!(again.result.err(), Some(IdentityError::AppAlreadyRegistered));

    let q = policy(&owner, 21, false, 9, Vec::new(), 0, false);
    core.update_app_policy(app_id.clone(), q.clone(), None).result.unwrap();
    assert_eq!(core.get_policy(&app_id), Some(q));
    // Without a new key hash the registered one stays.
    assert_eq!(core.get_vk_hash(&app_id), Some(bytes32(3)));

    let revoked = core.revoke_app(app_id.clone());
    assert_eq!(revoked.auths, vec![owner]);
    assert!(!core.is_app_registered(&app_id));
    assert_eq!(core.get_vk_hash(&app_id), None);
}

#[test]
fn unknown_apps_and_oversized_policies_are_rejected() {
    let env = quiet_env();
    let admin = generate(&env);
    let prover = generate(&env);
    let owner = generate(&env);
    let app_id = symbol(&env, "ghost");
    let mut core = initialized(&admin, &prover);
    assert_eq!(core.revoke_app(app_id.clone()).result.err(), Some(IdentityError::AppNotFound));
    assert_eq!(
        core.update_app_policy(app_id.clone(), policy(&owner, 0, false, 1, Vec::new(), 0, false), None)
            .result
            .err(),
        Some(IdentityError::AppNotFound)
    );
    let too_many: Vec<u32> = (0..33).collect();
    let o = core.register_app(app_id.clone(), policy(&owner, 0, false, 1, too_many, 0, false), None);
    assert_eq!(o.result.err(), Some(IdentityError::ExcludedCountriesLimit));
    assert!(!core.is_app_registered(&app_id));
    let just_enough: Vec<u32> = (0..32).collect();
    core.register_app(app_id.clone(), policy(&owner, 0, false, 1, just_enough, 0, false), None)
        .result
        .unwrap();
}

#[test]
fn approval_reads_back_what_was_written() {
    let env = quiet_env();
    let admin = generate(&env);
    let prover = generate(&env);
    let owner = generate(&env);
    let app_id = symbol(&env, "approvals");
    let mut core = initialized(&admin, &prover);
    let o = core.set_app_approval(app_id.clone(), true);
    assert_eq!(o.auths, vec![admin.clone()]);
    assert!(core.is_approved_app(&app_id));
    core.set_app_approval(app_id.clone(), false).result.unwrap();
    assert!(!core.is_approved_app(&app_id));

    core.set_approval_mode(true).result.unwrap();
    core.set_app_approval(app_id.clone(), true).result.unwrap();
    core.register_app(app_id.clone(), policy(&owner, 0, false, 1, Vec::new(), 0, false), None)
        .result
        .unwrap();
    core.set_app_approval(app_id.clone(), false).result.unwrap();
    let blocked = core.update_app_policy(app_id.clone(), policy(&owner, 1, false, 1, Vec::new(), 0, false), None);
    assert_eq!(blocked.result.err(), Some(IdentityError::AppNotApproved));
}

#[test]
fn attested_hashes_must_match() {
    let env = quiet_env();
    let admin = generate(&env);
    let prover = generate(&env);
    let owner = generate(&env);
    let subject = generate(&env);
    let app_id = symbol(&env, "drips");
    let mut core = initialized(&admin, &prover);
    core.register_app(app_id.clone(), policy(&owner, 0, false, 1, Vec::new(), 0, false), None)
        .result
        .unwrap();
    let c = claims(30, 840, true);
    let nullifier = bytes32(5);
    let (pih, att) = attested_hashes(&env, &prover, &app_id, &subject, &nullifier, &c);

    let wrong_claims = core.record_attested_result(
        &env, 0, prover.clone(), app_id.clone(), subject.clone(), nullifier, pih, att, claims(31, 840, true),
    );
    assert_eq!(wrong_claims.result.err(), Some(IdentityError::PublicInputsHashMismatch));
    assert_eq!(wrong_claims.auths, vec![prover.clone(), subject.clone()]);

    let wrong_nullifier = core.record_attested_result(
        &env, 0, prover.clone(), app_id.clone(), subject.clone(), bytes32(6), pih, att, c,
    );
    assert_eq!(wrong_nullifier.result.err(), Some(IdentityError::AttestationHashMismatch));
    assert!(!core.has_nullifier(&app_id, &bytes32(6)));

    let unknown = symbol(&env, "unknown");
    let (pih2, att2) = attested_hashes(&env, &prover, &unknown, &subject, &nullifier, &c);
    let not_found = core.record_attested_result(
        &env, 0, prover.clone(), unknown, subject.clone(), nullifier, pih2, att2, c,
    );
    assert_eq!(not_found.result.err(), Some(IdentityError::AppNotFound));

    let o = core.record_attested_result(&env, 7, prover.clone(), app_id.clone(), subject.clone(), nullifier, pih, att, c);
    let record = o.result.unwrap();
    assert_eq!(record.verified_ledger, 7);
    assert_eq!(record.age, 30);
    assert_eq!(core.get_record(7, &app_id, &subject), Some(record));
}

#[test]
fn humanity_requirement_is_enforced() {
    let env = quiet_env();
    let admin = generate(&env);
    let prover = generate(&env);
    let owner = generate(&env);
    let subject = generate(&env);
    let app_id = symbol(&env, "humans");
    let mut core = initialized(&admin, &prover);
    core.register_app(app_id.clone(), policy(&owner, 0, true, 1, Vec::new(), 0, false), None)
        .result
        .unwrap();
    let bot = attest(&mut core, &env, 0, &prover, &app_id, &subject, bytes32(1), claims(30, 840, false));
    assert_eq!(bot.result.err(), Some(IdentityError::PolicyViolation));
    attest(&mut core, &env, 0, &prover, &app_id, &subject, bytes32(1), claims(30, 840, true))
        .result
        .unwrap();
}

#[test]
fn groth16_checks_signal_counts() {
    let env = quiet_env();
    let admin = generate(&env);
    let prover = generate(&env);
    let owner = generate(&env);
    let subject = generate(&env);
    let app_id = symbol(&env, "counts");
    let mut core = initialized(&admin, &prover);
    core.register_app(app_id.clone(), policy(&owner, 0, false, 1, Vec::new(), 0, false), None)
        .result
        .unwrap();
    let few = groth16_error(&mut core, &env, &app_id, &subject, zero_vk(3), vec![fr(25), fr(840)], claims(25, 840, true));
    assert_eq!(few, Some(IdentityError::InsufficientPublicSignals));
    let no_ic = groth16_error(&mut core, &env, &app_id, &subject, zero_vk(0), vec![fr(25)], claims(25, 840, true));
    assert_eq!(no_ic, Some(IdentityError::MalformedVerifyingKey));

    let signals = vec![fr(25), fr(840), fr(1)];
    let wrong_hash = core.verify_and_record(
        &env, 0, app_id.clone(), subject.clone(), bytes32(0), bytes32(9), zero_vk(4), zero_proof(), signals, 0,
        claims(25, 840, true),
    );
    assert_eq!(wrong_hash.result.err(), Some(IdentityError::PublicInputsHashMismatch));
    assert_eq!(wrong_hash.auths, vec![subject.clone()]);
}

fn g1_generator() -> [u8; 64] {
    let mut out = [0u8; 64];
    out[31] = 1;
    out[63] = 2;
    out
}

fn g2_generator() -> [u8; 128] {
    let g = ark_bn254::G2Affine::generator();
    let mut out = [0u8; 128];
    out[0..32].copy_from_slice(&g.x.c1.into_bigint().to_bytes_be());
    out[32..64].copy_from_slice(&g.x.c0.into_bigint().to_bytes_be());
    out[64..96].copy_from_slice(&g.y.c1.into_bigint().to_bytes_be());
    out[96..128].copy_from_slice(&g.y.c0.into_bigint().to_bytes_be());
    out
}

#[test]
fn groth16_records_only_when_the_pairing_holds() {
    let env = quiet_env();
    let admin = generate(&env);
    let prover = generate(&env);
    let owner = generate(&env);
    let subject = generate(&env);
    let app_id = symbol(&env, "zk");
    let vk = zero_vk(4);
    let mut core = initialized(&admin, &prover);
    core.register_app(app_id.clone(), policy(&owner, 18, true, 1, vec![566], 0, false), Some(vk_hash(&env, &vk)))
        .result
        .unwrap();
    let signals = vec![fr(25), fr(840), fr(1)];
    let pih = StellarIdentityCore::compute_pub_signals_hash(&env, &signals, 0).unwrap();
    let nullifier = bytes32(4);

    let run = |core: &mut StellarIdentityCore, p: Proof| {
        core.verify_and_record(
            &env, 3, app_id.clone(), subject.clone(), nullifier, pih, vk.clone(), p, signals.clone(), 0,
            claims(25, 840, true),
        )
    };

    // Not points at all: the host would reject them.
    let garbage = Proof { a: [1u8; 64], b: [0u8; 128], c: [0u8; 64] };
    let o = run(&mut core, garbage);
    assert_eq!(o.result.err(), Some(IdentityError::MalformedPoint));
    assert_eq!(o.auths, vec![subject.clone()]);

    // Valid points for which e(-A, B) is not one.
    let wrong = Proof { a: g1_generator(), b: g2_generator(), c: [0u8; 64] };
    let o = run(&mut core, wrong);
    assert_eq!(o.result.err(), Some(IdentityError::InvalidProof));
    assert!(!core.has_nullifier(&app_id, &nullifier));

    // Every point at infinity: every pairing is one.
    let o = run(&mut core, zero_proof());
    let record = o.result.unwrap();
    assert_eq!(record.source, VerificationSource::OnchainGroth16);
    assert_eq!(record.verified_ledger, 3);
    assert_eq!(
        o.event,
        Some(ContractEvent::VerificationRecorded(VerificationRecorded {
            app_id: app_id.clone(),
            subject: subject.clone(),
            nullifier,
            source: VerificationSource::OnchainGroth16,
        }))
    );
    assert!(core.has_nullifier(&app_id, &nullifier));
    assert!(core.is_verified(3, &app_id, &subject));
    assert_eq!(run(&mut core, zero_proof()).result.err(), Some(IdentityError::NullifierAlreadyUsed));
}

#[test]
fn bn254_point_checks() {
    let env = quiet_env();
    assert!(g1_point_valid(&env, &[0u8; 64]));
    assert!(g1_point_valid(&env, &g1_generator()));
    assert!(!g1_point_valid(&env, &[1u8; 64]));
    // y = p is not a canonical coordinate.
    let mut off = g1_generator();
    off[32..64].copy_from_slice(&[
        0x30, 0x64, 0x4e, 0x72, 0xe1, 0x31, 0xa0, 0x29, 0xb8, 0x50, 0x45, 0xb6, 0x81, 0x81, 0x58,
        0x5d, 0x97, 0x81, 0x6a, 0x91, 0x68, 0x71, 0xca, 0x8d, 0x3c, 0x20, 0x8c, 0x16, 0xd8, 0x7c,
        0xfd, 0x47,
    ]);
    assert!(!g1_point_valid(&env, &off));
    // y = p - 2 is -2, so (1, p - 2) is the negated generator.
    off[63] = 0x45;
    assert!(g1_point_valid(&env, &off));
    assert!(g2_point_valid(&[0u8; 128]));
    assert!(g2_point_valid(&g2_generator()));
    let mut bent = g2_generator();
    bent[127] ^= 1;
    assert!(!g2_point_valid(&bent));
    assert!(!g2_point_valid(&[0xffu8; 128]));
}

#[test]
fn saved_entries_restore_the_same_registry() {
    let env = quiet_env();
    let admin = generate(&env);
    let prover = generate(&env);
    let owner = generate(&env);
    let subject = generate(&env);
    let app_id = symbol(&env, "kept");
    let other = symbol(&env, "other");
    let mut core = initialized(&admin, &prover);
    core.set_approval_mode(true).result.unwrap();
    core.set_app_approval(app_id.clone(), true).result.unwrap();
    let p = policy(&owner, 18, false, 1, vec![566], 0, false);
    core.register_app(app_id.clone(), p.clone(), Some(bytes32(3))).result.unwrap();
    attest(&mut core, &env, 4, &prover, &app_id, &subject, bytes32(9), claims(30, 840, true))
        .result
        .unwrap();

    let entries = core.into_entries();
    assert_eq!(entries.admin, Some(admin.clone()));
    let restored = StellarIdentityCore::from_entries(entries).unwrap();
    assert_eq!(restored.get_admin(), Ok(admin.clone()));
    assert_eq!(restored.get_prover(), Ok(prover.clone()));
    assert_eq!(restored.get_policy(&app_id), Some(p));
    assert_eq!(restored.get_vk_hash(&app_id), Some(bytes32(3)));
    assert!(restored.is_approved_app(&app_id));
    assert!(!restored.is_approved_app(&other));
    assert!(restored.has_nullifier(&app_id, &bytes32(9)));
    assert!(restored.is_verified(4, &app_id, &subject));

    // A later entry replaces an earlier one with the same key.
    let key = (app_id.xdr.clone(), Vec::new());
    let entries = RegistryEntries {
        admin: Some(admin.clone()),
        prover: Some(prover.clone()),
        approval_required: false,
        policies: StoreParts { keys: vec![key.clone()], vals: vec![policy(&owner, 0, false, 1, Vec::new(), 0, false)] },
        vk_hashes: StoreParts { keys: vec![key.clone(), key.clone()], vals: vec![bytes32(1), bytes32(2)] },
        approved: StoreParts { keys: Vec::new(), vals: Vec::new() },
        nullifiers: StoreParts { keys: Vec::new(), vals: Vec::new() },
        records: StoreParts { keys: Vec::new(), vals: Vec::new() },
    };
    let restored = StellarIdentityCore::from_entries(entries).unwrap();
    assert_eq!(restored.get_vk_hash(&app_id), Some(bytes32(2)));

    // A key hash belongs to a registered app.
    let orphan = RegistryEntries {
        admin: Some(admin.clone()),
        prover: Some(prover.clone()),
        approval_required: false,
        policies: StoreParts { keys: Vec::new(), vals: Vec::new() },
        vk_hashes: StoreParts { keys: vec![key], vals: vec![bytes32(1)] },
        approved: StoreParts { keys: Vec::new(), vals: Vec::new() },
        nullifiers: StoreParts { keys: Vec::new(), vals: Vec::new() },
        records: StoreParts { keys: Vec::new(), vals: Vec::new() },
    };
    assert!(StellarIdentityCore::from_entries(orphan).is_none());

    // Admin and prover are set together or not at all.
    let lopsided = RegistryEntries {
        admin: Some(admin),
        prover: None,
        approval_required: false,
        policies: StoreParts { keys: Vec::new(), vals: Vec::new() },
        vk_hashes: StoreParts { keys: Vec::new(), vals: Vec::new() },
        approved: StoreParts { keys: Vec::new(), vals: Vec::new() },
        nullifiers: StoreParts { keys: Vec::new(), vals: Vec::new() },
        records: StoreParts { keys: Vec::new(), vals: Vec::new() },
    };
    assert!(StellarIdentityCore::from_entries(lopsided).is_none());
}

#[test]
fn nullifiers_are_scoped_to_their_app() {
    let env = quiet_env();
    let admin = generate(&env);
    let prover = generate(&env);
    let owner = generate(&env);
    let subject = generate(&env);
    let first = symbol(&env, "first");
    let second = symbol(&env, "second");
    let mut core = initialized(&admin, &prover);
    core.register_app(first.clone(), policy(&owner, 0, false, 1, Vec::new(), 0, false), None)
        .result
        .unwrap();
    core.register_app(second.clone(), policy(&owner, 0, false, 1, Vec::new(), 0, false), None)
        .result
        .unwrap();
    let n = bytes32(42);
    attest(&mut core, &env, 0, &prover, &first, &subject, n, claims(30, 840, true)).result.unwrap();
    assert!(core.has_nullifier(&first, &n));
    assert!(!core.has_nullifier(&second, &n));
    attest(&mut core, &env, 0, &prover, &second, &subject, n, claims(30, 840, true)).result.unwrap();
    assert!(core.has_nullifier(&second, &n));
}
