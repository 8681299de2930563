use soroban_sdk::testutils::EnvTestConfig;
use soroban_sdk::Env;

use stellar_identity_core::claims::{
    age_from_birth_yymmdd, derive_from_signals, derive_rarimo, fr_to_u32, verify_match,
    AttestedClaims, ClaimLayout,
};
use stellar_identity_core::contract::StellarIdentityCore;
use stellar_identity_core::error::IdentityError;

fn quiet_env() -> Env {
    Env::new_with_config(EnvTestConfig { capture_snapshot_at_drop: false })
}

/// A scalar holding `v` in its low 32 bits.
fn fr(v: u32) -> [u8; 32] {
    let mut out = [0u8; 32];
    out[28..].copy_from_slice(&v.to_be_bytes());
    out
}

fn layout_stub_signals() -> Vec<[u8; 32]> {
    vec![fr(1), fr(950_101), fr(300_101), fr(0), fr(0), fr(840)]
}

fn phase2_signals(current_date: u32, birth: u32, nationality: u32, citizenship: u32) -> Vec<[u8; 32]> {
    let mut s = vec![fr(0); 23];
    s[4] = fr(current_date);
    s[15] = fr(birth);
    s[19] = fr(nationality);
    s[20] = fr(citizenship);
    s
}

#[test]
fn age_from_birth_yymmdd_golden() {
    assert_eq!(age_from_birth_yymmdd(950_101, 260_515).unwrap(), 31);
}

#[test]
fn rarimo_layout_stub_from_fr() {
    let pub_signals = layout_stub_signals();
    let c = derive_rarimo(&pub_signals, 260_515).unwrap();
    assert_eq!(c.age, 31);
    assert_eq!(c.country_code, 840);
    assert!(c.is_human);
}

#[test]
fn rarimo_query_layout_derives_age_and_country() {
    let pub_signals = layout_stub_signals();
    let derived = derive_from_signals(&pub_signals, &ClaimLayout::RarimoQuery, 260_515).unwrap();
    assert_eq!(derived.age, 31);
    assert_eq!(derived.country_code, 840);
    assert!(derived.is_human);
}

#[test]
fn rarimo_query_phase2_layout_derives_age_and_country() {
    let pub_signals = phase2_signals(260_515, 950_101, 840, 0);
    let derived = derive_from_signals(&pub_signals, &ClaimLayout::RarimoQuery, 260_515).unwrap();
    assert_eq!(derived.age, 31);
    assert_eq!(derived.country_code, 840);
    assert!(derived.is_human);
}

#[test]
fn rarimo_query_rejects_current_date_mismatch() {
    let pub_signals = phase2_signals(260_515, 950_101, 840, 0);
    let err = derive_from_signals(&pub_signals, &ClaimLayout::RarimoQuery, 250_101).unwrap_err();
    assert_eq!(err, IdentityError::CurrentDateMismatch);
}

#[test]
fn rarimo_query_phase2_uses_citizenship_when_nationality_zero() {
    let pub_signals = phase2_signals(260_515, 950_101, 0, 826);
    let derived = derive_from_signals(&pub_signals, &ClaimLayout::RarimoQuery, 260_515).unwrap();
    assert_eq!(derived.country_code, 826);
}

#[test]
fn rarimo_groth16_hash_binds_current_date() {
    let env = quiet_env();
    let pub_signals = phase2_signals(260_515, 950_101, 840, 0);
    let h0 = StellarIdentityCore::compute_pub_signals_hash(&env, &pub_signals, 0).unwrap();
    let h1 = StellarIdentityCore::compute_pub_signals_hash(&env, &pub_signals, 260_515).unwrap();
    assert_ne!(h0, h1);
}

#[test]
fn age_counts_completed_years_only() {
    // The day before the birthday, on the birthday, and the day after.
    assert_eq!(age_from_birth_yymmdd(70_615, 250_614).unwrap(), 17);
    assert_eq!(age_from_birth_yymmdd(70_615, 250_615).unwrap(), 18);
    assert_eq!(age_from_birth_yymmdd(70_615, 250_616).unwrap(), 18);
    // A birth month later in the year than the current month.
    assert_eq!(age_from_birth_yymmdd(951_201, 260_515).unwrap(), 30);
}

#[test]
fn age_uses_the_two_digit_year_pivot() {
    // 50 is 2050, 51 is 1951.
    assert_eq!(age_from_birth_yymmdd(510_101, 500_101).unwrap(), 99);
    // A birth date after the current date saturates at zero.
    assert_eq!(age_from_birth_yymmdd(300_101, 250_101).unwrap(), 0);
}

#[test]
fn age_rejects_zero_dates() {
    assert_eq!(age_from_birth_yymmdd(0, 260_515), Err(IdentityError::PolicyViolation));
    assert_eq!(age_from_birth_yymmdd(950_101, 0), Err(IdentityError::PolicyViolation));
}

#[test]
fn fr_to_u32_reads_the_low_word() {
    assert_eq!(fr_to_u32(&fr(840)), Ok(840));
    let mut high = fr(7);
    high[0] = 0xff;
    high[27] = 0x01;
    assert_eq!(fr_to_u32(&high), Ok(7));
    assert_eq!(fr_to_u32(&fr(u32::MAX)), Ok(u32::MAX));
}

#[test]
fn standard_layout_reads_the_first_three_signals() {
    let signals = vec![fr(25), fr(840), fr(2), fr(99)];
    let c = derive_from_signals(&signals, &ClaimLayout::Standard, 0).unwrap();
    assert_eq!(c, AttestedClaims { age: 25, country_code: 840, is_human: true });
    let not_human = vec![fr(25), fr(840), fr(0)];
    assert!(!derive_from_signals(&not_human, &ClaimLayout::Standard, 0).unwrap().is_human);
}

#[test]
fn layouts_reject_too_few_signals() {
    let two = vec![fr(25), fr(840)];
    assert_eq!(
        derive_from_signals(&two, &ClaimLayout::Standard, 0),
        Err(IdentityError::InsufficientPublicSignals)
    );
    let five = vec![fr(1); 5];
    assert_eq!(
        derive_from_signals(&five, &ClaimLayout::RarimoQuery, 260_515),
        Err(IdentityError::InsufficientPublicSignals)
    );
}

#[test]
fn rarimo_layout_needs_a_current_date() {
    let pub_signals = layout_stub_signals();
    assert_eq!(derive_rarimo(&pub_signals, 0), Err(IdentityError::PolicyViolation));
}

#[test]
fn rarimo_layout_rejects_a_zero_birth_date() {
    let mut pub_signals = layout_stub_signals();
    pub_signals[1] = fr(0);
    assert_eq!(derive_rarimo(&pub_signals, 260_515), Err(IdentityError::PolicyViolation));
}

#[test]
fn verify_match_compares_every_claim() {
    let a = AttestedClaims { age: 25, country_code: 840, is_human: true };
    assert_eq!(verify_match(&a, &a), Ok(()));
    let older = AttestedClaims { age: 26, ..a };
    let elsewhere = AttestedClaims { country_code: 826, ..a };
    let bot = AttestedClaims { is_human: false, ..a };
    assert_eq!(verify_match(&a, &older), Err(IdentityError::ClaimMismatch));
    assert_eq!(verify_match(&a, &elsewhere), Err(IdentityError::ClaimMismatch));
    assert_eq!(verify_match(&a, &bot), Err(IdentityError::ClaimMismatch));
}
