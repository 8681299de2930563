//! Claim derivation from Groth16 public signals (Standard and Rarimo layouts).
use vstd::prelude::*;

use crate::error::IdentityError;
use crate::types::Scalar;

verus! {

/// How claims are laid out in the public signals of an application's circuit.
#[derive(Copy, Clone, Debug, PartialEq, Eq, Structural)]
pub enum ClaimLayout {
    /// Public signals `[0]=age, [1]=country_code, [2]=is_human`.
    Standard,
    /// Rarimo query layout: `[1]=birthDate (YYMMDD)`, `[5]=nationality` (layout stub),
    /// or the Phase 2 query outputs; humanity is always true.
    RarimoQuery,
}

/// The identity claims a verification attests to.
#[derive(Copy, Clone, Debug, PartialEq, Eq, Structural)]
pub struct AttestedClaims {
    pub age: u32,
    pub country_code: u32,
    pub is_human: bool,
}

/// Layout stub: 6 public signals.
pub const RARIMO_LAYOUT_MIN_SIGNALS: usize = 6;
pub const RARIMO_LAYOUT_BIRTH_DATE_INDEX: usize = 1;
pub const RARIMO_LAYOUT_COUNTRY_INDEX: usize = 5;

/// Phase 2 queryIdentity: 14 inputs + 9 outputs.
pub const RARIMO_PHASE2_MIN_SIGNALS: usize = 23;
pub const RARIMO_PHASE2_CURRENT_DATE_INDEX: usize = 4;
pub const RARIMO_PHASE2_BIRTH_DATE_INDEX: usize = 15;
pub const RARIMO_PHASE2_NATIONALITY_INDEX: usize = 19;
pub const RARIMO_PHASE2_CITIZENSHIP_INDEX: usize = 20;

/// The full year of a two-digit `YY`: 00..=50 is 20xx, the rest 19xx.
pub open spec fn full_year(yy: int) -> int {
    if yy <= 50 {
        2000 + yy
    } else {
        1900 + yy
    }
}

pub open spec fn sat_sub(a: int, b: int) -> int {
    if a >= b {
        a - b
    } else {
        0
    }
}

#[verifier::opaque]
/// Completed years between two `YYMMDD` dates: the difference of the full
/// years, less one when the birthday has not yet come round in the current year.
pub open spec fn spec_age(birth: u32, current: u32) -> int {
    let (by, bm, bd) = (birth / 10000, (birth / 100) % 100, birth % 100);
    let (cy, cm, cd) = (current / 10000, (current / 100) % 100, current % 100);
    let years = sat_sub(full_year(cy as int), full_year(by as int));
    if cm < bm || (cm == bm && cd < bd) {
        sat_sub(years, 1)
    } else {
        years
    }
}

/// Age in whole years of someone born on `birth_yymmdd` as of `current_yymmdd`.
pub fn age_from_birth_yymmdd(birth_yymmdd: u32, current_yymmdd: u32) -> (r: Result<u32, IdentityError>)
    ensures
        r == spec_age_result(birth_yymmdd, current_yymmdd),
{
    reveal(spec_age);
    if birth_yymmdd == 0 || current_yymmdd == 0 {
        return Err(IdentityError::PolicyViolation);
    }
    let birth_yy = birth_yymmdd / 10_000;
    let birth_mm = (birth_yymmdd / 100) % 100;
    let birth_dd = birth_yymmdd % 100;
    let cur_yy = current_yymmdd / 10_000;
    let cur_mm = (current_yymmdd / 100) % 100;
    let cur_dd = current_yymmdd % 100;

    let birth_full_year = if birth_yy <= 50 {
        2000 + birth_yy
    } else {
        1900 + birth_yy
    };
    let current_full_year = if cur_yy <= 50 {
        2000 + cur_yy
    } else {
        1900 + cur_yy
    };

    let mut age = current_full_year.saturating_sub(birth_full_year);
    if cur_mm < birth_mm || (cur_mm == birth_mm && cur_dd < birth_dd) {
        age = age.saturating_sub(1);
    }
    Ok(age)
}

/// The low 32 bits of a scalar: its last four bytes read big-endian.
pub open spec fn scalar_low_u32(s: Scalar) -> u32 {
    (s[28] as int * 16777216 + s[29] as int * 65536 + s[30] as int * 256 + s[31] as int) as u32
}

/// The low 32 bits of a public signal.
pub fn fr_to_u32(fr: &Scalar) -> (r: Result<u32, IdentityError>)
    ensures
        r == Ok::<u32, IdentityError>(scalar_low_u32(*fr)),
{
    let v: u32 = (fr[28] as u32) * 16777216 + (fr[29] as u32) * 65536 + (fr[30] as u32) * 256
        + (fr[31] as u32);
    Ok(v)
}

/// Claims carried by the Standard layout.
pub open spec fn spec_derive_standard(sig: Seq<Scalar>) -> Result<AttestedClaims, IdentityError> {
    if sig.len() < 3 {
        Err(IdentityError::InsufficientPublicSignals)
    } else {
        Ok(
            AttestedClaims {
                age: scalar_low_u32(sig[0]),
                country_code: scalar_low_u32(sig[1]),
                is_human: scalar_low_u32(sig[2]) != 0,
            },
        )
    }
}

/// The age result for a birth date as of `date`, or the error it gives.
pub open spec fn spec_age_result(birth: u32, date: u32) -> Result<u32, IdentityError> {
    if birth == 0 || date == 0 {
        Err(IdentityError::PolicyViolation)
    } else {
        Ok(spec_age(birth, date) as u32)
    }
}

/// Claims carried by the Rarimo query layouts, as of `date` (`YYMMDD`).
pub open spec fn spec_derive_rarimo(sig: Seq<Scalar>, date: u32) -> Result<AttestedClaims, IdentityError> {
    if date == 0 {
        Err(IdentityError::PolicyViolation)
    } else if sig.len() >= RARIMO_PHASE2_MIN_SIGNALS {
        let nationality = scalar_low_u32(sig[RARIMO_PHASE2_NATIONALITY_INDEX as int]);
        let country = if nationality != 0 {
            nationality
        } else {
            scalar_low_u32(sig[RARIMO_PHASE2_CITIZENSHIP_INDEX as int])
        };
        if scalar_low_u32(sig[RARIMO_PHASE2_CURRENT_DATE_INDEX as int]) != date {
            Err(IdentityError::CurrentDateMismatch)
        } else {
            match spec_age_result(scalar_low_u32(sig[RARIMO_PHASE2_BIRTH_DATE_INDEX as int]), date) {
                Ok(age) => Ok(AttestedClaims { age, country_code: country, is_human: true }),
                Err(e) => Err(e),
            }
        }
    } else if sig.len() >= RARIMO_LAYOUT_MIN_SIGNALS {
        match spec_age_result(scalar_low_u32(sig[RARIMO_LAYOUT_BIRTH_DATE_INDEX as int]), date) {
            Ok(age) => Ok(
                AttestedClaims {
                    age,
                    country_code: scalar_low_u32(sig[RARIMO_LAYOUT_COUNTRY_INDEX as int]),
                    is_human: true,
                },
            ),
            Err(e) => Err(e),
        }
    } else {
        Err(IdentityError::InsufficientPublicSignals)
    }
}

/// Claims carried by the public signals under `layout`.
pub open spec fn spec_derive(sig: Seq<Scalar>, layout: ClaimLayout, date: u32) -> Result<
    AttestedClaims,
    IdentityError,
> {
    match layout {
        ClaimLayout::Standard => spec_derive_standard(sig),
        ClaimLayout::RarimoQuery => spec_derive_rarimo(sig, date),
    }
}

/// Derives the claims that the public signals carry under `layout`; for the
/// Rarimo layouts `current_date_ymd` is the date (`YYMMDD`) ages are computed at.
pub fn derive_from_signals(pub_signals: &Vec<Scalar>, layout: &ClaimLayout, current_date_ymd: u32) -> (r:
    Result<AttestedClaims, IdentityError>)
    ensures
        r == spec_derive(pub_signals@, *layout, current_date_ymd),
{
    match layout {
        ClaimLayout::Standard => derive_standard(pub_signals),
        ClaimLayout::RarimoQuery => derive_rarimo(pub_signals, current_date_ymd),
    }
}

fn derive_standard(pub_signals: &Vec<Scalar>) -> (r: Result<AttestedClaims, IdentityError>)
    ensures
        r == spec_derive_standard(pub_signals@),
{
    if pub_signals.len() < 3 {
        return Err(IdentityError::InsufficientPublicSignals);
    }
    let age = fr_to_u32(&pub_signals[0])?;
    let country_code = fr_to_u32(&pub_signals[1])?;
    let is_human_val = fr_to_u32(&pub_signals[2])?;
    Ok(AttestedClaims { age, country_code, is_human: is_human_val != 0 })
}

/// Claims from the Rarimo query layouts (Phase 2, or the layout stub) as of
/// `current_date_ymd`.
pub fn derive_rarimo(pub_signals: &Vec<Scalar>, current_date_ymd: u32) -> (r: Result<
    AttestedClaims,
    IdentityError,
>)
    ensures
        r == spec_derive_rarimo(pub_signals@, current_date_ymd),
{
    if current_date_ymd == 0 {
        return Err(IdentityError::PolicyViolation);
    }
    let len = pub_signals.len();
    if len >= RARIMO_PHASE2_MIN_SIGNALS {
        let signal_date = fr_to_u32(&pub_signals[RARIMO_PHASE2_CURRENT_DATE_INDEX])?;
        let birth_yymmdd = fr_to_u32(&pub_signals[RARIMO_PHASE2_BIRTH_DATE_INDEX])?;
        let nationality = fr_to_u32(&pub_signals[RARIMO_PHASE2_NATIONALITY_INDEX])?;
        let citizenship = fr_to_u32(&pub_signals[RARIMO_PHASE2_CITIZENSHIP_INDEX])?;
        let country_code = if nationality != 0 {
            nationality
        } else {
            citizenship
        };
        if signal_date != current_date_ymd {
            return Err(IdentityError::CurrentDateMismatch);
        }
        let age = age_from_birth_yymmdd(birth_yymmdd, current_date_ymd)?;
        return Ok(AttestedClaims { age, country_code, is_human: true });
    }
    if len >= RARIMO_LAYOUT_MIN_SIGNALS {
        let birth_yymmdd = fr_to_u32(&pub_signals[RARIMO_LAYOUT_BIRTH_DATE_INDEX])?;
        let country_code = fr_to_u32(&pub_signals[RARIMO_LAYOUT_COUNTRY_INDEX])?;
        let age = age_from_birth_yymmdd(birth_yymmdd, current_date_ymd)?;
        return Ok(AttestedClaims { age, country_code, is_human: true });
    }
    Err(IdentityError::InsufficientPublicSignals)
}

/// Checks that the claims derived from the proof are the claims supplied.
pub fn verify_match(derived: &AttestedClaims, supplied: &AttestedClaims) -> (r: Result<(), IdentityError>)
    ensures
        r == (if *derived == *supplied {
            Ok::<(), IdentityError>(())
        } else {
            Err(IdentityError::ClaimMismatch)
        }),
{
    if derived.age != supplied.age {
        return Err(IdentityError::ClaimMismatch);
    }
    if derived.country_code != supplied.country_code {
        return Err(IdentityError::ClaimMismatch);
    }
    if derived.is_human != supplied.is_human {
        return Err(IdentityError::ClaimMismatch);
    }
    Ok(())
}

} // verus!
