//! Rarimo query public signals: birth date and nationality, and the claims
//! derived from them.
use vstd::prelude::*;

use vstd::string::StringSliceAdditionalSpecFns;
use vstd::utf8::encode_utf8;

use crate::bigint::{be_u32, be_value, decimal_to_be_bytes, lemma_be_value_bound, lemma_be_value_concat, pow256, spec_parse_biguint};
use crate::claims::{full_year, sat_sub};
use crate::error::AdapterError;
use crate::hashing::append_bytes;
use crate::text::{
    lemma_two_bytes_at_most_99, lemma_utf8_len_at_least_chars, parse_unsigned_in, spec_parse_unsigned, str_trim, trim_ws,
};

verus! {

/// Phase 2 queryIdentity: 14 public inputs + 9 outputs (23 signals).
pub const RARIMO_PHASE2_PUBLIC_SIGNALS: usize = 23;
pub const RARIMO_PHASE2_BIRTH_DATE_INDEX: usize = 15;
pub const RARIMO_PHASE2_NATIONALITY_INDEX: usize = 19;
pub const RARIMO_PHASE2_CITIZENSHIP_INDEX: usize = 20;

/// Layout stub: 6 public inputs (nullifier, birthDate, expirationDate, pad×2, nationality).
pub const RARIMO_LAYOUT_STUB_SIGNALS: usize = 6;
pub const RARIMO_LAYOUT_BIRTH_DATE_INDEX: usize = 1;
pub const RARIMO_LAYOUT_COUNTRY_INDEX: usize = 5;

/// Birth date and country taken from Rarimo query public signals, as decimal text.
#[derive(Debug, Clone)]
pub struct RarimoPublicSignals {
    pub birth_date: String,
    pub nationality: String,
}

/// The identity claims the Wraith contract takes.
#[derive(Debug, Clone, Copy, PartialEq, Eq, Structural)]
pub struct WraithClaims {
    pub age: u32,
    pub country_code: u32,
    pub is_human: bool,
}

/// Whether byte position `i` of `b` starts a character (or is the end), as
/// `str::is_char_boundary` decides for valid UTF-8.
pub open spec fn char_boundary(b: Seq<u8>, i: int) -> bool {
    ||| i == 0
    ||| i == b.len()
    ||| (0 < i < b.len() && !(128 <= b[i] < 192))
}

/// The two bytes at `i` parsed as an unsigned number no greater than `max`.
pub open spec fn field2(b: Seq<u8>, i: int, max: nat) -> Option<nat> {
    spec_parse_unsigned(b.subrange(i, i + 2), max)
}

/// The trimmed birth date is empty or `"0"`.
pub open spec fn birth_missing(s: Seq<char>) -> bool {
    trim_ws(s).len() == 0 || encode_utf8(trim_ws(s)) == seq![48u8]
}

/// The trimmed birth date's bytes, left-padded with `'0'` to six characters
/// when shorter than six bytes.
pub open spec fn padded_birth(s: Seq<char>) -> Seq<u8> {
    let t = trim_ws(s);
    let b = encode_utf8(t);
    if b.len() < 6 {
        Seq::new(if t.len() < 6 { (6 - t.len()) as nat } else { 0 }, |i: int| 48u8) + b
    } else {
        b
    }
}

/// `YYMMDD` birth date parsed into (year, month, day).
pub open spec fn spec_parse_birth(s: Seq<char>) -> Result<(u16, u8, u8), AdapterError> {
    let p = padded_birth(s);
    if birth_missing(s) {
        Err(AdapterError::EmptyBirthDate)
    } else {
        match field2(p, 0, 65535) {
            None => Err(AdapterError::InvalidBirthYear),
            Some(y) => match field2(p, 2, 255) {
                None => Err(AdapterError::InvalidBirthMonth),
                Some(m) => match field2(p, 4, 255) {
                    None => Err(AdapterError::InvalidBirthDay),
                    Some(d) => Ok((y as u16, m as u8, d as u8)),
                },
            },
        }
    }
}

/// The byte ranges the birth date is cut into lie on character boundaries
/// (cutting elsewhere panics).
pub open spec fn birth_cuts_ok(s: Seq<char>) -> bool {
    let p = padded_birth(s);
    birth_missing(s) || {
        &&& char_boundary(p, 2)
        &&& field2(p, 0, 65535) is Some ==> char_boundary(p, 4)
        &&& field2(p, 0, 65535) is Some && field2(p, 2, 255) is Some ==> char_boundary(p, 6)
    }
}

/// Age in whole years at the current `YYMMDD` date `c` (its bytes).
pub open spec fn spec_derive_age(s: Seq<char>, c: Seq<u8>) -> Result<u32, AdapterError> {
    match spec_parse_birth(s) {
        Err(e) => Err(e),
        Ok((by, bm, bd)) => if c.len() != 6 {
            Err(AdapterError::CurrentDateLength)
        } else {
            match field2(c, 0, 65535) {
                None => Err(AdapterError::InvalidCurrentYear),
                Some(cy) => match field2(c, 2, 255) {
                    None => Err(AdapterError::InvalidCurrentMonth),
                    Some(cm) => match field2(c, 4, 255) {
                        None => Err(AdapterError::InvalidCurrentDay),
                        Some(cd) => {
                            let years = full_year(cy as int) - full_year(by as int);
                            Ok(
                                (if cm < bm || (cm == bm && cd < bd) {
                                    sat_sub(years, 1)
                                } else {
                                    years
                                }) as u32,
                            )
                        },
                    },
                },
            }
        },
    }
}

/// The inputs on which age derivation runs without panicking: the dates are
/// cut on character boundaries, and the birth year is not after the current year.
pub open spec fn derive_age_ok(s: Seq<char>, c: Seq<u8>) -> bool {
    &&& birth_cuts_ok(s)
    &&& (spec_parse_birth(s) is Ok && c.len() == 6) ==> {
        &&& char_boundary(c, 2)
        &&& field2(c, 0, 65535) is Some ==> char_boundary(c, 4)
        &&& (field2(c, 0, 65535) is Some && field2(c, 2, 255) is Some && field2(c, 4, 255) is Some)
            ==> full_year(field2(c, 0, 65535)->Some_0 as int) >= full_year(
            spec_parse_birth(s)->Ok_0.0 as int,
        )
    }
}

/// The country code a nationality carries: its value modulo 2^32.
pub open spec fn spec_country_code(s: Seq<char>) -> Result<u32, AdapterError> {
    match spec_parse_biguint(encode_utf8(s)) {
        Some(n) => Ok((n % 0x1_0000_0000) as u32),
        None => Err(AdapterError::InvalidNationality),
    }
}

fn push_zeros(v: &mut Vec<u8>, n: usize)
    ensures
        final(v)@ == old(v)@ + Seq::new(n as nat, |i: int| 48u8),
{
    let ghost start = v@;
    let mut i: usize = 0;
    while i < n
        invariant
            i <= n,
            v@ == start + Seq::new(i as nat, |k: int| 48u8),
        decreases n - i,
    {
        v.push(48u8);
        i = i + 1;
        assert(v@ =~= start + Seq::new(i as nat, |k: int| 48u8));
    }
}

/// Whether byte position `i` of `b` starts a character (or is the end).
fn on_boundary(b: &[u8], i: usize) -> (r: bool)
    requires
        i <= b@.len(),
    ensures
        r == char_boundary(b@, i as int),
{
    i == 0 || i == b.len() || !(128 <= b[i] && b[i] < 192)
}

impl RarimoPublicSignals {
    /// Takes birth date and country from Rarimo query public signals: from
    /// the Phase 2 layout (country: nationality, or citizenship when the
    /// nationality is `"0"`) when there are enough signals, else from the
    /// layout stub.
    pub fn from_query_output(signals: &[String]) -> (r: Result<Self, AdapterError>)
        ensures
            signals@.len() >= RARIMO_PHASE2_PUBLIC_SIGNALS ==> (r matches Ok(p) && {
                let nationality = signals@[RARIMO_PHASE2_NATIONALITY_INDEX as int]@;
                &&& p.birth_date@ == signals@[RARIMO_PHASE2_BIRTH_DATE_INDEX as int]@
                &&& p.nationality@ == if encode_utf8(nationality) == seq![48u8] {
                    signals@[RARIMO_PHASE2_CITIZENSHIP_INDEX as int]@
                } else {
                    nationality
                }
            }),
            RARIMO_LAYOUT_STUB_SIGNALS <= signals@.len() < RARIMO_PHASE2_PUBLIC_SIGNALS ==> (r matches Ok(p) && {
                &&& p.birth_date@ == signals@[RARIMO_LAYOUT_BIRTH_DATE_INDEX as int]@
                &&& p.nationality@ == signals@[RARIMO_LAYOUT_COUNTRY_INDEX as int]@
            }),
            signals@.len() < RARIMO_LAYOUT_STUB_SIGNALS ==> r == Err::<Self, AdapterError>(
                AdapterError::TooFewRarimoSignals { got: signals@.len() as usize },
            ),
    {
        if signals.len() >= RARIMO_PHASE2_PUBLIC_SIGNALS {
            let nationality = &signals[RARIMO_PHASE2_NATIONALITY_INDEX];
            let nb = nationality.as_str().as_bytes();
            let is_zero = nb.len() == 1 && nb[0] == 48;
            assert(is_zero == (nb@ == seq![48u8])) by {
                if nb@.len() == 1 && nb@[0] == 48 {
                    assert(nb@ =~= seq![48u8]);
                }
            }
            let country = if is_zero {
                signals[RARIMO_PHASE2_CITIZENSHIP_INDEX].clone()
            } else {
                nationality.clone()
            };
            Ok(RarimoPublicSignals {
                birth_date: signals[RARIMO_PHASE2_BIRTH_DATE_INDEX].clone(),
                nationality: country,
            })
        } else if signals.len() >= RARIMO_LAYOUT_STUB_SIGNALS {
            Ok(RarimoPublicSignals {
                birth_date: signals[RARIMO_LAYOUT_BIRTH_DATE_INDEX].clone(),
                nationality: signals[RARIMO_LAYOUT_COUNTRY_INDEX].clone(),
            })
        } else {
            Err(AdapterError::TooFewRarimoSignals { got: signals.len() })
        }
    }

    /// The trimmed birth date left-padded with `'0'` to six characters, or
    /// `None` when it is empty or `"0"`.
    fn padded_birth_date(&self) -> (r: Option<Vec<u8>>)
        ensures
            birth_missing(self.birth_date@) <==> r is None,
            r matches Some(p) ==> p@ == padded_birth(self.birth_date@) && p@.len() >= 6,
    {
        let t = str_trim(self.birth_date.as_str());
        let tb = t.as_bytes();
        assert(tb@ == encode_utf8(t@));
        if t.is_empty() || (tb.len() == 1 && tb[0] == 48) {
            proof {
                if tb@.len() == 1 && tb@[0] == 48 {
                    assert(tb@ =~= seq![48u8]);
                }
            }
            return None;
        }
        assert(tb@ != seq![48u8]);
        let mut padded: Vec<u8> = Vec::new();
        if tb.len() < 6 {
            let n = t.unicode_len();
            let pad: usize = if n < 6 {
                6 - n
            } else {
                0
            };
            push_zeros(&mut padded, pad);
        }
        append_bytes(&mut padded, tb);
        proof {
            lemma_utf8_len_at_least_chars(t@);
        }
        assert(padded@ =~= padded_birth(self.birth_date@));
        Some(padded)
    }

    /// The birth date as (year, month, day): trimmed, rejected when empty or
    /// `"0"`, left-padded with zeros to six characters, then read as `YYMMDD`.
    pub fn parse_birth_date_yymmdd(&self) -> (r: Result<(u16, u8, u8), AdapterError>)
        requires
            birth_cuts_ok(self.birth_date@),
        ensures
            r == spec_parse_birth(self.birth_date@),
    {
        let padded = match self.padded_birth_date() {
            Some(p) => p,
            None => {
                return Err(AdapterError::EmptyBirthDate);
            },
        };
        let year = match parse_unsigned_in(padded.as_slice(), 0, 2, 65535) {
            Some(y) => y as u16,
            None => {
                return Err(AdapterError::InvalidBirthYear);
            },
        };
        let month = match parse_unsigned_in(padded.as_slice(), 2, 4, 255) {
            Some(m) => m as u8,
            None => {
                return Err(AdapterError::InvalidBirthMonth);
            },
        };
        let day = match parse_unsigned_in(padded.as_slice(), 4, 6, 255) {
            Some(d) => d as u8,
            None => {
                return Err(AdapterError::InvalidBirthDay);
            },
        };
        Ok((year, month, day))
    }

    /// Whether the birth date and `current_date_yymmdd` can be read without
    /// panicking: every cut falls on a character boundary and the birth year
    /// is not after the current year.
    pub fn age_derivation_defined(&self, current_date_yymmdd: &str) -> (r: bool)
        ensures
            r == derive_age_ok(self.birth_date@, current_date_yymmdd.spec_bytes()),
    {
        let padded = match self.padded_birth_date() {
            Some(p) => p,
            None => {
                return true;
            },
        };
        let p = padded.as_slice();
        if !on_boundary(p, 2) {
            return false;
        }
        let year = match parse_unsigned_in(p, 0, 2, 65535) {
            Some(y) => y,
            None => {
                return true;
            },
        };
        if !on_boundary(p, 4) {
            return false;
        }
        if parse_unsigned_in(p, 2, 4, 255).is_none() {
            return true;
        }
        if !on_boundary(p, 6) {
            return false;
        }
        if parse_unsigned_in(p, 4, 6, 255).is_none() {
            return true;
        }
        let c = current_date_yymmdd.as_bytes();
        if c.len() != 6 {
            return true;
        }
        if !on_boundary(c, 2) {
            return false;
        }
        let current = match parse_unsigned_in(c, 0, 2, 65535) {
            Some(y) => y,
            None => {
                return true;
            },
        };
        if !on_boundary(c, 4) {
            return false;
        }
        if parse_unsigned_in(c, 2, 4, 255).is_none() || parse_unsigned_in(c, 4, 6, 255).is_none() {
            return true;
        }
        assert(year <= 99 && current <= 99) by {
            lemma_two_bytes_at_most_99(p@.subrange(0, 2), 65535);
            lemma_two_bytes_at_most_99(c@.subrange(0, 2), 65535);
        }
        let birth_full: u64 = if year <= 50 {
            2000 + year
        } else {
            1900 + year
        };
        let current_full: u64 = if current <= 50 {
            2000 + current
        } else {
            1900 + current
        };
        current_full >= birth_full
    }

    /// Age in whole years at `current_date_yymmdd` (six bytes, `YYMMDD`); a
    /// two-digit year up to 50 is 20xx, later ones 19xx.
    pub fn derive_age(&self, current_date_yymmdd: &str) -> (r: Result<u32, AdapterError>)
        requires
            derive_age_ok(self.birth_date@, current_date_yymmdd.spec_bytes()),
        ensures
            r == spec_derive_age(self.birth_date@, current_date_yymmdd.spec_bytes()),
    {
        let (birth_yy, birth_mm, birth_dd) = self.parse_birth_date_yymmdd()?;
        let c = current_date_yymmdd.as_bytes();
        if c.len() != 6 {
            return Err(AdapterError::CurrentDateLength);
        }
        let current_yy = match parse_unsigned_in(c, 0, 2, 65535) {
            Some(y) => y as u16,
            None => {
                return Err(AdapterError::InvalidCurrentYear);
            },
        };
        let current_mm = match parse_unsigned_in(c, 2, 4, 255) {
            Some(m) => m as u8,
            None => {
                return Err(AdapterError::InvalidCurrentMonth);
            },
        };
        let current_dd = match parse_unsigned_in(c, 4, 6, 255) {
            Some(d) => d as u8,
            None => {
                return Err(AdapterError::InvalidCurrentDay);
            },
        };
        assert(birth_yy <= 99 && current_yy <= 99) by {
            let p = padded_birth(self.birth_date@);
            lemma_two_bytes_at_most_99(p.subrange(0, 2), 65535);
            lemma_two_bytes_at_most_99(c@.subrange(0, 2), 65535);
        }
        let birth_full_year: u16 = if birth_yy <= 50 {
            2000 + birth_yy
        } else {
            1900 + birth_yy
        };
        let current_full_year: u16 = if current_yy <= 50 {
            2000 + current_yy
        } else {
            1900 + current_yy
        };
        let mut age: u32 = (current_full_year as u32) - (birth_full_year as u32);
        if current_mm < birth_mm || (current_mm == birth_mm && current_dd < birth_dd) {
            age = age.saturating_sub(1);
        }
        Ok(age)
    }

    /// The country code: the nationality's decimal value modulo 2^32 (its
    /// last four big-endian bytes).
    pub fn nationality_to_country_code(&self) -> (r: Result<u32, AdapterError>)
        ensures
            r == spec_country_code(self.nationality@),
    {
        let bytes = match decimal_to_be_bytes(self.nationality.as_str()) {
            Some(b) => b,
            None => {
                return Err(AdapterError::InvalidNationality);
            },
        };
        let ghost n = be_value(bytes@);
        let len = bytes.len();
        let start: usize = if len > 4 {
            len - 4
        } else {
            0
        };
        let mut last: Vec<u8> = Vec::new();
        let mut i: usize = start;
        while i < len
            invariant
                start <= i <= len == bytes@.len(),
                last@ == bytes@.subrange(start as int, i as int),
            decreases len - i,
        {
            last.push(bytes[i]);
            i = i + 1;
            assert(last@ =~= bytes@.subrange(start as int, i as int));
        }
        let v = be_u32(last.as_slice());
        proof {
            let p = bytes@.subrange(0, start as int);
            let q = bytes@.subrange(start as int, len as int);
            assert(bytes@ =~= p + q);
            lemma_be_value_concat(p, q);
            lemma_be_value_bound(q);
            reveal_with_fuel(pow256, 5);
            if len > 4 {
                assert(pow256(q.len()) == 0x1_0000_0000);
                let a = be_value(p);
                let b = be_value(q);
                assert((a * 0x1_0000_0000 + b) % 0x1_0000_0000 == b) by (nonlinear_arith)
                    requires
                        b < 0x1_0000_0000,
                ;
            } else {
                assert(p =~= Seq::<u8>::empty());
                assert(be_value(p) == 0);
                assert(0 * pow256(q.len()) == 0) by (nonlinear_arith);
                assert(pow256(q.len()) <= 0x1_0000_0000);
            }
        }
        Ok(v)
    }

    /// The claims for `current_date_yymmdd`: the derived age, the country
    /// code, and humanity (always true).
    pub fn to_wraith_claims(&self, current_date_yymmdd: &str) -> (r: Result<WraithClaims, AdapterError>)
        requires
            derive_age_ok(self.birth_date@, current_date_yymmdd.spec_bytes()),
        ensures
            match spec_derive_age(self.birth_date@, current_date_yymmdd.spec_bytes()) {
                Err(e) => r == Err::<WraithClaims, AdapterError>(e),
                Ok(age) => match spec_country_code(self.nationality@) {
                    Err(e) => r == Err::<WraithClaims, AdapterError>(e),
                    Ok(country_code) => r == Ok::<WraithClaims, AdapterError>(
                        WraithClaims { age, country_code, is_human: true },
                    ),
                },
            },
    {
        let age = self.derive_age(current_date_yymmdd)?;
        let country_code = self.nationality_to_country_code()?;
        Ok(WraithClaims { age, country_code, is_human: true })
    }
}

} // verus!
