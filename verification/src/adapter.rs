//! The proof adapter: snarkjs Groth16 JSON to the host's BN254 encodings,
//! and claims read from public signals.
use vstd::prelude::*;

use vstd::string::{StringExecFns, StringSliceAdditionalSpecFns};
use vstd::utf8::encode_utf8;

use crate::bigint::{
    be_bytes_fixed, be_len, be_value, decimal_to_be_bytes, lemma_be_bytes_fixed_of_value,
    lemma_be_value_zeros, spec_parse_biguint,
};
use crate::error::{AdapterError, ClaimField};
use crate::text::{parse_unsigned, spec_parse_unsigned};

verus! {

/// A JSON value as the adapter reads it; a number keeps its decimal text.
pub enum JsonValue {
    Null,
    Bool(bool),
    Number(String),
    Text(String),
    Array(Vec<JsonValue>),
    Object,
}

/// A snarkjs `proof.json`.
pub struct SnarkProof {
    pub pi_a: JsonValue,
    pub pi_b: JsonValue,
    pub pi_c: JsonValue,
}

/// A snarkjs `verification_key.json`.
pub struct SnarkVerificationKey {
    pub vk_alpha_1: JsonValue,
    pub vk_beta_2: JsonValue,
    pub vk_gamma_2: JsonValue,
    pub vk_delta_2: JsonValue,
    pub ic: JsonValue,
}

/// A proof as `0x`-prefixed hex in the host's BN254 encoding.
pub struct ProofPayload {
    pub a: String,
    pub b: String,
    pub c: String,
}

/// A verification key as `0x`-prefixed hex in the host's BN254 encoding.
pub struct VerificationKeyPayload {
    pub alpha: String,
    pub beta: String,
    pub delta: String,
    pub gamma: String,
    pub ic: Vec<String>,
}

impl VerificationKeyPayload {
    pub fn ic_len(&self) -> (r: usize)
        ensures
            r == self.ic@.len(),
    {
        self.ic.len()
    }
}

/// Claims read from the public signals.
#[derive(Clone, Copy, Debug, PartialEq, Eq, Structural)]
pub struct ClaimsPayload {
    pub age: u32,
    pub country_code: u32,
    pub is_human: bool,
}

/// What the adapter writes out.
pub struct AdapterOutput {
    pub zk_proof: ProofPayload,
    pub verification_key: VerificationKeyPayload,
    pub public_signals_decimals: Vec<String>,
    pub claims: Option<ClaimsPayload>,
}

/// Lowercase hex digit of a nibble.
pub open spec fn hex_digit(n: u8) -> char {
    if n < 10 {
        (48 + n) as char
    } else {
        (87 + n) as char
    }
}

/// Lowercase hex of a byte string, two digits per byte.
pub open spec fn hex_lower(b: Seq<u8>) -> Seq<char>
    decreases b.len(),
{
    if b.len() == 0 {
        Seq::empty()
    } else {
        hex_lower(b.drop_last()) + seq![hex_digit(b.last() / 16), hex_digit(b.last() % 16)]
    }
}

/// `hex::encode`: lowercase hex, two digits per byte.
#[verifier::external_body]
fn hex_encode(data: &[u8]) -> (r: String)
    ensures
        r@ == hex_lower(data@),
{
    hex::encode(data)
}

/// The decimal text of a JSON string or number.
pub open spec fn spec_decimal_text(v: JsonValue) -> Result<Seq<char>, AdapterError> {
    match v {
        JsonValue::Text(s) => Ok(s@),
        JsonValue::Number(n) => Ok(n@),
        _ => Err(AdapterError::NotDecimal),
    }
}

/// The 32-byte big-endian encoding of a decimal integer.
pub open spec fn spec_be32(s: Seq<char>) -> Result<Seq<u8>, AdapterError> {
    match spec_parse_biguint(encode_utf8(s)) {
        None => Err(AdapterError::InvalidDecimal),
        Some(n) => if be_len(n) > 32 {
            Err(AdapterError::IntegerTooLarge)
        } else {
            Ok(be_bytes_fixed(n, 32))
        },
    }
}

/// The 32-byte big-endian encoding of a JSON decimal.
pub open spec fn spec_value_be32(v: JsonValue) -> Result<Seq<u8>, AdapterError> {
    match spec_decimal_text(v) {
        Err(e) => Err(e),
        Ok(t) => spec_be32(t),
    }
}

/// The elements of a JSON array.
pub open spec fn spec_array(v: JsonValue) -> Result<Seq<JsonValue>, AdapterError> {
    match v {
        JsonValue::Array(a) => Ok(a@),
        _ => Err(AdapterError::NotAnArray),
    }
}

/// Two coordinates encoded back to back, the second first when `swap`.
pub open spec fn spec_pair(v: JsonValue, swap: bool) -> Result<Seq<u8>, AdapterError> {
    match spec_array(v) {
        Err(e) => Err(e),
        Ok(a) => if a.len() < 2 {
            Err(AdapterError::TooFewCoordinates { got: a.len() as usize })
        } else {
            match spec_value_be32(a[0]) {
                Err(e) => Err(e),
                Ok(x) => match spec_value_be32(a[1]) {
                    Err(e) => Err(e),
                    Ok(y) => Ok(if swap { y + x } else { x + y }),
                },
            }
        },
    }
}

/// A G1 point `[x, y, ...]`: `be(x) || be(y)`.
pub open spec fn spec_g1_bytes(v: JsonValue) -> Result<Seq<u8>, AdapterError> {
    spec_pair(v, false)
}

/// An Fp2 element `[c0, c1]`: `be(c1) || be(c0)`, the host's order.
pub open spec fn spec_fp2_bytes(v: JsonValue) -> Result<Seq<u8>, AdapterError> {
    spec_pair(v, true)
}

/// A G2 point `[[x0, x1], [y0, y1], ...]`: `fp2(x) || fp2(y)`.
pub open spec fn spec_g2_bytes(v: JsonValue) -> Result<Seq<u8>, AdapterError> {
    match spec_array(v) {
        Err(e) => Err(e),
        Ok(a) => if a.len() < 2 {
            Err(AdapterError::TooFewCoordinates { got: a.len() as usize })
        } else {
            match spec_fp2_bytes(a[0]) {
                Err(e) => Err(e),
                Ok(x) => match spec_fp2_bytes(a[1]) {
                    Err(e) => Err(e),
                    Ok(y) => Ok(x + y),
                },
            }
        },
    }
}

/// `0x` followed by the lowercase hex of the bytes.
pub open spec fn hex_text(b: Seq<u8>) -> Seq<char> {
    seq!['0', 'x'] + hex_lower(b)
}

pub open spec fn spec_hex(r: Result<Seq<u8>, AdapterError>) -> Result<Seq<char>, AdapterError> {
    match r {
        Ok(b) => Ok(hex_text(b)),
        Err(e) => Err(e),
    }
}

/// Each element encoded as a G1 point, or the first element's error.
pub open spec fn spec_all_g1(s: Seq<JsonValue>) -> Result<Seq<Seq<char>>, AdapterError>
    decreases s.len(),
{
    if s.len() == 0 {
        Ok(Seq::empty())
    } else {
        match spec_all_g1(s.drop_last()) {
            Err(e) => Err(e),
            Ok(xs) => match spec_hex(spec_g1_bytes(s.last())) {
                Err(e) => Err(e),
                Ok(x) => Ok(xs.push(x)),
            },
        }
    }
}

/// Each element's decimal text, or the first element's error.
pub open spec fn spec_all_decimal(s: Seq<JsonValue>) -> Result<Seq<Seq<char>>, AdapterError>
    decreases s.len(),
{
    if s.len() == 0 {
        Ok(Seq::empty())
    } else {
        match spec_all_decimal(s.drop_last()) {
            Err(e) => Err(e),
            Ok(xs) => match spec_decimal_text(s.last()) {
                Err(e) => Err(e),
                Ok(x) => Ok(xs.push(x)),
            },
        }
    }
}

proof fn lemma_all_g1_error_prefix(s: Seq<JsonValue>, k: int)
    requires
        0 <= k <= s.len(),
        spec_all_g1(s.subrange(0, k)) is Err,
    ensures
        spec_all_g1(s) == spec_all_g1(s.subrange(0, k)),
    decreases s.len() - k,
{
    if k < s.len() {
        let next = s.subrange(0, k + 1);
        assert(next.drop_last() =~= s.subrange(0, k));
        lemma_all_g1_error_prefix(s, k + 1);
    } else {
        assert(s.subrange(0, k) =~= s);
    }
}

proof fn lemma_all_decimal_error_prefix(s: Seq<JsonValue>, k: int)
    requires
        0 <= k <= s.len(),
        spec_all_decimal(s.subrange(0, k)) is Err,
    ensures
        spec_all_decimal(s) == spec_all_decimal(s.subrange(0, k)),
    decreases s.len() - k,
{
    if k < s.len() {
        let next = s.subrange(0, k + 1);
        assert(next.drop_last() =~= s.subrange(0, k));
        lemma_all_decimal_error_prefix(s, k + 1);
    } else {
        assert(s.subrange(0, k) =~= s);
    }
}

pub open spec fn strings_view(v: Seq<String>) -> Seq<Seq<char>> {
    v.map_values(|s: String| s@)
}

/// The decimal text of a JSON string or number.
pub fn parse_decimal_value(v: &JsonValue) -> (r: Result<String, AdapterError>)
    ensures
        match spec_decimal_text(*v) {
            Ok(t) => r matches Ok(s) && s@ == t,
            Err(e) => r == Err::<String, AdapterError>(e),
        },
{
    match v {
        JsonValue::Text(s) => Ok(s.clone()),
        JsonValue::Number(n) => Ok(n.clone()),
        _ => Err(AdapterError::NotDecimal),
    }
}

/// The elements of a JSON array.
pub fn as_array(v: &JsonValue) -> (r: Result<&Vec<JsonValue>, AdapterError>)
    ensures
        match spec_array(*v) {
            Ok(a) => r matches Ok(x) && x@ == a,
            Err(e) => r == Err::<&Vec<JsonValue>, AdapterError>(e),
        },
{
    match v {
        JsonValue::Array(a) => Ok(a),
        _ => Err(AdapterError::NotAnArray),
    }
}

/// A decimal integer as 32 big-endian bytes, left-padded with zeros.
pub fn decimal_to_be32(s: &str) -> (r: Result<[u8; 32], AdapterError>)
    ensures
        match spec_be32(s@) {
            Ok(b) => r matches Ok(out) && out@ == b,
            Err(e) => r == Err::<[u8; 32], AdapterError>(e),
        },
{
    let bytes = match decimal_to_be_bytes(s) {
        Some(b) => b,
        None => {
            return Err(AdapterError::InvalidDecimal);
        },
    };
    let ghost n = be_value(bytes@);
    if bytes.len() > 32 {
        return Err(AdapterError::IntegerTooLarge);
    }
    let mut out = [0u8; 32];
    let start: usize = 32 - bytes.len();
    let mut i: usize = 0;
    while i < bytes.len()
        invariant
            start + bytes@.len() == 32,
            i <= bytes@.len(),
            forall|j: int| 0 <= j < start ==> out@[j] == 0,
            forall|j: int| 0 <= j < i ==> out@[start + j] == bytes@[j],
        decreases bytes@.len() - i,
    {
        out[start + i] = bytes[i];
        i = i + 1;
    }
    proof {
        let z = Seq::new(start as nat, |j: int| 0u8);
        assert(out@ =~= z + bytes@);
        lemma_be_value_zeros(start as nat, bytes@);
        lemma_be_bytes_fixed_of_value(out@);
    }
    Ok(out)
}

fn value_be32(v: &JsonValue) -> (r: Result<[u8; 32], AdapterError>)
    ensures
        match spec_value_be32(*v) {
            Ok(b) => r matches Ok(out) && out@ == b,
            Err(e) => r == Err::<[u8; 32], AdapterError>(e),
        },
{
    let text = parse_decimal_value(v)?;
    decimal_to_be32(text.as_str())
}

fn concat32(first: &[u8; 32], second: &[u8; 32]) -> (r: [u8; 64])
    ensures
        r@ == first@ + second@,
{
    let mut out = [0u8; 64];
    let mut i: usize = 0;
    while i < 32
        invariant
            i <= 32,
            forall|j: int| 0 <= j < i ==> out@[j] == first@[j] && out@[32 + j] == second@[j],
        decreases 32 - i,
    {
        out[i] = first[i];
        out[32 + i] = second[i];
        i = i + 1;
    }
    assert(out@ =~= first@ + second@);
    out
}

fn pair_bytes(v: &JsonValue, swap: bool) -> (r: Result<[u8; 64], AdapterError>)
    ensures
        match spec_pair(*v, swap) {
            Ok(b) => r matches Ok(out) && out@ == b,
            Err(e) => r == Err::<[u8; 64], AdapterError>(e),
        },
{
    let arr = as_array(v)?;
    if arr.len() < 2 {
        return Err(AdapterError::TooFewCoordinates { got: arr.len() });
    }
    let x = value_be32(&arr[0])?;
    let y = value_be32(&arr[1])?;
    if swap {
        Ok(concat32(&y, &x))
    } else {
        Ok(concat32(&x, &y))
    }
}

/// An Fp2 element `[c0, c1]` in the host's order: `be(c1) || be(c0)`.
pub fn encode_fp2_pair(v: &JsonValue) -> (r: Result<[u8; 64], AdapterError>)
    ensures
        match spec_fp2_bytes(*v) {
            Ok(b) => r matches Ok(out) && out@ == b,
            Err(e) => r == Err::<[u8; 64], AdapterError>(e),
        },
{
    pair_bytes(v, true)
}

fn hex_with_prefix(b: &[u8]) -> (r: String)
    ensures
        r@ == hex_text(b@),
{
    let h = hex_encode(b);
    let prefix = "0x";
    proof {
        reveal_strlit("0x");
    }
    let mut out = <String as StringExecFns>::from_str(prefix);
    out.append(h.as_str());
    out
}

/// A G1 point `[x, y, ...]` as `0x` hex of `be(x) || be(y)`.
pub fn encode_g1(v: &JsonValue) -> (r: Result<String, AdapterError>)
    ensures
        match spec_hex(spec_g1_bytes(*v)) {
            Ok(t) => r matches Ok(s) && s@ == t,
            Err(e) => r == Err::<String, AdapterError>(e),
        },
{
    let bytes = pair_bytes(v, false)?;
    Ok(hex_with_prefix(&bytes))
}

/// A G2 point `[[x0, x1], [y0, y1], ...]` as `0x` hex of `fp2(x) || fp2(y)`.
pub fn encode_g2(v: &JsonValue) -> (r: Result<String, AdapterError>)
    ensures
        match spec_hex(spec_g2_bytes(*v)) {
            Ok(t) => r matches Ok(s) && s@ == t,
            Err(e) => r == Err::<String, AdapterError>(e),
        },
{
    let arr = as_array(v)?;
    if arr.len() < 2 {
        return Err(AdapterError::TooFewCoordinates { got: arr.len() });
    }
    let x = encode_fp2_pair(&arr[0])?;
    let y = encode_fp2_pair(&arr[1])?;
    let mut out: Vec<u8> = Vec::new();
    crate::hashing::append_bytes(&mut out, &x);
    crate::hashing::append_bytes(&mut out, &y);
    Ok(hex_with_prefix(out.as_slice()))
}

/// Every IC point encoded as a G1 point.
pub fn encode_ic(v: &JsonValue) -> (r: Result<Vec<String>, AdapterError>)
    ensures
        match spec_array(*v) {
            Err(e) => r == Err::<Vec<String>, AdapterError>(e),
            Ok(a) => match spec_all_g1(a) {
                Ok(xs) => r matches Ok(out) && strings_view(out@) == xs,
                Err(e) => r == Err::<Vec<String>, AdapterError>(e),
            },
        },
{
    let arr = as_array(v)?;
    let mut out: Vec<String> = Vec::new();
    let mut i: usize = 0;
    while i < arr.len()
        invariant
            i <= arr@.len(),
            spec_array(*v) == Ok::<Seq<JsonValue>, AdapterError>(arr@),
            spec_all_g1(arr@.subrange(0, i as int)) matches Ok(xs) && strings_view(out@) == xs,
        decreases arr@.len() - i,
    {
        let ghost prefix = arr@.subrange(0, i as int);
        let ghost next = arr@.subrange(0, i + 1);
        assert(next.drop_last() =~= prefix);
        assert(next.last() == arr@[i as int]);
        let s = match encode_g1(&arr[i]) {
            Ok(s) => s,
            Err(e) => {
                proof {
                    lemma_all_g1_error_prefix(arr@, i + 1);
                }
                return Err(e);
            },
        };
        let ghost old_out = out@;
        out.push(s);
        i = i + 1;
        assert(strings_view(out@) =~= strings_view(old_out).push(s@));
    }
    assert(arr@.subrange(0, arr@.len() as int) =~= arr@);
    Ok(out)
}

/// The public signals of a snarkjs `public.json`, as decimal text.
pub fn parse_public_signals(v: &JsonValue) -> (r: Result<Vec<String>, AdapterError>)
    ensures
        match spec_array(*v) {
            Err(e) => r == Err::<Vec<String>, AdapterError>(e),
            Ok(a) => match spec_all_decimal(a) {
                Ok(xs) => r matches Ok(out) && strings_view(out@) == xs,
                Err(e) => r == Err::<Vec<String>, AdapterError>(e),
            },
        },
{
    let arr = as_array(v)?;
    let mut out: Vec<String> = Vec::new();
    let mut i: usize = 0;
    while i < arr.len()
        invariant
            i <= arr@.len(),
            spec_array(*v) == Ok::<Seq<JsonValue>, AdapterError>(arr@),
            spec_all_decimal(arr@.subrange(0, i as int)) matches Ok(xs) && strings_view(out@) == xs,
        decreases arr@.len() - i,
    {
        let ghost prefix = arr@.subrange(0, i as int);
        let ghost next = arr@.subrange(0, i + 1);
        assert(next.drop_last() =~= prefix);
        assert(next.last() == arr@[i as int]);
        let s = match parse_decimal_value(&arr[i]) {
            Ok(s) => s,
            Err(e) => {
                proof {
                    lemma_all_decimal_error_prefix(arr@, i + 1);
                }
                return Err(e);
            },
        };
        let ghost old_out = out@;
        out.push(s);
        i = i + 1;
        assert(strings_view(out@) =~= strings_view(old_out).push(s@));
    }
    assert(arr@.subrange(0, arr@.len() as int) =~= arr@);
    Ok(out)
}

/// The bytes of the `i`-th signal.
pub open spec fn signal_bytes(sig: Seq<String>, i: int) -> Seq<u8> {
    encode_utf8(sig[i]@)
}

/// A signal read as a `u32`.
pub open spec fn signal_u32(sig: Seq<String>, i: int) -> Option<nat> {
    spec_parse_unsigned(signal_bytes(sig, i), 0xffff_ffff)
}

/// Claims read from the signals at the given indexes: none when no index is
/// given; all three indexes must be given together and point into the
/// signals; age and country are `u32`s and humanity is 0 or 1.
pub open spec fn spec_derive_claims(
    sig: Seq<String>,
    age_index: Option<usize>,
    country_index: Option<usize>,
    humanity_index: Option<usize>,
) -> Result<Option<ClaimsPayload>, AdapterError> {
    if age_index is None && country_index is None && humanity_index is None {
        Ok(None)
    } else if age_index is None || country_index is None || humanity_index is None {
        Err(AdapterError::PartialClaimIndexes)
    } else {
        let (a, c, h) = (age_index->0 as int, country_index->0 as int, humanity_index->0 as int);
        let len = sig.len() as usize;
        if a >= sig.len() {
            Err(AdapterError::SignalIndexOutOfBounds { field: ClaimField::Age, len })
        } else if c >= sig.len() {
            Err(AdapterError::SignalIndexOutOfBounds { field: ClaimField::Country, len })
        } else if h >= sig.len() {
            Err(AdapterError::SignalIndexOutOfBounds { field: ClaimField::Humanity, len })
        } else {
            match signal_u32(sig, a) {
                None => Err(AdapterError::InvalidAgeSignal),
                Some(age) => match signal_u32(sig, c) {
                    None => Err(AdapterError::InvalidCountrySignal),
                    Some(country) => match signal_u32(sig, h) {
                        None => Err(AdapterError::InvalidHumanitySignal),
                        Some(hv) => if hv == 0 || hv == 1 {
                            Ok(
                                Some(
                                    ClaimsPayload {
                                        age: age as u32,
                                        country_code: country as u32,
                                        is_human: hv == 1,
                                    },
                                ),
                            )
                        } else {
                            Err(AdapterError::HumanityNotBinary { value: hv as u32 })
                        },
                    },
                },
            }
        }
    }
}

/// The signal at `idx`, for the claim `field`.
pub fn read_signal(signals: &[String], idx: usize, field: ClaimField) -> (r: Result<&String, AdapterError>)
    ensures
        idx < signals@.len() ==> (r matches Ok(s) && *s == signals@[idx as int]),
        idx >= signals@.len() ==> r == Err::<&String, AdapterError>(
            AdapterError::SignalIndexOutOfBounds { field, len: signals@.len() as usize },
        ),
{
    if idx < signals.len() {
        Ok(&signals[idx])
    } else {
        Err(AdapterError::SignalIndexOutOfBounds { field, len: signals.len() })
    }
}

fn parse_u32_signal(s: &String) -> (r: Option<u32>)
    ensures
        match spec_parse_unsigned(encode_utf8(s@), 0xffff_ffff) {
            Some(v) => r == Some(v as u32),
            None => r is None,
        },
{
    match parse_unsigned(s.as_str().as_bytes(), 0xffff_ffff) {
        Some(v) => Some(v as u32),
        None => None,
    }
}

/// Claims read from the public signals at the given indexes.
pub fn derive_claims(
    public_signals_decimals: &[String],
    age_index: Option<usize>,
    country_index: Option<usize>,
    humanity_index: Option<usize>,
) -> (r: Result<Option<ClaimsPayload>, AdapterError>)
    ensures
        r == spec_derive_claims(public_signals_decimals@, age_index, country_index, humanity_index),
{
    if age_index.is_none() && country_index.is_none() && humanity_index.is_none() {
        return Ok(None);
    }
    let (a, c, h) = match (age_index, country_index, humanity_index) {
        (Some(a), Some(c), Some(h)) => (a, c, h),
        _ => {
            return Err(AdapterError::PartialClaimIndexes);
        },
    };
    let age_raw = read_signal(public_signals_decimals, a, ClaimField::Age)?;
    let country_raw = read_signal(public_signals_decimals, c, ClaimField::Country)?;
    let humanity_raw = read_signal(public_signals_decimals, h, ClaimField::Humanity)?;
    let age = match parse_u32_signal(age_raw) {
        Some(v) => v,
        None => {
            return Err(AdapterError::InvalidAgeSignal);
        },
    };
    let country_code = match parse_u32_signal(country_raw) {
        Some(v) => v,
        None => {
            return Err(AdapterError::InvalidCountrySignal);
        },
    };
    let humanity_num = match parse_u32_signal(humanity_raw) {
        Some(v) => v,
        None => {
            return Err(AdapterError::InvalidHumanitySignal);
        },
    };
    let is_human = if humanity_num == 0 {
        false
    } else if humanity_num == 1 {
        true
    } else {
        return Err(AdapterError::HumanityNotBinary { value: humanity_num });
    };
    Ok(Some(ClaimsPayload { age, country_code, is_human }))
}

/// Why an adapter output is rejected, if it is.
pub open spec fn spec_output_error(ic_len: nat, signals_len: nat, claims: Option<ClaimsPayload>) -> Option<
    AdapterError,
> {
    if ic_len == 0 {
        Some(AdapterError::EmptyIc)
    } else if signals_len == 0 {
        Some(AdapterError::EmptyPublicSignals)
    } else {
        match claims {
            Some(c) => if c.age == 0 {
                Some(AdapterError::ZeroAge)
            } else if c.country_code == 0 {
                Some(AdapterError::ZeroCountryCode)
            } else {
                None
            },
            None => None,
        }
    }
}

/// Rejects outputs with no IC points, no public signals, or claims with a
/// zero age or country code.
pub fn validate_output(output: &AdapterOutput) -> (r: Result<(), AdapterError>)
    ensures
        match spec_output_error(
            output.verification_key.ic@.len(),
            output.public_signals_decimals@.len(),
            output.claims,
        ) {
            Some(e) => r == Err::<(), AdapterError>(e),
            None => r is Ok,
        },
{
    if output.verification_key.ic_len() == 0 {
        return Err(AdapterError::EmptyIc);
    }
    if output.public_signals_decimals.len() == 0 {
        return Err(AdapterError::EmptyPublicSignals);
    }
    if let Some(claims) = &output.claims {
        if claims.age == 0 {
            return Err(AdapterError::ZeroAge);
        }
        if claims.country_code == 0 {
            return Err(AdapterError::ZeroCountryCode);
        }
    }
    Ok(())
}

/// Every IC point of a JSON array encoded as a G1 point.
pub open spec fn spec_ic(v: JsonValue) -> Result<Seq<Seq<char>>, AdapterError> {
    match spec_array(v) {
        Err(e) => Err(e),
        Ok(a) => spec_all_g1(a),
    }
}

/// The error of an encoding, if it failed.
pub open spec fn err_of<T>(r: Result<T, AdapterError>) -> Option<AdapterError> {
    match r {
        Ok(_) => None,
        Err(e) => Some(e),
    }
}

/// Why the output cannot be assembled, if it cannot: the first point that
/// fails to encode, in the order `pi_a`, `pi_b`, `pi_c`, alpha, beta, gamma,
/// delta, IC; else why the assembled output is rejected.
pub open spec fn assembly_error(
    proof: SnarkProof,
    vk: SnarkVerificationKey,
    signals_len: nat,
    claims: Option<ClaimsPayload>,
) -> Option<AdapterError> {
    if err_of(spec_g1_bytes(proof.pi_a)) is Some {
        err_of(spec_g1_bytes(proof.pi_a))
    } else if err_of(spec_g2_bytes(proof.pi_b)) is Some {
        err_of(spec_g2_bytes(proof.pi_b))
    } else if err_of(spec_g1_bytes(proof.pi_c)) is Some {
        err_of(spec_g1_bytes(proof.pi_c))
    } else if err_of(spec_g1_bytes(vk.vk_alpha_1)) is Some {
        err_of(spec_g1_bytes(vk.vk_alpha_1))
    } else if err_of(spec_g2_bytes(vk.vk_beta_2)) is Some {
        err_of(spec_g2_bytes(vk.vk_beta_2))
    } else if err_of(spec_g2_bytes(vk.vk_gamma_2)) is Some {
        err_of(spec_g2_bytes(vk.vk_gamma_2))
    } else if err_of(spec_g2_bytes(vk.vk_delta_2)) is Some {
        err_of(spec_g2_bytes(vk.vk_delta_2))
    } else if err_of(spec_ic(vk.ic)) is Some {
        err_of(spec_ic(vk.ic))
    } else {
        spec_output_error(spec_ic(vk.ic)->Ok_0.len(), signals_len, claims)
    }
}

/// The adapter's output: the proof and verification key in the host's BN254
/// encoding, with the given public signals and claims, once validated.
pub fn assemble_output(
    proof: &SnarkProof,
    vk: &SnarkVerificationKey,
    public_signals_decimals: Vec<String>,
    claims: Option<ClaimsPayload>,
) -> (r: Result<AdapterOutput, AdapterError>)
    ensures
        match assembly_error(*proof, *vk, public_signals_decimals@.len(), claims) {
            Some(e) => r == Err::<AdapterOutput, AdapterError>(e),
            None => r matches Ok(out) && {
                &&& out.zk_proof.a@ == hex_text(spec_g1_bytes(proof.pi_a)->Ok_0)
                &&& out.zk_proof.b@ == hex_text(spec_g2_bytes(proof.pi_b)->Ok_0)
                &&& out.zk_proof.c@ == hex_text(spec_g1_bytes(proof.pi_c)->Ok_0)
                &&& out.verification_key.alpha@ == hex_text(spec_g1_bytes(vk.vk_alpha_1)->Ok_0)
                &&& out.verification_key.beta@ == hex_text(spec_g2_bytes(vk.vk_beta_2)->Ok_0)
                &&& out.verification_key.gamma@ == hex_text(spec_g2_bytes(vk.vk_gamma_2)->Ok_0)
                &&& out.verification_key.delta@ == hex_text(spec_g2_bytes(vk.vk_delta_2)->Ok_0)
                &&& strings_view(out.verification_key.ic@) == spec_ic(vk.ic)->Ok_0
                &&& out.public_signals_decimals@ == public_signals_decimals@
                &&& out.claims == claims
            },
        },
{
    let a = encode_g1(&proof.pi_a)?;
    let b = encode_g2(&proof.pi_b)?;
    let c = encode_g1(&proof.pi_c)?;
    let alpha = encode_g1(&vk.vk_alpha_1)?;
    let beta = encode_g2(&vk.vk_beta_2)?;
    let gamma = encode_g2(&vk.vk_gamma_2)?;
    let delta = encode_g2(&vk.vk_delta_2)?;
    let ic = encode_ic(&vk.ic)?;
    let output = AdapterOutput {
        zk_proof: ProofPayload { a, b, c },
        verification_key: VerificationKeyPayload { alpha, beta, delta, gamma, ic },
        public_signals_decimals,
        claims,
    };
    validate_output(&output)?;
    Ok(output)
}

} // verus!
