use vstd::prelude::*;

verus! {

/// Errors returned by the identity registry.
#[derive(Copy, Clone, Debug, PartialEq, Eq, Structural)]
pub enum IdentityError {
    AlreadyInitialized,
    NotInitialized,
    Unauthorized,
    AppNotFound,
    MalformedVerifyingKey,
    InvalidProof,
    NullifierAlreadyUsed,
    PolicyViolation,
    SubjectAlreadyVerified,
    AppAlreadyRegistered,
    AppOwnerMismatch,
    VkNotRegistered,
    VkMismatch,
    PublicInputsHashMismatch,
    AppNotApproved,
    VerificationExpired,
    SanctionsCheckFailed,
    ClaimMismatch,
    AttestationHashMismatch,
    ExcludedCountriesLimit,
    InsufficientPublicSignals,
    CurrentDateMismatch,
    /// A point of the verification key or proof is not a BN254 point the
    /// host accepts.
    MalformedPoint,
}

/// The claim a public-signal index is given for.
#[derive(Clone, Copy, Debug, PartialEq, Eq, Structural)]
pub enum ClaimField {
    Age,
    Country,
    Humanity,
}

/// Errors of the proof adapter: malformed public signals, dates, claim
/// indexes, JSON shapes and payloads.
#[derive(Clone, Debug, PartialEq, Eq)]
pub enum AdapterError {
    /// A Rarimo query output holds fewer than the layout stub's signals.
    TooFewRarimoSignals { got: usize },
    /// The birth date is empty or zero.
    EmptyBirthDate,
    InvalidBirthYear,
    InvalidBirthMonth,
    InvalidBirthDay,
    /// The current date is not six bytes (`YYMMDD`).
    CurrentDateLength,
    InvalidCurrentYear,
    InvalidCurrentMonth,
    InvalidCurrentDay,
    /// The nationality is not a decimal number.
    InvalidNationality,
    /// The claim indexes were neither all given nor all omitted.
    PartialClaimIndexes,
    /// A claim index points past the end of the public signals.
    SignalIndexOutOfBounds { field: ClaimField, len: usize },
    InvalidAgeSignal,
    InvalidCountrySignal,
    InvalidHumanitySignal,
    /// The humanity signal is neither 0 nor 1.
    HumanityNotBinary { value: u32 },
    /// The verification key has no IC points.
    EmptyIc,
    EmptyPublicSignals,
    ZeroAge,
    ZeroCountryCode,
    /// A JSON value that should be an array is not.
    NotAnArray,
    /// A point or field pair has fewer than two coordinates.
    TooFewCoordinates { got: usize },
    /// A JSON value that should be a decimal string or number is not.
    NotDecimal,
    /// A decimal integer is malformed.
    InvalidDecimal,
    /// A decimal integer does not fit in 32 bytes.
    IntegerTooLarge,
}

} // verus!
