//! The registry's records: application policies, verification keys, proofs,
//! verification records and the events the registry publishes.
use vstd::prelude::*;

use crate::claims::ClaimLayout;
use crate::types::{copy_slice, Address, Hash32, Symbol};

verus! {

/// Maximum excluded ISO country codes per app policy (gas griefing guard).
pub const MAX_EXCLUDED_COUNTRIES: usize = 32;

/// What an application requires of the identities it accepts.
#[derive(Clone, Debug, PartialEq, Eq)]
pub struct AppPolicy {
    pub owner: Address,
    pub min_age: u32,
    pub require_humanity: bool,
    pub sanctions_root: Hash32,
    pub excluded_countries: Vec<u32>,
    pub expiration_window: u32,
    pub sanctions_enabled: bool,
    pub claim_layout: ClaimLayout,
}

/// The value of an [`AppPolicy`].
pub struct AppPolicyView {
    pub owner: Seq<u8>,
    pub min_age: u32,
    pub require_humanity: bool,
    pub sanctions_root: Hash32,
    pub excluded_countries: Seq<u32>,
    pub expiration_window: u32,
    pub sanctions_enabled: bool,
    pub claim_layout: ClaimLayout,
}

impl View for AppPolicy {
    type V = AppPolicyView;

    open spec fn view(&self) -> AppPolicyView {
        AppPolicyView {
            owner: self.owner@,
            min_age: self.min_age,
            require_humanity: self.require_humanity,
            sanctions_root: self.sanctions_root,
            excluded_countries: self.excluded_countries@,
            expiration_window: self.expiration_window,
            sanctions_enabled: self.sanctions_enabled,
            claim_layout: self.claim_layout,
        }
    }
}

impl AppPolicy {
    pub fn duplicate(&self) -> (r: AppPolicy)
        ensures
            r@ == self@,
    {
        AppPolicy {
            owner: self.owner.duplicate(),
            min_age: self.min_age,
            require_humanity: self.require_humanity,
            sanctions_root: self.sanctions_root,
            excluded_countries: copy_slice(self.excluded_countries.as_slice()),
            expiration_window: self.expiration_window,
            sanctions_enabled: self.sanctions_enabled,
            claim_layout: self.claim_layout,
        }
    }
}

/// A Groth16 verification key; points in the host's BN254 encoding
/// (G1: 64 bytes, G2: 128 bytes).
#[derive(Clone, Debug, PartialEq, Eq)]
pub struct VerificationKey {
    pub alpha: [u8; 64],
    pub beta: [u8; 128],
    pub gamma: [u8; 128],
    pub delta: [u8; 128],
    pub ic: Vec<[u8; 64]>,
}

/// A Groth16 proof in the host's BN254 encoding.
#[derive(Clone, Copy, Debug, PartialEq, Eq)]
pub struct Proof {
    pub a: [u8; 64],
    pub b: [u8; 128],
    pub c: [u8; 64],
}

/// How a verification was established.
#[derive(Clone, Copy, Debug, PartialEq, Eq)]
pub enum VerificationSource {
    OnchainGroth16,
    AttestedProver(Hash32),
}

/// A subject's verification for an application.
#[derive(Clone, Debug, PartialEq, Eq)]
pub struct VerificationRecord {
    pub app_id: Symbol,
    pub subject: Address,
    pub nullifier: Hash32,
    pub public_inputs_hash: Hash32,
    pub verified_ledger: u32,
    pub source: VerificationSource,
    pub age: u32,
    pub country_code: u32,
    pub is_human: bool,
}

/// The value of a [`VerificationRecord`].
pub struct RecordView {
    pub app_id: Seq<u8>,
    pub subject: Seq<u8>,
    pub nullifier: Hash32,
    pub public_inputs_hash: Hash32,
    pub verified_ledger: u32,
    pub source: VerificationSource,
    pub age: u32,
    pub country_code: u32,
    pub is_human: bool,
}

impl View for VerificationRecord {
    type V = RecordView;

    open spec fn view(&self) -> RecordView {
        RecordView {
            app_id: self.app_id@,
            subject: self.subject@,
            nullifier: self.nullifier,
            public_inputs_hash: self.public_inputs_hash,
            verified_ledger: self.verified_ledger,
            source: self.source,
            age: self.age,
            country_code: self.country_code,
            is_human: self.is_human,
        }
    }
}

impl VerificationRecord {
    pub fn duplicate(&self) -> (r: VerificationRecord)
        ensures
            r@ == self@,
    {
        VerificationRecord {
            app_id: self.app_id.duplicate(),
            subject: self.subject.duplicate(),
            nullifier: self.nullifier,
            public_inputs_hash: self.public_inputs_hash,
            verified_ledger: self.verified_ledger,
            source: self.source,
            age: self.age,
            country_code: self.country_code,
            is_human: self.is_human,
        }
    }
}

/// Published when the registry is initialised.
#[derive(Clone, Debug, PartialEq, Eq)]
pub struct Initialized {
    pub admin: Address,
    pub prover: Address,
}

/// Published when an application registers.
#[derive(Clone, Debug, PartialEq, Eq)]
pub struct AppRegistered {
    pub app_id: Symbol,
    pub owner: Address,
}

/// Published when an application's policy is replaced.
#[derive(Clone, Debug, PartialEq, Eq)]
pub struct AppUpdated {
    pub app_id: Symbol,
    pub owner: Address,
}

/// Published when an application is revoked.
#[derive(Clone, Debug, PartialEq, Eq)]
pub struct AppRevoked {
    pub app_id: Symbol,
    pub owner: Address,
}

/// Published when the attesting prover changes.
#[derive(Clone, Debug, PartialEq, Eq)]
pub struct ProverUpdated {
    pub previous: Address,
    pub current: Address,
}

/// Published when a verification is recorded.
#[derive(Clone, Debug, PartialEq, Eq)]
pub struct VerificationRecorded {
    pub app_id: Symbol,
    pub subject: Address,
    pub nullifier: Hash32,
    pub source: VerificationSource,
}

/// An event the registry publishes.
#[derive(Clone, Debug, PartialEq, Eq)]
pub enum ContractEvent {
    Initialized(Initialized),
    AppRegistered(AppRegistered),
    AppUpdated(AppUpdated),
    AppRevoked(AppRevoked),
    ProverUpdated(ProverUpdated),
    VerificationRecorded(VerificationRecorded),
}

/// The value of a [`ContractEvent`].
pub enum EventView {
    Initialized { admin: Seq<u8>, prover: Seq<u8> },
    AppRegistered { app_id: Seq<u8>, owner: Seq<u8> },
    AppUpdated { app_id: Seq<u8>, owner: Seq<u8> },
    AppRevoked { app_id: Seq<u8>, owner: Seq<u8> },
    ProverUpdated { previous: Seq<u8>, current: Seq<u8> },
    VerificationRecorded { app_id: Seq<u8>, subject: Seq<u8>, nullifier: Hash32, source: VerificationSource },
}

impl View for ContractEvent {
    type V = EventView;

    open spec fn view(&self) -> EventView {
        match self {
            ContractEvent::Initialized(e) => EventView::Initialized { admin: e.admin@, prover: e.prover@ },
            ContractEvent::AppRegistered(e) => EventView::AppRegistered {
                app_id: e.app_id@,
                owner: e.owner@,
            },
            ContractEvent::AppUpdated(e) => EventView::AppUpdated { app_id: e.app_id@, owner: e.owner@ },
            ContractEvent::AppRevoked(e) => EventView::AppRevoked { app_id: e.app_id@, owner: e.owner@ },
            ContractEvent::ProverUpdated(e) => EventView::ProverUpdated {
                previous: e.previous@,
                current: e.current@,
            },
            ContractEvent::VerificationRecorded(e) => EventView::VerificationRecorded {
                app_id: e.app_id@,
                subject: e.subject@,
                nullifier: e.nullifier,
                source: e.source,
            },
        }
    }
}

} // verus!
