//! The identity registry: application policies, approvals, app-scoped
//! nullifiers and verification records, as a state machine.
//!
//! Each operation returns an [`Outcome`]: its result, the addresses whose
//! authorization it demanded (in order, before reaching its result) and the
//! event it publishes. A failed operation leaves the registry unchanged.
use vstd::prelude::*;

use soroban_sdk::Env;

use crate::claims::{derive_from_signals, spec_derive, sat_sub, verify_match, AttestedClaims};
use crate::crypto::{bytes32_to_xdr, sha256, spec_sha256};
use crate::hashing::{
    append_all, append_bytes, attestation_preimage, claims_preimage, pub_signals_preimage,
    push_u32_be, push_u32_le, vk_preimage,
};
use crate::error::IdentityError;
use crate::model::{
    AppPolicy, AppPolicyView, AppRegistered, AppRevoked, AppUpdated, ContractEvent, EventView,
    Initialized, Proof, ProverUpdated, RecordView, VerificationKey, VerificationRecord,
    VerificationRecorded, VerificationSource, MAX_EXCLUDED_COUNTRIES,
};
use crate::store::{KeyView, Store, StoreParts};
use crate::types::{Address, Hash32, Scalar, Symbol};
use crate::bn254::{groth16_points_check, groth16_points_valid, spec_groth16_valid, verify_groth16};

verus! {

/// The abstract state of the registry.
#[verifier::ext_equal]
pub struct RegistryView {
    pub admin: Option<Seq<u8>>,
    pub prover: Option<Seq<u8>>,
    pub policies: Map<Seq<u8>, AppPolicyView>,
    pub vk_hashes: Map<Seq<u8>, Hash32>,
    pub approved: Set<Seq<u8>>,
    pub approval_required: bool,
    /// Used nullifiers, as (app id, nullifier) pairs.
    pub nullifiers: Set<(Seq<u8>, Seq<u8>)>,
    /// Verification records, keyed by (app id, subject).
    pub records: Map<(Seq<u8>, Seq<u8>), RecordView>,
}

/// What an operation returned, whose authorization it demanded, and the event
/// it published.
pub struct Outcome<T> {
    pub result: Result<T, IdentityError>,
    pub auths: Vec<Address>,
    pub event: Option<ContractEvent>,
}

impl<T> Outcome<T> {
    /// The addresses whose authorization the operation demanded.
    pub open spec fn signers(self) -> Seq<Seq<u8>> {
        self.auths@.map_values(|a: Address| a@)
    }

    /// The event the operation published.
    pub open spec fn published(self) -> Option<EventView> {
        match self.event {
            Some(e) => Some(e@),
            None => None,
        }
    }
}

pub open spec fn opt_view(a: Option<Address>) -> Option<Seq<u8>> {
    match a {
        Some(x) => Some(x@),
        None => None,
    }
}

/// The store key of an application: its id, and an empty second part.
pub open spec fn app_key(app: Seq<u8>) -> KeyView {
    (app, Seq::empty())
}

/// Why a policy cannot be registered: sanctions screening cannot be enabled
/// yet, and the excluded-country list is bounded.
pub open spec fn registration_error(p: AppPolicyView) -> Option<IdentityError> {
    if p.sanctions_enabled {
        Some(IdentityError::SanctionsCheckFailed)
    } else if p.excluded_countries.len() > MAX_EXCLUDED_COUNTRIES {
        Some(IdentityError::ExcludedCountriesLimit)
    } else {
        None
    }
}

/// Why `register_app` fails, if it does.
pub open spec fn register_app_error(s: RegistryView, app: Seq<u8>, p: AppPolicyView) -> Option<IdentityError> {
    if s.admin is None {
        Some(IdentityError::NotInitialized)
    } else if s.policies.contains_key(app) {
        Some(IdentityError::AppAlreadyRegistered)
    } else if s.approval_required && !s.approved.contains(app) {
        Some(IdentityError::AppNotApproved)
    } else {
        registration_error(p)
    }
}

/// Why `update_app_policy` fails, if it does.
pub open spec fn update_app_error(s: RegistryView, app: Seq<u8>, p: AppPolicyView) -> Option<IdentityError> {
    if s.admin is None {
        Some(IdentityError::NotInitialized)
    } else if s.approval_required && !s.approved.contains(app) {
        Some(IdentityError::AppNotApproved)
    } else if !s.policies.contains_key(app) {
        Some(IdentityError::AppNotFound)
    } else if s.policies[app].owner != p.owner {
        Some(IdentityError::AppOwnerMismatch)
    } else {
        registration_error(p)
    }
}

/// The registry with `p` stored as the policy of `app`, and `vk` (if given)
/// as its verification-key hash.
pub open spec fn with_policy(s: RegistryView, app: Seq<u8>, p: AppPolicyView, vk: Option<Hash32>) -> RegistryView {
    RegistryView {
        policies: s.policies.insert(app, p),
        vk_hashes: match vk {
            Some(h) => s.vk_hashes.insert(app, h),
            None => s.vk_hashes,
        },
        ..s
    }
}

/// The registry with `app`'s policy, verification-key hash and approval
/// removed; its records and nullifiers stay.
pub open spec fn without_app(s: RegistryView, app: Seq<u8>) -> RegistryView {
    RegistryView {
        policies: s.policies.remove(app),
        vk_hashes: s.vk_hashes.remove(app),
        approved: s.approved.remove(app),
        ..s
    }
}

/// The registry once initialised with `admin` and `prover`.
pub open spec fn with_admin(s: RegistryView, admin: Seq<u8>, prover: Seq<u8>) -> RegistryView {
    RegistryView { admin: Some(admin), prover: Some(prover), ..s }
}

/// The registry with `prover` as its attesting prover.
pub open spec fn with_prover(s: RegistryView, prover: Seq<u8>) -> RegistryView {
    RegistryView { prover: Some(prover), ..s }
}

/// The registry with the admin's approval of `app` granted or withdrawn.
pub open spec fn with_approval(s: RegistryView, app: Seq<u8>, approved: bool) -> RegistryView {
    RegistryView {
        approved: if approved {
            s.approved.insert(app)
        } else {
            s.approved.remove(app)
        },
        ..s
    }
}

/// The registry with approval of applications required or not.
pub open spec fn with_approval_mode(s: RegistryView, required: bool) -> RegistryView {
    RegistryView { approval_required: required, ..s }
}

/// The changes a registry operation can make to the state: none (reads and
/// failures), initialisation of an uninitialised registry, a new prover,
/// storing a policy under an app that is unregistered or keeps its owner,
/// revoking an app, an approval decision, the approval mode, or recording a
/// verification whose nullifier has not been used for its app.
pub open spec fn transition(s: RegistryView, t: RegistryView) -> bool {
    ||| t == s
    ||| (s.admin is None && exists|a: Seq<u8>, p: Seq<u8>| t == #[trigger] with_admin(s, a, p))
    ||| (s.admin is Some && exists|p: Seq<u8>| t == #[trigger] with_prover(s, p))
    ||| exists|app: Seq<u8>, p: AppPolicyView, vk: Option<Hash32>|
        (!s.policies.contains_key(app) || s.policies[app].owner == p.owner) && t
            == #[trigger] with_policy(s, app, p, vk)
    ||| exists|app: Seq<u8>| t == #[trigger] without_app(s, app)
    ||| exists|app: Seq<u8>, b: bool| t == #[trigger] with_approval(s, app, b)
    ||| exists|b: bool| t == #[trigger] with_approval_mode(s, b)
    ||| exists|r: RecordView|
        !s.nullifiers.contains((r.app_id, r.nullifier@)) && t == #[trigger] with_record(s, r)
}

/// Whether the claims break the policy: too young, not human when humanity
/// is required, or from an excluded country.
pub open spec fn policy_violation(p: AppPolicyView, c: AttestedClaims) -> bool {
    ||| c.age < p.min_age
    ||| (p.require_humanity && !c.is_human)
    ||| p.excluded_countries.contains(c.country_code)
}

/// Whether `subject` already holds a live verification for `app`: a record
/// exists and either records never expire (`window == 0`) or fewer than
/// `window` ledgers have passed since it was made.
pub open spec fn subject_verified(s: RegistryView, app: Seq<u8>, subject: Seq<u8>, window: u32, ledger: u32) -> bool {
    &&& s.records.contains_key((app, subject))
    &&& (window == 0 || sat_sub(ledger as int, s.records[(app, subject)].verified_ledger as int) <= window)
}

/// Whether `subject`'s record for `app` is visible at `ledger`: the record
/// exists, the app is registered, and the record has not expired under the
/// app's current policy.
pub open spec fn record_visible(s: RegistryView, app: Seq<u8>, subject: Seq<u8>, ledger: u32) -> bool {
    &&& s.policies.contains_key(app)
    &&& subject_verified(s, app, subject, s.policies[app].expiration_window, ledger)
}

/// The registry with `r` recorded: its nullifier burned for its app, and the
/// record stored for its (app, subject).
pub open spec fn with_record(s: RegistryView, r: RecordView) -> RegistryView {
    RegistryView {
        nullifiers: s.nullifiers.insert((r.app_id, r.nullifier@)),
        records: s.records.insert((r.app_id, r.subject), r),
        ..s
    }
}

/// The record a verification creates.
pub open spec fn new_record(
    app: Seq<u8>,
    subject: Seq<u8>,
    nullifier: Hash32,
    public_inputs_hash: Hash32,
    ledger: u32,
    source: VerificationSource,
    c: AttestedClaims,
) -> RecordView {
    RecordView {
        app_id: app,
        subject,
        nullifier,
        public_inputs_hash,
        verified_ledger: ledger,
        source,
        age: c.age,
        country_code: c.country_code,
        is_human: c.is_human,
    }
}

/// Why `record_attested_result` fails, if it does.
pub open spec fn attested_error(
    s: RegistryView,
    prover: Seq<u8>,
    app: Seq<u8>,
    subject: Seq<u8>,
    nullifier: Hash32,
    public_inputs_hash: Hash32,
    attestation_hash: Hash32,
    claims: AttestedClaims,
    ledger: u32,
) -> Option<IdentityError> {
    if s.admin is None {
        Some(IdentityError::NotInitialized)
    } else if s.prover != Some(prover) {
        Some(IdentityError::Unauthorized)
    } else if public_inputs_hash@ != spec_sha256(claims_preimage(claims)) {
        Some(IdentityError::PublicInputsHashMismatch)
    } else if attestation_hash@ != spec_sha256(
        attestation_preimage(prover, app, subject, nullifier@, public_inputs_hash@),
    ) {
        Some(IdentityError::AttestationHashMismatch)
    } else if !s.policies.contains_key(app) {
        Some(IdentityError::AppNotFound)
    } else if policy_violation(s.policies[app], claims) {
        Some(IdentityError::PolicyViolation)
    } else if s.policies[app].sanctions_enabled {
        Some(IdentityError::SanctionsCheckFailed)
    } else if s.nullifiers.contains((app, nullifier@)) {
        Some(IdentityError::NullifierAlreadyUsed)
    } else if subject_verified(s, app, subject, s.policies[app].expiration_window, ledger) {
        Some(IdentityError::SubjectAlreadyVerified)
    } else {
        None
    }
}

/// Why `verify_and_record` fails before the pairing check, if it does.
pub open spec fn groth16_error(
    s: RegistryView,
    app: Seq<u8>,
    subject: Seq<u8>,
    nullifier: Hash32,
    public_inputs_hash: Hash32,
    vk: VerificationKey,
    signals: Seq<Scalar>,
    current_date_ymd: u32,
    claims: AttestedClaims,
    ledger: u32,
) -> Option<IdentityError> {
    if s.admin is None {
        Some(IdentityError::NotInitialized)
    } else if !s.policies.contains_key(app) {
        Some(IdentityError::AppNotFound)
    } else if s.nullifiers.contains((app, nullifier@)) {
        Some(IdentityError::NullifierAlreadyUsed)
    } else if subject_verified(s, app, subject, s.policies[app].expiration_window, ledger) {
        Some(IdentityError::SubjectAlreadyVerified)
    } else if signals.len() + 1 != vk.ic@.len() {
        Some(IdentityError::MalformedVerifyingKey)
    } else if signals.len() < 3 {
        Some(IdentityError::InsufficientPublicSignals)
    } else if public_inputs_hash@ != spec_sha256(pub_signals_preimage(signals, current_date_ymd)) {
        Some(IdentityError::PublicInputsHashMismatch)
    } else if spec_derive(signals, s.policies[app].claim_layout, current_date_ymd) is Err {
        Some(spec_derive(signals, s.policies[app].claim_layout, current_date_ymd)->Err_0)
    } else if spec_derive(signals, s.policies[app].claim_layout, current_date_ymd)->Ok_0 != claims {
        Some(IdentityError::ClaimMismatch)
    } else if policy_violation(s.policies[app], claims) {
        Some(IdentityError::PolicyViolation)
    } else if s.policies[app].sanctions_enabled {
        Some(IdentityError::SanctionsCheckFailed)
    } else if !s.vk_hashes.contains_key(app) {
        Some(IdentityError::VkNotRegistered)
    } else if s.vk_hashes[app]@ != spec_sha256(vk_preimage(vk)) {
        Some(IdentityError::VkMismatch)
    } else {
        None
    }
}

/// Why an on-chain Groth16 verification fails, if it does: a check before
/// the pairing, a point of the key or proof that the host rejects, or a
/// pairing that does not hold.
pub open spec fn groth16_failure(
    s: RegistryView,
    app: Seq<u8>,
    subject: Seq<u8>,
    nullifier: Hash32,
    public_inputs_hash: Hash32,
    vk: VerificationKey,
    zk_proof: Proof,
    signals: Seq<Scalar>,
    current_date_ymd: u32,
    claims: AttestedClaims,
    ledger: u32,
) -> Option<IdentityError> {
    match groth16_error(
        s,
        app,
        subject,
        nullifier,
        public_inputs_hash,
        vk,
        signals,
        current_date_ymd,
        claims,
        ledger,
    ) {
        Some(e) => Some(e),
        None => if !groth16_points_valid(vk, zk_proof) {
            Some(IdentityError::MalformedPoint)
        } else if !spec_groth16_valid(vk, zk_proof, signals) {
            Some(IdentityError::InvalidProof)
        } else {
            None
        },
    }
}

/// The identity registry.
pub struct StellarIdentityCore {
    admin: Option<Address>,
    prover: Option<Address>,
    policies: Store<AppPolicy>,
    vk_hashes: Store<Hash32>,
    approved: Store<()>,
    approval_required: bool,
    nullifiers: Store<()>,
    records: Store<VerificationRecord>,
}

/// The registry that stores holding these maps describe.
pub open spec fn registry_of(
    admin: Option<Address>,
    prover: Option<Address>,
    approval_required: bool,
    policies: Map<KeyView, AppPolicy>,
    vk_hashes: Map<KeyView, Hash32>,
    approved: Map<KeyView, ()>,
    nullifiers: Map<KeyView, ()>,
    records: Map<KeyView, VerificationRecord>,
) -> RegistryView {
    RegistryView {
        admin: opt_view(admin),
        prover: opt_view(prover),
        policies: Map::new(
            |app: Seq<u8>| policies.contains_key(app_key(app)),
            |app: Seq<u8>| policies[app_key(app)]@,
        ),
        vk_hashes: Map::new(
            |app: Seq<u8>| vk_hashes.contains_key(app_key(app)),
            |app: Seq<u8>| vk_hashes[app_key(app)],
        ),
        approved: Set::new(|app: Seq<u8>| approved.contains_key(app_key(app))),
        approval_required,
        nullifiers: nullifiers.dom(),
        records: Map::new(|k: KeyView| records.contains_key(k), |k: KeyView| records[k]@),
    }
}

/// The registry's contents as plain entries, for keeping it between calls.
pub struct RegistryEntries {
    pub admin: Option<Address>,
    pub prover: Option<Address>,
    pub approval_required: bool,
    pub policies: StoreParts<AppPolicy>,
    pub vk_hashes: StoreParts<Hash32>,
    pub approved: StoreParts<()>,
    pub nullifiers: StoreParts<()>,
    pub records: StoreParts<VerificationRecord>,
}

/// The registry the entries describe.
pub open spec fn entries_view(e: RegistryEntries) -> RegistryView {
    registry_of(
        e.admin,
        e.prover,
        e.approval_required,
        e.policies.spelled(),
        e.vk_hashes.spelled(),
        e.approved.spelled(),
        e.nullifiers.spelled(),
        e.records.spelled(),
    )
}

impl View for StellarIdentityCore {
    type V = RegistryView;

    closed spec fn view(&self) -> RegistryView {
        registry_of(
            self.admin,
            self.prover,
            self.approval_required,
            self.policies.view(),
            self.vk_hashes.view(),
            self.approved.view(),
            self.nullifiers.view(),
            self.records.view(),
        )
    }
}

fn no_bytes() -> (v: Vec<u8>)
    ensures
        v@ == Seq::<u8>::empty(),
{
    Vec::new()
}

fn no_auths() -> (v: Vec<Address>)
    ensures
        v@.map_values(|a: Address| a@) == Seq::<Seq<u8>>::empty(),
{
    let v: Vec<Address> = Vec::new();
    assert(v@.map_values(|a: Address| a@) =~= Seq::<Seq<u8>>::empty());
    v
}

fn one_auth(a: &Address) -> (v: Vec<Address>)
    ensures
        v@.map_values(|x: Address| x@) == seq![a@],
{
    let mut v: Vec<Address> = Vec::new();
    v.push(a.duplicate());
    assert(v@.map_values(|x: Address| x@) =~= seq![a@]);
    v
}

fn two_auths(a: &Address, b: &Address) -> (v: Vec<Address>)
    ensures
        v@.map_values(|x: Address| x@) == seq![a@, b@],
{
    let mut v: Vec<Address> = Vec::new();
    v.push(a.duplicate());
    v.push(b.duplicate());
    assert(v@.map_values(|x: Address| x@) =~= seq![a@, b@]);
    v
}

fn failed<T>(e: IdentityError, auths: Vec<Address>) -> (o: Outcome<T>)
    ensures
        o.result == Err::<T, IdentityError>(e),
        o.auths == auths,
        o.event is None,
{
    Outcome { result: Err(e), auths, event: None }
}

impl StellarIdentityCore {
    /// The internal invariant: every store is well formed, and the admin and
    /// prover are set together.
    pub closed spec fn wf(&self) -> bool {
        &&& self.policies.wf()
        &&& self.vk_hashes.wf()
        &&& self.approved.wf()
        &&& self.nullifiers.wf()
        &&& self.records.wf()
        &&& self.admin.is_some() == self.prover.is_some()
        &&& self.vk_hashes.view().dom().subset_of(self.policies.view().dom())
    }

    /// Every stored verification-key hash belongs to a registered app.
    pub proof fn lemma_key_hashes_belong_to_apps(&self)
        requires
            self.wf(),
        ensures
            self@.vk_hashes.dom().subset_of(self@.policies.dom()),
    {
        assert forall|app: Seq<u8>| self@.vk_hashes.dom().contains(app) implies self@.policies.dom().contains(app) by {
            assert(self.vk_hashes.view().contains_key(app_key(app)));
        }
    }

    /// An empty, uninitialised registry.
    pub fn new() -> (s: Self)
        ensures
            s.wf(),
            s@.admin is None,
            s@.prover is None,
            s@.policies == Map::<Seq<u8>, AppPolicyView>::empty(),
            s@.vk_hashes == Map::<Seq<u8>, Hash32>::empty(),
            s@.approved == Set::<Seq<u8>>::empty(),
            !s@.approval_required,
            s@.nullifiers == Set::<(Seq<u8>, Seq<u8>)>::empty(),
            s@.records == Map::<(Seq<u8>, Seq<u8>), RecordView>::empty(),
    {
        let s = StellarIdentityCore {
            admin: None,
            prover: None,
            policies: Store::new(),
            vk_hashes: Store::new(),
            approved: Store::new(),
            approval_required: false,
            nullifiers: Store::new(),
            records: Store::new(),
        };
        assert(s@.policies =~= Map::<Seq<u8>, AppPolicyView>::empty());
        assert(s@.vk_hashes =~= Map::<Seq<u8>, Hash32>::empty());
        assert(s@.approved =~= Set::<Seq<u8>>::empty());
        assert(s@.nullifiers =~= Set::<(Seq<u8>, Seq<u8>)>::empty());
        assert(s@.records =~= Map::<(Seq<u8>, Seq<u8>), RecordView>::empty());
        s
    }

    /// The registry's contents as plain entries.
    pub fn into_entries(self) -> (e: RegistryEntries)
        requires
            self.wf(),
        ensures
            entries_view(e) == self@,
            e.admin.is_some() == e.prover.is_some(),
            e.vk_hashes.spelled().dom().subset_of(e.policies.spelled().dom()),
    {
        RegistryEntries {
            admin: self.admin,
            prover: self.prover,
            approval_required: self.approval_required,
            policies: self.policies.into_parts(),
            vk_hashes: self.vk_hashes.into_parts(),
            approved: self.approved.into_parts(),
            nullifiers: self.nullifiers.into_parts(),
            records: self.records.into_parts(),
        }
    }

    /// The registry the entries describe (a later entry replacing an earlier
    /// one with the same key); `None` when only one of admin and prover is
    /// set, or a key hash is stored for an app without a policy.
    pub fn from_entries(e: RegistryEntries) -> (r: Option<Self>)
        ensures
            r is None <==> (e.admin.is_some() != e.prover.is_some()
                || !e.vk_hashes.spelled().dom().subset_of(e.policies.spelled().dom())),
            r matches Some(s) ==> s.wf() && s@ == entries_view(e),
    {
        if e.admin.is_some() != e.prover.is_some() {
            return None;
        }
        let policies = Store::from_parts(e.policies);
        let vk_hashes = Store::from_parts(e.vk_hashes);
        if !vk_hashes.keys_within(&policies) {
            return None;
        }
        Some(
            StellarIdentityCore {
                admin: e.admin,
                prover: e.prover,
                policies,
                vk_hashes,
                approved: Store::from_parts(e.approved),
                approval_required: e.approval_required,
                nullifiers: Store::from_parts(e.nullifiers),
                records: Store::from_parts(e.records),
            },
        )
    }

    /// Sets the admin and the attesting prover, once; the admin must authorize.
    pub fn init(&mut self, admin: Address, prover: Address) -> (o: Outcome<()>)
        requires
            old(self).wf(),
        ensures
            final(self).wf(),
            transition(old(self)@, final(self)@),
            old(self)@.admin is Some ==> {
                &&& o.result == Err::<(), IdentityError>(IdentityError::AlreadyInitialized)
                &&& final(self)@ == old(self)@
                &&& o.signers() == Seq::<Seq<u8>>::empty()
                &&& o.published() is None
            },
            old(self)@.admin is None ==> {
                &&& o.result == Ok::<(), IdentityError>(())
                &&& final(self)@ == with_admin(old(self)@, admin@, prover@)
                &&& o.signers() == seq![admin@]
                &&& o.published() == Some(EventView::Initialized { admin: admin@, prover: prover@ })
            },
    {
        if self.admin.is_some() {
            return failed(IdentityError::AlreadyInitialized, no_auths());
        }
        let auths = one_auth(&admin);
        let event = ContractEvent::Initialized(
            Initialized { admin: admin.duplicate(), prover: prover.duplicate() },
        );
        self.admin = Some(admin);
        self.prover = Some(prover);
        Outcome { result: Ok(()), auths, event: Some(event) }
    }

    /// Replaces the attesting prover; the admin must authorize.
    pub fn set_prover(&mut self, new_prover: Address) -> (o: Outcome<()>)
        requires
            old(self).wf(),
        ensures
            final(self).wf(),
            transition(old(self)@, final(self)@),
            old(self)@.admin is None ==> {
                &&& o.result == Err::<(), IdentityError>(IdentityError::NotInitialized)
                &&& final(self)@ == old(self)@
                &&& o.signers() == Seq::<Seq<u8>>::empty()
                &&& o.published() is None
            },
            old(self)@.admin is Some ==> {
                &&& o.result == Ok::<(), IdentityError>(())
                &&& final(self)@ == with_prover(old(self)@, new_prover@)
                &&& o.signers() == seq![old(self)@.admin->Some_0]
                &&& o.published() == Some(
                    EventView::ProverUpdated {
                        previous: old(self)@.prover->Some_0,
                        current: new_prover@,
                    },
                )
            },
    {
        let auths = match &self.admin {
            Some(a) => one_auth(a),
            None => {
                return failed(IdentityError::NotInitialized, no_auths());
            },
        };
        let previous = match &self.prover {
            Some(p) => p.duplicate(),
            None => {
                return failed(IdentityError::NotInitialized, auths);
            },
        };
        let event = ContractEvent::ProverUpdated(
            ProverUpdated { previous, current: new_prover.duplicate() },
        );
        self.prover = Some(new_prover);
        Outcome { result: Ok(()), auths, event: Some(event) }
    }

    /// The admin, once initialised.
    pub fn get_admin(&self) -> (r: Result<Address, IdentityError>)
        requires
            self.wf(),
        ensures
            match r {
                Ok(a) => self@.admin == Some(a@),
                Err(e) => self@.admin is None && e == IdentityError::NotInitialized,
            },
    {
        match &self.admin {
            Some(a) => Ok(a.duplicate()),
            None => Err(IdentityError::NotInitialized),
        }
    }

    /// The attesting prover, once initialised.
    pub fn get_prover(&self) -> (r: Result<Address, IdentityError>)
        requires
            self.wf(),
        ensures
            match r {
                Ok(a) => self@.prover == Some(a@),
                Err(e) => self@.prover is None && e == IdentityError::NotInitialized,
            },
    {
        match &self.prover {
            Some(a) => Ok(a.duplicate()),
            None => Err(IdentityError::NotInitialized),
        }
    }

    /// Registers `app_id` with `policy` (and optionally the hash of its
    /// verification key); the policy's owner must authorize.
    pub fn register_app(&mut self, app_id: Symbol, policy: AppPolicy, vk_hash: Option<Hash32>) -> (o: Outcome<
        AppPolicy,
    >)
        requires
            old(self).wf(),
        ensures
            final(self).wf(),
            transition(old(self)@, final(self)@),
            match register_app_error(old(self)@, app_id@, policy@) {
                Some(e) => {
                    &&& o.result == Err::<AppPolicy, IdentityError>(e)
                    &&& final(self)@ == old(self)@
                    &&& o.signers() == Seq::<Seq<u8>>::empty()
                    &&& o.published() is None
                },
                None => {
                    &&& o.result matches Ok(p) && p@ == policy@
                    &&& final(self)@ == with_policy(old(self)@, app_id@, policy@, vk_hash)
                    &&& o.signers() == seq![policy.owner@]
                    &&& o.published() == Some(
                        EventView::AppRegistered { app_id: app_id@, owner: policy.owner@ },
                    )
                },
            },
    {
        if self.admin.is_none() {
            return failed(IdentityError::NotInitialized, no_auths());
        }
        let e = no_bytes();
        if self.policies.contains(app_id.xdr.as_slice(), e.as_slice()) {
            return failed(IdentityError::AppAlreadyRegistered, no_auths());
        }
        if self.approval_required && !self.approved.contains(app_id.xdr.as_slice(), e.as_slice()) {
            return failed(IdentityError::AppNotApproved, no_auths());
        }
        if let Err(err) = validate_policy_registration(&policy) {
            return failed(err, no_auths());
        }
        let auths = one_auth(&policy.owner);
        self.store_policy(&app_id, &policy, vk_hash);
        let event = ContractEvent::AppRegistered(
            AppRegistered { app_id: app_id.duplicate(), owner: policy.owner.duplicate() },
        );
        Outcome { result: Ok(policy), auths, event: Some(event) }
    }

    /// Replaces the policy of a registered `app_id` (and optionally the hash of
    /// its verification key); the owner cannot change and must authorize.
    pub fn update_app_policy(&mut self, app_id: Symbol, policy: AppPolicy, vk_hash: Option<Hash32>) -> (o:
        Outcome<AppPolicy>)
        requires
            old(self).wf(),
        ensures
            final(self).wf(),
            transition(old(self)@, final(self)@),
            match update_app_error(old(self)@, app_id@, policy@) {
                Some(e) => {
                    &&& o.result == Err::<AppPolicy, IdentityError>(e)
                    &&& final(self)@ == old(self)@
                    &&& o.signers() == Seq::<Seq<u8>>::empty()
                    &&& o.published() is None
                },
                None => {
                    &&& o.result matches Ok(p) && p@ == policy@
                    &&& final(self)@ == with_policy(old(self)@, app_id@, policy@, vk_hash)
                    &&& o.signers() == seq![policy.owner@]
                    &&& o.published() == Some(
                        EventView::AppUpdated { app_id: app_id@, owner: policy.owner@ },
                    )
                },
            },
    {
        if self.admin.is_none() {
            return failed(IdentityError::NotInitialized, no_auths());
        }
        let e = no_bytes();
        if self.approval_required && !self.approved.contains(app_id.xdr.as_slice(), e.as_slice()) {
            return failed(IdentityError::AppNotApproved, no_auths());
        }
        match self.policies.get(app_id.xdr.as_slice(), e.as_slice()) {
            None => {
                return failed(IdentityError::AppNotFound, no_auths());
            },
            Some(current) => {
                if !current.owner.same_as(&policy.owner) {
                    return failed(IdentityError::AppOwnerMismatch, no_auths());
                }
            },
        }
        if let Err(err) = validate_policy_registration(&policy) {
            return failed(err, no_auths());
        }
        let auths = one_auth(&policy.owner);
        self.store_policy(&app_id, &policy, vk_hash);
        let event = ContractEvent::AppUpdated(
            AppUpdated { app_id: app_id.duplicate(), owner: policy.owner.duplicate() },
        );
        Outcome { result: Ok(policy), auths, event: Some(event) }
    }

    fn store_policy(&mut self, app_id: &Symbol, policy: &AppPolicy, vk_hash: Option<Hash32>)
        requires
            old(self).wf(),
        ensures
            final(self).wf(),
            final(self)@ == with_policy(old(self)@, app_id@, policy@, vk_hash),
    {
        let ghost old_view = self@;
        let e = no_bytes();
        self.policies.insert(app_id.xdr.as_slice(), e.as_slice(), policy.duplicate());
        if let Some(h) = vk_hash {
            self.vk_hashes.insert(app_id.xdr.as_slice(), e.as_slice(), h);
        }
        assert(self@.policies =~= old_view.policies.insert(app_id@, policy@));
        assert(self@.vk_hashes =~= (match vk_hash {
            Some(h) => old_view.vk_hashes.insert(app_id@, h),
            None => old_view.vk_hashes,
        }));
        assert(self@.approved =~= old_view.approved);
        assert(self@ =~= with_policy(old_view, app_id@, policy@, vk_hash));
    }

    /// Removes a registered `app_id`'s policy, verification-key hash and
    /// approval; its records and nullifiers stay. The owner must authorize.
    pub fn revoke_app(&mut self, app_id: Symbol) -> (o: Outcome<AppPolicy>)
        requires
            old(self).wf(),
        ensures
            final(self).wf(),
            transition(old(self)@, final(self)@),
            old(self)@.admin is None ==> {
                &&& o.result == Err::<AppPolicy, IdentityError>(IdentityError::NotInitialized)
                &&& final(self)@ == old(self)@
                &&& o.signers() == Seq::<Seq<u8>>::empty()
                &&& o.published() is None
            },
            old(self)@.admin is Some && !old(self)@.policies.contains_key(app_id@) ==> {
                &&& o.result == Err::<AppPolicy, IdentityError>(IdentityError::AppNotFound)
                &&& final(self)@ == old(self)@
                &&& o.signers() == Seq::<Seq<u8>>::empty()
                &&& o.published() is None
            },
            old(self)@.admin is Some && old(self)@.policies.contains_key(app_id@) ==> {
                let owner = old(self)@.policies[app_id@].owner;
                &&& o.result matches Ok(p) && p@ == old(self)@.policies[app_id@]
                &&& final(self)@ == without_app(old(self)@, app_id@)
                &&& o.signers() == seq![owner]
                &&& o.published() == Some(EventView::AppRevoked { app_id: app_id@, owner })
            },
    {
        if self.admin.is_none() {
            return failed(IdentityError::NotInitialized, no_auths());
        }
        let e = no_bytes();
        let policy = match self.policies.get(app_id.xdr.as_slice(), e.as_slice()) {
            None => {
                return failed(IdentityError::AppNotFound, no_auths());
            },
            Some(p) => p.duplicate(),
        };
        let auths = one_auth(&policy.owner);
        let ghost old_view = self@;
        self.policies.remove(app_id.xdr.as_slice(), e.as_slice());
        self.vk_hashes.remove(app_id.xdr.as_slice(), e.as_slice());
        self.approved.remove(app_id.xdr.as_slice(), e.as_slice());
        assert(self@.policies =~= old_view.policies.remove(app_id@));
        assert(self@.vk_hashes =~= old_view.vk_hashes.remove(app_id@));
        assert(self@.approved =~= old_view.approved.remove(app_id@));
        assert(self@ =~= without_app(old_view, app_id@));
        let event = ContractEvent::AppRevoked(
            AppRevoked { app_id: app_id.duplicate(), owner: policy.owner.duplicate() },
        );
        Outcome { result: Ok(policy), auths, event: Some(event) }
    }

    /// The policy registered for `app_id`, if any.
    pub fn get_policy(&self, app_id: &Symbol) -> (r: Option<AppPolicy>)
        requires
            self.wf(),
        ensures
            match r {
                Some(p) => self@.policies.contains_key(app_id@) && p@ == self@.policies[app_id@],
                None => !self@.policies.contains_key(app_id@),
            },
    {
        let e = no_bytes();
        match self.policies.get(app_id.xdr.as_slice(), e.as_slice()) {
            Some(p) => Some(p.duplicate()),
            None => None,
        }
    }

    /// Whether `app_id` has a registered policy.
    pub fn is_app_registered(&self, app_id: &Symbol) -> (r: bool)
        requires
            self.wf(),
        ensures
            r == self@.policies.contains_key(app_id@),
    {
        let e = no_bytes();
        self.policies.contains(app_id.xdr.as_slice(), e.as_slice())
    }

    /// The verification-key hash registered for `app_id`, if any.
    pub fn get_vk_hash(&self, app_id: &Symbol) -> (r: Option<Hash32>)
        requires
            self.wf(),
        ensures
            match r {
                Some(h) => self@.vk_hashes.contains_key(app_id@) && h == self@.vk_hashes[app_id@],
                None => !self@.vk_hashes.contains_key(app_id@),
            },
    {
        let e = no_bytes();
        match self.vk_hashes.get(app_id.xdr.as_slice(), e.as_slice()) {
            Some(h) => Some(*h),
            None => None,
        }
    }

    /// Grants or withdraws the admin's approval of `app_id`; the admin must authorize.
    pub fn set_app_approval(&mut self, app_id: Symbol, approved: bool) -> (o: Outcome<()>)
        requires
            old(self).wf(),
        ensures
            final(self).wf(),
            transition(old(self)@, final(self)@),
            o.published() is None,
            old(self)@.admin is None ==> {
                &&& o.result == Err::<(), IdentityError>(IdentityError::NotInitialized)
                &&& final(self)@ == old(self)@
                &&& o.signers() == Seq::<Seq<u8>>::empty()
            },
            old(self)@.admin is Some ==> {
                &&& o.result == Ok::<(), IdentityError>(())
                &&& final(self)@ == with_approval(old(self)@, app_id@, approved)
                &&& o.signers() == seq![old(self)@.admin->Some_0]
            },
    {
        let auths = match &self.admin {
            Some(a) => one_auth(a),
            None => {
                return failed(IdentityError::NotInitialized, no_auths());
            },
        };
        let ghost old_view = self@;
        let e = no_bytes();
        if approved {
            self.approved.insert(app_id.xdr.as_slice(), e.as_slice(), ());
            assert(self@.approved =~= old_view.approved.insert(app_id@));
        } else {
            self.approved.remove(app_id.xdr.as_slice(), e.as_slice());
            assert(self@.approved =~= old_view.approved.remove(app_id@));
        }
        assert(self@.policies =~= old_view.policies);
        assert(self@.vk_hashes =~= old_view.vk_hashes);
        Outcome { result: Ok(()), auths, event: None }
    }

    /// Whether the admin has approved `app_id`.
    pub fn is_approved_app(&self, app_id: &Symbol) -> (r: bool)
        requires
            self.wf(),
        ensures
            r == self@.approved.contains(app_id@),
    {
        let e = no_bytes();
        self.approved.contains(app_id.xdr.as_slice(), e.as_slice())
    }

    /// Turns on or off the requirement that applications be approved before
    /// they register or update; the admin must authorize.
    pub fn set_approval_mode(&mut self, required: bool) -> (o: Outcome<()>)
        requires
            old(self).wf(),
        ensures
            final(self).wf(),
            transition(old(self)@, final(self)@),
            o.published() is None,
            old(self)@.admin is None ==> {
                &&& o.result == Err::<(), IdentityError>(IdentityError::NotInitialized)
                &&& final(self)@ == old(self)@
                &&& o.signers() == Seq::<Seq<u8>>::empty()
            },
            old(self)@.admin is Some ==> {
                &&& o.result == Ok::<(), IdentityError>(())
                &&& final(self)@ == with_approval_mode(old(self)@, required)
                &&& o.signers() == seq![old(self)@.admin->Some_0]
            },
    {
        let auths = match &self.admin {
            Some(a) => one_auth(a),
            None => {
                return failed(IdentityError::NotInitialized, no_auths());
            },
        };
        self.approval_required = required;
        Outcome { result: Ok(()), auths, event: None }
    }
    /// Verifies a Groth16 proof on chain and records it: the subject must
    /// authorize; the app must be registered; the nullifier unused and the
    /// subject without a live record; the key must have one IC point per signal
    /// plus one; the public-inputs hash must be the SHA-256 of the signals (and
    /// the current date when bound); the claims derived from the signals must be
    /// the supplied claims and satisfy the policy; the key must hash to the
    /// registered key hash; its points and the proof's must be valid BN254
    /// points; and the pairing equation must hold.
    pub fn verify_and_record(
        &mut self,
        env: &Env,
        ledger_sequence: u32,
        app_id: Symbol,
        subject: Address,
        nullifier: Hash32,
        public_inputs_hash: Hash32,
        vk: VerificationKey,
        zk_proof: Proof,
        pub_signals: Vec<Scalar>,
        current_date_ymd: u32,
        claims: AttestedClaims,
    ) -> (o: Outcome<VerificationRecord>)
        requires
            old(self).wf(),
        ensures
            final(self).wf(),
            transition(old(self)@, final(self)@),
            old(self)@.admin is None ==> o.signers() == Seq::<Seq<u8>>::empty(),
            old(self)@.admin is Some ==> o.signers() == seq![subject@],
            match groth16_failure(
                old(self)@,
                app_id@,
                subject@,
                nullifier,
                public_inputs_hash,
                vk,
                zk_proof,
                pub_signals@,
                current_date_ymd,
                claims,
                ledger_sequence,
            ) {
                Some(e) => {
                    &&& o.result matches Err(x) && x == e
                    &&& final(self)@ == old(self)@
                    &&& o.published() is None
                },
                None => {
                    let r = new_record(
                        app_id@,
                        subject@,
                        nullifier,
                        public_inputs_hash,
                        ledger_sequence,
                        VerificationSource::OnchainGroth16,
                        claims,
                    );
                    &&& o.result matches Ok(x) && x@ == r
                    &&& final(self)@ == with_record(old(self)@, r)
                    &&& o.published() == Some(
                        EventView::VerificationRecorded {
                            app_id: app_id@,
                            subject: subject@,
                            nullifier,
                            source: VerificationSource::OnchainGroth16,
                        },
                    )
                },
            },
    {
        if self.admin.is_none() {
            return failed(IdentityError::NotInitialized, no_auths());
        }
        let auths = one_auth(&subject);
        let e = no_bytes();
        let policy = match self.policies.get(app_id.xdr.as_slice(), e.as_slice()) {
            Some(p) => p,
            None => {
                return failed(IdentityError::AppNotFound, auths);
            },
        };
        if self.nullifiers.contains(app_id.xdr.as_slice(), &nullifier) {
            return failed(IdentityError::NullifierAlreadyUsed, auths);
        }
        if self.subject_is_verified(&app_id, &subject, policy.expiration_window, ledger_sequence) {
            return failed(IdentityError::SubjectAlreadyVerified, auths);
        }
        if vk.ic.len() == 0 || pub_signals.len() != vk.ic.len() - 1 {
            return failed(IdentityError::MalformedVerifyingKey, auths);
        }
        if pub_signals.len() < 3 {
            return failed(IdentityError::InsufficientPublicSignals, auths);
        }
        let computed = Self::pub_signals_digest(env, &pub_signals, current_date_ymd);
        if !crate::types::bytes_equal(&public_inputs_hash, &computed) {
            return failed(IdentityError::PublicInputsHashMismatch, auths);
        }
        let derived = match derive_from_signals(&pub_signals, &policy.claim_layout, current_date_ymd) {
            Ok(c) => c,
            Err(err) => {
                return failed(err, auths);
            },
        };
        if let Err(err) = verify_match(&derived, &claims) {
            return failed(err, auths);
        }
        if let Err(err) = validate_policy(policy, &derived) {
            return failed(err, auths);
        }
        if policy.sanctions_enabled {
            return failed(IdentityError::SanctionsCheckFailed, auths);
        }
        let stored_vk_hash = match self.vk_hashes.get(app_id.xdr.as_slice(), e.as_slice()) {
            Some(h) => *h,
            None => {
                return failed(IdentityError::VkNotRegistered, auths);
            },
        };
        let computed_vk_hash = Self::vk_digest(env, &vk);
        if !crate::types::bytes_equal(&stored_vk_hash, &computed_vk_hash) {
            return failed(IdentityError::VkMismatch, auths);
        }
        if !groth16_points_check(env, &vk, &zk_proof) {
            return failed(IdentityError::MalformedPoint, auths);
        }
        if !verify_groth16(env, &vk, &zk_proof, &pub_signals) {
            return failed(IdentityError::InvalidProof, auths);
        }
        let record = VerificationRecord {
            app_id,
            subject,
            nullifier,
            public_inputs_hash,
            verified_ledger: ledger_sequence,
            source: VerificationSource::OnchainGroth16,
            age: derived.age,
            country_code: derived.country_code,
            is_human: derived.is_human,
        };
        let o = self.finalize_verification(record);
        Outcome { result: o.result, auths, event: o.event }
    }

    /// Records a verification attested by the configured prover: prover and
    /// subject must authorize; the public-inputs hash must be the hash of the
    /// claims and the attestation hash must bind prover, app, subject,
    /// nullifier and that hash; the app must be registered and its policy
    /// satisfied; the nullifier unused and the subject without a live record.
    pub fn record_attested_result(
        &mut self,
        env: &Env,
        ledger_sequence: u32,
        prover: Address,
        app_id: Symbol,
        subject: Address,
        nullifier: Hash32,
        public_inputs_hash: Hash32,
        attestation_hash: Hash32,
        claims: AttestedClaims,
    ) -> (o: Outcome<VerificationRecord>)
        requires
            old(self).wf(),
        ensures
            final(self).wf(),
            transition(old(self)@, final(self)@),
            old(self)@.admin is None ==> o.signers() == Seq::<Seq<u8>>::empty(),
            old(self)@.admin is Some ==> o.signers() == seq![prover@, subject@],
            match attested_error(
                old(self)@,
                prover@,
                app_id@,
                subject@,
                nullifier,
                public_inputs_hash,
                attestation_hash,
                claims,
                ledger_sequence,
            ) {
                Some(e) => {
                    &&& o.result matches Err(x) && x == e
                    &&& final(self)@ == old(self)@
                    &&& o.published() is None
                },
                None => {
                    let r = new_record(
                        app_id@,
                        subject@,
                        nullifier,
                        public_inputs_hash,
                        ledger_sequence,
                        VerificationSource::AttestedProver(attestation_hash),
                        claims,
                    );
                    &&& o.result matches Ok(x) && x@ == r
                    &&& final(self)@ == with_record(old(self)@, r)
                    &&& o.published() == Some(
                        EventView::VerificationRecorded {
                            app_id: app_id@,
                            subject: subject@,
                            nullifier,
                            source: VerificationSource::AttestedProver(attestation_hash),
                        },
                    )
                },
            },
    {
        if self.admin.is_none() {
            return failed(IdentityError::NotInitialized, no_auths());
        }
        let auths = two_auths(&prover, &subject);
        let configured = match &self.prover {
            Some(p) => p,
            None => {
                return failed(IdentityError::NotInitialized, auths);
            },
        };
        if !prover.same_as(configured) {
            return failed(IdentityError::Unauthorized, auths);
        }
        let computed_claims_hash = Self::hash_attested_claims(env, claims);
        if !crate::types::bytes_equal(&public_inputs_hash, &computed_claims_hash) {
            return failed(IdentityError::PublicInputsHashMismatch, auths);
        }
        let expected = Self::attestation_digest(
            env,
            &prover,
            &app_id,
            &subject,
            &nullifier,
            &public_inputs_hash,
        );
        if !crate::types::bytes_equal(&attestation_hash, &expected) {
            return failed(IdentityError::AttestationHashMismatch, auths);
        }
        let e = no_bytes();
        let policy = match self.policies.get(app_id.xdr.as_slice(), e.as_slice()) {
            Some(p) => p,
            None => {
                return failed(IdentityError::AppNotFound, auths);
            },
        };
        if let Err(err) = validate_policy(policy, &claims) {
            return failed(err, auths);
        }
        if policy.sanctions_enabled {
            return failed(IdentityError::SanctionsCheckFailed, auths);
        }
        if self.nullifiers.contains(app_id.xdr.as_slice(), &nullifier) {
            return failed(IdentityError::NullifierAlreadyUsed, auths);
        }
        if self.subject_is_verified(&app_id, &subject, policy.expiration_window, ledger_sequence) {
            return failed(IdentityError::SubjectAlreadyVerified, auths);
        }
        let record = VerificationRecord {
            app_id,
            subject,
            nullifier,
            public_inputs_hash,
            verified_ledger: ledger_sequence,
            source: VerificationSource::AttestedProver(attestation_hash),
            age: claims.age,
            country_code: claims.country_code,
            is_human: claims.is_human,
        };
        let o = self.finalize_verification(record);
        Outcome { result: o.result, auths, event: o.event }
    }

    fn finalize_verification(&mut self, record: VerificationRecord) -> (o: Outcome<VerificationRecord>)
        requires
            old(self).wf(),
        ensures
            final(self).wf(),
            o.result matches Ok(r) && r@ == record@,
            o.signers() == Seq::<Seq<u8>>::empty(),
            final(self)@ == with_record(old(self)@, record@),
            o.published() == Some(
                EventView::VerificationRecorded {
                    app_id: record.app_id@,
                    subject: record.subject@,
                    nullifier: record.nullifier,
                    source: record.source,
                },
            ),
    {
        let ghost old_view = self@;
        self.nullifiers.insert(record.app_id.xdr.as_slice(), &record.nullifier, ());
        let stored = record.duplicate();
        self.records.insert(record.app_id.xdr.as_slice(), record.subject.xdr.as_slice(), stored);
        assert(self@.nullifiers =~= old_view.nullifiers.insert((record.app_id@, record.nullifier@)));
        assert(self@.records =~= old_view.records.insert((record.app_id@, record.subject@), record@));
        assert(self@ =~= with_record(old_view, record@));
        let event = ContractEvent::VerificationRecorded(
            VerificationRecorded {
                app_id: record.app_id.duplicate(),
                subject: record.subject.duplicate(),
                nullifier: record.nullifier,
                source: record.source,
            },
        );
        Outcome { result: Ok(record), auths: no_auths(), event: Some(event) }
    }

    fn subject_is_verified(&self, app_id: &Symbol, subject: &Address, window: u32, ledger: u32) -> (r: bool)
        requires
            self.wf(),
        ensures
            r == subject_verified(self@, app_id@, subject@, window, ledger),
    {
        match self.records.get(app_id.xdr.as_slice(), subject.xdr.as_slice()) {
            None => false,
            Some(record) => {
                if window == 0 {
                    true
                } else {
                    ledger.saturating_sub(record.verified_ledger) <= window
                }
            },
        }
    }

    /// Whether `subject` holds a live verification for `app_id` at `ledger_sequence`.
    pub fn is_verified(&self, ledger_sequence: u32, app_id: &Symbol, subject: &Address) -> (r: bool)
        requires
            self.wf(),
        ensures
            r == record_visible(self@, app_id@, subject@, ledger_sequence),
    {
        let e = no_bytes();
        match self.policies.get(app_id.xdr.as_slice(), e.as_slice()) {
            None => false,
            Some(policy) => self.subject_is_verified(
                app_id,
                subject,
                policy.expiration_window,
                ledger_sequence,
            ),
        }
    }

    /// `subject`'s verification record for `app_id`, unless it is missing,
    /// the app is no longer registered, or the record has expired.
    pub fn get_record(&self, ledger_sequence: u32, app_id: &Symbol, subject: &Address) -> (r: Option<
        VerificationRecord,
    >)
        requires
            self.wf(),
        ensures
            match r {
                Some(rec) => record_visible(self@, app_id@, subject@, ledger_sequence) && rec@
                    == self@.records[(app_id@, subject@)],
                None => !record_visible(self@, app_id@, subject@, ledger_sequence),
            },
    {
        if !self.is_verified(ledger_sequence, app_id, subject) {
            return None;
        }
        match self.records.get(app_id.xdr.as_slice(), subject.xdr.as_slice()) {
            Some(record) => Some(record.duplicate()),
            None => None,
        }
    }

    /// Whether `nullifier` has been used for `app_id`.
    pub fn has_nullifier(&self, app_id: &Symbol, nullifier: &Hash32) -> (r: bool)
        requires
            self.wf(),
        ensures
            r == self@.nullifiers.contains((app_id@, nullifier@)),
    {
        self.nullifiers.contains(app_id.xdr.as_slice(), nullifier)
    }

    /// SHA-256 of the canonical encoding of attested claims.
    pub fn hash_attested_claims(env: &Env, claims: AttestedClaims) -> (h: Hash32)
        ensures
            h@ == spec_sha256(claims_preimage(claims)),
    {
        let mut bytes: Vec<u8> = Vec::new();
        push_u32_le(&mut bytes, claims.age);
        push_u32_le(&mut bytes, claims.country_code);
        let humanity: u32 = if claims.is_human {
            1
        } else {
            0
        };
        push_u32_le(&mut bytes, humanity);
        sha256(env, bytes.as_slice())
    }

    /// SHA-256 binding prover, app, subject, nullifier and the hash of the
    /// claims, as the attested path expects.
    pub fn hash_attestation(
        env: &Env,
        prover: &Address,
        app_id: &Symbol,
        subject: &Address,
        nullifier: &Hash32,
        claims: AttestedClaims,
    ) -> (h: Hash32)
        ensures
            h@ == spec_sha256(
                attestation_preimage(
                    prover@,
                    app_id@,
                    subject@,
                    nullifier@,
                    spec_sha256(claims_preimage(claims)),
                ),
            ),
    {
        let public_inputs_hash = Self::hash_attested_claims(env, claims);
        Self::attestation_digest(env, prover, app_id, subject, nullifier, &public_inputs_hash)
    }

    fn attestation_digest(
        env: &Env,
        prover: &Address,
        app_id: &Symbol,
        subject: &Address,
        nullifier: &Hash32,
        public_inputs_hash: &Hash32,
    ) -> (h: Hash32)
        ensures
            h@ == spec_sha256(
                attestation_preimage(prover@, app_id@, subject@, nullifier@, public_inputs_hash@),
            ),
    {
        let mut bytes: Vec<u8> = Vec::new();
        append_bytes(&mut bytes, prover.xdr.as_slice());
        append_bytes(&mut bytes, app_id.xdr.as_slice());
        append_bytes(&mut bytes, subject.xdr.as_slice());
        let n = bytes32_to_xdr(env, nullifier);
        append_bytes(&mut bytes, n.as_slice());
        let p = bytes32_to_xdr(env, public_inputs_hash);
        append_bytes(&mut bytes, p.as_slice());
        sha256(env, bytes.as_slice())
    }

    /// SHA-256 of the public signals, with the current date bound when non-zero.
    pub fn compute_pub_signals_hash(env: &Env, pub_signals: &Vec<Scalar>, current_date_ymd: u32) -> (r:
        Result<Hash32, IdentityError>)
        ensures
            r matches Ok(h) && h@ == spec_sha256(pub_signals_preimage(pub_signals@, current_date_ymd)),
    {
        Ok(Self::pub_signals_digest(env, pub_signals, current_date_ymd))
    }

    fn pub_signals_digest(env: &Env, pub_signals: &Vec<Scalar>, current_date_ymd: u32) -> (h: Hash32)
        ensures
            h@ == spec_sha256(pub_signals_preimage(pub_signals@, current_date_ymd)),
    {
        let mut bytes: Vec<u8> = Vec::new();
        append_all(&mut bytes, pub_signals);
        if current_date_ymd != 0 {
            push_u32_be(&mut bytes, current_date_ymd);
        }
        assert(bytes@ =~= pub_signals_preimage(pub_signals@, current_date_ymd));
        sha256(env, bytes.as_slice())
    }

    fn vk_digest(env: &Env, vk: &VerificationKey) -> (h: Hash32)
        ensures
            h@ == spec_sha256(vk_preimage(*vk)),
    {
        let mut bytes: Vec<u8> = Vec::new();
        append_bytes(&mut bytes, &vk.alpha);
        append_bytes(&mut bytes, &vk.beta);
        append_bytes(&mut bytes, &vk.gamma);
        append_bytes(&mut bytes, &vk.delta);
        append_all(&mut bytes, &vk.ic);
        assert(bytes@ =~= vk_preimage(*vk));
        sha256(env, bytes.as_slice())
    }
}

/// Checks the claims against the policy's age, humanity and country rules.
fn validate_policy(policy: &AppPolicy, claims: &AttestedClaims) -> (r: Result<(), IdentityError>)
    ensures
        r == (if policy_violation(policy@, *claims) {
            Err::<(), IdentityError>(IdentityError::PolicyViolation)
        } else {
            Ok(())
        }),
{
    if claims.age < policy.min_age {
        return Err(IdentityError::PolicyViolation);
    }
    if policy.require_humanity && !claims.is_human {
        return Err(IdentityError::PolicyViolation);
    }
    let mut i: usize = 0;
    while i < policy.excluded_countries.len()
        invariant
            i <= policy.excluded_countries@.len(),
            forall|j: int| 0 <= j < i ==> policy.excluded_countries@[j] != claims.country_code,
        decreases policy.excluded_countries@.len() - i,
    {
        if policy.excluded_countries[i] == claims.country_code {
            return Err(IdentityError::PolicyViolation);
        }
        i = i + 1;
    }
    Ok(())
}

/// Rejects policies that cannot be registered.
fn validate_policy_registration(policy: &AppPolicy) -> (r: Result<(), IdentityError>)
    ensures
        match registration_error(policy@) {
            Some(e) => r == Err::<(), IdentityError>(e),
            None => r is Ok,
        },
{
    if policy.sanctions_enabled {
        return Err(IdentityError::SanctionsCheckFailed);
    }
    if policy.excluded_countries.len() > MAX_EXCLUDED_COUNTRIES {
        return Err(IdentityError::ExcludedCountriesLimit);
    }
    Ok(())
}

} // verus!