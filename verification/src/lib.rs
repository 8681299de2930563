//! Verified core of the Wraith identity stack: claim derivation from Groth16
//! public signals, the identity registry contract modelled as a state machine,
//! and the proof-adapter conversions.

pub mod error;
pub mod claims;
pub mod types;
pub mod store;
pub mod crypto;
pub mod model;
pub mod hashing;
pub mod contract;
pub mod laws;
pub mod text;
pub mod bigint;
pub mod rarimo;
pub mod adapter;
pub mod bn254;
