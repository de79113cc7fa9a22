//! Verified state machines for a community funding DAO and its two
//! companion registries.
//!
//! Every operation takes the caller's identity, the attached deposit and the
//! current time as plain arguments, so that a ledger is an ordinary value
//! that a host loads, hands to one operation and stores again. A refused
//! operation returns an error and changes nothing.
//!
//! - [`funding`]: the matching formula.
//! - [`proposal`]: one proposal and the transitions it can make.
//! - [`dao_model`]: the ledger as a mathematical value.
//! - [`dao`]: the ledger.
//! - [`dao_laws`]: what holds of the ledger over whole histories.
//! - [`did_registry`]: DID documents and verifiable credentials.
//! - [`provenance`]: datasets with owner-gated changes.
//! - [`text`]: keys looked up in order of insertion, numbers in decimal.

pub mod funding;
pub mod text;
pub mod proposal;
pub mod dao_model;
pub mod dao;
pub mod dao_laws;
pub mod did_registry;
pub mod provenance;
