//! A permissioned, hierarchical key-value metadata registry.
//!
//! A principal issues a metadata record about a subject, organizes values
//! into identifier-keyed items, groups items into delegated-authority
//! collections, and later appends, updates, or revokes access to that data.
//! The record keeps every container strictly sorted by field identifier,
//! resolves mutation rights through a two-tier (root versus collection)
//! authority protocol, and recomputes the exact backing-storage size after
//! every mutation so that growth can be planned and funded by the host.

pub mod constants;
pub mod counter;
pub mod errors;
pub mod instructions;
pub mod laws;
pub mod metadata_key;
pub mod model;
pub mod ordered;
pub mod principal;
pub mod sizes;
pub mod state;
pub mod utils;
