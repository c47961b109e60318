//! Authenticated identities used in authority comparisons.

use vstd::prelude::*;

verus! {

/// A 32-byte principal identity, held as two 128-bit words.
///
/// The registry only ever compares principals for equality; the surrounding
/// host is responsible for authenticating a caller before handing its
/// identity to an operation.
#[derive(Clone, Copy, Debug, PartialEq, Eq, Structural)]
pub struct Principal {
    /// The high 16 bytes of the identity.
    pub hi: u128,
    /// The low 16 bytes of the identity.
    pub lo: u128,
}

} // verus!
