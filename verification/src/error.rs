//! Errors of the engines.

use vstd::prelude::*;

verus! {

/// A failure that the secure-computation session reported.
///
/// The engines never look inside: they pass it on to their caller.
#[derive(Clone, Debug, PartialEq, Eq)]
pub struct VmError {
    /// What the session said.
    pub message: String,
}

/// Why an operation of the PRF failed.
#[derive(Clone, Debug, PartialEq, Eq)]
pub enum PrfError {
    /// The operation was called in a state that does not admit it.
    State,
    /// The client random was supplied by the follower or withheld by the leader.
    Role,
    /// The session failed while it performed the operations.
    Vm(VmError),
}

/// Why an operation of the key stream failed.
#[derive(Clone, Debug, PartialEq, Eq)]
pub enum StreamCipherError {
    /// Key and IV were not set before the operation.
    Precondition,
    /// The explicit nonce does not have the width that the cipher fixes.
    NonceLength {
        /// The width that the cipher fixes.
        expected: usize,
        /// The length of the nonce that was given.
        actual: usize,
    },
    /// The session failed while it performed the operations.
    Vm(VmError),
}

} // verus!
