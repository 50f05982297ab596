//! Roles, execution modes and engine configuration.

use vstd::prelude::*;

verus! {

/// The position of a party in the session.
///
/// Exactly one party of a session is the leader. The leader supplies the
/// client random; the follower never learns it.
#[derive(Clone, Copy, Debug, PartialEq, Eq, Structural)]
pub enum Role {
    /// The party that supplies the client random.
    Leader,
    /// The party that holds the client random blind.
    Follower,
}

/// The back-end by which a circuit is committed to and evaluated.
///
/// The three modes take the same circuits with the same inputs and outputs.
#[derive(Clone, Copy, Debug, PartialEq, Eq, Structural)]
pub enum ExecutionMode {
    /// Joint evaluation; both parties learn the output.
    Mpc,
    /// This party authenticates the output it computed.
    Prove,
    /// This party checks the output the other party authenticated.
    Verify,
}

/// Configuration of the PRF.
#[derive(Clone, Copy, Debug, PartialEq, Eq, Structural)]
pub struct PrfConfig {
    /// The role of this party.
    pub role: Role,
}

impl PrfConfig {
    /// A configuration for the party with the given role.
    pub fn new(role: Role) -> (config: PrfConfig)
        ensures
            config.role == role,
    {
        PrfConfig { role }
    }
}

} // verus!
