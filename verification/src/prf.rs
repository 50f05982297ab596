//! The PRF: derives the session keys and the verify data of both Finished
//! messages, in the order in which a handshake makes their inputs known.
//!
//! Every operation comes as a pair. The function whose name ends in `_plan`
//! says which operations the session has to perform. The operation itself is
//! told how performing them ended, and moves the state.

use crate::config::{ExecutionMode, PrfConfig, Role};
use crate::error::{PrfError, VmError};
use crate::vm::{ops_view, Circuit, Op, PrfValue, ValueId, Visibility, VmOp};
use vstd::prelude::*;

verus! {

/// The width of the randoms and of the handshake hashes, in bytes.
pub const HASH_LEN: usize = 32;

/// The keys and implicit nonces of a session.
#[derive(Clone, Copy, Debug, PartialEq, Eq, Structural)]
pub struct SessionKeys {
    /// The key under which the client writes.
    pub client_write_key: ValueId,
    /// The key under which the server writes.
    pub server_write_key: ValueId,
    /// The implicit nonce of the client.
    pub client_iv: ValueId,
    /// The implicit nonce of the server.
    pub server_iv: ValueId,
}

/// What setting up the PRF yields.
#[derive(Clone, Copy, Debug, PartialEq, Eq, Structural)]
pub struct PrfOutput {
    /// The session keys.
    pub keys: SessionKeys,
    /// The verify data of the client's Finished message.
    pub cf_vd: ValueId,
    /// The verify data of the server's Finished message.
    pub sf_vd: ValueId,
}

/// The state of the PRF. It only ever moves forward, or into `Error`.
#[derive(Clone, Copy, Debug, PartialEq, Eq, Structural)]
pub enum State {
    /// Nothing was asked of the session yet.
    Initialized,
    /// The circuits are in place; the randoms and both hashes are owed.
    SessionKeysDerived {
        client_random: ValueId,
        server_random: ValueId,
        cf_hash: ValueId,
        sf_hash: ValueId,
    },
    /// Both randoms are committed; both hashes are owed.
    ClientFinished { cf_hash: ValueId, sf_hash: ValueId },
    /// The hash of the client's Finished message is committed.
    ServerFinished { sf_hash: ValueId },
    /// Every input is committed.
    Complete,
    /// The PRF was misused or the session failed. Nothing leads out of here.
    Error,
}

/// The names of the values that setting up yields.
pub open spec fn prf_output() -> PrfOutput {
    PrfOutput {
        keys: SessionKeys {
            client_write_key: ValueId::Prf(PrfValue::ClientWriteKey),
            server_write_key: ValueId::Prf(PrfValue::ServerWriteKey),
            client_iv: ValueId::Prf(PrfValue::ClientIv),
            server_iv: ValueId::Prf(PrfValue::ServerIv),
        },
        cf_vd: ValueId::Prf(PrfValue::CfVd),
        sf_vd: ValueId::Prf(PrfValue::SfVd),
    }
}

/// The state that setting up leads to.
pub open spec fn session_keys_state() -> State {
    State::SessionKeysDerived {
        client_random: ValueId::Prf(PrfValue::ClientRandom),
        server_random: ValueId::Prf(PrfValue::ServerRandom),
        cf_hash: ValueId::Prf(PrfValue::CfHash),
        sf_hash: ValueId::Prf(PrfValue::SfHash),
    }
}

/// The leader supplies the client random; to the follower it stays blind.
pub open spec fn client_random_visibility(role: Role) -> Visibility {
    match role {
        Role::Leader => Visibility::Private,
        Role::Follower => Visibility::Blind,
    }
}

/// The operations of setting up, for a party with the given role and the
/// pre-master secret `pms`.
pub open spec fn setup_ops(role: Role, pms: ValueId) -> Seq<Op> {
    let client_random = ValueId::Prf(PrfValue::ClientRandom);
    let server_random = ValueId::Prf(PrfValue::ServerRandom);
    let outer = ValueId::Prf(PrfValue::OuterHashState);
    let inner = ValueId::Prf(PrfValue::InnerHashState);
    let cf_hash = ValueId::Prf(PrfValue::CfHash);
    let sf_hash = ValueId::Prf(PrfValue::SfHash);
    seq![
        Op::Alloc { value: client_random, len: HASH_LEN as nat },
        Op::Alloc { value: server_random, len: HASH_LEN as nat },
        Op::Mark { value: client_random, visibility: client_random_visibility(role) },
        Op::Mark { value: server_random, visibility: Visibility::Public },
        Op::Call {
            mode: ExecutionMode::Mpc,
            circuit: Circuit::SessionKeys,
            inputs: seq![pms, client_random, server_random],
            outputs: seq![
                ValueId::Prf(PrfValue::ClientWriteKey),
                ValueId::Prf(PrfValue::ServerWriteKey),
                ValueId::Prf(PrfValue::ClientIv),
                ValueId::Prf(PrfValue::ServerIv),
                outer,
                inner,
            ],
        },
        Op::Alloc { value: cf_hash, len: HASH_LEN as nat },
        Op::Mark { value: cf_hash, visibility: Visibility::Public },
        Op::Call {
            mode: ExecutionMode::Mpc,
            circuit: Circuit::ClientVerifyData,
            inputs: seq![outer, inner, cf_hash],
            outputs: seq![ValueId::Prf(PrfValue::CfVd)],
        },
        Op::Alloc { value: sf_hash, len: HASH_LEN as nat },
        Op::Mark { value: sf_hash, visibility: Visibility::Public },
        Op::Call {
            mode: ExecutionMode::Mpc,
            circuit: Circuit::ServerVerifyData,
            inputs: seq![outer, inner, sf_hash],
            outputs: seq![ValueId::Prf(PrfValue::SfVd)],
        },
    ]
}

/// Assigning `bytes` to `value` and committing to it.
pub open spec fn assign_commit_ops(value: ValueId, bytes: Seq<u8>) -> Seq<Op> {
    seq![
        Op::Assign { value, bytes },
        Op::Commit { mode: ExecutionMode::Mpc, values: seq![value] },
    ]
}

/// Committing to `value` as it stands.
pub open spec fn commit_ops(value: ValueId) -> Seq<Op> {
    seq![Op::Commit { mode: ExecutionMode::Mpc, values: seq![value] }]
}

/// Whether a party with the given role may call `set_client_random` with
/// `random`: the leader has to bring the random, the follower must not.
pub open spec fn client_random_allowed(role: Role, random: Option<Seq<u8>>) -> bool {
    match role {
        Role::Leader => random is Some,
        Role::Follower => random is None,
    }
}

/// What `setup` asks of the session in the given state.
pub open spec fn setup_plan_ops(role: Role, state: State, pms: ValueId) -> Seq<Op> {
    match state {
        State::Initialized => setup_ops(role, pms),
        _ => Seq::empty(),
    }
}

/// Where `setup` leads from the given state and what it returns, once the
/// session has ended as `vm` says.
pub open spec fn setup_step(state: State, vm: Result<(), VmError>) -> (
    State,
    Result<PrfOutput, PrfError>,
) {
    match state {
        State::Initialized => match vm {
            Ok(_) => (session_keys_state(), Ok(prf_output())),
            Err(e) => (State::Error, Err(PrfError::Vm(e))),
        },
        _ => (State::Error, Err(PrfError::State)),
    }
}

/// What `set_client_random` asks of the session in the given state.
pub open spec fn client_random_plan_ops(role: Role, state: State, random: Option<Seq<u8>>) -> Seq<
    Op,
> {
    match state {
        State::SessionKeysDerived { client_random, .. } => {
            if !client_random_allowed(role, random) {
                Seq::empty()
            } else {
                match random {
                    Some(bytes) => assign_commit_ops(client_random, bytes),
                    None => commit_ops(client_random),
                }
            }
        },
        _ => Seq::empty(),
    }
}

/// Where `set_client_random` leads and what it returns. The state stays as
/// it is unless the call came in a state that does not admit it.
pub open spec fn client_random_step(
    role: Role,
    state: State,
    random: Option<Seq<u8>>,
    vm: Result<(), VmError>,
) -> (State, Result<(), PrfError>) {
    match state {
        State::SessionKeysDerived { .. } => {
            if !client_random_allowed(role, random) {
                (state, Err(PrfError::Role))
            } else {
                match vm {
                    Ok(_) => (state, Ok(())),
                    Err(e) => (state, Err(PrfError::Vm(e))),
                }
            }
        },
        _ => (State::Error, Err(PrfError::State)),
    }
}

/// What `set_server_random` asks of the session in the given state.
pub open spec fn server_random_plan_ops(state: State, random: Seq<u8>) -> Seq<Op> {
    match state {
        State::SessionKeysDerived { server_random, .. } => assign_commit_ops(server_random, random),
        _ => Seq::empty(),
    }
}

/// Where `set_server_random` leads and what it returns.
pub open spec fn server_random_step(state: State, vm: Result<(), VmError>) -> (
    State,
    Result<(), PrfError>,
) {
    match state {
        State::SessionKeysDerived { cf_hash, sf_hash, .. } => match vm {
            Ok(_) => (State::ClientFinished { cf_hash, sf_hash }, Ok(())),
            Err(e) => (State::Error, Err(PrfError::Vm(e))),
        },
        _ => (State::Error, Err(PrfError::State)),
    }
}

/// What `set_cf_hash` asks of the session in the given state.
pub open spec fn cf_hash_plan_ops(state: State, handshake_hash: Seq<u8>) -> Seq<Op> {
    match state {
        State::ClientFinished { cf_hash, .. } => assign_commit_ops(cf_hash, handshake_hash),
        _ => Seq::empty(),
    }
}

/// Where `set_cf_hash` leads and what it returns.
pub open spec fn cf_hash_step(state: State, vm: Result<(), VmError>) -> (
    State,
    Result<(), PrfError>,
) {
    match state {
        State::ClientFinished { sf_hash, .. } => match vm {
            Ok(_) => (State::ServerFinished { sf_hash }, Ok(())),
            Err(e) => (State::Error, Err(PrfError::Vm(e))),
        },
        _ => (State::Error, Err(PrfError::State)),
    }
}

/// What `set_sf_hash` asks of the session in the given state.
pub open spec fn sf_hash_plan_ops(state: State, handshake_hash: Seq<u8>) -> Seq<Op> {
    match state {
        State::ServerFinished { sf_hash } => assign_commit_ops(sf_hash, handshake_hash),
        _ => Seq::empty(),
    }
}

/// Where `set_sf_hash` leads and what it returns.
pub open spec fn sf_hash_step(state: State, vm: Result<(), VmError>) -> (
    State,
    Result<(), PrfError>,
) {
    match state {
        State::ServerFinished { .. } => match vm {
            Ok(_) => (State::Complete, Ok(())),
            Err(e) => (State::Error, Err(PrfError::Vm(e))),
        },
        _ => (State::Error, Err(PrfError::State)),
    }
}

/// The bytes of a random or hash, as a vector.
fn bytes_of(bytes: &[u8; 32]) -> (v: Vec<u8>)
    ensures
        v@ == bytes@,
{
    let mut v: Vec<u8> = Vec::new();
    let mut i: usize = 0;
    while i < 32
        invariant
            i <= 32,
            v@ == bytes@.subrange(0, i as int),
        decreases 32 - i,
    {
        v.push(bytes[i]);
        i += 1;
    }
    v
}

/// The operations that commit to `value` under joint evaluation.
fn commit_plan(value: ValueId) -> (plan: Vec<VmOp>)
    ensures
        ops_view(plan@) == commit_ops(value),
{
    let mut values: Vec<ValueId> = Vec::new();
    values.push(value);
    let mut plan: Vec<VmOp> = Vec::new();
    plan.push(VmOp::Commit { mode: ExecutionMode::Mpc, values });
    plan
}

/// The operations that assign `bytes` to `value` and commit to it.
fn assign_commit_plan(value: ValueId, bytes: &[u8; 32]) -> (plan: Vec<VmOp>)
    ensures
        ops_view(plan@) == assign_commit_ops(value, bytes@),
{
    let mut values: Vec<ValueId> = Vec::new();
    values.push(value);
    let mut plan: Vec<VmOp> = Vec::new();
    plan.push(VmOp::Assign { value, bytes: bytes_of(bytes) });
    plan.push(VmOp::Commit { mode: ExecutionMode::Mpc, values });
    plan
}

/// What `random` holds, as a mathematical value.
pub open spec fn random_view(random: Option<[u8; 32]>) -> Option<Seq<u8>> {
    match random {
        Some(bytes) => Some(bytes@),
        None => None,
    }
}

/// The PRF of one party: computes the TLS PRF on top of HMAC-SHA256 inside
/// the session.
#[derive(Debug)]
pub struct MpcPrf {
    config: PrfConfig,
    state: State,
}

impl MpcPrf {
    /// The role of this party.
    pub closed spec fn spec_role(&self) -> Role {
        self.config.role
    }

    /// The state that the PRF is in.
    pub closed spec fn spec_state(&self) -> State {
        self.state
    }

    /// Creates a new instance of the PRF.
    pub fn new(config: PrfConfig) -> (prf: MpcPrf)
        ensures
            prf.spec_role() == config.role,
            prf.spec_state() == State::Initialized,
    {
        MpcPrf { config, state: State::Initialized }
    }

    /// The role of this party.
    #[verifier::when_used_as_spec(spec_role)]
    pub fn role(&self) -> (role: Role)
        ensures
            role == self.spec_role(),
    {
        self.config.role
    }

    /// The state that the PRF is in.
    #[verifier::when_used_as_spec(spec_state)]
    pub fn state(&self) -> (state: State)
        ensures
            state == self.spec_state(),
    {
        self.state
    }

    /// The operations that `setup` needs the session to perform: none, if
    /// the PRF was set up before.
    pub fn setup_plan(&self, pms: ValueId) -> (plan: Vec<VmOp>)
        ensures
            ops_view(plan@) == setup_plan_ops(self.role(), self.state(), pms),
    {
        let mut plan: Vec<VmOp> = Vec::new();
        match self.state {
            State::Initialized => {},
            _ => {
                return plan;
            },
        }
        let client_random = ValueId::Prf(PrfValue::ClientRandom);
        let server_random = ValueId::Prf(PrfValue::ServerRandom);
        let outer = ValueId::Prf(PrfValue::OuterHashState);
        let inner = ValueId::Prf(PrfValue::InnerHashState);
        let cf_hash = ValueId::Prf(PrfValue::CfHash);
        let sf_hash = ValueId::Prf(PrfValue::SfHash);

        plan.push(VmOp::Alloc { value: client_random, len: HASH_LEN });
        plan.push(VmOp::Alloc { value: server_random, len: HASH_LEN });
        // The client random stays private, so that the handshake hashes
        // give nothing away about the server.
        let visibility = match self.config.role {
            Role::Leader => Visibility::Private,
            Role::Follower => Visibility::Blind,
        };
        plan.push(VmOp::Mark { value: client_random, visibility });
        plan.push(VmOp::Mark { value: server_random, visibility: Visibility::Public });

        let mut inputs: Vec<ValueId> = Vec::new();
        inputs.push(pms);
        inputs.push(client_random);
        inputs.push(server_random);
        let mut outputs: Vec<ValueId> = Vec::new();
        outputs.push(ValueId::Prf(PrfValue::ClientWriteKey));
        outputs.push(ValueId::Prf(PrfValue::ServerWriteKey));
        outputs.push(ValueId::Prf(PrfValue::ClientIv));
        outputs.push(ValueId::Prf(PrfValue::ServerIv));
        outputs.push(outer);
        outputs.push(inner);
        let session_keys = VmOp::Call {
            mode: ExecutionMode::Mpc,
            circuit: Circuit::SessionKeys,
            inputs,
            outputs,
        };
        assert(session_keys@ =~~= setup_ops(self.role(), pms)[4]);
        plan.push(session_keys);

        plan.push(VmOp::Alloc { value: cf_hash, len: HASH_LEN });
        plan.push(VmOp::Mark { value: cf_hash, visibility: Visibility::Public });
        let mut inputs: Vec<ValueId> = Vec::new();
        inputs.push(outer);
        inputs.push(inner);
        inputs.push(cf_hash);
        let mut outputs: Vec<ValueId> = Vec::new();
        outputs.push(ValueId::Prf(PrfValue::CfVd));
        let client_vd = VmOp::Call {
            mode: ExecutionMode::Mpc,
            circuit: Circuit::ClientVerifyData,
            inputs,
            outputs,
        };
        assert(client_vd@ =~~= setup_ops(self.role(), pms)[7]);
        plan.push(client_vd);

        plan.push(VmOp::Alloc { value: sf_hash, len: HASH_LEN });
        plan.push(VmOp::Mark { value: sf_hash, visibility: Visibility::Public });
        let mut inputs: Vec<ValueId> = Vec::new();
        inputs.push(outer);
        inputs.push(inner);
        inputs.push(sf_hash);
        let mut outputs: Vec<ValueId> = Vec::new();
        outputs.push(ValueId::Prf(PrfValue::SfVd));
        let server_vd = VmOp::Call {
            mode: ExecutionMode::Mpc,
            circuit: Circuit::ServerVerifyData,
            inputs,
            outputs,
        };
        assert(server_vd@ =~~= setup_ops(self.role(), pms)[10]);
        plan.push(server_vd);

        plan
    }

    /// Sets up the PRF, once the session has gone through the operations of
    /// [`MpcPrf::setup_plan`] and ended as `vm` says.
    ///
    /// Returns the names of the session keys and of the verify data. Fails
    /// if the PRF is not in its initial state, or with the failure of the
    /// session; either way the PRF is of no use afterwards.
    pub fn setup(&mut self, vm: Result<(), VmError>) -> (r: Result<PrfOutput, PrfError>)
        ensures
            final(self).role() == old(self).role(),
            (final(self).state(), r) == setup_step(old(self).state(), vm),
    {
        let state = self.state;
        self.state = State::Error;
        match state {
            State::Initialized => {},
            _ => {
                return Err(PrfError::State);
            },
        }
        match vm {
            Ok(_) => {},
            Err(e) => {
                return Err(PrfError::Vm(e));
            },
        }
        self.state = State::SessionKeysDerived {
            client_random: ValueId::Prf(PrfValue::ClientRandom),
            server_random: ValueId::Prf(PrfValue::ServerRandom),
            cf_hash: ValueId::Prf(PrfValue::CfHash),
            sf_hash: ValueId::Prf(PrfValue::SfHash),
        };
        Ok(
            PrfOutput {
                keys: SessionKeys {
                    client_write_key: ValueId::Prf(PrfValue::ClientWriteKey),
                    server_write_key: ValueId::Prf(PrfValue::ServerWriteKey),
                    client_iv: ValueId::Prf(PrfValue::ClientIv),
                    server_iv: ValueId::Prf(PrfValue::ServerIv),
                },
                cf_vd: ValueId::Prf(PrfValue::CfVd),
                sf_vd: ValueId::Prf(PrfValue::SfVd),
            },
        )
    }

    /// The operations that `set_client_random` needs the session to perform:
    /// none, if the call is going to be refused.
    pub fn set_client_random_plan(&self, random: Option<[u8; 32]>) -> (plan: Vec<VmOp>)
        ensures
            ops_view(plan@) == client_random_plan_ops(
                self.role(),
                self.state(),
                random_view(random),
            ),
    {
        let client_random = match self.state {
            State::SessionKeysDerived { client_random, .. } => client_random,
            _ => {
                let plan: Vec<VmOp> = Vec::new();
                return plan;
            },
        };
        match (self.config.role, random) {
            (Role::Leader, Some(bytes)) => assign_commit_plan(client_random, &bytes),
            (Role::Follower, None) => commit_plan(client_random),
            _ => {
                let plan: Vec<VmOp> = Vec::new();
                plan
            },
        }
    }

    /// Takes the client random, once the session has gone through the
    /// operations of [`MpcPrf::set_client_random_plan`] and ended as `vm`
    /// says.
    ///
    /// The leader has to bring the random and the follower must not: the
    /// call fails with a role error otherwise. The state stays as it is,
    /// since the server random is still owed, unless the PRF has not been
    /// set up or has moved on.
    pub fn set_client_random(&mut self, vm: Result<(), VmError>, random: Option<[u8; 32]>) -> (r:
        Result<(), PrfError>)
        ensures
            final(self).role() == old(self).role(),
            (final(self).state(), r) == client_random_step(
                old(self).role(),
                old(self).state(),
                random_view(random),
                vm,
            ),
    {
        match self.state {
            State::SessionKeysDerived { .. } => {},
            _ => {
                self.state = State::Error;
                return Err(PrfError::State);
            },
        }
        match (self.config.role, random) {
            (Role::Leader, Some(_)) => {},
            (Role::Follower, None) => {},
            _ => {
                return Err(PrfError::Role);
            },
        }
        match vm {
            Ok(_) => Ok(()),
            Err(e) => Err(PrfError::Vm(e)),
        }
    }

    /// The operations that `set_server_random` needs the session to perform:
    /// none, if the call is going to be refused.
    pub fn set_server_random_plan(&self, random: [u8; 32]) -> (plan: Vec<VmOp>)
        ensures
            ops_view(plan@) == server_random_plan_ops(self.state(), random@),
    {
        match self.state {
            State::SessionKeysDerived { server_random, .. } => assign_commit_plan(server_random, &random),
            _ => {
                let plan: Vec<VmOp> = Vec::new();
                plan
            },
        }
    }

    /// Moves on past the server random, once the session has gone through
    /// the operations of [`MpcPrf::set_server_random_plan`] and ended as `vm`
    /// says. From here on the PRF waits for the hash of the client's
    /// Finished message.
    pub fn set_server_random(&mut self, vm: Result<(), VmError>) -> (r: Result<(), PrfError>)
        ensures
            final(self).role() == old(self).role(),
            (final(self).state(), r) == server_random_step(old(self).state(), vm),
    {
        let state = self.state;
        self.state = State::Error;
        let (cf_hash, sf_hash) = match state {
            State::SessionKeysDerived { cf_hash, sf_hash, .. } => (cf_hash, sf_hash),
            _ => {
                return Err(PrfError::State);
            },
        };
        match vm {
            Ok(_) => {},
            Err(e) => {
                return Err(PrfError::Vm(e));
            },
        }
        self.state = State::ClientFinished { cf_hash, sf_hash };
        Ok(())
    }

    /// The operations that `set_cf_hash` needs the session to perform: none,
    /// if the call is going to be refused.
    pub fn set_cf_hash_plan(&self, handshake_hash: [u8; 32]) -> (plan: Vec<VmOp>)
        ensures
            ops_view(plan@) == cf_hash_plan_ops(self.state(), handshake_hash@),
    {
        match self.state {
            State::ClientFinished { cf_hash, .. } => assign_commit_plan(cf_hash, &handshake_hash),
            _ => {
                let plan: Vec<VmOp> = Vec::new();
                plan
            },
        }
    }

    /// Moves on past the handshake hash of the client's Finished message,
    /// once the session has gone through the operations of
    /// [`MpcPrf::set_cf_hash_plan`] and ended as `vm` says.
    pub fn set_cf_hash(&mut self, vm: Result<(), VmError>) -> (r: Result<(), PrfError>)
        ensures
            final(self).role() == old(self).role(),
            (final(self).state(), r) == cf_hash_step(old(self).state(), vm),
    {
        let state = self.state;
        self.state = State::Error;
        let sf_hash = match state {
            State::ClientFinished { sf_hash, .. } => sf_hash,
            _ => {
                return Err(PrfError::State);
            },
        };
        match vm {
            Ok(_) => {},
            Err(e) => {
                return Err(PrfError::Vm(e));
            },
        }
        self.state = State::ServerFinished { sf_hash };
        Ok(())
    }

    /// The operations that `set_sf_hash` needs the session to perform: none,
    /// if the call is going to be refused.
    pub fn set_sf_hash_plan(&self, handshake_hash: [u8; 32]) -> (plan: Vec<VmOp>)
        ensures
            ops_view(plan@) == sf_hash_plan_ops(self.state(), handshake_hash@),
    {
        match self.state {
            State::ServerFinished { sf_hash } => assign_commit_plan(sf_hash, &handshake_hash),
            _ => {
                let plan: Vec<VmOp> = Vec::new();
                plan
            },
        }
    }

    /// Moves on past the handshake hash of the server's Finished message,
    /// once the session has gone through the operations of
    /// [`MpcPrf::set_sf_hash_plan`] and ended as `vm` says. With it the PRF
    /// is complete.
    pub fn set_sf_hash(&mut self, vm: Result<(), VmError>) -> (r: Result<(), PrfError>)
        ensures
            final(self).role() == old(self).role(),
            (final(self).state(), r) == sf_hash_step(old(self).state(), vm),
    {
        let state = self.state;
        self.state = State::Error;
        match state {
            State::ServerFinished { .. } => {},
            _ => {
                return Err(PrfError::State);
            },
        }
        match vm {
            Ok(_) => {},
            Err(e) => {
                return Err(PrfError::Vm(e));
            },
        }
        self.state = State::Complete;
        Ok(())
    }
}

/// A party that goes through the five operations in order, each time with
/// the session succeeding, ends in `Complete`. This holds for the leader,
/// who brings the client random, and for the follower, who brings none.
pub proof fn lemma_handshake_completes(role: Role, random: Option<Seq<u8>>)
    requires
        client_random_allowed(role, random),
    ensures
        ({
            let ok = Ok::<(), VmError>(());
            let s1 = setup_step(State::Initialized, ok);
            let s2 = client_random_step(role, s1.0, random, ok);
            let s3 = server_random_step(s2.0, ok);
            let s4 = cf_hash_step(s3.0, ok);
            let s5 = sf_hash_step(s4.0, ok);
            &&& s1.1 == Ok::<PrfOutput, PrfError>(prf_output())
            &&& s2.1 is Ok
            &&& s3.1 is Ok
            &&& s4.1 is Ok
            &&& s5.1 is Ok
            &&& s5.0 == State::Complete
        }),
{
}

/// An operation that is called in a state that does not admit it fails with
/// a state error, whatever the session did, and leaves the PRF in `Error`.
pub proof fn lemma_wrong_state_is_refused(
    role: Role,
    state: State,
    random: Option<Seq<u8>>,
    vm: Result<(), VmError>,
)
    ensures
        !(state is Initialized) ==> setup_step(state, vm) == (
            State::Error,
            Err::<PrfOutput, PrfError>(PrfError::State),
        ),
        !(state is SessionKeysDerived) ==> client_random_step(role, state, random, vm) == (
            State::Error,
            Err::<(), PrfError>(PrfError::State),
        ),
        !(state is SessionKeysDerived) ==> server_random_step(state, vm) == (
            State::Error,
            Err::<(), PrfError>(PrfError::State),
        ),
        !(state is ClientFinished) ==> cf_hash_step(state, vm) == (
            State::Error,
            Err::<(), PrfError>(PrfError::State),
        ),
        !(state is ServerFinished) ==> sf_hash_step(state, vm) == (
            State::Error,
            Err::<(), PrfError>(PrfError::State),
        ),
{
}

/// Nothing leads out of `Error`: every operation fails there with a state
/// error and leaves the state as it is.
pub proof fn lemma_error_is_final(role: Role, random: Option<Seq<u8>>, vm: Result<(), VmError>)
    ensures
        setup_step(State::Error, vm) == (State::Error, Err::<PrfOutput, PrfError>(PrfError::State)),
        client_random_step(role, State::Error, random, vm) == (
            State::Error,
            Err::<(), PrfError>(PrfError::State),
        ),
        server_random_step(State::Error, vm) == (State::Error, Err::<(), PrfError>(PrfError::State)),
        cf_hash_step(State::Error, vm) == (State::Error, Err::<(), PrfError>(PrfError::State)),
        sf_hash_step(State::Error, vm) == (State::Error, Err::<(), PrfError>(PrfError::State)),
{
}

/// Once the PRF is set up, a leader without a client random and a follower
/// with one are refused with a role error, whatever the session did, and the
/// state stays as it is.
pub proof fn lemma_client_random_follows_role(
    state: State,
    bytes: Seq<u8>,
    vm: Result<(), VmError>,
)
    requires
        state is SessionKeysDerived,
    ensures
        client_random_step(Role::Leader, state, None, vm) == (
            state,
            Err::<(), PrfError>(PrfError::Role),
        ),
        client_random_step(Role::Follower, state, Some(bytes), vm) == (
            state,
            Err::<(), PrfError>(PrfError::Role),
        ),
        client_random_plan_ops(Role::Leader, state, None) == Seq::<Op>::empty(),
        client_random_plan_ops(Role::Follower, state, Some(bytes)) == Seq::<Op>::empty(),
{
}

/// How far a state is along the handshake. `Error` comes last: nothing
/// leads back from it.
pub open spec fn progress(state: State) -> nat {
    match state {
        State::Initialized => 0,
        State::SessionKeysDerived { .. } => 1,
        State::ClientFinished { .. } => 2,
        State::ServerFinished { .. } => 3,
        State::Complete => 4,
        State::Error => 5,
    }
}

/// The PRF only ever moves forward: whatever is called, with whatever
/// outcome of the session, the state stays where it is or moves on. An
/// operation that succeeds moves it on by one step, but for the client
/// random, which leaves it where it is.
pub proof fn lemma_state_only_moves_forward(
    role: Role,
    state: State,
    random: Option<Seq<u8>>,
    vm: Result<(), VmError>,
)
    ensures
        ({
            let next = setup_step(state, vm);
            progress(state) <= progress(next.0) && (next.1 is Ok ==> progress(next.0) == progress(
                state,
            ) + 1)
        }),
        ({
            let next = client_random_step(role, state, random, vm);
            progress(state) <= progress(next.0) && (next.1 is Ok ==> next.0 == state)
        }),
        ({
            let next = server_random_step(state, vm);
            progress(state) <= progress(next.0) && (next.1 is Ok ==> progress(next.0) == progress(
                state,
            ) + 1)
        }),
        ({
            let next = cf_hash_step(state, vm);
            progress(state) <= progress(next.0) && (next.1 is Ok ==> progress(next.0) == progress(
                state,
            ) + 1)
        }),
        ({
            let next = sf_hash_step(state, vm);
            progress(state) <= progress(next.0) && (next.1 is Ok ==> progress(next.0) == progress(
                state,
            ) + 1)
        }),
{
}

} // verus!
