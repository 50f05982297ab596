//! The operations that the engines ask of the secure-computation session.
//!
//! A session holds secure values. The engines name the values they work
//! with, say what the session has to do with them, and leave the doing to
//! their caller.

use crate::config::ExecutionMode;
use vstd::prelude::*;

verus! {

/// The values that the PRF owns.
#[derive(Clone, Copy, Debug, PartialEq, Eq, Hash, Structural)]
pub enum PrfValue {
    /// The client random of the handshake.
    ClientRandom,
    /// The server random of the handshake.
    ServerRandom,
    /// The key under which the client writes.
    ClientWriteKey,
    /// The key under which the server writes.
    ServerWriteKey,
    /// The implicit nonce of the client.
    ClientIv,
    /// The implicit nonce of the server.
    ServerIv,
    /// The outer hash state of the master secret.
    OuterHashState,
    /// The inner hash state of the master secret.
    InnerHashState,
    /// The handshake hash of the client's Finished message.
    CfHash,
    /// The handshake hash of the server's Finished message.
    SfHash,
    /// The verify data of the client's Finished message.
    CfVd,
    /// The verify data of the server's Finished message.
    SfVd,
}

impl PrfValue {
    /// The width of the value, in bytes.
    pub open spec fn spec_width(self) -> usize {
        match self {
            PrfValue::ClientWriteKey | PrfValue::ServerWriteKey => 16,
            PrfValue::ClientIv | PrfValue::ServerIv => 4,
            PrfValue::CfVd | PrfValue::SfVd => 12,
            _ => 32,
        }
    }

    /// The width of the value, in bytes: 16 for a key, 4 for an IV, 12 for
    /// verify data, 32 for a random, a hash and a hash state.
    #[verifier::when_used_as_spec(spec_width)]
    pub fn width(self) -> (width: usize)
        ensures
            width == self.spec_width(),
    {
        match self {
            PrfValue::ClientWriteKey | PrfValue::ServerWriteKey => 16,
            PrfValue::ClientIv | PrfValue::ServerIv => 4,
            PrfValue::CfVd | PrfValue::SfVd => 12,
            _ => 32,
        }
    }
}

/// The three values of one block of a key stream.
#[derive(Clone, Copy, Debug, PartialEq, Eq, Hash, Structural)]
pub enum BlockPart {
    /// The output of the block cipher.
    Output,
    /// The explicit nonce that goes into the block.
    Nonce,
    /// The counter that goes into the block.
    Counter,
}

/// The name of a secure value.
#[derive(Clone, Copy, Debug, PartialEq, Eq, Hash, Structural)]
pub enum ValueId {
    /// A value that the caller brought into the session.
    Input(u64),
    /// A value of the PRF.
    Prf(PrfValue),
    /// A value of block `index` of the key stream `stream`.
    Block { stream: u64, index: u64, part: BlockPart },
}

/// One byte of a secure value.
#[derive(Clone, Copy, Debug, PartialEq, Eq, Hash, Structural)]
pub struct ByteRef {
    /// The value that holds the byte.
    pub value: ValueId,
    /// The position of the byte in the value.
    pub index: usize,
}

/// Who may know what a secure value holds.
#[derive(Clone, Copy, Debug, PartialEq, Eq, Structural)]
pub enum Visibility {
    /// Both parties know the value.
    Public,
    /// This party alone supplies the value.
    Private,
    /// The other party alone supplies the value.
    Blind,
}

/// The compiled circuits that the engines evaluate.
#[derive(Clone, Copy, Debug, PartialEq, Eq, Hash, Structural)]
pub enum Circuit {
    /// Derives the session keys and the hash states of the master secret.
    SessionKeys,
    /// Derives the verify data of the client's Finished message.
    ClientVerifyData,
    /// Derives the verify data of the server's Finished message.
    ServerVerifyData,
    /// Enciphers one counter block.
    CtrBlock,
}

/// An operation for the session to perform.
#[derive(Clone, Debug, PartialEq, Eq)]
pub enum VmOp {
    /// Allocate the value `value`, `len` bytes wide.
    Alloc { value: ValueId, len: usize },
    /// Fix who may know the value.
    Mark { value: ValueId, visibility: Visibility },
    /// Give the value its bytes.
    Assign { value: ValueId, bytes: Vec<u8> },
    /// Commit to the values, for evaluation under `mode`.
    Commit { mode: ExecutionMode, values: Vec<ValueId> },
    /// Evaluate the circuit under `mode`.
    Call { mode: ExecutionMode, circuit: Circuit, inputs: Vec<ValueId>, outputs: Vec<ValueId> },
    /// Prepare the circuit ahead of its inputs.
    Load { circuit: Circuit, inputs: Vec<ValueId>, outputs: Vec<ValueId> },
}

/// What a [`VmOp`] says, as a mathematical value.
#[verifier::ext_equal]
pub enum Op {
    Alloc { value: ValueId, len: nat },
    Mark { value: ValueId, visibility: Visibility },
    Assign { value: ValueId, bytes: Seq<u8> },
    Commit { mode: ExecutionMode, values: Seq<ValueId> },
    Call { mode: ExecutionMode, circuit: Circuit, inputs: Seq<ValueId>, outputs: Seq<ValueId> },
    Load { circuit: Circuit, inputs: Seq<ValueId>, outputs: Seq<ValueId> },
}

impl View for VmOp {
    type V = Op;

    open spec fn view(&self) -> Op {
        match *self {
            VmOp::Alloc { value, len } => Op::Alloc { value, len: len as nat },
            VmOp::Mark { value, visibility } => Op::Mark { value, visibility },
            VmOp::Assign { value, bytes } => Op::Assign { value, bytes: bytes@ },
            VmOp::Commit { mode, values } => Op::Commit { mode, values: values@ },
            VmOp::Call { mode, circuit, inputs, outputs } => Op::Call {
                mode,
                circuit,
                inputs: inputs@,
                outputs: outputs@,
            },
            VmOp::Load { circuit, inputs, outputs } => Op::Load {
                circuit,
                inputs: inputs@,
                outputs: outputs@,
            },
        }
    }
}

/// What a list of operations says, operation by operation.
pub open spec fn ops_view(ops: Seq<VmOp>) -> Seq<Op> {
    ops.map_values(|op: VmOp| op@)
}

/// Appending an operation appends what it says.
pub proof fn lemma_ops_view_push(ops: Seq<VmOp>, op: VmOp)
    ensures
        ops_view(ops.push(op)) == ops_view(ops).push(op@),
{
}

} // verus!
