//! An ideal session: what the operations do to the values of a session in
//! which nothing fails and the block cipher is a function of its inputs.
//!
//! Nothing here runs. The model says what the plans of the key stream mean,
//! so that laws about the bytes of the key stream can be stated and proved.

use crate::vm::{ByteRef, Circuit, Op, ValueId};
use vstd::prelude::*;

verus! {

/// What the values of a session hold.
pub type Store = Map<ValueId, Seq<u8>>;

/// A block cipher: from key, IV, nonce and counter to a block.
pub type BlockFn = spec_fn(Seq<u8>, Seq<u8>, Seq<u8>, Seq<u8>) -> Seq<u8>;

/// Whether `op` evaluates the block cipher on four inputs into one output.
pub open spec fn is_block_call(op: Op) -> bool {
    op matches Op::Call { circuit, inputs, outputs, .. } && circuit == Circuit::CtrBlock
        && inputs.len() == 4 && outputs.len() == 1
}

/// What one operation does to the values. An assignment gives a value its
/// bytes, an evaluation of the block cipher gives the output what the cipher
/// yields on the inputs as they stand; every other operation leaves the
/// values as they are.
pub open spec fn apply(cipher: BlockFn, store: Store, op: Op) -> Store {
    match op {
        Op::Assign { value, bytes } => store.insert(value, bytes),
        Op::Call { inputs, outputs, .. } => if is_block_call(op) {
            store.insert(
                outputs[0],
                cipher(store[inputs[0]], store[inputs[1]], store[inputs[2]], store[inputs[3]]),
            )
        } else {
            store
        },
        _ => store,
    }
}

/// What the operations `ops` do to the values, one after the other.
pub open spec fn run(cipher: BlockFn, store: Store, ops: Seq<Op>) -> Store
    decreases ops.len(),
{
    if ops.len() == 0 {
        store
    } else {
        apply(cipher, run(cipher, store, ops.drop_last()), ops.last())
    }
}

/// The bytes that `bytes` refers to.
pub open spec fn read(store: Store, bytes: Seq<ByteRef>) -> Seq<u8> {
    Seq::new(bytes.len(), |k: int| store[bytes[k].value][bytes[k].index as int])
}

/// Whether `op` leaves the values as they are.
pub open spec fn is_inert(op: Op) -> bool {
    !(op is Assign) && !is_block_call(op)
}

/// Running one list of operations after another is running both in a row.
pub proof fn lemma_run_concat(cipher: BlockFn, store: Store, a: Seq<Op>, b: Seq<Op>)
    ensures
        run(cipher, store, a + b) == run(cipher, run(cipher, store, a), b),
    decreases b.len(),
{
    if b.len() > 0 {
        assert((a + b).drop_last() =~= a + b.drop_last());
        lemma_run_concat(cipher, store, a, b.drop_last());
    }
}

/// Running a list with one more operation is running the list and then
/// that operation.
pub proof fn lemma_run_push(cipher: BlockFn, store: Store, ops: Seq<Op>, op: Op)
    ensures
        run(cipher, store, ops.push(op)) == apply(cipher, run(cipher, store, ops), op),
{
    assert(ops.push(op).drop_last() =~= ops);
}

/// Operations that leave the values as they are do so in a row, too.
pub proof fn lemma_run_inert(cipher: BlockFn, store: Store, ops: Seq<Op>)
    requires
        forall|k: int| 0 <= k < ops.len() ==> is_inert(#[trigger] ops[k]),
    ensures
        run(cipher, store, ops) == store,
    decreases ops.len(),
{
    if ops.len() > 0 {
        lemma_run_inert(cipher, store, ops.drop_last());
    }
}

} // verus!
