//! What holds of the key stream: its plans, run in an ideal session, yield
//! the key stream of counter mode, whichever blocks were prepared ahead and
//! whichever mode evaluates them.

use crate::config::ExecutionMode;
use crate::error::VmError;
use crate::ideal::{
    is_inert, lemma_run_concat, lemma_run_inert, lemma_run_push, read, run, BlockFn, Store,
};
use crate::keystream::{
    all_block_inputs, assign_ops, assign_var_ops, be32, block_index, block_inputs, block_var,
    call_ops, define_ops, define_var_ops, flat_bytes, lemma_assign_ops_push, lemma_block_count,
    lemma_define_ops_push, BlockVar, CtrCipher, StreamState,
};
use crate::vm::{BlockPart, ByteRef, Circuit, Op, ValueId};
use vstd::arithmetic::div_mod::{
    lemma_fundamental_div_mod, lemma_fundamental_div_mod_converse, lemma_mod_bound,
};
use vstd::prelude::*;

verus! {

/// The key stream of counter mode: byte `k` is byte `k % block_len` of the
/// block that the cipher yields for the counter `start_ctr + k / block_len`.
pub open spec fn ctr_keystream(
    cipher: BlockFn,
    key: Seq<u8>,
    iv: Seq<u8>,
    nonce: Seq<u8>,
    start_ctr: int,
    block_len: int,
    len: int,
) -> Seq<u8> {
    Seq::new(
        len as nat,
        |k: int| cipher(key, iv, nonce, be32(start_ctr + k / block_len))[k % block_len],
    )
}

/// Whether `value` is none of the values of the key stream `stream`.
pub open spec fn outside_stream(stream: u64, value: ValueId) -> bool {
    !(value matches ValueId::Block { stream: s, .. } && s == stream)
}

/// The blocks `vars` belong to the key stream `stream`, and their numbers
/// rise: no two of them share a value.
pub open spec fn distinct_blocks(stream: u64, vars: Seq<BlockVar>) -> bool {
    &&& forall|i: int|
        0 <= i < vars.len() ==> #[trigger] vars[i] == block_var(stream, block_index(vars[i]))
    &&& forall|i: int, j: int|
        0 <= i < j < vars.len() ==> block_index(#[trigger] vars[i]) < block_index(
            #[trigger] vars[j],
        )
}

/// A record takes as many blocks as its length asks for, and they are
/// distinct.
pub proof fn lemma_compute_vars(s: StreamState, len: int)
    requires
        s.wf(),
        0 <= len,
        s.next_block + s.shortfall(len) <= u64::MAX,
    ensures
        s.compute_vars(len).len() == s.blocks_for(len),
        distinct_blocks(s.stream, s.compute_vars(len)),
{
    lemma_block_count(len, s.cipher.block_len as int);
    let vars = s.compute_vars(len);
    let taken = s.taken(len);
    // Blocks from the queue have numbers below the next one, new blocks
    // count on from it.
    assert forall|i: int| 0 <= i < vars.len() implies #[trigger] vars[i] == block_var(
        s.stream,
        block_index(vars[i]),
    ) && (i < taken ==> block_index(vars[i]) < s.next_block) && (i >= taken ==> block_index(
        vars[i],
    ) == s.next_block + (i - taken)) by {}
}

/// Distinct blocks stay distinct without the last of them.
pub proof fn lemma_distinct_front(stream: u64, vars: Seq<BlockVar>)
    requires
        distinct_blocks(stream, vars),
        vars.len() > 0,
    ensures
        distinct_blocks(stream, vars.drop_last()),
{
    let front = vars.drop_last();
    assert forall|i: int| 0 <= i < front.len() implies #[trigger] front[i] == vars[i] by {}
}

/// Allocating blocks allocates and marks, and does nothing else.
pub proof fn lemma_define_allocates(cipher: CtrCipher, vars: Seq<BlockVar>)
    ensures
        forall|k: int|
            0 <= k < define_ops(cipher, vars).len() ==> {
                let op = #[trigger] define_ops(cipher, vars)[k];
                op is Alloc || op is Mark
            },
    decreases vars.len(),
{
    if vars.len() > 0 {
        let front = vars.drop_last();
        lemma_define_allocates(cipher, front);
        lemma_define_ops_push(cipher, front, vars.last());
        assert(front.push(vars.last()) =~= vars);
        let head = define_ops(cipher, front);
        let tail = define_var_ops(cipher, vars.last());
        assert forall|k: int| 0 <= k < (head + tail).len() implies {
            let op = #[trigger] (head + tail)[k];
            op is Alloc || op is Mark
        } by {}
    }
}

/// Giving blocks their nonce and counters assigns, and does nothing else.
pub proof fn lemma_assign_assigns(vars: Seq<BlockVar>, nonce: Seq<u8>, start_ctr: int)
    ensures
        forall|k: int|
            0 <= k < assign_ops(vars, nonce, start_ctr).len() ==> #[trigger] assign_ops(
                vars,
                nonce,
                start_ctr,
            )[k] is Assign,
    decreases vars.len(),
{
    if vars.len() > 0 {
        let front = vars.drop_last();
        lemma_assign_assigns(front, nonce, start_ctr);
        lemma_assign_ops_push(front, vars.last(), nonce, start_ctr);
        assert(front.push(vars.last()) =~= vars);
        let head = assign_ops(front, nonce, start_ctr);
        let tail = assign_var_ops(vars.last(), nonce, start_ctr, front.len() as int);
        assert forall|k: int| 0 <= k < (head + tail).len() implies #[trigger] (head + tail)[k]
            is Assign by {}
    }
}

/// After the assignments, every block holds the nonce and its counter, and
/// every value that is no nonce and no counter of the blocks holds what it
/// held before.
pub proof fn lemma_run_assign(
    cipher: BlockFn,
    store: Store,
    stream: u64,
    vars: Seq<BlockVar>,
    nonce: Seq<u8>,
    start_ctr: int,
)
    requires
        distinct_blocks(stream, vars),
    ensures
        ({
            let after = run(cipher, store, assign_ops(vars, nonce, start_ctr));
            &&& forall|i: int|
                0 <= i < vars.len() ==> after[(#[trigger] vars[i]).nonce] == nonce
                    && after[vars[i].ctr] == be32(start_ctr + i)
            &&& forall|value: ValueId|
                !(value matches ValueId::Block { stream: s, part, .. } && s == stream && part
                    != BlockPart::Output) ==> #[trigger] after[value] == store[value]
        }),
    decreases vars.len(),
{
    if vars.len() > 0 {
        // The last block's assignments come last: they touch no value of
        // an earlier block, whose numbers are lower.
        let front = vars.drop_last();
        let last = vars.last();
        let n = front.len() as int;
        assert(front.push(last) =~= vars);
        lemma_distinct_front(stream, vars);
        lemma_run_assign(cipher, store, stream, front, nonce, start_ctr);
        lemma_assign_ops_push(front, last, nonce, start_ctr);
        let head = assign_ops(front, nonce, start_ctr);
        let op0 = Op::Assign { value: last.nonce, bytes: nonce };
        let op1 = Op::Assign { value: last.ctr, bytes: be32(start_ctr + n) };
        assert(assign_var_ops(last, nonce, start_ctr, n) =~= seq![op0].push(op1));
        assert(head + seq![op0].push(op1) =~= head.push(op0).push(op1));
        lemma_run_push(cipher, store, head, op0);
        lemma_run_push(cipher, store, head.push(op0), op1);
        let after = run(cipher, store, assign_ops(vars, nonce, start_ctr));
        assert forall|i: int| 0 <= i < vars.len() implies after[(#[trigger] vars[i]).nonce]
            == nonce && after[vars[i].ctr] == be32(start_ctr + i) by {}
    }
}

/// After the evaluations, the output of every block holds what the cipher
/// yields on key, IV and the block's nonce and counter, and every value that
/// is no output of the blocks holds what it held before.
pub proof fn lemma_run_calls(
    cipher: BlockFn,
    store: Store,
    stream: u64,
    mode: ExecutionMode,
    key: ValueId,
    iv: ValueId,
    vars: Seq<BlockVar>,
)
    requires
        distinct_blocks(stream, vars),
        outside_stream(stream, key),
        outside_stream(stream, iv),
    ensures
        ({
            let after = run(cipher, store, call_ops(mode, key, iv, vars));
            &&& forall|i: int|
                0 <= i < vars.len() ==> after[(#[trigger] vars[i]).block] == cipher(
                    store[key],
                    store[iv],
                    store[vars[i].nonce],
                    store[vars[i].ctr],
                )
            &&& forall|value: ValueId|
                !(value matches ValueId::Block { stream: s, part, .. } && s == stream && part
                    == BlockPart::Output) ==> #[trigger] after[value] == store[value]
        }),
    decreases vars.len(),
{
    if vars.len() > 0 {
        // The last block is evaluated last: its inputs are no outputs, and
        // its output is none of an earlier block, whose numbers are lower.
        let front = vars.drop_last();
        let last = vars.last();
        let n = front.len() as int;
        lemma_distinct_front(stream, vars);
        lemma_run_calls(cipher, store, stream, mode, key, iv, front);
        let head = call_ops(mode, key, iv, front);
        let op = Op::Call {
            mode,
            circuit: Circuit::CtrBlock,
            inputs: block_inputs(key, iv, last),
            outputs: seq![last.block],
        };
        assert(call_ops(mode, key, iv, vars) =~= head.push(op));
        lemma_run_push(cipher, store, head, op);
        let after = run(cipher, store, call_ops(mode, key, iv, vars));
        assert forall|i: int| 0 <= i < vars.len() implies after[(#[trigger] vars[i]).block]
            == cipher(store[key], store[iv], store[vars[i].nonce], store[vars[i].ctr]) by {
            if i < n {
                assert(vars[i] == front[i]);
            }
        }
    }
}

/// The plan of `compute`, run in an ideal session, leaves in the bytes that
/// `compute` returns the key stream of counter mode under the key and the
/// IV as the session holds them: exactly `len` bytes, block `i` enciphering
/// the nonce and the counter `start_ctr + i`.
///
/// This needs a key and an IV that are no values of the key stream itself.
pub proof fn lemma_compute_yields_keystream(
    s: StreamState,
    cipher: BlockFn,
    store: Store,
    mode: ExecutionMode,
    key: ValueId,
    iv: ValueId,
    nonce: Seq<u8>,
    start_ctr: int,
    len: int,
)
    requires
        s.wf(),
        0 <= len,
        s.next_block + s.shortfall(len) <= u64::MAX,
        outside_stream(s.stream, key),
        outside_stream(s.stream, iv),
    ensures
        read(
            run(cipher, store, s.compute_ops(mode, key, iv, nonce, start_ctr, len)),
            flat_bytes(s.compute_vars(len), s.cipher.block_len as int, len),
        ) == ctr_keystream(
            cipher,
            store[key],
            store[iv],
            nonce,
            start_ctr,
            s.cipher.block_len as int,
            len,
        ),
{
    let block_len = s.cipher.block_len as int;
    let vars = s.compute_vars(len);
    let ops = s.compute_ops(mode, key, iv, nonce, start_ctr, len);
    let bytes = flat_bytes(vars, block_len, len);
    let want = ctr_keystream(cipher, store[key], store[iv], nonce, start_ctr, block_len, len);
    lemma_compute_vars(s, len);
    lemma_block_count(len, block_len);
    if vars.len() > 0 {
        let define = define_ops(s.cipher, s.compute_fresh(len));
        let assign = assign_ops(vars, nonce, start_ctr);
        let commit = Op::Commit { mode, values: all_block_inputs(key, iv, vars) };
        let calls = call_ops(mode, key, iv, vars);

        // Allocating changes no value.
        lemma_define_allocates(s.cipher, s.compute_fresh(len));
        assert forall|k: int| 0 <= k < define.len() implies is_inert(#[trigger] define[k]) by {}
        lemma_run_inert(cipher, store, define);

        // The assignments give every block its nonce and its counter.
        lemma_run_concat(cipher, store, define, assign);
        let assigned = run(cipher, store, define + assign);
        lemma_run_assign(cipher, store, s.stream, vars, nonce, start_ctr);

        // Committing changes no value.
        assert(define + assign + seq![commit] =~= (define + assign).push(commit));
        lemma_run_push(cipher, store, define + assign, commit);

        // The evaluations give every output its block.
        lemma_run_concat(cipher, store, define + assign + seq![commit], calls);
        lemma_run_calls(cipher, assigned, s.stream, mode, key, iv, vars);

        // Byte `k` of the record is byte `k % block_len` of block
        // `k / block_len`.
        assert forall|k: int| 0 <= k < len implies #[trigger] read(
            run(cipher, store, ops),
            bytes,
        )[k] == want[k] by {
            lemma_mod_bound(k, block_len);
        }
    }
}

/// Counter mode composes: the key stream of a record that starts at the
/// counter `start_ctr` is the key stream of its first `blocks` blocks,
/// followed by the key stream that starts at the counter
/// `start_ctr + blocks`. For two blocks from counter 0 on, these are the
/// block of counter 0 and the block of counter 1.
pub proof fn lemma_counter_mode_composes(
    cipher: BlockFn,
    key: Seq<u8>,
    iv: Seq<u8>,
    nonce: Seq<u8>,
    start_ctr: int,
    block_len: int,
    blocks: int,
    len: int,
)
    requires
        0 < block_len,
        0 <= blocks,
        0 <= len,
    ensures
        ctr_keystream(cipher, key, iv, nonce, start_ctr, block_len, blocks * block_len + len)
            == ctr_keystream(cipher, key, iv, nonce, start_ctr, block_len, blocks * block_len)
            + ctr_keystream(cipher, key, iv, nonce, start_ctr + blocks, block_len, len),
{
    let first = blocks * block_len;
    assert(0 <= blocks * block_len) by (nonlinear_arith)
        requires
            0 <= blocks,
            0 < block_len,
    ;
    let whole = ctr_keystream(cipher, key, iv, nonce, start_ctr, block_len, first + len);
    let head = ctr_keystream(cipher, key, iv, nonce, start_ctr, block_len, first);
    let tail = ctr_keystream(cipher, key, iv, nonce, start_ctr + blocks, block_len, len);
    assert forall|k: int| 0 <= k < first + len implies whole[k] == (head + tail)[k] by {
        if k >= first {
            let j = k - first;
            lemma_fundamental_div_mod(j, block_len);
            lemma_mod_bound(j, block_len);
            assert(k == (blocks + j / block_len) * block_len + j % block_len)
                by (nonlinear_arith)
                requires
                    k == blocks * block_len + j,
                    j == block_len * (j / block_len) + j % block_len,
            ;
            lemma_fundamental_div_mod_converse(
                k,
                block_len,
                blocks + j / block_len,
                j % block_len,
            );
        }
    }
}

/// Blocks that were prepared for `len` bytes serve a record of `len`
/// bytes: its plan allocates nothing, it only assigns, commits and
/// evaluates. If the queue was empty before, the record takes exactly the
/// prepared blocks and leaves the queue empty. Run in an ideal session, the
/// record yields the key stream that it yields without preparing.
pub proof fn lemma_preprocess_then_compute(
    s: StreamState,
    cipher: BlockFn,
    store: Store,
    mode: ExecutionMode,
    key: ValueId,
    iv: ValueId,
    nonce: Seq<u8>,
    start_ctr: int,
    len: int,
)
    requires
        s.wf(),
        0 <= len,
        s.key is Some,
        s.iv is Some,
        s.next_block + s.blocks_for(len) <= u64::MAX,
        outside_stream(s.stream, key),
        outside_stream(s.stream, iv),
    ensures
        ({
            let p = s.preprocess(Ok(()), len).0;
            let vars = p.queue.subrange(0, p.blocks_for(len));
            &&& p.wf()
            &&& p.queue.len() == s.queue.len() + s.blocks_for(len)
            &&& p.compute_vars(len) == vars
            &&& p.after_compute(len).next_block == p.next_block
            &&& p.compute_ops(mode, key, iv, nonce, start_ctr, len) == if vars.len() == 0 {
                Seq::<Op>::empty()
            } else {
                assign_ops(vars, nonce, start_ctr) + seq![
                    Op::Commit { mode, values: all_block_inputs(key, iv, vars) },
                ] + call_ops(mode, key, iv, vars)
            }
            &&& s.queue.len() == 0 ==> vars == s.preprocess_fresh(len) && p.after_compute(
                len,
            ).queue == Seq::<BlockVar>::empty()
            &&& read(
                run(cipher, store, p.compute_ops(mode, key, iv, nonce, start_ctr, len)),
                flat_bytes(p.compute_vars(len), p.cipher.block_len as int, len),
            ) == read(
                run(cipher, store, s.compute_ops(mode, key, iv, nonce, start_ctr, len)),
                flat_bytes(s.compute_vars(len), s.cipher.block_len as int, len),
            )
        }),
{
    let p = s.preprocess(Ok(()), len).0;
    lemma_block_count(len, s.cipher.block_len as int);
    assert(p.wf()) by {
        // The blocks that were in the queue have numbers below the old
        // next one, the prepared blocks count on from it.
        assert forall|i: int| 0 <= i < p.queue.len() implies #[trigger] p.queue[i] == block_var(
            p.stream,
            block_index(p.queue[i]),
        ) && block_index(p.queue[i]) < p.next_block && (i < s.queue.len() ==> block_index(
            p.queue[i],
        ) < s.next_block) && (i >= s.queue.len() ==> block_index(p.queue[i]) == s.next_block + (i
            - s.queue.len())) by {}
    }
    lemma_compute_yields_keystream(p, cipher, store, mode, key, iv, nonce, start_ctr, len);
    lemma_compute_yields_keystream(s, cipher, store, mode, key, iv, nonce, start_ctr, len);
}

/// The operation `op`, for the mode `mode`.
pub open spec fn with_mode(op: Op, mode: ExecutionMode) -> Op {
    match op {
        Op::Commit { values, .. } => Op::Commit { mode, values },
        Op::Call { circuit, inputs, outputs, .. } => Op::Call { mode, circuit, inputs, outputs },
        _ => op,
    }
}

/// The mode decides by which primitive the session commits and evaluates,
/// and nothing else. The plans of one record under two modes are the same
/// operations on the same values, each for its mode; `compute` returns the
/// same bytes; and run in an ideal session both plans yield the same key
/// stream. So a party that proves and a party that verifies agree.
pub proof fn lemma_modes_agree(
    s: StreamState,
    cipher: BlockFn,
    store: Store,
    a: ExecutionMode,
    b: ExecutionMode,
    key: ValueId,
    iv: ValueId,
    nonce: Seq<u8>,
    start_ctr: int,
    len: int,
)
    requires
        s.wf(),
        0 <= len,
        s.next_block + s.shortfall(len) <= u64::MAX,
        outside_stream(s.stream, key),
        outside_stream(s.stream, iv),
    ensures
        s.compute_ops(b, key, iv, nonce, start_ctr, len) == s.compute_ops(
            a,
            key,
            iv,
            nonce,
            start_ctr,
            len,
        ).map_values(|op: Op| with_mode(op, b)),
        read(
            run(cipher, store, s.compute_ops(a, key, iv, nonce, start_ctr, len)),
            flat_bytes(s.compute_vars(len), s.cipher.block_len as int, len),
        ) == read(
            run(cipher, store, s.compute_ops(b, key, iv, nonce, start_ctr, len)),
            flat_bytes(s.compute_vars(len), s.cipher.block_len as int, len),
        ),
{
    let vars = s.compute_vars(len);
    let ops_a = s.compute_ops(a, key, iv, nonce, start_ctr, len);
    let ops_b = s.compute_ops(b, key, iv, nonce, start_ctr, len);
    let mapped = ops_a.map_values(|op: Op| with_mode(op, b));
    if vars.len() > 0 {
        // Allocations and assignments have no mode; the commitment and the
        // evaluations carry it.
        lemma_define_allocates(s.cipher, s.compute_fresh(len));
        lemma_assign_assigns(vars, nonce, start_ctr);
        assert forall|k: int| 0 <= k < ops_b.len() implies mapped[k] == ops_b[k] by {}
    }
    lemma_compute_yields_keystream(s, cipher, store, a, key, iv, nonce, start_ctr, len);
    lemma_compute_yields_keystream(s, cipher, store, b, key, iv, nonce, start_ctr, len);
}

/// The key stream of a record is the key stream of its first `blocks`
/// blocks followed by the key stream of the rest, computed from the counter
/// `start_ctr + blocks` on, whatever blocks each of the three takes. So two
/// blocks from counter 0 on are the block of counter 0 followed by the block
/// of counter 1.
pub proof fn lemma_compute_composes(
    whole: StreamState,
    head: StreamState,
    tail: StreamState,
    cipher: BlockFn,
    store: Store,
    mode: ExecutionMode,
    key: ValueId,
    iv: ValueId,
    nonce: Seq<u8>,
    start_ctr: int,
    blocks: int,
    len: int,
)
    requires
        whole.wf(),
        head.wf(),
        tail.wf(),
        whole.cipher == head.cipher,
        whole.cipher == tail.cipher,
        0 <= blocks,
        0 <= len,
        whole.next_block + whole.shortfall(blocks * whole.cipher.block_len + len) <= u64::MAX,
        head.next_block + head.shortfall(blocks * whole.cipher.block_len) <= u64::MAX,
        tail.next_block + tail.shortfall(len) <= u64::MAX,
        outside_stream(whole.stream, key),
        outside_stream(whole.stream, iv),
        outside_stream(head.stream, key),
        outside_stream(head.stream, iv),
        outside_stream(tail.stream, key),
        outside_stream(tail.stream, iv),
    ensures
        ({
            let block_len = whole.cipher.block_len as int;
            let first = blocks * block_len;
            read(
                run(cipher, store, whole.compute_ops(mode, key, iv, nonce, start_ctr, first + len)),
                flat_bytes(whole.compute_vars(first + len), block_len, first + len),
            ) == read(
                run(cipher, store, head.compute_ops(mode, key, iv, nonce, start_ctr, first)),
                flat_bytes(head.compute_vars(first), block_len, first),
            ) + read(
                run(cipher, store, tail.compute_ops(mode, key, iv, nonce, start_ctr + blocks, len)),
                flat_bytes(tail.compute_vars(len), block_len, len),
            )
        }),
{
    let block_len = whole.cipher.block_len as int;
    assert(0 <= blocks * block_len) by (nonlinear_arith)
        requires
            0 <= blocks,
            0 < block_len,
    ;
    let first = blocks * block_len;
    lemma_compute_yields_keystream(
        whole,
        cipher,
        store,
        mode,
        key,
        iv,
        nonce,
        start_ctr,
        first + len,
    );
    lemma_compute_yields_keystream(head, cipher, store, mode, key, iv, nonce, start_ctr, first);
    lemma_compute_yields_keystream(
        tail,
        cipher,
        store,
        mode,
        key,
        iv,
        nonce,
        start_ctr + blocks,
        len,
    );
    lemma_counter_mode_composes(
        cipher,
        store[key],
        store[iv],
        nonce,
        start_ctr,
        block_len,
        blocks,
        len,
    );
}

/// No block is given out twice. The new blocks of a record and of a
/// preparation get the numbers from the next one on, which no block of the
/// queue has, and the next number only ever rises past them. Whatever
/// the session did, the key stream stays well formed.
pub proof fn lemma_new_blocks_are_new(
    s: StreamState,
    vm: Result<(), VmError>,
    nonce_len: int,
    len: int,
)
    requires
        s.wf(),
        0 <= len,
        s.next_block + s.blocks_for(len) <= u64::MAX,
    ensures
        ({
            let computed = s.compute(vm, nonce_len, len).0;
            let prepared = s.preprocess(vm, len).0;
            &&& computed.wf()
            &&& prepared.wf()
            &&& s.next_block <= computed.next_block
            &&& s.next_block <= prepared.next_block
            &&& forall|i: int|
                0 <= i < s.compute_fresh(len).len() ==> s.next_block <= block_index(
                    #[trigger] s.compute_fresh(len)[i],
                ) < s.after_compute(len).next_block
            &&& forall|i: int|
                0 <= i < s.preprocess_fresh(len).len() ==> s.next_block <= block_index(
                    #[trigger] s.preprocess_fresh(len)[i],
                ) < s.next_block + s.blocks_for(len)
            &&& forall|i: int|
                0 <= i < s.queue.len() ==> block_index(#[trigger] s.queue[i]) < s.next_block
        }),
{
    lemma_block_count(len, s.cipher.block_len as int);
    let prepared = s.preprocess(vm, len).0;
    assert(prepared.wf()) by {
        assert forall|i: int| 0 <= i < prepared.queue.len() implies #[trigger] prepared.queue[i]
            == block_var(prepared.stream, block_index(prepared.queue[i])) && block_index(
            prepared.queue[i],
        ) < prepared.next_block && (i < s.queue.len() ==> block_index(prepared.queue[i])
            < s.next_block) && (i >= s.queue.len() ==> block_index(prepared.queue[i])
            == s.next_block + (i - s.queue.len())) by {}
    }
    let computed = s.compute(vm, nonce_len, len).0;
    assert(computed.wf()) by {
        assert forall|i: int| 0 <= i < computed.queue.len() implies #[trigger] computed.queue[i]
            == s.queue[i + (s.queue.len() - computed.queue.len())] by {}
    }
}

} // verus!
