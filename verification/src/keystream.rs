//! The key stream: turns a key and an IV into counter-mode key stream, one
//! evaluation of the block cipher per block, with a queue of blocks that
//! were prepared ahead of the record they are for.
//!
//! As with the PRF, every operation comes as a pair: the function whose name
//! ends in `_plan` says what the session has to do, the operation itself is
//! told how that ended.

use crate::config::ExecutionMode;
use crate::error::{StreamCipherError, VmError};
use crate::vm::{
    lemma_ops_view_push, ops_view, BlockPart, ByteRef, Circuit, Op, ValueId, Visibility, VmOp,
};
use std::collections::VecDeque;
use vstd::arithmetic::div_mod::{lemma_add_mod_noop, lemma_fundamental_div_mod, lemma_mod_bound};
use vstd::prelude::*;

verus! {

/// The width of the block counter, in bytes.
pub const CTR_LEN: usize = 4;

/// A block cipher in counter mode, as far as the key stream has to know it.
#[derive(Clone, Copy, Debug, PartialEq, Eq, Structural)]
pub struct CtrCipher {
    /// The width of a block, in bytes.
    pub block_len: usize,
    /// The width of the explicit nonce, in bytes.
    pub nonce_len: usize,
}

impl CtrCipher {
    /// A cipher has blocks of at least one byte.
    pub open spec fn wf(&self) -> bool {
        self.block_len > 0
    }

    /// A cipher with the given widths, if a block has at least one byte.
    pub fn new(block_len: usize, nonce_len: usize) -> (cipher: Option<CtrCipher>)
        ensures
            cipher == if block_len > 0 {
                Some(CtrCipher { block_len, nonce_len })
            } else {
                None
            },
    {
        if block_len > 0 {
            Some(CtrCipher { block_len, nonce_len })
        } else {
            None
        }
    }

    /// AES-128 in counter mode, as TLS uses it: blocks of 16 bytes and an
    /// explicit nonce of 8 bytes.
    pub fn aes128() -> (cipher: CtrCipher)
        ensures
            cipher == (CtrCipher { block_len: 16, nonce_len: 8 }),
    {
        CtrCipher { block_len: 16, nonce_len: 8 }
    }
}

/// The three values of one block: where the cipher's output goes, and the
/// nonce and the counter that go in.
#[derive(Clone, Copy, Debug, PartialEq, Eq, Structural)]
pub struct BlockVar {
    /// The output of the block.
    pub block: ValueId,
    /// The explicit nonce.
    pub nonce: ValueId,
    /// The counter.
    pub ctr: ValueId,
}

/// The number of blocks that `len` bytes of key stream take.
pub open spec fn block_count(len: int, block_len: int) -> int {
    if len % block_len == 0 {
        len / block_len
    } else {
        len / block_len + 1
    }
}

/// The values of block `index` of the key stream `stream`.
pub open spec fn block_var(stream: u64, index: u64) -> BlockVar {
    BlockVar {
        block: ValueId::Block { stream, index, part: BlockPart::Output },
        nonce: ValueId::Block { stream, index, part: BlockPart::Nonce },
        ctr: ValueId::Block { stream, index, part: BlockPart::Counter },
    }
}

/// The values of the `count` blocks from block `next` on.
pub open spec fn fresh_vars(stream: u64, next: int, count: int) -> Seq<BlockVar> {
    Seq::new(count as nat, |i: int| block_var(stream, (next + i) as u64))
}

/// The counter `c`, reduced to 32 bits, most significant byte first.
pub open spec fn be32(c: int) -> Seq<u8> {
    let w = c % 0x1_0000_0000;
    seq![
        (w / 0x100_0000) as u8,
        (w / 0x1_0000 % 0x100) as u8,
        (w / 0x100 % 0x100) as u8,
        (w % 0x100) as u8,
    ]
}

/// Allocating the values of one block. Nonce and counter are public.
pub open spec fn define_var_ops(cipher: CtrCipher, var: BlockVar) -> Seq<Op> {
    seq![
        Op::Alloc { value: var.block, len: cipher.block_len as nat },
        Op::Alloc { value: var.nonce, len: cipher.nonce_len as nat },
        Op::Mark { value: var.nonce, visibility: Visibility::Public },
        Op::Alloc { value: var.ctr, len: CTR_LEN as nat },
        Op::Mark { value: var.ctr, visibility: Visibility::Public },
    ]
}

/// Allocating the values of the blocks `vars`, block by block.
pub open spec fn define_ops(cipher: CtrCipher, vars: Seq<BlockVar>) -> Seq<Op> {
    vars.map_values(|var: BlockVar| define_var_ops(cipher, var)).flatten()
}

/// Giving block `i` of a record its nonce and its counter, `start_ctr + i`.
pub open spec fn assign_var_ops(var: BlockVar, nonce: Seq<u8>, start_ctr: int, i: int) -> Seq<Op> {
    seq![
        Op::Assign { value: var.nonce, bytes: nonce },
        Op::Assign { value: var.ctr, bytes: be32(start_ctr + i) },
    ]
}

/// Giving the blocks `vars` their nonce and their counters, block by block.
pub open spec fn assign_ops(vars: Seq<BlockVar>, nonce: Seq<u8>, start_ctr: int) -> Seq<Op> {
    Seq::new(vars.len(), |i: int| assign_var_ops(vars[i], nonce, start_ctr, i)).flatten()
}

/// What goes into the cipher for one block.
pub open spec fn block_inputs(key: ValueId, iv: ValueId, var: BlockVar) -> Seq<ValueId> {
    seq![key, iv, var.nonce, var.ctr]
}

/// What goes into the cipher for the blocks `vars`, block by block.
pub open spec fn all_block_inputs(key: ValueId, iv: ValueId, vars: Seq<BlockVar>) -> Seq<ValueId> {
    vars.map_values(|var: BlockVar| block_inputs(key, iv, var)).flatten()
}

/// Evaluating the cipher on each of the blocks `vars`, under `mode`.
pub open spec fn call_ops(mode: ExecutionMode, key: ValueId, iv: ValueId, vars: Seq<BlockVar>) -> Seq<
    Op,
> {
    vars.map_values(
        |var: BlockVar|
            Op::Call {
                mode,
                circuit: Circuit::CtrBlock,
                inputs: block_inputs(key, iv, var),
                outputs: seq![var.block],
            },
    )
}

/// Preparing the cipher for each of the blocks `vars`.
pub open spec fn load_ops(key: ValueId, iv: ValueId, vars: Seq<BlockVar>) -> Seq<Op> {
    vars.map_values(
        |var: BlockVar|
            Op::Load {
                circuit: Circuit::CtrBlock,
                inputs: block_inputs(key, iv, var),
                outputs: seq![var.block],
            },
    )
}

/// The first `len` bytes of the outputs of the blocks `vars`, in order; all
/// of them, if there are fewer.
pub open spec fn flat_bytes(vars: Seq<BlockVar>, block_len: int, len: int) -> Seq<ByteRef> {
    let n = if len <= vars.len() * block_len {
        len
    } else {
        vars.len() * block_len
    };
    Seq::new(
        n as nat,
        |k: int| ByteRef { value: vars[k / block_len].block, index: (k % block_len) as usize },
    )
}

/// A queue of blocks, first in, first out.
#[derive(Debug)]
pub struct BlockVars {
    vars: VecDeque<BlockVar>,
}

impl View for BlockVars {
    type V = Seq<BlockVar>;

    closed spec fn view(&self) -> Seq<BlockVar> {
        self.vars@
    }
}

impl Default for BlockVars {
    /// An empty queue.
    fn default() -> (vars: BlockVars)
        ensures
            vars@ == Seq::<BlockVar>::empty(),
    {
        BlockVars::new()
    }
}

impl BlockVars {
    /// An empty queue.
    pub fn new() -> (vars: BlockVars)
        ensures
            vars@ == Seq::<BlockVar>::empty(),
    {
        BlockVars { vars: VecDeque::new() }
    }

    /// Whether the queue holds no block.
    pub fn is_empty(&self) -> (empty: bool)
        ensures
            empty == (self@.len() == 0),
    {
        self.vars.len() == 0
    }

    /// The number of blocks in the queue.
    pub fn len(&self) -> (len: usize)
        ensures
            len == self@.len(),
    {
        self.vars.len()
    }

    /// The block at position `i`, counted from the front.
    pub fn get(&self, i: usize) -> (var: BlockVar)
        requires
            i < self@.len(),
        ensures
            var == self@[i as int],
    {
        self.vars[i]
    }

    /// Puts a block at the back of the queue.
    pub fn push(&mut self, var: BlockVar)
        ensures
            final(self)@ == old(self)@.push(var),
    {
        self.vars.push_back(var);
    }

    /// Takes the first `count` blocks out of the queue, in order.
    pub fn drain(&mut self, count: usize) -> (front: BlockVars)
        requires
            count <= old(self)@.len(),
        ensures
            front@ == old(self)@.subrange(0, count as int),
            final(self)@ == old(self)@.subrange(count as int, old(self)@.len() as int),
    {
        let mut front = BlockVars::new();
        let mut i: usize = 0;
        while i < count
            invariant
                i <= count <= old(self)@.len(),
                front@ == old(self)@.subrange(0, i as int),
                self@ == old(self)@.subrange(i as int, old(self)@.len() as int),
            decreases count - i,
        {
            let var = self.vars.pop_front();
            match var {
                Some(var) => {
                    front.vars.push_back(var);
                },
                None => {},
            }
            i += 1;
        }
        front
    }

    /// Puts the blocks `vars` at the back of the queue, in order.
    pub fn extend(&mut self, vars: BlockVars)
        ensures
            final(self)@ == old(self)@ + vars@,
    {
        let mut vars = vars;
        let ghost all = vars@;
        let n = vars.len();
        let mut i: usize = 0;
        while i < n
            invariant
                i <= n == all.len(),
                vars@ == all.subrange(i as int, n as int),
                self@ == old(self)@ + all.subrange(0, i as int),
            decreases n - i,
        {
            let var = vars.vars.pop_front();
            match var {
                Some(var) => {
                    self.vars.push_back(var);
                },
                None => {},
            }
            i += 1;
        }
    }

    /// The first `len` bytes of the outputs of the blocks, in order, where
    /// each block is `block_len` bytes wide; all of them, if there are fewer.
    pub fn flatten(&self, block_len: usize, len: usize) -> (bytes: Vec<ByteRef>)
        requires
            block_len > 0,
        ensures
            bytes@ == flat_bytes(self@, block_len as int, len as int),
    {
        let n = self.vars.len();
        let mut bytes: Vec<ByteRef> = Vec::new();
        let mut k: usize = 0;
        while k < len && k / block_len < n
            invariant
                block_len > 0,
                n == self@.len(),
                k <= len,
                k <= n * block_len,
                bytes@ == Seq::new(
                    k as nat,
                    |j: int|
                        ByteRef {
                            value: self@[j / block_len as int].block,
                            index: (j % block_len as int) as usize,
                        },
                ),
            decreases len - k,
        {
            let var = self.vars[k / block_len];
            proof {
                let q = k as int / block_len as int;
                let b = block_len as int;
                lemma_fundamental_div_mod(k as int, b);
                lemma_mod_bound(k as int, b);
                assert(b * q + b <= n * b) by (nonlinear_arith)
                    requires
                        q + 1 <= n,
                        b > 0,
                ;
            }
            bytes.push(ByteRef { value: var.block, index: k % block_len });
            k += 1;
        }
        proof {
            if k < len {
                let q = k as int / block_len as int;
                let b = block_len as int;
                lemma_fundamental_div_mod(k as int, b);
                lemma_mod_bound(k as int, b);
                assert(b * q >= n * b) by (nonlinear_arith)
                    requires
                        q >= n,
                        b > 0,
                ;
            }
        }
        bytes
    }
}

/// The number of the block that `var` belongs to.
pub open spec fn block_index(var: BlockVar) -> u64 {
    match var.block {
        ValueId::Block { index, .. } => index,
        _ => 0,
    }
}

/// What a key stream is made of, as a mathematical value.
#[verifier::ext_equal]
pub struct StreamState {
    /// The number that tells this key stream from others of the session.
    pub stream: u64,
    /// The cipher.
    pub cipher: CtrCipher,
    /// The key, once it is set.
    pub key: Option<ValueId>,
    /// The IV, once it is set.
    pub iv: Option<ValueId>,
    /// The number that the next new block gets.
    pub next_block: u64,
    /// The blocks that were prepared and not used yet, oldest first.
    pub queue: Seq<BlockVar>,
}

impl StreamState {
    /// The queue holds blocks of this key stream only, each with a number
    /// below the next one to be given out, in rising order: no block
    /// occurs twice, and no new block will collide with one in the queue.
    pub open spec fn wf(self) -> bool {
        &&& self.cipher.wf()
        &&& forall|i: int|
            0 <= i < self.queue.len() ==> {
                &&& #[trigger] self.queue[i] == block_var(self.stream, block_index(self.queue[i]))
                &&& block_index(self.queue[i]) < self.next_block
            }
        &&& forall|i: int, j: int|
            0 <= i < j < self.queue.len() ==> block_index(#[trigger] self.queue[i]) < block_index(
                #[trigger] self.queue[j],
            )
    }

    /// The number of blocks that `len` bytes take.
    pub open spec fn blocks_for(self, len: int) -> int {
        block_count(len, self.cipher.block_len as int)
    }

    /// The number of blocks that a record of `len` bytes takes from the
    /// queue: as many as it needs, as far as the queue has them.
    pub open spec fn taken(self, len: int) -> int {
        if self.blocks_for(len) <= self.queue.len() {
            self.blocks_for(len)
        } else {
            self.queue.len() as int
        }
    }

    /// The number of blocks that a record of `len` bytes needs beyond what
    /// the queue has.
    pub open spec fn shortfall(self, len: int) -> int {
        self.blocks_for(len) - self.taken(len)
    }

    /// The new blocks of a record of `len` bytes.
    pub open spec fn compute_fresh(self, len: int) -> Seq<BlockVar> {
        fresh_vars(self.stream, self.next_block as int, self.shortfall(len))
    }

    /// The blocks of a record of `len` bytes: blocks from the front of the
    /// queue first, new ones after that.
    pub open spec fn compute_vars(self, len: int) -> Seq<BlockVar> {
        self.queue.subrange(0, self.taken(len)) + self.compute_fresh(len)
    }

    /// What `compute` asks of the session: nothing for an empty record;
    /// else the new blocks are allocated, every block gets the nonce and its
    /// counter, all inputs are committed to at once, and the cipher is
    /// evaluated block by block.
    pub open spec fn compute_ops(
        self,
        mode: ExecutionMode,
        key: ValueId,
        iv: ValueId,
        nonce: Seq<u8>,
        start_ctr: int,
        len: int,
    ) -> Seq<Op> {
        let vars = self.compute_vars(len);
        if vars.len() == 0 {
            Seq::empty()
        } else {
            define_ops(self.cipher, self.compute_fresh(len)) + assign_ops(vars, nonce, start_ctr)
                + seq![Op::Commit { mode, values: all_block_inputs(key, iv, vars) }] + call_ops(
                mode,
                key,
                iv,
                vars,
            )
        }
    }

    /// Why `compute` refuses a record, if it does: a nonce of the wrong
    /// width first of all, then a key stream whose key and IV were never set.
    pub open spec fn compute_refusal(self, nonce_len: int) -> Option<StreamCipherError> {
        if nonce_len != self.cipher.nonce_len {
            Some(
                StreamCipherError::NonceLength {
                    expected: self.cipher.nonce_len,
                    actual: nonce_len as usize,
                },
            )
        } else if self.key is None || self.iv is None {
            Some(StreamCipherError::Precondition)
        } else {
            None
        }
    }

    /// The plan of `compute`, or the error with which it refuses the record.
    pub open spec fn compute_plan(
        self,
        mode: ExecutionMode,
        key: ValueId,
        iv: ValueId,
        nonce: Seq<u8>,
        start_ctr: int,
        len: int,
    ) -> Result<Seq<Op>, StreamCipherError> {
        match self.compute_refusal(nonce.len() as int) {
            Some(e) => Err(e),
            None => Ok(self.compute_ops(mode, key, iv, nonce, start_ctr, len)),
        }
    }

    /// The key stream after `compute`: the blocks of the record have left
    /// the queue, and the new ones have their numbers.
    pub open spec fn after_compute(self, len: int) -> StreamState {
        StreamState {
            next_block: (self.next_block + self.shortfall(len)) as u64,
            queue: self.queue.subrange(self.taken(len), self.queue.len() as int),
            ..self
        }
    }

    /// Where `compute` leads and what it returns, for a nonce of
    /// `nonce_len` bytes and a session that ended as `vm` says.
    pub open spec fn compute(self, vm: Result<(), VmError>, nonce_len: int, len: int) -> (
        StreamState,
        Result<Seq<ByteRef>, StreamCipherError>,
    ) {
        match self.compute_refusal(nonce_len) {
            Some(e) => (self, Err(e)),
            None => (
                self.after_compute(len),
                match vm {
                    Ok(_) => Ok(
                        flat_bytes(self.compute_vars(len), self.cipher.block_len as int, len),
                    ),
                    Err(e) => Err(StreamCipherError::Vm(e)),
                },
            ),
        }
    }

    /// The new blocks of preparing `len` bytes.
    pub open spec fn preprocess_fresh(self, len: int) -> Seq<BlockVar> {
        fresh_vars(self.stream, self.next_block as int, self.blocks_for(len))
    }

    /// The plan of `preprocess`: the new blocks are allocated, then the
    /// cipher is prepared for each. Without key and IV there is none.
    pub open spec fn preprocess_plan(self, len: int) -> Result<Seq<Op>, StreamCipherError> {
        match (self.key, self.iv) {
            (Some(key), Some(iv)) => Ok(
                define_ops(self.cipher, self.preprocess_fresh(len)) + load_ops(
                    key,
                    iv,
                    self.preprocess_fresh(len),
                ),
            ),
            _ => Err(StreamCipherError::Precondition),
        }
    }

    /// Where `preprocess` leads and what it returns. The new blocks join
    /// the queue only if the session went through with them.
    pub open spec fn preprocess(self, vm: Result<(), VmError>, len: int) -> (
        StreamState,
        Result<(), StreamCipherError>,
    ) {
        if self.key is None || self.iv is None {
            (self, Err(StreamCipherError::Precondition))
        } else {
            let next_block = (self.next_block + self.blocks_for(len)) as u64;
            match vm {
                Ok(_) => (
                    StreamState {
                        next_block,
                        queue: self.queue + self.preprocess_fresh(len),
                        ..self
                    },
                    Ok(()),
                ),
                Err(e) => (StreamState { next_block, ..self }, Err(StreamCipherError::Vm(e))),
            }
        }
    }
}

/// The number of blocks is the length divided by the width of a block,
/// rounded up: every byte of the record lies in one of the blocks.
pub proof fn lemma_block_count(len: int, block_len: int)
    requires
        0 <= len,
        0 < block_len,
    ensures
        0 <= block_count(len, block_len),
        len <= block_count(len, block_len) * block_len,
        len > 0 ==> (block_count(len, block_len) - 1) * block_len < len,
        forall|k: int| 0 <= k < len ==> 0 <= #[trigger] (k / block_len) < block_count(len, block_len),
{
    let q = len / block_len;
    let m = len % block_len;
    lemma_fundamental_div_mod(len, block_len);
    lemma_mod_bound(len, block_len);
    let count = block_count(len, block_len);
    assert(0 <= q) by (nonlinear_arith)
        requires
            len == block_len * q + m,
            0 <= m < block_len,
            0 <= len,
    ;
    assert(len <= count * block_len && (len > 0 ==> (count - 1) * block_len < len))
        by (nonlinear_arith)
        requires
            len == block_len * q + m,
            0 <= m < block_len,
            count == if m == 0 {
                q
            } else {
                q + 1
            },
    ;
    assert forall|k: int| 0 <= k < len implies 0 <= #[trigger] (k / block_len) < count by {
        let kq = k / block_len;
        lemma_fundamental_div_mod(k, block_len);
        lemma_mod_bound(k, block_len);
        assert(0 <= kq < count) by (nonlinear_arith)
            requires
                k == block_len * kq + k % block_len,
                0 <= k % block_len < block_len,
                0 <= k < len,
                len <= count * block_len,
                0 < block_len,
        ;
    }
}

/// Allocating one more block appends that block's allocations.
pub proof fn lemma_define_ops_push(cipher: CtrCipher, vars: Seq<BlockVar>, var: BlockVar)
    ensures
        define_ops(cipher, vars.push(var)) == define_ops(cipher, vars) + define_var_ops(
            cipher,
            var,
        ),
{
    let f = |v: BlockVar| define_var_ops(cipher, v);
    assert(vars.push(var).map_values(f) =~= vars.map_values(f).push(f(var)));
    vars.map_values(f).lemma_flatten_push(f(var));
}

/// Assigning to one more block appends that block's assignments; its counter
/// follows from its place.
pub proof fn lemma_assign_ops_push(vars: Seq<BlockVar>, var: BlockVar, nonce: Seq<u8>, start_ctr: int)
    ensures
        assign_ops(vars.push(var), nonce, start_ctr) == assign_ops(vars, nonce, start_ctr)
            + assign_var_ops(var, nonce, start_ctr, vars.len() as int),
{
    let all = vars.push(var);
    let chunks = Seq::new(vars.len(), |i: int| assign_var_ops(vars[i], nonce, start_ctr, i));
    let more = Seq::new(all.len(), |i: int| assign_var_ops(all[i], nonce, start_ctr, i));
    assert(more =~= chunks.push(assign_var_ops(var, nonce, start_ctr, vars.len() as int)));
    chunks.lemma_flatten_push(assign_var_ops(var, nonce, start_ctr, vars.len() as int));
}

/// One more block appends that block's inputs.
pub proof fn lemma_all_block_inputs_push(key: ValueId, iv: ValueId, vars: Seq<BlockVar>, var: BlockVar)
    ensures
        all_block_inputs(key, iv, vars.push(var)) == all_block_inputs(key, iv, vars) + block_inputs(
            key,
            iv,
            var,
        ),
{
    let f = |v: BlockVar| block_inputs(key, iv, v);
    assert(vars.push(var).map_values(f) =~= vars.map_values(f).push(f(var)));
    vars.map_values(f).lemma_flatten_push(f(var));
}

/// The number of blocks that `len` bytes take.
fn blocks_needed(len: usize, block_len: usize) -> (count: usize)
    requires
        block_len > 0,
    ensures
        count == block_count(len as int, block_len as int),
        count <= len,
{
    let whole = len / block_len;
    proof {
        lemma_fundamental_div_mod(len as int, block_len as int);
        lemma_mod_bound(len as int, block_len as int);
        assert(whole <= len && (len % block_len != 0 ==> whole < len)) by (nonlinear_arith)
            requires
                len == block_len * whole + len % block_len,
                0 <= len % block_len < block_len,
                whole >= 0,
        ;
    }
    if len % block_len != 0 {
        whole + 1
    } else {
        whole
    }
}

/// The counter of block `i` of a record whose first block has the counter
/// `start_ctr`, most significant byte first.
fn counter_bytes(start_ctr: usize, i: usize) -> (bytes: Vec<u8>)
    ensures
        bytes@ == be32(start_ctr + i),
{
    let a: u64 = start_ctr as u64 % 0x1_0000_0000;
    let b: u64 = i as u64 % 0x1_0000_0000;
    let w: u64 = (a + b) % 0x1_0000_0000;
    proof {
        lemma_add_mod_noop(start_ctr as int, i as int, 0x1_0000_0000);
    }
    let mut bytes: Vec<u8> = Vec::new();
    bytes.push((w / 0x100_0000) as u8);
    bytes.push((w / 0x1_0000 % 0x100) as u8);
    bytes.push((w / 0x100 % 0x100) as u8);
    bytes.push((w % 0x100) as u8);
    bytes
}

/// The bytes of `bytes`, as a vector.
fn copy_bytes(bytes: &[u8]) -> (v: Vec<u8>)
    ensures
        v@ == bytes@,
{
    let mut v: Vec<u8> = Vec::new();
    let mut i: usize = 0;
    while i < bytes.len()
        invariant
            i <= bytes@.len(),
            v@ == bytes@.subrange(0, i as int),
        decreases bytes@.len() - i,
    {
        v.push(bytes[i]);
        i += 1;
    }
    v
}

/// What goes into the cipher for one block.
fn inputs_of(key: ValueId, iv: ValueId, var: BlockVar) -> (inputs: Vec<ValueId>)
    ensures
        inputs@ == block_inputs(key, iv, var),
{
    let mut inputs: Vec<ValueId> = Vec::new();
    inputs.push(key);
    inputs.push(iv);
    inputs.push(var.nonce);
    inputs.push(var.ctr);
    inputs
}

/// Where the cipher's output for one block goes.
fn outputs_of(var: BlockVar) -> (outputs: Vec<ValueId>)
    ensures
        outputs@ == seq![var.block],
{
    let mut outputs: Vec<ValueId> = Vec::new();
    outputs.push(var.block);
    outputs
}

/// Appends the operations that allocate the blocks `vars`.
fn push_define_ops(plan: &mut Vec<VmOp>, cipher: CtrCipher, vars: &BlockVars)
    ensures
        ops_view(final(plan)@) == ops_view(old(plan)@) + define_ops(cipher, vars@),
{
    let n = vars.len();
    let mut i: usize = 0;
    while i < n
        invariant
            i <= n == vars@.len(),
            ops_view(plan@) == ops_view(old(plan)@) + define_ops(
                cipher,
                vars@.subrange(0, i as int),
            ),
        decreases n - i,
    {
        let var = vars.get(i);
        let ghost before = plan@;
        let op0 = VmOp::Alloc { value: var.block, len: cipher.block_len };
        let op1 = VmOp::Alloc { value: var.nonce, len: cipher.nonce_len };
        let op2 = VmOp::Mark { value: var.nonce, visibility: Visibility::Public };
        let op3 = VmOp::Alloc { value: var.ctr, len: CTR_LEN };
        let op4 = VmOp::Mark { value: var.ctr, visibility: Visibility::Public };
        proof {
            lemma_ops_view_push(before, op0);
            lemma_ops_view_push(before.push(op0), op1);
            lemma_ops_view_push(before.push(op0).push(op1), op2);
            lemma_ops_view_push(before.push(op0).push(op1).push(op2), op3);
            lemma_ops_view_push(before.push(op0).push(op1).push(op2).push(op3), op4);
            lemma_define_ops_push(cipher, vars@.subrange(0, i as int), var);
            assert(vars@.subrange(0, i as int).push(var) =~= vars@.subrange(0, i as int + 1));
        }
        plan.push(op0);
        plan.push(op1);
        plan.push(op2);
        plan.push(op3);
        plan.push(op4);
        i += 1;
    }
    assert(vars@.subrange(0, n as int) =~= vars@);
}

/// Appends the operations that give the blocks `vars` the nonce and their
/// counters.
fn push_assign_ops(plan: &mut Vec<VmOp>, vars: &BlockVars, nonce: &[u8], start_ctr: usize)
    ensures
        ops_view(final(plan)@) == ops_view(old(plan)@) + assign_ops(
            vars@,
            nonce@,
            start_ctr as int,
        ),
{
    let n = vars.len();
    let mut i: usize = 0;
    while i < n
        invariant
            i <= n == vars@.len(),
            ops_view(plan@) == ops_view(old(plan)@) + assign_ops(
                vars@.subrange(0, i as int),
                nonce@,
                start_ctr as int,
            ),
        decreases n - i,
    {
        let var = vars.get(i);
        let ghost before = plan@;
        let op0 = VmOp::Assign { value: var.nonce, bytes: copy_bytes(nonce) };
        let op1 = VmOp::Assign { value: var.ctr, bytes: counter_bytes(start_ctr, i) };
        proof {
            lemma_ops_view_push(before, op0);
            lemma_ops_view_push(before.push(op0), op1);
            lemma_assign_ops_push(vars@.subrange(0, i as int), var, nonce@, start_ctr as int);
            assert(vars@.subrange(0, i as int).push(var) =~= vars@.subrange(0, i as int + 1));
        }
        plan.push(op0);
        plan.push(op1);
        i += 1;
    }
    assert(vars@.subrange(0, n as int) =~= vars@);
}

/// Everything that goes into the cipher for the blocks `vars`.
fn commit_values(key: ValueId, iv: ValueId, vars: &BlockVars) -> (values: Vec<ValueId>)
    ensures
        values@ == all_block_inputs(key, iv, vars@),
{
    let n = vars.len();
    let mut values: Vec<ValueId> = Vec::new();
    let mut i: usize = 0;
    while i < n
        invariant
            i <= n == vars@.len(),
            values@ == all_block_inputs(key, iv, vars@.subrange(0, i as int)),
        decreases n - i,
    {
        let var = vars.get(i);
        proof {
            lemma_all_block_inputs_push(key, iv, vars@.subrange(0, i as int), var);
            assert(vars@.subrange(0, i as int).push(var) =~= vars@.subrange(0, i as int + 1));
        }
        values.push(key);
        values.push(iv);
        values.push(var.nonce);
        values.push(var.ctr);
        i += 1;
    }
    assert(vars@.subrange(0, n as int) =~= vars@);
    values
}

/// Appends the evaluations of the cipher on the blocks `vars`.
fn push_call_ops(
    plan: &mut Vec<VmOp>,
    mode: ExecutionMode,
    key: ValueId,
    iv: ValueId,
    vars: &BlockVars,
)
    ensures
        ops_view(final(plan)@) == ops_view(old(plan)@) + call_ops(mode, key, iv, vars@),
{
    let n = vars.len();
    let mut i: usize = 0;
    while i < n
        invariant
            i <= n == vars@.len(),
            ops_view(plan@) == ops_view(old(plan)@) + call_ops(
                mode,
                key,
                iv,
                vars@.subrange(0, i as int),
            ),
        decreases n - i,
    {
        let var = vars.get(i);
        let ghost before = plan@;
        let op = VmOp::Call {
            mode,
            circuit: Circuit::CtrBlock,
            inputs: inputs_of(key, iv, var),
            outputs: outputs_of(var),
        };
        proof {
            lemma_ops_view_push(before, op);
        }
        plan.push(op);
        i += 1;
    }
}

/// Appends the preparations of the cipher for the blocks `vars`.
fn push_load_ops(plan: &mut Vec<VmOp>, key: ValueId, iv: ValueId, vars: &BlockVars)
    ensures
        ops_view(final(plan)@) == ops_view(old(plan)@) + load_ops(key, iv, vars@),
{
    let n = vars.len();
    let mut i: usize = 0;
    while i < n
        invariant
            i <= n == vars@.len(),
            ops_view(plan@) == ops_view(old(plan)@) + load_ops(
                key,
                iv,
                vars@.subrange(0, i as int),
            ),
        decreases n - i,
    {
        let var = vars.get(i);
        let ghost before = plan@;
        let op = VmOp::Load {
            circuit: Circuit::CtrBlock,
            inputs: inputs_of(key, iv, var),
            outputs: outputs_of(var),
        };
        proof {
            lemma_ops_view_push(before, op);
        }
        plan.push(op);
        i += 1;
    }
}

/// What `r` holds, as a mathematical value.
pub open spec fn bytes_result_view(r: Result<Vec<ByteRef>, StreamCipherError>) -> Result<
    Seq<ByteRef>,
    StreamCipherError,
> {
    match r {
        Ok(bytes) => Ok(bytes@),
        Err(e) => Err(e),
    }
}

/// What `r` holds, as a mathematical value.
pub open spec fn plan_result_view(r: Result<Vec<VmOp>, StreamCipherError>) -> Result<
    Seq<Op>,
    StreamCipherError,
> {
    match r {
        Ok(plan) => Ok(ops_view(plan@)),
        Err(e) => Err(e),
    }
}

/// The key stream of one direction of a connection.
#[derive(Debug)]
pub struct MpcKeyStream {
    stream: u64,
    cipher: CtrCipher,
    key: Option<ValueId>,
    iv: Option<ValueId>,
    block_counter: u64,
    preprocessed: BlockVars,
}

impl View for MpcKeyStream {
    type V = StreamState;

    closed spec fn view(&self) -> StreamState {
        StreamState {
            stream: self.stream,
            cipher: self.cipher,
            key: self.key,
            iv: self.iv,
            next_block: self.block_counter,
            queue: self.preprocessed@,
        }
    }
}

impl MpcKeyStream {
    /// A key stream without key and IV, with an empty queue, whose blocks
    /// are numbered from 0. `stream` tells it from the other key streams
    /// of the session.
    pub fn new(stream: u64, cipher: CtrCipher) -> (ks: MpcKeyStream)
        requires
            cipher.wf(),
        ensures
            ks@ == (StreamState {
                stream,
                cipher,
                key: None,
                iv: None,
                next_block: 0,
                queue: Seq::empty(),
            }),
            ks@.wf(),
    {
        MpcKeyStream {
            stream,
            cipher,
            key: None,
            iv: None,
            block_counter: 0,
            preprocessed: BlockVars::new(),
        }
    }

    /// The cipher of this key stream.
    pub fn cipher(&self) -> (cipher: CtrCipher)
        ensures
            cipher == self@.cipher,
    {
        self.cipher
    }

    /// The number of blocks that are prepared and not used yet.
    pub fn preprocessed_len(&self) -> (len: usize)
        ensures
            len == self@.queue.len(),
    {
        self.preprocessed.len()
    }

    /// The number that the next new block gets.
    pub fn next_block(&self) -> (next: u64)
        ensures
            next == self@.next_block,
    {
        self.block_counter
    }

    /// Whether the numbers of the blocks that preparing `len` bytes takes
    /// are still to be had. Nothing short of 2^64 blocks uses them up.
    pub fn preprocess_fits(&self, len: usize) -> (fits: bool)
        requires
            self@.wf(),
        ensures
            fits == (self@.next_block + self@.blocks_for(len as int) <= u64::MAX),
    {
        let block_count = blocks_needed(len, self.cipher.block_len);
        block_count as u64 <= u64::MAX - self.block_counter
    }

    /// Whether the numbers of the new blocks that a record of `len` bytes
    /// takes are still to be had.
    pub fn compute_fits(&self, len: usize) -> (fits: bool)
        requires
            self@.wf(),
        ensures
            fits == (self@.next_block + self@.shortfall(len as int) <= u64::MAX),
    {
        let block_count = blocks_needed(len, self.cipher.block_len);
        let queued = self.preprocessed.len();
        if block_count <= queued {
            true
        } else {
            (block_count - queued) as u64 <= u64::MAX - self.block_counter
        }
    }

    /// Sets the key and the IV.
    pub fn set_key_and_iv(&mut self, key: ValueId, iv: ValueId)
        ensures
            final(self)@ == (StreamState { key: Some(key), iv: Some(iv), ..old(self)@ }),
    {
        self.key = Some(key);
        self.iv = Some(iv);
    }

    /// The values of the block with the number `index`.
    fn var_at(&self, index: u64) -> (var: BlockVar)
        ensures
            var == block_var(self@.stream, index),
    {
        BlockVar {
            block: ValueId::Block { stream: self.stream, index, part: BlockPart::Output },
            nonce: ValueId::Block { stream: self.stream, index, part: BlockPart::Nonce },
            ctr: ValueId::Block { stream: self.stream, index, part: BlockPart::Counter },
        }
    }

    /// The values of the next `count` new blocks. The key stream stays as
    /// it is: the blocks have not been given out.
    fn peek_vars(&self, count: usize) -> (vars: BlockVars)
        requires
            self@.next_block + count <= u64::MAX,
        ensures
            vars@ == fresh_vars(self@.stream, self@.next_block as int, count as int),
    {
        let mut vars = BlockVars::new();
        let mut i: usize = 0;
        while i < count
            invariant
                i <= count,
                self@.next_block + count <= u64::MAX,
                vars@ == fresh_vars(self@.stream, self@.next_block as int, i as int),
            decreases count - i,
        {
            let var = self.var_at(self.block_counter + i as u64);
            vars.push(var);
            i += 1;
        }
        vars
    }

    /// Gives out the next `count` new blocks.
    fn define_vars(&mut self, count: usize) -> (vars: BlockVars)
        requires
            old(self)@.next_block + count <= u64::MAX,
        ensures
            vars@ == fresh_vars(old(self)@.stream, old(self)@.next_block as int, count as int),
            final(self)@ == (StreamState {
                next_block: (old(self)@.next_block + count) as u64,
                ..old(self)@
            }),
    {
        let vars = self.peek_vars(count);
        self.block_counter = self.block_counter + count as u64;
        vars
    }

    /// The operations that `preprocess` needs the session to perform for
    /// `len` bytes of key stream. Fails if key and IV are not set.
    pub fn preprocess_plan(&self, len: usize) -> (r: Result<Vec<VmOp>, StreamCipherError>)
        requires
            self@.wf(),
            self@.next_block + self@.blocks_for(len as int) <= u64::MAX,
        ensures
            plan_result_view(r) == self@.preprocess_plan(len as int),
    {
        let (key, iv) = match (self.key, self.iv) {
            (Some(key), Some(iv)) => (key, iv),
            _ => {
                return Err(StreamCipherError::Precondition);
            },
        };
        let block_count = blocks_needed(len, self.cipher.block_len);
        let vars = self.peek_vars(block_count);
        let mut plan: Vec<VmOp> = Vec::new();
        push_define_ops(&mut plan, self.cipher, &vars);
        push_load_ops(&mut plan, key, iv, &vars);
        Ok(plan)
    }

    /// Prepares `len` bytes of key stream ahead of the record they are for,
    /// once the session has gone through the operations of
    /// [`MpcKeyStream::preprocess_plan`] and ended as `vm` says.
    ///
    /// The new blocks join the queue if the session succeeded. Their
    /// numbers are spent either way.
    pub fn preprocess(&mut self, vm: Result<(), VmError>, len: usize) -> (r: Result<
        (),
        StreamCipherError,
    >)
        requires
            old(self)@.wf(),
            old(self)@.next_block + old(self)@.blocks_for(len as int) <= u64::MAX,
        ensures
            (final(self)@, r) == old(self)@.preprocess(vm, len as int),
            final(self)@.wf(),
    {
        if self.key.is_none() || self.iv.is_none() {
            return Err(StreamCipherError::Precondition);
        }
        let block_count = blocks_needed(len, self.cipher.block_len);
        let vars = self.define_vars(block_count);
        match vm {
            Ok(_) => {
                self.preprocessed.extend(vars);
                Ok(())
            },
            Err(e) => {
                Err(StreamCipherError::Vm(e))
            },
        }
    }

    /// The operations that `compute` needs the session to perform for a
    /// record of `len` bytes whose first block has the counter `start_ctr`.
    ///
    /// Fails if the explicit nonce does not have the width that the cipher
    /// fixes, or if key and IV were never set.
    pub fn compute_plan(
        &self,
        mode: ExecutionMode,
        key: ValueId,
        iv: ValueId,
        explicit_nonce: &[u8],
        start_ctr: usize,
        len: usize,
    ) -> (r: Result<Vec<VmOp>, StreamCipherError>)
        requires
            self@.wf(),
            self@.next_block + self@.shortfall(len as int) <= u64::MAX,
        ensures
            plan_result_view(r) == self@.compute_plan(
                mode,
                key,
                iv,
                explicit_nonce@,
                start_ctr as int,
                len as int,
            ),
    {
        if explicit_nonce.len() != self.cipher.nonce_len {
            return Err(
                StreamCipherError::NonceLength {
                    expected: self.cipher.nonce_len,
                    actual: explicit_nonce.len(),
                },
            );
        }
        if self.key.is_none() || self.iv.is_none() {
            return Err(StreamCipherError::Precondition);
        }
        let block_count = blocks_needed(len, self.cipher.block_len);
        let queued = self.preprocessed.len();
        let taken = if block_count <= queued {
            block_count
        } else {
            queued
        };

        // Blocks that were prepared come first; new ones make up for the rest.
        let mut vars = BlockVars::new();
        let mut i: usize = 0;
        while i < taken
            invariant
                i <= taken <= self@.queue.len(),
                vars@ == self@.queue.subrange(0, i as int),
            decreases taken - i,
        {
            vars.push(self.preprocessed.get(i));
            i += 1;
        }
        let fresh = self.peek_vars(block_count - taken);

        let mut plan: Vec<VmOp> = Vec::new();
        assert(ops_view(plan@) =~= Seq::<Op>::empty());
        if block_count == 0 {
            return Ok(plan);
        }
        push_define_ops(&mut plan, self.cipher, &fresh);
        vars.extend(fresh);
        push_assign_ops(&mut plan, &vars, explicit_nonce, start_ctr);
        let ghost before = plan@;
        let commit = VmOp::Commit { mode, values: commit_values(key, iv, &vars) };
        proof {
            lemma_ops_view_push(before, commit);
        }
        plan.push(commit);
        push_call_ops(&mut plan, mode, key, iv, &vars);
        assert(ops_view(plan@) =~= self@.compute_ops(
            mode,
            key,
            iv,
            explicit_nonce@,
            start_ctr as int,
            len as int,
        ));
        Ok(plan)
    }

    /// Computes the key stream of a record of `len` bytes, once the session
    /// has gone through the operations of [`MpcKeyStream::compute_plan`] and
    /// ended as `vm` says.
    ///
    /// Returns exactly `len` bytes: the outputs of the record's blocks in
    /// order, the last block as far as it is needed. Fails as
    /// [`MpcKeyStream::compute_plan`] does, and with the failure of the
    /// session; a record that is not refused takes its blocks out of the
    /// queue whether the session succeeded or not.
    pub fn compute(&mut self, vm: Result<(), VmError>, explicit_nonce: &[u8], len: usize) -> (r:
        Result<Vec<ByteRef>, StreamCipherError>)
        requires
            old(self)@.wf(),
            old(self)@.next_block + old(self)@.shortfall(len as int) <= u64::MAX,
        ensures
            (final(self)@, bytes_result_view(r)) == old(self)@.compute(
                vm,
                explicit_nonce@.len() as int,
                len as int,
            ),
            final(self)@.wf(),
            r matches Ok(bytes) ==> bytes@.len() == len,
    {
        if explicit_nonce.len() != self.cipher.nonce_len {
            return Err(
                StreamCipherError::NonceLength {
                    expected: self.cipher.nonce_len,
                    actual: explicit_nonce.len(),
                },
            );
        }
        if self.key.is_none() || self.iv.is_none() {
            return Err(StreamCipherError::Precondition);
        }
        let block_count = blocks_needed(len, self.cipher.block_len);
        proof {
            lemma_block_count(len as int, self.cipher.block_len as int);
        }
        let queued = self.preprocessed.len();
        let taken = if block_count <= queued {
            block_count
        } else {
            queued
        };
        let mut vars = self.preprocessed.drain(taken);
        let fresh = self.define_vars(block_count - taken);
        vars.extend(fresh);
        let bytes = vars.flatten(self.cipher.block_len, len);
        match vm {
            Ok(_) => Ok(bytes),
            Err(e) => Err(StreamCipherError::Vm(e)),
        }
    }
}

} // verus!
