use std::collections::HashMap;
use tls_2pc_core::config::ExecutionMode;
use tls_2pc_core::error::{StreamCipherError, VmError};
use tls_2pc_core::keystream::{BlockVar, BlockVars, CtrCipher, MpcKeyStream};
use tls_2pc_core::vm::{BlockPart, ByteRef, Circuit, ValueId, Visibility, VmOp};

const BLOCK_LEN: usize = 16;
const NONCE: [u8; 8] = [10, 11, 12, 13, 14, 15, 16, 17];
const KEY: ValueId = ValueId::Input(1);
const IV: ValueId = ValueId::Input(2);

fn var(stream: u64, index: u64) -> BlockVar {
    BlockVar {
        block: ValueId::Block { stream, index, part: BlockPart::Output },
        nonce: ValueId::Block { stream, index, part: BlockPart::Nonce },
        ctr: ValueId::Block { stream, index, part: BlockPart::Counter },
    }
}

fn key_stream(stream: u64) -> MpcKeyStream {
    let mut ks = MpcKeyStream::new(stream, CtrCipher::aes128());
    ks.set_key_and_iv(KEY, IV);
    ks
}

fn define(v: BlockVar) -> Vec<VmOp> {
    vec![
        VmOp::Alloc { value: v.block, len: 16 },
        VmOp::Alloc { value: v.nonce, len: 8 },
        VmOp::Mark { value: v.nonce, visibility: Visibility::Public },
        VmOp::Alloc { value: v.ctr, len: 4 },
        VmOp::Mark { value: v.ctr, visibility: Visibility::Public },
    ]
}

fn call(mode: ExecutionMode, v: BlockVar) -> VmOp {
    VmOp::Call {
        mode,
        circuit: Circuit::CtrBlock,
        inputs: vec![KEY, IV, v.nonce, v.ctr],
        outputs: vec![v.block],
    }
}

fn vm_failure() -> VmError {
    VmError { message: String::from("evaluation aborted") }
}

/// A block cipher to test with: any function of key, IV, nonce and counter.
fn toy_block(key: &[u8], iv: &[u8], nonce: &[u8], ctr: &[u8]) -> Vec<u8> {
    (0..BLOCK_LEN)
        .map(|j| {
            key[j % key.len()]
                .wrapping_mul(3)
                .wrapping_add(iv[j % iv.len()])
                .wrapping_add(nonce[j % nonce.len()].wrapping_mul(5))
                .wrapping_add(ctr[j % ctr.len()].wrapping_mul(7))
                .wrapping_add(ctr[(j + 1) % ctr.len()].wrapping_mul(j as u8))
        })
        .collect()
}

/// A session in which nothing fails.
fn new_session() -> HashMap<ValueId, Vec<u8>> {
    let mut store = HashMap::new();
    store.insert(KEY, vec![1, 2, 3, 4, 5, 6, 7, 8, 9, 10, 11, 12, 13, 14, 15, 16]);
    store.insert(IV, vec![0xa0, 0xa1, 0xa2, 0xa3]);
    store
}

fn run(store: &mut HashMap<ValueId, Vec<u8>>, plan: &[VmOp]) {
    for op in plan {
        match op {
            VmOp::Assign { value, bytes } => {
                store.insert(*value, bytes.clone());
            }
            VmOp::Call { circuit: Circuit::CtrBlock, inputs, outputs, .. } => {
                let block = toy_block(
                    &store[&inputs[0]],
                    &store[&inputs[1]],
                    &store[&inputs[2]],
                    &store[&inputs[3]],
                );
                store.insert(outputs[0], block);
            }
            _ => {}
        }
    }
}

fn read(store: &HashMap<ValueId, Vec<u8>>, bytes: &[ByteRef]) -> Vec<u8> {
    bytes.iter().map(|b| store[&b.value][b.index]).collect()
}

/// Plans a record, runs the plan in a session without failures, and reads
/// the key stream.
fn compute_bytes(ks: &mut MpcKeyStream, mode: ExecutionMode, start_ctr: usize, len: usize) -> Vec<u8> {
    let mut store = new_session();
    let plan = ks.compute_plan(mode, KEY, IV, &NONCE, start_ctr, len).unwrap();
    run(&mut store, &plan);
    let bytes = ks.compute(Ok(()), &NONCE, len).unwrap();
    read(&store, &bytes)
}

#[test]
fn cipher_needs_a_block_of_at_least_one_byte() {
    assert_eq!(CtrCipher::new(0, 8), None);
    assert_eq!(CtrCipher::new(16, 8), Some(CtrCipher { block_len: 16, nonce_len: 8 }));
    assert_eq!(CtrCipher::aes128(), CtrCipher { block_len: 16, nonce_len: 8 });
}

#[test]
fn new_key_stream_is_empty() {
    let ks = MpcKeyStream::new(3, CtrCipher::aes128());
    assert_eq!(ks.preprocessed_len(), 0);
    assert_eq!(ks.next_block(), 0);
    assert_eq!(ks.cipher(), CtrCipher::aes128());
}

#[test]
fn compute_returns_exactly_len_bytes() {
    for len in [0, 1, BLOCK_LEN - 1, BLOCK_LEN, BLOCK_LEN + 1, 10 * BLOCK_LEN] {
        let mut ks = key_stream(1);
        let bytes = ks.compute(Ok(()), &NONCE, len).unwrap();
        assert_eq!(bytes.len(), len);
        let mut ks = key_stream(1);
        assert_eq!(compute_bytes(&mut ks, ExecutionMode::Mpc, 0, len).len(), len);
    }
}

#[test]
fn compute_takes_one_block_per_started_block() {
    for (len, blocks) in [(0, 0), (1, 1), (15, 1), (16, 1), (17, 2), (32, 2), (33, 3), (160, 10)] {
        let mut ks = key_stream(1);
        ks.compute(Ok(()), &NONCE, len).unwrap();
        assert_eq!(ks.next_block(), blocks);
    }
}

#[test]
fn empty_record_asks_nothing_of_the_session() {
    let mut ks = key_stream(1);
    ks.preprocess(Ok(()), 32).unwrap();
    assert_eq!(ks.compute_plan(ExecutionMode::Mpc, KEY, IV, &NONCE, 5, 0), Ok(vec![]));
    assert_eq!(ks.compute(Ok(()), &NONCE, 0), Ok(vec![]));
    assert_eq!(ks.preprocessed_len(), 2);
    assert_eq!(ks.next_block(), 2);
}

#[test]
fn compute_plan_of_a_record_of_two_blocks() {
    let ks = key_stream(4);
    let plan = ks.compute_plan(ExecutionMode::Mpc, KEY, IV, &NONCE, 1, 17).unwrap();
    let v0 = var(4, 0);
    let v1 = var(4, 1);
    let mut expected = Vec::new();
    expected.extend(define(v0));
    expected.extend(define(v1));
    expected.push(VmOp::Assign { value: v0.nonce, bytes: NONCE.to_vec() });
    expected.push(VmOp::Assign { value: v0.ctr, bytes: vec![0, 0, 0, 1] });
    expected.push(VmOp::Assign { value: v1.nonce, bytes: NONCE.to_vec() });
    expected.push(VmOp::Assign { value: v1.ctr, bytes: vec![0, 0, 0, 2] });
    expected.push(VmOp::Commit {
        mode: ExecutionMode::Mpc,
        values: vec![KEY, IV, v0.nonce, v0.ctr, KEY, IV, v1.nonce, v1.ctr],
    });
    expected.push(call(ExecutionMode::Mpc, v0));
    expected.push(call(ExecutionMode::Mpc, v1));
    assert_eq!(plan, expected);
}

#[test]
fn compute_returns_the_bytes_of_its_blocks_in_order() {
    let mut ks = key_stream(4);
    let bytes = ks.compute(Ok(()), &NONCE, 18).unwrap();
    let mut expected = Vec::new();
    for index in 0..16 {
        expected.push(ByteRef { value: var(4, 0).block, index });
    }
    expected.push(ByteRef { value: var(4, 1).block, index: 0 });
    expected.push(ByteRef { value: var(4, 1).block, index: 1 });
    assert_eq!(bytes, expected);
}

#[test]
fn counter_is_big_endian() {
    let ks = key_stream(1);
    let plan = ks.compute_plan(ExecutionMode::Mpc, KEY, IV, &NONCE, 0x0102_0304, 16).unwrap();
    assert_eq!(plan[6], VmOp::Assign { value: var(1, 0).ctr, bytes: vec![1, 2, 3, 4] });
}

#[test]
fn counter_wraps_at_32_bits() {
    let ks = key_stream(1);
    let plan = ks.compute_plan(ExecutionMode::Mpc, KEY, IV, &NONCE, 0xffff_ffff, 32).unwrap();
    assert_eq!(plan[11], VmOp::Assign { value: var(1, 0).ctr, bytes: vec![0xff, 0xff, 0xff, 0xff] });
    assert_eq!(plan[13], VmOp::Assign { value: var(1, 1).ctr, bytes: vec![0, 0, 0, 0] });
}

#[test]
fn short_nonce_is_refused() {
    let mut ks = key_stream(1);
    let nonce = [0u8; 7];
    let expected = StreamCipherError::NonceLength { expected: 8, actual: 7 };
    assert_eq!(ks.compute_plan(ExecutionMode::Mpc, KEY, IV, &nonce, 0, 16), Err(expected.clone()));
    assert_eq!(ks.compute(Ok(()), &nonce, 16), Err(expected));
    assert_eq!(ks.next_block(), 0);
}

#[test]
fn long_nonce_is_refused() {
    let mut ks = key_stream(1);
    ks.preprocess(Ok(()), 16).unwrap();
    let nonce = [0u8; 12];
    let expected = StreamCipherError::NonceLength { expected: 8, actual: 12 };
    assert_eq!(ks.compute_plan(ExecutionMode::Prove, KEY, IV, &nonce, 0, 16), Err(expected.clone()));
    assert_eq!(ks.compute(Ok(()), &nonce, 16), Err(expected));
    assert_eq!(ks.preprocessed_len(), 1);
}

#[test]
fn empty_nonce_is_refused() {
    let mut ks = key_stream(1);
    assert_eq!(
        ks.compute(Ok(()), &[], 0),
        Err(StreamCipherError::NonceLength { expected: 8, actual: 0 })
    );
}

#[test]
fn compute_without_key_and_iv_is_refused() {
    let mut ks = MpcKeyStream::new(1, CtrCipher::aes128());
    assert_eq!(
        ks.compute_plan(ExecutionMode::Mpc, KEY, IV, &NONCE, 0, 16),
        Err(StreamCipherError::Precondition)
    );
    assert_eq!(ks.compute(Ok(()), &NONCE, 16), Err(StreamCipherError::Precondition));
    assert_eq!(ks.next_block(), 0);
    ks.set_key_and_iv(KEY, IV);
    assert_eq!(ks.compute(Ok(()), &NONCE, 16).unwrap().len(), 16);
}

#[test]
fn a_wrong_nonce_is_refused_before_anything_else() {
    let mut ks = MpcKeyStream::new(1, CtrCipher::aes128());
    let nonce = [0u8; 9];
    let expected = StreamCipherError::NonceLength { expected: 8, actual: 9 };
    assert_eq!(ks.compute_plan(ExecutionMode::Mpc, KEY, IV, &nonce, 0, 16), Err(expected.clone()));
    assert_eq!(ks.compute(Err(vm_failure()), &nonce, 16), Err(expected));
}

#[test]
fn preprocess_without_key_and_iv_is_refused() {
    let mut ks = MpcKeyStream::new(1, CtrCipher::aes128());
    assert_eq!(ks.preprocess_plan(16), Err(StreamCipherError::Precondition));
    assert_eq!(ks.preprocess(Ok(()), 16), Err(StreamCipherError::Precondition));
    assert_eq!(ks.preprocessed_len(), 0);
    assert_eq!(ks.next_block(), 0);
}

#[test]
fn preprocess_plan_allocates_and_loads() {
    let ks = key_stream(2);
    let plan = ks.preprocess_plan(17).unwrap();
    let v0 = var(2, 0);
    let v1 = var(2, 1);
    let mut expected = Vec::new();
    expected.extend(define(v0));
    expected.extend(define(v1));
    for v in [v0, v1] {
        expected.push(VmOp::Load {
            circuit: Circuit::CtrBlock,
            inputs: vec![KEY, IV, v.nonce, v.ctr],
            outputs: vec![v.block],
        });
    }
    assert_eq!(plan, expected);
}

#[test]
fn preprocess_of_nothing_asks_nothing() {
    let mut ks = key_stream(2);
    assert_eq!(ks.preprocess_plan(0), Ok(vec![]));
    assert_eq!(ks.preprocess(Ok(()), 0), Ok(()));
    assert_eq!(ks.preprocessed_len(), 0);
}

#[test]
fn preprocess_then_compute_allocates_nothing() {
    let n = 3 * BLOCK_LEN + 5;
    let mut ks = key_stream(1);
    ks.preprocess(Ok(()), n).unwrap();
    assert_eq!(ks.preprocessed_len(), 4);
    assert_eq!(ks.next_block(), 4);

    let plan = ks.compute_plan(ExecutionMode::Mpc, KEY, IV, &NONCE, 2, n).unwrap();
    assert!(plan.iter().all(|op| !matches!(op, VmOp::Alloc { .. } | VmOp::Mark { .. })));
    assert_eq!(plan.len(), 2 * 4 + 1 + 4);

    let bytes = ks.compute(Ok(()), &NONCE, n).unwrap();
    assert_eq!(bytes.len(), n);
    assert_eq!(bytes[0], ByteRef { value: var(1, 0).block, index: 0 });
    assert_eq!(bytes[n - 1], ByteRef { value: var(1, 3).block, index: 4 });
    assert_eq!(ks.preprocessed_len(), 0);
    assert_eq!(ks.next_block(), 4);
}

#[test]
fn preprocessing_does_not_change_the_key_stream() {
    let n = 2 * BLOCK_LEN + 3;
    let mut prepared = key_stream(1);
    prepared.preprocess(Ok(()), n).unwrap();
    let mut direct = key_stream(1);
    assert_eq!(
        compute_bytes(&mut prepared, ExecutionMode::Mpc, 7, n),
        compute_bytes(&mut direct, ExecutionMode::Mpc, 7, n)
    );
}

#[test]
fn compute_makes_up_for_missing_blocks() {
    let mut ks = key_stream(1);
    ks.preprocess(Ok(()), 32).unwrap();
    let plan = ks.compute_plan(ExecutionMode::Mpc, KEY, IV, &NONCE, 0, 48).unwrap();
    assert_eq!(&plan[..5], &define(var(1, 2))[..]);
    assert_eq!(plan[5], VmOp::Assign { value: var(1, 0).nonce, bytes: NONCE.to_vec() });
    assert_eq!(plan[10], VmOp::Assign { value: var(1, 2).ctr, bytes: vec![0, 0, 0, 2] });
    ks.compute(Ok(()), &NONCE, 48).unwrap();
    assert_eq!(ks.preprocessed_len(), 0);
    assert_eq!(ks.next_block(), 3);
}

#[test]
fn compute_takes_the_oldest_blocks_first() {
    let mut ks = key_stream(1);
    ks.preprocess(Ok(()), 48).unwrap();
    let bytes = ks.compute(Ok(()), &NONCE, 16).unwrap();
    assert_eq!(bytes[0].value, var(1, 0).block);
    assert_eq!(ks.preprocessed_len(), 2);
    let bytes = ks.compute(Ok(()), &NONCE, 16).unwrap();
    assert_eq!(bytes[0].value, var(1, 1).block);
    assert_eq!(ks.preprocessed_len(), 1);
    assert_eq!(ks.next_block(), 3);
}

#[test]
fn two_blocks_are_the_first_block_followed_by_the_second() {
    let mut whole = key_stream(1);
    let mut first = key_stream(2);
    let mut second = key_stream(3);
    let mut expected = compute_bytes(&mut first, ExecutionMode::Mpc, 0, BLOCK_LEN);
    expected.extend(compute_bytes(&mut second, ExecutionMode::Mpc, 1, BLOCK_LEN));
    assert_eq!(compute_bytes(&mut whole, ExecutionMode::Mpc, 0, 2 * BLOCK_LEN), expected);
}

#[test]
fn consecutive_records_of_one_key_stream_compose() {
    let mut whole = key_stream(1);
    let mut parts = key_stream(1);
    let mut expected = compute_bytes(&mut parts, ExecutionMode::Mpc, 0, BLOCK_LEN);
    expected.extend(compute_bytes(&mut parts, ExecutionMode::Mpc, 1, BLOCK_LEN));
    assert_eq!(compute_bytes(&mut whole, ExecutionMode::Mpc, 0, 2 * BLOCK_LEN), expected);
}

#[test]
fn key_stream_is_the_cipher_on_nonce_and_counter() {
    let mut ks = key_stream(1);
    let store = new_session();
    let bytes = compute_bytes(&mut ks, ExecutionMode::Mpc, 9, 20);
    let mut expected = toy_block(&store[&KEY], &store[&IV], &NONCE, &[0, 0, 0, 9]);
    expected.extend(&toy_block(&store[&KEY], &store[&IV], &NONCE, &[0, 0, 0, 10])[..4]);
    assert_eq!(bytes, expected);
}

#[test]
fn modes_differ_in_the_primitive_only() {
    let ks = key_stream(1);
    let prove = ks.compute_plan(ExecutionMode::Prove, KEY, IV, &NONCE, 3, 40).unwrap();
    let verify = ks.compute_plan(ExecutionMode::Verify, KEY, IV, &NONCE, 3, 40).unwrap();
    assert_eq!(prove.len(), verify.len());
    for (p, v) in prove.iter().zip(verify.iter()) {
        match (p, v) {
            (
                VmOp::Commit { mode: ExecutionMode::Prove, values: a },
                VmOp::Commit { mode: ExecutionMode::Verify, values: b },
            ) => assert_eq!(a, b),
            (
                VmOp::Call { mode: ExecutionMode::Prove, circuit: c, inputs: a, outputs: x },
                VmOp::Call { mode: ExecutionMode::Verify, circuit: d, inputs: b, outputs: y },
            ) => {
                assert_eq!(c, d);
                assert_eq!(a, b);
                assert_eq!(x, y);
            }
            (VmOp::Commit { .. }, _) | (VmOp::Call { .. }, _) => panic!("modes are mixed up"),
            _ => assert_eq!(p, v),
        }
    }
    assert_eq!(prove[15 + 6], VmOp::Commit {
        mode: ExecutionMode::Prove,
        values: vec![
            KEY, IV, var(1, 0).nonce, var(1, 0).ctr,
            KEY, IV, var(1, 1).nonce, var(1, 1).ctr,
            KEY, IV, var(1, 2).nonce, var(1, 2).ctr,
        ],
    });
    assert_eq!(verify[15 + 6 + 1], call(ExecutionMode::Verify, var(1, 0)));
}

#[test]
fn prover_and_verifier_get_the_same_key_stream() {
    let mut prover = key_stream(1);
    let mut verifier = key_stream(1);
    assert_eq!(
        compute_bytes(&mut prover, ExecutionMode::Prove, 2, 50),
        compute_bytes(&mut verifier, ExecutionMode::Verify, 2, 50)
    );
}

#[test]
fn compute_passes_a_session_failure_on() {
    let mut ks = key_stream(1);
    ks.preprocess(Ok(()), 16).unwrap();
    assert_eq!(ks.compute(Err(vm_failure()), &NONCE, 32), Err(StreamCipherError::Vm(vm_failure())));
    assert_eq!(ks.preprocessed_len(), 0);
    assert_eq!(ks.next_block(), 2);
}

#[test]
fn a_session_failure_keeps_prepared_blocks_out_of_the_queue() {
    let mut ks = key_stream(1);
    assert_eq!(ks.preprocess(Err(vm_failure()), 32), Err(StreamCipherError::Vm(vm_failure())));
    assert_eq!(ks.preprocessed_len(), 0);
    assert_eq!(ks.next_block(), 2);
    // The next blocks get new numbers.
    let plan = ks.preprocess_plan(16).unwrap();
    assert_eq!(&plan[..5], &define(var(1, 2))[..]);
}

#[test]
fn block_vars_are_a_queue() {
    let mut vars = BlockVars::new();
    assert!(vars.is_empty());
    assert_eq!(vars.len(), 0);
    vars.push(var(1, 0));
    vars.push(var(1, 1));
    vars.push(var(1, 2));
    assert!(!vars.is_empty());
    assert_eq!(vars.len(), 3);

    let mut front = vars.drain(2);
    assert_eq!(front.len(), 2);
    assert_eq!(front.get(0), var(1, 0));
    assert_eq!(front.get(1), var(1, 1));
    assert_eq!(vars.len(), 1);
    assert_eq!(vars.get(0), var(1, 2));

    front.extend(vars);
    assert_eq!(front.len(), 3);
    assert_eq!(front.get(2), var(1, 2));
    assert_eq!(front.drain(0).len(), 0);
    assert_eq!(front.len(), 3);
}

#[test]
fn flatten_stops_at_the_last_block() {
    let mut vars = BlockVars::new();
    vars.push(var(1, 5));
    vars.push(var(1, 6));
    assert_eq!(vars.flatten(4, 0), vec![]);
    assert_eq!(
        vars.flatten(4, 5),
        vec![
            ByteRef { value: var(1, 5).block, index: 0 },
            ByteRef { value: var(1, 5).block, index: 1 },
            ByteRef { value: var(1, 5).block, index: 2 },
            ByteRef { value: var(1, 5).block, index: 3 },
            ByteRef { value: var(1, 6).block, index: 0 },
        ]
    );
    assert_eq!(vars.flatten(4, 8).len(), 8);
    assert_eq!(vars.flatten(4, 100).len(), 8);
}
