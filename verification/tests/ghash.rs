use ghash::universal_hash::{KeyInit, UniversalHash};
use ghash::GHash;
use tls_2pc_core::ghash::{ideal_ghash, xor};

fn reference_tag(key: &[u8], input: &[u8]) -> Vec<u8> {
    let mut ghash = GHash::new_from_slice(key).unwrap();
    ghash.update_padded(input);
    ghash.finalize().to_vec()
}

#[test]
fn test_ideal_ghash() {
    let mut functionality = ideal_ghash();

    let alice_key = vec![42u8; 16];
    let bob_key = vec![69u8; 16];
    let key: Vec<u8> = alice_key.iter().zip(bob_key.iter()).map(|(a, b)| a ^ b).collect();

    functionality.set_key(&alice_key, &bob_key);

    let input = vec![1u8, 2, 3, 4, 5, 6, 7, 8, 9, 10];
    let (output_a, output_b) = functionality.finalize(&input, &input);

    let output: Vec<u8> = output_a.iter().zip(output_b).map(|(a, b)| a ^ b).collect();
    assert_eq!(output, reference_tag(&key, &input));
    assert_ne!(output, input);
    assert_ne!(output, key);
}

#[test]
fn ideal_ghash_starts_with_the_zero_key() {
    let functionality = ideal_ghash();
    let input = vec![0xffu8; 40];
    let (output_a, output_b) = functionality.finalize(&input, &input);
    assert_eq!(output_a, reference_tag(&[0u8; 16], &input));
    assert_eq!(output_b, vec![0u8; 16]);
}

#[test]
fn ideal_ghash_gives_bob_zeroes() {
    let mut functionality = ideal_ghash();
    functionality.set_key(&[1u8; 16], &[2u8; 16]);
    let (output_a, output_b) = functionality.finalize(&[], &[]);
    assert_eq!(output_b, vec![0u8; 16]);
    assert_eq!(output_a.len(), 16);
    assert_eq!(output_a, reference_tag(&[3u8; 16], &[]));
}

#[test]
fn ideal_ghash_pads_the_input_with_zeroes() {
    let mut functionality = ideal_ghash();
    functionality.set_key(&[0x11u8; 16], &[0x22u8; 16]);
    let short = vec![9u8; 5];
    let mut padded = short.clone();
    padded.extend(vec![0u8; 11]);
    assert_eq!(functionality.finalize(&short, &short), functionality.finalize(&padded, &padded));
}

#[test]
fn xor_reaches_as_far_as_the_shorter_input() {
    assert_eq!(xor(&[0b1100, 0b1010, 0xff], &[0b1010, 0b1010]), vec![0b0110, 0]);
    assert_eq!(xor(&[], &[1, 2, 3]), vec![]);
    assert_eq!(xor(&[0x0f], &[0xf0]), vec![0xff]);
}
