//! The ideal GHASH functionality: what a trusted third party computes when
//! each of two parties holds a share of the GHASH key.
//!
//! The functionality is one value. Bringing the two parties together is
//! left to the caller, who hands in what each of them sent.

use ghash::universal_hash::{KeyInit, UniversalHash};
use ghash::GHash;
use vstd::prelude::*;

verus! {

/// The width of a GHASH key and of a GHASH tag, in bytes.
pub const GHASH_LEN: usize = 16;

/// The GHASH tag of `input` under `key`, the input padded with zeroes to
/// whole blocks.
pub uninterp spec fn ghash_tag(key: Seq<u8>, input: Seq<u8>) -> Seq<u8>;

/// Computes GHASH with the `ghash` crate: `GHash::new_from_slice` on the
/// key, `update_padded` on the input, `finalize`.
///
/// Believed, not proved: the tag is a function of key and input alone, and
/// is 16 bytes wide. A key of another width than 16 bytes makes
/// `new_from_slice` fail, so it is left out.
#[verifier::external_body]
fn ghash_padded(key: &[u8], input: &[u8]) -> (tag: Vec<u8>)
    requires
        key@.len() == GHASH_LEN,
    ensures
        tag@ == ghash_tag(key@, input@),
        tag@.len() == GHASH_LEN,
{
    let mut ghash = GHash::new_from_slice(key).unwrap();
    ghash.update_padded(input);
    ghash.finalize().to_vec()
}

/// The bytes of `a` and `b`, XORed one by one, as far as both reach.
pub open spec fn xor_bytes(a: Seq<u8>, b: Seq<u8>) -> Seq<u8> {
    Seq::new(
        if a.len() <= b.len() {
            a.len()
        } else {
            b.len()
        },
        |i: int| a[i] ^ b[i],
    )
}

/// `count` bytes of zero.
pub open spec fn zeroes(count: nat) -> Seq<u8> {
    Seq::new(count, |i: int| 0u8)
}

/// XOR with zero changes nothing.
pub proof fn lemma_xor_zeroes(a: Seq<u8>)
    ensures
        xor_bytes(a, zeroes(a.len())) == a,
{
    assert forall|i: int| 0 <= i < a.len() implies #[trigger] xor_bytes(a, zeroes(a.len()))[i]
        == a[i] by {
        let x = a[i];
        assert(x ^ 0u8 == x) by (bit_vector);
    }
}

/// The bytes of `a` and `b`, XORed one by one, as far as both reach.
pub fn xor(a: &[u8], b: &[u8]) -> (out: Vec<u8>)
    ensures
        out@ == xor_bytes(a@, b@),
{
    let n = if a.len() <= b.len() {
        a.len()
    } else {
        b.len()
    };
    let mut out: Vec<u8> = Vec::new();
    let mut i: usize = 0;
    while i < n
        invariant
            i <= n,
            n <= a@.len(),
            n <= b@.len(),
            out@ == Seq::new(i as nat, |j: int| a@[j] ^ b@[j]),
        decreases n - i,
    {
        out.push(a[i] ^ b[i]);
        i += 1;
    }
    out
}

/// An ideal GHASH functionality.
#[derive(Debug)]
pub struct IdealGhash {
    key: Vec<u8>,
}

impl IdealGhash {
    /// The key that the functionality holds.
    pub closed spec fn key(&self) -> Seq<u8> {
        self.key@
    }

    /// The key is as wide as GHASH asks for.
    #[verifier::type_invariant]
    spec fn key_fits(&self) -> bool {
        self.key@.len() == GHASH_LEN
    }

    /// Takes the key of which Alice and Bob each sent a share: the XOR of
    /// the two shares.
    pub fn set_key(&mut self, alice_key: &[u8], bob_key: &[u8])
        requires
            xor_bytes(alice_key@, bob_key@).len() == GHASH_LEN,
        ensures
            final(self).key() == xor_bytes(alice_key@, bob_key@),
    {
        self.key = xor(alice_key, bob_key);
    }

    /// Computes the tag of the input that both Alice and Bob sent, and
    /// shares it between them: the XOR of what the two get back is the tag.
    /// Bob's share is all zero.
    pub fn finalize(&self, alice_input: &[u8], bob_input: &[u8]) -> (shares: (Vec<u8>, Vec<u8>))
        requires
            alice_input@ == bob_input@,
        ensures
            shares.0@ == ghash_tag(self.key(), alice_input@),
            shares.1@ == zeroes(GHASH_LEN as nat),
            xor_bytes(shares.0@, shares.1@) == ghash_tag(self.key(), alice_input@),
    {
        proof {
            use_type_invariant(self);
        }
        let output = ghash_padded(self.key.as_slice(), alice_input);
        let mut output_bob: Vec<u8> = Vec::new();
        let mut i: usize = 0;
        while i < output.len()
            invariant
                i <= output@.len(),
                output_bob@ == zeroes(i as nat),
            decreases output@.len() - i,
        {
            output_bob.push(0u8);
            i += 1;
        }
        let output_alice = xor(output.as_slice(), output_bob.as_slice());
        proof {
            lemma_xor_zeroes(output@);
        }
        (output_alice, output_bob)
    }
}

/// Creates an ideal GHASH functionality. Until a key is set it holds the
/// key of 16 zero bytes.
pub fn ideal_ghash() -> (ghash: IdealGhash)
    ensures
        ghash.key() == zeroes(GHASH_LEN as nat),
{
    let mut key: Vec<u8> = Vec::new();
    let mut i: usize = 0;
    while i < GHASH_LEN
        invariant
            i <= GHASH_LEN,
            key@ == zeroes(i as nat),
        decreases GHASH_LEN - i,
    {
        key.push(0u8);
        i += 1;
    }
    IdealGhash { key }
}

} // verus!
