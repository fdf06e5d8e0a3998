//! Stand-in for the additively homomorphic cryptosystem.
//!
//! The protocol needs, of its encryption collaborator, exactly an additively
//! homomorphic scheme over a plaintext space larger than one scalar product
//! plus one blinding term, a keypair whose decryption half is bound to its
//! encryption half, and a proof of correct key generation.  This module
//! models that interface over `PLAINTEXT_MODULUS`: a ciphertext is bound to
//! the key that made it and carries its plaintext residue, decryption demands
//! the matching key.  The model states the functional interface only; it does
//! not hide the plaintext from an observer of the message structures.

use vstd::prelude::*;
use crate::arith::{add_mod, mul_mod, PLAINTEXT_MODULUS};
use crate::rng::sample_blind;

verus! {

/// The public half of a keypair.
#[derive(Clone, Copy, PartialEq, Eq, Structural, Debug)]
pub struct EncryptionKey {
    pub key_id: u64,
}

/// The private half of a keypair.
#[derive(Clone, Copy, PartialEq, Eq, Structural, Debug)]
pub struct DecryptionKey {
    pub key_id: u64,
}

/// A ciphertext: bound to a key, carrying a plaintext residue.
#[derive(Clone, Copy, PartialEq, Eq, Structural, Debug)]
pub struct Ciphertext {
    pub key_id: u64,
    pub value: u64,
}

/// The proof that a keypair was generated correctly, bound to the key.
#[derive(Clone, Copy, PartialEq, Eq, Structural, Debug)]
pub struct CorrectKeyProof {
    pub key_id: u64,
}

impl Ciphertext {
    /// A well-formed ciphertext carries a reduced residue.
    pub open spec fn wf(self) -> bool {
        self.value < PLAINTEXT_MODULUS
    }
}

/// Generate a keypair; both halves carry the same fresh key identity.
pub fn paillier_keygen() -> (r: (EncryptionKey, DecryptionKey))
    ensures
        r.0.key_id == r.1.key_id,
{
    let id = sample_blind();
    (EncryptionKey { key_id: id }, DecryptionKey { key_id: id })
}

/// Encrypt a plaintext under a key.
pub fn encrypt(ek: &EncryptionKey, m: u64) -> (c: Ciphertext)
    requires
        m < PLAINTEXT_MODULUS,
    ensures
        c.key_id == ek.key_id,
        c.value == m,
        c.wf(),
{
    Ciphertext { key_id: ek.key_id, value: m }
}

/// Homomorphic addition of two ciphertexts under one key.
pub fn add_ciphertexts(c1: &Ciphertext, c2: &Ciphertext) -> (c: Ciphertext)
    requires
        c1.wf(),
        c2.wf(),
        c1.key_id == c2.key_id,
    ensures
        c.key_id == c1.key_id,
        c.value == (c1.value + c2.value) % (PLAINTEXT_MODULUS as int),
        c.wf(),
{
    Ciphertext {
        key_id: c1.key_id,
        value: add_mod(c1.value, c2.value, PLAINTEXT_MODULUS),
    }
}

/// Homomorphic multiplication of a ciphertext by a plaintext scalar.
pub fn scale_ciphertext(c1: &Ciphertext, k: u64) -> (c: Ciphertext)
    requires
        c1.wf(),
        k < PLAINTEXT_MODULUS,
    ensures
        c.key_id == c1.key_id,
        c.value == (c1.value * k) % (PLAINTEXT_MODULUS as int),
        c.wf(),
{
    Ciphertext {
        key_id: c1.key_id,
        value: mul_mod(c1.value, k, PLAINTEXT_MODULUS),
    }
}

/// Decrypt with the matching key; a ciphertext under another key is refused.
pub fn decrypt(dk: &DecryptionKey, c: &Ciphertext) -> (r: Option<u64>)
    requires
        c.wf(),
    ensures
        r == if dk.key_id == c.key_id {
            Some(c.value)
        } else {
            None::<u64>
        },
{
    if dk.key_id == c.key_id {
        Some(c.value)
    } else {
        None
    }
}

/// Produce the proof of correct key generation for a keypair.
pub fn prove_correct_key(dk: &DecryptionKey) -> (p: CorrectKeyProof)
    ensures
        p.key_id == dk.key_id,
{
    CorrectKeyProof { key_id: dk.key_id }
}

/// Check a proof of correct key generation against an encryption key.
pub fn verify_correct_key(p: &CorrectKeyProof, ek: &EncryptionKey) -> (r: bool)
    ensures
        r == (p.key_id == ek.key_id),
{
    p.key_id == ek.key_id
}

} // verus!
