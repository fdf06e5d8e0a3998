//! The Multiplicative-to-Additive (MtA) two-party subprotocol.
//!
//! Party A holds `a`, party B holds `b`.  A sends the encryption of `a`
//! under her key; B answers homomorphically with an encryption of
//! `a * b + beta_tag` for a fresh blinding `beta_tag` it keeps, together with
//! Schnorr proofs binding `b` and `beta_tag`; B's additive share is
//! `-beta_tag` reduced into the field.  A decrypts, reduces, and accepts only
//! if the decrypted value matches the proven exponents, so that the two
//! shares add up to the product `a * b` in the scalar field.

use vstd::prelude::*;
use crate::arith::{add_mod, mul_mod, sub_mod, GROUP_ORDER, PLAINTEXT_MODULUS};
use crate::dlog::{dlog_proof_ok, dlog_prove, dlog_verify, DLogProof};
use crate::paillier::{
    add_ciphertexts, decrypt, encrypt, scale_ciphertext, Ciphertext, DecryptionKey, EncryptionKey,
};
use crate::rng::sample_scalar;
use crate::Error;

verus! {

/// A's opening message: the encryption of her secret under her own key.
#[derive(Clone, Copy, PartialEq, Eq, Structural, Debug)]
pub struct MessageA {
    pub c: Ciphertext,
}

/// B's response: the homomorphic encryption of `a * b + beta_tag`, with
/// Schnorr proofs binding `g^b` and `g^beta_tag`.
#[derive(Clone, Copy, PartialEq, Eq, Structural, Debug)]
pub struct MessageB {
    pub c: Ciphertext,
    pub b_proof: DLogProof,
    pub beta_tag_proof: DLogProof,
}

impl MessageA {
    /// A encrypts her secret scalar under her own encryption key.
    pub fn a(a: u64, ek: &EncryptionKey) -> (m: MessageA)
        requires
            a < GROUP_ORDER,
        ensures
            m.c.key_id == ek.key_id,
            m.c.value == a,
            m.c.wf(),
    {
        MessageA { c: encrypt(ek, a) }
    }
}

impl MessageB {
    /// B's response to `m_a` with secret `b`: the returned share `beta` is
    /// minus the blinding term, and the ciphertext carries
    /// `m_a * b + beta_tag` where `beta_tag == (GROUP_ORDER - beta) % GROUP_ORDER`.
    pub fn b(b: u64, ek: &EncryptionKey, m_a: MessageA) -> (r: (MessageB, u64))
        requires
            b < GROUP_ORDER,
            m_a.c.wf(),
            m_a.c.key_id == ek.key_id,
        ensures
            r.0.c.key_id == ek.key_id,
            r.0.c.wf(),
            r.1 < GROUP_ORDER,
            dlog_proof_ok(r.0.b_proof),
            r.0.b_proof.pk.log == b,
            dlog_proof_ok(r.0.beta_tag_proof),
            r.0.beta_tag_proof.pk.log == (GROUP_ORDER as int - r.1 as int) % (GROUP_ORDER as int),
            r.0.c.value == (m_a.c.value * b + (GROUP_ORDER as int - r.1 as int) % (
            GROUP_ORDER as int)) % (PLAINTEXT_MODULUS as int),
    {
        let beta_tag = sample_scalar();
        let c_scaled = scale_ciphertext(&m_a.c, b);
        let c_blind = encrypt(ek, beta_tag);
        let c = add_ciphertexts(&c_scaled, &c_blind);
        let beta = sub_mod(0, beta_tag, GROUP_ORDER);
        let b_proof = dlog_prove(b);
        let beta_tag_proof = dlog_prove(beta_tag);
        proof {
            let q = GROUP_ORDER as int;
            let n = PLAINTEXT_MODULUS as int;
            // beta_tag is recovered from beta as (q - beta) % q
            assert(beta == (0 + q - beta_tag) % q);
            if beta_tag == 0 {
                assert((q - 0) % q == 0) by {
                    vstd::arithmetic::div_mod::lemma_mod_self_0(q);
                }
                assert(beta == 0);
                assert((q - beta as int) % q == beta_tag as int) by {
                    vstd::arithmetic::div_mod::lemma_mod_self_0(q);
                }
            } else {
                vstd::arithmetic::div_mod::lemma_small_mod((q - beta_tag) as nat, q as nat);
                assert(beta == q - beta_tag);
                vstd::arithmetic::div_mod::lemma_small_mod(beta_tag as nat, q as nat);
                assert((q - beta as int) % q == beta_tag as int);
            }
            // the homomorphic sum carries the exact plaintext sum modulo n
            assert(c.value == ((m_a.c.value * b) % n + beta_tag) % n);
            vstd::arithmetic::div_mod::lemma_add_mod_noop(
                (m_a.c.value * b) as int,
                beta_tag as int,
                n,
            );
            vstd::arithmetic::div_mod::lemma_small_mod(beta_tag as nat, n as nat);
            assert(c.value == (m_a.c.value * b + beta_tag) % n);
        }
        (MessageB { c, b_proof, beta_tag_proof }, beta)
    }

    /// A's completion: decrypt with her own key, reduce into the field, and
    /// accept exactly when the Schnorr proofs hold and the decrypted value
    /// matches the exponents they bind.  Any mismatch is a hard abort.
    pub fn verify_proofs_get_alpha(&self, dk: &DecryptionKey, a: u64) -> (r: Result<u64, Error>)
        requires
            a < GROUP_ORDER,
            self.c.wf(),
        ensures
            match r {
                Ok(alpha) => {
                    &&& dk.key_id == self.c.key_id
                    &&& dlog_proof_ok(self.b_proof)
                    &&& dlog_proof_ok(self.beta_tag_proof)
                    &&& alpha == self.c.value as int % (GROUP_ORDER as int)
                    &&& alpha as int == ((self.b_proof.pk.log * a) % (GROUP_ORDER as int)
                        + self.beta_tag_proof.pk.log) % (GROUP_ORDER as int)
                },
                Err(e) => {
                    &&& e == Error::InvalidKey
                    &&& !({
                        &&& dk.key_id == self.c.key_id
                        &&& dlog_proof_ok(self.b_proof)
                        &&& dlog_proof_ok(self.beta_tag_proof)
                        &&& self.c.value as int % (GROUP_ORDER as int) == ((self.b_proof.pk.log * a)
                            % (GROUP_ORDER as int) + self.beta_tag_proof.pk.log) % (
                        GROUP_ORDER as int)
                    })
                },
            },
    {
        let raw = decrypt(dk, &self.c);
        match raw {
            None => Err(Error::InvalidKey),
            Some(v) => {
                if !dlog_verify(&self.b_proof) {
                    return Err(Error::InvalidKey);
                }
                if !dlog_verify(&self.beta_tag_proof) {
                    return Err(Error::InvalidKey);
                }
                let alpha = v % GROUP_ORDER;
                let expected = add_mod(
                    mul_mod(self.b_proof.pk.log, a, GROUP_ORDER),
                    self.beta_tag_proof.pk.log,
                    GROUP_ORDER,
                );
                if alpha == expected {
                    Ok(alpha)
                } else {
                    Err(Error::InvalidKey)
                }
            },
        }
    }
}

/// What an honestly built response carries, as `MessageB::b` fixes it: a
/// ciphertext bound to `ek_id` holding `a_val * b_val` plus the blinding
/// term that the second proof binds, with both proofs valid.
pub open spec fn mta_response_ok(m_b: MessageB, ek_id: u64, a_val: u64, b_val: u64) -> bool {
    &&& m_b.c.key_id == ek_id
    &&& m_b.c.wf()
    &&& dlog_proof_ok(m_b.b_proof)
    &&& m_b.b_proof.pk.log == b_val
    &&& dlog_proof_ok(m_b.beta_tag_proof)
    &&& m_b.beta_tag_proof.pk.log < GROUP_ORDER
    &&& m_b.c.value == (a_val * b_val + m_b.beta_tag_proof.pk.log) % (PLAINTEXT_MODULUS as int)
}

/// An honestly built response passes the completion's consistency check:
/// the decrypted value, reduced into the field, equals the combination of
/// the exponents its proofs bind.
pub proof fn lemma_mta_response_accepted(m_b: MessageB, ek_id: u64, a_val: u64, b_val: u64)
    requires
        mta_response_ok(m_b, ek_id, a_val, b_val),
        a_val < GROUP_ORDER,
        b_val < GROUP_ORDER,
    ensures
        m_b.c.value as int % (GROUP_ORDER as int) == ((m_b.b_proof.pk.log * a_val) % (
        GROUP_ORDER as int) + m_b.beta_tag_proof.pk.log) % (GROUP_ORDER as int),
{
    let q = GROUP_ORDER as int;
    let n = PLAINTEXT_MODULUS as int;
    let bt = m_b.beta_tag_proof.pk.log as int;
    assert(a_val * b_val <= (GROUP_ORDER - 1) * (GROUP_ORDER - 1)) by (nonlinear_arith)
        requires
            a_val < GROUP_ORDER,
            b_val < GROUP_ORDER,
    ;
    assert(a_val * b_val >= 0) by (nonlinear_arith)
        requires
            a_val >= 0,
            b_val >= 0,
    ;
    assert((GROUP_ORDER - 1) as int * (GROUP_ORDER - 1) as int == 4611686009837453316int)
        by (nonlinear_arith);
    assert(a_val * b_val + bt < n);
    vstd::arithmetic::div_mod::lemma_small_mod((a_val * b_val + bt) as nat, n as nat);
    assert(m_b.c.value == a_val * b_val + bt);
    vstd::arithmetic::div_mod::lemma_add_mod_noop(a_val * b_val, bt, q);
    vstd::arithmetic::div_mod::lemma_small_mod(bt as nat, q as nat);
    assert(b_val * a_val == a_val * b_val) by (nonlinear_arith);
}

/// Law: the MtA exchange converts a multiplicative sharing into an additive
/// one.  If B answered `a` and `b` honestly with share `beta`, and A's
/// completion accepted with share `alpha`, the two shares add up to the
/// product of the secrets in the scalar field.
pub proof fn lemma_mta_shares(a: u64, b: u64, beta: u64, c_value: u64, alpha: u64)
    requires
        a < GROUP_ORDER,
        b < GROUP_ORDER,
        beta < GROUP_ORDER,
        c_value == (a * b + (GROUP_ORDER as int - beta as int) % (GROUP_ORDER as int)) % (
        PLAINTEXT_MODULUS as int),
        alpha == c_value as int % (GROUP_ORDER as int),
    ensures
        (alpha + beta) % (GROUP_ORDER as int) == (a * b) % (GROUP_ORDER as int),
{
    let q = GROUP_ORDER as int;
    let n = PLAINTEXT_MODULUS as int;
    let bt = (q - beta) % q;
    vstd::arithmetic::div_mod::lemma_mod_bound(q - beta, q);
    assert(a * b <= (GROUP_ORDER - 1) * (GROUP_ORDER - 1)) by (nonlinear_arith)
        requires
            a < GROUP_ORDER,
            b < GROUP_ORDER,
    ;
    assert(a * b >= 0) by (nonlinear_arith)
        requires
            a >= 0,
            b >= 0,
    ;
    assert(a * b + bt < n);
    vstd::arithmetic::div_mod::lemma_small_mod((a * b + bt) as nat, n as nat);
    assert(c_value == a * b + bt);
    // (alpha + beta) % q == (a * b + bt + beta) % q, and bt + beta vanishes
    vstd::arithmetic::div_mod::lemma_add_mod_noop(a * b + bt, beta as int, q);
    vstd::arithmetic::div_mod::lemma_small_mod(beta as nat, q as nat);
    assert((alpha + beta) % q == (a * b + bt + beta) % q);
    if beta == 0 {
        vstd::arithmetic::div_mod::lemma_mod_self_0(q);
        assert(bt == 0);
        vstd::arithmetic::div_mod::lemma_mod_twice(a * b, q);
    } else {
        vstd::arithmetic::div_mod::lemma_small_mod((q - beta) as nat, q as nat);
        assert(bt == q - beta);
        assert(a * b + bt + beta == a * b + q);
        vstd::arithmetic::div_mod::lemma_mod_add_multiples_vanish(a * b, q);
    }
}

} // verus!
