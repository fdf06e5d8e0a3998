//! Schnorr proofs of knowledge of a discrete logarithm, over the model group.
//!
//! The proof is the classic commit/challenge/response triple with a
//! Fiat-Shamir challenge drawn from the hash of the statement.  In the model
//! group the verification equation is exact scalar arithmetic, so both
//! completeness and the verifier's decision are fully specified.

use vstd::prelude::*;
use crate::arith::{add_mod, mul_mod, GROUP_ORDER};
use crate::group::{generator_pow, GroupElem};
use crate::hash::{encode_words, encode_words_spec, hash_scalar_spec, hash_to_scalar};
use crate::rng::sample_scalar;

verus! {

/// A Schnorr proof for the statement `pk = g^x`.
#[derive(Clone, Copy, PartialEq, Eq, Structural, Debug)]
pub struct DLogProof {
    pub pk: GroupElem,
    pub commitment_point: GroupElem,
    pub challenge: u64,
    pub response: u64,
}

/// The Fiat-Shamir challenge of a statement/commitment pair.
pub open spec fn dlog_challenge_spec(pk: GroupElem, commitment_point: GroupElem) -> int {
    hash_scalar_spec(encode_words_spec(seq![pk.log, commitment_point.log]))
}

/// What the verifier accepts: well-formed components, the challenge bound to
/// the statement, and the response equation of the group.
pub open spec fn dlog_proof_ok(p: DLogProof) -> bool {
    &&& p.pk.wf()
    &&& p.commitment_point.wf()
    &&& p.challenge < GROUP_ORDER
    &&& p.response < GROUP_ORDER
    &&& p.challenge == dlog_challenge_spec(p.pk, p.commitment_point)
    &&& p.response == (p.commitment_point.log + p.challenge * p.pk.log) % (GROUP_ORDER as int)
}

/// Prove knowledge of `x`; the proof always verifies and claims `g^x`.
pub fn dlog_prove(x: u64) -> (p: DLogProof)
    requires
        x < GROUP_ORDER,
    ensures
        dlog_proof_ok(p),
        p.pk.log == x,
{
    let pk = generator_pow(x);
    let nonce = sample_scalar();
    let commitment_point = generator_pow(nonce);
    let mut stmt: Vec<u64> = Vec::new();
    stmt.push(pk.log);
    stmt.push(commitment_point.log);
    proof {
        assert(stmt@ =~= seq![pk.log, commitment_point.log]);
    }
    let bytes = encode_words(&stmt);
    let challenge = hash_to_scalar(&bytes);
    let response = add_mod(commitment_point.log, mul_mod(challenge, x, GROUP_ORDER), GROUP_ORDER);
    proof {
        vstd::arithmetic::div_mod::lemma_add_mod_noop_right(
            commitment_point.log as int,
            (challenge * x) as int,
            GROUP_ORDER as int,
        );
    }
    DLogProof { pk, commitment_point, challenge, response }
}

/// Check a Schnorr proof; true exactly when `dlog_proof_ok` holds of it.
pub fn dlog_verify(p: &DLogProof) -> (r: bool)
    ensures
        r == dlog_proof_ok(*p),
{
    if p.pk.log >= GROUP_ORDER || p.commitment_point.log >= GROUP_ORDER || p.challenge
        >= GROUP_ORDER || p.response >= GROUP_ORDER {
        return false;
    }
    let mut stmt: Vec<u64> = Vec::new();
    stmt.push(p.pk.log);
    stmt.push(p.commitment_point.log);
    proof {
        assert(stmt@ =~= seq![p.pk.log, p.commitment_point.log]);
    }
    let bytes = encode_words(&stmt);
    let expected_challenge = hash_to_scalar(&bytes);
    if p.challenge != expected_challenge {
        return false;
    }
    let expected_response = add_mod(
        p.commitment_point.log,
        mul_mod(p.challenge, p.pk.log, GROUP_ORDER),
        GROUP_ORDER,
    );
    proof {
        vstd::arithmetic::div_mod::lemma_add_mod_noop_right(
            p.commitment_point.log as int,
            (p.challenge * p.pk.log) as int,
            GROUP_ORDER as int,
        );
    }
    p.response == expected_response
}

} // verus!
