//! The threshold signing protocol: per-signer ephemeral keys, the five
//! phases over the MtA subprotocol, and the commit-then-reveal disclosure of
//! the partial signatures.
//!
//! Every verification gate is an exact predicate: the function that drives a
//! gate returns `Ok` precisely when the predicate holds of its inputs, and a
//! typed error otherwise, so a single tampered message is caught by the
//! phase that consumes it.

use vstd::prelude::*;
use crate::arith::{add_mod, inv_mod_order, inv_q_spec, mul_mod, sum_int, sum_mod_order,
    GROUP_ORDER};
use crate::commit::{commit, commitment_spec, open_commitment};
use crate::dlog::{dlog_proof_ok, DLogProof};
use crate::group::{generator_pow, point_add, point_logs, point_scale, point_sub, sum_points,
    x_coord, GroupElem};
use crate::paillier::DecryptionKey;
use crate::party::{Keys, SharedKeys};
use crate::rng::{sample_blind, sample_scalar};
use crate::vss::{eval_points, lag_basis, lagrange_basis, VerifiableSS};
use crate::Error;

verus! {

/// The private material a signer brings into a session.
#[derive(Clone, Copy, PartialEq, Eq, Structural, Debug)]
pub struct PartyPrivate {
    pub u_i: u64,
    pub x_i: u64,
    pub dk: DecryptionKey,
}

impl PartyPrivate {
    /// Bundle a party's long-term and aggregate key material for signing.
    pub fn set_private(key: Keys, shared_key: SharedKeys) -> (r: PartyPrivate)
        ensures
            r.u_i == key.u_i,
            r.x_i == shared_key.x_i,
            r.dk == key.dk,
    {
        PartyPrivate { u_i: key.u_i, x_i: shared_key.x_i, dk: key.dk }
    }
}

/// A signer's ephemeral session keys: the Lagrange-weighted share, the nonce
/// share and its blinding, with their public points.
#[derive(Clone, Copy, PartialEq, Eq, Structural, Debug)]
pub struct SignKeys {
    pub w_i: u64,
    pub g_w_i: GroupElem,
    pub k_i: u64,
    pub gamma_i: u64,
    pub g_gamma_i: GroupElem,
}

/// The phase-1 broadcast: a commitment to `g^{gamma_i}`.
#[derive(Clone, Debug)]
pub struct SignBroadcastPhase1 {
    pub com: Vec<u8>,
}

/// The phase-4 decommitment revealing `g^{gamma_i}`.
#[derive(Clone, Copy, PartialEq, Eq, Structural, Debug)]
pub struct SignDecommitPhase1 {
    pub blind_factor: u64,
    pub g_gamma_i: GroupElem,
}

impl SignKeys {
    /// Well-formed session keys: reduced scalars, points bound to them.
    pub open spec fn wf(self) -> bool {
        &&& self.w_i < GROUP_ORDER
        &&& self.g_w_i.wf()
        &&& self.g_w_i.log == self.w_i
        &&& self.k_i < GROUP_ORDER
        &&& self.gamma_i < GROUP_ORDER
        &&& self.g_gamma_i.wf()
        &&& self.g_gamma_i.log == self.gamma_i
    }

    /// Build a signer's session keys: re-weight the aggregate share by the
    /// Lagrange coefficient of this signer's position within the signer set
    /// `s`, and sample the nonce share and its blinding.  Fails exactly when
    /// the coefficient is undefined over the given points.
    pub fn create(
        private_key: &PartyPrivate,
        vss_scheme: &VerifiableSS,
        index: usize,
        s: &Vec<usize>,
    ) -> (r: Result<SignKeys, Error>)
        requires
            private_key.x_i < GROUP_ORDER,
            (index as int) < s@.len(),
            forall|i: int| 0 <= i < s@.len() ==> (s@[i] as int) + 1 < GROUP_ORDER,
        ensures
            match r {
                Ok(sk) => {
                    &&& sk.wf()
                    &&& match lag_basis(eval_points(s@), index as int, 0) {
                        Option::Some(b) => sk.w_i == (b * private_key.x_i) % (GROUP_ORDER as int),
                        Option::None => false,
                    }
                },
                Err(e) => e == Error::InvalidSS && lag_basis(
                    eval_points(s@),
                    index as int,
                    0,
                ) is None,
            },
    {
        let mut points: Vec<u64> = Vec::new();
        let mut k: usize = 0;
        while k < s.len()
            invariant
                k <= s@.len(),
                points@.len() == k,
                forall|i: int| 0 <= i < s@.len() ==> (s@[i] as int) + 1 < GROUP_ORDER,
                forall|i: int| 0 <= i < k ==> points@[i] == (s@[i] + 1) as u64,
            decreases s.len() - k,
        {
            points.push((s[k] as u64) + 1);
            k = k + 1;
        }
        proof {
            assert(points@ =~= eval_points(s@));
        }
        let li = match lagrange_basis(&points, index) {
            Ok(b) => b,
            Err(e) => {
                return Err(e);
            },
        };
        let w_i = mul_mod(li, private_key.x_i, GROUP_ORDER);
        let g_w_i = generator_pow(w_i);
        let k_i = sample_scalar();
        let gamma_i = sample_scalar();
        let g_gamma_i = generator_pow(gamma_i);
        proof {
            vstd::arithmetic::div_mod::lemma_small_mod(w_i as nat, GROUP_ORDER as nat);
            vstd::arithmetic::div_mod::lemma_small_mod(gamma_i as nat, GROUP_ORDER as nat);
        }
        Ok(SignKeys { w_i, g_w_i, k_i, gamma_i, g_gamma_i })
    }

    /// Phase 1: commit to `g^{gamma_i}`; the decommitment stays local.
    pub fn phase1_broadcast(&self) -> (r: (SignBroadcastPhase1, SignDecommitPhase1))
        requires
            self.wf(),
        ensures
            r.0.com@ == commitment_spec(seq![self.g_gamma_i.log], r.1.blind_factor),
            r.1.g_gamma_i == self.g_gamma_i,
    {
        let blind_factor = sample_blind();
        let mut values: Vec<u64> = Vec::new();
        values.push(self.g_gamma_i.log);
        proof {
            assert(values@ =~= seq![self.g_gamma_i.log]);
        }
        let com = commit(&values, blind_factor);
        (
            SignBroadcastPhase1 { com },
            SignDecommitPhase1 { blind_factor, g_gamma_i: self.g_gamma_i },
        )
    }

    /// Phase 2 aggregate: `delta_i = k_i * gamma_i + sum(alpha) + sum(beta)`
    /// in the scalar field.
    pub fn phase2_delta_i(&self, alpha_vec: &Vec<u64>, beta_vec: &Vec<u64>) -> (r: u64)
        requires
            self.wf(),
            forall|i: int| 0 <= i < alpha_vec@.len() ==> alpha_vec@[i] < GROUP_ORDER,
            forall|i: int| 0 <= i < beta_vec@.len() ==> beta_vec@[i] < GROUP_ORDER,
        ensures
            r == (self.k_i * self.gamma_i + sum_int(alpha_vec@) + sum_int(beta_vec@)) % (
            GROUP_ORDER as int),
            r < GROUP_ORDER,
    {
        combine_product_and_sums(self.k_i, self.gamma_i, alpha_vec, beta_vec)
    }

    /// Phase 2 aggregate: `sigma_i = k_i * w_i + sum(miu) + sum(ni)`
    /// in the scalar field.
    pub fn phase2_sigma_i(&self, miu_vec: &Vec<u64>, ni_vec: &Vec<u64>) -> (r: u64)
        requires
            self.wf(),
            forall|i: int| 0 <= i < miu_vec@.len() ==> miu_vec@[i] < GROUP_ORDER,
            forall|i: int| 0 <= i < ni_vec@.len() ==> ni_vec@[i] < GROUP_ORDER,
        ensures
            r == (self.k_i * self.w_i + sum_int(miu_vec@) + sum_int(ni_vec@)) % (
            GROUP_ORDER as int),
            r < GROUP_ORDER,
    {
        combine_product_and_sums(self.k_i, self.w_i, miu_vec, ni_vec)
    }

    /// Phase 3: sum the broadcast `delta_i` and invert the total.  Fails
    /// with `InvalidSig` exactly when the total has no inverse.
    pub fn phase3_reconstruct_delta(delta_vec: &Vec<u64>) -> (r: Result<u64, Error>)
        requires
            forall|i: int| 0 <= i < delta_vec@.len() ==> delta_vec@[i] < GROUP_ORDER,
        ensures
            match r {
                Ok(v) => inv_q_spec((sum_int(delta_vec@) % (GROUP_ORDER as int)) as nat) == Some(
                    v as nat,
                ) && v < GROUP_ORDER && ((sum_int(delta_vec@) % (GROUP_ORDER as int)) * v) % (
                GROUP_ORDER as int) == 1,
                Err(e) => e == Error::InvalidSig && inv_q_spec(
                    (sum_int(delta_vec@) % (GROUP_ORDER as int)) as nat,
                ) is None,
            },
    {
        let total = sum_mod_order(delta_vec);
        match inv_mod_order(total) {
            Some(v) => {
                proof {
                    assert((total * v) % (GROUP_ORDER as int) == 1);
                }
                Ok(v)
            },
            None => Err(Error::InvalidSig),
        }
    }

    /// Phase 4: open every phase-1 commitment, check the revealed
    /// `g^{gamma_i}` against the value the MtA responses proved, and build
    /// the nonce point `R = (prod g^{gamma_i})^{delta^{-1}}`.
    pub fn phase4(
        delta_inv: u64,
        b_proof_vec: &Vec<DLogProof>,
        phase1_decommit_vec: &Vec<SignDecommitPhase1>,
        bc1_vec: &Vec<SignBroadcastPhase1>,
    ) -> (r: Result<GroupElem, Error>)
        requires
            delta_inv < GROUP_ORDER,
            b_proof_vec@.len() == phase1_decommit_vec@.len(),
            bc1_vec@.len() == phase1_decommit_vec@.len(),
        ensures
            match r {
                Ok(rp) => {
                    &&& phase4_ok(b_proof_vec@, phase1_decommit_vec@, bc1_vec@)
                    &&& rp.log == ((sum_int(gamma_logs(phase1_decommit_vec@)) % (
                    GROUP_ORDER as int)) * delta_inv) % (GROUP_ORDER as int)
                    &&& rp.wf()
                },
                Err(e) => e == Error::InvalidCom && !phase4_ok(
                    b_proof_vec@,
                    phase1_decommit_vec@,
                    bc1_vec@,
                ),
            },
    {
        let n = phase1_decommit_vec.len();
        let mut j: usize = 0;
        let mut g_gammas: Vec<GroupElem> = Vec::new();
        while j < n
            invariant
                j <= n,
                n == phase1_decommit_vec@.len(),
                b_proof_vec@.len() == n,
                bc1_vec@.len() == n,
                g_gammas@.len() == j,
                forall|i: int|
                    0 <= i < j ==> phase4_entry_ok(
                        b_proof_vec@[i],
                        phase1_decommit_vec@[i],
                        bc1_vec@[i],
                    ),
                forall|i: int| 0 <= i < j ==> g_gammas@[i] == phase1_decommit_vec@[i].g_gamma_i,
                forall|i: int| 0 <= i < j ==> (#[trigger] g_gammas@[i]).wf(),
            decreases n - j,
        {
            let decom = &phase1_decommit_vec[j];
            if decom.g_gamma_i.log >= GROUP_ORDER {
                return Err(Error::InvalidCom);
            }
            if !crate::dlog::dlog_verify(&b_proof_vec[j]) {
                return Err(Error::InvalidCom);
            }
            if b_proof_vec[j].pk.log != decom.g_gamma_i.log {
                return Err(Error::InvalidCom);
            }
            let mut values: Vec<u64> = Vec::new();
            values.push(decom.g_gamma_i.log);
            proof {
                assert(values@ =~= seq![phase1_decommit_vec@[j as int].g_gamma_i.log]);
            }
            if !open_commitment(&bc1_vec[j].com, &values, decom.blind_factor) {
                return Err(Error::InvalidCom);
            }
            g_gammas.push(phase1_decommit_vec[j].g_gamma_i);
            j = j + 1;
        }
        proof {
            assert(point_logs(g_gammas@) =~= gamma_logs(phase1_decommit_vec@));
        }
        let base = sum_points(&g_gammas);
        Ok(point_scale(base, delta_inv))
    }
}

/// `(k * x + sum(first) + sum(second))` in the scalar field.
fn combine_product_and_sums(k: u64, x: u64, first: &Vec<u64>, second: &Vec<u64>) -> (r: u64)
    requires
        k < GROUP_ORDER,
        x < GROUP_ORDER,
        forall|i: int| 0 <= i < first@.len() ==> first@[i] < GROUP_ORDER,
        forall|i: int| 0 <= i < second@.len() ==> second@[i] < GROUP_ORDER,
    ensures
        r == (k * x + sum_int(first@) + sum_int(second@)) % (GROUP_ORDER as int),
        r < GROUP_ORDER,
{
    let q = GROUP_ORDER;
    let prod = mul_mod(k, x, q);
    let s1 = sum_mod_order(first);
    let s2 = sum_mod_order(second);
    let partial = add_mod(prod, s1, q);
    let total = add_mod(partial, s2, q);
    proof {
        let qi = GROUP_ORDER as int;
        let p = (k as int) * (x as int);
        let a = sum_int(first@);
        let b = sum_int(second@);
        vstd::arithmetic::div_mod::lemma_add_mod_noop(p, a, qi);
        vstd::arithmetic::div_mod::lemma_mod_twice(p, qi);
        vstd::arithmetic::div_mod::lemma_mod_twice(a, qi);
        assert(partial == (p + a) % qi);
        vstd::arithmetic::div_mod::lemma_add_mod_noop(p + a, b, qi);
        vstd::arithmetic::div_mod::lemma_mod_twice(p + a, qi);
        vstd::arithmetic::div_mod::lemma_mod_twice(b, qi);
        assert(total == (p + a + b) % qi);
    }
    total
}

/// One phase-4 entry is consistent: the MtA-side proof is valid, its claimed
/// point is the decommitted `g^{gamma_i}`, and the decommitment opens the
/// phase-1 commitment.
pub open spec fn phase4_entry_ok(
    b_proof: DLogProof,
    decom: SignDecommitPhase1,
    bc: SignBroadcastPhase1,
) -> bool {
    &&& decom.g_gamma_i.wf()
    &&& dlog_proof_ok(b_proof)
    &&& b_proof.pk.log == decom.g_gamma_i.log
    &&& bc.com@ == commitment_spec(seq![decom.g_gamma_i.log], decom.blind_factor)
}

/// All phase-4 entries are consistent.
pub open spec fn phase4_ok(
    b_proofs: Seq<DLogProof>,
    decoms: Seq<SignDecommitPhase1>,
    bcs: Seq<SignBroadcastPhase1>,
) -> bool {
    forall|i: int|
        0 <= i < decoms.len() ==> phase4_entry_ok(b_proofs[i], #[trigger] decoms[i], bcs[i])
}

/// The revealed `g^{gamma_i}` logarithms of the phase-4 decommitments.
pub open spec fn gamma_logs(decoms: Seq<SignDecommitPhase1>) -> Seq<u64> {
    decoms.map_values(|d: SignDecommitPhase1| d.g_gamma_i.log)
}

/// `(x % q + e * (y % q)) % q == (x + e * y) % q`: reduced operands can be
/// replaced by their full values under an affine combination.
proof fn lemma_mod_affine(x: int, e: int, y: int, q: int)
    requires
        0 < q,
    ensures
        (x % q + e * ((y % q) as int)) % q == (x + e * y) % q,
{
    vstd::arithmetic::div_mod::lemma_add_mod_noop(x % q, e * (y % q), q);
    vstd::arithmetic::div_mod::lemma_mod_twice(x, q);
    vstd::arithmetic::div_mod::lemma_mul_mod_noop_right(e, y, q);
    vstd::arithmetic::div_mod::lemma_add_mod_noop(x, e * y, q);
}

/// `(u * (p % q) + (w % q)) % q == (u * p + w) % q`.
proof fn lemma_mod_affine2(u: int, p: int, w: int, q: int)
    requires
        0 < q,
    ensures
        (u * ((p % q) as int) + w % q) % q == (u * p + w) % q,
{
    vstd::arithmetic::div_mod::lemma_add_mod_noop(u * (p % q), w % q, q);
    vstd::arithmetic::div_mod::lemma_mul_mod_noop_right(u, p, q);
    vstd::arithmetic::div_mod::lemma_mod_twice(w, q);
    vstd::arithmetic::div_mod::lemma_add_mod_noop(u * p, w, q);
}

/// Completeness of the phase-5b proof: honestly computed commitments and
/// responses satisfy both verification equations.
#[verifier::rlimit(100)]
proof fn lemma_helgamal_equations(
    rl: int,
    al: int,
    e: int,
    c1: int,
    c2: int,
    s: int,
    l: int,
    t1: int,
    t2: int,
    z1: int,
    z2: int,
    vlog: int,
    blog: int,
)
    requires
        0 <= c2 < GROUP_ORDER,
        t1 == ((rl * c1) % (GROUP_ORDER as int) + c2) % (GROUP_ORDER as int),
        t2 == (al * c2) % (GROUP_ORDER as int),
        z1 == (c1 + (e * s) % (GROUP_ORDER as int)) % (GROUP_ORDER as int),
        z2 == (c2 + (e * l) % (GROUP_ORDER as int)) % (GROUP_ORDER as int),
        vlog == (rl * s + l) % (GROUP_ORDER as int),
        blog == (al * l) % (GROUP_ORDER as int),
    ensures
        (rl * z1 + z2) % (GROUP_ORDER as int) == (t1 + e * vlog) % (GROUP_ORDER as int),
        (al * z2) % (GROUP_ORDER as int) == (t2 + e * blog) % (GROUP_ORDER as int),
{
    let qi = GROUP_ORDER as int;
    // the responses are the reduced affine combinations
    vstd::arithmetic::div_mod::lemma_add_mod_noop(c1, (e * s) % qi, qi);
    vstd::arithmetic::div_mod::lemma_mod_twice(e * s, qi);
    vstd::arithmetic::div_mod::lemma_add_mod_noop(c1, e * s, qi);
    assert(z1 == (c1 + e * s) % qi);
    vstd::arithmetic::div_mod::lemma_add_mod_noop(c2, (e * l) % qi, qi);
    vstd::arithmetic::div_mod::lemma_mod_twice(e * l, qi);
    vstd::arithmetic::div_mod::lemma_add_mod_noop(c2, e * l, qi);
    assert(z2 == (c2 + e * l) % qi);
    // the first-round commitment carries its full value
    vstd::arithmetic::div_mod::lemma_add_mod_noop(rl * c1, c2, qi);
    vstd::arithmetic::div_mod::lemma_mod_twice(rl * c1, qi);
    vstd::arithmetic::div_mod::lemma_small_mod(c2 as nat, GROUP_ORDER as nat);
    assert(t1 == (rl * c1 + c2) % qi);
    // first verification equation
    lemma_mod_affine2(rl, c1 + e * s, c2 + e * l, qi);
    assert((rl * z1 + z2) % qi == (rl * (c1 + e * s) + (c2 + e * l)) % qi);
    assert(rl * (c1 + e * s) + (c2 + e * l) == (rl * c1 + c2) + e * (rl * s + l))
        by (nonlinear_arith);
    lemma_mod_affine(rl * c1 + c2, e, rl * s + l, qi);
    assert((t1 + e * vlog) % qi == ((rl * c1 + c2) + e * (rl * s + l)) % qi);
    // second verification equation
    vstd::arithmetic::div_mod::lemma_mul_mod_noop_right(al, c2 + e * l, qi);
    assert((al * z2) % qi == (al * (c2 + e * l)) % qi);
    assert(al * (c2 + e * l) == al * c2 + e * (al * l)) by (nonlinear_arith);
    lemma_mod_affine(al * c2, e, al * l, qi);
    assert((t2 + e * blog) % qi == (al * c2 + e * (al * l)) % qi);
}

/// The zero-knowledge proof of phase 5b: a Chaum-Pedersen-style proof that
/// `V = s * R + l * G` and `B = l * A` hold for the same secrets `(s, l)`.
#[derive(Clone, Copy, PartialEq, Eq, Structural, Debug)]
pub struct HomoELGamalProof {
    pub t1: GroupElem,
    pub t2: GroupElem,
    pub challenge: u64,
    pub z1: u64,
    pub z2: u64,
}

/// The Fiat-Shamir challenge of the phase-5b statement.
pub open spec fn helgamal_challenge_spec(
    v: GroupElem,
    a: GroupElem,
    b: GroupElem,
    t1: GroupElem,
    t2: GroupElem,
    rpoint: GroupElem,
) -> int {
    crate::hash::hash_scalar_spec(
        crate::hash::encode_words_spec(seq![v.log, a.log, b.log, t1.log, t2.log, rpoint.log]),
    )
}

/// What the phase-5b verifier accepts of a proof for statement
/// `(V, A, B)` against the nonce point `R`.
pub open spec fn helgamal_ok(
    p: HomoELGamalProof,
    v: GroupElem,
    a: GroupElem,
    b: GroupElem,
    rpoint: GroupElem,
) -> bool {
    &&& v.wf()
    &&& a.wf()
    &&& b.wf()
    &&& rpoint.wf()
    &&& p.t1.wf()
    &&& p.t2.wf()
    &&& p.challenge < GROUP_ORDER
    &&& p.z1 < GROUP_ORDER
    &&& p.z2 < GROUP_ORDER
    &&& p.challenge == helgamal_challenge_spec(v, a, b, p.t1, p.t2, rpoint)
    &&& (rpoint.log * p.z1 + p.z2) % (GROUP_ORDER as int) == (p.t1.log + p.challenge * v.log) % (
    GROUP_ORDER as int)
    &&& (a.log * p.z2) % (GROUP_ORDER as int) == (p.t2.log + p.challenge * b.log) % (
    GROUP_ORDER as int)
}

/// Produce the phase-5b proof; it always verifies for an honest statement.
pub fn helgamal_prove(
    s: u64,
    l: u64,
    v: GroupElem,
    a: GroupElem,
    b: GroupElem,
    rpoint: GroupElem,
) -> (p: HomoELGamalProof)
    requires
        s < GROUP_ORDER,
        l < GROUP_ORDER,
        v.wf(),
        a.wf(),
        b.wf(),
        rpoint.wf(),
        v.log == (rpoint.log * s + l) % (GROUP_ORDER as int),
        b.log == (a.log * l) % (GROUP_ORDER as int),
    ensures
        helgamal_ok(p, v, a, b, rpoint),
{
    let q = GROUP_ORDER;
    let c1 = sample_scalar();
    let c2 = sample_scalar();
    let t1 = GroupElem { log: add_mod(mul_mod(rpoint.log, c1, q), c2, q) };
    let t2 = GroupElem { log: mul_mod(a.log, c2, q) };
    let mut stmt: Vec<u64> = Vec::new();
    stmt.push(v.log);
    stmt.push(a.log);
    stmt.push(b.log);
    stmt.push(t1.log);
    stmt.push(t2.log);
    stmt.push(rpoint.log);
    proof {
        assert(stmt@ =~= seq![v.log, a.log, b.log, t1.log, t2.log, rpoint.log]);
    }
    let bytes = crate::hash::encode_words(&stmt);
    let challenge = crate::hash::hash_to_scalar(&bytes);
    let z1 = add_mod(c1, mul_mod(challenge, s, q), q);
    let z2 = add_mod(c2, mul_mod(challenge, l, q), q);
    proof {
        lemma_helgamal_equations(
            rpoint.log as int,
            a.log as int,
            challenge as int,
            c1 as int,
            c2 as int,
            s as int,
            l as int,
            t1.log as int,
            t2.log as int,
            z1 as int,
            z2 as int,
            v.log as int,
            b.log as int,
        );
    }
    HomoELGamalProof { t1, t2, challenge, z1, z2 }
}

/// A finalized signature: the nonce x-coordinate and the scalar response.
#[derive(Clone, Copy, PartialEq, Eq, Structural, Debug)]
pub struct Signature {
    pub r: u64,
    pub s: u64,
}

/// The standard ECDSA verification relation in the model group: `(r, s)` is
/// valid for message scalar `m` under public key `y` when `s` is invertible
/// and the recombined nonce point has x-coordinate `r`.
pub open spec fn ecdsa_valid(y: GroupElem, m: u64, r: u64, s: u64) -> bool {
    &&& r < GROUP_ORDER
    &&& s < GROUP_ORDER
    &&& match inv_q_spec(s as nat) {
        Option::None => false,
        Option::Some(w) => {
            let u1 = (m * w) % (GROUP_ORDER as int);
            let u2 = (r * w) % (GROUP_ORDER as int);
            (u1 + (u2 * y.log) % (GROUP_ORDER as int)) % (GROUP_ORDER as int) == r
        },
    }
}

/// Check the ECDSA verification equation against the aggregate public key
/// and the message scalar: true exactly when `ecdsa_valid` holds.
pub fn verify_ecdsa_signature(y: &GroupElem, message: u64, r: u64, s: u64) -> (res: bool)
    requires
        y.wf(),
        message < GROUP_ORDER,
    ensures
        res == ecdsa_valid(*y, message, r, s),
{
    let q = GROUP_ORDER;
    if r >= q || s >= q {
        return false;
    }
    match inv_mod_order(s) {
        None => false,
        Some(w) => {
            let u1 = mul_mod(message, w, q);
            let u2 = mul_mod(r, w, q);
            let x = add_mod(u1, mul_mod(u2, y.log, q), q);
            x == r
        },
    }
}

/// One signer's phase-5 state: the signature share and the ephemeral
/// blinding material for the commit-then-reveal disclosure.  The blinding
/// scalars are drawn once, when the share is formed, so that each later
/// phase is a pure function of this state.
#[derive(Clone, Copy, PartialEq, Eq, Structural, Debug)]
pub struct LocalSignature {
    pub r: u64,
    pub r_point: GroupElem,
    pub s_i: u64,
    pub m: u64,
    pub y: GroupElem,
    pub l_i: u64,
    pub rho_i: u64,
    pub blind5a: u64,
    pub blind5c: u64,
}

/// The phase-5a broadcast: a commitment to `(V_i, A_i, B_i)`.
#[derive(Clone, Debug)]
pub struct Phase5Com1 {
    pub com: Vec<u8>,
}

impl Phase5Com1 {
    /// An owned copy of the broadcast, its bytes preserved.
    pub fn duplicate(&self) -> (r: Phase5Com1)
        ensures
            r.com@ == self.com@,
    {
        Phase5Com1 { com: self.com.clone() }
    }
}

/// The phase-5a decommitment.
#[derive(Clone, Copy, PartialEq, Eq, Structural, Debug)]
pub struct Phase5ADecom1 {
    pub v_i: GroupElem,
    pub a_i: GroupElem,
    pub b_i: GroupElem,
    pub blind_factor: u64,
}

/// The phase-5c broadcast: a commitment to `(U_i, T_i)`.
#[derive(Clone, Debug)]
pub struct Phase5Com2 {
    pub com: Vec<u8>,
}

/// The phase-5d decommitment.
#[derive(Clone, Copy, PartialEq, Eq, Structural, Debug)]
pub struct Phase5DDecom2 {
    pub u_i: GroupElem,
    pub t_i: GroupElem,
    pub blind_factor: u64,
}

/// The `V_i` logarithms of a sequence of phase-5a decommitments.
pub open spec fn v_logs(decoms: Seq<Phase5ADecom1>) -> Seq<u64> {
    decoms.map_values(|d: Phase5ADecom1| d.v_i.log)
}

/// The `A_i` logarithms of a sequence of phase-5a decommitments.
pub open spec fn a_logs(decoms: Seq<Phase5ADecom1>) -> Seq<u64> {
    decoms.map_values(|d: Phase5ADecom1| d.a_i.log)
}

/// The signature shares of a sequence of phase-5 states.
pub open spec fn share_values(lsv: Seq<LocalSignature>) -> Seq<u64> {
    lsv.map_values(|l: LocalSignature| l.s_i)
}

/// The `U_i` logarithms of a sequence of phase-5d decommitments.
pub open spec fn u_logs(decoms: Seq<Phase5DDecom2>) -> Seq<u64> {
    decoms.map_values(|d: Phase5DDecom2| d.u_i.log)
}

/// The `T_i` logarithms of a sequence of phase-5d decommitments.
pub open spec fn t_logs(decoms: Seq<Phase5DDecom2>) -> Seq<u64> {
    decoms.map_values(|d: Phase5DDecom2| d.t_i.log)
}

/// One phase-5c entry is consistent: the decommitment opens its phase-5a
/// commitment and the proof holds of the decommitted statement.
pub open spec fn phase5c_entry_ok(
    decom: Phase5ADecom1,
    com: Phase5Com1,
    proof_msg: HomoELGamalProof,
    rpoint: GroupElem,
) -> bool {
    &&& com.com@ == commitment_spec(
        seq![decom.v_i.log, decom.a_i.log, decom.b_i.log],
        decom.blind_factor,
    )
    &&& helgamal_ok(proof_msg, decom.v_i, decom.a_i, decom.b_i, rpoint)
}

/// All phase-5c entries are consistent.
pub open spec fn phase5c_ok(
    decoms: Seq<Phase5ADecom1>,
    coms: Seq<Phase5Com1>,
    proofs: Seq<HomoELGamalProof>,
    rpoint: GroupElem,
) -> bool {
    forall|i: int|
        0 <= i < decoms.len() ==> phase5c_entry_ok(#[trigger] decoms[i], coms[i], proofs[i], rpoint)
}

/// One phase-5d entry is consistent: reduced points that open their
/// phase-5c commitment.
pub open spec fn phase5d_entry_ok(decom: Phase5DDecom2, com: Phase5Com2) -> bool {
    &&& decom.u_i.wf()
    &&& decom.t_i.wf()
    &&& com.com@ == commitment_spec(seq![decom.u_i.log, decom.t_i.log], decom.blind_factor)
}

/// All phase-5d entries are consistent.
pub open spec fn phase5d_coms_ok(decoms: Seq<Phase5DDecom2>, coms: Seq<Phase5Com2>) -> bool {
    forall|i: int| 0 <= i < decoms.len() ==> phase5d_entry_ok(#[trigger] decoms[i], coms[i])
}

/// The phase-5d balance check: the `U_i` and `T_i` products agree.
pub open spec fn phase5d_balanced(decoms: Seq<Phase5DDecom2>) -> bool {
    sum_int(u_logs(decoms)) % (GROUP_ORDER as int) == sum_int(t_logs(decoms)) % (GROUP_ORDER as int)
}

impl LocalSignature {
    /// Well-formed phase-5 state: reduced scalars, points bound to them.
    pub open spec fn wf(self) -> bool {
        &&& self.r < GROUP_ORDER
        &&& self.r_point.wf()
        &&& self.r_point.log == self.r
        &&& self.s_i < GROUP_ORDER
        &&& self.m < GROUP_ORDER
        &&& self.y.wf()
        &&& self.l_i < GROUP_ORDER
        &&& self.rho_i < GROUP_ORDER
    }

    /// Phase 5: form the signature share `s_i = m * k_i + r * sigma_i` and
    /// draw the blinding material for the disclosure rounds.  The share is
    /// not revealed yet.
    pub fn phase5_local_sig(
        k_i: u64,
        message: u64,
        r_point: &GroupElem,
        sigma_i: u64,
        y: &GroupElem,
    ) -> (ls: LocalSignature)
        requires
            k_i < GROUP_ORDER,
            message < GROUP_ORDER,
            sigma_i < GROUP_ORDER,
            r_point.wf(),
            y.wf(),
        ensures
            ls.wf(),
            ls.r == r_point.log,
            ls.r_point == *r_point,
            ls.m == message,
            ls.y == *y,
            ls.s_i == (message * k_i + r_point.log * sigma_i) % (GROUP_ORDER as int),
    {
        let q = GROUP_ORDER;
        let r = x_coord(*r_point);
        let s_i = add_mod(mul_mod(message, k_i, q), mul_mod(r, sigma_i, q), q);
        proof {
            let qi = GROUP_ORDER as int;
            vstd::arithmetic::div_mod::lemma_add_mod_noop(
                (message * k_i) as int,
                (r * sigma_i) as int,
                qi,
            );
            vstd::arithmetic::div_mod::lemma_mod_twice((message * k_i) as int, qi);
            vstd::arithmetic::div_mod::lemma_mod_twice((r * sigma_i) as int, qi);
        }
        LocalSignature {
            r,
            r_point: *r_point,
            s_i,
            m: message,
            y: *y,
            l_i: sample_scalar(),
            rho_i: sample_scalar(),
            blind5a: sample_blind(),
            blind5c: sample_blind(),
        }
    }

    /// Phase 5a/5b: compute `V_i = s_i * R + l_i * G`, `A_i = rho_i * G`,
    /// `B_i = l_i * A_i`, commit to the triple, and prove its consistency.
    pub fn phase5a_broadcast_5b_zkproof(&self) -> (r: (
        Phase5Com1,
        Phase5ADecom1,
        HomoELGamalProof,
    ))
        requires
            self.wf(),
        ensures
            r.1.v_i.wf(),
            r.1.v_i.log == (self.r_point.log * self.s_i + self.l_i) % (GROUP_ORDER as int),
            r.1.a_i.wf(),
            r.1.a_i.log == self.rho_i,
            r.1.b_i.wf(),
            r.1.b_i.log == (self.rho_i * self.l_i) % (GROUP_ORDER as int),
            r.1.blind_factor == self.blind5a,
            r.0.com@ == commitment_spec(
                seq![r.1.v_i.log, r.1.a_i.log, r.1.b_i.log],
                self.blind5a,
            ),
            helgamal_ok(r.2, r.1.v_i, r.1.a_i, r.1.b_i, self.r_point),
            phase5c_entry_ok(r.1, r.0, r.2, self.r_point),
    {
        let q = GROUP_ORDER;
        let v_i = point_add(point_scale(self.r_point, self.s_i), generator_pow(self.l_i));
        let a_i = generator_pow(self.rho_i);
        let b_i = point_scale(a_i, self.l_i);
        proof {
            let qi = GROUP_ORDER as int;
            vstd::arithmetic::div_mod::lemma_small_mod(self.l_i as nat, GROUP_ORDER as nat);
            vstd::arithmetic::div_mod::lemma_small_mod(self.rho_i as nat, GROUP_ORDER as nat);
            vstd::arithmetic::div_mod::lemma_add_mod_noop(
                (self.r_point.log * self.s_i) as int,
                self.l_i as int,
                qi,
            );
            vstd::arithmetic::div_mod::lemma_mod_twice((self.r_point.log * self.s_i) as int, qi);
            assert(v_i.log == (self.r_point.log * self.s_i + self.l_i) % qi);
        }
        let mut values: Vec<u64> = Vec::new();
        values.push(v_i.log);
        values.push(a_i.log);
        values.push(b_i.log);
        proof {
            assert(values@ =~= seq![v_i.log, a_i.log, b_i.log]);
        }
        let com = commit(&values, self.blind5a);
        let proof_msg = helgamal_prove(self.s_i, self.l_i, v_i, a_i, b_i, self.r_point);
        (Phase5Com1 { com }, Phase5ADecom1 { v_i, a_i, b_i, blind_factor: self.blind5a }, proof_msg)
    }

    /// Phase 5c: verify every other signer's decommitment and proof, then
    /// commit to `U_i = rho_i * (V - m * G - r * Y)` and `T_i = l_i * A`,
    /// where `V` and `A` are the products over all signers.
    pub fn phase5c(
        &self,
        decom_vec: &Vec<Phase5ADecom1>,
        com_vec: &Vec<Phase5Com1>,
        elgamal_proofs: &Vec<HomoELGamalProof>,
        v_i: &GroupElem,
        r_point: &GroupElem,
    ) -> (r: Result<(Phase5Com2, Phase5DDecom2), Error>)
        requires
            self.wf(),
            v_i.wf(),
            com_vec@.len() == decom_vec@.len(),
            elgamal_proofs@.len() == decom_vec@.len(),
        ensures
            match r {
                Ok(out) => {
                    &&& phase5c_ok(decom_vec@, com_vec@, elgamal_proofs@, *r_point)
                    &&& out.1.u_i.wf()
                    &&& out.1.t_i.wf()
                    &&& out.1.u_i.log == phase5c_u_log(*self, decom_vec@, *v_i)
                    &&& out.1.t_i.log == phase5c_t_log(*self, decom_vec@)
                    &&& out.1.blind_factor == self.blind5c
                    &&& out.0.com@ == commitment_spec(
                        seq![out.1.u_i.log, out.1.t_i.log],
                        self.blind5c,
                    )
                },
                Err(e) => {
                    &&& !phase5c_ok(decom_vec@, com_vec@, elgamal_proofs@, *r_point)
                    &&& (e == Error::InvalidCom || e == Error::InvalidKey)
                },
            },
    {
        let n = decom_vec.len();
        let mut vpoints: Vec<GroupElem> = Vec::new();
        let mut apoints: Vec<GroupElem> = Vec::new();
        vpoints.push(*v_i);
        apoints.push(generator_pow(self.rho_i));
        proof {
            vstd::arithmetic::div_mod::lemma_small_mod(self.rho_i as nat, GROUP_ORDER as nat);
        }
        let mut j: usize = 0;
        while j < n
            invariant
                j <= n,
                n == decom_vec@.len(),
                com_vec@.len() == n,
                elgamal_proofs@.len() == n,
                self.wf(),
                v_i.wf(),
                vpoints@.len() == j + 1,
                apoints@.len() == j + 1,
                vpoints@[0] == *v_i,
                apoints@[0].log == self.rho_i,
                forall|i: int| 0 <= i < vpoints@.len() ==> (#[trigger] vpoints@[i]).wf(),
                forall|i: int| 0 <= i < apoints@.len() ==> (#[trigger] apoints@[i]).wf(),
                forall|i: int| 0 <= i < j ==> vpoints@[i + 1] == decom_vec@[i].v_i,
                forall|i: int| 0 <= i < j ==> apoints@[i + 1] == decom_vec@[i].a_i,
                forall|i: int|
                    0 <= i < j ==> phase5c_entry_ok(
                        #[trigger] decom_vec@[i],
                        com_vec@[i],
                        elgamal_proofs@[i],
                        *r_point,
                    ),
            decreases n - j,
        {
            let decom = &decom_vec[j];
            let ok_proof = helgamal_verify(
                &elgamal_proofs[j],
                &decom.v_i,
                &decom.a_i,
                &decom.b_i,
                r_point,
            );
            if !ok_proof {
                return Err(Error::InvalidKey);
            }
            let mut values: Vec<u64> = Vec::new();
            values.push(decom.v_i.log);
            values.push(decom.a_i.log);
            values.push(decom.b_i.log);
            proof {
                assert(values@ =~= seq![
                    decom_vec@[j as int].v_i.log,
                    decom_vec@[j as int].a_i.log,
                    decom_vec@[j as int].b_i.log,
                ]);
            }
            if !open_commitment(&com_vec[j].com, &values, decom.blind_factor) {
                return Err(Error::InvalidCom);
            }
            vpoints.push(decom_vec[j].v_i);
            apoints.push(decom_vec[j].a_i);
            j = j + 1;
        }
        proof {
            assert(point_logs(vpoints@) =~= seq![v_i.log] + v_logs(decom_vec@));
            assert(point_logs(apoints@) =~= seq![apoints@[0].log] + a_logs(decom_vec@));
            assert(point_logs(vpoints@).skip(1) =~= v_logs(decom_vec@));
            assert(point_logs(apoints@).skip(1) =~= a_logs(decom_vec@));
        }
        let vtotal = sum_points(&vpoints);
        let atotal = sum_points(&apoints);
        let gm = generator_pow(self.m);
        let yr = point_scale(self.y, self.r);
        let e1 = point_sub(vtotal, gm);
        let e2 = point_sub(e1, yr);
        let u_i = point_scale(e2, self.rho_i);
        let t_i = point_scale(atotal, self.l_i);
        proof {
            vstd::arithmetic::div_mod::lemma_small_mod(self.m as nat, GROUP_ORDER as nat);
        }
        let mut values2: Vec<u64> = Vec::new();
        values2.push(u_i.log);
        values2.push(t_i.log);
        proof {
            assert(values2@ =~= seq![u_i.log, t_i.log]);
        }
        let com2 = commit(&values2, self.blind5c);
        Ok((Phase5Com2 { com: com2 }, Phase5DDecom2 { u_i, t_i, blind_factor: self.blind5c }))
    }

    /// Phase 5d: open every phase-5c commitment and check that the `U` and
    /// `T` products balance; only then reveal the signature share.
    pub fn phase5d(
        &self,
        decom_vec2: &Vec<Phase5DDecom2>,
        com_vec2: &Vec<Phase5Com2>,
        decom_vec5a: &Vec<Phase5ADecom1>,
    ) -> (r: Result<u64, Error>)
        requires
            self.wf(),
            com_vec2@.len() == decom_vec2@.len(),
            decom_vec5a@.len() == decom_vec2@.len(),
        ensures
            match r {
                Ok(v) => phase5d_coms_ok(decom_vec2@, com_vec2@) && phase5d_balanced(decom_vec2@)
                    && v == self.s_i,
                Err(e) => {
                    &&& (e == Error::InvalidCom <==> !phase5d_coms_ok(decom_vec2@, com_vec2@))
                    &&& (e == Error::InvalidSig ==> phase5d_coms_ok(decom_vec2@, com_vec2@)
                        && !phase5d_balanced(decom_vec2@))
                    &&& (e == Error::InvalidCom || e == Error::InvalidSig)
                },
            },
    {
        let n = decom_vec2.len();
        let mut upoints: Vec<GroupElem> = Vec::new();
        let mut tpoints: Vec<GroupElem> = Vec::new();
        let mut j: usize = 0;
        while j < n
            invariant
                j <= n,
                n == decom_vec2@.len(),
                com_vec2@.len() == n,
                upoints@.len() == j,
                tpoints@.len() == j,
                forall|i: int| 0 <= i < j ==> upoints@[i] == decom_vec2@[i].u_i,
                forall|i: int| 0 <= i < j ==> tpoints@[i] == decom_vec2@[i].t_i,
                forall|i: int| 0 <= i < j ==> (#[trigger] upoints@[i]).wf(),
                forall|i: int| 0 <= i < j ==> (#[trigger] tpoints@[i]).wf(),
                forall|i: int|
                    0 <= i < j ==> phase5d_entry_ok(#[trigger] decom_vec2@[i], com_vec2@[i]),
            decreases n - j,
        {
            let decom = &decom_vec2[j];
            if decom.u_i.log >= GROUP_ORDER || decom.t_i.log >= GROUP_ORDER {
                return Err(Error::InvalidCom);
            }
            let mut values: Vec<u64> = Vec::new();
            values.push(decom.u_i.log);
            values.push(decom.t_i.log);
            proof {
                assert(values@ =~= seq![
                    decom_vec2@[j as int].u_i.log,
                    decom_vec2@[j as int].t_i.log,
                ]);
            }
            if !open_commitment(&com_vec2[j].com, &values, decom.blind_factor) {
                return Err(Error::InvalidCom);
            }
            upoints.push(decom_vec2[j].u_i);
            tpoints.push(decom_vec2[j].t_i);
            j = j + 1;
        }
        proof {
            assert(point_logs(upoints@) =~= u_logs(decom_vec2@));
            assert(point_logs(tpoints@) =~= t_logs(decom_vec2@));
        }
        let usum = sum_points(&upoints);
        let tsum = sum_points(&tpoints);
        if usum.log != tsum.log {
            return Err(Error::InvalidSig);
        }
        Ok(self.s_i)
    }

    /// Final step: sum the revealed shares into `s`, and accept the
    /// signature exactly when the ECDSA verification relation holds of
    /// `(r, s)` under this state's public key and message.
    pub fn output_signature(&self, s_vec: &Vec<u64>) -> (r: Result<Signature, Error>)
        requires
            self.wf(),
            forall|i: int| 0 <= i < s_vec@.len() ==> s_vec@[i] < GROUP_ORDER,
        ensures
            match r {
                Ok(sig) => {
                    &&& sig.r == self.r
                    &&& sig.s == (self.s_i + sum_int(s_vec@)) % (GROUP_ORDER as int)
                    &&& ecdsa_valid(self.y, self.m, sig.r, sig.s)
                },
                Err(e) => e == Error::InvalidSig && !ecdsa_valid(
                    self.y,
                    self.m,
                    self.r,
                    ((self.s_i + sum_int(s_vec@)) % (GROUP_ORDER as int)) as u64,
                ),
            },
    {
        let q = GROUP_ORDER;
        let rest = sum_mod_order(s_vec);
        let s_total = add_mod(self.s_i, rest, q);
        proof {
            let qi = GROUP_ORDER as int;
            vstd::arithmetic::div_mod::lemma_add_mod_noop(self.s_i as int, sum_int(s_vec@), qi);
            vstd::arithmetic::div_mod::lemma_small_mod(self.s_i as nat, GROUP_ORDER as nat);
            vstd::arithmetic::div_mod::lemma_mod_twice(sum_int(s_vec@), qi);
        }
        if verify_ecdsa_signature(&self.y, self.m, self.r, s_total) {
            Ok(Signature { r: self.r, s: s_total })
        } else {
            Err(Error::InvalidSig)
        }
    }
}

/// The `U_i` value a signer commits to in phase 5c, as a function of its
/// state, the others' decommitments, and its own `V_i`.
pub open spec fn phase5c_u_log(ls: LocalSignature, decoms: Seq<Phase5ADecom1>, v_own: GroupElem) -> int {
    let qi = GROUP_ORDER as int;
    let vsum = (v_own.log + sum_int(v_logs(decoms))) % qi;
    let e1 = (vsum + GROUP_ORDER - ls.m) % qi;
    let e2 = (e1 + GROUP_ORDER - (ls.y.log * ls.r) % qi) % qi;
    (e2 * ls.rho_i) % qi
}

/// The `T_i` value a signer commits to in phase 5c.
pub open spec fn phase5c_t_log(ls: LocalSignature, decoms: Seq<Phase5ADecom1>) -> int {
    let qi = GROUP_ORDER as int;
    let asum = (ls.rho_i + sum_int(a_logs(decoms))) % qi;
    (asum * ls.l_i) % qi
}

/// Check a phase-5b proof; true exactly when `helgamal_ok` holds of it.
pub fn helgamal_verify(
    p: &HomoELGamalProof,
    v: &GroupElem,
    a: &GroupElem,
    b: &GroupElem,
    rpoint: &GroupElem,
) -> (r: bool)
    ensures
        r == helgamal_ok(*p, *v, *a, *b, *rpoint),
{
    let q = GROUP_ORDER;
    if v.log >= q || a.log >= q || b.log >= q || rpoint.log >= q || p.t1.log >= q || p.t2.log >= q
        || p.challenge >= q || p.z1 >= q || p.z2 >= q {
        return false;
    }
    let mut stmt: Vec<u64> = Vec::new();
    stmt.push(v.log);
    stmt.push(a.log);
    stmt.push(b.log);
    stmt.push(p.t1.log);
    stmt.push(p.t2.log);
    stmt.push(rpoint.log);
    proof {
        assert(stmt@ =~= seq![v.log, a.log, b.log, p.t1.log, p.t2.log, rpoint.log]);
    }
    let bytes = crate::hash::encode_words(&stmt);
    let expected_challenge = crate::hash::hash_to_scalar(&bytes);
    if p.challenge != expected_challenge {
        return false;
    }
    let lhs1 = add_mod(mul_mod(rpoint.log, p.z1, q), p.z2, q);
    let rhs1 = add_mod(p.t1.log, mul_mod(p.challenge, v.log, q), q);
    let lhs2 = mul_mod(a.log, p.z2, q);
    let rhs2 = add_mod(p.t2.log, mul_mod(p.challenge, b.log, q), q);
    proof {
        let qi = GROUP_ORDER as int;
        lemma_mod_affine2(rpoint.log as int, (rpoint.log * p.z1) as int, p.z2 as int, qi);
        vstd::arithmetic::div_mod::lemma_add_mod_noop(
            (rpoint.log * p.z1) as int,
            p.z2 as int,
            qi,
        );
        vstd::arithmetic::div_mod::lemma_mod_twice((rpoint.log * p.z1) as int, qi);
        vstd::arithmetic::div_mod::lemma_small_mod(p.z2 as nat, GROUP_ORDER as nat);
        assert(lhs1 == (rpoint.log * p.z1 + p.z2) % qi);
        vstd::arithmetic::div_mod::lemma_add_mod_noop(
            p.t1.log as int,
            (p.challenge * v.log) as int,
            qi,
        );
        vstd::arithmetic::div_mod::lemma_mod_twice((p.challenge * v.log) as int, qi);
        vstd::arithmetic::div_mod::lemma_small_mod(p.t1.log as nat, GROUP_ORDER as nat);
        assert(rhs1 == (p.t1.log + p.challenge * v.log) % qi);
        vstd::arithmetic::div_mod::lemma_add_mod_noop(
            p.t2.log as int,
            (p.challenge * b.log) as int,
            qi,
        );
        vstd::arithmetic::div_mod::lemma_mod_twice((p.challenge * b.log) as int, qi);
        vstd::arithmetic::div_mod::lemma_small_mod(p.t2.log as nat, GROUP_ORDER as nat);
        assert(rhs2 == (p.t2.log + p.challenge * b.log) % qi);
    }
    lhs1 == rhs1 && lhs2 == rhs2
}

} // verus!
