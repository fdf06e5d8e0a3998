//! Per-party state and the distributed key generation phases.
//!
//! Every party runs the same code: sample a secret, broadcast a commitment
//! to its public share together with a proof of correct key generation,
//! verify everyone's openings and proofs, split the secret with verifiable
//! secret sharing, verify the received shares, and assemble its aggregate
//! key share with a proof of knowledge.

use vstd::prelude::*;
use crate::arith::{sum_int, sum_mod_order, GROUP_ORDER};
use crate::commit::{commit, commitment_spec, open_commitment};
use crate::dlog::{dlog_proof_ok, dlog_prove, dlog_verify, DLogProof};
use crate::group::{generator_pow, point_logs, sum_points, GroupElem};
use crate::paillier::{
    paillier_keygen, prove_correct_key, verify_correct_key, CorrectKeyProof, DecryptionKey,
    EncryptionKey,
};
use crate::rng::{sample_blind, sample_scalar};
use crate::vss::{poly_eval_spec, VerifiableSS};
use crate::Error;

verus! {

/// Protocol configuration: the threshold and the number of parties.
#[derive(Clone, Copy, PartialEq, Eq, Structural, Debug)]
pub struct Parameters {
    pub threshold: usize,
    pub share_count: usize,
}

/// One party's long-term key material.
#[derive(Clone, Copy, PartialEq, Eq, Structural, Debug)]
pub struct Keys {
    pub u_i: u64,
    pub y_i: GroupElem,
    pub dk: DecryptionKey,
    pub ek: EncryptionKey,
    pub party_index: usize,
}

/// The first-round broadcast: the encryption key, the commitment to the
/// public share, and the proof of correct key generation.
#[derive(Clone, Debug)]
pub struct KeyGenBroadcastMessage1 {
    pub e: EncryptionKey,
    pub com: Vec<u8>,
    pub correct_key_proof: CorrectKeyProof,
}

/// The second-round decommitment: the blinding factor and the public share.
#[derive(Clone, Copy, PartialEq, Eq, Structural, Debug)]
pub struct KeyGenDecommitMessage1 {
    pub blind_factor: u64,
    pub y_i: GroupElem,
}

/// One party's aggregate key material after key generation.
#[derive(Clone, Copy, PartialEq, Eq, Structural, Debug)]
pub struct SharedKeys {
    pub y: GroupElem,
    pub x_i: u64,
}

impl Keys {
    /// A party's key material is well formed when the secret is reduced and
    /// the public share and keypair halves are bound to it.
    pub open spec fn wf(self) -> bool {
        &&& self.u_i < GROUP_ORDER
        &&& self.y_i.wf()
        &&& self.y_i.log == self.u_i
        &&& self.ek.key_id == self.dk.key_id
    }

    /// Sample a party's long-term secret and encryption keypair.
    pub fn create(index: usize) -> (k: Keys)
        ensures
            k.wf(),
            k.party_index == index,
    {
        let u_i = sample_scalar();
        let y_i = generator_pow(u_i);
        let (ek, dk) = paillier_keygen();
        proof {
            vstd::arithmetic::div_mod::lemma_small_mod(u_i as nat, GROUP_ORDER as nat);
        }
        Keys { u_i, y_i, dk, ek, party_index: index }
    }

    /// First round: commit to the public share `g^{u_i}` and attach the
    /// proof of correct key generation; the decommitment stays local.
    pub fn phase1_broadcast_phase3_proof_of_correct_key(&self) -> (r: (
        KeyGenBroadcastMessage1,
        KeyGenDecommitMessage1,
    ))
        requires
            self.wf(),
        ensures
            r.0.com@ == commitment_spec(seq![self.y_i.log], r.1.blind_factor),
            r.0.e == self.ek,
            r.0.correct_key_proof.key_id == self.ek.key_id,
            r.1.y_i == self.y_i,
    {
        let blind_factor = sample_blind();
        let correct_key_proof = prove_correct_key(&self.dk);
        let mut values: Vec<u64> = Vec::new();
        values.push(self.y_i.log);
        proof {
            assert(values@ =~= seq![self.y_i.log]);
        }
        let com = commit(&values, blind_factor);
        (
            KeyGenBroadcastMessage1 { e: self.ek, com, correct_key_proof },
            KeyGenDecommitMessage1 { blind_factor, y_i: self.y_i },
        )
    }

    /// Second round: verify every decommitment against its commitment and
    /// every proof of correct key generation, then split the own secret.
    pub fn phase1_verify_com_phase3_verify_correct_key_phase2_distribute(
        &self,
        params: &Parameters,
        decom_vec: &Vec<KeyGenDecommitMessage1>,
        bc1_vec: &Vec<KeyGenBroadcastMessage1>,
    ) -> (r: Result<(VerifiableSS, Vec<u64>, usize), Error>)
        requires
            self.wf(),
            params.threshold < params.share_count,
            (params.share_count as int) < GROUP_ORDER,
            decom_vec@.len() == params.share_count,
            bc1_vec@.len() == params.share_count,
        ensures
            match r {
                Ok(out) => {
                    &&& keygen_round1_ok(decom_vec@, bc1_vec@)
                    &&& out.0.wf()
                    &&& out.0.threshold == params.threshold
                    &&& out.0.share_count == params.share_count
                    &&& out.0.coeff_seq()[0] == self.u_i
                    &&& out.1@.len() == params.share_count
                    &&& (forall|i: int|
                        0 <= i < out.1@.len() ==> out.1@[i] == poly_eval_spec(
                            out.0.coeff_seq(),
                            i + 1,
                        ) && out.1@[i] < GROUP_ORDER)
                    &&& out.2 == self.party_index
                },
                Err(e) => e == Error::InvalidKey && !keygen_round1_ok(decom_vec@, bc1_vec@),
            },
    {
        let n = decom_vec.len();
        let mut j: usize = 0;
        while j < n
            invariant
                j <= n,
                n == decom_vec@.len(),
                bc1_vec@.len() == n,
                forall|i: int| 0 <= i < j ==> round1_entry_ok(decom_vec@[i], bc1_vec@[i]),
            decreases n - j,
        {
            let mut values: Vec<u64> = Vec::new();
            values.push(decom_vec[j].y_i.log);
            proof {
                assert(values@ =~= seq![decom_vec@[j as int].y_i.log]);
            }
            let com_ok = open_commitment(&bc1_vec[j].com, &values, decom_vec[j].blind_factor);
            let key_ok = verify_correct_key(&bc1_vec[j].correct_key_proof, &bc1_vec[j].e);
            if !com_ok || !key_ok {
                proof {
                    assert(!round1_entry_ok(decom_vec@[j as int], bc1_vec@[j as int]));
                }
                return Err(Error::InvalidKey);
            }
            j = j + 1;
        }
        let (vss_scheme, secret_shares) = VerifiableSS::share(
            params.threshold,
            params.share_count,
            self.u_i,
        );
        Ok((vss_scheme, secret_shares, self.party_index))
    }

    /// Third round: verify the received shares against every scheme, sum
    /// them into the aggregate share, and prove knowledge of it.
    pub fn phase2_verify_vss_construct_keypair_phase3_pok_dlog(
        &self,
        params: &Parameters,
        y_vec: &Vec<GroupElem>,
        secret_shares_vec: &Vec<u64>,
        vss_scheme_vec: &Vec<VerifiableSS>,
        index: usize,
    ) -> (r: Result<(SharedKeys, DLogProof), Error>)
        requires
            self.wf(),
            y_vec@.len() == params.share_count,
            secret_shares_vec@.len() == params.share_count,
            vss_scheme_vec@.len() == params.share_count,
            forall|i: int| 0 <= i < y_vec@.len() ==> (#[trigger] y_vec@[i]).wf(),
            forall|i: int| 0 <= i < secret_shares_vec@.len() ==> secret_shares_vec@[i] < GROUP_ORDER,
            forall|i: int| 0 <= i < vss_scheme_vec@.len() ==> (#[trigger] vss_scheme_vec@[i]).wf(),
            (index as int) < GROUP_ORDER,
        ensures
            match r {
                Ok(out) => {
                    &&& vss_shares_ok(vss_scheme_vec@, secret_shares_vec@, index as int)
                    &&& out.0.x_i == sum_int(secret_shares_vec@) % (GROUP_ORDER as int)
                    &&& out.0.y.log == sum_int(point_logs(y_vec@)) % (GROUP_ORDER as int)
                    &&& out.0.y.wf()
                    &&& dlog_proof_ok(out.1)
                    &&& out.1.pk.log == out.0.x_i
                },
                Err(e) => e == Error::InvalidSS && !vss_shares_ok(
                    vss_scheme_vec@,
                    secret_shares_vec@,
                    index as int,
                ),
            },
    {
        let n = vss_scheme_vec.len();
        let mut j: usize = 0;
        while j < n
            invariant
                j <= n,
                n == vss_scheme_vec@.len(),
                secret_shares_vec@.len() == n,
                (index as int) < GROUP_ORDER,
                forall|i: int| 0 <= i < vss_scheme_vec@.len() ==> (#[trigger] vss_scheme_vec@[i]).wf(),
                forall|i: int|
                    0 <= i < j ==> secret_shares_vec@[i] == poly_eval_spec(
                        vss_scheme_vec@[i].coeff_seq(),
                        index as int,
                    ),
            decreases n - j,
        {
            match vss_scheme_vec[j].validate_share(secret_shares_vec[j], index as u64) {
                Ok(u) => u,
                Err(share_err) => {
                    return Err(Error::InvalidSS);
                },
            };
            j = j + 1;
        }
        let x_i = sum_mod_order(secret_shares_vec);
        let y = sum_points(y_vec);
        let dlog_proof = dlog_prove(x_i);
        proof {
            vstd::arithmetic::div_mod::lemma_small_mod(x_i as nat, GROUP_ORDER as nat);
        }
        Ok((SharedKeys { y, x_i }, dlog_proof))
    }

    /// Check every party's proof of knowledge of its aggregate share; a
    /// single bad proof is fatal for the whole group.
    pub fn verify_dlog_proofs(
        params: &Parameters,
        dlog_proof_vec: &Vec<DLogProof>,
        y_vec: &Vec<GroupElem>,
    ) -> (r: Result<(), Error>)
        requires
            y_vec@.len() == params.share_count,
        ensures
            match r {
                Ok(u) => dlog_proof_vec@.len() == params.share_count && forall|i: int|
                    0 <= i < dlog_proof_vec@.len() ==> dlog_proof_ok(#[trigger] dlog_proof_vec@[i]),
                Err(e) => e == Error::InvalidKey && !(dlog_proof_vec@.len() == params.share_count
                    && forall|i: int|
                    0 <= i < dlog_proof_vec@.len() ==> dlog_proof_ok(#[trigger] dlog_proof_vec@[i])),
            },
    {
        if dlog_proof_vec.len() != params.share_count {
            return Err(Error::InvalidKey);
        }
        let n = dlog_proof_vec.len();
        let mut j: usize = 0;
        while j < n
            invariant
                j <= n,
                n == dlog_proof_vec@.len(),
                forall|i: int| 0 <= i < j ==> dlog_proof_ok(#[trigger] dlog_proof_vec@[i]),
            decreases n - j,
        {
            if !dlog_verify(&dlog_proof_vec[j]) {
                return Err(Error::InvalidKey);
            }
            j = j + 1;
        }
        Ok(())
    }
}

/// One first-round entry is consistent: the decommitment opens the
/// commitment and the key proof is bound to the broadcast key.
pub open spec fn round1_entry_ok(
    decom: KeyGenDecommitMessage1,
    bc: KeyGenBroadcastMessage1,
) -> bool {
    &&& bc.com@ == commitment_spec(seq![decom.y_i.log], decom.blind_factor)
    &&& bc.correct_key_proof.key_id == bc.e.key_id
}

/// All first-round broadcasts are consistent with their decommitments.
pub open spec fn keygen_round1_ok(
    decoms: Seq<KeyGenDecommitMessage1>,
    bcs: Seq<KeyGenBroadcastMessage1>,
) -> bool {
    &&& decoms.len() == bcs.len()
    &&& (forall|i: int| 0 <= i < decoms.len() ==> round1_entry_ok(decoms[i], #[trigger] bcs[i]))
}

/// Every received share lies on the polynomial its sender committed to,
/// evaluated at this party's one-based point.
pub open spec fn vss_shares_ok(schemes: Seq<VerifiableSS>, shares: Seq<u64>, index: int) -> bool {
    forall|i: int|
        0 <= i < schemes.len() ==> shares[i] == poly_eval_spec(
            (#[trigger] schemes[i]).coeff_seq(),
            index,
        )
}

} // verus!
