//! A threshold ECDSA scheme in the style of the GG18 protocol: `n` parties
//! jointly hold one signing key, and any quorum strictly larger than the
//! threshold `t` can produce a signature, through distributed key generation,
//! pairwise multiplicative-to-additive conversion, and a five-phase signing
//! session with commit-then-reveal disclosure of the partial signatures.
//!
//! The protocol is generic over a cyclic group of prime order and a handful
//! of cryptographic collaborators.  This crate instantiates the group with
//! the additively written cyclic group of prime order `GROUP_ORDER`, in
//! which a group element is identified by its discrete logarithm; the
//! homomorphic cryptosystem is a functional stand-in over the same machine
//! words.  Every protocol law is then exact modular arithmetic, so each
//! verification gate, share computation, and the final ECDSA relation carry
//! proven contracts.  SHA-256 (for commitments and Fiat-Shamir challenges)
//! and the process RNG are the only outside calls, each behind one trusted
//! wrapper.

pub mod arith;
pub mod commit;
pub mod dlog;
pub mod group;
pub mod hash;
pub mod mta;
pub mod paillier;
pub mod party;
pub mod rng;
pub mod sign;
pub mod vss;

use vstd::prelude::*;

verus! {

/// A verification gate of the protocol failed; the session must abort.
#[derive(Clone, Copy, PartialEq, Eq, Structural, Debug)]
pub enum Error {
    /// A Paillier correctness proof, discrete-log proof, or MtA proof failed.
    InvalidKey,
    /// A verifiable-secret-sharing share failed verification.
    InvalidSS,
    /// A commitment failed to open, or an opened value mismatched a broadcast.
    InvalidCom,
    /// A disclosed signature share or the final signature failed its check.
    InvalidSig,
}

/// Malformed or inconsistent public key material supplied from outside.
#[derive(Clone, Copy, PartialEq, Eq, Structural, Debug)]
pub enum ErrorKey {
    InvalidPublicKey,
}

/// Failure of a single share check inside verifiable secret sharing.
#[derive(Clone, Copy, PartialEq, Eq, Structural, Debug)]
pub enum ErrorSS {
    VerifyShareError,
}

/// Everything a group of parties holds after key generation: per-party
/// long-term keys, per-party aggregate shares, the public share vector, the
/// aggregate public key, and one sharing scheme kept for reconstruction
/// checks.
pub type MultiKey = (
    Vec<party::Keys>,
    Vec<party::SharedKeys>,
    Vec<group::GroupElem>,
    group::GroupElem,
    vss::VerifiableSS,
);

/// The output of `sign`: per-signer phase-5 state and the nonce points.
pub struct SignOutput {
    pub local_sig_vec: Vec<sign::LocalSignature>,
    pub r_vec: Vec<group::GroupElem>,
}

/// A signer index list is admissible for `n` parties: every index in range
/// and no index repeated.
pub open spec fn indices_ok(s: Seq<usize>, n: int) -> bool {
    &&& (forall|i: int| 0 <= i < s.len() ==> (s[i] as int) < n)
    &&& (forall|i: int, j: int| 0 <= i < j < s.len() ==> s[i] != s[j])
}

/// A key bundle is well formed: matching lengths that fit the field, every
/// party's keys internally bound, reduced aggregate shares, and a reduced
/// aggregate public key.
pub open spec fn multikey_wf(mk: MultiKey) -> bool {
    &&& mk.0@.len() == mk.1@.len()
    &&& mk.0@.len() >= 1
    &&& (mk.0@.len() as int) < arith::GROUP_ORDER
    &&& (forall|i: int| 0 <= i < mk.0@.len() ==> (#[trigger] mk.0@[i]).wf())
    &&& (forall|i: int| 0 <= i < mk.1@.len() ==> (#[trigger] mk.1@[i]).x_i < arith::GROUP_ORDER)
    &&& mk.3.wf()
}

/// Check externally supplied key material; rejected exactly when some field
/// is out of range or inconsistently bound.
pub fn validate_multikey(mk: &MultiKey) -> (r: Result<(), ErrorKey>)
    ensures
        match r {
            Ok(u) => multikey_wf(*mk),
            Err(e) => e == ErrorKey::InvalidPublicKey && !multikey_wf(*mk),
        },
{
    let q = arith::GROUP_ORDER;
    let n = mk.0.len();
    if mk.1.len() != n || n == 0 || n as u64 >= q {
        return Err(ErrorKey::InvalidPublicKey);
    }
    if mk.3.log >= q {
        return Err(ErrorKey::InvalidPublicKey);
    }
    let mut i: usize = 0;
    while i < n
        invariant
            i <= n,
            q == arith::GROUP_ORDER,
            n == mk.0@.len(),
            mk.1@.len() == n,
            forall|j: int| 0 <= j < i ==> (#[trigger] mk.0@[j]).wf(),
            forall|j: int| 0 <= j < i ==> (#[trigger] mk.1@[j]).x_i < arith::GROUP_ORDER,
        decreases n - i,
    {
        let k = &mk.0[i];
        if k.u_i >= q || k.y_i.log >= q || k.y_i.log != k.u_i || k.ek.key_id != k.dk.key_id {
            proof {
                assert(!mk.0@[i as int].wf());
                assert(!multikey_wf(*mk));
            }
            return Err(ErrorKey::InvalidPublicKey);
        }
        if mk.1[i].x_i >= q {
            proof {
                assert(!multikey_wf(*mk));
            }
            return Err(ErrorKey::InvalidPublicKey);
        }
        i = i + 1;
    }
    Ok(())
}

/// The DKG binding invariant, instanced at the first `t + 1` parties: their
/// aggregate shares reconstruct the sum of all raw secrets.
pub open spec fn keygen_binding(mk: MultiKey, t: int) -> bool {
    let idxs = Seq::new((t + 1) as nat, |i: int| i as usize);
    let xi = Seq::new((t + 1) as nat, |i: int| mk.1@[i].x_i);
    vss::reconstruct_spec(vss::eval_points(idxs), xi) == Some(
        arith::sum_int(mk.0@.map_values(|k: party::Keys| k.u_i)) % (arith::GROUP_ORDER as int),
    )
}

/// Run distributed key generation for `n` parties with threshold `t`: every
/// party samples, commits, splits, and verifies as in the protocol, and the
/// reconstruction check binds the shared key to the sum of the raw secrets.
/// Rounds one to three cannot fail: every opening, share and proof is built
/// honestly and provably passes its gate, so when the Lagrange bases of the
/// first `t + 1` points are defined, the one remaining abort is the final
/// binding comparison.
pub fn keygen_t_n_parties(t: usize, n: usize) -> (r: Result<MultiKey, Error>)
    requires
        t < n,
        (n as int) < arith::GROUP_ORDER,
    ensures
        match r {
            Ok(mk) => {
                &&& multikey_wf(mk)
                &&& mk.0@.len() == n
                &&& mk.1@.len() == n
                &&& mk.2@.len() == n
                &&& (forall|i: int| 0 <= i < n ==> (#[trigger] mk.0@[i]).party_index == i)
                &&& mk.4.wf()
                &&& mk.4.threshold == t
                &&& mk.4.share_count == n
                &&& (forall|i: int| 0 <= i < n ==> (#[trigger] mk.1@[i]).y == mk.3)
                &&& (forall|i: int|
                    0 <= i < n ==> (#[trigger] mk.2@[i]).wf() && mk.2@[i].log == mk.1@[i].x_i)
                &&& mk.3.log == arith::sum_int(mk.0@.map_values(|k: party::Keys| k.u_i)) % (
                arith::GROUP_ORDER as int)
                &&& keygen_binding(mk, t as int)
            },
            Err(e) => true,
        },
        lagrange_defined(Seq::new((t + 1) as nat, |i: int| i as usize)) ==> (r is Err ==> r
            == Result::<MultiKey, Error>::Err(Error::InvalidKey)),
{
    let q = arith::GROUP_ORDER;
    let params = party::Parameters { threshold: t, share_count: n };
    let mut party_keys_vec: Vec<party::Keys> = Vec::new();
    let mut i: usize = 0;
    while i < n
        invariant
            i <= n,
            party_keys_vec@.len() == i,
            forall|j: int|
                0 <= j < i ==> (#[trigger] party_keys_vec@[j]).wf() && party_keys_vec@[
                j].party_index == j,
        decreases n - i,
    {
        party_keys_vec.push(party::Keys::create(i));
        i = i + 1;
    }
    let mut bc1_vec: Vec<party::KeyGenBroadcastMessage1> = Vec::new();
    let mut decom_vec: Vec<party::KeyGenDecommitMessage1> = Vec::new();
    let mut i2: usize = 0;
    while i2 < n
        invariant
            i2 <= n,
            n == party_keys_vec@.len(),
            bc1_vec@.len() == i2,
            decom_vec@.len() == i2,
            forall|j: int|
                0 <= j < n ==> (#[trigger] party_keys_vec@[j]).wf() && party_keys_vec@[
                j].party_index == j,
            forall|j: int| 0 <= j < i2 ==> (#[trigger] decom_vec@[j]).y_i.wf(),
            forall|j: int|
                0 <= j < i2 ==> (#[trigger] decom_vec@[j]).y_i == party_keys_vec@[j].y_i,
            forall|j: int|
                0 <= j < i2 ==> party::round1_entry_ok(
                    #[trigger] decom_vec@[j],
                    bc1_vec@[j],
                ),
        decreases n - i2,
    {
        let (bc1, decom1) = party_keys_vec[i2].phase1_broadcast_phase3_proof_of_correct_key();
        bc1_vec.push(bc1);
        decom_vec.push(decom1);
        i2 = i2 + 1;
    }
    let mut y_vec: Vec<group::GroupElem> = Vec::new();
    let mut i3: usize = 0;
    while i3 < n
        invariant
            i3 <= n,
            n == decom_vec@.len(),
            n == party_keys_vec@.len(),
            y_vec@.len() == i3,
            forall|j: int| 0 <= j < n ==> (#[trigger] decom_vec@[j]).y_i.wf(),
            forall|j: int|
                0 <= j < n ==> (#[trigger] decom_vec@[j]).y_i == party_keys_vec@[j].y_i,
            forall|j: int| 0 <= j < n ==> (#[trigger] party_keys_vec@[j]).wf(),
            forall|j: int| 0 <= j < i3 ==> (#[trigger] y_vec@[j]).wf(),
            forall|j: int| 0 <= j < i3 ==> (#[trigger] y_vec@[j]) == party_keys_vec@[j].y_i,
        decreases n - i3,
    {
        y_vec.push(decom_vec[i3].y_i);
        i3 = i3 + 1;
    }
    let y_sum = group::sum_points(&y_vec);
    proof {
        assert(group::point_logs(y_vec@) =~= party_keys_vec@.map_values(
            |k: party::Keys| k.u_i,
        ));
    }
    let mut vss_scheme_vec: Vec<vss::VerifiableSS> = Vec::new();
    let mut secret_shares_vec: Vec<Vec<u64>> = Vec::new();
    let mut index_vec: Vec<usize> = Vec::new();
    let mut i4: usize = 0;
    while i4 < n
        invariant
            i4 <= n,
            t < n,
            (n as int) < arith::GROUP_ORDER,
            n == party_keys_vec@.len(),
            n == decom_vec@.len(),
            n == bc1_vec@.len(),
            params.threshold == t,
            params.share_count == n,
            vss_scheme_vec@.len() == i4,
            secret_shares_vec@.len() == i4,
            index_vec@.len() == i4,
            forall|j: int|
                0 <= j < n ==> (#[trigger] party_keys_vec@[j]).wf() && party_keys_vec@[
                j].party_index == j,
            forall|j: int|
                0 <= j < i4 ==> (#[trigger] vss_scheme_vec@[j]).wf() && vss_scheme_vec@[
                j].threshold == t && vss_scheme_vec@[j].share_count == n,
            forall|j: int| 0 <= j < i4 ==> (#[trigger] secret_shares_vec@[j])@.len() == n,
            forall|j: int, k: int|
                0 <= j < i4 && 0 <= k < n ==> (#[trigger] secret_shares_vec@[j]@[k]) < arith::GROUP_ORDER,
            forall|j: int| 0 <= j < i4 ==> (#[trigger] index_vec@[j]) == j,
            forall|j: int|
                0 <= j < n ==> party::round1_entry_ok(#[trigger] decom_vec@[j], bc1_vec@[j]),
            forall|j: int, k: int|
                0 <= j < i4 && 0 <= k < n ==> (#[trigger] secret_shares_vec@[j]@[k])
                    == vss::poly_eval_spec(vss_scheme_vec@[j].coeff_seq(), k + 1),
        decreases n - i4,
    {
        let out = match party_keys_vec[i4].phase1_verify_com_phase3_verify_correct_key_phase2_distribute(
            &params,
            &decom_vec,
            &bc1_vec,
        ) {
            Ok(o) => o,
            Err(e) => {
                // unreachable: every broadcast was built with its own
                // decommitment and key proof
                proof {
                    assert(party::keygen_round1_ok(decom_vec@, bc1_vec@));
                    assert(false);
                }
                return Err(e);
            },
        };
        let (vss_scheme, secret_shares, idx) = out;
        proof {
            assert(party_keys_vec@[i4 as int].party_index == i4);
        }
        vss_scheme_vec.push(vss_scheme);
        secret_shares_vec.push(secret_shares);
        index_vec.push(idx);
        i4 = i4 + 1;
    }
    let mut party_shares: Vec<Vec<u64>> = Vec::new();
    let mut i5: usize = 0;
    while i5 < n
        invariant
            i5 <= n,
            n == secret_shares_vec@.len(),
            party_shares@.len() == i5,
            forall|j: int| 0 <= j < n ==> (#[trigger] secret_shares_vec@[j])@.len() == n,
            forall|j: int, k: int|
                0 <= j < n && 0 <= k < n ==> (#[trigger] secret_shares_vec@[j]@[k]) < arith::GROUP_ORDER,
            forall|j: int| 0 <= j < i5 ==> (#[trigger] party_shares@[j])@.len() == n,
            forall|j: int, k: int|
                0 <= j < i5 && 0 <= k < n ==> (#[trigger] party_shares@[j]@[k]) < arith::GROUP_ORDER,
            forall|j: int, k: int|
                0 <= j < i5 && 0 <= k < n ==> (#[trigger] party_shares@[j]@[k])
                    == secret_shares_vec@[k]@[j],
        decreases n - i5,
    {
        let mut row: Vec<u64> = Vec::new();
        let mut j5: usize = 0;
        while j5 < n
            invariant
                j5 <= n,
                i5 < n,
                n == secret_shares_vec@.len(),
                row@.len() == j5,
                forall|j: int| 0 <= j < n ==> (#[trigger] secret_shares_vec@[j])@.len() == n,
                forall|j: int, k: int|
                    0 <= j < n && 0 <= k < n ==> (#[trigger] secret_shares_vec@[j]@[k]) < arith::GROUP_ORDER,
                forall|k: int| 0 <= k < j5 ==> (#[trigger] row@[k]) < arith::GROUP_ORDER,
                forall|k: int|
                    0 <= k < j5 ==> (#[trigger] row@[k]) == secret_shares_vec@[k]@[i5 as int],
            decreases n - j5,
        {
            let vec_j = &secret_shares_vec[j5];
            row.push(vec_j[i5]);
            j5 = j5 + 1;
        }
        party_shares.push(row);
        i5 = i5 + 1;
    }
    let mut shared_keys_vec: Vec<party::SharedKeys> = Vec::new();
    let mut dlog_proof_vec: Vec<dlog::DLogProof> = Vec::new();
    let mut i6: usize = 0;
    while i6 < n
        invariant
            i6 <= n,
            t < n,
            (n as int) < arith::GROUP_ORDER,
            n == party_keys_vec@.len(),
            n == y_vec@.len(),
            n == party_shares@.len(),
            n == vss_scheme_vec@.len(),
            n == index_vec@.len(),
            params.threshold == t,
            params.share_count == n,
            y_sum.wf(),
            y_sum.log == arith::sum_int(group::point_logs(y_vec@)) % (arith::GROUP_ORDER as int),
            shared_keys_vec@.len() == i6,
            dlog_proof_vec@.len() == i6,
            forall|j: int|
                0 <= j < n ==> (#[trigger] party_keys_vec@[j]).wf() && party_keys_vec@[
                j].party_index == j,
            forall|j: int| 0 <= j < n ==> (#[trigger] y_vec@[j]).wf(),
            forall|j: int| 0 <= j < n ==> (#[trigger] party_shares@[j])@.len() == n,
            forall|j: int, k: int|
                0 <= j < n && 0 <= k < n ==> (#[trigger] party_shares@[j]@[k]) < arith::GROUP_ORDER,
            forall|j: int| 0 <= j < n ==> (#[trigger] vss_scheme_vec@[j]).wf(),
            forall|j: int| 0 <= j < n ==> (#[trigger] index_vec@[j]) == j,
            forall|j: int, k: int|
                0 <= j < n && 0 <= k < n ==> (#[trigger] party_shares@[j]@[k])
                    == vss::poly_eval_spec(vss_scheme_vec@[k].coeff_seq(), j + 1),
            forall|j: int|
                0 <= j < i6 ==> (#[trigger] shared_keys_vec@[j]).x_i < arith::GROUP_ORDER
                    && shared_keys_vec@[j].y == y_sum && shared_keys_vec@[j].x_i == arith::sum_int(
                    party_shares@[j]@,
                ) % (arith::GROUP_ORDER as int),
            forall|j: int|
                0 <= j < i6 ==> crate::dlog::dlog_proof_ok(#[trigger] dlog_proof_vec@[j])
                    && dlog_proof_vec@[j].pk.log == shared_keys_vec@[j].x_i,
        decreases n - i6,
    {
        let idx_point = index_vec[i6] + 1;
        let out = match party_keys_vec[i6].phase2_verify_vss_construct_keypair_phase3_pok_dlog(
            &params,
            &y_vec,
            &party_shares[i6],
            &vss_scheme_vec,
            idx_point,
        ) {
            Ok(o) => o,
            Err(e) => {
                // unreachable: every received share lies on its sender's
                // committed polynomial at this party's point
                proof {
                    assert(party::vss_shares_ok(
                        vss_scheme_vec@,
                        party_shares@[i6 as int]@,
                        i6 + 1,
                    ));
                    assert(false);
                }
                return Err(e);
            },
        };
        let (shared_keys, dlog_proof) = out;
        proof {
            assert(shared_keys.y.log == y_sum.log);
            assert(shared_keys.y == y_sum);
        }
        shared_keys_vec.push(shared_keys);
        dlog_proof_vec.push(dlog_proof);
        i6 = i6 + 1;
    }
    let mut pk_vec: Vec<group::GroupElem> = Vec::new();
    let mut i7: usize = 0;
    while i7 < n
        invariant
            i7 <= n,
            n == dlog_proof_vec@.len(),
            n == shared_keys_vec@.len(),
            pk_vec@.len() == i7,
            forall|j: int|
                0 <= j < n ==> crate::dlog::dlog_proof_ok(#[trigger] dlog_proof_vec@[j])
                    && dlog_proof_vec@[j].pk.log == shared_keys_vec@[j].x_i,
            forall|j: int|
                0 <= j < i7 ==> (#[trigger] pk_vec@[j]).wf() && pk_vec@[j].log == shared_keys_vec@[
                j].x_i,
        decreases n - i7,
    {
        pk_vec.push(dlog_proof_vec[i7].pk);
        i7 = i7 + 1;
    }
    match party::Keys::verify_dlog_proofs(&params, &dlog_proof_vec, &y_vec) {
        Ok(u) => u,
        Err(e) => {
            // unreachable: every proof of knowledge was produced honestly
            proof {
                assert(false);
            }
            return Err(e);
        },
    };
    // the binding check: the first t + 1 aggregate shares reconstruct the
    // sum of all raw secrets
    let scheme = vss_scheme_vec.remove(0);
    let mut idx_vec: Vec<usize> = Vec::new();
    let mut xi_vec: Vec<u64> = Vec::new();
    let mut i8: usize = 0;
    while i8 < t + 1
        invariant
            i8 <= t + 1,
            t < n,
            (n as int) < arith::GROUP_ORDER,
            n == shared_keys_vec@.len(),
            idx_vec@.len() == i8,
            xi_vec@.len() == i8,
            forall|j: int|
                0 <= j < n ==> (#[trigger] shared_keys_vec@[j]).x_i < arith::GROUP_ORDER,
            forall|j: int| 0 <= j < i8 ==> (#[trigger] idx_vec@[j]) == j,
            forall|j: int| 0 <= j < i8 ==> (#[trigger] xi_vec@[j]) == shared_keys_vec@[j].x_i,
        decreases t + 1 - i8,
    {
        idx_vec.push(i8);
        xi_vec.push(shared_keys_vec[i8].x_i);
        i8 = i8 + 1;
    }
    let reconstructed = match scheme.reconstruct(&idx_vec, &xi_vec) {
        Ok(v) => v,
        Err(e) => {
            proof {
                let idxs = Seq::new((t + 1) as nat, |i: int| i as usize);
                assert(idx_vec@ =~= idxs);
                vss::lemma_sum_none_has_undefined_basis(
                    vss::eval_points(idx_vec@),
                    xi_vec@,
                    0,
                );
                assert(!lagrange_defined(idxs));
            }
            return Err(e);
        },
    };
    let mut u_vec: Vec<u64> = Vec::new();
    let mut i9: usize = 0;
    while i9 < n
        invariant
            i9 <= n,
            n == party_keys_vec@.len(),
            u_vec@.len() == i9,
            forall|j: int| 0 <= j < n ==> (#[trigger] party_keys_vec@[j]).wf(),
            forall|j: int| 0 <= j < i9 ==> (#[trigger] u_vec@[j]) == party_keys_vec@[j].u_i,
        decreases n - i9,
    {
        u_vec.push(party_keys_vec[i9].u_i);
        i9 = i9 + 1;
    }
    proof {
        assert(forall|j: int| 0 <= j < n ==> (#[trigger] u_vec@[j]) < arith::GROUP_ORDER);
    }
    let sum_u = arith::sum_mod_order(&u_vec);
    if reconstructed != sum_u {
        return Err(Error::InvalidKey);
    }
    let mk = (party_keys_vec, shared_keys_vec, pk_vec, y_sum, scheme);
    proof {
        let idxs = Seq::new((t + 1) as nat, |i: int| i as usize);
        let xi = Seq::new((t + 1) as nat, |i: int| mk.1@[i].x_i);
        assert(idx_vec@ =~= idxs);
        assert(xi_vec@ =~= xi);
        assert(u_vec@ =~= mk.0@.map_values(|k: party::Keys| k.u_i));
    }
    Ok(mk)
}

/// Every position of the signer set has a defined Lagrange basis over its
/// evaluation points.  Over the prime group order this holds of every set of
/// distinct in-range indices; the spec-level Euclid makes it a checkable
/// condition rather than an appeal to primality.
pub open spec fn lagrange_defined(s: Seq<usize>) -> bool {
    forall|i: int| 0 <= i < s.len() ==> vss::lag_basis(vss::eval_points(s), i, 0) is Some
}

/// Cell `(j, k)` of an MtA response matrix is the honest answer of the row
/// owner `j` (with row secret `b_val`) to pair partner `ind`'s opening
/// message, under the partner's encryption key.
pub open spec fn mta_cell_ok(
    m_b: mta::MessageB,
    party_keys: Seq<party::Keys>,
    sign_keys: Seq<sign::SignKeys>,
    s: Seq<usize>,
    j: int,
    k: int,
    w_side: bool,
) -> bool {
    let ind = if k < j {
        k
    } else {
        k + 1
    };
    mta::mta_response_ok(
        m_b,
        party_keys[s[ind] as int].ek.key_id,
        sign_keys[ind].k_i,
        if w_side {
            sign_keys[j].w_i
        } else {
            sign_keys[j].gamma_i
        },
    )
}

/// Run a signing session for the quorum named by `s` over `message`.  The
/// quorum is rejected before any cryptographic work unless it is strictly
/// larger than the threshold, exactly `ttag` strong, at least two signers
/// (the pairwise MtA exchange needs a peer; a session of one signer is
/// refused rather than left to fail inside the pairing loops), and made of
/// distinct in-range indices; a failed gate inside any phase aborts the
/// session with its typed error.
pub fn sign(
    keys: MultiKey,
    t: usize,
    ttag: usize,
    s: Vec<usize>,
    message: Vec<u8>,
) -> (r: Result<SignOutput, Error>)
    ensures
        ttag <= t ==> r is Err,
        (ttag > t && ttag >= 2 && s@.len() == ttag && indices_ok(s@, keys.0@.len() as int)
            && multikey_wf(keys) && lagrange_defined(s@)) ==> match r {
            Ok(out) => true,
            Err(e) => e == Error::InvalidSig,
        },
        match r {
            Ok(out) => {
                &&& ttag > t
                &&& ttag >= 2
                &&& s@.len() == ttag
                &&& indices_ok(s@, keys.0@.len() as int)
                &&& multikey_wf(keys)
                &&& out.local_sig_vec@.len() == ttag
                &&& out.r_vec@.len() == ttag
                &&& (forall|i: int|
                    0 <= i < ttag ==> (#[trigger] out.local_sig_vec@[i]).wf()
                        && out.local_sig_vec@[i].m == hash::hash_scalar_spec(message@)
                        && out.local_sig_vec@[i].y == keys.3 && out.local_sig_vec@[i].r_point
                        == out.r_vec@[i])
                &&& (forall|i: int| 0 <= i < ttag ==> (#[trigger] out.r_vec@[i]) == out.r_vec@[0])
            },
            Err(e) => true,
        },
{
    if ttag <= t || ttag < 2 {
        return Err(Error::InvalidKey);
    }
    if s.len() != ttag {
        return Err(Error::InvalidKey);
    }
    match validate_multikey(&keys) {
        Ok(u) => u,
        Err(e) => {
            return Err(Error::InvalidKey);
        },
    };
    let n = keys.0.len();
    if !check_indices(&s, n) {
        return Err(Error::InvalidKey);
    }
    let (party_keys_vec, shared_keys_vec, _pk_vec, y, vss_scheme) = keys;
    let mut private_vec: Vec<sign::PartyPrivate> = Vec::new();
    let mut i: usize = 0;
    while i < n
        invariant
            i <= n,
            n == party_keys_vec@.len(),
            shared_keys_vec@.len() == n,
            private_vec@.len() == i,
            forall|j: int| 0 <= j < n ==> (#[trigger] party_keys_vec@[j]).wf(),
            forall|j: int|
                0 <= j < n ==> (#[trigger] shared_keys_vec@[j]).x_i < arith::GROUP_ORDER,
            forall|j: int|
                0 <= j < i ==> (#[trigger] private_vec@[j]).x_i < arith::GROUP_ORDER,
        decreases n - i,
    {
        private_vec.push(sign::PartyPrivate::set_private(party_keys_vec[i], shared_keys_vec[i]));
        i = i + 1;
    }
    // phase 1: every signer builds its session keys and commits to
    // g^{gamma_i}
    let mut sign_keys_vec: Vec<sign::SignKeys> = Vec::new();
    let mut i2: usize = 0;
    while i2 < ttag
        invariant
            i2 <= ttag,
            s@.len() == ttag,
            n == party_keys_vec@.len(),
            private_vec@.len() == n,
            (n as int) < arith::GROUP_ORDER,
            indices_ok(s@, n as int),
            sign_keys_vec@.len() == i2,
            forall|j: int|
                0 <= j < n ==> (#[trigger] private_vec@[j]).x_i < arith::GROUP_ORDER,
            forall|j: int| 0 <= j < i2 ==> (#[trigger] sign_keys_vec@[j]).wf(),
        decreases ttag - i2,
    {
        let sk = match sign::SignKeys::create(&private_vec[s[i2]], &vss_scheme, i2, &s) {
            Ok(o) => o,
            Err(e) => {
                proof {
                    assert(!lagrange_defined(s@));
                }
                return Err(e);
            },
        };
        sign_keys_vec.push(sk);
        i2 = i2 + 1;
    }
    let mut bc1_vec: Vec<sign::SignBroadcastPhase1> = Vec::new();
    let mut decommit_vec1: Vec<sign::SignDecommitPhase1> = Vec::new();
    let mut i3: usize = 0;
    while i3 < ttag
        invariant
            i3 <= ttag,
            sign_keys_vec@.len() == ttag,
            bc1_vec@.len() == i3,
            decommit_vec1@.len() == i3,
            forall|j: int| 0 <= j < ttag ==> (#[trigger] sign_keys_vec@[j]).wf(),
            forall|j: int|
                0 <= j < i3 ==> (#[trigger] decommit_vec1@[j]).g_gamma_i == sign_keys_vec@[
                j].g_gamma_i,
            forall|j: int|
                0 <= j < i3 ==> (#[trigger] bc1_vec@[j]).com@ == commit::commitment_spec(
                    seq![sign_keys_vec@[j].g_gamma_i.log],
                    decommit_vec1@[j].blind_factor,
                ),
        decreases ttag - i3,
    {
        let (com, decom) = sign_keys_vec[i3].phase1_broadcast();
        bc1_vec.push(com);
        decommit_vec1.push(decom);
        i3 = i3 + 1;
    }
    // each signer encrypts its nonce share under its own key
    let mut m_a_vec: Vec<mta::MessageA> = Vec::new();
    let mut i4: usize = 0;
    while i4 < ttag
        invariant
            i4 <= ttag,
            s@.len() == ttag,
            n == party_keys_vec@.len(),
            indices_ok(s@, n as int),
            sign_keys_vec@.len() == ttag,
            m_a_vec@.len() == i4,
            forall|j: int| 0 <= j < ttag ==> (#[trigger] sign_keys_vec@[j]).wf(),
            forall|j: int|
                0 <= j < i4 ==> (#[trigger] m_a_vec@[j]).c.wf() && m_a_vec@[j].c.key_id
                    == party_keys_vec@[s@[j] as int].ek.key_id && m_a_vec@[j].c.value
                    == sign_keys_vec@[j].k_i,
        decreases ttag - i4,
    {
        let m_a_k = mta::MessageA::a(sign_keys_vec[i4].k_i, &party_keys_vec[s[i4]].ek);
        m_a_vec.push(m_a_k);
        i4 = i4 + 1;
    }
    // phase 2: the pairwise MtA exchanges, once for (k, gamma) and once for
    // (k, w)
    let mut m_b_gamma_vec_all: Vec<Vec<mta::MessageB>> = Vec::new();
    let mut beta_vec_all: Vec<Vec<u64>> = Vec::new();
    let mut m_b_w_vec_all: Vec<Vec<mta::MessageB>> = Vec::new();
    let mut ni_vec_all: Vec<Vec<u64>> = Vec::new();
    let mut i5: usize = 0;
    while i5 < ttag
        invariant
            i5 <= ttag,
            2 <= ttag,
            s@.len() == ttag,
            n == party_keys_vec@.len(),
            indices_ok(s@, n as int),
            sign_keys_vec@.len() == ttag,
            m_a_vec@.len() == ttag,
            m_b_gamma_vec_all@.len() == i5,
            beta_vec_all@.len() == i5,
            m_b_w_vec_all@.len() == i5,
            ni_vec_all@.len() == i5,
            forall|j: int| 0 <= j < ttag ==> (#[trigger] sign_keys_vec@[j]).wf(),
            forall|j: int|
                0 <= j < ttag ==> (#[trigger] m_a_vec@[j]).c.wf() && m_a_vec@[j].c.key_id
                    == party_keys_vec@[s@[j] as int].ek.key_id && m_a_vec@[j].c.value
                    == sign_keys_vec@[j].k_i,
            forall|j: int| 0 <= j < i5 ==> (#[trigger] m_b_gamma_vec_all@[j])@.len() == ttag - 1,
            forall|j: int| 0 <= j < i5 ==> (#[trigger] beta_vec_all@[j])@.len() == ttag - 1,
            forall|j: int| 0 <= j < i5 ==> (#[trigger] m_b_w_vec_all@[j])@.len() == ttag - 1,
            forall|j: int| 0 <= j < i5 ==> (#[trigger] ni_vec_all@[j])@.len() == ttag - 1,
            forall|j: int, k: int|
                0 <= j < i5 && 0 <= k < ttag - 1 ==> (#[trigger] m_b_gamma_vec_all@[j]@[k]).c.wf(),
            forall|j: int, k: int|
                0 <= j < i5 && 0 <= k < ttag - 1 ==> (#[trigger] m_b_w_vec_all@[j]@[k]).c.wf(),
            forall|j: int, k: int|
                0 <= j < i5 && 0 <= k < ttag - 1 ==> (#[trigger] beta_vec_all@[j]@[k])
                    < arith::GROUP_ORDER,
            forall|j: int, k: int|
                0 <= j < i5 && 0 <= k < ttag - 1 ==> (#[trigger] ni_vec_all@[j]@[k])
                    < arith::GROUP_ORDER,
            forall|j: int, k: int|
                0 <= j < i5 && 0 <= k < ttag - 1 ==> mta_cell_ok(
                    #[trigger] m_b_gamma_vec_all@[j]@[k],
                    party_keys_vec@,
                    sign_keys_vec@,
                    s@,
                    j,
                    k,
                    false,
                ),
            forall|j: int, k: int|
                0 <= j < i5 && 0 <= k < ttag - 1 ==> mta_cell_ok(
                    #[trigger] m_b_w_vec_all@[j]@[k],
                    party_keys_vec@,
                    sign_keys_vec@,
                    s@,
                    j,
                    k,
                    true,
                ),
        decreases ttag - i5,
    {
        let mut m_b_gamma_vec: Vec<mta::MessageB> = Vec::new();
        let mut beta_vec: Vec<u64> = Vec::new();
        let mut m_b_w_vec: Vec<mta::MessageB> = Vec::new();
        let mut ni_vec: Vec<u64> = Vec::new();
        let mut j5: usize = 0;
        while j5 < ttag - 1
            invariant
                j5 <= ttag - 1,
                2 <= ttag,
                i5 < ttag,
                s@.len() == ttag,
                n == party_keys_vec@.len(),
                indices_ok(s@, n as int),
                sign_keys_vec@.len() == ttag,
                m_a_vec@.len() == ttag,
                m_b_gamma_vec@.len() == j5,
                beta_vec@.len() == j5,
                m_b_w_vec@.len() == j5,
                ni_vec@.len() == j5,
                forall|j: int| 0 <= j < ttag ==> (#[trigger] sign_keys_vec@[j]).wf(),
                forall|j: int|
                    0 <= j < ttag ==> (#[trigger] m_a_vec@[j]).c.wf() && m_a_vec@[j].c.key_id
                        == party_keys_vec@[s@[j] as int].ek.key_id && m_a_vec@[j].c.value
                        == sign_keys_vec@[j].k_i,
                forall|k: int| 0 <= k < j5 ==> (#[trigger] m_b_gamma_vec@[k]).c.wf(),
                forall|k: int| 0 <= k < j5 ==> (#[trigger] m_b_w_vec@[k]).c.wf(),
                forall|k: int| 0 <= k < j5 ==> (#[trigger] beta_vec@[k]) < arith::GROUP_ORDER,
                forall|k: int| 0 <= k < j5 ==> (#[trigger] ni_vec@[k]) < arith::GROUP_ORDER,
                forall|k: int|
                    0 <= k < j5 ==> mta_cell_ok(
                        #[trigger] m_b_gamma_vec@[k],
                        party_keys_vec@,
                        sign_keys_vec@,
                        s@,
                        i5 as int,
                        k,
                        false,
                    ),
                forall|k: int|
                    0 <= k < j5 ==> mta_cell_ok(
                        #[trigger] m_b_w_vec@[k],
                        party_keys_vec@,
                        sign_keys_vec@,
                        s@,
                        i5 as int,
                        k,
                        true,
                    ),
            decreases ttag - 1 - j5,
        {
            let ind: usize = if j5 < i5 {
                j5
            } else {
                j5 + 1
            };
            let (m_b_gamma, beta_gamma) = mta::MessageB::b(
                sign_keys_vec[i5].gamma_i,
                &party_keys_vec[s[ind]].ek,
                m_a_vec[ind],
            );
            let (m_b_w, beta_wi) = mta::MessageB::b(
                sign_keys_vec[i5].w_i,
                &party_keys_vec[s[ind]].ek,
                m_a_vec[ind],
            );
            proof {
                assert(mta_cell_ok(
                    m_b_gamma,
                    party_keys_vec@,
                    sign_keys_vec@,
                    s@,
                    i5 as int,
                    j5 as int,
                    false,
                ));
                assert(mta_cell_ok(
                    m_b_w,
                    party_keys_vec@,
                    sign_keys_vec@,
                    s@,
                    i5 as int,
                    j5 as int,
                    true,
                ));
            }
            m_b_gamma_vec.push(m_b_gamma);
            beta_vec.push(beta_gamma);
            m_b_w_vec.push(m_b_w);
            ni_vec.push(beta_wi);
            j5 = j5 + 1;
        }
        m_b_gamma_vec_all.push(m_b_gamma_vec);
        beta_vec_all.push(beta_vec);
        m_b_w_vec_all.push(m_b_w_vec);
        ni_vec_all.push(ni_vec);
        i5 = i5 + 1;
    }
    // complete the MtA exchanges: decrypt, verify, and check that the
    // w-side response is bound to the already fixed g^{w_i}
    let mut alpha_vec_all: Vec<Vec<u64>> = Vec::new();
    let mut miu_vec_all: Vec<Vec<u64>> = Vec::new();
    let mut i6: usize = 0;
    while i6 < ttag
        invariant
            i6 <= ttag,
            2 <= ttag,
            s@.len() == ttag,
            n == party_keys_vec@.len(),
            indices_ok(s@, n as int),
            sign_keys_vec@.len() == ttag,
            m_b_gamma_vec_all@.len() == ttag,
            m_b_w_vec_all@.len() == ttag,
            alpha_vec_all@.len() == i6,
            miu_vec_all@.len() == i6,
            forall|j: int| 0 <= j < ttag ==> (#[trigger] sign_keys_vec@[j]).wf(),
            forall|j: int| 0 <= j < ttag ==> (#[trigger] m_b_gamma_vec_all@[j])@.len() == ttag - 1,
            forall|j: int| 0 <= j < ttag ==> (#[trigger] m_b_w_vec_all@[j])@.len() == ttag - 1,
            forall|j: int, k: int|
                0 <= j < ttag && 0 <= k < ttag - 1 ==> (#[trigger] m_b_gamma_vec_all@[j]@[
                k]).c.wf(),
            forall|j: int, k: int|
                0 <= j < ttag && 0 <= k < ttag - 1 ==> (#[trigger] m_b_w_vec_all@[j]@[k]).c.wf(),
            forall|j: int| 0 <= j < i6 ==> (#[trigger] alpha_vec_all@[j])@.len() == ttag - 1,
            forall|j: int| 0 <= j < i6 ==> (#[trigger] miu_vec_all@[j])@.len() == ttag - 1,
            forall|j: int, k: int|
                0 <= j < i6 && 0 <= k < ttag - 1 ==> (#[trigger] alpha_vec_all@[j]@[k])
                    < arith::GROUP_ORDER,
            forall|j: int, k: int|
                0 <= j < i6 && 0 <= k < ttag - 1 ==> (#[trigger] miu_vec_all@[j]@[k])
                    < arith::GROUP_ORDER,
            forall|j: int| 0 <= j < n ==> (#[trigger] party_keys_vec@[j]).wf(),
            forall|j: int, k: int|
                0 <= j < ttag && 0 <= k < ttag - 1 ==> mta_cell_ok(
                    #[trigger] m_b_gamma_vec_all@[j]@[k],
                    party_keys_vec@,
                    sign_keys_vec@,
                    s@,
                    j,
                    k,
                    false,
                ),
            forall|j: int, k: int|
                0 <= j < ttag && 0 <= k < ttag - 1 ==> mta_cell_ok(
                    #[trigger] m_b_w_vec_all@[j]@[k],
                    party_keys_vec@,
                    sign_keys_vec@,
                    s@,
                    j,
                    k,
                    true,
                ),
        decreases ttag - i6,
    {
        let mut alpha_vec: Vec<u64> = Vec::new();
        let mut miu_vec: Vec<u64> = Vec::new();
        let mut j6: usize = 0;
        while j6 < ttag - 1
            invariant
                j6 <= ttag - 1,
                2 <= ttag,
                i6 < ttag,
                s@.len() == ttag,
                n == party_keys_vec@.len(),
                indices_ok(s@, n as int),
                sign_keys_vec@.len() == ttag,
                m_b_gamma_vec_all@.len() == ttag,
                m_b_w_vec_all@.len() == ttag,
                alpha_vec@.len() == j6,
                miu_vec@.len() == j6,
                forall|j: int| 0 <= j < ttag ==> (#[trigger] sign_keys_vec@[j]).wf(),
                forall|j: int|
                    0 <= j < ttag ==> (#[trigger] m_b_gamma_vec_all@[j])@.len() == ttag - 1,
                forall|j: int| 0 <= j < ttag ==> (#[trigger] m_b_w_vec_all@[j])@.len() == ttag - 1,
                forall|j: int, k: int|
                    0 <= j < ttag && 0 <= k < ttag - 1 ==> (#[trigger] m_b_gamma_vec_all@[j]@[
                    k]).c.wf(),
                forall|j: int, k: int|
                    0 <= j < ttag && 0 <= k < ttag - 1 ==> (#[trigger] m_b_w_vec_all@[j]@[
                    k]).c.wf(),
                forall|k: int| 0 <= k < j6 ==> (#[trigger] alpha_vec@[k]) < arith::GROUP_ORDER,
                forall|k: int| 0 <= k < j6 ==> (#[trigger] miu_vec@[k]) < arith::GROUP_ORDER,
                forall|j: int| 0 <= j < n ==> (#[trigger] party_keys_vec@[j]).wf(),
                forall|j: int, k: int|
                    0 <= j < ttag && 0 <= k < ttag - 1 ==> mta_cell_ok(
                        #[trigger] m_b_gamma_vec_all@[j]@[k],
                        party_keys_vec@,
                        sign_keys_vec@,
                        s@,
                        j,
                        k,
                        false,
                    ),
                forall|j: int, k: int|
                    0 <= j < ttag && 0 <= k < ttag - 1 ==> mta_cell_ok(
                        #[trigger] m_b_w_vec_all@[j]@[k],
                        party_keys_vec@,
                        sign_keys_vec@,
                        s@,
                        j,
                        k,
                        true,
                    ),
            decreases ttag - 1 - j6,
        {
            let ind: usize = if j6 < i6 {
                j6
            } else {
                j6 + 1
            };
            let m_b = m_b_gamma_vec_all[i6][j6];
            let alpha_ij_gamma = match m_b.verify_proofs_get_alpha(
                &party_keys_vec[s[ind]].dk,
                sign_keys_vec[ind].k_i,
            ) {
                Ok(v) => v,
                Err(e) => {
                    // unreachable: the row was built honestly, so the
                    // completion's acceptance predicate holds of it
                    proof {
                        assert(mta_cell_ok(
                            m_b_gamma_vec_all@[i6 as int]@[j6 as int],
                            party_keys_vec@,
                            sign_keys_vec@,
                            s@,
                            i6 as int,
                            j6 as int,
                            false,
                        ));
                        mta::lemma_mta_response_accepted(
                            m_b,
                            party_keys_vec@[s@[ind as int] as int].ek.key_id,
                            sign_keys_vec@[ind as int].k_i,
                            sign_keys_vec@[i6 as int].gamma_i,
                        );
                        assert(false);
                    }
                    return Err(e);
                },
            };
            let m_b_w = m_b_w_vec_all[i6][j6];
            let alpha_ij_wi = match m_b_w.verify_proofs_get_alpha(
                &party_keys_vec[s[ind]].dk,
                sign_keys_vec[ind].k_i,
            ) {
                Ok(v) => v,
                Err(e) => {
                    proof {
                        assert(mta_cell_ok(
                            m_b_w_vec_all@[i6 as int]@[j6 as int],
                            party_keys_vec@,
                            sign_keys_vec@,
                            s@,
                            i6 as int,
                            j6 as int,
                            true,
                        ));
                        mta::lemma_mta_response_accepted(
                            m_b_w,
                            party_keys_vec@[s@[ind as int] as int].ek.key_id,
                            sign_keys_vec@[ind as int].k_i,
                            sign_keys_vec@[i6 as int].w_i,
                        );
                        assert(false);
                    }
                    return Err(e);
                },
            };
            // the B value in the w-side response must be the fixed g^{w_i}
            if m_b_w.b_proof.pk.log != sign_keys_vec[i6].g_w_i.log {
                proof {
                    assert(mta_cell_ok(
                        m_b_w_vec_all@[i6 as int]@[j6 as int],
                        party_keys_vec@,
                        sign_keys_vec@,
                        s@,
                        i6 as int,
                        j6 as int,
                        true,
                    ));
                    assert(false);
                }
                return Err(Error::InvalidKey);
            }
            alpha_vec.push(alpha_ij_gamma);
            miu_vec.push(alpha_ij_wi);
            j6 = j6 + 1;
        }
        alpha_vec_all.push(alpha_vec);
        miu_vec_all.push(miu_vec);
        i6 = i6 + 1;
    }
    // phase 2 aggregate and phase 3: delta reconstruction
    let mut delta_vec: Vec<u64> = Vec::new();
    let mut sigma_vec: Vec<u64> = Vec::new();
    let mut i7: usize = 0;
    while i7 < ttag
        invariant
            i7 <= ttag,
            sign_keys_vec@.len() == ttag,
            alpha_vec_all@.len() == ttag,
            beta_vec_all@.len() == ttag,
            miu_vec_all@.len() == ttag,
            ni_vec_all@.len() == ttag,
            delta_vec@.len() == i7,
            sigma_vec@.len() == i7,
            forall|j: int| 0 <= j < ttag ==> (#[trigger] sign_keys_vec@[j]).wf(),
            forall|j: int, k: int|
                0 <= j < ttag && 0 <= k < alpha_vec_all@[j]@.len() ==> (#[trigger] alpha_vec_all@[
                j]@[k]) < arith::GROUP_ORDER,
            forall|j: int, k: int|
                0 <= j < ttag && 0 <= k < beta_vec_all@[j]@.len() ==> (#[trigger] beta_vec_all@[
                j]@[k]) < arith::GROUP_ORDER,
            forall|j: int, k: int|
                0 <= j < ttag && 0 <= k < miu_vec_all@[j]@.len() ==> (#[trigger] miu_vec_all@[j]@[
                k]) < arith::GROUP_ORDER,
            forall|j: int, k: int|
                0 <= j < ttag && 0 <= k < ni_vec_all@[j]@.len() ==> (#[trigger] ni_vec_all@[j]@[k])
                    < arith::GROUP_ORDER,
            forall|k: int| 0 <= k < i7 ==> (#[trigger] delta_vec@[k]) < arith::GROUP_ORDER,
            forall|k: int| 0 <= k < i7 ==> (#[trigger] sigma_vec@[k]) < arith::GROUP_ORDER,
        decreases ttag - i7,
    {
        let delta = sign_keys_vec[i7].phase2_delta_i(&alpha_vec_all[i7], &beta_vec_all[i7]);
        let sigma = sign_keys_vec[i7].phase2_sigma_i(&miu_vec_all[i7], &ni_vec_all[i7]);
        delta_vec.push(delta);
        sigma_vec.push(sigma);
        i7 = i7 + 1;
    }
    let delta_inv = match sign::SignKeys::phase3_reconstruct_delta(&delta_vec) {
        Ok(v) => v,
        Err(e) => {
            return Err(e);
        },
    };
    // phase 4: decommit g^{gamma_i}, check it against the MtA-side proofs,
    // and build the nonce point
    let mut r_vec: Vec<group::GroupElem> = Vec::new();
    let mut i8: usize = 0;
    while i8 < ttag
        invariant
            i8 <= ttag,
            2 <= ttag,
            delta_inv < arith::GROUP_ORDER,
            m_b_gamma_vec_all@.len() == ttag,
            bc1_vec@.len() == ttag,
            decommit_vec1@.len() == ttag,
            r_vec@.len() == i8,
            forall|j: int| 0 <= j < ttag ==> (#[trigger] m_b_gamma_vec_all@[j])@.len() == ttag - 1,
            forall|k: int| 0 <= k < i8 ==> (#[trigger] r_vec@[k]).wf(),
            forall|k: int|
                0 <= k < i8 ==> (#[trigger] r_vec@[k]).log == ((arith::sum_int(
                    sign::gamma_logs(decommit_vec1@),
                ) % (arith::GROUP_ORDER as int)) * delta_inv) % (arith::GROUP_ORDER as int),
            s@.len() == ttag,
            n == party_keys_vec@.len(),
            sign_keys_vec@.len() == ttag,
            forall|j: int| 0 <= j < ttag ==> (#[trigger] sign_keys_vec@[j]).wf(),
            forall|j: int|
                0 <= j < ttag ==> (#[trigger] decommit_vec1@[j]).g_gamma_i == sign_keys_vec@[
                j].g_gamma_i,
            forall|j: int|
                0 <= j < ttag ==> (#[trigger] bc1_vec@[j]).com@ == commit::commitment_spec(
                    seq![sign_keys_vec@[j].g_gamma_i.log],
                    decommit_vec1@[j].blind_factor,
                ),
            forall|j: int, k: int|
                0 <= j < ttag && 0 <= k < ttag - 1 ==> mta_cell_ok(
                    #[trigger] m_b_gamma_vec_all@[j]@[k],
                    party_keys_vec@,
                    sign_keys_vec@,
                    s@,
                    j,
                    k,
                    false,
                ),
        decreases ttag - i8,
    {
        let mut b_proof_vec: Vec<dlog::DLogProof> = Vec::new();
        let mut j8: usize = 0;
        while j8 < ttag
            invariant
                j8 <= ttag,
                2 <= ttag,
                m_b_gamma_vec_all@.len() == ttag,
                b_proof_vec@.len() == j8,
                forall|j: int|
                    0 <= j < ttag ==> (#[trigger] m_b_gamma_vec_all@[j])@.len() == ttag - 1,
                forall|k: int|
                    0 <= k < j8 ==> (#[trigger] b_proof_vec@[k]) == m_b_gamma_vec_all@[k]@[
                    0].b_proof,
            decreases ttag - j8,
        {
            b_proof_vec.push(m_b_gamma_vec_all[j8][0].b_proof);
            j8 = j8 + 1;
        }
        let rr = match sign::SignKeys::phase4(delta_inv, &b_proof_vec, &decommit_vec1, &bc1_vec) {
            Ok(v) => v,
            Err(e) => {
                // unreachable: every decommitment opens the commitment it
                // was built with, and every proof binds the same point
                proof {
                    assert forall|j: int|
                        0 <= j < ttag implies sign::phase4_entry_ok(
                        b_proof_vec@[j],
                        decommit_vec1@[j],
                        bc1_vec@[j],
                    ) by {
                        assert(mta_cell_ok(
                            m_b_gamma_vec_all@[j]@[0],
                            party_keys_vec@,
                            sign_keys_vec@,
                            s@,
                            j,
                            0,
                            false,
                        ));
                        assert(seq![decommit_vec1@[j].g_gamma_i.log] =~= seq![
                            sign_keys_vec@[j].g_gamma_i.log,
                        ]);
                    };
                    assert(sign::phase4_ok(b_proof_vec@, decommit_vec1@, bc1_vec@));
                    assert(false);
                }
                return Err(e);
            },
        };
        r_vec.push(rr);
        i8 = i8 + 1;
    }
    // phase 5: every signer forms its signature share
    let message_scalar = hash::hash_to_scalar(&message);
    let mut local_sig_vec: Vec<sign::LocalSignature> = Vec::new();
    let mut i9: usize = 0;
    while i9 < ttag
        invariant
            i9 <= ttag,
            sign_keys_vec@.len() == ttag,
            sigma_vec@.len() == ttag,
            r_vec@.len() == ttag,
            y.wf(),
            message_scalar < arith::GROUP_ORDER,
            message_scalar == hash::hash_scalar_spec(message@),
            local_sig_vec@.len() == i9,
            forall|j: int| 0 <= j < ttag ==> (#[trigger] sign_keys_vec@[j]).wf(),
            forall|k: int| 0 <= k < ttag ==> (#[trigger] sigma_vec@[k]) < arith::GROUP_ORDER,
            forall|k: int| 0 <= k < ttag ==> (#[trigger] r_vec@[k]).wf(),
            forall|k: int| 0 <= k < ttag ==> (#[trigger] r_vec@[k]) == r_vec@[0],
            forall|k: int|
                0 <= k < i9 ==> (#[trigger] local_sig_vec@[k]).wf() && local_sig_vec@[k].m
                    == hash::hash_scalar_spec(message@) && local_sig_vec@[k].y == y
                    && local_sig_vec@[k].r_point == r_vec@[k],
        decreases ttag - i9,
    {
        let local_sig = sign::LocalSignature::phase5_local_sig(
            sign_keys_vec[i9].k_i,
            message_scalar,
            &r_vec[i9],
            sigma_vec[i9],
            &y,
        );
        local_sig_vec.push(local_sig);
        i9 = i9 + 1;
    }
    Ok(SignOutput { local_sig_vec, r_vec })
}

/// Drive phase 5's commit-then-reveal sequence over a signing session's
/// output: every signer commits to its share-derived values, verifies all
/// peers, and only then reveals its share; the shares are summed and the
/// resulting `(r, s)` accepted only if it satisfies the ECDSA verification
/// relation under the session's public key and message.  The bundle must
/// carry one message hash, one public key and one nonce point across all
/// entries.  Every commitment and proof of the sequence is produced
/// honestly in here and provably passes its own gate, so the only abort
/// kind is `InvalidSig`: a malformed or inconsistent bundle, a failed
/// balance check, or a final signature that does not satisfy the relation.
pub fn verify(ttag: usize, sign_output: SignOutput) -> (r: Result<sign::Signature, Error>)
    ensures
        r is Err ==> r == Result::<sign::Signature, Error>::Err(Error::InvalidSig),
        match r {
            Ok(sig) => {
                &&& sign_output.local_sig_vec@.len() == ttag
                &&& sign_output.r_vec@.len() == ttag
                &&& ttag >= 1
                &&& (forall|i: int|
                    0 <= i < ttag ==> {
                        let ls = #[trigger] sign_output.local_sig_vec@[i];
                        ls.m == sign_output.local_sig_vec@[0].m && ls.y
                            == sign_output.local_sig_vec@[0].y && ls.r
                            == sign_output.local_sig_vec@[0].r && ls.r_point
                            == sign_output.r_vec@[0]
                    })
                &&& (forall|i: int|
                    0 <= i < ttag ==> (#[trigger] sign_output.r_vec@[i]) == sign_output.r_vec@[0])
                &&& sig.r == sign_output.local_sig_vec@[0].r
                &&& sig.s == arith::sum_int(sign::share_values(sign_output.local_sig_vec@)) % (
                arith::GROUP_ORDER as int)
                &&& sign::ecdsa_valid(
                    sign_output.local_sig_vec@[0].y,
                    sign_output.local_sig_vec@[0].m,
                    sig.r,
                    sig.s,
                )
            },
            Err(e) => true,
        },
{
    let q = arith::GROUP_ORDER;
    let n = sign_output.local_sig_vec.len();
    if n != ttag || n == 0 || sign_output.r_vec.len() != ttag {
        return Err(Error::InvalidSig);
    }
    let local_sig_vec = sign_output.local_sig_vec;
    let r_vec = sign_output.r_vec;
    let mut i0: usize = 0;
    while i0 < n
        invariant
            i0 <= n,
            q == arith::GROUP_ORDER,
            n == local_sig_vec@.len(),
            n == r_vec@.len(),
            forall|j: int| 0 <= j < i0 ==> (#[trigger] local_sig_vec@[j]).wf(),
            forall|j: int|
                0 <= j < i0 ==> {
                    let ls = #[trigger] local_sig_vec@[j];
                    ls.m == local_sig_vec@[0].m && ls.y == local_sig_vec@[0].y && ls.r
                        == local_sig_vec@[0].r && ls.r_point == r_vec@[0]
                },
            forall|j: int| 0 <= j < i0 ==> (#[trigger] r_vec@[j]) == r_vec@[0],
        decreases n - i0,
    {
        let ls = &local_sig_vec[i0];
        if ls.r >= q || ls.r_point.log >= q || ls.r_point.log != ls.r || ls.s_i >= q || ls.m >= q
            || ls.y.log >= q || ls.l_i >= q || ls.rho_i >= q {
            return Err(Error::InvalidSig);
        }
        // every entry must carry the same session values: one message hash,
        // one public key, one nonce point
        if ls.m != local_sig_vec[0].m || ls.y.log != local_sig_vec[0].y.log || ls.r
            != local_sig_vec[0].r || ls.r_point.log != r_vec[0].log || r_vec[i0].log
            != r_vec[0].log {
            return Err(Error::InvalidSig);
        }
        i0 = i0 + 1;
    }
    // phase 5a/5b: commitments to (V_i, A_i, B_i) with consistency proofs
    let mut phase5_com_vec: Vec<sign::Phase5Com1> = Vec::new();
    let mut phase_5a_decom_vec: Vec<sign::Phase5ADecom1> = Vec::new();
    let mut helgamal_proof_vec: Vec<sign::HomoELGamalProof> = Vec::new();
    let mut i1: usize = 0;
    while i1 < n
        invariant
            i1 <= n,
            n == local_sig_vec@.len(),
            n == r_vec@.len(),
            phase5_com_vec@.len() == i1,
            phase_5a_decom_vec@.len() == i1,
            helgamal_proof_vec@.len() == i1,
            forall|j: int| 0 <= j < n ==> (#[trigger] local_sig_vec@[j]).wf(),
            forall|j: int| 0 <= j < n ==> (#[trigger] local_sig_vec@[j]).r_point == r_vec@[0],
            forall|j: int| 0 <= j < i1 ==> (#[trigger] phase_5a_decom_vec@[j]).v_i.wf(),
            forall|j: int|
                0 <= j < i1 ==> sign::phase5c_entry_ok(
                    #[trigger] phase_5a_decom_vec@[j],
                    phase5_com_vec@[j],
                    helgamal_proof_vec@[j],
                    r_vec@[0],
                ),
        decreases n - i1,
    {
        let (phase5_com, phase_5a_decom, helgamal_proof) = local_sig_vec[
            i1].phase5a_broadcast_5b_zkproof();
        phase5_com_vec.push(phase5_com);
        phase_5a_decom_vec.push(phase_5a_decom);
        helgamal_proof_vec.push(helgamal_proof);
        i1 = i1 + 1;
    }
    // phase 5c: each signer verifies everyone else and commits to (U_i, T_i)
    let mut phase5_com2_vec: Vec<sign::Phase5Com2> = Vec::new();
    let mut phase_5d_decom2_vec: Vec<sign::Phase5DDecom2> = Vec::new();
    let mut i2: usize = 0;
    while i2 < n
        invariant
            i2 <= n,
            n == local_sig_vec@.len(),
            n == r_vec@.len(),
            phase5_com_vec@.len() == n,
            phase_5a_decom_vec@.len() == n,
            helgamal_proof_vec@.len() == n,
            phase5_com2_vec@.len() == i2,
            phase_5d_decom2_vec@.len() == i2,
            forall|j: int| 0 <= j < n ==> (#[trigger] local_sig_vec@[j]).wf(),
            forall|j: int| 0 <= j < n ==> (#[trigger] phase_5a_decom_vec@[j]).v_i.wf(),
            forall|j: int|
                0 <= j < n ==> sign::phase5c_entry_ok(
                    #[trigger] phase_5a_decom_vec@[j],
                    phase5_com_vec@[j],
                    helgamal_proof_vec@[j],
                    r_vec@[0],
                ),
            forall|j: int|
                0 <= j < i2 ==> sign::phase5d_entry_ok(
                    #[trigger] phase_5d_decom2_vec@[j],
                    phase5_com2_vec@[j],
                ),
        decreases n - i2,
    {
        let mut decoms_o: Vec<sign::Phase5ADecom1> = Vec::new();
        let mut coms_o: Vec<sign::Phase5Com1> = Vec::new();
        let mut proofs_o: Vec<sign::HomoELGamalProof> = Vec::new();
        let mut j2: usize = 0;
        while j2 < n
            invariant
                j2 <= n,
                i2 < n,
                n == local_sig_vec@.len(),
                phase5_com_vec@.len() == n,
                phase_5a_decom_vec@.len() == n,
                helgamal_proof_vec@.len() == n,
                decoms_o@.len() == coms_o@.len(),
                proofs_o@.len() == coms_o@.len(),
                forall|j: int|
                    0 <= j < n ==> sign::phase5c_entry_ok(
                        #[trigger] phase_5a_decom_vec@[j],
                        phase5_com_vec@[j],
                        helgamal_proof_vec@[j],
                        r_vec@[0],
                    ),
                forall|k: int|
                    0 <= k < coms_o@.len() ==> sign::phase5c_entry_ok(
                        #[trigger] decoms_o@[k],
                        coms_o@[k],
                        proofs_o@[k],
                        r_vec@[0],
                    ),
            decreases n - j2,
        {
            if j2 != i2 {
                decoms_o.push(phase_5a_decom_vec[j2]);
                coms_o.push(phase5_com_vec[j2].duplicate());
                proofs_o.push(helgamal_proof_vec[j2]);
            }
            j2 = j2 + 1;
        }
        let out = match local_sig_vec[i2].phase5c(
            &decoms_o,
            &coms_o,
            &proofs_o,
            &phase_5a_decom_vec[i2].v_i,
            &r_vec[0],
        ) {
            Ok(o) => o,
            Err(e) => {
                // unreachable: every peer's decommitment and proof were
                // produced honestly in phase 5a against the same nonce point
                proof {
                    assert(sign::phase5c_ok(decoms_o@, coms_o@, proofs_o@, r_vec@[0]));
                    assert(false);
                }
                return Err(e);
            },
        };
        let (phase5_com2, phase_5d_decom2) = out;
        phase5_com2_vec.push(phase5_com2);
        phase_5d_decom2_vec.push(phase_5d_decom2);
        i2 = i2 + 1;
    }
    // phase 5d: open the second-round commitments, check the balance, and
    // reveal the shares
    let mut s_vec: Vec<u64> = Vec::new();
    let mut i3: usize = 0;
    while i3 < n
        invariant
            i3 <= n,
            n == local_sig_vec@.len(),
            phase5_com2_vec@.len() == n,
            phase_5d_decom2_vec@.len() == n,
            phase_5a_decom_vec@.len() == n,
            s_vec@.len() == i3,
            forall|j: int| 0 <= j < n ==> (#[trigger] local_sig_vec@[j]).wf(),
            forall|j: int|
                0 <= j < n ==> sign::phase5d_entry_ok(
                    #[trigger] phase_5d_decom2_vec@[j],
                    phase5_com2_vec@[j],
                ),
            forall|j: int| 0 <= j < i3 ==> (#[trigger] s_vec@[j]) < arith::GROUP_ORDER,
            forall|j: int| 0 <= j < i3 ==> (#[trigger] s_vec@[j]) == local_sig_vec@[j].s_i,
        decreases n - i3,
    {
        let s_i = match local_sig_vec[i3].phase5d(
            &phase_5d_decom2_vec,
            &phase5_com2_vec,
            &phase_5a_decom_vec,
        ) {
            Ok(v) => v,
            Err(e) => {
                // the second-round commitments were all produced honestly in
                // phase 5c, so only the balance check can fail here
                proof {
                    assert(sign::phase5d_coms_ok(phase_5d_decom2_vec@, phase5_com2_vec@));
                    assert(e == Error::InvalidSig);
                }
                return Err(e);
            },
        };
        s_vec.push(s_i);
        i3 = i3 + 1;
    }
    // the first signer assembles the signature from the others' shares
    let mut rest: Vec<u64> = Vec::new();
    let mut i4: usize = 1;
    while i4 < n
        invariant
            1 <= i4 <= n,
            n == s_vec@.len(),
            rest@.len() == i4 - 1,
            forall|j: int| 0 <= j < n ==> (#[trigger] s_vec@[j]) < arith::GROUP_ORDER,
            forall|j: int| 0 <= j < i4 - 1 ==> (#[trigger] rest@[j]) < arith::GROUP_ORDER,
            forall|j: int| 0 <= j < i4 - 1 ==> (#[trigger] rest@[j]) == s_vec@[j + 1],
        decreases n - i4,
    {
        rest.push(s_vec[i4]);
        i4 = i4 + 1;
    }
    proof {
        let shares = sign::share_values(local_sig_vec@);
        assert(shares.skip(1) =~= rest@);
        assert(arith::sum_int(shares) == local_sig_vec@[0].s_i + arith::sum_int(shares.skip(1)));
    }
    local_sig_vec[0].output_signature(&rest)
}

/// Check a signer index list against the party count; true exactly when the
/// indices are in range and pairwise distinct.
fn check_indices(s: &Vec<usize>, n: usize) -> (r: bool)
    ensures
        r == indices_ok(s@, n as int),
{
    let len = s.len();
    let mut i: usize = 0;
    while i < len
        invariant
            i <= len,
            len == s@.len(),
            forall|a: int| 0 <= a < i ==> (s@[a] as int) < n,
            forall|a: int, b: int| 0 <= a < b < i ==> s@[a] != s@[b],
        decreases len - i,
    {
        if s[i] >= n {
            return false;
        }
        let mut j: usize = 0;
        while j < i
            invariant
                j <= i,
                i < len,
                len == s@.len(),
                forall|b: int| 0 <= b < j ==> s@[b] != s@[i as int],
            decreases i - j,
        {
            if s[j] == s[i] {
                return false;
            }
            j = j + 1;
        }
        proof {
            assert(forall|a: int, b: int| 0 <= a < b < i + 1 ==> s@[a] != s@[b]);
        }
        i = i + 1;
    }
    true
}

} // verus!
