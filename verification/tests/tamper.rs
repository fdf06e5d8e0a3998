use threshold_ecdsa::arith::{add_mod, mul_mod, GROUP_ORDER, PLAINTEXT_MODULUS};
use threshold_ecdsa::commit::{commit, open_commitment};
use threshold_ecdsa::dlog::{dlog_prove, dlog_verify};
use threshold_ecdsa::group::generator_pow;
use threshold_ecdsa::mta::{MessageA, MessageB};
use threshold_ecdsa::party::{Keys, Parameters};
use threshold_ecdsa::sign::{PartyPrivate, SignKeys};
use threshold_ecdsa::vss::VerifiableSS;
use threshold_ecdsa::{Error, ErrorKey, ErrorSS};

#[test]
fn tampered_vss_share_fails_share_validation() {
    let (scheme, shares) = VerifiableSS::share(1, 3, 12345);
    // the honest share of party 0 validates at point 1
    assert!(scheme.validate_share(shares[0], 1).is_ok());
    let bad = add_mod(shares[0], 1, GROUP_ORDER);
    assert_eq!(scheme.validate_share(bad, 1), Err(ErrorSS::VerifyShareError));
}

#[test]
fn tampered_vss_share_aborts_key_generation_with_invalid_ss() {
    let params = Parameters { threshold: 1, share_count: 3 };
    let keys: Vec<Keys> = (0..3).map(Keys::create).collect();
    let mut bc = Vec::new();
    let mut decom = Vec::new();
    for k in keys.iter() {
        let (b, d) = k.phase1_broadcast_phase3_proof_of_correct_key();
        bc.push(b);
        decom.push(d);
    }
    let y_vec: Vec<_> = decom.iter().map(|d| d.y_i).collect();
    let mut schemes = Vec::new();
    let mut all_shares = Vec::new();
    for k in keys.iter() {
        let (scheme, shares, _idx) = k
            .phase1_verify_com_phase3_verify_correct_key_phase2_distribute(&params, &decom, &bc)
            .expect("round 1");
        schemes.push(scheme);
        all_shares.push(shares);
    }
    // the shares addressed to party 0, with the one from party 2 mutated
    let mut to_party0 = vec![all_shares[0][0], all_shares[1][0], all_shares[2][0]];
    to_party0[2] = add_mod(to_party0[2], 1, GROUP_ORDER);
    let r = keys[0].phase2_verify_vss_construct_keypair_phase3_pok_dlog(
        &params,
        &y_vec,
        &to_party0,
        &schemes,
        1,
    );
    assert!(matches!(r, Err(Error::InvalidSS)));
}

#[test]
fn tampered_ciphertext_aborts_mta_with_invalid_key() {
    let party = Keys::create(0);
    let a: u64 = 5;
    let b: u64 = 7;
    let m_a = MessageA::a(a, &party.ek);
    let (m_b, beta) = MessageB::b(b, &party.ek, m_a);
    // the honest response decrypts to additive shares of a * b
    let alpha = m_b
        .verify_proofs_get_alpha(&party.dk, a)
        .expect("honest exchange");
    assert_eq!(
        add_mod(alpha, beta, GROUP_ORDER),
        mul_mod(a, b, GROUP_ORDER)
    );
    // one mutated ciphertext must abort with InvalidKey
    let mut bad = m_b;
    bad.c.value = add_mod(bad.c.value, 1, PLAINTEXT_MODULUS);
    assert_eq!(bad.verify_proofs_get_alpha(&party.dk, a), Err(Error::InvalidKey));
}

#[test]
fn tampered_dlog_proof_fails_with_invalid_key() {
    let p = dlog_prove(4242);
    assert!(dlog_verify(&p));
    let mut bad = p;
    bad.response = add_mod(bad.response, 1, GROUP_ORDER);
    assert!(!dlog_verify(&bad));
    let params = Parameters { threshold: 0, share_count: 1 };
    let y_vec = vec![generator_pow(4242)];
    let r = Keys::verify_dlog_proofs(&params, &vec![bad], &y_vec);
    assert_eq!(r, Err(Error::InvalidKey));
}

#[test]
fn tampered_commitment_fails_to_open() {
    let values = vec![5u64, 77];
    let com = commit(&values, 999);
    assert!(open_commitment(&com, &values, 999));
    assert!(!open_commitment(&com, &values, 998));
    let mut bad = com.clone();
    bad[0] ^= 1;
    assert!(!open_commitment(&bad, &values, 999));
}

#[test]
fn tampered_keygen_commitment_aborts_with_invalid_key() {
    let params = Parameters { threshold: 1, share_count: 2 };
    let keys: Vec<Keys> = (0..2).map(Keys::create).collect();
    let mut bc = Vec::new();
    let mut decom = Vec::new();
    for k in keys.iter() {
        let (b, d) = k.phase1_broadcast_phase3_proof_of_correct_key();
        bc.push(b);
        decom.push(d);
    }
    bc[1].com[0] ^= 1;
    let r = keys[0].phase1_verify_com_phase3_verify_correct_key_phase2_distribute(
        &params, &decom, &bc,
    );
    assert!(matches!(r, Err(Error::InvalidKey)));
}

#[test]
fn tampered_gamma_decommit_aborts_phase4_with_invalid_com() {
    let party = Keys::create(0);
    let (scheme, shares) = VerifiableSS::share(1, 2, 4321);
    let private = PartyPrivate { u_i: 4321, x_i: shares[0], dk: party.dk };
    let s = vec![0usize, 1];
    let sk = SignKeys::create(&private, &scheme, 0, &s).expect("create");
    let (com, decom) = sk.phase1_broadcast();
    let b_proof = dlog_prove(sk.gamma_i);
    // honest opening passes
    let ok = SignKeys::phase4(1, &vec![b_proof], &vec![decom], &vec![com.clone()]);
    assert!(ok.is_ok());
    // a mutated blinding factor must abort with InvalidCom
    let mut bad = decom;
    bad.blind_factor = bad.blind_factor.wrapping_add(1);
    let r = SignKeys::phase4(1, &vec![b_proof], &vec![bad], &vec![com]);
    assert!(matches!(r, Err(Error::InvalidCom)));
}

#[test]
fn malformed_key_bundle_is_rejected() {
    let mut keys = threshold_ecdsa::keygen_t_n_parties(1, 3).expect("keygen");
    assert!(threshold_ecdsa::validate_multikey(&keys).is_ok());
    keys.1[0].x_i = GROUP_ORDER;
    assert_eq!(
        threshold_ecdsa::validate_multikey(&keys),
        Err(ErrorKey::InvalidPublicKey)
    );
}

#[test]
fn inconsistent_bundle_fails_verification() {
    // a bundle whose entries disagree on the message hash must be rejected
    // before any share is revealed
    let keys = threshold_ecdsa::keygen_t_n_parties(1, 3).expect("keygen");
    let mut out = threshold_ecdsa::sign(keys, 1, 2, vec![0, 2], b"hello".to_vec()).expect("sign");
    out.local_sig_vec[1].m = add_mod(out.local_sig_vec[1].m, 1, GROUP_ORDER);
    assert_eq!(threshold_ecdsa::verify(2, out).err(), Some(Error::InvalidSig));
}
