use threshold_ecdsa::arith::{add_mod, GROUP_ORDER};
use threshold_ecdsa::hash::hash_to_scalar;
use threshold_ecdsa::keygen_t_n_parties;
use threshold_ecdsa::sign::verify_ecdsa_signature;
use threshold_ecdsa::{sign, verify, Error};

#[test]
fn two_of_three_sign_and_verify() {
    // the concrete 2-of-3 scenario: keygen, sign with {0, 2}, verify, and
    // check the signature independently against the ECDSA relation
    let keys = keygen_t_n_parties(1, 3).expect("keygen");
    let y = keys.3;
    let message: Vec<u8> = b"hello".to_vec();
    let out = sign(keys, 1, 2, vec![0, 2], message.clone()).expect("sign");
    let sig = verify(2, out).expect("verify");
    let m = hash_to_scalar(&message);
    assert!(verify_ecdsa_signature(&y, m, sig.r, sig.s));
}

#[test]
fn quorum_of_one_is_rejected() {
    // signer-set size 1 with t = 1 violates ttag > t and must be rejected
    let keys = keygen_t_n_parties(1, 3).expect("keygen");
    let r = sign(keys, 1, 1, vec![0], b"hello".to_vec());
    assert!(r.is_err());
}

#[test]
fn duplicate_signer_indices_are_rejected() {
    let keys = keygen_t_n_parties(1, 3).expect("keygen");
    let r = sign(keys, 1, 2, vec![0, 0], b"msg".to_vec());
    assert!(r.is_err());
}

#[test]
fn out_of_range_signer_index_is_rejected() {
    let keys = keygen_t_n_parties(1, 3).expect("keygen");
    let r = sign(keys, 1, 2, vec![0, 5], b"msg".to_vec());
    assert!(r.is_err());
}

#[test]
fn wrong_signer_count_is_rejected() {
    let keys = keygen_t_n_parties(1, 3).expect("keygen");
    let r = sign(keys, 1, 3, vec![0, 2], b"msg".to_vec());
    assert!(r.is_err());
}

#[test]
fn full_quorum_signs() {
    let keys = keygen_t_n_parties(1, 3).expect("keygen");
    let y = keys.3;
    let message: Vec<u8> = b"all three".to_vec();
    let out = sign(keys, 1, 3, vec![0, 1, 2], message.clone()).expect("sign");
    let sig = verify(3, out).expect("verify");
    assert!(verify_ecdsa_signature(&y, hash_to_scalar(&message), sig.r, sig.s));
}

#[test]
fn any_quorum_reconstructs_the_same_secret() {
    // every pair of the three aggregate shares reconstructs the sum of the
    // raw per-party secrets
    let keys = keygen_t_n_parties(1, 3).expect("keygen");
    let q = GROUP_ORDER;
    let mut sum_u: u64 = 0;
    for k in keys.0.iter() {
        sum_u = add_mod(sum_u, k.u_i, q);
    }
    let scheme = &keys.4;
    for (a, b) in [(0usize, 1usize), (0, 2), (1, 2)] {
        let indices = vec![a, b];
        let shares = vec![keys.1[a].x_i, keys.1[b].x_i];
        let rec = scheme.reconstruct(&indices, &shares).expect("reconstruct");
        assert_eq!(rec, sum_u);
    }
}

#[test]
fn repeated_signing_randomizes_the_nonce() {
    // fresh randomness must give a different (r, s) each session, and each
    // must verify
    let keys = keygen_t_n_parties(1, 3).expect("keygen");
    let y = keys.3;
    let message: Vec<u8> = b"same message".to_vec();
    let m = hash_to_scalar(&message);
    let out1 = sign(keys.clone(), 1, 2, vec![0, 2], message.clone()).expect("sign");
    let sig1 = verify(2, out1).expect("verify");
    let out2 = sign(keys, 1, 2, vec![0, 2], message.clone()).expect("sign");
    let sig2 = verify(2, out2).expect("verify");
    assert!(verify_ecdsa_signature(&y, m, sig1.r, sig1.s));
    assert!(verify_ecdsa_signature(&y, m, sig2.r, sig2.s));
    assert!((sig1.r, sig1.s) != (sig2.r, sig2.s));
}

#[test]
fn zero_delta_fails_with_invalid_sig() {
    // a zero delta sum has no inverse: a typed failure, not a crash
    let r = threshold_ecdsa::sign::SignKeys::phase3_reconstruct_delta(&vec![0]);
    assert_eq!(r, Err(Error::InvalidSig));
}

#[test]
fn signature_rejects_wrong_key_and_message() {
    let keys = keygen_t_n_parties(1, 3).expect("keygen");
    let y = keys.3;
    let message: Vec<u8> = b"bound".to_vec();
    let out = sign(keys, 1, 2, vec![1, 2], message.clone()).expect("sign");
    let sig = verify(2, out).expect("verify");
    let m = hash_to_scalar(&message);
    assert!(verify_ecdsa_signature(&y, m, sig.r, sig.s));
    // a different message must not verify under the same signature
    let m2 = hash_to_scalar(&b"other".to_vec());
    assert!(!verify_ecdsa_signature(&y, m2, sig.r, sig.s));
    // nor a perturbed signature under the right message
    let bad_s = if sig.s + 1 < GROUP_ORDER { sig.s + 1 } else { 1 };
    assert!(!verify_ecdsa_signature(&y, m, sig.r, bad_s));
}
