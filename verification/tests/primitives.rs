use threshold_ecdsa::arith::{add_mod, inv_mod_order, mul_mod, sub_mod, sum_mod_order, GROUP_ORDER};
use threshold_ecdsa::group::GroupElem;
use threshold_ecdsa::hash::{encode_words, hash_to_scalar};
use threshold_ecdsa::vss::{poly_eval, VerifiableSS};

#[test]
fn modular_arithmetic_exact_values() {
    let q = GROUP_ORDER;
    assert_eq!(add_mod(q - 1, 1, q), 0);
    assert_eq!(sub_mod(0, 1, q), q - 1);
    assert_eq!(mul_mod(q - 1, q - 1, q), 1);
    assert_eq!(sum_mod_order(&vec![q - 1, 2, 5]), 6);
}

#[test]
fn modular_inverse_round_trips() {
    let q = GROUP_ORDER;
    for a in [1u64, 2, 3, 65537, q - 1] {
        let v = inv_mod_order(a).expect("inverse exists");
        assert_eq!(mul_mod(a, v, q), 1);
    }
    // zero has no inverse
    assert_eq!(inv_mod_order(0), None);
}

#[test]
fn word_encoding_is_big_endian() {
    let bytes = encode_words(&vec![0x0102030405060708u64]);
    assert_eq!(bytes, vec![1u8, 2, 3, 4, 5, 6, 7, 8]);
}

#[test]
fn hash_to_scalar_matches_sha256() {
    // SHA-256 of eight zero bytes starts af5570f5a1810b7a; the scalar is
    // that prefix reduced modulo the group order
    let msg: Vec<u8> = vec![0u8; 8];
    assert_eq!(hash_to_scalar(&msg), 2878824);
}

#[test]
fn polynomial_evaluation_exact_value() {
    // f(x) = 5 + 3x + 2x^2
    let coeffs = vec![5u64, 3, 2];
    assert_eq!(poly_eval(&coeffs, 0), 5);
    assert_eq!(poly_eval(&coeffs, 1), 10);
    assert_eq!(poly_eval(&coeffs, 10), 235);
}

#[test]
fn lagrange_reconstruction_exact_value() {
    // the committed polynomial f(x) = 5 + 3x over parties {0, 1}: the
    // shares f(1) = 8 and f(2) = 11 interpolate back to the secret 5
    let scheme = VerifiableSS {
        threshold: 1,
        share_count: 3,
        commitments: vec![GroupElem { log: 5 }, GroupElem { log: 3 }],
    };
    assert!(scheme.validate_share(8, 1).is_ok());
    assert!(scheme.validate_share(11, 2).is_ok());
    let rec = scheme
        .reconstruct(&vec![0usize, 1], &vec![8u64, 11])
        .expect("reconstruct");
    assert_eq!(rec, 5);
}
