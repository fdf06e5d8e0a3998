//! Modular arithmetic over machine words.
//!
//! All protocol algebra happens in the scalar field of the model group,
//! the integers modulo the prime `GROUP_ORDER`.  The homomorphic
//! cryptosystem stand-in additionally works modulo `PLAINTEXT_MODULUS`.
//! Every executable operation here carries an exact contract over `int`
//! arithmetic; the modular inverse is specified through a spec-level
//! extended Euclid so that callers can state exactly when an inverse exists.

use vstd::prelude::*;
use vstd::arithmetic::div_mod::{
    lemma_add_mod_noop, lemma_fundamental_div_mod, lemma_mod_bound, lemma_mod_twice,
    lemma_mul_mod_noop_general, lemma_mul_mod_noop_right, lemma_small_mod, lemma_sub_mod_noop,
};

verus! {

/// The order of the model group and of its scalar field: the prime 2^31 - 1.
pub const GROUP_ORDER: u64 = 2147483647;

/// Plaintext modulus of the homomorphic-encryption stand-in; it exceeds
/// `(GROUP_ORDER - 1)^2 + (GROUP_ORDER - 1)`, so one product plus one blinding
/// term never wraps around it.
pub const PLAINTEXT_MODULUS: u64 = 9223372036854775783;

/// `(a + b) % m`, for operands already reduced modulo `m`.
pub fn add_mod(a: u64, b: u64, m: u64) -> (r: u64)
    requires
        0 < m,
        a < m,
        b < m,
    ensures
        r == (a + b) % (m as int),
        r < m,
{
    proof {
        lemma_mod_bound((a + b) as int, m as int);
    }
    (((a as u128) + (b as u128)) % (m as u128)) as u64
}

/// `(a * b) % m`, for operands already reduced modulo `m`.
pub fn mul_mod(a: u64, b: u64, m: u64) -> (r: u64)
    requires
        0 < m,
        a < m,
        b < m,
    ensures
        r == (a * b) % (m as int),
        r < m,
{
    proof {
        assert((a as int) * (b as int) <= (u64::MAX as int) * (u64::MAX as int))
            by (nonlinear_arith)
            requires
                a <= u64::MAX,
                b <= u64::MAX,
        ;
        assert((a as int) * (b as int) >= 0) by (nonlinear_arith)
            requires
                a >= 0,
                b >= 0,
        ;
        lemma_mod_bound((a as int) * (b as int), m as int);
    }
    (((a as u128) * (b as u128)) % (m as u128)) as u64
}

/// `(a - b) % m` as a value in `[0, m)`, for operands already reduced.
pub fn sub_mod(a: u64, b: u64, m: u64) -> (r: u64)
    requires
        0 < m,
        a < m,
        b < m,
    ensures
        r == (a + m - b) % (m as int),
        r < m,
{
    proof {
        lemma_mod_bound((a + m - b) as int, m as int);
    }
    (((a as u128) + (m as u128) - (b as u128)) % (m as u128)) as u64
}

/// The plain integer sum of a word sequence.
pub open spec fn sum_int(s: Seq<u64>) -> int
    decreases s.len(),
{
    if s.len() == 0 {
        0
    } else {
        s[0] + sum_int(s.skip(1))
    }
}

/// Sum a vector of reduced scalars in the field.
pub fn sum_mod_order(v: &Vec<u64>) -> (r: u64)
    requires
        forall|i: int| 0 <= i < v@.len() ==> v@[i] < GROUP_ORDER,
    ensures
        r == sum_int(v@) % (GROUP_ORDER as int),
        r < GROUP_ORDER,
{
    let n = v.len();
    let mut acc: u64 = 0;
    let mut j: usize = n;
    proof {
        assert(v@.skip(n as int) =~= Seq::<u64>::empty());
        lemma_small_mod(0, GROUP_ORDER as nat);
    }
    while j > 0
        invariant
            j <= n,
            n == v@.len(),
            forall|i: int| 0 <= i < v@.len() ==> v@[i] < GROUP_ORDER,
            acc < GROUP_ORDER,
            acc == sum_int(v@.skip(j as int)) % (GROUP_ORDER as int),
        decreases j,
    {
        j = j - 1;
        let x: u64 = v[j];
        let next = add_mod(x, acc, GROUP_ORDER);
        proof {
            let q = GROUP_ORDER as int;
            let tail = sum_int(v@.skip(j + 1));
            assert(v@.skip(j as int).skip(1) =~= v@.skip(j + 1));
            assert(sum_int(v@.skip(j as int)) == x + tail);
            lemma_add_mod_noop(x as int, tail, q);
            lemma_small_mod(x as nat, GROUP_ORDER as nat);
            lemma_mod_twice(tail, q);
            assert(next == (x + tail) % q);
        }
        acc = next;
    }
    proof {
        assert(v@.skip(0) =~= v@);
    }
    acc
}

/// Spec mirror of one extended-Euclid run modulo `GROUP_ORDER`: starting from
/// remainders `(r0, r1)` and coefficients `(s0, s1)` with `ri = si * a` modulo
/// the group order, it returns the final `(gcd, coefficient)` pair.
pub open spec fn egcd_q(r0: nat, r1: nat, s0: nat, s1: nat) -> (nat, nat)
    decreases r1,
{
    if r1 == 0 {
        (r0, s0)
    } else {
        let quot = r0 / r1;
        let qn = GROUP_ORDER as nat;
        let t = (qn - quot % qn) as nat;
        let coef = (s0 + t * s1) % qn;
        egcd_q(r1, r0 % r1, s1, coef)
    }
}

/// The inverse of `a` modulo `GROUP_ORDER`, where it exists: extended Euclid
/// on `(GROUP_ORDER, a)` yields gcd 1 exactly when `a` is invertible.
pub open spec fn inv_q_spec(a: nat) -> Option<nat> {
    let gs = egcd_q(GROUP_ORDER as nat, a, 0, 1);
    if gs.0 == 1 {
        Some(gs.1)
    } else {
        None
    }
}

/// One step of the Bezout-coefficient congruence: if `r0` and `r1` are the
/// multiples `s0 * a` and `s1 * a` modulo `q`, the next remainder `r0 % r1`
/// is the multiple `(s0 - quot * s1) * a`, with the coefficient kept in `[0, q)`.
proof fn lemma_egcd_step(a: int, q: int, r0: int, r1: int, s0: int, s1: int)
    requires
        1 < q,
        0 < r1,
        0 <= r0,
        r0 % q == (s0 * a) % q,
        r1 % q == (s1 * a) % q,
    ensures
        (r0 % r1) % q == ((s0 + (q - (r0 / r1) % q) * s1) % q * a) % q,
{
    let quot = r0 / r1;
    let t = q - quot % q;
    let snew = (s0 + t * s1) % q;
    lemma_fundamental_div_mod(r0, r1);
    assert(r0 % r1 == r0 - quot * r1);
    // (quot * r1) % q == (quot * (s1 * a)) % q
    lemma_mul_mod_noop_right(quot, r1, q);
    lemma_mul_mod_noop_right(quot, s1 * a, q);
    assert((quot * r1) % q == (quot * (s1 * a)) % q);
    // r0 % q - (quot * r1) % q ~ (s0 * a) - quot * s1 * a
    lemma_sub_mod_noop(r0, quot * r1, q);
    lemma_sub_mod_noop(s0 * a, quot * (s1 * a), q);
    assert((r0 - quot * r1) % q == (s0 * a - quot * (s1 * a)) % q);
    // (snew * a) % q == ((s0 + t * s1) * a) % q
    lemma_mul_mod_noop_general(s0 + t * s1, a, q);
    assert((snew * a) % q == ((s0 + t * s1) * a) % q);
    // (s0 + t * s1) * a == s0 * a + t * (s1 * a)
    assert((s0 + t * s1) * a == s0 * a + t * (s1 * a)) by (nonlinear_arith);
    // t ~ -quot modulo q, so t * (s1 * a) ~ -quot * (s1 * a)
    lemma_mod_bound(quot, q);
    lemma_mod_twice(quot, q);
    assert((t + quot % q) % q == 0) by {
        assert(t + quot % q == q);
        lemma_small_mod(0, q as nat);
        assert(q % q == 0) by {
            vstd::arithmetic::div_mod::lemma_mod_self_0(q);
        }
    }
    assert((t * (s1 * a)) % q == ((q - quot) * (s1 * a)) % q) by {
        lemma_mul_mod_noop_general(t, s1 * a, q);
        lemma_mul_mod_noop_general(q - quot, s1 * a, q);
        assert(t % q == (q - quot) % q) by {
            lemma_sub_mod_noop(q, quot, q);
            assert((q - quot) % q == (q % q - quot % q) % q);
            assert(q % q == 0) by {
                vstd::arithmetic::div_mod::lemma_mod_self_0(q);
            }
            assert((q - quot) % q == (0 - quot % q) % q);
            assert(t % q == (0 - quot % q) % q) by {
                lemma_mod_bound(quot, q);
                if quot % q == 0 {
                    assert(t == q);
                    assert((0 - quot % q) % q == 0) by {
                        lemma_small_mod(0, q as nat);
                    }
                    assert(q % q == 0) by {
                        vstd::arithmetic::div_mod::lemma_mod_self_0(q);
                    }
                } else {
                    assert(0 < t < q);
                    lemma_small_mod(t as nat, q as nat);
                    assert((0 - quot % q) % q == t) by {
                        vstd::arithmetic::div_mod::lemma_fundamental_div_mod_converse_mod(
                            0 - quot % q,
                            q,
                            -1,
                            t,
                        );
                    }
                }
            }
        }
    }
    // (q - quot) * (s1 * a) == q * (s1 * a) - quot * (s1 * a), and the q-multiple vanishes
    assert(((q - quot) * (s1 * a)) % q == (0 - quot * (s1 * a)) % q) by {
        assert((q - quot) * (s1 * a) == (s1 * a) * q + (0 - quot * (s1 * a))) by (nonlinear_arith);
        vstd::arithmetic::div_mod::lemma_mod_multiples_vanish(s1 * a, 0 - quot * (s1 * a), q);
    }
    // assemble: snew * a ~ s0 * a - quot * (s1 * a)
    lemma_add_mod_noop(s0 * a, t * (s1 * a), q);
    lemma_add_mod_noop(s0 * a, 0 - quot * (s1 * a), q);
    assert((s0 * a + t * (s1 * a)) % q == (s0 * a + (0 - quot * (s1 * a))) % q);
    assert(s0 * a + (0 - quot * (s1 * a)) == s0 * a - quot * (s1 * a));
}

/// Modular inverse in the scalar field, by the extended Euclidean algorithm.
/// Returns `Some(v)` with `(a * v) % GROUP_ORDER == 1` exactly when the
/// spec-level Euclid run finds gcd 1; `None` otherwise.
pub fn inv_mod_order(a: u64) -> (r: Option<u64>)
    requires
        a < GROUP_ORDER,
    ensures
        match r {
            Some(v) => inv_q_spec(a as nat) == Some(v as nat) && v < GROUP_ORDER && ((a as int) * (v as int)) % (
            GROUP_ORDER as int) == 1,
            None => inv_q_spec(a as nat) is None,
        },
{
    let q: u64 = GROUP_ORDER;
    let mut r0: u64 = q;
    let mut r1: u64 = a;
    let mut s0: u64 = 0;
    let mut s1: u64 = 1;
    proof {
        lemma_small_mod(0, q as nat);
        lemma_small_mod(a as nat, q as nat);
        assert((q as int) % (q as int) == 0) by {
            lemma_fundamental_div_mod(q as int, q as int);
            assert((q as int) == (q as int) * 1 + 0) by (nonlinear_arith);
            vstd::arithmetic::div_mod::lemma_fundamental_div_mod_converse_mod(
                q as int,
                q as int,
                1,
                0,
            );
        }
        assert(((s0 as int) * (a as int)) % (q as int) == 0) by {
            assert((s0 as int) * (a as int) == 0) by (nonlinear_arith)
                requires
                    s0 == 0,
            ;
        }
        assert(((s1 as int) * (a as int)) % (q as int) == (a as int) % (q as int)) by {
            assert((s1 as int) * (a as int) == a as int) by (nonlinear_arith)
                requires
                    s1 == 1,
            ;
        }
    }
    while r1 != 0
        invariant
            q == GROUP_ORDER,
            s0 < q,
            s1 < q,
            r0 <= q,
            r1 < q,
            egcd_q(r0 as nat, r1 as nat, s0 as nat, s1 as nat) == egcd_q(q as nat, a as nat, 0, 1),
            (r0 as int) % (q as int) == ((s0 as int) * (a as int)) % (q as int),
            (r1 as int) % (q as int) == ((s1 as int) * (a as int)) % (q as int),
        decreases r1,
    {
        let quot: u64 = r0 / r1;
        let rem: u64 = r0 % r1;
        let t: u64 = q - quot % q;
        proof {
            assert(0 <= (t as int) * (s1 as int) <= (q as int) * (q as int)) by (nonlinear_arith)
                requires
                    0 <= t <= q,
                    0 <= s1 < q,
            ;
        }
        let snew: u64 = (((s0 as u128) + (t as u128) * (s1 as u128)) % (q as u128)) as u64;
        proof {
            lemma_mod_bound((s0 + t * s1) as int, q as int);
            lemma_egcd_step(a as int, q as int, r0 as int, r1 as int, s0 as int, s1 as int);
            assert(egcd_q(r0 as nat, r1 as nat, s0 as nat, s1 as nat) == egcd_q(
                r1 as nat,
                rem as nat,
                s1 as nat,
                snew as nat,
            ));
        }
        r0 = r1;
        r1 = rem;
        s0 = s1;
        s1 = snew;
    }
    if r0 == 1 {
        proof {
            assert(egcd_q(r0 as nat, 0, s0 as nat, s1 as nat) == (r0 as nat, s0 as nat));
            assert(1int % (q as int) == ((s0 as int) * (a as int)) % (q as int));
            lemma_small_mod(1, q as nat);
            assert(((a as int) * (s0 as int)) % (q as int) == 1) by {
                assert((s0 as int) * (a as int) == (a as int) * (s0 as int)) by (nonlinear_arith);
            }
        }
        Some(s0)
    } else {
        proof {
            assert(egcd_q(r0 as nat, 0, s0 as nat, s1 as nat) == (r0 as nat, s0 as nat));
        }
        None
    }
}

} // verus!
