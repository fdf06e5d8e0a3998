//! Feldman verifiable secret sharing over the scalar field.
//!
//! A secret is split through a random polynomial of degree `threshold`; the
//! shares are its evaluations at the points `1..=share_count`, and the
//! polynomial's coefficients are committed as group elements.  In the model
//! group the commitment to a coefficient is the element whose logarithm is
//! the coefficient itself, so share validation is an exact polynomial
//! identity.  Reconstruction is Lagrange interpolation at zero; it succeeds
//! exactly when every pairwise difference of evaluation points is invertible.

use vstd::prelude::*;
use crate::arith::{add_mod, inv_mod_order, inv_q_spec, mul_mod, sub_mod, GROUP_ORDER};
use crate::group::{generator_pow, GroupElem};
use crate::rng::sample_scalar;
use crate::Error;

verus! {

/// The public face of one party's secret sharing: the degree, the number of
/// shares, and the commitments to the polynomial's coefficients.
#[derive(Clone, Debug)]
pub struct VerifiableSS {
    pub threshold: usize,
    pub share_count: usize,
    pub commitments: Vec<GroupElem>,
}

/// Horner evaluation of the committed polynomial in the scalar field.
pub open spec fn poly_eval_spec(coeffs: Seq<u64>, x: int) -> int
    decreases coeffs.len(),
{
    if coeffs.len() == 0 {
        0
    } else {
        (coeffs[0] + x * poly_eval_spec(coeffs.skip(1), x)) % (GROUP_ORDER as int)
    }
}

/// The Lagrange basis value at zero for index `i`, built over the points from
/// position `j` on; `None` when a pairwise difference has no inverse.
pub open spec fn lag_basis(points: Seq<u64>, i: int, j: int) -> Option<int>
    decreases points.len() - j,
{
    if j >= points.len() {
        Some(1)
    } else if j == i {
        lag_basis(points, i, j + 1)
    } else {
        let d = (points[j] + GROUP_ORDER - points[i]) % (GROUP_ORDER as int);
        match inv_q_spec(d as nat) {
            Option::None => Option::<int>::None,
            Option::Some(dinv) => match lag_basis(points, i, j + 1) {
                Option::None => Option::<int>::None,
                Option::Some(rest) => Some(
                    ((points[j] * dinv) % (GROUP_ORDER as int) * rest) % (GROUP_ORDER as int),
                ),
            },
        }
    }
}

/// The Lagrange-weighted sum of the shares from position `i` on.
pub open spec fn lag_sum(points: Seq<u64>, shares: Seq<u64>, i: int) -> Option<int>
    decreases points.len() - i,
{
    if i >= points.len() {
        Some(0)
    } else {
        match lag_basis(points, i, 0) {
            Option::None => Option::<int>::None,
            Option::Some(bi) => match lag_sum(points, shares, i + 1) {
                Option::None => Option::<int>::None,
                Option::Some(rest) => Some(
                    ((shares[i] * bi) % (GROUP_ORDER as int) + rest) % (GROUP_ORDER as int),
                ),
            },
        }
    }
}

/// The secret that a set of (point, share) pairs reconstructs to, where the
/// points are the one-based evaluation points.
pub open spec fn reconstruct_spec(points: Seq<u64>, shares: Seq<u64>) -> Option<int> {
    lag_sum(points, shares, 0)
}

/// The one-based evaluation points of a list of party indices.
pub open spec fn eval_points(indices: Seq<usize>) -> Seq<u64> {
    indices.map_values(|i: usize| (i + 1) as u64)
}

/// A missing basis at position `j` poisons the whole basis product.
proof fn lemma_basis_none(points: Seq<u64>, i: int, j: int)
    requires
        0 <= j,
        lag_basis(points, i, j) is None,
    ensures
        lag_basis(points, i, 0) is None,
    decreases j,
{
    if j > 0 {
        assert(lag_basis(points, i, j - 1) is None);
        lemma_basis_none(points, i, j - 1);
    }
}

/// A missing term at position `i` poisons the whole sum.
proof fn lemma_sum_none(points: Seq<u64>, shares: Seq<u64>, i: int)
    requires
        0 <= i,
        lag_sum(points, shares, i) is None,
    ensures
        lag_sum(points, shares, 0) is None,
    decreases i,
{
    if i > 0 {
        assert(lag_sum(points, shares, i - 1) is None);
        lemma_sum_none(points, shares, i - 1);
    }
}

/// A failed reconstruction names a position whose whole basis is undefined.
pub proof fn lemma_sum_none_has_undefined_basis(points: Seq<u64>, shares: Seq<u64>, i: int)
    requires
        0 <= i,
        lag_sum(points, shares, i) is None,
    ensures
        exists|j: int| i <= j < points.len() && lag_basis(points, j, 0) is None,
    decreases points.len() - i,
{
    if i < points.len() {
        if lag_basis(points, i, 0) is None {
            assert(i <= i < points.len() && lag_basis(points, i, 0) is None);
        } else {
            assert(lag_sum(points, shares, i + 1) is None);
            lemma_sum_none_has_undefined_basis(points, shares, i + 1);
        }
    }
}

impl VerifiableSS {
    /// The committed coefficients, read back from the group elements.
    pub open spec fn coeff_seq(self) -> Seq<u64> {
        self.commitments@.map_values(|c: GroupElem| c.log)
    }

    /// Well-formed scheme: degree-plus-one commitments, all reduced, and a
    /// share count above the threshold that fits in the field.
    pub open spec fn wf(self) -> bool {
        &&& self.commitments@.len() == self.threshold + 1
        &&& (forall|i: int| 0 <= i < self.commitments@.len() ==> self.commitments@[i].wf())
        &&& self.threshold < self.share_count
        &&& (self.share_count as int) < GROUP_ORDER
    }

    /// Split `secret` with a fresh random polynomial of degree `t` into `n`
    /// shares: share `i` is the polynomial at `i + 1`, the commitments fix
    /// the polynomial, and its constant coefficient is the secret.
    pub fn share(t: usize, n: usize, secret: u64) -> (r: (VerifiableSS, Vec<u64>))
        requires
            t < n,
            (n as int) < GROUP_ORDER,
            secret < GROUP_ORDER,
        ensures
            r.0.wf(),
            r.0.threshold == t,
            r.0.share_count == n,
            r.0.coeff_seq()[0] == secret,
            r.1@.len() == n,
            forall|i: int|
                0 <= i < n ==> r.1@[i] == poly_eval_spec(r.0.coeff_seq(), i + 1) && r.1@[i]
                    < GROUP_ORDER,
    {
        let mut coeffs: Vec<u64> = Vec::new();
        coeffs.push(secret);
        let mut k: usize = 0;
        while k < t
            invariant
                coeffs@.len() == k + 1,
                k <= t,
                forall|i: int| 0 <= i < coeffs@.len() ==> coeffs@[i] < GROUP_ORDER,
                coeffs@[0] == secret,
            decreases t - k,
        {
            coeffs.push(sample_scalar());
            k = k + 1;
        }
        let mut commitments: Vec<GroupElem> = Vec::new();
        let mut k2: usize = 0;
        while k2 < coeffs.len()
            invariant
                k2 <= coeffs@.len(),
                commitments@.len() == k2,
                forall|i: int| 0 <= i < coeffs@.len() ==> coeffs@[i] < GROUP_ORDER,
                forall|i: int| 0 <= i < k2 ==> (#[trigger] commitments@[i]).wf(),
                forall|i: int| 0 <= i < k2 ==> #[trigger] commitments@[i].log == coeffs@[i],
            decreases coeffs.len() - k2,
        {
            let c = coeffs[k2];
            proof {
                vstd::arithmetic::div_mod::lemma_small_mod(c as nat, GROUP_ORDER as nat);
            }
            let ghost prev = commitments@;
            commitments.push(generator_pow(c));
            proof {
                assert(commitments@[k2 as int].wf());
                assert(commitments@[k2 as int].log == coeffs@[k2 as int]);
                assert(forall|i: int| 0 <= i < k2 ==> commitments@[i] == prev[i]);
            }
            k2 = k2 + 1;
        }
        let scheme = VerifiableSS { threshold: t, share_count: n, commitments };
        proof {
            assert(scheme.coeff_seq() =~= coeffs@);
        }
        let mut shares: Vec<u64> = Vec::new();
        let mut i: usize = 0;
        while i < n
            invariant
                i <= n,
                (n as int) < GROUP_ORDER,
                shares@.len() == i,
                scheme.coeff_seq() == coeffs@,
                forall|j: int| 0 <= j < coeffs@.len() ==> coeffs@[j] < GROUP_ORDER,
                forall|j: int|
                    0 <= j < i ==> shares@[j] == poly_eval_spec(coeffs@, j + 1) && shares@[j]
                        < GROUP_ORDER,
            decreases n - i,
        {
            let x: u64 = (i as u64) + 1;
            let s = poly_eval(&coeffs, x);
            shares.push(s);
            i = i + 1;
        }
        (scheme, shares)
    }

    /// Validate a share against the committed polynomial at a one-based
    /// evaluation point: accepted exactly when the share is the polynomial
    /// there.
    pub fn validate_share(&self, secret_share: u64, index: u64) -> (r: Result<(), crate::ErrorSS>)
        requires
            self.wf(),
            index < GROUP_ORDER,
        ensures
            r is Ok <==> secret_share == poly_eval_spec(self.coeff_seq(), index as int),
            r is Err ==> r == Result::<(), crate::ErrorSS>::Err(crate::ErrorSS::VerifyShareError),
    {
        let mut logs: Vec<u64> = Vec::new();
        let mut k: usize = 0;
        while k < self.commitments.len()
            invariant
                k <= self.commitments@.len(),
                logs@.len() == k,
                self.wf(),
                forall|i: int| 0 <= i < k ==> logs@[i] == self.commitments@[i].log,
            decreases self.commitments.len() - k,
        {
            logs.push(self.commitments[k].log);
            k = k + 1;
        }
        proof {
            assert(logs@ =~= self.coeff_seq());
        }
        let expected = poly_eval(&logs, index);
        if secret_share == expected {
            Ok(())
        } else {
            Err(crate::ErrorSS::VerifyShareError)
        }
    }

    /// Reconstruct the secret from the shares of the parties named by
    /// `indices` (zero-based), by Lagrange interpolation at zero.  Fails with
    /// `InvalidSS` exactly when a pairwise difference of evaluation points is
    /// not invertible.
    pub fn reconstruct(&self, indices: &Vec<usize>, shares: &Vec<u64>) -> (r: Result<u64, Error>)
        requires
            indices@.len() == shares@.len(),
            forall|i: int| 0 <= i < indices@.len() ==> (indices@[i] as int) + 1 < GROUP_ORDER,
            forall|i: int| 0 <= i < shares@.len() ==> shares@[i] < GROUP_ORDER,
        ensures
            match r {
                Ok(v) => reconstruct_spec(eval_points(indices@), shares@) == Some(v as int) && v
                    < GROUP_ORDER,
                Err(e) => e == Error::InvalidSS && reconstruct_spec(
                    eval_points(indices@),
                    shares@,
                ) is None,
            },
    {
        let mut points: Vec<u64> = Vec::new();
        let mut k: usize = 0;
        while k < indices.len()
            invariant
                k <= indices@.len(),
                points@.len() == k,
                forall|i: int| 0 <= i < indices@.len() ==> (indices@[i] as int) + 1 < GROUP_ORDER,
                forall|i: int| 0 <= i < k ==> points@[i] == (indices@[i] + 1) as u64,
            decreases indices.len() - k,
        {
            points.push((indices[k] as u64) + 1);
            k = k + 1;
        }
        proof {
            assert(points@ =~= eval_points(indices@));
        }
        let n = points.len();
        let mut acc: u64 = 0;
        let mut i: usize = n;
        proof {
            assert(lag_sum(points@, shares@, n as int) == Some(0int));
        }
        while i > 0
            invariant
                i <= n,
                n == points@.len(),
                points@.len() == shares@.len(),
                forall|t: int| 0 <= t < points@.len() ==> points@[t] < GROUP_ORDER,
                forall|t: int| 0 <= t < shares@.len() ==> shares@[t] < GROUP_ORDER,
                acc < GROUP_ORDER,
                points@ == eval_points(indices@),
                lag_sum(points@, shares@, i as int) == Some(acc as int),
            decreases i,
        {
            i = i - 1;
            let basis = match lagrange_basis(&points, i) {
                Ok(b) => b,
                Err(e) => {
                    proof {
                        lemma_basis_none(points@, i as int, 0);
                        assert(lag_sum(points@, shares@, i as int) is None);
                        lemma_sum_none(points@, shares@, i as int);
                    }
                    return Err(e);
                },
            };
            let term = mul_mod(shares[i], basis, GROUP_ORDER);
            acc = add_mod(term, acc, GROUP_ORDER);
        }
        Ok(acc)
    }
}

/// The Lagrange basis value at zero for position `i` among `points`; fails
/// with `InvalidSS` exactly when a pairwise difference is not invertible.
pub fn lagrange_basis(points: &Vec<u64>, i: usize) -> (r: Result<u64, Error>)
    requires
        (i as int) < points@.len(),
        forall|t: int| 0 <= t < points@.len() ==> points@[t] < GROUP_ORDER,
    ensures
        match r {
            Ok(b) => lag_basis(points@, i as int, 0) == Some(b as int) && b < GROUP_ORDER,
            Err(e) => e == Error::InvalidSS && lag_basis(points@, i as int, 0) is None,
        },
{
    let n = points.len();
    let mut acc: u64 = 1;
    let mut j: usize = n;
    proof {
        assert(lag_basis(points@, i as int, n as int) == Some(1int));
    }
    while j > 0
        invariant
            j <= n,
            n == points@.len(),
            (i as int) < points@.len(),
            forall|t: int| 0 <= t < points@.len() ==> points@[t] < GROUP_ORDER,
            acc < GROUP_ORDER,
            lag_basis(points@, i as int, j as int) == Some(acc as int),
        decreases j,
    {
        j = j - 1;
        if j != i {
            let d = sub_mod(points[j], points[i], GROUP_ORDER);
            let dinv = match inv_mod_order(d) {
                Some(v) => v,
                None => {
                    proof {
                        lemma_basis_none(points@, i as int, j as int);
                    }
                    return Err(Error::InvalidSS);
                },
            };
            let factor = mul_mod(points[j], dinv, GROUP_ORDER);
            acc = mul_mod(factor, acc, GROUP_ORDER);
        }
    }
    Ok(acc)
}

/// Evaluate the polynomial with the given coefficients at `x`, by Horner.
pub fn poly_eval(coeffs: &Vec<u64>, x: u64) -> (r: u64)
    requires
        x < GROUP_ORDER,
        forall|i: int| 0 <= i < coeffs@.len() ==> coeffs@[i] < GROUP_ORDER,
    ensures
        r == poly_eval_spec(coeffs@, x as int),
        r < GROUP_ORDER,
{
    let n = coeffs.len();
    let mut acc: u64 = 0;
    let mut k: usize = n;
    proof {
        assert(coeffs@.skip(n as int) =~= Seq::<u64>::empty());
    }
    while k > 0
        invariant
            k <= n,
            n == coeffs@.len(),
            x < GROUP_ORDER,
            forall|i: int| 0 <= i < coeffs@.len() ==> coeffs@[i] < GROUP_ORDER,
            acc < GROUP_ORDER,
            acc == poly_eval_spec(coeffs@.skip(k as int), x as int),
        decreases k,
    {
        k = k - 1;
        let c: u64 = coeffs[k];
        let prod = mul_mod(x, acc, GROUP_ORDER);
        let next = add_mod(c, prod, GROUP_ORDER);
        proof {
            let q = GROUP_ORDER as int;
            let tail = coeffs@.skip(k as int).skip(1);
            assert(tail =~= coeffs@.skip(k + 1));
            assert(coeffs@.skip(k as int)[0] == coeffs@[k as int]);
            vstd::arithmetic::div_mod::lemma_add_mod_noop(
                c as int,
                (x as int) * (acc as int),
                q,
            );
            vstd::arithmetic::div_mod::lemma_small_mod(c as nat, q as nat);
            assert(next == (c + x * acc) % q);
        }
        acc = next;
    }
    proof {
        assert(coeffs@.skip(0) =~= coeffs@);
    }
    acc
}

} // verus!
