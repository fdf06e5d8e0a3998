//! Randomness for the protocol: scalar sampling and blinding factors.
//!
//! The only trusted item here draws one machine word from the process RNG;
//! everything that shapes the raw word into protocol values is verified and
//! holds for every value the RNG may return.

use vstd::prelude::*;
use crate::arith::GROUP_ORDER;

verus! {

/// Relies on rand::random: one uniformly drawn machine word.  Nothing is
/// promised of the value; callers must hold for every outcome.
#[verifier::external_body]
fn random_word() -> u64 {
    rand::random::<u64>()
}

/// A fresh scalar of the field, reduced below the group order.
pub fn sample_scalar() -> (r: u64)
    ensures
        r < GROUP_ORDER,
{
    random_word() % GROUP_ORDER
}

/// A fresh blinding word for a hash commitment; the full word range is kept.
pub fn sample_blind() -> u64 {
    random_word()
}

} // verus!
