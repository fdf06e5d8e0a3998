//! The hash commitment scheme: commit to a sequence of field words under a
//! blinding word; a decommitment reveals words and blinding, and opening
//! checks that they hash back to the commitment.

use vstd::prelude::*;
use crate::hash::{bytes_eq, encode_words, encode_words_spec, sha256, sha256_of};

verus! {

/// The commitment to `values` under blinding `blind`: the digest of their
/// joint encoding.
pub open spec fn commitment_spec(values: Seq<u64>, blind: u64) -> Seq<u8> {
    sha256_of(encode_words_spec(values.push(blind)))
}

/// Commit to a word sequence under a blinding word.
pub fn commit(values: &Vec<u64>, blind: u64) -> (r: Vec<u8>)
    ensures
        r@ == commitment_spec(values@, blind),
{
    let mut buf: Vec<u64> = values.clone();
    buf.push(blind);
    let bytes = encode_words(&buf);
    sha256(&bytes)
}

/// Open a commitment: recompute the digest of the revealed values and
/// blinding, and compare it with the commitment.  True exactly when the
/// commitment is the digest of what was revealed.
pub fn open_commitment(com: &Vec<u8>, values: &Vec<u64>, blind: u64) -> (r: bool)
    ensures
        r <==> com@ == commitment_spec(values@, blind),
{
    let expected = commit(values, blind);
    bytes_eq(com, &expected)
}

} // verus!
