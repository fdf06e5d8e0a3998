//! Hashing: SHA-256 behind one trusted wrapper, a verified byte encoding of
//! word sequences, and the deterministic hash-to-scalar map that the proofs
//! and commitments of the protocol use.

use vstd::prelude::*;
use crate::arith::GROUP_ORDER;

verus! {

/// The SHA-256 digest of a byte sequence, named; the digest is a function of
/// the bytes alone.
pub uninterp spec fn sha256_of(bytes: Seq<u8>) -> Seq<u8>;

/// Relies on cryptoxide's sha2::Sha256 (new/update/finalize): the 32-byte
/// SHA-256 digest of the input, a function of the input bytes alone.
#[verifier::external_body]
pub(crate) fn sha256(data: &Vec<u8>) -> (r: Vec<u8>)
    ensures
        r@ == sha256_of(data@),
        r@.len() == 32,
{
    let d = cryptoxide::hashing::sha2::Sha256::new().update(data.as_slice()).finalize();
    d.to_vec()
}

/// The eight big-endian bytes of one machine word.
pub open spec fn word_bytes_spec(x: u64) -> Seq<u8> {
    seq![
        ((x as int / 72057594037927936int) % 256) as u8,
        ((x as int / 281474976710656int) % 256) as u8,
        ((x as int / 1099511627776int) % 256) as u8,
        ((x as int / 4294967296int) % 256) as u8,
        ((x as int / 16777216int) % 256) as u8,
        ((x as int / 65536int) % 256) as u8,
        ((x as int / 256int) % 256) as u8,
        ((x as int) % 256) as u8,
    ]
}

/// Big-endian byte encoding of a word sequence.
pub open spec fn encode_words_spec(xs: Seq<u64>) -> Seq<u8>
    decreases xs.len(),
{
    if xs.len() == 0 {
        Seq::empty()
    } else {
        word_bytes_spec(xs[0]) + encode_words_spec(xs.skip(1))
    }
}

/// Appending one word to the sequence appends its eight bytes to the encoding.
#[verifier::rlimit(50)]
pub proof fn lemma_encode_push(xs: Seq<u64>, x: u64)
    ensures
        encode_words_spec(xs.push(x)) == encode_words_spec(xs) + word_bytes_spec(x),
    decreases xs.len(),
{
    let p = xs.push(x);
    if xs.len() == 0 {
        assert(p.skip(1) =~= Seq::<u64>::empty());
        assert(encode_words_spec(p) == word_bytes_spec(x) + encode_words_spec(
            Seq::<u64>::empty(),
        ));
        assert(word_bytes_spec(x) + Seq::<u8>::empty() =~= word_bytes_spec(x));
        assert(Seq::<u8>::empty() + word_bytes_spec(x) =~= word_bytes_spec(x));
    } else {
        assert(p[0] == xs[0]);
        assert(p.skip(1) =~= xs.skip(1).push(x));
        lemma_encode_push(xs.skip(1), x);
        assert(word_bytes_spec(xs[0]) + (encode_words_spec(xs.skip(1)) + word_bytes_spec(x)) =~= (
        word_bytes_spec(xs[0]) + encode_words_spec(xs.skip(1))) + word_bytes_spec(x));
    }
}

/// Encode a vector of words as their big-endian bytes.
pub fn encode_words(xs: &Vec<u64>) -> (r: Vec<u8>)
    ensures
        r@ == encode_words_spec(xs@),
{
    let mut out: Vec<u8> = Vec::new();
    let mut i: usize = 0;
    proof {
        assert(xs@.take(0) =~= Seq::<u64>::empty());
    }
    while i < xs.len()
        invariant
            i <= xs.len(),
            out@ == encode_words_spec(xs@.take(i as int)),
        decreases xs.len() - i,
    {
        let x: u64 = xs[i];
        let ghost before = out@;
        out.push(((x / 72057594037927936) % 256) as u8);
        out.push(((x / 281474976710656) % 256) as u8);
        out.push(((x / 1099511627776) % 256) as u8);
        out.push(((x / 4294967296) % 256) as u8);
        out.push(((x / 16777216) % 256) as u8);
        out.push(((x / 65536) % 256) as u8);
        out.push(((x / 256) % 256) as u8);
        out.push((x % 256) as u8);
        proof {
            assert(out@ =~= before + word_bytes_spec(x));
            lemma_encode_push(xs@.take(i as int), x);
            assert(xs@.take(i + 1) =~= xs@.take(i as int).push(x));
        }
        i = i + 1;
    }
    proof {
        assert(xs@.take(xs@.len() as int) =~= xs@);
    }
    out
}

/// The value of the first `n` bytes of a digest, read big-endian.
pub open spec fn prefix_val(h: Seq<u8>, n: int) -> int
    decreases n,
{
    if n <= 0 {
        0
    } else {
        prefix_val(h, n - 1) * 256 + h[n - 1]
    }
}

/// The scalar that a byte string hashes to: the first eight digest bytes,
/// read big-endian, reduced modulo the group order.
pub open spec fn hash_scalar_spec(msg: Seq<u8>) -> int {
    prefix_val(sha256_of(msg), 8) % (GROUP_ORDER as int)
}

/// Deterministic hash-to-scalar: SHA-256, then reduce the leading bytes.
pub fn hash_to_scalar(msg: &Vec<u8>) -> (r: u64)
    ensures
        r == hash_scalar_spec(msg@),
        r < GROUP_ORDER,
{
    let h = sha256(msg);
    let b0: u64 = h[0] as u64;
    let b1: u64 = h[1] as u64;
    let b2: u64 = h[2] as u64;
    let b3: u64 = h[3] as u64;
    let b4: u64 = h[4] as u64;
    let b5: u64 = h[5] as u64;
    let b6: u64 = h[6] as u64;
    let b7: u64 = h[7] as u64;
    let v1: u64 = b0 * 256 + b1;
    let v2: u64 = v1 * 256 + b2;
    let v3: u64 = v2 * 256 + b3;
    let v4: u64 = v3 * 256 + b4;
    let v5: u64 = v4 * 256 + b5;
    let v6: u64 = v5 * 256 + b6;
    proof {
        assert(v6 <= 72057594037927935);
    }
    let v7: u64 = v6 * 256 + b7;
    proof {
        assert(prefix_val(h@, 0) == 0);
        assert(prefix_val(h@, 1) == b0);
        assert(prefix_val(h@, 2) == v1);
        assert(prefix_val(h@, 3) == v2);
        assert(prefix_val(h@, 4) == v3);
        assert(prefix_val(h@, 5) == v4);
        assert(prefix_val(h@, 6) == v5);
        assert(prefix_val(h@, 7) == v6);
        assert(prefix_val(h@, 8) == v7);
    }
    v7 % GROUP_ORDER
}

/// Byte-wise equality of two byte vectors.
pub fn bytes_eq(a: &Vec<u8>, b: &Vec<u8>) -> (r: bool)
    ensures
        r <==> a@ == b@,
{
    if a.len() != b.len() {
        proof {
            assert(a@.len() != b@.len());
        }
        return false;
    }
    let mut i: usize = 0;
    while i < a.len()
        invariant
            i <= a.len(),
            a@.len() == b@.len(),
            forall|j: int| 0 <= j < i ==> a@[j] == b@[j],
        decreases a.len() - i,
    {
        if a[i] != b[i] {
            return false;
        }
        i = i + 1;
    }
    proof {
        assert(a@ =~= b@);
    }
    true
}

} // verus!
