//! SHA-256 digests.

use crate::validation;
use vstd::prelude::*;

verus! {

/// The SHA-256 digest of bytes, written in lowercase.
pub uninterp spec fn sha256(bytes: Seq<u8>) -> Seq<char>;

/// `sha2::Sha256::digest`, written with the lowercase hexadecimal format of its output: 64
/// characters that depend on the bytes alone.
#[verifier::external_body]
pub(crate) fn hexadecimal_digest(bytes: &[u8]) -> (r: String)
    ensures
        r@ == sha256(bytes@),
        validation::is_digest(r@),
{
    let digest = <sha2::Sha256 as sha2::Digest>::digest(bytes);
    format!("{:x}", digest)
}

/// Computes the lowercase SHA-256 digest of bytes.
pub fn sha256_bytes(bytes: &[u8]) -> (r: String)
    ensures
        r@ == sha256(bytes@),
        validation::is_digest(r@),
{
    hexadecimal_digest(bytes)
}

/// Computes the lowercase SHA-256 digest of two runs of bytes, one after the other.
pub fn sha256_joined(first: &Vec<u8>, second: &Vec<u8>) -> (r: String)
    ensures
        r@ == sha256(first@ + second@),
        validation::is_digest(r@),
{
    let mut joined: Vec<u8> = Vec::new();
    let mut i: usize = 0;
    while i < first.len()
        invariant
            i <= first.len(),
            joined@ == first@.take(i as int),
        decreases first.len() - i,
    {
        joined.push(first[i]);
        proof {
            assert(first@.take(i + 1) =~= first@.take(i as int).push(first@[i as int]));
        }
        i += 1;
    }
    assert(first@.take(first.len() as int) =~= first@);
    let mut k: usize = 0;
    while k < second.len()
        invariant
            k <= second.len(),
            joined@ == first@ + second@.take(k as int),
        decreases second.len() - k,
    {
        joined.push(second[k]);
        proof {
            assert(first@ + second@.take(k + 1) =~= (first@ + second@.take(k as int)).push(
                second@[k as int],
            ));
        }
        k += 1;
    }
    assert(second@.take(second.len() as int) =~= second@);
    hexadecimal_digest(joined.as_slice())
}

} // verus!
