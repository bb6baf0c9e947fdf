//! Deterministic maps from bytes to field elements and group points: a
//! SHA-256 digest keys a ChaCha20 stream from which the value is sampled.
use crate::field::{scalar_from_seed, scalar_of_seed, Scalar};
use crate::group::{g1_from_seed, g1_of_seed, g2_from_seed, g2_of_seed, G1Point, G2Point};
use vstd::prelude::*;

verus! {

/// The SHA-256 digest of the bytes.
pub uninterp spec fn sha256_of(data: Seq<u8>) -> Seq<u8>;

/// Relies on `bitcoin_hashes::sha256::Hash::hash`: the 32-byte digest.
#[verifier::external_body]
pub(crate) fn sha256(data: &[u8]) -> (r: [u8; 32])
    ensures
        r@ == sha256_of(data@),
{
    let digest = <bitcoin_hashes::sha256::Hash as bitcoin_hashes::Hash>::hash(data);
    bitcoin_hashes::Hash::into_inner(digest)
}

/// Appends bytes to a transcript.
pub fn append_bytes(transcript: &mut Vec<u8>, data: &[u8])
    ensures
        final(transcript)@ == old(transcript)@ + data@,
{
    let ghost start = transcript@;
    let mut i: usize = 0;
    while i < data.len()
        invariant
            i <= data@.len(),
            transcript@ == start + data@.subrange(0, i as int),
        decreases data@.len() - i,
    {
        transcript.push(data[i]);
        assert(data@.subrange(0, i + 1) =~= data@.subrange(0, i as int).push(data@[i as int]));
        i = i + 1;
    }
    assert(data@.subrange(0, i as int) =~= data@);
}

/// The point that `map_to_g1` yields for a digest.
pub open spec fn hash_to_g1_spec(data: Seq<u8>) -> Seq<u8> {
    g1_of_seed(sha256_of(data))
}

/// The point that `map_to_g2` yields for a digest.
pub open spec fn hash_to_g2_spec(data: Seq<u8>) -> Seq<u8> {
    g2_of_seed(sha256_of(data))
}

/// Samples a field element from a 32-byte digest.
pub fn map_to_scalar(digest: &[u8; 32]) -> (r: Scalar)
    ensures
        r.wf(),
        r.value() == scalar_of_seed(digest@),
{
    scalar_from_seed(digest)
}

/// Samples a field element from the SHA-256 digest of the bytes.
pub fn hash_to_scalar(data: &[u8]) -> (r: Scalar)
    ensures
        r.wf(),
        r.value() == scalar_of_seed(sha256_of(data@)),
{
    let digest = sha256(data);
    map_to_scalar(&digest)
}

/// Samples a point of G1 from the SHA-256 digest of the bytes.
pub fn hash_to_g1(data: &[u8]) -> (r: G1Point)
    ensures
        r.wf(),
        r@ == hash_to_g1_spec(data@),
{
    let digest = sha256(data);
    g1_from_seed(&digest)
}

/// Samples a point of G2 from the SHA-256 digest of the bytes.
pub fn hash_to_g2(data: &[u8]) -> (r: G2Point)
    ensures
        r.wf(),
        r@ == hash_to_g2_spec(data@),
{
    let digest = sha256(data);
    g2_from_seed(&digest)
}

/// Maps a point of G1 to another by hashing its compressed encoding.
pub fn hash_g1_to_g1(p: &G1Point) -> (r: G1Point)
    ensures
        r.wf(),
        r@ == hash_to_g1_spec(p@),
{
    let enc = p.to_compressed();
    hash_to_g1(enc.as_slice())
}

} // verus!
