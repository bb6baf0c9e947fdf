//! The spend proof: a Fiat-Shamir sigma protocol showing that a pair of
//! points `(p, k)` of G1 x G2 is the image of three secret scalars
//! `(m1, m2, r_p)` under a map fixed by the aggregate public key.
use crate::field::{fadd, fmul, lemma_linear_pair, scalar_of_seed, Scalar};
use crate::group::{G1Point, G2Point};
use crate::hash::{append_bytes, map_to_scalar, sha256, sha256_of};
use crate::issuance::{all_scalars_wf, compute_pc, pc_log, responses, values};
use crate::generators::{pedersen_g_log, pedersen_h_log};
use vstd::prelude::*;
use vstd::string::StringSliceAdditionalSpecFns;

verus! {

/// The discrete logarithms of a sequence of G2 points.
pub open spec fn logs2(p: Seq<G2Point>) -> Seq<int> {
    p.map_values(|e: G2Point| e.log())
}

/// Every point of the sequence is valid.
pub open spec fn all_g2_wf(p: Seq<G2Point>) -> bool {
    forall|i: int| 0 <= i < p.len() ==> (#[trigger] p[i]).wf()
}

/// The key commitment `m1 * pk[1] + m2 * pk[2]`, as a logarithm.
pub open spec fn k_log(m1: int, m2: int, pk: Seq<int>) -> int {
    fadd(fmul(m1, pk[1]), fmul(m2, pk[2]))
}

/// The domain-separation tag of the spend challenge.
pub open spec fn spend_tag() -> Seq<u8> {
    "FEDIMINT_ECASH_CHALLENGE_SPEND".spec_bytes()
}

/// The bytes hashed into the spend challenge.
pub open spec fn spend_transcript(y: (G1Point, G2Point), r: (G1Point, G2Point)) -> Seq<u8> {
    spend_tag() + y.0@ + y.1@ + r.0@ + r.1@
}

/// The spend challenge for a statement and a first message.
pub open spec fn spend_challenge(y: (G1Point, G2Point), r: (G1Point, G2Point)) -> int {
    scalar_of_seed(sha256_of(spend_transcript(y, r)))
}

/// The verification equations of the spend proof, on logarithms.
pub open spec fn spend_equations(
    yp: int,
    yk: int,
    rp: int,
    rk: int,
    s: Seq<int>,
    pk: Seq<int>,
    c: int,
) -> bool {
    &&& pc_log(s[0], s[2]) == fadd(fmul(c, yp), rp)
    &&& k_log(s[0], s[1], pk) == fadd(fmul(c, yk), rk)
}

/// Whether a spend proof `(r, s)` for the statement `y` under the key `pk` is
/// accepted.
pub open spec fn spend_accepts(
    y: (G1Point, G2Point),
    r: (G1Point, G2Point),
    s: Seq<Scalar>,
    pk: Seq<G2Point>,
) -> bool {
    spend_equations(
        y.0.log(),
        y.1.log(),
        r.0.log(),
        r.1.log(),
        values(s),
        logs2(pk),
        spend_challenge(y, r),
    )
}

/// The key commitment `m1 * pk[1] + m2 * pk[2]`.
pub fn compute_k(m_1: Scalar, m_2: Scalar, pk: [G2Point; 4]) -> (k: G2Point)
    requires
        m_1.wf(),
        m_2.wf(),
        all_g2_wf(pk@),
    ensures
        k.wf(),
        k.log() == k_log(m_1.value(), m_2.value(), logs2(pk@)),
{
    pk[1].scale(&m_1).plus(&pk[2].scale(&m_2))
}

/// The spend map: `(pc(m1, r_p), m1 * pk[1] + m2 * pk[2])`.
pub fn spend_homomorphism(x: [Scalar; 3], pk: [G2Point; 4]) -> (y: (G1Point, G2Point))
    requires
        all_scalars_wf(x@),
        all_g2_wf(pk@),
    ensures
        y.0.wf(),
        y.1.wf(),
        y.0.log() == pc_log(values(x@)[0], values(x@)[2]),
        y.1.log() == k_log(values(x@)[0], values(x@)[1], logs2(pk@)),
{
    let p = compute_pc(x[0], x[2]);
    let k = compute_k(x[0], x[1], pk);
    (p, k)
}

/// The Fiat-Shamir challenge of the spend proof.
pub fn get_challenge_spend(y: (G1Point, G2Point), r: (G1Point, G2Point)) -> (c: Scalar)
    ensures
        c.wf(),
        c.value() == spend_challenge(y, r),
{
    let mut transcript: Vec<u8> = Vec::new();
    append_bytes(&mut transcript, "FEDIMINT_ECASH_CHALLENGE_SPEND".as_bytes());
    append_bytes(&mut transcript, y.0.to_compressed().as_slice());
    append_bytes(&mut transcript, y.1.to_compressed().as_slice());
    append_bytes(&mut transcript, r.0.to_compressed().as_slice());
    append_bytes(&mut transcript, r.1.to_compressed().as_slice());
    assert(transcript@ =~= spend_transcript(y, r));
    let digest = sha256(transcript.as_slice());
    map_to_scalar(&digest)
}

/// Checks a spend proof `(r, s)` for the statement `y` under the key `pk`.
pub fn verify_spend(
    y: (G1Point, G2Point),
    r: (G1Point, G2Point),
    s: [Scalar; 3],
    pk: [G2Point; 4],
) -> (b: bool)
    requires
        y.0.wf(),
        y.1.wf(),
        r.0.wf(),
        r.1.wf(),
        all_scalars_wf(s@),
        all_g2_wf(pk@),
    ensures
        b == spend_accepts(y, r, s@, pk@),
{
    let c = get_challenge_spend(y, r);
    let lhs = spend_homomorphism(s, pk);
    let rhs_p = y.0.scale(&c).plus(&r.0);
    let rhs_k = y.1.scale(&c).plus(&r.1);
    lhs.0.equals(&rhs_p) && lhs.1.equals(&rhs_k)
}

/// Every honestly computed spend proof satisfies the verification equations.
pub proof fn lemma_spend_complete(x: Seq<int>, k: Seq<int>, pk: Seq<int>, c: int)
    requires
        x.len() == 3,
        k.len() == 3,
        pk.len() == 4,
    ensures
        spend_equations(
            pc_log(x[0], x[2]),
            k_log(x[0], x[1], pk),
            pc_log(k[0], k[2]),
            k_log(k[0], k[1], pk),
            responses(k, c, x),
            pk,
            c,
        ),
{
    lemma_linear_pair(c, k[0], x[0], pedersen_g_log(), k[2], x[2], pedersen_h_log());
    lemma_linear_pair(c, k[0], x[0], pk[1], k[1], x[1], pk[2]);
}

/// Proves knowledge of the witness `x` of the statement `y` under the key
/// `pk`, with the nonces `k` as the prover's randomness.
pub fn prove_spend_with_nonces(
    y: (G1Point, G2Point),
    x: [Scalar; 3],
    pk: [G2Point; 4],
    k: [Scalar; 3],
) -> (proof: ((G1Point, G2Point), [Scalar; 3]))
    requires
        y.0.wf(),
        y.1.wf(),
        all_scalars_wf(x@),
        all_scalars_wf(k@),
        all_g2_wf(pk@),
    ensures
        proof.0.0.wf(),
        proof.0.1.wf(),
        all_scalars_wf(proof.1@),
        proof.0.0.log() == pc_log(values(k@)[0], values(k@)[2]),
        proof.0.1.log() == k_log(values(k@)[0], values(k@)[1], logs2(pk@)),
        values(proof.1@) == responses(values(k@), spend_challenge(y, proof.0), values(x@)),
        y.0.log() == pc_log(values(x@)[0], values(x@)[2]) && y.1.log() == k_log(
            values(x@)[0],
            values(x@)[1],
            logs2(pk@),
        ) ==> spend_accepts(y, proof.0, proof.1@, pk@),
{
    let r_proof = spend_homomorphism(k, pk);
    let c = get_challenge_spend(y, r_proof);
    let s = [
        k[0].plus(&c.times(&x[0])),
        k[1].plus(&c.times(&x[1])),
        k[2].plus(&c.times(&x[2])),
    ];
    assert(values(s@) =~= responses(values(k@), c.value(), values(x@)));
    proof {
        lemma_spend_complete(values(x@), values(k@), logs2(pk@), c.value());
    }
    (r_proof, s)
}

/// Proves knowledge of the witness `x` of the statement `y` under the key
/// `pk`, with fresh random nonces.
pub fn prove_spend(y: (G1Point, G2Point), x: [Scalar; 3], pk: [G2Point; 4]) -> (proof: (
    (G1Point, G2Point),
    [Scalar; 3],
))
    requires
        y.0.wf(),
        y.1.wf(),
        all_scalars_wf(x@),
        all_g2_wf(pk@),
    ensures
        proof.0.0.wf(),
        proof.0.1.wf(),
        all_scalars_wf(proof.1@),
        y.0.log() == pc_log(values(x@)[0], values(x@)[2]) && y.1.log() == k_log(
            values(x@)[0],
            values(x@)[1],
            logs2(pk@),
        ) ==> spend_accepts(y, proof.0, proof.1@, pk@),
        exists|k: Seq<Scalar>|
            k.len() == 3 && all_scalars_wf(k) && proof.0.0.log() == pc_log(values(k)[0], values(k)[2])
                && proof.0.1.log() == k_log(values(k)[0], values(k)[1], logs2(pk@))
                && #[trigger] values(proof.1@) == responses(
                values(k),
                spend_challenge(y, proof.0),
                values(x@),
            ),
{
    let k = [Scalar::random(), Scalar::random(), Scalar::random()];
    let proof = prove_spend_with_nonces(y, x, pk, k);
    assert(k@.len() == 3 && all_scalars_wf(k@));
    proof
}

/// Commits to `(m1, m2, r_p)` under the key `pk` and proves knowledge of
/// them: returns the statement `y` and the proof `(r, s)`.
pub fn prepare_spend(m_1: Scalar, m_2: Scalar, r_p: Scalar, pk: [G2Point; 4]) -> (out: (
    (G1Point, G2Point),
    (G1Point, G2Point),
    [Scalar; 3],
))
    requires
        m_1.wf(),
        m_2.wf(),
        r_p.wf(),
        all_g2_wf(pk@),
    ensures
        out.0.0.wf(),
        out.0.1.wf(),
        out.1.0.wf(),
        out.1.1.wf(),
        all_scalars_wf(out.2@),
        out.0.0.log() == pc_log(m_1.value(), r_p.value()),
        out.0.1.log() == k_log(m_1.value(), m_2.value(), logs2(pk@)),
        spend_accepts(out.0, out.1, out.2@, pk@),
{
    let x = [m_1, m_2, r_p];
    let y = spend_homomorphism(x, pk);
    let (r, s) = prove_spend(y, x, pk);
    (y, r, s)
}

} // verus!
