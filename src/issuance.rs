//! The issuance proof: a Fiat-Shamir sigma protocol showing that five public
//! points of G1 are the image of eight secret scalars under a fixed linear map.
use crate::field::{fadd, fmul, lemma_linear_pair, lemma_sum_of_responses, lemma_scaled_response, Scalar};
use crate::generators::{
    ecash_g1,
    ecash_g1_log,
    ecash_h1,
    ecash_h1_log,
    ecash_h2,
    ecash_h2_log,
    ecash_h3,
    ecash_h3_log,
    pedersen_g,
    pedersen_g_log,
    pedersen_h,
    pedersen_h_log,
};
use crate::group::{g1_log, lemma_g1_view_eq, G1Point};
use crate::hash::{append_bytes, hash_g1_to_g1, hash_to_g1_spec, map_to_scalar, sha256, sha256_of};
use crate::field::scalar_of_seed;
use vstd::prelude::*;
use vstd::string::StringSliceAdditionalSpecFns;

verus! {

/// The values of a sequence of scalars.
pub open spec fn values(s: Seq<Scalar>) -> Seq<int> {
    s.map_values(|e: Scalar| e.value())
}

/// Every scalar of the sequence is canonical.
pub open spec fn all_scalars_wf(s: Seq<Scalar>) -> bool {
    forall|i: int| 0 <= i < s.len() ==> (#[trigger] s[i]).wf()
}

/// The discrete logarithms of a sequence of G1 points.
pub open spec fn logs(p: Seq<G1Point>) -> Seq<int> {
    p.map_values(|e: G1Point| e.log())
}

/// Every point of the sequence is valid.
pub open spec fn all_points_wf(p: Seq<G1Point>) -> bool {
    forall|i: int| 0 <= i < p.len() ==> (#[trigger] p[i]).wf()
}

/// The Pedersen commitment `m * g + r * h`, as a logarithm.
pub open spec fn pc_log(m: int, r: int) -> int {
    fadd(fmul(m, pedersen_g_log()), fmul(r, pedersen_h_log()))
}

/// The message commitment `m1 * h1 + m2 * h2 + m3 * h3 + r * g1`, as a logarithm.
pub open spec fn c_m_log(m1: int, m2: int, m3: int, r: int) -> int {
    fadd(
        fadd(fadd(fmul(m1, ecash_h1_log()), fmul(m2, ecash_h2_log())), fmul(m3, ecash_h3_log())),
        fmul(r, ecash_g1_log()),
    )
}

/// The per-message commitment `m * h + r * g1`, as a logarithm.
pub open spec fn c_k_log(m: int, r: int, h: int) -> int {
    fadd(fmul(m, h), fmul(r, ecash_g1_log()))
}

/// The image of the witness `(m1, m2, m3, r_p, r_m, r1, r2, r3)` under the
/// issuance map for the per-run base `h`, as logarithms.
pub open spec fn issuance_image(x: Seq<int>, h: int) -> Seq<int> {
    seq![
        pc_log(x[0], x[3]),
        c_m_log(x[0], x[1], x[2], x[4]),
        c_k_log(x[0], x[5], h),
        c_k_log(x[1], x[6], h),
        c_k_log(x[2], x[7], h),
    ]
}

/// The responses `k[i] + c * x[i]` of a sigma protocol.
pub open spec fn responses(k: Seq<int>, c: int, x: Seq<int>) -> Seq<int> {
    Seq::new(k.len(), |i: int| fadd(k[i], fmul(c, x[i])))
}

/// The compressed encodings of the points, one after the other.
pub open spec fn encodings(p: Seq<G1Point>) -> Seq<u8>
    decreases p.len(),
{
    if p.len() == 0 {
        Seq::empty()
    } else {
        encodings(p.drop_last()) + p.last()@
    }
}

/// The domain-separation tag of the issuance challenge.
pub open spec fn issuance_tag() -> Seq<u8> {
    "FEDIMINT_ECASH_CHALLENGE_ISSUANCE".spec_bytes()
}

/// The bytes hashed into the issuance challenge.
pub open spec fn issuance_transcript(y: Seq<G1Point>, r: Seq<G1Point>) -> Seq<u8> {
    issuance_tag() + encodings(y) + encodings(r)
}

/// The issuance challenge for a statement and a first message.
pub open spec fn issuance_challenge(y: Seq<G1Point>, r: Seq<G1Point>) -> int {
    scalar_of_seed(sha256_of(issuance_transcript(y, r)))
}

/// The per-run base that a statement pins down: the hash of its second point.
pub open spec fn issuance_base(y: Seq<G1Point>) -> int {
    g1_log(hash_to_g1_spec(y[1]@))
}

/// The verification equations of the issuance proof, on logarithms.
pub open spec fn issuance_equations(y: Seq<int>, r: Seq<int>, s: Seq<int>, h: int, c: int) -> bool {
    forall|i: int| 0 <= i < 5 ==> issuance_image(s, h)[i] == fadd(fmul(c, y[i]), r[i])
}

/// Whether an issuance proof `(r, s)` for the statement `y` is accepted.
pub open spec fn issuance_accepts(y: Seq<G1Point>, r: Seq<G1Point>, s: Seq<Scalar>) -> bool {
    issuance_equations(logs(y), logs(r), values(s), issuance_base(y), issuance_challenge(y, r))
}

/// The Pedersen commitment `m * g + r * h`.
pub fn compute_pc(m: Scalar, r: Scalar) -> (p: G1Point)
    requires
        m.wf(),
        r.wf(),
    ensures
        p.wf(),
        p.log() == pc_log(m.value(), r.value()),
{
    pedersen_g().scale(&m).plus(&pedersen_h().scale(&r))
}

/// The commitment `m1 * h1 + m2 * h2 + m3 * h3 + r_m * g1` to the three messages.
pub fn compute_c_m(m_1: Scalar, m_2: Scalar, m_3: Scalar, r_m: Scalar) -> (p: G1Point)
    requires
        m_1.wf(),
        m_2.wf(),
        m_3.wf(),
        r_m.wf(),
    ensures
        p.wf(),
        p.log() == c_m_log(m_1.value(), m_2.value(), m_3.value(), r_m.value()),
{
    let a = ecash_h1().scale(&m_1);
    let b = ecash_h2().scale(&m_2);
    let c = ecash_h3().scale(&m_3);
    let d = ecash_g1().scale(&r_m);
    a.plus(&b).plus(&c).plus(&d)
}

/// The commitment `m * h + r * g1` to one message under the base `h`.
pub fn compute_c_k(m: Scalar, r: Scalar, h: G1Point) -> (p: G1Point)
    requires
        m.wf(),
        r.wf(),
        h.wf(),
    ensures
        p.wf(),
        p.log() == c_k_log(m.value(), r.value(), h.log()),
{
    h.scale(&m).plus(&ecash_g1().scale(&r))
}

/// The issuance map: `(pc, c_m, c_1, c_2, c_3)` for the witness `x`.
pub fn issuance_homomorphism(x: [Scalar; 8], h: G1Point) -> (r: [G1Point; 5])
    requires
        all_scalars_wf(x@),
        h.wf(),
    ensures
        all_points_wf(r@),
        logs(r@) == issuance_image(values(x@), h.log()),
{
    let pc = compute_pc(x[0], x[3]);
    let c_m = compute_c_m(x[0], x[1], x[2], x[4]);
    let c_1 = compute_c_k(x[0], x[5], h);
    let c_2 = compute_c_k(x[1], x[6], h);
    let c_3 = compute_c_k(x[2], x[7], h);
    let r = [pc, c_m, c_1, c_2, c_3];
    assert(logs(r@) =~= issuance_image(values(x@), h.log()));
    r
}

/// Appends the encodings of the points to a transcript.
pub fn append_points(transcript: &mut Vec<u8>, points: &[G1Point; 5])
    ensures
        final(transcript)@ == old(transcript)@ + encodings(points@),
{
    let ghost start = transcript@;
    let mut i: usize = 0;
    while i < 5
        invariant
            i <= 5,
            transcript@ == start + encodings(points@.subrange(0, i as int)),
        decreases 5 - i,
    {
        let enc = points[i].to_compressed();
        append_bytes(transcript, enc.as_slice());
        let ghost next = points@.subrange(0, i + 1);
        assert(next.drop_last() =~= points@.subrange(0, i as int));
        assert(next.last() == points@[i as int]);
        assert(transcript@ =~= start + encodings(next));
        i = i + 1;
    }
    assert(points@.subrange(0, 5) =~= points@);
}

/// The Fiat-Shamir challenge of the issuance proof.
pub fn get_challenge_issuance(y: &[G1Point; 5], r: &[G1Point; 5]) -> (c: Scalar)
    ensures
        c.wf(),
        c.value() == issuance_challenge(y@, r@),
{
    let mut transcript: Vec<u8> = Vec::new();
    append_bytes(&mut transcript, "FEDIMINT_ECASH_CHALLENGE_ISSUANCE".as_bytes());
    append_points(&mut transcript, y);
    append_points(&mut transcript, r);
    assert(transcript@ =~= issuance_transcript(y@, r@));
    let digest = sha256(transcript.as_slice());
    map_to_scalar(&digest)
}

/// Checks an issuance proof `(r, s)` for the statement `y`.
pub fn verify_issuance(y: [G1Point; 5], r: [G1Point; 5], s: [Scalar; 8]) -> (b: bool)
    requires
        all_points_wf(y@),
        all_points_wf(r@),
        all_scalars_wf(s@),
    ensures
        b == issuance_accepts(y@, r@, s@),
{
    let h = hash_g1_to_g1(&y[1]);
    let c = get_challenge_issuance(&y, &r);
    let lhs = issuance_homomorphism(s, h);
    let mut i: usize = 0;
    while i < 5
        invariant
            i <= 5,
            all_points_wf(y@),
            all_points_wf(r@),
            all_points_wf(lhs@),
            c.wf(),
            c.value() == issuance_challenge(y@, r@),
            h.log() == issuance_base(y@),
            logs(lhs@) == issuance_image(values(s@), h.log()),
            forall|j: int|
                0 <= j < i ==> logs(lhs@)[j] == fadd(fmul(c.value(), logs(y@)[j]), logs(r@)[j]),
        decreases 5 - i,
    {
        let rhs = y[i].scale(&c).plus(&r[i]);
        if !lhs[i].equals(&rhs) {
            return false;
        }
        i = i + 1;
    }
    true
}

/// Every honestly computed issuance proof satisfies the verification
/// equations: with `y` and `r` the images of the witness `x` and the nonces
/// `k`, the responses `k + c * x` pass for every challenge `c`.
pub proof fn lemma_issuance_complete(x: Seq<int>, k: Seq<int>, h: int, c: int)
    requires
        x.len() == 8,
        k.len() == 8,
    ensures
        issuance_equations(issuance_image(x, h), issuance_image(k, h), responses(k, c, x), h, c),
{
    let g = pedersen_g_log();
    let gh = pedersen_h_log();
    let g1 = ecash_g1_log();
    let h1 = ecash_h1_log();
    let h2 = ecash_h2_log();
    let h3 = ecash_h3_log();
    lemma_linear_pair(c, k[0], x[0], g, k[3], x[3], gh);
    lemma_linear_pair(c, k[0], x[0], h, k[5], x[5], g1);
    lemma_linear_pair(c, k[1], x[1], h, k[6], x[6], g1);
    lemma_linear_pair(c, k[2], x[2], h, k[7], x[7], g1);
    lemma_linear_pair(c, k[0], x[0], h1, k[1], x[1], h2);
    let x12 = fadd(fmul(x[0], h1), fmul(x[1], h2));
    let k12 = fadd(fmul(k[0], h1), fmul(k[1], h2));
    lemma_scaled_response(k[2], c, x[2], h3);
    lemma_sum_of_responses(c, x12, k12, fmul(x[2], h3), fmul(k[2], h3));
    let x123 = fadd(x12, fmul(x[2], h3));
    let k123 = fadd(k12, fmul(k[2], h3));
    lemma_scaled_response(k[4], c, x[4], g1);
    lemma_sum_of_responses(c, x123, k123, fmul(x[4], g1), fmul(k[4], g1));
    let s = responses(k, c, x);
    let lhs = issuance_image(s, h);
    let rhs_y = issuance_image(x, h);
    let rhs_r = issuance_image(k, h);
    assert(lhs[0] == fadd(fmul(c, rhs_y[0]), rhs_r[0]));
    assert(lhs[1] == fadd(fmul(c, rhs_y[1]), rhs_r[1]));
    assert(lhs[2] == fadd(fmul(c, rhs_y[2]), rhs_r[2]));
    assert(lhs[3] == fadd(fmul(c, rhs_y[3]), rhs_r[3]));
    assert(lhs[4] == fadd(fmul(c, rhs_y[4]), rhs_r[4]));
}

/// Proves knowledge of the witness `x` of the statement `y`, with the nonces
/// `k` as the prover's randomness.
pub fn prove_issuance_with_nonces(
    y: [G1Point; 5],
    x: [Scalar; 8],
    h: G1Point,
    k: [Scalar; 8],
) -> (proof: ([G1Point; 5], [Scalar; 8]))
    requires
        all_points_wf(y@),
        all_scalars_wf(x@),
        all_scalars_wf(k@),
        h.wf(),
    ensures
        all_points_wf(proof.0@),
        all_scalars_wf(proof.1@),
        logs(proof.0@) == issuance_image(values(k@), h.log()),
        values(proof.1@) == responses(values(k@), issuance_challenge(y@, proof.0@), values(x@)),
        logs(y@) == issuance_image(values(x@), h.log()) && h.log() == issuance_base(y@)
            ==> issuance_accepts(y@, proof.0@, proof.1@),
{
    let r_proof = issuance_homomorphism(k, h);
    let c = get_challenge_issuance(&y, &r_proof);
    let s = [
        k[0].plus(&c.times(&x[0])),
        k[1].plus(&c.times(&x[1])),
        k[2].plus(&c.times(&x[2])),
        k[3].plus(&c.times(&x[3])),
        k[4].plus(&c.times(&x[4])),
        k[5].plus(&c.times(&x[5])),
        k[6].plus(&c.times(&x[6])),
        k[7].plus(&c.times(&x[7])),
    ];
    assert(values(s@) =~= responses(values(k@), c.value(), values(x@)));
    proof {
        lemma_issuance_complete(values(x@), values(k@), h.log(), c.value());
    }
    (r_proof, s)
}

/// Two provers given the same statement, base and nonces send the same
/// first message, and so hash the same transcript into the same challenge.
pub proof fn lemma_issuance_challenge_deterministic(
    y: Seq<G1Point>,
    h: int,
    k: Seq<int>,
    r1: Seq<G1Point>,
    r2: Seq<G1Point>,
)
    requires
        r1.len() == 5,
        r2.len() == 5,
        all_points_wf(r1),
        all_points_wf(r2),
        logs(r1) == issuance_image(k, h),
        logs(r2) == issuance_image(k, h),
    ensures
        r1 == r2,
        issuance_transcript(y, r1) == issuance_transcript(y, r2),
        issuance_challenge(y, r1) == issuance_challenge(y, r2),
{
    assert forall|i: int| 0 <= i < 5 implies r1[i] == r2[i] by {
        assert(logs(r1)[i] == r1[i].log() && logs(r2)[i] == r2[i].log());
        assert(r1[i].wf() && r2[i].wf());
        lemma_g1_view_eq(r1[i], r2[i]);
    }
    assert(r1 =~= r2);
}

/// Proves knowledge of the witness `x` of the statement `y`, with fresh
/// random nonces.
pub fn prove_issuance(y: [G1Point; 5], x: [Scalar; 8], h: G1Point) -> (proof: (
    [G1Point; 5],
    [Scalar; 8],
))
    requires
        all_points_wf(y@),
        all_scalars_wf(x@),
        h.wf(),
    ensures
        all_points_wf(proof.0@),
        all_scalars_wf(proof.1@),
        logs(y@) == issuance_image(values(x@), h.log()) && h.log() == issuance_base(y@)
            ==> issuance_accepts(y@, proof.0@, proof.1@),
        exists|k: Seq<Scalar>|
            k.len() == 8 && all_scalars_wf(k) && logs(proof.0@) == issuance_image(
                values(k),
                h.log(),
            ) && #[trigger] values(proof.1@) == responses(
                values(k),
                issuance_challenge(y@, proof.0@),
                values(x@),
            ),
{
    let k = [
        Scalar::random(),
        Scalar::random(),
        Scalar::random(),
        Scalar::random(),
        Scalar::random(),
        Scalar::random(),
        Scalar::random(),
        Scalar::random(),
    ];
    let proof = prove_issuance_with_nonces(y, x, h, k);
    assert(k@.len() == 8 && all_scalars_wf(k@));
    proof
}

/// Commits to the witness `(m1, m2, m3, r_p, r_m, r1, r2, r3)` and proves
/// knowledge of it: returns the statement `y` and the proof `(r, s)`.
pub fn prepare_issuance(
    m_1: Scalar,
    m_2: Scalar,
    m_3: Scalar,
    r_p: Scalar,
    r_m: Scalar,
    r_1: Scalar,
    r_2: Scalar,
    r_3: Scalar,
) -> (out: ([G1Point; 5], [G1Point; 5], [Scalar; 8]))
    requires
        m_1.wf(),
        m_2.wf(),
        m_3.wf(),
        r_p.wf(),
        r_m.wf(),
        r_1.wf(),
        r_2.wf(),
        r_3.wf(),
    ensures
        all_points_wf(out.0@),
        all_points_wf(out.1@),
        all_scalars_wf(out.2@),
        logs(out.0@) == issuance_image(
            seq![
                m_1.value(),
                m_2.value(),
                m_3.value(),
                r_p.value(),
                r_m.value(),
                r_1.value(),
                r_2.value(),
                r_3.value(),
            ],
            issuance_base(out.0@),
        ),
        issuance_accepts(out.0@, out.1@, out.2@),
{
    let pc = compute_pc(m_1, r_p);
    let c_m = compute_c_m(m_1, m_2, m_3, r_m);
    let h = hash_g1_to_g1(&c_m);
    let c_1 = compute_c_k(m_1, r_1, h);
    let c_2 = compute_c_k(m_2, r_2, h);
    let c_3 = compute_c_k(m_3, r_3, h);
    let y = [pc, c_m, c_1, c_2, c_3];
    let x = [m_1, m_2, m_3, r_p, r_m, r_1, r_2, r_3];
    assert(values(x@) =~= seq![
        m_1.value(),
        m_2.value(),
        m_3.value(),
        r_p.value(),
        r_m.value(),
        r_1.value(),
        r_2.value(),
        r_3.value(),
    ]);
    assert(logs(y@) =~= issuance_image(values(x@), h.log()));
    let (r, s) = prove_issuance(y, x, h);
    (y, r, s)
}

} // verus!
