//! A trusted dealer: Shamir sharing of four secret polynomials into one
//! aggregate public key and one key share per participant.
use crate::field::{fadd, fmul, q, Scalar};
use crate::generators::{ecash_g1, ecash_g1_log, ecash_g2, ecash_g2_log};
use crate::threshold::{AggregatePublicKey, PublicKeyShare, SecretKeyShare};
use vstd::prelude::*;

verus! {

/// The value at `x` of the polynomial whose coefficients, lowest degree
/// first, are `c[k..]`.
pub open spec fn poly_eval_from(c: Seq<int>, k: int, x: int) -> int
    decreases c.len() - k,
{
    if k >= c.len() {
        0
    } else {
        fadd(fmul(poly_eval_from(c, k + 1, x), x), c[k])
    }
}

/// The value at `x` of the polynomial with coefficients `c`, lowest first.
pub open spec fn poly_eval(c: Seq<int>, x: int) -> int {
    poly_eval_from(c, 0, x)
}

/// The public key share matches the secret one: each point is the matching
/// generator scaled by the matching secret scalar.
pub open spec fn key_share_matches(pk: PublicKeyShare, sk: SecretKeyShare) -> bool {
    forall|j: int|
        0 <= j < 4 ==> (#[trigger] pk.g1@[j]).log() == fmul(sk.0@[j].value(), ecash_g1_log())
            && pk.g2@[j].log() == fmul(sk.0@[j].value(), ecash_g2_log())
}

/// Evaluates a polynomial, coefficients lowest degree first, by Horner's rule.
pub fn evaluate(coefficients: &Vec<Scalar>, x: &Scalar) -> (v: Scalar)
    requires
        forall|i: int| 0 <= i < coefficients@.len() ==> (#[trigger] coefficients@[i]).wf(),
        x.wf(),
    ensures
        v.wf(),
        v.value() == poly_eval(coefficients@.map_values(|s: Scalar| s.value()), x.value()),
{
    let ghost c = coefficients@.map_values(|s: Scalar| s.value());
    let mut acc = Scalar::from_u64(0);
    let mut k: usize = coefficients.len();
    while k > 0
        invariant
            k <= coefficients@.len(),
            c == coefficients@.map_values(|s: Scalar| s.value()),
            forall|i: int| 0 <= i < coefficients@.len() ==> (#[trigger] coefficients@[i]).wf(),
            x.wf(),
            acc.wf(),
            acc.value() == poly_eval_from(c, k as int, x.value()),
        decreases k,
    {
        k = k - 1;
        acc = acc.times(x).plus(&coefficients[k]);
    }
    acc
}

/// `degree` random coefficients: a polynomial of degree `degree - 1`.
pub fn random_polynomial(degree: usize) -> (p: Vec<Scalar>)
    ensures
        p@.len() == degree,
        forall|i: int| 0 <= i < p@.len() ==> (#[trigger] p@[i]).wf(),
{
    let mut p: Vec<Scalar> = Vec::new();
    let mut i: usize = 0;
    while i < degree
        invariant
            i <= degree,
            p@.len() == i,
            forall|k: int| 0 <= k < p@.len() ==> (#[trigger] p@[k]).wf(),
        decreases degree - i,
    {
        p.push(Scalar::random());
        i = i + 1;
    }
    p
}

impl PublicKeyShare {
    /// The public key share of a secret key share.
    pub fn from_secret(sk: &SecretKeyShare) -> (pk: PublicKeyShare)
        requires
            sk.wf(),
        ensures
            pk.wf(),
            key_share_matches(pk, *sk),
    {
        let g1 = ecash_g1();
        let g2 = ecash_g2();
        let pk = PublicKeyShare {
            g1: [g1.scale(&sk.0[0]), g1.scale(&sk.0[1]), g1.scale(&sk.0[2]), g1.scale(&sk.0[3])],
            g2: [g2.scale(&sk.0[0]), g2.scale(&sk.0[1]), g2.scale(&sk.0[2]), g2.scale(&sk.0[3])],
        };
        assert(crate::issuance::all_points_wf(pk.g1@));
        pk
    }
}

/// All coefficients of the four polynomials are canonical.
pub open spec fn polynomials_wf(polys: [Vec<Scalar>; 4]) -> bool {
    forall|j: int, i: int|
        0 <= j < 4 && 0 <= i < polys@[j]@.len() ==> (#[trigger] polys@[j]@[i]).wf()
}

/// The values of the coefficients of one of the four polynomials.
pub open spec fn poly_values(polys: [Vec<Scalar>; 4], j: int) -> Seq<int> {
    polys@[j]@.map_values(|s: Scalar| s.value())
}

/// Shares the four polynomials among `keys` participants, numbered from 1.
pub fn dealer_keygen_from_polynomials(polys: [Vec<Scalar>; 4], keys: usize) -> (out: (
    AggregatePublicKey,
    Vec<PublicKeyShare>,
    Vec<SecretKeyShare>,
))
    requires
        polynomials_wf(polys),
        keys < u64::MAX,
    ensures
        out.0.wf(),
        forall|j: int|
            0 <= j < 4 ==> (#[trigger] out.0.g1@[j]).log() == fmul(
                poly_eval(poly_values(polys, j), 0),
                ecash_g1_log(),
            ) && out.0.g2@[j].log() == fmul(poly_eval(poly_values(polys, j), 0), ecash_g2_log()),
        out.1@.len() == keys,
        out.2@.len() == keys,
        forall|i: int|
            0 <= i < keys ==> (#[trigger] out.2@[i]).wf() && out.1@[i].wf() && key_share_matches(
                out.1@[i],
                out.2@[i],
            ),
        forall|i: int, j: int|
            0 <= i < keys && 0 <= j < 4 ==> (#[trigger] out.2@[i].0@[j]).value() == poly_eval(
                poly_values(polys, j),
                i + 1,
            ),
{
    let zero = Scalar::from_u64(0);
    let g1 = ecash_g1();
    let g2 = ecash_g2();
    let a0 = evaluate(&polys[0], &zero);
    let a1 = evaluate(&polys[1], &zero);
    let a2 = evaluate(&polys[2], &zero);
    let a3 = evaluate(&polys[3], &zero);
    let apk = AggregatePublicKey {
        g1: [g1.scale(&a0), g1.scale(&a1), g1.scale(&a2), g1.scale(&a3)],
        g2: [g2.scale(&a0), g2.scale(&a1), g2.scale(&a2), g2.scale(&a3)],
    };
    assert(crate::issuance::all_points_wf(apk.g1@));
    let mut pks: Vec<PublicKeyShare> = Vec::new();
    let mut sks: Vec<SecretKeyShare> = Vec::new();
    let mut i: usize = 0;
    while i < keys
        invariant
            i <= keys,
            keys < u64::MAX,
            polynomials_wf(polys),
            pks@.len() == i,
            sks@.len() == i,
            forall|k: int|
                0 <= k < i ==> (#[trigger] sks@[k]).wf() && pks@[k].wf() && key_share_matches(
                    pks@[k],
                    sks@[k],
                ),
            forall|k: int, j: int|
                0 <= k < i && 0 <= j < 4 ==> (#[trigger] sks@[k].0@[j]).value() == poly_eval(
                    poly_values(polys, j),
                    k + 1,
                ),
        decreases keys - i,
    {
        let x = Scalar::from_u64(i as u64 + 1);
        let sk = SecretKeyShare(
            [
                evaluate(&polys[0], &x),
                evaluate(&polys[1], &x),
                evaluate(&polys[2], &x),
                evaluate(&polys[3], &x),
            ],
        );
        assert forall|j: int| 0 <= j < 4 implies (#[trigger] sk.0@[j]).value() == poly_eval(
            poly_values(polys, j),
            i + 1,
        ) by {
            if j == 0 {
            } else if j == 1 {
            } else if j == 2 {
            } else {
            }
        }
        let pk = PublicKeyShare::from_secret(&sk);
        let ghost before = sks@;
        sks.push(sk);
        pks.push(pk);
        assert(sks@[i as int] == sk);
        assert forall|k: int, j: int|
            0 <= k <= i && 0 <= j < 4 implies (#[trigger] sks@[k].0@[j]).value() == poly_eval(
            poly_values(polys, j),
            k + 1,
        ) by {
            if k == i {
                assert(sk.0@[j].value() == poly_eval(poly_values(polys, j), i + 1));
            } else {
                assert(sks@[k] == before[k]);
                assert(before[k].0@[j].value() == poly_eval(poly_values(polys, j), k + 1));
            }
        }
        i = i + 1;
    }
    (apk, pks, sks)
}

/// A trusted dealer's keys for `keys` participants, from four random
/// polynomials of `threshold` coefficients each.
pub fn dealer_keygen(threshold: usize, keys: usize) -> (out: (
    AggregatePublicKey,
    Vec<PublicKeyShare>,
    Vec<SecretKeyShare>,
))
    requires
        keys < u64::MAX,
    ensures
        out.0.wf(),
        out.1@.len() == keys,
        out.2@.len() == keys,
        forall|i: int|
            0 <= i < keys ==> (#[trigger] out.2@[i]).wf() && out.1@[i].wf() && key_share_matches(
                out.1@[i],
                out.2@[i],
            ),
        exists|c: Seq<Seq<int>>| #[trigger] dealt_from(c, threshold as int, keys as int, out),
{
    let polys = [
        random_polynomial(threshold),
        random_polynomial(threshold),
        random_polynomial(threshold),
        random_polynomial(threshold),
    ];
    let out = dealer_keygen_from_polynomials(polys, keys);
    let ghost c = Seq::new(4, |j: int| poly_values(polys, j));
    assert forall|j: int| 0 <= j < 4 implies (#[trigger] c[j]).len() == threshold && forall|k: int|
        0 <= k < threshold ==> 0 <= #[trigger] c[j][k] < q() by {
        assert forall|k: int| 0 <= k < threshold implies 0 <= #[trigger] c[j][k] < q() by {
            assert(polys@[j]@[k].wf());
        }
    }
    assert(dealt_from(c, threshold as int, keys as int, out));
    out
}

/// The keys come from four polynomials `c` of `threshold` coefficients each:
/// the aggregate key holds `c[j](0)` times each generator, and participant
/// `i` holds `c[j](i + 1)`.
pub open spec fn dealt_from(
    c: Seq<Seq<int>>,
    threshold: int,
    keys: int,
    out: (AggregatePublicKey, Vec<PublicKeyShare>, Vec<SecretKeyShare>),
) -> bool {
    &&& c.len() == 4
    &&& forall|j: int|
        0 <= j < 4 ==> (#[trigger] c[j]).len() == threshold && forall|k: int|
            0 <= k < threshold ==> 0 <= #[trigger] c[j][k] < q()
    &&& forall|j: int|
        0 <= j < 4 ==> (#[trigger] out.0.g1@[j]).log() == fmul(poly_eval(c[j], 0), ecash_g1_log())
            && out.0.g2@[j].log() == fmul(poly_eval(c[j], 0), ecash_g2_log())
    &&& forall|i: int, j: int|
        0 <= i < keys && 0 <= j < 4 ==> (#[trigger] out.2@[i].0@[j]).value() == poly_eval(
            c[j],
            i + 1,
        )
}

} // verus!
