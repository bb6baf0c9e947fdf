//! The source groups G1 and G2 of BLS12-381 and the pairing between them.
//!
//! A point is held as its canonical compressed encoding. Both groups are
//! cyclic of prime order `q`, so a point is modelled by its discrete
//! logarithm with respect to the curve's standard generator: an integer in
//! `[0, q)`. The group law, scalar multiplication, equality and the pairing
//! are all stated through that logarithm.
use crate::field::{fadd, fmul, fsub, q, Scalar};
use vstd::prelude::*;

verus! {

/// Whether `bls12_381::G1Affine::from_compressed` accepts the bytes.
pub uninterp spec fn g1_valid(enc: Seq<u8>) -> bool;

/// The discrete logarithm, base `G1Affine::generator()`, of the G1 point that
/// the bytes encode.
pub uninterp spec fn g1_log(enc: Seq<u8>) -> int;

/// The compressed encoding that `G1Affine::to_compressed` gives the point
/// `k * G1Affine::generator()`.
pub uninterp spec fn g1_enc(k: int) -> Seq<u8>;

/// Whether `bls12_381::G2Affine::from_compressed` accepts the bytes.
pub uninterp spec fn g2_valid(enc: Seq<u8>) -> bool;

/// The discrete logarithm, base `G2Affine::generator()`, of the G2 point that
/// the bytes encode.
pub uninterp spec fn g2_log(enc: Seq<u8>) -> int;

/// The compressed encoding that `G2Affine::to_compressed` gives the point
/// `k * G2Affine::generator()`.
pub uninterp spec fn g2_enc(k: int) -> Seq<u8>;

/// A point of G1, held as its 48-byte compressed encoding.
#[derive(Clone, Copy)]
pub struct G1Point {
    enc: [u8; 48],
}

/// A point of G2, held as its 96-byte compressed encoding.
#[derive(Clone, Copy)]
pub struct G2Point {
    enc: [u8; 96],
}

impl View for G1Point {
    type V = Seq<u8>;

    closed spec fn view(&self) -> Seq<u8> {
        self.enc@
    }
}

impl View for G2Point {
    type V = Seq<u8>;

    closed spec fn view(&self) -> Seq<u8> {
        self.enc@
    }
}

impl G1Point {
    /// The discrete logarithm of the point.
    pub open spec fn log(&self) -> int {
        g1_log(self@)
    }

    /// The encoding is the canonical one of a point of the prime-order
    /// subgroup.
    pub open spec fn wf(&self) -> bool {
        g1_valid(self@) && 0 <= self.log() < q() && self@ == g1_enc(self.log())
    }

    /// Relies on `G1Affine::from_compressed`: it accepts the canonical
    /// encodings of the points of G1.
    #[verifier::external_body]
    pub fn from_compressed(bytes: [u8; 48]) -> (r: Option<G1Point>)
        ensures
            r.is_some() == g1_valid(bytes@),
            r matches Some(p) ==> p@ == bytes@ && 0 <= g1_log(p@) < q() && p@ == g1_enc(
                g1_log(p@),
            ),
    {
        if bool::from(bls12_381::G1Affine::from_compressed(&bytes).is_some()) {
            Some(G1Point { enc: bytes })
        } else {
            None
        }
    }

    /// The compressed encoding.
    pub fn to_compressed(&self) -> (r: [u8; 48])
        ensures
            r@ == self@,
    {
        self.enc
    }

    /// Relies on `Add for G1Projective`: the group law.
    #[verifier::external_body]
    pub(crate) fn plus(&self, o: &G1Point) -> (r: G1Point)
        requires
            self.wf(),
            o.wf(),
        ensures
            r.wf(),
            r.log() == fadd(self.log(), o.log()),
    {
        let a = bls12_381::G1Projective::from(bls12_381::G1Affine::from_compressed(&self.enc).unwrap());
        let b = bls12_381::G1Affine::from_compressed(&o.enc).unwrap();
        G1Point { enc: bls12_381::G1Affine::from(a + b).to_compressed() }
    }

    /// Relies on `Sub for G1Projective`: the group law with an inverse.
    #[verifier::external_body]
    pub(crate) fn minus(&self, o: &G1Point) -> (r: G1Point)
        requires
            self.wf(),
            o.wf(),
        ensures
            r.wf(),
            r.log() == fsub(self.log(), o.log()),
    {
        let a = bls12_381::G1Projective::from(bls12_381::G1Affine::from_compressed(&self.enc).unwrap());
        let b = bls12_381::G1Affine::from_compressed(&o.enc).unwrap();
        G1Point { enc: bls12_381::G1Affine::from(a - b).to_compressed() }
    }

    /// Relies on `Mul<Scalar> for G1Projective`: scalar multiplication.
    #[verifier::external_body]
    pub(crate) fn scale(&self, s: &Scalar) -> (r: G1Point)
        requires
            self.wf(),
            s.wf(),
        ensures
            r.wf(),
            r.log() == fmul(s.value(), self.log()),
    {
        let a = bls12_381::G1Projective::from(bls12_381::G1Affine::from_compressed(&self.enc).unwrap());
        let k = bls12_381::Scalar::from_bytes(&s.to_bytes()).unwrap();
        G1Point { enc: bls12_381::G1Affine::from(a * k).to_compressed() }
    }

    /// Relies on `PartialEq for G1Affine`: equality of points.
    #[verifier::external_body]
    pub(crate) fn equals(&self, o: &G1Point) -> (r: bool)
        requires
            self.wf(),
            o.wf(),
        ensures
            r == (self.log() == o.log()),
    {
        let a = bls12_381::G1Affine::from_compressed(&self.enc).unwrap();
        let b = bls12_381::G1Affine::from_compressed(&o.enc).unwrap();
        a == b
    }
}

/// Points with equal encodings are equal.
pub proof fn lemma_g1_view_eq(a: G1Point, b: G1Point)
    requires
        a@ == b@,
    ensures
        a == b,
{
    assert(a.enc@ == b.enc@);
    assert(a.enc == b.enc);
}

impl G2Point {
    /// The discrete logarithm of the point.
    pub open spec fn log(&self) -> int {
        g2_log(self@)
    }

    /// The encoding is the canonical one of a point of the prime-order
    /// subgroup.
    pub open spec fn wf(&self) -> bool {
        g2_valid(self@) && 0 <= self.log() < q() && self@ == g2_enc(self.log())
    }

    /// Relies on `G2Affine::from_compressed`: it accepts the canonical
    /// encodings of the points of G2.
    #[verifier::external_body]
    pub fn from_compressed(bytes: [u8; 96]) -> (r: Option<G2Point>)
        ensures
            r.is_some() == g2_valid(bytes@),
            r matches Some(p) ==> p@ == bytes@ && 0 <= g2_log(p@) < q() && p@ == g2_enc(
                g2_log(p@),
            ),
    {
        if bool::from(bls12_381::G2Affine::from_compressed(&bytes).is_some()) {
            Some(G2Point { enc: bytes })
        } else {
            None
        }
    }

    /// The compressed encoding.
    pub fn to_compressed(&self) -> (r: [u8; 96])
        ensures
            r@ == self@,
    {
        self.enc
    }

    /// Relies on `Add for G2Projective`: the group law.
    #[verifier::external_body]
    pub(crate) fn plus(&self, o: &G2Point) -> (r: G2Point)
        requires
            self.wf(),
            o.wf(),
        ensures
            r.wf(),
            r.log() == fadd(self.log(), o.log()),
    {
        let a = bls12_381::G2Projective::from(bls12_381::G2Affine::from_compressed(&self.enc).unwrap());
        let b = bls12_381::G2Affine::from_compressed(&o.enc).unwrap();
        G2Point { enc: bls12_381::G2Affine::from(a + b).to_compressed() }
    }

    /// Relies on `Mul<Scalar> for G2Projective`: scalar multiplication.
    #[verifier::external_body]
    pub(crate) fn scale(&self, s: &Scalar) -> (r: G2Point)
        requires
            self.wf(),
            s.wf(),
        ensures
            r.wf(),
            r.log() == fmul(s.value(), self.log()),
    {
        let a = bls12_381::G2Projective::from(bls12_381::G2Affine::from_compressed(&self.enc).unwrap());
        let k = bls12_381::Scalar::from_bytes(&s.to_bytes()).unwrap();
        G2Point { enc: bls12_381::G2Affine::from(a * k).to_compressed() }
    }

    /// Relies on `PartialEq for G2Affine`: equality of points.
    #[verifier::external_body]
    pub(crate) fn equals(&self, o: &G2Point) -> (r: bool)
        requires
            self.wf(),
            o.wf(),
        ensures
            r == (self.log() == o.log()),
    {
        let a = bls12_381::G2Affine::from_compressed(&self.enc).unwrap();
        let b = bls12_381::G2Affine::from_compressed(&o.enc).unwrap();
        a == b
    }
}

/// The encoding of the G1 point that `group::Group::random` draws for
/// `G1Projective` from a ChaCha20 stream keyed by the seed.
pub uninterp spec fn g1_of_seed(seed: Seq<u8>) -> Seq<u8>;

/// The encoding of the G2 point that `group::Group::random` draws for
/// `G2Projective` from a ChaCha20 stream keyed by the seed.
pub uninterp spec fn g2_of_seed(seed: Seq<u8>) -> Seq<u8>;

/// Relies on `group::Group::random` for `G1Projective` over
/// `rand_chacha::ChaChaRng::from_seed`: a deterministic point of the group.
#[verifier::external_body]
pub(crate) fn g1_from_seed(seed: &[u8; 32]) -> (r: G1Point)
    ensures
        r@ == g1_of_seed(seed@),
        g1_valid(r@),
        0 <= g1_log(r@) < q(),
        r@ == g1_enc(g1_log(r@)),
{
    let mut rng = <rand_chacha::ChaChaRng as rand::SeedableRng>::from_seed(*seed);
    let p = <bls12_381::G1Projective as group::Group>::random(&mut rng);
    G1Point { enc: bls12_381::G1Affine::from(p).to_compressed() }
}

/// Relies on `group::Group::random` for `G2Projective` over
/// `rand_chacha::ChaChaRng::from_seed`: a deterministic point of the group.
#[verifier::external_body]
pub(crate) fn g2_from_seed(seed: &[u8; 32]) -> (r: G2Point)
    ensures
        r@ == g2_of_seed(seed@),
        g2_valid(r@),
        0 <= g2_log(r@) < q(),
        r@ == g2_enc(g2_log(r@)),
{
    let mut rng = <rand_chacha::ChaChaRng as rand::SeedableRng>::from_seed(*seed);
    let p = <bls12_381::G2Projective as group::Group>::random(&mut rng);
    G2Point { enc: bls12_381::G2Affine::from(p).to_compressed() }
}

/// Relies on `bls12_381::pairing` and `PartialEq for Gt`: the pairing is
/// bilinear and non-degenerate, so `e(a, b) == e(c, d)` holds exactly when
/// `log a * log b` and `log c * log d` agree modulo `q`.
#[verifier::external_body]
pub(crate) fn pairings_agree(a: &G1Point, b: &G2Point, c: &G1Point, d: &G2Point) -> (r: bool)
    requires
        a.wf(),
        b.wf(),
        c.wf(),
        d.wf(),
    ensures
        r == (fmul(a.log(), b.log()) == fmul(c.log(), d.log())),
{
    let a = bls12_381::G1Affine::from_compressed(&a.enc).unwrap();
    let b = bls12_381::G2Affine::from_compressed(&b.enc).unwrap();
    let c = bls12_381::G1Affine::from_compressed(&c.enc).unwrap();
    let d = bls12_381::G2Affine::from_compressed(&d.enc).unwrap();
    bls12_381::pairing(&a, &b) == bls12_381::pairing(&c, &d)
}

} // verus!
