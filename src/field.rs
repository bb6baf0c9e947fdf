//! The scalar field of BLS12-381: integers modulo the prime `q`.
//!
//! A [`Scalar`] holds the canonical 32-byte little-endian encoding of its
//! value; its model is that value, an integer in `[0, q)`.
use vstd::arithmetic::div_mod::{
    lemma_add_mod_noop,
    lemma_mod_bound,
    lemma_mod_twice,
    lemma_mul_mod_noop_left,
    lemma_mul_mod_noop_right,
    lemma_small_mod,
    lemma_sub_mod_noop,
};
use vstd::prelude::*;

verus! {

/// The order of the scalar field (and of the groups G1, G2 and GT).
pub open spec fn q() -> int {
    (0x73eda753299d7d483339d80809a1d805 * 0x1_0000_0000_0000_0000 * 0x1_0000_0000_0000_0000
        + 0x53bda402fffe5bfeffffffff00000001) as int
}

/// Addition in the field, on representatives.
pub open spec fn fadd(a: int, b: int) -> int {
    (a + b) % q()
}

/// Subtraction in the field, on representatives.
pub open spec fn fsub(a: int, b: int) -> int {
    (a - b) % q()
}

/// Multiplication in the field, on representatives.
pub open spec fn fmul(a: int, b: int) -> int {
    (a * b) % q()
}

/// The multiplicative inverse of `a`, where one exists.
pub open spec fn finv(a: int) -> int {
    choose|b: int| 0 <= b < q() && fmul(a, b) == 1
}

/// The integer that a little-endian byte string encodes.
pub open spec fn le_value(b: Seq<u8>) -> int
    decreases b.len(),
{
    if b.len() == 0 {
        0
    } else {
        b[0] as int + 256 * le_value(b.drop_first())
    }
}

/// An element of the scalar field, held as its canonical encoding.
#[derive(Clone, Copy)]
pub struct Scalar {
    bytes: [u8; 32],
}

impl Scalar {
    /// The value of the element.
    pub closed spec fn value(&self) -> int {
        le_value(self.bytes@)
    }

    /// The encoding is canonical: its value lies below `q`.
    pub open spec fn wf(&self) -> bool {
        0 <= self.value() < q()
    }

    /// Relies on `bls12_381::Scalar::from(u64)` and `Scalar::to_bytes`: the
    /// integer embeds as itself, encoded little-endian.
    #[verifier::external_body]
    pub fn from_u64(v: u64) -> (r: Scalar)
        ensures
            r.wf(),
            r.value() == v as int,
    {
        Scalar { bytes: bls12_381::Scalar::from(v).to_bytes() }
    }

    /// Relies on `bls12_381::Scalar::from_bytes`: it accepts exactly the
    /// canonical encodings, that is the values below `q`.
    #[verifier::external_body]
    pub fn from_bytes(bytes: [u8; 32]) -> (r: Option<Scalar>)
        ensures
            r.is_some() == (le_value(bytes@) < q()),
            r matches Some(s) ==> s.value() == le_value(bytes@),
    {
        if bool::from(bls12_381::Scalar::from_bytes(&bytes).is_some()) {
            Some(Scalar { bytes })
        } else {
            None
        }
    }

    /// The canonical little-endian encoding.
    pub fn to_bytes(&self) -> (r: [u8; 32])
        ensures
            le_value(r@) == self.value(),
    {
        self.bytes
    }

    /// Relies on `Add for bls12_381::Scalar`: addition modulo `q`.
    #[verifier::external_body]
    pub(crate) fn plus(&self, o: &Scalar) -> (r: Scalar)
        requires
            self.wf(),
            o.wf(),
        ensures
            r.wf(),
            r.value() == fadd(self.value(), o.value()),
    {
        let a = bls12_381::Scalar::from_bytes(&self.bytes).unwrap();
        let b = bls12_381::Scalar::from_bytes(&o.bytes).unwrap();
        Scalar { bytes: (a + b).to_bytes() }
    }

    /// Relies on `Sub for bls12_381::Scalar`: subtraction modulo `q`.
    #[verifier::external_body]
    pub(crate) fn minus(&self, o: &Scalar) -> (r: Scalar)
        requires
            self.wf(),
            o.wf(),
        ensures
            r.wf(),
            r.value() == fsub(self.value(), o.value()),
    {
        let a = bls12_381::Scalar::from_bytes(&self.bytes).unwrap();
        let b = bls12_381::Scalar::from_bytes(&o.bytes).unwrap();
        Scalar { bytes: (a - b).to_bytes() }
    }

    /// Relies on `Mul for bls12_381::Scalar`: multiplication modulo `q`.
    #[verifier::external_body]
    pub(crate) fn times(&self, o: &Scalar) -> (r: Scalar)
        requires
            self.wf(),
            o.wf(),
        ensures
            r.wf(),
            r.value() == fmul(self.value(), o.value()),
    {
        let a = bls12_381::Scalar::from_bytes(&self.bytes).unwrap();
        let b = bls12_381::Scalar::from_bytes(&o.bytes).unwrap();
        Scalar { bytes: (a * b).to_bytes() }
    }

    /// Relies on `bls12_381::Scalar::invert`: it yields the inverse of every
    /// nonzero element (and fails on zero only).
    #[verifier::external_body]
    pub(crate) fn inverse(&self) -> (r: Scalar)
        requires
            self.wf(),
            self.value() != 0,
        ensures
            r.wf(),
            fmul(self.value(), r.value()) == 1,
    {
        let a = bls12_381::Scalar::from_bytes(&self.bytes).unwrap();
        Scalar { bytes: a.invert().unwrap().to_bytes() }
    }

    /// Whether the element is zero.
    pub fn is_zero(&self) -> (b: bool)
        ensures
            b == (self.value() == 0),
    {
        let mut i: usize = 0;
        while i < 32
            invariant
                i <= 32,
                forall|k: int| 0 <= k < i ==> self.bytes@[k] == 0,
            decreases 32 - i,
        {
            if self.bytes[i] != 0 {
                proof {
                    lemma_le_value_zero(self.bytes@);
                }
                return false;
            }
            i = i + 1;
        }
        proof {
            lemma_le_value_zero(self.bytes@);
        }
        true
    }

    /// A uniformly random element.
    pub fn random() -> (r: Scalar)
        ensures
            r.wf(),
    {
        random_scalar()
    }
}

/// Relies on `ff::Field::random` for `bls12_381::Scalar`, drawn from
/// `rand::thread_rng`: the result is some element of the field.
#[verifier::external_body]
fn random_scalar() -> (r: Scalar)
    ensures
        r.wf(),
{
    let s = <bls12_381::Scalar as ff::Field>::random(&mut rand::thread_rng());
    Scalar { bytes: s.to_bytes() }
}

/// The field element that `ff::Field::random` draws for `bls12_381::Scalar`
/// from a ChaCha20 stream keyed by the seed.
pub uninterp spec fn scalar_of_seed(seed: Seq<u8>) -> int;

/// Relies on `ff::Field::random` for `bls12_381::Scalar` over
/// `rand_chacha::ChaChaRng::from_seed`: a deterministic function of the seed.
#[verifier::external_body]
pub(crate) fn scalar_from_seed(seed: &[u8; 32]) -> (r: Scalar)
    ensures
        r.wf(),
        r.value() == scalar_of_seed(seed@),
{
    let mut rng = <rand_chacha::ChaChaRng as rand::SeedableRng>::from_seed(*seed);
    let s = <bls12_381::Scalar as ff::Field>::random(&mut rng);
    Scalar { bytes: s.to_bytes() }
}

/// A little-endian encoding is of zero exactly when all its bytes are zero.
pub proof fn lemma_le_value_zero(b: Seq<u8>)
    ensures
        le_value(b) >= 0,
        (le_value(b) == 0) == (forall|k: int| 0 <= k < b.len() ==> b[k] == 0),
    decreases b.len(),
{
    if b.len() > 0 {
        let rest = b.drop_first();
        lemma_le_value_zero(rest);
        if le_value(b) == 0 {
            assert forall|k: int| 0 <= k < b.len() implies b[k] == 0 by {
                if k > 0 {
                    assert(b[k] == rest[k - 1]);
                }
            }
        }
        if forall|k: int| 0 <= k < b.len() ==> b[k] == 0 {
            assert forall|k: int| 0 <= k < rest.len() implies rest[k] == 0 by {
                assert(rest[k] == b[k + 1]);
            }
        }
    }
}

/// Every field operation lands in `[0, q)`.
pub proof fn lemma_field_ranges(a: int, b: int)
    ensures
        0 <= fadd(a, b) < q(),
        0 <= fsub(a, b) < q(),
        0 <= fmul(a, b) < q(),
{
    lemma_mod_bound(a + b, q());
    lemma_mod_bound(a - b, q());
    lemma_mod_bound(a * b, q());
}

/// Reduction may be applied to either operand of an addition.
pub proof fn lemma_fadd_mod(a: int, b: int)
    ensures
        fadd(a % q(), b) == fadd(a, b),
        fadd(a, b % q()) == fadd(a, b),
{
    lemma_add_mod_noop(a, b, q());
    lemma_add_mod_noop(a % q(), b, q());
    lemma_add_mod_noop(a, b % q(), q());
    lemma_mod_twice(a, q());
    lemma_mod_twice(b, q());
}

/// Reduction may be applied to either operand of a multiplication.
pub proof fn lemma_fmul_mod(a: int, b: int)
    ensures
        fmul(a % q(), b) == fmul(a, b),
        fmul(a, b % q()) == fmul(a, b),
{
    lemma_mul_mod_noop_left(a, b, q());
    lemma_mul_mod_noop_right(a, b, q());
}

/// Values already in `[0, q)` are their own representatives.
pub proof fn lemma_reduced(a: int)
    requires
        0 <= a < q(),
    ensures
        a % q() == a,
{
    lemma_small_mod(a as nat, q() as nat);
}

/// Field addition of two representatives is the sum reduced.
pub proof fn lemma_red_add(x: int, y: int, a: int, b: int)
    requires
        a == x % q(),
        b == y % q(),
    ensures
        fadd(a, b) == (x + y) % q(),
{
    lemma_add_mod_noop(x, y, q());
}

/// Field subtraction of two representatives is the difference reduced.
pub proof fn lemma_red_sub(x: int, y: int, a: int, b: int)
    requires
        a == x % q(),
        b == y % q(),
    ensures
        fsub(a, b) == (x - y) % q(),
{
    lemma_sub_mod_noop(x, y, q());
}

/// Field multiplication of two representatives is the product reduced.
pub proof fn lemma_red_mul(x: int, y: int, a: int, b: int)
    requires
        a == x % q(),
        b == y % q(),
    ensures
        fmul(a, b) == (x * y) % q(),
{
    lemma_mul_mod_noop_left(x, y, q());
    lemma_mul_mod_noop_right(x % q(), y, q());
}

/// Field addition is associative.
pub proof fn lemma_fadd_assoc(a: int, b: int, c: int)
    ensures
        fadd(fadd(a, b), c) == fadd(a, fadd(b, c)),
{
    lemma_fadd_mod(a + b, c);
    lemma_fadd_mod(a, b + c);
    assert(a + b + c == a + (b + c));
}

/// Field multiplication is associative.
pub proof fn lemma_fmul_assoc(a: int, b: int, c: int)
    ensures
        fmul(fmul(a, b), c) == fmul(a, fmul(b, c)),
{
    lemma_fmul_mod(a * b, c);
    lemma_fmul_mod(a, b * c);
    assert(a * b * c == a * (b * c)) by (nonlinear_arith);
}

/// An element has at most one inverse: any inverse found is `finv(a)`.
pub proof fn lemma_inverse_unique(a: int, b: int)
    requires
        0 <= b < q(),
        fmul(a, b) == 1,
    ensures
        finv(a) == b,
        0 <= finv(a) < q(),
{
    let b2 = finv(a);
    assert(0 <= b2 < q() && fmul(a, b2) == 1);
    lemma_reduced(b);
    lemma_reduced(1);
    lemma_fmul_mod(b, a * b2);
    assert(b * (a * b2) == (a * b) * b2) by (nonlinear_arith);
    lemma_fmul_mod(a * b, b2);
    lemma_reduced(b2);
    assert(fmul(b, 1) == b);
    assert(fmul(1, b2) == b2);
}

/// Scaling a response `k + c * x` distributes over its two parts.
pub proof fn lemma_scaled_response(k: int, c: int, x: int, g: int)
    ensures
        fmul(fadd(k, fmul(c, x)), g) == fadd(fmul(c, fmul(x, g)), fmul(k, g)),
{
    let t = fmul(c, x);
    lemma_fmul_mod(k + t, g);
    assert((k + t) * g == k * g + t * g) by (nonlinear_arith);
    lemma_fadd_mod(k * g, t * g);
    lemma_fmul_mod(c * x, g);
    lemma_fadd_mod(k * g, (c * x) * g);
    lemma_fmul_mod(c, x * g);
    lemma_fmul_mod(k, g);
    lemma_fadd_mod(fmul(c, x * g), k * g);
    lemma_fadd_mod(c * (x * g), k * g);
    assert(c * (x * g) == (c * x) * g) by (nonlinear_arith);
    assert(fmul(fadd(k, t), g) == fadd(k * g, (c * x) * g));
    assert(fadd(fmul(c, fmul(x, g)), fmul(k, g)) == fadd(c * (x * g), k * g));
}

/// Two values of the shape `c * X + R` add up to one of that shape.
pub proof fn lemma_sum_of_responses(c: int, x1: int, r1: int, x2: int, r2: int)
    ensures
        fadd(fadd(fmul(c, x1), r1), fadd(fmul(c, x2), r2)) == fadd(
            fmul(c, fadd(x1, x2)),
            fadd(r1, r2),
        ),
{
    let a = fmul(c, x1) + r1;
    let b = fmul(c, x2) + r2;
    lemma_fadd_mod(a, b);
    lemma_fadd_mod(a % q(), b);
    lemma_fadd_mod(c * x1, r1 + b);
    lemma_fadd_mod(c * x2, r2 + c * x1 + r1);
    assert(a + b == fmul(c, x1) + (r1 + b));
    assert(fmul(c, x2) + (r2 + c * x1 + r1) == b + c * x1 + r1);
    lemma_fmul_mod(c, x1 + x2);
    assert(c * (x1 + x2) == c * x1 + c * x2) by (nonlinear_arith);
    lemma_fadd_mod(c * (x1 + x2), r1 + r2);
    lemma_fadd_mod(fmul(c, x1 + x2), r1 + r2);
    assert(fadd(fmul(c, fadd(x1, x2)), fadd(r1, r2)) == fadd(c * x1 + c * x2, r1 + r2));
    assert(c * x1 + r1 + (c * x2 + r2) == c * x1 + c * x2 + (r1 + r2));
}

/// A two-term linear form maps responses to the responses of its values.
pub proof fn lemma_linear_pair(c: int, ka: int, xa: int, ga: int, kb: int, xb: int, gb: int)
    ensures
        fadd(fmul(fadd(ka, fmul(c, xa)), ga), fmul(fadd(kb, fmul(c, xb)), gb)) == fadd(
            fmul(c, fadd(fmul(xa, ga), fmul(xb, gb))),
            fadd(fmul(ka, ga), fmul(kb, gb)),
        ),
{
    lemma_scaled_response(ka, c, xa, ga);
    lemma_scaled_response(kb, c, xb, gb);
    lemma_sum_of_responses(c, fmul(xa, ga), fmul(ka, ga), fmul(xb, gb), fmul(kb, gb));
}

} // verus!
