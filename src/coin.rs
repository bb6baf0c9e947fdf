//! The life of a coin: a request, its issuance proof, blind signature
//! shares, the aggregate signature, and the unlinkable spend.
use crate::dealer::key_share_matches;
use crate::field::{
    fadd,
    fmul,
    fsub,
    lemma_fadd_assoc,
    lemma_fmul_assoc,
    lemma_red_add,
    lemma_red_mul,
    lemma_red_sub,
    lemma_reduced,
    q,
    scalar_of_seed,
    Scalar,
};
use crate::generators::{ecash_g1_log, ecash_g2_log};
use crate::group::{g1_enc, g1_log, G1Point, G2Point};
use crate::hash::{hash_g1_to_g1, hash_to_g1_spec, map_to_scalar};
use crate::issuance::{
    all_points_wf,
    all_scalars_wf,
    c_m_log,
    compute_c_m,
    issuance_accepts,
    issuance_base,
    issuance_image,
    logs,
    pc_log,
    prepare_issuance,
    values,
    verify_issuance,
};
use crate::spend::{all_g2_wf, compute_k, k_log, logs2, prepare_spend, spend_accepts, verify_spend};
use crate::threshold::{
    blind_signature_log,
    blinding_factor,
    blinding_log,
    compute_message,
    message_log,
    pairing_holds,
    sign_blinded_message,
    verify,
    AggregatePublicKey,
    PublicKeyShare,
    SecretKeyShare,
    Signature,
    SignatureShare,
};
use vstd::prelude::*;

verus! {

/// A client's secrets for a new coin: the messages `m1` (amount), `m2`
/// (serial) and `m3` (authentication tag), and the blinding scalars.
#[derive(Clone, Copy)]
pub struct IssuanceRequest {
    pub m_1: Scalar,
    pub m_2: Scalar,
    pub m_3: Scalar,
    pub r_p: Scalar,
    pub r_m: Scalar,
    pub r_1: Scalar,
    pub r_2: Scalar,
    pub r_3: Scalar,
}

/// The public statement and issuance proof sent to the mints.
#[derive(Clone, Copy)]
pub struct Issuance {
    pub y: [G1Point; 5],
    pub r: [G1Point; 5],
    pub s: [Scalar; 8],
}

/// A re-randomized coin, ready to spend.
#[derive(Clone, Copy)]
pub struct SpendRequest {
    pub m_2: Scalar,
    pub h: G1Point,
    pub signature: G1Point,
}

/// A spend: the spend proof and the re-randomized signature.
#[derive(Clone, Copy)]
pub struct Spend {
    pub y: (G1Point, G2Point),
    pub r: (G1Point, G2Point),
    pub s: [Scalar; 3],
    pub h: G1Point,
    pub signature: G1Point,
}

impl IssuanceRequest {
    /// All scalars are canonical.
    pub open spec fn wf(&self) -> bool {
        &&& self.m_1.wf()
        &&& self.m_2.wf()
        &&& self.m_3.wf()
        &&& self.r_p.wf()
        &&& self.r_m.wf()
        &&& self.r_1.wf()
        &&& self.r_2.wf()
        &&& self.r_3.wf()
    }

    /// The witness `(m1, m2, m3, r_p, r_m, r1, r2, r3)` of the issuance proof.
    pub open spec fn witness(&self) -> Seq<int> {
        seq![
            self.m_1.value(),
            self.m_2.value(),
            self.m_3.value(),
            self.r_p.value(),
            self.r_m.value(),
            self.r_1.value(),
            self.r_2.value(),
            self.r_3.value(),
        ]
    }

    /// The logarithm of the per-run base: the hash of the message commitment.
    pub open spec fn h_log(&self) -> int {
        g1_log(
            hash_to_g1_spec(
                g1_enc(c_m_log(self.m_1.value(), self.m_2.value(), self.m_3.value(), self.r_m.value())),
            ),
        )
    }

    /// The logarithm of a signature once its blinding under the G1 key `g1`
    /// is removed.
    pub open spec fn unblinded_log(&self, g1: Seq<G1Point>, sig: int) -> int {
        fsub(sig, blinding_log(logs(g1), self.r_1.value(), self.r_2.value(), self.r_3.value()))
    }

    /// The pairing equation for an unblinded signature under the G2 key `g2`.
    pub open spec fn signature_holds(&self, g2: Seq<G2Point>, sig: int) -> bool {
        pairing_holds(
            message_log(logs2(g2), self.m_1.value(), self.m_2.value(), self.m_3.value()),
            self.h_log(),
            sig,
        )
    }

    /// A request for a coin of `amount` bound to the tag `authentication`,
    /// with the given serial and blindings.
    pub fn with_randomness(
        amount: u64,
        authentication: [u8; 32],
        r_p: Scalar,
        m_2: Scalar,
        r_m: Scalar,
        r_1: Scalar,
        r_2: Scalar,
        r_3: Scalar,
    ) -> (req: IssuanceRequest)
        requires
            r_p.wf(),
            m_2.wf(),
            r_m.wf(),
            r_1.wf(),
            r_2.wf(),
            r_3.wf(),
        ensures
            req.wf(),
            req.m_1.value() == amount as int,
            req.m_3.value() == scalar_of_seed(authentication@),
            req.m_2 == m_2 && req.r_p == r_p && req.r_m == r_m,
            req.r_1 == r_1 && req.r_2 == r_2 && req.r_3 == r_3,
    {
        let m_1 = Scalar::from_u64(amount);
        let m_3 = map_to_scalar(&authentication);
        IssuanceRequest { m_1, m_2, m_3, r_p, r_m, r_1, r_2, r_3 }
    }

    /// A request for a coin of `amount` bound to the tag `authentication`,
    /// with a fresh random serial and blindings.
    pub fn new(amount: u64, authentication: [u8; 32], r_p: Scalar) -> (req: IssuanceRequest)
        requires
            r_p.wf(),
        ensures
            req.wf(),
            req.m_1.value() == amount as int,
            req.m_3.value() == scalar_of_seed(authentication@),
            req.r_p == r_p,
    {
        let m_2 = Scalar::random();
        let r_m = Scalar::random();
        let r_1 = Scalar::random();
        let r_2 = Scalar::random();
        let r_3 = Scalar::random();
        IssuanceRequest::with_randomness(amount, authentication, r_p, m_2, r_m, r_1, r_2, r_3)
    }

    /// The per-run base: the hash of the message commitment.
    pub fn compute_h(&self) -> (h: G1Point)
        requires
            self.wf(),
        ensures
            h.wf(),
            h.log() == self.h_log(),
    {
        let c_m = compute_c_m(self.m_1, self.m_2, self.m_3, self.r_m);
        hash_g1_to_g1(&c_m)
    }

    /// Commits to the request's secrets and proves knowledge of them.
    pub fn prepare_issuance(&self) -> (iss: Issuance)
        requires
            self.wf(),
        ensures
            iss.wf(),
            logs(iss.y@) == issuance_image(self.witness(), self.h_log()),
            issuance_base(iss.y@) == self.h_log(),
            iss.accepts(),
    {
        let (y, r, s) = prepare_issuance(
            self.m_1,
            self.m_2,
            self.m_3,
            self.r_p,
            self.r_m,
            self.r_1,
            self.r_2,
            self.r_3,
        );
        assert(y@[1]@ == g1_enc(y@[1].log()));
        Issuance { y, r, s }
    }

    /// Removes the blinding under the G1 key `g1` from a signature.
    pub fn unblind_signature(&self, g1: &[G1Point; 4], signature: &G1Point) -> (sig: G1Point)
        requires
            self.wf(),
            all_points_wf(g1@),
            signature.wf(),
        ensures
            sig.wf(),
            sig.log() == self.unblinded_log(g1@, signature.log()),
    {
        signature.minus(&blinding_factor(g1, self.r_1, self.r_2, self.r_3))
    }

    /// Checks the pairing equation of an unblinded signature under the G2
    /// key `g2`.
    pub fn verify_signature(&self, g2: &[G2Point; 4], signature: &G1Point) -> (b: bool)
        requires
            self.wf(),
            all_g2_wf(g2@),
            signature.wf(),
        ensures
            b == self.signature_holds(g2@, signature.log()),
    {
        let message = compute_message(g2, self.m_1, self.m_2, self.m_3);
        verify(message, self.compute_h(), *signature)
    }

    /// Checks one signer's blind signature share against its public key share.
    pub fn verify_blind_signature_share(&self, pk: &PublicKeyShare, signature: &SignatureShare) -> (b: bool)
        requires
            self.wf(),
            pk.wf(),
            signature.0.wf(),
        ensures
            b == self.signature_holds(pk.g2@, self.unblinded_log(pk.g1@, signature.0.log())),
    {
        self.verify_signature(&pk.g2, &self.unblind_signature(&pk.g1, &signature.0))
    }

    /// Checks an aggregate blind signature against the aggregate public key.
    pub fn verify_blind_signature(&self, pk: &AggregatePublicKey, signature: &Signature) -> (b: bool)
        requires
            self.wf(),
            pk.wf(),
            signature.0.wf(),
        ensures
            b == self.signature_holds(pk.g2@, self.unblinded_log(pk.g1@, signature.0.log())),
    {
        self.verify_signature(&pk.g2, &self.unblind_signature(&pk.g1, &signature.0))
    }

    /// Unblinds a valid aggregate signature and re-randomizes it, with `r`
    /// as the re-randomizer.
    pub fn finalize_issuance_with(&self, pk: &AggregatePublicKey, signature: &Signature, r: Scalar) -> (sr: SpendRequest)
        requires
            self.wf(),
            pk.wf(),
            signature.0.wf(),
            r.wf(),
        ensures
            sr.wf(),
            sr.m_2 == self.m_2,
            sr.h.log() == fmul(r.value(), self.h_log()),
            sr.signature.log() == fmul(r.value(), self.unblinded_log(pk.g1@, signature.0.log())),
    {
        let sig = self.unblind_signature(&pk.g1, &signature.0);
        let h = self.compute_h().scale(&r);
        let sig = sig.scale(&r);
        SpendRequest { m_2: self.m_2, h, signature: sig }
    }

    /// Unblinds a valid aggregate signature and re-randomizes it with a fresh
    /// random nonzero scalar (a zero draw is replaced by one).
    pub fn finalize_issuance(&self, pk: &AggregatePublicKey, signature: &Signature) -> (sr: SpendRequest)
        requires
            self.wf(),
            pk.wf(),
            signature.0.wf(),
            self.signature_holds(pk.g2@, self.unblinded_log(pk.g1@, signature.0.log())),
        ensures
            sr.wf(),
            sr.m_2 == self.m_2,
            exists|r: int|
                0 < r < q() && sr.h.log() == fmul(r, self.h_log()) && #[trigger] sr.signature.log()
                    == fmul(r, self.unblinded_log(pk.g1@, signature.0.log())),
    {
        let mut r = Scalar::random();
        if r.is_zero() {
            r = Scalar::from_u64(1);
        }
        self.finalize_issuance_with(pk, signature, r)
    }

    /// Checks an aggregate signature and, where it is valid, unblinds and
    /// re-randomizes it; `None` where it is not valid.
    pub fn try_finalize_issuance(&self, pk: &AggregatePublicKey, signature: &Signature) -> (sr: Option<SpendRequest>)
        requires
            self.wf(),
            pk.wf(),
            signature.0.wf(),
        ensures
            sr.is_some() == self.signature_holds(pk.g2@, self.unblinded_log(pk.g1@, signature.0.log())),
            sr matches Some(s) ==> s.wf() && s.m_2 == self.m_2 && exists|r: int|
                0 < r < q() && s.h.log() == fmul(r, self.h_log()) && #[trigger] s.signature.log()
                    == fmul(r, self.unblinded_log(pk.g1@, signature.0.log())),
    {
        if self.verify_blind_signature(pk, signature) {
            Some(self.finalize_issuance(pk, signature))
        } else {
            None
        }
    }
}

impl Issuance {
    /// All points and scalars are valid.
    pub open spec fn wf(&self) -> bool {
        all_points_wf(self.y@) && all_points_wf(self.r@) && all_scalars_wf(self.s@)
    }

    /// Whether the issuance proof is accepted.
    pub open spec fn accepts(&self) -> bool {
        issuance_accepts(self.y@, self.r@, self.s@)
    }

    /// Checks the issuance proof.
    pub fn verify(&self) -> (b: bool)
        requires
            self.wf(),
        ensures
            b == self.accepts(),
    {
        verify_issuance(self.y, self.r, self.s)
    }

    /// The Pedersen commitment to the amount.
    pub fn amount_commitment(&self) -> (p: G1Point)
        ensures
            p == self.y[0],
    {
        self.y[0]
    }

    /// Signs the issuance's blinded commitments with one secret key share.
    /// The proof is not checked here: the caller verifies it first.
    pub fn sign(&self, secret_key: &SecretKeyShare) -> (share: SignatureShare)
        requires
            self.wf(),
            secret_key.wf(),
        ensures
            share.0.wf(),
            share.0.log() == blind_signature_log(
                secret_key.0@.map_values(|s: Scalar| s.value()),
                issuance_base(self.y@),
                self.y@[2].log(),
                self.y@[3].log(),
                self.y@[4].log(),
            ),
    {
        let h = hash_g1_to_g1(&self.y[1]);
        SignatureShare(sign_blinded_message(secret_key.0, h, self.y[2], self.y[3], self.y[4]))
    }
}

impl SpendRequest {
    /// All values are valid.
    pub open spec fn wf(&self) -> bool {
        self.m_2.wf() && self.h.wf() && self.signature.wf()
    }

    /// The message point for `amount` and the tag `authentication`, as a
    /// logarithm.
    pub open spec fn message_for(&self, pk: Seq<G2Point>, amount: int, authentication: Seq<u8>) -> int {
        fadd(
            fadd(logs2(pk)[0], k_log(amount, self.m_2.value(), logs2(pk))),
            fmul(scalar_of_seed(authentication), logs2(pk)[3]),
        )
    }

    /// Checks the re-randomized signature for `amount` and the tag `auth`.
    pub fn verify(&self, pk: &AggregatePublicKey, amount: u64, auth: [u8; 32]) -> (b: bool)
        requires
            self.wf(),
            pk.wf(),
        ensures
            b == pairing_holds(
                self.message_for(pk.g2@, amount as int, auth@),
                self.h.log(),
                self.signature.log(),
            ),
    {
        let m_1 = Scalar::from_u64(amount);
        let m_3 = map_to_scalar(&auth);
        let message = pk.g2[0].plus(&compute_k(m_1, self.m_2, pk.g2)).plus(&pk.g2[3].scale(&m_3));
        verify(message, self.h, self.signature)
    }

    /// Attaches a spend proof for `amount` with the blinding `r_p`.
    pub fn prepare_spend(&self, pk: &AggregatePublicKey, amount: u64, r_p: Scalar) -> (sp: Spend)
        requires
            self.wf(),
            pk.wf(),
            r_p.wf(),
        ensures
            sp.wf(),
            sp.h == self.h,
            sp.signature == self.signature,
            sp.y.0.log() == pc_log(amount as int, r_p.value()),
            sp.y.1.log() == k_log(amount as int, self.m_2.value(), logs2(pk.g2@)),
            spend_accepts(sp.y, sp.r, sp.s@, pk.g2@),
    {
        let m_1 = Scalar::from_u64(amount);
        let (y, r, s) = prepare_spend(m_1, self.m_2, r_p, pk.g2);
        Spend { y, r, s, h: self.h, signature: self.signature }
    }
}

impl Spend {
    /// All points and scalars are valid.
    pub open spec fn wf(&self) -> bool {
        &&& self.y.0.wf()
        &&& self.y.1.wf()
        &&& self.r.0.wf()
        &&& self.r.1.wf()
        &&& all_scalars_wf(self.s@)
        &&& self.h.wf()
        &&& self.signature.wf()
    }

    /// The message point that the spend commits to, as a logarithm.
    pub open spec fn message_for(&self, pk: Seq<G2Point>, authentication: Seq<u8>) -> int {
        fadd(fadd(logs2(pk)[0], self.y.1.log()), fmul(scalar_of_seed(authentication), logs2(pk)[3]))
    }

    /// Checks the spend proof and the signature for the tag `authentication`.
    pub fn verify(&self, pk: AggregatePublicKey, authentication: [u8; 32]) -> (b: bool)
        requires
            self.wf(),
            pk.wf(),
        ensures
            b == (spend_accepts(self.y, self.r, self.s@, pk.g2@) && pairing_holds(
                self.message_for(pk.g2@, authentication@),
                self.h.log(),
                self.signature.log(),
            )),
    {
        let m_3 = map_to_scalar(&authentication);
        let message = pk.g2[0].plus(&self.y.1).plus(&pk.g2[3].scale(&m_3));
        verify_spend(self.y, self.r, self.s, pk.g2) && verify(message, self.h, self.signature)
    }

    /// The Pedersen commitment to the amount.
    pub fn amount_commitment(&self) -> (p: G1Point)
        ensures
            p == self.y.0,
    {
        self.y.0
    }
}

/// A blind signature share made by a dealer-issued secret key share on an
/// issuance prepared from a request passes the request's check against the
/// matching public key share.
pub proof fn lemma_signature_share_verifies(
    req: IssuanceRequest,
    iss: Issuance,
    pk: PublicKeyShare,
    sk: SecretKeyShare,
)
    requires
        req.wf(),
        iss.wf(),
        pk.wf(),
        sk.wf(),
        logs(iss.y@) == issuance_image(req.witness(), req.h_log()),
        issuance_base(iss.y@) == req.h_log(),
        key_share_matches(pk, sk),
    ensures
        req.signature_holds(
            pk.g2@,
            req.unblinded_log(
                pk.g1@,
                blind_signature_log(
                    sk.0@.map_values(|s: Scalar| s.value()),
                    issuance_base(iss.y@),
                    iss.y@[2].log(),
                    iss.y@[3].log(),
                    iss.y@[4].log(),
                ),
            ),
        ),
{
    let s0 = sk.0@[0].value();
    let s1 = sk.0@[1].value();
    let s2 = sk.0@[2].value();
    let s3 = sk.0@[3].value();
    let m1 = req.m_1.value();
    let m2 = req.m_2.value();
    let m3 = req.m_3.value();
    let r1 = req.r_1.value();
    let r2 = req.r_2.value();
    let r3 = req.r_3.value();
    let h = req.h_log();
    let g1 = ecash_g1_log();
    let g2 = ecash_g2_log();
    let skv = sk.0@.map_values(|e: Scalar| e.value());
    assert(skv[0] == s0 && skv[1] == s1 && skv[2] == s2 && skv[3] == s3);
    assert(sk.0@[0].wf() && sk.0@[1].wf() && sk.0@[2].wf() && sk.0@[3].wf());
    lemma_reduced(s0);
    lemma_reduced(s1);
    lemma_reduced(s2);
    lemma_reduced(s3);
    lemma_reduced(m1);
    lemma_reduced(m2);
    lemma_reduced(m3);
    lemma_reduced(r1);
    lemma_reduced(r2);
    lemma_reduced(r3);
    // The blinded commitments.
    let c1 = iss.y@[2].log();
    let c2 = iss.y@[3].log();
    let c3 = iss.y@[4].log();
    assert(logs(iss.y@)[2] == c1 && logs(iss.y@)[3] == c2 && logs(iss.y@)[4] == c3);
    let cc1 = m1 * h + r1 * g1;
    let cc2 = m2 * h + r2 * g1;
    let cc3 = m3 * h + r3 * g1;
    lemma_red_add(m1 * h, r1 * g1, fmul(m1, h), fmul(r1, g1));
    lemma_red_add(m2 * h, r2 * g1, fmul(m2, h), fmul(r2, g1));
    lemma_red_add(m3 * h, r3 * g1, fmul(m3, h), fmul(r3, g1));
    assert(c1 == cc1 % q() && c2 == cc2 % q() && c3 == cc3 % q());
    // The blind signature.
    lemma_red_mul(s1, cc1, s1, c1);
    lemma_red_mul(s2, cc2, s2, c2);
    lemma_red_mul(s3, cc3, s3, c3);
    lemma_red_add(s0 * h, s1 * cc1, fmul(s0, h), fmul(s1, c1));
    let sum01 = s0 * h + s1 * cc1;
    lemma_red_add(sum01, s2 * cc2, fadd(fmul(s0, h), fmul(s1, c1)), fmul(s2, c2));
    let sum012 = sum01 + s2 * cc2;
    let sig = blind_signature_log(skv, h, c1, c2, c3);
    lemma_red_add(sum012, s3 * cc3, fadd(fadd(fmul(s0, h), fmul(s1, c1)), fmul(s2, c2)), fmul(s3, c3));
    let big_sig = sum012 + s3 * cc3;
    assert(sig == big_sig % q());
    // The blinding under the public key share.
    let pk_1 = pk.g1@[1].log();
    let pk_2 = pk.g1@[2].log();
    let pk_3 = pk.g1@[3].log();
    assert(pk_1 == fmul(s1, g1) && pk_2 == fmul(s2, g1) && pk_3 == fmul(s3, g1));
    lemma_red_mul(r1, s1 * g1, r1, pk_1);
    lemma_red_mul(r2, s2 * g1, r2, pk_2);
    lemma_red_mul(r3, s3 * g1, r3, pk_3);
    lemma_red_add(r1 * (s1 * g1), r2 * (s2 * g1), fmul(r1, pk_1), fmul(r2, pk_2));
    let b12 = r1 * (s1 * g1) + r2 * (s2 * g1);
    lemma_red_add(b12, r3 * (s3 * g1), fadd(fmul(r1, pk_1), fmul(r2, pk_2)), fmul(r3, pk_3));
    let big_b = b12 + r3 * (s3 * g1);
    let pkl = logs(pk.g1@);
    assert(pkl[1] == pk_1 && pkl[2] == pk_2 && pkl[3] == pk_3);
    let b = blinding_log(pkl, r1, r2, r3);
    assert(b == big_b % q());
    let unblinded = req.unblinded_log(pk.g1@, sig);
    lemma_red_sub(big_sig, big_b, sig, b);
    assert(unblinded == (big_sig - big_b) % q());
    // The message point under the public key share.
    let q0 = pk.g2@[0].log();
    let q1 = pk.g2@[1].log();
    let q2 = pk.g2@[2].log();
    let q3 = pk.g2@[3].log();
    assert(pk.g1@[0].log() == fmul(s0, g1));
    assert(q0 == fmul(s0, g2) && q1 == fmul(s1, g2) && q2 == fmul(s2, g2) && q3 == fmul(s3, g2));
    lemma_red_mul(m1, s1 * g2, m1, q1);
    lemma_red_mul(m2, s2 * g2, m2, q2);
    lemma_red_mul(m3, s3 * g2, m3, q3);
    lemma_red_add(s0 * g2, m1 * (s1 * g2), q0, fmul(m1, q1));
    let u01 = s0 * g2 + m1 * (s1 * g2);
    lemma_red_add(u01, m2 * (s2 * g2), fadd(q0, fmul(m1, q1)), fmul(m2, q2));
    let u012 = u01 + m2 * (s2 * g2);
    lemma_red_add(u012, m3 * (s3 * g2), fadd(fadd(q0, fmul(m1, q1)), fmul(m2, q2)), fmul(m3, q3));
    let big_m = u012 + m3 * (s3 * g2);
    let g2l = logs2(pk.g2@);
    assert(g2l[0] == q0 && g2l[1] == q1 && g2l[2] == q2 && g2l[3] == q3);
    let message = message_log(g2l, m1, m2, m3);
    assert(message == big_m % q());
    // Both sides of the pairing equation.
    let k = s0 + s1 * m1 + s2 * m2 + s3 * m3;
    assert(s1 * (m1 * h + r1 * g1) == h * (s1 * m1) + g1 * (s1 * r1)) by (nonlinear_arith);
    assert(s2 * (m2 * h + r2 * g1) == h * (s2 * m2) + g1 * (s2 * r2)) by (nonlinear_arith);
    assert(s3 * (m3 * h + r3 * g1) == h * (s3 * m3) + g1 * (s3 * r3)) by (nonlinear_arith);
    assert(r1 * (s1 * g1) == g1 * (s1 * r1)) by (nonlinear_arith);
    assert(r2 * (s2 * g1) == g1 * (s2 * r2)) by (nonlinear_arith);
    assert(r3 * (s3 * g1) == g1 * (s3 * r3)) by (nonlinear_arith);
    assert(s0 * h == h * s0) by (nonlinear_arith);
    assert(h * k == h * s0 + h * (s1 * m1) + h * (s2 * m2) + h * (s3 * m3)) by (nonlinear_arith)
        requires
            k == s0 + s1 * m1 + s2 * m2 + s3 * m3,
    ;
    assert(big_sig - big_b == h * k);
    assert(m1 * (s1 * g2) == g2 * (s1 * m1)) by (nonlinear_arith);
    assert(m2 * (s2 * g2) == g2 * (s2 * m2)) by (nonlinear_arith);
    assert(m3 * (s3 * g2) == g2 * (s3 * m3)) by (nonlinear_arith);
    assert(s0 * g2 == g2 * s0) by (nonlinear_arith);
    assert(g2 * k == g2 * s0 + g2 * (s1 * m1) + g2 * (s2 * m2) + g2 * (s3 * m3)) by (nonlinear_arith)
        requires
            k == s0 + s1 * m1 + s2 * m2 + s3 * m3,
    ;
    assert(big_m == g2 * k);
    assert(h * (g2 * k) == (h * k) * g2) by (nonlinear_arith);
    crate::field::lemma_fmul_mod(h, big_m);
    crate::field::lemma_fmul_mod(big_sig - big_b, g2);
    assert(fmul(h, message) == fmul(unblinded, g2));
}

/// A coin whose aggregate signature passed the request's check spends: a
/// spend request finalized from it with any re-randomizer, and a spend
/// prepared from that with the amount and tag of the request, pass
/// `Spend::verify` under the aggregate key.
pub proof fn lemma_spend_verifies(
    req: IssuanceRequest,
    pk: AggregatePublicKey,
    signature: Signature,
    r: int,
    sr: SpendRequest,
    spend: Spend,
    amount: u64,
    authentication: Seq<u8>,
)
    requires
        req.wf(),
        pk.wf(),
        signature.0.wf(),
        req.m_1.value() == amount as int,
        req.m_3.value() == scalar_of_seed(authentication),
        req.signature_holds(pk.g2@, req.unblinded_log(pk.g1@, signature.0.log())),
        sr.m_2 == req.m_2,
        sr.h.log() == fmul(r, req.h_log()),
        sr.signature.log() == fmul(r, req.unblinded_log(pk.g1@, signature.0.log())),
        spend.h == sr.h,
        spend.signature == sr.signature,
        spend.y.1.log() == k_log(amount as int, sr.m_2.value(), logs2(pk.g2@)),
        spend_accepts(spend.y, spend.r, spend.s@, pk.g2@),
    ensures
        spend_accepts(spend.y, spend.r, spend.s@, pk.g2@) && pairing_holds(
            spend.message_for(pk.g2@, authentication),
            spend.h.log(),
            spend.signature.log(),
        ),
{
    let g2l = logs2(pk.g2@);
    let m1 = req.m_1.value();
    let m2 = req.m_2.value();
    let m3 = req.m_3.value();
    let a = fmul(m1, g2l[1]);
    let b = fmul(m2, g2l[2]);
    lemma_fadd_assoc(g2l[0], a, b);
    let message = message_log(g2l, m1, m2, m3);
    assert(spend.message_for(pk.g2@, authentication) == message);
    let h = req.h_log();
    let sig = req.unblinded_log(pk.g1@, signature.0.log());
    assert(fmul(h, message) == fmul(sig, ecash_g2_log()));
    lemma_fmul_assoc(r, h, message);
    lemma_fmul_assoc(r, sig, ecash_g2_log());
}

/// Spending keeps the amount commitment of the issuance: a spend prepared
/// with the request's amount and Pedersen blinding commits to the same point.
pub proof fn lemma_amount_commitment_kept(
    req: IssuanceRequest,
    iss: Issuance,
    spend: Spend,
    amount: u64,
)
    requires
        req.wf(),
        iss.wf(),
        spend.wf(),
        logs(iss.y@) == issuance_image(req.witness(), req.h_log()),
        req.m_1.value() == amount as int,
        spend.y.0.log() == pc_log(amount as int, req.r_p.value()),
    ensures
        iss.y@[0] == spend.y.0,
{
    assert(logs(iss.y@)[0] == iss.y@[0].log());
    assert(iss.y@[0]@ == spend.y.0@);
    assert(iss.y@[0] == spend.y.0) by {
        crate::group::lemma_g1_view_eq(iss.y@[0], spend.y.0);
    }
}

} // verus!
