//! The threshold Pointcheval-Sanders signature: keys and their shares,
//! blind signing by one share, Lagrange aggregation of shares, and the
//! pairing check.
use crate::field::{fadd, finv, fmul, fsub, lemma_field_ranges, lemma_inverse_unique, lemma_reduced, q, Scalar};
use crate::generators::{ecash_g2, ecash_g2_log};
use crate::group::{pairings_agree, G1Point, G2Point};
use crate::issuance::all_points_wf;
use crate::spend::{all_g2_wf, logs2};
use std::collections::BTreeMap;
use vstd::prelude::*;

verus! {

/// The aggregate public key: index 0 binds the constant term, indices 1 to 3
/// the three messages.
#[derive(Clone, Copy)]
pub struct AggregatePublicKey {
    pub g1: [G1Point; 4],
    pub g2: [G2Point; 4],
}

/// One signer's public key share.
#[derive(Clone, Copy)]
pub struct PublicKeyShare {
    pub g1: [G1Point; 4],
    pub g2: [G2Point; 4],
}

/// One signer's four secret scalars.
#[derive(Clone, Copy)]
pub struct SecretKeyShare(pub [Scalar; 4]);

/// One signer's blinded signature.
#[derive(Clone, Copy)]
pub struct SignatureShare(pub G1Point);

/// A blinded signature aggregated from shares.
#[derive(Clone, Copy)]
pub struct Signature(pub G1Point);

impl AggregatePublicKey {
    /// All points are valid.
    pub open spec fn wf(&self) -> bool {
        all_points_wf(self.g1@) && all_g2_wf(self.g2@)
    }
}

impl PublicKeyShare {
    /// All points are valid.
    pub open spec fn wf(&self) -> bool {
        all_points_wf(self.g1@) && all_g2_wf(self.g2@)
    }
}

impl SecretKeyShare {
    /// All scalars are canonical.
    pub open spec fn wf(&self) -> bool {
        forall|i: int| 0 <= i < 4 ==> (#[trigger] self.0@[i]).wf()
    }
}

/// The blinded signature `sk[0] * h + sk[1] * c1 + sk[2] * c2 + sk[3] * c3`,
/// as a logarithm.
pub open spec fn blind_signature_log(sk: Seq<int>, h: int, c1: int, c2: int, c3: int) -> int {
    fadd(fadd(fadd(fmul(sk[0], h), fmul(sk[1], c1)), fmul(sk[2], c2)), fmul(sk[3], c3))
}

/// The blinding `r1 * pk[1] + r2 * pk[2] + r3 * pk[3]`, as a logarithm.
pub open spec fn blinding_log(pk: Seq<int>, r1: int, r2: int, r3: int) -> int {
    fadd(fadd(fmul(r1, pk[1]), fmul(r2, pk[2])), fmul(r3, pk[3]))
}

/// The message point `pk[0] + m1 * pk[1] + m2 * pk[2] + m3 * pk[3]`, as a
/// logarithm.
pub open spec fn message_log(pk: Seq<int>, m1: int, m2: int, m3: int) -> int {
    fadd(fadd(fadd(pk[0], fmul(m1, pk[1])), fmul(m2, pk[2])), fmul(m3, pk[3]))
}

/// The pairing equation `e(h, message) == e(sig, g2)`, on logarithms.
pub open spec fn pairing_holds(message: int, h: int, sig: int) -> bool {
    fmul(h, message) == fmul(sig, ecash_g2_log())
}

/// Signs the blinded commitments `c1, c2, c3` under the base `h` with one
/// secret key share.
pub fn sign_blinded_message(
    sk: [Scalar; 4],
    h: G1Point,
    c_1: G1Point,
    c_2: G1Point,
    c_3: G1Point,
) -> (sig: G1Point)
    requires
        forall|i: int| 0 <= i < 4 ==> (#[trigger] sk@[i]).wf(),
        h.wf(),
        c_1.wf(),
        c_2.wf(),
        c_3.wf(),
    ensures
        sig.wf(),
        sig.log() == blind_signature_log(
            sk@.map_values(|s: Scalar| s.value()),
            h.log(),
            c_1.log(),
            c_2.log(),
            c_3.log(),
        ),
{
    let a = h.scale(&sk[0]);
    let b = c_1.scale(&sk[1]);
    let c = c_2.scale(&sk[2]);
    let d = c_3.scale(&sk[3]);
    a.plus(&b).plus(&c).plus(&d)
}

/// The blinding `r1 * pk[1] + r2 * pk[2] + r3 * pk[3]` that a blind
/// signature carries.
pub fn blinding_factor(pk: &[G1Point; 4], r_1: Scalar, r_2: Scalar, r_3: Scalar) -> (b: G1Point)
    requires
        all_points_wf(pk@),
        r_1.wf(),
        r_2.wf(),
        r_3.wf(),
    ensures
        b.wf(),
        b.log() == blinding_log(
            pk@.map_values(|p: G1Point| p.log()),
            r_1.value(),
            r_2.value(),
            r_3.value(),
        ),
{
    let a = pk[1].scale(&r_1);
    let b = pk[2].scale(&r_2);
    let c = pk[3].scale(&r_3);
    a.plus(&b).plus(&c)
}

/// The message point `pk[0] + m1 * pk[1] + m2 * pk[2] + m3 * pk[3]`.
pub fn compute_message(pk: &[G2Point; 4], m_1: Scalar, m_2: Scalar, m_3: Scalar) -> (m: G2Point)
    requires
        all_g2_wf(pk@),
        m_1.wf(),
        m_2.wf(),
        m_3.wf(),
    ensures
        m.wf(),
        m.log() == message_log(logs2(pk@), m_1.value(), m_2.value(), m_3.value()),
{
    let a = pk[1].scale(&m_1);
    let b = pk[2].scale(&m_2);
    let c = pk[3].scale(&m_3);
    pk[0].plus(&a).plus(&b).plus(&c)
}

/// Checks the pairing equation `e(h, message) == e(sig, g2)`.
pub fn verify(message: G2Point, h: G1Point, sig: G1Point) -> (b: bool)
    requires
        message.wf(),
        h.wf(),
        sig.wf(),
    ensures
        b == pairing_holds(message.log(), h.log(), sig.log()),
{
    pairings_agree(&h, &message, &sig, &ecash_g2())
}

/// The factor `xs[j] / (xs[j] - xs[i])` of the Lagrange coefficient of `i`.
pub open spec fn lagrange_factor(xs: Seq<int>, i: int, j: int) -> int {
    fmul(xs[j], finv(fsub(xs[j], xs[i])))
}

/// The product of the factors `xs[j] / (xs[j] - xs[i])` over `j < n`, `j != i`.
pub open spec fn lagrange_partial(xs: Seq<int>, i: int, n: int) -> int
    decreases n,
{
    if n <= 0 {
        1
    } else if n - 1 == i {
        lagrange_partial(xs, i, n - 1)
    } else {
        fmul(lagrange_partial(xs, i, n - 1), lagrange_factor(xs, i, n - 1))
    }
}

/// The Lagrange coefficient at zero of the point `xs[i]` within `xs`.
pub open spec fn lagrange_coefficient(xs: Seq<int>, i: int) -> int {
    lagrange_partial(xs, i, xs.len() as int)
}

/// The values are pairwise distinct.
pub open spec fn distinct(xs: Seq<int>) -> bool {
    forall|a: int, b: int| 0 <= a < xs.len() && 0 <= b < xs.len() && a != b ==> xs[a] != xs[b]
}

/// The Lagrange coefficients at zero of a set of distinct points.
pub fn lagrange_multipliers(scalars: Vec<Scalar>) -> (r: Vec<Scalar>)
    requires
        forall|i: int| 0 <= i < scalars@.len() ==> (#[trigger] scalars@[i]).wf(),
        distinct(scalars@.map_values(|s: Scalar| s.value())),
    ensures
        r@.len() == scalars@.len(),
        forall|i: int|
            0 <= i < r@.len() ==> (#[trigger] r@[i]).wf() && r@[i].value() == lagrange_coefficient(
                scalars@.map_values(|s: Scalar| s.value()),
                i,
            ),
{
    let ghost xs = scalars@.map_values(|s: Scalar| s.value());
    let mut r: Vec<Scalar> = Vec::new();
    let mut i: usize = 0;
    while i < scalars.len()
        invariant
            i <= scalars@.len(),
            r@.len() == i,
            xs == scalars@.map_values(|s: Scalar| s.value()),
            forall|k: int| 0 <= k < scalars@.len() ==> (#[trigger] scalars@[k]).wf(),
            distinct(xs),
            forall|k: int|
                0 <= k < i ==> (#[trigger] r@[k]).wf() && r@[k].value() == lagrange_coefficient(
                    xs,
                    k,
                ),
        decreases scalars@.len() - i,
    {
        let mut acc = Scalar::from_u64(1);
        proof {
            lemma_reduced(1);
        }
        let mut j: usize = 0;
        while j < scalars.len()
            invariant
                i < scalars@.len(),
                j <= scalars@.len(),
                xs == scalars@.map_values(|s: Scalar| s.value()),
                forall|k: int| 0 <= k < scalars@.len() ==> (#[trigger] scalars@[k]).wf(),
                distinct(xs),
                acc.wf(),
                acc.value() == lagrange_partial(xs, i as int, j as int),
            decreases scalars@.len() - j,
        {
            if j != i {
                let d = scalars[j].minus(&scalars[i]);
                proof {
                    assert(xs[j as int] != xs[i as int]);
                    assert(0 <= xs[j as int] < q() && 0 <= xs[i as int] < q());
                    assert(d.value() != 0) by {
                        let diff = xs[j as int] - xs[i as int];
                        if diff > 0 {
                            lemma_reduced(diff);
                        } else {
                            lemma_reduced(diff + q());
                            assert((diff + q()) % q() == diff % q()) by {
                                vstd::arithmetic::div_mod::lemma_mod_add_multiples_vanish(diff, q());
                            }
                        }
                    }
                }
                let inv = d.inverse();
                proof {
                    lemma_inverse_unique(d.value(), inv.value());
                }
                let factor = scalars[j].times(&inv);
                acc = acc.times(&factor);
            }
            j = j + 1;
        }
        r.push(acc);
        i = i + 1;
    }
    r
}

/// The sum of `lams[k] * sigs[k]` over `k < n`, as a logarithm.
pub open spec fn combination_log(lams: Seq<int>, sigs: Seq<int>, n: int) -> int
    decreases n,
{
    if n <= 0 {
        0
    } else {
        fadd(combination_log(lams, sigs, n - 1), fmul(lams[n - 1], sigs[n - 1]))
    }
}

/// The keys of the entries strictly increase.
pub open spec fn keys_increasing(entries: Seq<(u64, SignatureShare)>) -> bool {
    forall|a: int, b: int| 0 <= a < b < entries.len() ==> entries[a].0 < entries[b].0
}

/// The keys of the entries, as field elements.
pub open spec fn entry_keys(entries: Seq<(u64, SignatureShare)>) -> Seq<int> {
    entries.map_values(|e: (u64, SignatureShare)| e.0 as int)
}

/// The logarithms of the shares of the entries.
pub open spec fn entry_logs(entries: Seq<(u64, SignatureShare)>) -> Seq<int> {
    entries.map_values(|e: (u64, SignatureShare)| e.1.0.log())
}

/// The aggregate of the entries' shares, as a logarithm: each share weighted
/// by the Lagrange coefficient of its index.
pub open spec fn aggregate_log(entries: Seq<(u64, SignatureShare)>) -> int {
    combination_log(
        Seq::new(entries.len(), |k: int| lagrange_coefficient(entry_keys(entries), k)),
        entry_logs(entries),
        entries.len() as int,
    )
}

/// Aggregates signature shares listed by strictly increasing signer index.
pub fn aggregate_sorted_shares(entries: &Vec<(u64, SignatureShare)>) -> (sig: Signature)
    requires
        entries@.len() > 0,
        keys_increasing(entries@),
        forall|k: int| 0 <= k < entries@.len() ==> (#[trigger] entries@[k]).1.0.wf(),
    ensures
        sig.0.wf(),
        sig.0.log() == aggregate_log(entries@),
{
    let mut keys: Vec<Scalar> = Vec::new();
    let mut k: usize = 0;
    while k < entries.len()
        invariant
            k <= entries@.len(),
            keys@.len() == k,
            forall|a: int|
                0 <= a < k ==> (#[trigger] keys@[a]).wf() && keys@[a].value() == entries@[a].0 as int,
        decreases entries@.len() - k,
    {
        keys.push(Scalar::from_u64(entries[k].0));
        k = k + 1;
    }
    let ghost xs = keys@.map_values(|s: Scalar| s.value());
    assert(xs =~= entry_keys(entries@));
    assert(distinct(xs)) by {
        assert forall|a: int, b: int| 0 <= a < xs.len() && 0 <= b < xs.len() && a != b implies xs[a] != xs[b] by {
            if a < b {
                assert(entries@[a].0 < entries@[b].0);
            } else {
                assert(entries@[b].0 < entries@[a].0);
            }
        }
    }
    let lams = lagrange_multipliers(keys);
    let ghost lam_vals = Seq::new(entries@.len(), |a: int| lagrange_coefficient(entry_keys(entries@), a));
    let mut acc = entries[0].1.0.scale(&lams[0]);
    proof {
        lemma_reduced(0);
        lemma_field_ranges(lam_vals[0], entry_logs(entries@)[0]);
        lemma_reduced(fmul(lam_vals[0], entry_logs(entries@)[0]));
        assert(combination_log(lam_vals, entry_logs(entries@), 0) == 0);
        assert(combination_log(lam_vals, entry_logs(entries@), 1) == fadd(0, fmul(lam_vals[0], entry_logs(entries@)[0])));
    }
    let mut i: usize = 1;
    while i < entries.len()
        invariant
            1 <= i <= entries@.len(),
            lams@.len() == entries@.len(),
            forall|a: int| 0 <= a < entries@.len() ==> (#[trigger] entries@[a]).1.0.wf(),
            forall|a: int| 0 <= a < lams@.len() ==> (#[trigger] lams@[a]).wf() && lams@[a].value() == lam_vals[a],
            lam_vals == Seq::new(entries@.len(), |a: int| lagrange_coefficient(entry_keys(entries@), a)),
            acc.wf(),
            acc.log() == combination_log(lam_vals, entry_logs(entries@), i as int),
        decreases entries@.len() - i,
    {
        let term = entries[i].1.0.scale(&lams[i]);
        acc = acc.plus(&term);
        i = i + 1;
    }
    Signature(acc)
}

/// The entries list exactly the map's contents, by strictly increasing key.
pub open spec fn entries_of(entries: Seq<(u64, SignatureShare)>, m: Map<u64, SignatureShare>) -> bool {
    &&& keys_increasing(entries)
    &&& entries.len() == m.dom().len()
    &&& forall|k: int|
        0 <= k < entries.len() ==> m.contains_key((#[trigger] entries[k]).0) && m[entries[k].0]
            == entries[k].1
}

/// Relies on `BTreeMap::iter`: it yields every entry once, by ascending key.
#[verifier::external_body]
fn share_entries(shares: &BTreeMap<u64, SignatureShare>) -> (r: Vec<(u64, SignatureShare)>)
    ensures
        entries_of(r@, shares@),
{
    shares.iter().map(|(k, v)| (*k, *v)).collect()
}

/// Aggregates signature shares keyed by signer index: the sum of the shares,
/// each weighted by the Lagrange coefficient at zero of its index within the
/// set of indices.
pub fn aggregate_signature_shares(shares: &BTreeMap<u64, SignatureShare>) -> (sig: Signature)
    requires
        shares@.dom().len() > 0,
        forall|k: u64| #[trigger] shares@.contains_key(k) ==> shares@[k].0.wf(),
    ensures
        sig.0.wf(),
        exists|entries: Seq<(u64, SignatureShare)>|
            entries_of(entries, shares@) && sig.0.log() == aggregate_log(entries),
{
    let entries = share_entries(shares);
    assert forall|k: int| 0 <= k < entries@.len() implies (#[trigger] entries@[k]).1.0.wf() by {
        assert(shares@.contains_key(entries@[k].0));
    }
    let sig = aggregate_sorted_shares(&entries);
    assert(entries_of(entries@, shares@) && sig.0.log() == aggregate_log(entries@));
    sig
}

} // verus!
