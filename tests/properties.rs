use ecash::dealer::{dealer_keygen, evaluate};
use ecash::generators::{ecash_g1, ecash_g2, ecash_h1, pedersen_g, pedersen_h};
use ecash::hash::{hash_g1_to_g1, hash_to_g1, hash_to_scalar, map_to_scalar};
use ecash::issuance::{compute_c_k, get_challenge_issuance, prove_issuance_with_nonces};
use ecash::threshold::{aggregate_sorted_shares, compute_message, lagrange_multipliers, verify};
use ecash::{
    aggregate_signature_shares, G1Point, G2Point, IssuanceRequest, Scalar, SignatureShare,
};
use std::collections::BTreeMap;

fn digest(text: &str) -> [u8; 32] {
    let hash = <bitcoin_hashes::sha256::Hash as bitcoin_hashes::Hash>::hash(text.as_bytes());
    bitcoin_hashes::Hash::into_inner(hash)
}

fn small(v: u64) -> Scalar {
    Scalar::from_u64(v)
}

fn le(v: u64) -> [u8; 32] {
    let mut b = [0u8; 32];
    b[..8].copy_from_slice(&v.to_le_bytes());
    b
}

const MODULUS_LE: [u8; 32] = [
    0x01, 0x00, 0x00, 0x00, 0xff, 0xff, 0xff, 0xff, 0xfe, 0x5b, 0xfe, 0xff, 0x02, 0xa4, 0xbd, 0x53,
    0x05, 0xd8, 0xa1, 0x09, 0x08, 0xd8, 0x39, 0x33, 0x48, 0x7d, 0x9d, 0x29, 0x53, 0xa7, 0xed, 0x73,
];

fn modulus_minus(v: u8) -> [u8; 32] {
    let mut out = MODULUS_LE;
    let mut borrow = v as i16;
    for byte in out.iter_mut() {
        let d = *byte as i16 - borrow;
        if d < 0 {
            *byte = (d + 256) as u8;
            borrow = 1;
        } else {
            *byte = d as u8;
            borrow = 0;
        }
    }
    out
}

fn shares_by_index(shares: &[SignatureShare], indices: &[u64]) -> BTreeMap<u64, SignatureShare> {
    indices.iter().map(|i| (*i, shares[(*i - 1) as usize])).collect()
}

#[test]
fn scalar_arithmetic_is_modular() {
    // f(x) = -1 + x: addition and multiplication reduce modulo q.
    let minus_one = Scalar::from_bytes(modulus_minus(1)).unwrap();
    let f = vec![minus_one, small(1)];
    assert_eq!(evaluate(&f, &small(0)).to_bytes(), modulus_minus(1));
    assert_eq!(evaluate(&f, &small(1)).to_bytes(), le(0));
    assert_eq!(evaluate(&f, &small(43)).to_bytes(), le(42));
    // 2 / (2 - 1) for the point 1 of {1, 2}; 1 / (1 - 2) = -1 for the point 2.
    let lambdas = lagrange_multipliers(vec![small(1), small(2)]);
    assert_eq!(lambdas[0].to_bytes(), le(2));
    assert_eq!(lambdas[1].to_bytes(), modulus_minus(1));
    // 3 / (3 - 1) for the point 1 of {1, 3}: a true inverse of 2.
    let lambdas = lagrange_multipliers(vec![small(1), small(3)]);
    let half_of_three = lambdas[0];
    assert_eq!(evaluate(&vec![small(0), half_of_three], &small(2)).to_bytes(), le(3));
}

#[test]
fn scalar_decoding_rejects_non_canonical() {
    assert!(Scalar::from_bytes(MODULUS_LE).is_none());
    let five = Scalar::from_bytes(le(5)).unwrap();
    assert_eq!(five.to_bytes(), le(5));
    assert_eq!(Scalar::from_u64(1000).to_bytes(), le(1000));
    assert!(Scalar::from_u64(0).is_zero());
    assert!(!Scalar::from_u64(256).is_zero());
    assert!(!Scalar::from_bytes(modulus_minus(1)).unwrap().is_zero());
}

#[test]
fn group_law_and_scaling_agree() {
    let g = ecash_g1();
    // compute_c_k(m, r, g1) = (m + r) * g1.
    let two_g = compute_c_k(small(2), small(0), g);
    assert_eq!(two_g.to_compressed(), compute_c_k(small(1), small(1), g).to_compressed());
    assert_eq!(compute_c_k(small(1), small(0), g).to_compressed(), g.to_compressed());
    assert_ne!(two_g.to_compressed(), g.to_compressed());
}

#[test]
fn point_decoding_round_trips() {
    let p = ecash_h1();
    let back = G1Point::from_compressed(p.to_compressed()).unwrap();
    assert_eq!(back.to_compressed(), p.to_compressed());
    let mut bad = p.to_compressed();
    bad[0] &= 0x7f;
    assert!(G1Point::from_compressed(bad).is_none());
    let q = ecash_g2();
    assert_eq!(G2Point::from_compressed(q.to_compressed()).unwrap().to_compressed(), q.to_compressed());
}

#[test]
fn pairing_is_bilinear() {
    let g1 = ecash_g1();
    let g2 = ecash_g2();
    let message = compute_message(&[g2, g2, g2, g2], small(1), small(1), small(1));
    let h = compute_c_k(small(3), small(0), g1);
    assert!(verify(message, h, compute_c_k(small(12), small(0), g1)));
    assert!(!verify(message, h, compute_c_k(small(11), small(0), g1)));
}

#[test]
fn hashing_is_deterministic_and_separating() {
    assert_eq!(hash_to_scalar(b"a").to_bytes(), hash_to_scalar(b"a").to_bytes());
    assert_ne!(hash_to_scalar(b"a").to_bytes(), hash_to_scalar(b"b").to_bytes());
    assert_eq!(
        hash_to_scalar(b"authentication").to_bytes(),
        map_to_scalar(&digest("authentication")).to_bytes()
    );
    assert_eq!(hash_to_g1(b"x").to_compressed(), hash_to_g1(b"x").to_compressed());
    let p = pedersen_g();
    assert_ne!(hash_g1_to_g1(&p).to_compressed(), p.to_compressed());
    assert_eq!(
        hash_g1_to_g1(&p).to_compressed(),
        hash_to_g1(&p.to_compressed()).to_compressed()
    );
}

#[test]
fn generators_are_stable_and_distinct() {
    assert_eq!(ecash_g1().to_compressed(), ecash_g1().to_compressed());
    assert_ne!(pedersen_g().to_compressed(), pedersen_h().to_compressed());
    assert_eq!(
        pedersen_g().to_compressed(),
        hash_to_g1(b"FEDIMINT_GENERATOR_PEDERSEN_G").to_compressed()
    );
}

#[test]
fn horner_evaluation() {
    let coefficients = vec![small(1), small(2), small(3)];
    assert_eq!(evaluate(&coefficients, &small(2)).to_bytes(), le(17));
    assert_eq!(evaluate(&coefficients, &small(0)).to_bytes(), le(1));
}

#[test]
fn lagrange_identity_on_three_points() {
    let f = vec![small(5), small(7), small(11)];
    let xs = vec![small(1), small(2), small(3)];
    let lambdas = lagrange_multipliers(xs.clone());
    assert_eq!(lambdas[0].to_bytes(), le(3));
    assert_eq!(lambdas[1].to_bytes(), modulus_minus(3));
    assert_eq!(lambdas[2].to_bytes(), le(1));
    // Aggregating the points f(i) * g1 gives f(0) * g1.
    let g = ecash_g1();
    let entries: Vec<(u64, SignatureShare)> = (1u64..=3)
        .map(|i| (i, SignatureShare(compute_c_k(evaluate(&f, &small(i)), small(0), g))))
        .collect();
    let combined = aggregate_sorted_shares(&entries);
    assert_eq!(
        combined.0.to_compressed(),
        compute_c_k(small(5), small(0), g).to_compressed()
    );
}

#[test]
fn lagrange_single_point_is_one() {
    let lambdas = lagrange_multipliers(vec![small(4)]);
    assert_eq!(lambdas[0].to_bytes(), le(1));
}

#[test]
fn aggregation_of_one_share_is_the_share() {
    let share = SignatureShare(compute_c_k(small(9), small(0), ecash_g1()));
    let sig = aggregate_sorted_shares(&vec![(3, share)]);
    assert_eq!(sig.0.to_compressed(), share.0.to_compressed());
}

#[test]
fn challenge_is_deterministic() {
    let req = IssuanceRequest::with_randomness(
        1000,
        digest("authentication"),
        small(11),
        small(12),
        small(13),
        small(14),
        small(15),
        small(16),
    );
    let iss = req.prepare_issuance();
    let c1 = get_challenge_issuance(&iss.y, &iss.r);
    let c2 = get_challenge_issuance(&iss.y, &iss.r);
    assert_eq!(c1.to_bytes(), c2.to_bytes());
    let x = [req.m_1, req.m_2, req.m_3, req.r_p, req.r_m, req.r_1, req.r_2, req.r_3];
    let nonces = [small(1), small(2), small(3), small(4), small(5), small(6), small(7), small(8)];
    let h = req.compute_h();
    let (r_a, s_a) = prove_issuance_with_nonces(iss.y, x, h, nonces);
    let (r_b, s_b) = prove_issuance_with_nonces(iss.y, x, h, nonces);
    for i in 0..5 {
        assert_eq!(r_a[i].to_compressed(), r_b[i].to_compressed());
    }
    for i in 0..8 {
        assert_eq!(s_a[i].to_bytes(), s_b[i].to_bytes());
    }
    let forged = ecash::Issuance { y: iss.y, r: r_a, s: s_a };
    assert!(forged.verify());
}

#[test]
fn tampered_issuance_is_rejected() {
    let req = IssuanceRequest::new(1000, digest("authentication"), Scalar::random());
    let iss = req.prepare_issuance();
    assert!(iss.verify());
    let mut bytes = iss.y[2].to_compressed();
    bytes[47] ^= 1;
    match G1Point::from_compressed(bytes) {
        None => {}
        Some(p) => {
            let mut bad = iss;
            bad.y[2] = p;
            assert!(!bad.verify());
        }
    }
    let mut bad = iss;
    bad.y[2] = compute_c_k(small(1), small(1), iss.y[2]);
    assert!(!bad.verify());
}

#[test]
fn spend_under_other_tag_fails() {
    let amount = 1000;
    let auth = digest("authentication");
    let req = IssuanceRequest::new(amount, auth, Scalar::random());
    let iss = req.prepare_issuance();
    let (apk, _, sks) = dealer_keygen(5, 7);
    let shares: Vec<SignatureShare> = sks.iter().map(|sk| iss.sign(sk)).collect();
    let sig = aggregate_signature_shares(&shares_by_index(&shares, &[1, 2, 3, 4, 5]));
    assert!(req.verify_blind_signature(&apk, &sig));
    let sr = req.finalize_issuance(&apk, &sig);
    assert!(sr.verify(&apk, amount, auth));
    assert!(!sr.verify(&apk, amount + 1, auth));
    let spend = sr.prepare_spend(&apk, amount, Scalar::random());
    assert!(spend.verify(apk, auth));
    assert!(!spend.verify(apk, digest("other")));
    let wrong_amount = sr.prepare_spend(&apk, amount + 1, Scalar::random());
    assert!(!wrong_amount.verify(apk, auth));
}

#[test]
fn too_few_shares_do_not_verify() {
    let req = IssuanceRequest::new(1000, digest("authentication"), Scalar::random());
    let iss = req.prepare_issuance();
    let (apk, pks, sks) = dealer_keygen(5, 7);
    let shares: Vec<SignatureShare> = sks.iter().map(|sk| iss.sign(sk)).collect();
    for (pk, share) in pks.iter().zip(shares.iter()) {
        assert!(req.verify_blind_signature_share(pk, share));
    }
    assert!(!req.verify_blind_signature_share(&pks[0], &shares[1]));
    let four = aggregate_signature_shares(&shares_by_index(&shares, &[1, 2, 3, 4]));
    assert!(!req.verify_blind_signature(&apk, &four));
    assert!(req.try_finalize_issuance(&apk, &four).is_none());
    let other_five = aggregate_signature_shares(&shares_by_index(&shares, &[3, 4, 5, 6, 7]));
    assert!(req.verify_blind_signature(&apk, &other_five));
    let sr = req.try_finalize_issuance(&apk, &other_five).unwrap();
    assert!(sr.verify(&apk, 1000, digest("authentication")));
}

#[test]
fn amount_commitment_survives_spending() {
    let amount = 250;
    let auth = digest("authentication");
    let r_p = Scalar::random();
    let req = IssuanceRequest::new(amount, auth, r_p);
    let iss = req.prepare_issuance();
    let (apk, _, sks) = dealer_keygen(3, 4);
    let shares: Vec<SignatureShare> = sks.iter().map(|sk| iss.sign(sk)).collect();
    let sig = aggregate_signature_shares(&shares_by_index(&shares, &[1, 2, 3]));
    let sr = req.finalize_issuance(&apk, &sig);
    let spend = sr.prepare_spend(&apk, amount, r_p);
    assert_eq!(
        iss.amount_commitment().to_compressed(),
        spend.amount_commitment().to_compressed()
    );
    assert!(spend.verify(apk, auth));
}

#[test]
fn independent_coins_are_unlinked() {
    let amount = 1000;
    let auth = digest("authentication");
    let (apk, _, sks) = dealer_keygen(3, 4);
    let mut spends = Vec::new();
    for _ in 0..2 {
        let req = IssuanceRequest::new(amount, auth, Scalar::random());
        let iss = req.prepare_issuance();
        let shares: Vec<SignatureShare> = sks.iter().map(|sk| iss.sign(sk)).collect();
        let sig = aggregate_signature_shares(&shares_by_index(&shares, &[2, 3, 4]));
        let sr = req.finalize_issuance(&apk, &sig);
        let spend = sr.prepare_spend(&apk, amount, Scalar::random());
        assert!(spend.verify(apk, auth));
        spends.push(spend);
    }
    assert_ne!(spends[0].h.to_compressed(), spends[1].h.to_compressed());
    assert_ne!(spends[0].y.0.to_compressed(), spends[1].y.0.to_compressed());
    assert_ne!(spends[0].signature.to_compressed(), spends[1].signature.to_compressed());
}
