use ecash::dealer::dealer_keygen;
use ecash::{aggregate_signature_shares, IssuanceRequest, Scalar, SignatureShare};
use std::collections::BTreeMap;
use std::time::Instant;

fn digest(text: &str) -> [u8; 32] {
    let hash = <bitcoin_hashes::sha256::Hash as bitcoin_hashes::Hash>::hash(text.as_bytes());
    bitcoin_hashes::Hash::into_inner(hash)
}

#[test]
fn test_roundtrip() {
    let amount = 1000;
    let auth = digest("authentication");

    let issuance_request = IssuanceRequest::new(amount, auth, Scalar::random());

    let issuance = issuance_request.prepare_issuance();

    assert!(issuance.verify());

    let (apk, pks, sks) = dealer_keygen(5, 7);

    let signature_shares = sks
        .iter()
        .map(|sk| issuance.sign(sk))
        .collect::<Vec<SignatureShare>>();

    for (pk, share) in pks.iter().zip(signature_shares.iter()) {
        assert!(issuance_request.verify_blind_signature_share(pk, share));
    }

    let signature_shares = (1_u64..)
        .zip(signature_shares)
        .take(5)
        .collect::<BTreeMap<u64, SignatureShare>>();

    let signature = aggregate_signature_shares(&signature_shares);

    assert!(issuance_request.verify_blind_signature(&apk, &signature));

    let spend_request = issuance_request.finalize_issuance(&apk, &signature);

    assert!(spend_request.verify(&apk, amount, auth));

    let r_p = Scalar::random();

    let spend = spend_request.prepare_spend(&apk, amount, r_p);

    assert!(spend.verify(apk, auth));
}

#[test]
fn test_issuance_timing() {
    let amount = 1000;
    let auth = digest("authentication");

    let issuance_request = IssuanceRequest::new(amount, auth, Scalar::random());

    let issuance = issuance_request.prepare_issuance();

    let start = Instant::now();
    let verify_result = issuance.verify();
    let verify_duration = start.elapsed();
    assert!(verify_result);
    println!("Issuance verify took: {:?}", verify_duration);

    let (_, _, sks) = dealer_keygen(5, 7);
    let sk = &sks[0];

    let start = Instant::now();
    let signature = issuance.sign(sk);
    let sign_duration = start.elapsed();
    println!("Issuance sign took: {:?}", sign_duration);

    assert_ne!(
        signature.0.to_compressed(),
        bls12_381::G1Affine::identity().to_compressed()
    );
}
