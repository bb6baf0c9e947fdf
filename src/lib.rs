//! The cryptographic core of a threshold-issued anonymous ecash scheme:
//! commitments, the issuance and spend proofs, and a blind threshold
//! Pointcheval-Sanders signature over BLS12-381.
pub mod coin;
pub mod dealer;
pub mod field;
pub mod generators;
pub mod group;
pub mod hash;
pub mod issuance;
pub mod spend;
pub mod threshold;

pub use coin::{Issuance, IssuanceRequest, Spend, SpendRequest};
pub use field::Scalar;
pub use group::{G1Point, G2Point};
pub use threshold::{
    aggregate_signature_shares, AggregatePublicKey, PublicKeyShare, SecretKeyShare, Signature,
    SignatureShare,
};
