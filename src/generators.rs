//! The fixed generators of the scheme, each the hash of its own
//! domain-separation tag. Each call derives the same point again.
use crate::group::{g1_log, g2_log, G1Point, G2Point};
use crate::hash::{hash_to_g1, hash_to_g1_spec, hash_to_g2, hash_to_g2_spec};
use vstd::prelude::*;
use vstd::string::StringSliceAdditionalSpecFns;

verus! {

/// The encoding of the Pedersen commitment base for the message.
pub open spec fn pedersen_g_spec() -> Seq<u8> {
    hash_to_g1_spec("FEDIMINT_GENERATOR_PEDERSEN_G".spec_bytes())
}

/// The discrete logarithm of the Pedersen commitment base for the message.
pub open spec fn pedersen_g_log() -> int {
    g1_log(pedersen_g_spec())
}

/// The Pedersen commitment base for the message.
pub fn pedersen_g() -> (r: G1Point)
    ensures
        r.wf(),
        r@ == pedersen_g_spec(),
{
    hash_to_g1("FEDIMINT_GENERATOR_PEDERSEN_G".as_bytes())
}

/// The encoding of the Pedersen commitment base for the blinding.
pub open spec fn pedersen_h_spec() -> Seq<u8> {
    hash_to_g1_spec("FEDIMINT_GENERATOR_PEDERSEN_H".spec_bytes())
}

/// The discrete logarithm of the Pedersen commitment base for the blinding.
pub open spec fn pedersen_h_log() -> int {
    g1_log(pedersen_h_spec())
}

/// The Pedersen commitment base for the blinding.
pub fn pedersen_h() -> (r: G1Point)
    ensures
        r.wf(),
        r@ == pedersen_h_spec(),
{
    hash_to_g1("FEDIMINT_GENERATOR_PEDERSEN_H".as_bytes())
}

/// The encoding of the base of G1 for keys and blindings.
pub open spec fn ecash_g1_spec() -> Seq<u8> {
    hash_to_g1_spec("FEDIMINT_GENERATOR_ECASH_G1".spec_bytes())
}

/// The discrete logarithm of the base of G1 for keys and blindings.
pub open spec fn ecash_g1_log() -> int {
    g1_log(ecash_g1_spec())
}

/// The base of G1 for keys and blindings.
pub fn ecash_g1() -> (r: G1Point)
    ensures
        r.wf(),
        r@ == ecash_g1_spec(),
{
    hash_to_g1("FEDIMINT_GENERATOR_ECASH_G1".as_bytes())
}

/// The encoding of the base of G2 for keys and signature checks.
pub open spec fn ecash_g2_spec() -> Seq<u8> {
    hash_to_g2_spec("FEDIMINT_GENERATOR_ECASH_G2".spec_bytes())
}

/// The discrete logarithm of the base of G2 for keys and signature checks.
pub open spec fn ecash_g2_log() -> int {
    g2_log(ecash_g2_spec())
}

/// The base of G2 for keys and signature checks.
pub fn ecash_g2() -> (r: G2Point)
    ensures
        r.wf(),
        r@ == ecash_g2_spec(),
{
    hash_to_g2("FEDIMINT_GENERATOR_ECASH_G2".as_bytes())
}

/// The encoding of the message base for the amount.
pub open spec fn ecash_h1_spec() -> Seq<u8> {
    hash_to_g1_spec("FEDIMINT_GENERATOR_ECASH_H1".spec_bytes())
}

/// The discrete logarithm of the message base for the amount.
pub open spec fn ecash_h1_log() -> int {
    g1_log(ecash_h1_spec())
}

/// The message base for the amount.
pub fn ecash_h1() -> (r: G1Point)
    ensures
        r.wf(),
        r@ == ecash_h1_spec(),
{
    hash_to_g1("FEDIMINT_GENERATOR_ECASH_H1".as_bytes())
}

/// The encoding of the message base for the serial.
pub open spec fn ecash_h2_spec() -> Seq<u8> {
    hash_to_g1_spec("FEDIMINT_GENERATOR_ECASH_H2".spec_bytes())
}

/// The discrete logarithm of the message base for the serial.
pub open spec fn ecash_h2_log() -> int {
    g1_log(ecash_h2_spec())
}

/// The message base for the serial.
pub fn ecash_h2() -> (r: G1Point)
    ensures
        r.wf(),
        r@ == ecash_h2_spec(),
{
    hash_to_g1("FEDIMINT_GENERATOR_ECASH_H2".as_bytes())
}

/// The encoding of the message base for the authentication tag.
pub open spec fn ecash_h3_spec() -> Seq<u8> {
    hash_to_g1_spec("FEDIMINT_GENERATOR_ECASH_H3".spec_bytes())
}

/// The discrete logarithm of the message base for the authentication tag.
pub open spec fn ecash_h3_log() -> int {
    g1_log(ecash_h3_spec())
}

/// The message base for the authentication tag.
pub fn ecash_h3() -> (r: G1Point)
    ensures
        r.wf(),
        r@ == ecash_h3_spec(),
{
    hash_to_g1("FEDIMINT_GENERATOR_ECASH_H3".as_bytes())
}

} // verus!
