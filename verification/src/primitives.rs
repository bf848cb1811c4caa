//! Byte layout of scalars and curve points for an on-chain verifier: every
//! scalar and every coordinate is one 32-byte big-endian integer.

use bellman_ce::pairing::bn256::{Fr, G1Affine};
use bellman_ce::pairing::ff::PrimeField;
use bellman_ce::pairing::CurveAffine;
use vstd::prelude::*;

verus! {

/// A scalar of the BN256 curve, `bellman_ce::pairing::bn256::Fr`.
#[verifier::external_type_specification]
#[verifier::external_body]
pub struct ExFr(Fr);

/// A point of the group G1 in affine form, `bellman_ce::pairing::bn256::G1Affine`.
#[verifier::external_type_specification]
#[verifier::external_body]
pub struct ExG1Affine(G1Affine);

/// The four 64-bit digits, least significant first, of the integer in
/// `[0, r)` that a scalar stands for: what `PrimeField::into_repr` returns.
pub uninterp spec fn fr_repr(fe: Fr) -> Seq<u64>;

/// Whether a point is the point at infinity: what `CurveAffine::is_zero` returns.
pub uninterp spec fn g1_is_identity(point: G1Affine) -> bool;

/// The 64 bytes of a point's uncompressed encoding: what
/// `CurveAffine::into_uncompressed` returns.
pub uninterp spec fn g1_uncompressed(point: G1Affine) -> Seq<u8>;

/// Calls `PrimeField::into_repr` and hands out the digits of its result.
/// Believed, not proved: the digits are a function of the scalar alone.
#[verifier::external_body]
fn fr_into_repr(fe: &Fr) -> (limbs: [u64; 4])
    ensures
        limbs@ == fr_repr(*fe),
{
    fe.into_repr().0
}

/// Calls `CurveAffine::is_zero`. Believed, not proved: the answer is a
/// function of the point alone.
#[verifier::external_body]
fn g1_is_zero(point: &G1Affine) -> (r: bool)
    ensures
        r == g1_is_identity(*point),
{
    point.is_zero()
}

/// Calls `CurveAffine::into_uncompressed` and hands out the bytes of its
/// result. Believed, not proved: the bytes are a function of the point alone.
#[verifier::external_body]
fn g1_into_uncompressed(point: &G1Affine) -> (bytes: [u8; 64])
    ensures
        bytes@ == g1_uncompressed(*point),
{
    let encoded = point.into_uncompressed();
    let mut bytes = [0u8; 64];
    bytes.copy_from_slice(encoded.as_ref());
    bytes
}

/// Byte `i` of the 32-byte big-endian integer whose 64-bit digits, least
/// significant first, are `limbs`.
pub open spec fn be_byte(limbs: Seq<u64>, i: int) -> u8 {
    ((limbs[3 - i / 8] >> ((8 * (7 - i % 8)) as u64)) & 0xff) as u8
}

/// The 32-byte big-endian integer whose 64-bit digits, least significant
/// first, are `limbs`.
pub open spec fn be_bytes(limbs: Seq<u64>) -> Seq<u8> {
    Seq::new(32, |i: int| be_byte(limbs, i))
}

/// Thirty-two zero bytes.
pub open spec fn zero_word() -> Seq<u8> {
    Seq::new(32, |i: int| 0u8)
}

/// Writes four 64-bit digits, least significant first, as one 32-byte
/// big-endian integer.
pub fn limbs_to_be_bytes(limbs: &[u64; 4]) -> (out: [u8; 32])
    ensures
        out@ == be_bytes(limbs@),
{
    let mut out = [0u8; 32];
    let mut i: usize = 0;
    while i < 32
        invariant
            i <= 32,
            forall|k: int| 0 <= k < i ==> out@[k] == be_byte(limbs@, k),
        decreases 32 - i,
    {
        let limb: u64 = limbs[3 - i / 8];
        let shift: u64 = 8 * (7 - (i % 8) as u64);
        let low: u64 = (limb >> shift) & 0xff;
        assert(low <= 0xff) by (bit_vector)
            requires
                low == (limb >> shift) & 0xff,
        ;
        out[i] = low as u8;
        i += 1;
    }
    assert(out@ =~= be_bytes(limbs@));
    out
}

/// The scalar as a 32-byte big-endian integer.
pub fn serialize_fe_for_ethereum(field_element: &Fr) -> (out: [u8; 32])
    ensures
        out@ == be_bytes(fr_repr(*field_element)),
{
    let limbs = fr_into_repr(field_element);
    limbs_to_be_bytes(&limbs)
}

/// The two halves of an uncompressed encoding: the x coordinate, then the y
/// coordinate.
pub fn split_uncompressed(bytes: &[u8; 64]) -> (r: ([u8; 32], [u8; 32]))
    ensures
        r.0@ == bytes@.subrange(0, 32),
        r.1@ == bytes@.subrange(32, 64),
{
    let mut x = [0u8; 32];
    let mut y = [0u8; 32];
    let mut i: usize = 0;
    while i < 32
        invariant
            i <= 32,
            forall|k: int| 0 <= k < i ==> x@[k] == bytes@[k],
            forall|k: int| 0 <= k < i ==> y@[k] == bytes@[32 + k],
        decreases 32 - i,
    {
        x[i] = bytes[i];
        y[i] = bytes[32 + i];
        i += 1;
    }
    assert(x@ =~= bytes@.subrange(0, 32));
    assert(y@ =~= bytes@.subrange(32, 64));
    (x, y)
}

/// The pair of 32-byte words that stands for a point: two zero words for the
/// point at infinity, else the halves of its uncompressed encoding.
pub open spec fn g1_words(point: G1Affine) -> (Seq<u8>, Seq<u8>) {
    if g1_is_identity(point) {
        (zero_word(), zero_word())
    } else {
        (g1_uncompressed(point).subrange(0, 32), g1_uncompressed(point).subrange(32, 64))
    }
}

/// The point as its x and y coordinates, each a 32-byte big-endian integer;
/// the point at infinity as two zero words.
pub fn serialize_g1_for_ethereum(point: &G1Affine) -> (r: ([u8; 32], [u8; 32]))
    ensures
        r.0@ == g1_words(*point).0,
        r.1@ == g1_words(*point).1,
{
    if g1_is_zero(point) {
        let zero = [0u8; 32];
        assert(zero@ =~= zero_word());
        return (zero, zero);
    }
    let uncompressed = g1_into_uncompressed(point);
    split_uncompressed(&uncompressed)
}

} // verus!
