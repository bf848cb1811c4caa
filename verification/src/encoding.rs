//! The externally visible form of a proof: two ordered sequences of 32-byte
//! words, the public inputs and the proof elements, decoded by position.

use crate::primitives::{
    be_bytes, fr_repr, g1_words, serialize_fe_for_ethereum, serialize_g1_for_ethereum, zero_word,
};
use bellman_ce::pairing::bn256::{Fr, G1Affine};
use vstd::prelude::*;

verus! {

/// The elements of a PLONK proof over BN256 with four wires, in the order in
/// which they are encoded.
pub struct PlonkProof {
    pub input_values: Vec<Fr>,
    pub wire_commitments: Vec<G1Affine>,
    pub grand_product_commitment: G1Affine,
    pub quotient_poly_commitments: Vec<G1Affine>,
    pub wire_values_at_z: Vec<Fr>,
    pub wire_values_at_z_omega: Vec<Fr>,
    pub grand_product_at_z_omega: Fr,
    pub quotient_polynomial_at_z: Fr,
    pub linearization_polynomial_at_z: Fr,
    pub permutation_polynomials_at_z: Vec<Fr>,
    pub opening_at_z_proof: G1Affine,
    pub opening_at_z_omega_proof: G1Affine,
}

/// The byte content of a sequence of words.
pub open spec fn words_of(v: Seq<[u8; 32]>) -> Seq<Seq<u8>> {
    Seq::new(v.len(), |i: int| v[i]@)
}

/// One word per scalar, in order.
pub open spec fn scalar_words(scalars: Seq<Fr>) -> Seq<Seq<u8>> {
    Seq::new(scalars.len(), |i: int| be_bytes(fr_repr(scalars[i])))
}

/// Two words per point, x before y, in order.
pub open spec fn point_words(points: Seq<G1Affine>) -> Seq<Seq<u8>> {
    Seq::new(
        2 * points.len(),
        |i: int|
            if i % 2 == 0 {
                g1_words(points[i / 2]).0
            } else {
                g1_words(points[i / 2]).1
            },
    )
}

/// The mathematical content of an encoded proof.
pub struct EncodedProofView {
    pub inputs: Seq<Seq<u8>>,
    pub proof: Seq<Seq<u8>>,
}

/// A proof as an on-chain verifier reads it.
#[derive(Clone, Debug, PartialEq)]
pub struct EncodedProofPlonk {
    pub inputs: Vec<[u8; 32]>,
    pub proof: Vec<[u8; 32]>,
}

impl View for EncodedProofPlonk {
    type V = EncodedProofView;

    open spec fn view(&self) -> EncodedProofView {
        EncodedProofView { inputs: words_of(self.inputs@), proof: words_of(self.proof@) }
    }
}

/// `count` zero words.
fn zero_words(count: usize) -> (v: Vec<[u8; 32]>)
    ensures
        words_of(v@) == Seq::new(count as nat, |i: int| zero_word()),
{
    let mut v: Vec<[u8; 32]> = Vec::new();
    let mut i: usize = 0;
    while i < count
        invariant
            i <= count,
            v@.len() == i,
            forall|k: int| 0 <= k < i ==> (#[trigger] v@[k])@ == zero_word(),
        decreases count - i,
    {
        let word = [0u8; 32];
        assert(word@ =~= zero_word());
        v.push(word);
        i += 1;
    }
    assert(words_of(v@) =~= Seq::new(count as nat, |i: int| zero_word()));
    v
}

impl Default for EncodedProofPlonk {
    /// The empty proof: one zero input word and thirty-three zero proof words.
    fn default() -> (r: Self)
        ensures
            r@.inputs == Seq::new(1, |i: int| zero_word()),
            r@.proof == Seq::new(33, |i: int| zero_word()),
    {
        EncodedProofPlonk { inputs: zero_words(1), proof: zero_words(33) }
    }
}

/// The proof words in their fixed order: wire commitments, grand-product
/// commitment, quotient commitments, wire values at z, wire values at the
/// shifted point, grand product at the shifted point, quotient value,
/// linearization value, permutation values, the two opening proofs.
pub open spec fn proof_words(p: PlonkProof) -> Seq<Seq<u8>> {
    point_words(p.wire_commitments@) + point_words(seq![p.grand_product_commitment])
        + point_words(p.quotient_poly_commitments@) + scalar_words(p.wire_values_at_z@)
        + scalar_words(p.wire_values_at_z_omega@) + scalar_words(
        seq![
            p.grand_product_at_z_omega,
            p.quotient_polynomial_at_z,
            p.linearization_polynomial_at_z,
        ],
    ) + scalar_words(p.permutation_polynomials_at_z@) + point_words(
        seq![p.opening_at_z_proof, p.opening_at_z_omega_proof],
    )
}

/// Whether `encoded` is the encoding of `p`: one word per public input, and
/// the proof words in their fixed order.
pub open spec fn is_encoding_of(encoded: EncodedProofView, p: PlonkProof) -> bool {
    encoded.inputs == scalar_words(p.input_values@) && encoded.proof == proof_words(p)
}

/// A proof has one encoding: whatever two runs of the encoder hand out for
/// the same proof is word for word the same, with as many input words as the
/// proof has public inputs.
pub proof fn lemma_encoding_is_unique(p: PlonkProof, first: EncodedProofView, second: EncodedProofView)
    requires
        is_encoding_of(first, p),
        is_encoding_of(second, p),
    ensures
        first == second,
        first.inputs.len() == p.input_values@.len(),
{
}

/// Appends the word of one scalar.
fn push_scalar(out: &mut Vec<[u8; 32]>, scalar: &Fr)
    ensures
        words_of(final(out)@) == words_of(old(out)@) + scalar_words(seq![*scalar]),
{
    out.push(serialize_fe_for_ethereum(scalar));
    assert(words_of(out@) =~= words_of(old(out)@) + scalar_words(seq![*scalar]));
}

/// Appends the two words of one point.
fn push_point(out: &mut Vec<[u8; 32]>, point: &G1Affine)
    ensures
        words_of(final(out)@) == words_of(old(out)@) + point_words(seq![*point]),
{
    let (x, y) = serialize_g1_for_ethereum(point);
    out.push(x);
    out.push(y);
    assert(words_of(out@) =~= words_of(old(out)@) + point_words(seq![*point]));
}

/// Appends the words of the scalars, in order.
fn push_scalars(out: &mut Vec<[u8; 32]>, scalars: &Vec<Fr>)
    ensures
        words_of(final(out)@) == words_of(old(out)@) + scalar_words(scalars@),
{
    let mut i: usize = 0;
    while i < scalars.len()
        invariant
            i <= scalars.len(),
            words_of(out@) == words_of(old(out)@) + scalar_words(scalars@.subrange(0, i as int)),
        decreases scalars.len() - i,
    {
        push_scalar(out, &scalars[i]);
        assert(words_of(out@) =~= words_of(old(out)@) + scalar_words(
            scalars@.subrange(0, i + 1),
        ));
        i += 1;
    }
    assert(scalars@.subrange(0, i as int) =~= scalars@);
}

/// Appends the words of the points, in order.
fn push_points(out: &mut Vec<[u8; 32]>, points: &Vec<G1Affine>)
    ensures
        words_of(final(out)@) == words_of(old(out)@) + point_words(points@),
{
    let mut i: usize = 0;
    while i < points.len()
        invariant
            i <= points.len(),
            words_of(out@) == words_of(old(out)@) + point_words(points@.subrange(0, i as int)),
        decreases points.len() - i,
    {
        push_point(out, &points[i]);
        assert(words_of(out@) =~= words_of(old(out)@) + point_words(
            points@.subrange(0, i + 1),
        ));
        i += 1;
    }
    assert(points@.subrange(0, i as int) =~= points@);
}

/// Encodes a proof for an on-chain verifier: one word per public input, and
/// the proof elements as `proof_words` orders them.
pub fn serialize_proof(proof: &PlonkProof) -> (r: EncodedProofPlonk)
    ensures
        is_encoding_of(r@, *proof),
        r.inputs@.len() == proof.input_values@.len(),
{
    let mut inputs: Vec<[u8; 32]> = Vec::new();
    assert(words_of(inputs@) =~= Seq::empty());
    push_scalars(&mut inputs, &proof.input_values);

    let mut words: Vec<[u8; 32]> = Vec::new();
    assert(words_of(words@) =~= Seq::empty());
    push_points(&mut words, &proof.wire_commitments);
    push_point(&mut words, &proof.grand_product_commitment);
    push_points(&mut words, &proof.quotient_poly_commitments);
    push_scalars(&mut words, &proof.wire_values_at_z);
    push_scalars(&mut words, &proof.wire_values_at_z_omega);
    let ghost mid = words_of(words@);
    push_scalar(&mut words, &proof.grand_product_at_z_omega);
    push_scalar(&mut words, &proof.quotient_polynomial_at_z);
    push_scalar(&mut words, &proof.linearization_polynomial_at_z);
    assert(words_of(words@) =~= mid + scalar_words(
        seq![
            proof.grand_product_at_z_omega,
            proof.quotient_polynomial_at_z,
            proof.linearization_polynomial_at_z,
        ],
    ));
    push_scalars(&mut words, &proof.permutation_polynomials_at_z);
    let ghost late = words_of(words@);
    push_point(&mut words, &proof.opening_at_z_proof);
    push_point(&mut words, &proof.opening_at_z_omega_proof);
    assert(words_of(words@) =~= late + point_words(
        seq![proof.opening_at_z_proof, proof.opening_at_z_omega_proof],
    ));
    assert(words_of(inputs@) =~= scalar_words(proof.input_values@));
    assert(words_of(words@) =~= proof_words(*proof));
    EncodedProofPlonk { inputs, proof: words }
}

} // verus!
