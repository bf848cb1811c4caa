use bellman_ce::pairing::bn256::{Fr, G1Affine};
use bellman_ce::pairing::ff::{Field, PrimeField};
use bellman_ce::pairing::{CurveAffine, CurveProjective};
use plonk_xor::encoding::{serialize_proof, EncodedProofPlonk, PlonkProof};
use plonk_xor::primitives::{
    limbs_to_be_bytes, serialize_fe_for_ethereum, serialize_g1_for_ethereum, split_uncompressed,
};

fn word(last: u8) -> [u8; 32] {
    let mut w = [0u8; 32];
    w[31] = last;
    w
}

fn scalar(n: u64) -> Fr {
    Fr::from_str(&n.to_string()).unwrap()
}

fn multiple_of_generator(n: u64) -> G1Affine {
    G1Affine::one().mul(scalar(n).into_repr()).into_affine()
}

#[test]
fn default_encoded_proof_is_all_zero() {
    let d = EncodedProofPlonk::default();
    assert_eq!(d.inputs.len(), 1);
    assert_eq!(d.proof.len(), 33);
    assert!(d.inputs.iter().all(|w| *w == [0u8; 32]));
    assert!(d.proof.iter().all(|w| *w == [0u8; 32]));
}

#[test]
fn limbs_are_written_most_significant_first() {
    assert_eq!(limbs_to_be_bytes(&[1, 0, 0, 0]), word(1));
    assert_eq!(limbs_to_be_bytes(&[0, 0, 0, 0]), [0u8; 32]);
    let out = limbs_to_be_bytes(&[
        0x0102030405060708,
        0x1112131415161718,
        0x2122232425262728,
        0x3132333435363738,
    ]);
    let expected: [u8; 32] = [
        0x31, 0x32, 0x33, 0x34, 0x35, 0x36, 0x37, 0x38, 0x21, 0x22, 0x23, 0x24, 0x25, 0x26, 0x27,
        0x28, 0x11, 0x12, 0x13, 0x14, 0x15, 0x16, 0x17, 0x18, 0x01, 0x02, 0x03, 0x04, 0x05, 0x06,
        0x07, 0x08,
    ];
    assert_eq!(out, expected);
    assert_eq!(limbs_to_be_bytes(&[u64::MAX; 4]), [0xffu8; 32]);
}

#[test]
fn scalars_are_big_endian_integers() {
    assert_eq!(serialize_fe_for_ethereum(&Fr::zero()), [0u8; 32]);
    assert_eq!(serialize_fe_for_ethereum(&Fr::one()), word(1));
    let mut w = [0u8; 32];
    w[30] = 1;
    w[31] = 2;
    assert_eq!(serialize_fe_for_ethereum(&scalar(258)), w);
    let mut big = [0u8; 32];
    big[23] = 1;
    let mut two_to_64 = scalar(1u64 << 63);
    two_to_64.double();
    assert_eq!(serialize_fe_for_ethereum(&two_to_64), big);
}

#[test]
fn minus_one_is_the_modulus_less_one() {
    let mut minus_one = Fr::one();
    minus_one.negate();
    let expected =
        hex::decode("30644e72e131a029b85045b68181585d2833e84879b9709143e1f593f0000000").unwrap();
    assert_eq!(serialize_fe_for_ethereum(&minus_one).to_vec(), expected);
}

#[test]
fn point_at_infinity_is_two_zero_words() {
    assert_eq!(serialize_g1_for_ethereum(&G1Affine::zero()), ([0u8; 32], [0u8; 32]));
}

#[test]
fn generator_is_one_two() {
    assert_eq!(serialize_g1_for_ethereum(&G1Affine::one()), (word(1), word(2)));
}

#[test]
fn point_words_are_the_coordinates() {
    let p = multiple_of_generator(2);
    let (x, y) = p.into_xy_unchecked();
    let (wx, wy) = serialize_g1_for_ethereum(&p);
    let mut ex = [0u8; 32];
    let mut ey = [0u8; 32];
    for (i, limb) in x.into_repr().0.iter().rev().enumerate() {
        ex[8 * i..8 * i + 8].copy_from_slice(&limb.to_be_bytes());
    }
    for (i, limb) in y.into_repr().0.iter().rev().enumerate() {
        ey[8 * i..8 * i + 8].copy_from_slice(&limb.to_be_bytes());
    }
    assert_eq!((wx, wy), (ex, ey));
    assert_ne!(wx, word(1));
}

#[test]
fn uncompressed_encoding_splits_in_halves() {
    let mut bytes = [0u8; 64];
    for (i, b) in bytes.iter_mut().enumerate() {
        *b = i as u8;
    }
    let (x, y) = split_uncompressed(&bytes);
    assert_eq!(x.to_vec(), (0u8..32).collect::<Vec<u8>>());
    assert_eq!(y.to_vec(), (32u8..64).collect::<Vec<u8>>());
}

fn sample_proof() -> PlonkProof {
    PlonkProof {
        input_values: vec![scalar(1), scalar(0), scalar(1)],
        wire_commitments: vec![G1Affine::one(), G1Affine::zero(), G1Affine::one(), G1Affine::one()],
        grand_product_commitment: G1Affine::zero(),
        quotient_poly_commitments: vec![
            G1Affine::one(),
            G1Affine::one(),
            G1Affine::zero(),
            G1Affine::one(),
        ],
        wire_values_at_z: vec![scalar(10), scalar(11), scalar(12), scalar(13)],
        wire_values_at_z_omega: vec![scalar(20)],
        grand_product_at_z_omega: scalar(30),
        quotient_polynomial_at_z: scalar(31),
        linearization_polynomial_at_z: scalar(32),
        permutation_polynomials_at_z: vec![scalar(40), scalar(41), scalar(42)],
        opening_at_z_proof: G1Affine::one(),
        opening_at_z_omega_proof: G1Affine::zero(),
    }
}

#[test]
fn proof_words_come_in_the_fixed_order() {
    let encoded = serialize_proof(&sample_proof());
    assert_eq!(encoded.inputs, vec![word(1), word(0), word(1)]);
    let expected: Vec<[u8; 32]> = vec![
        // wire commitments
        word(1), word(2), word(0), word(0), word(1), word(2), word(1), word(2),
        // grand product commitment
        word(0), word(0),
        // quotient commitments
        word(1), word(2), word(1), word(2), word(0), word(0), word(1), word(2),
        // wire values at z
        word(10), word(11), word(12), word(13),
        // wire values at the shifted point
        word(20),
        // grand product, quotient, linearization
        word(30), word(31), word(32),
        // permutation values
        word(40), word(41), word(42),
        // opening proofs
        word(1), word(2), word(0), word(0),
    ];
    assert_eq!(expected.len(), 33);
    assert_eq!(encoded.proof, expected);
}

#[test]
fn one_input_word_per_public_input() {
    let proof = sample_proof();
    assert_eq!(serialize_proof(&proof).inputs.len(), proof.input_values.len());
    assert_eq!(serialize_proof(&proof).inputs.len(), 3);
}

#[test]
fn encoding_twice_gives_the_same_bytes() {
    let proof = sample_proof();
    assert_eq!(serialize_proof(&proof), serialize_proof(&proof));
}
