//! The hard-coded field-characteristic constants checked against the
//! published moduli of the two fields.

use ff::{Field, PrimeField};

fn two_pow_254_fp() -> pasta_curves::Fp {
    pasta_curves::Fp::from_u128(1u128 << 127).square()
}

fn two_pow_254_fq() -> pasta_curves::Fq {
    pasta_curves::Fq::from_u128(1u128 << 127).square()
}

#[test]
fn t_p_matches_base_field_modulus() {
    // p = 2^254 + T_P, so 2^254 + T_P must reduce to zero in the base field.
    let sum = two_pow_254_fp() + pasta_curves::Fp::from_u128(note_commit::field::T_P);
    assert_eq!(sum, pasta_curves::Fp::ZERO);
}

#[test]
fn t_q_matches_companion_field_modulus() {
    // q = 2^254 + T_Q in the companion field.
    let sum = two_pow_254_fq() + pasta_curves::Fq::from_u128(note_commit::field::T_Q);
    assert_eq!(sum, pasta_curves::Fq::ZERO);
}

#[test]
fn modulus_bits_match_field_representation() {
    // The library's 255-bit modulus string, minus one, is exactly the
    // byte representation of -1 in the base field.
    let m = note_commit::field::fe_modulus();
    let one = note_commit::bits::fe_pad(&note_commit::bits::fe_one(), 255);
    let p_minus_1 = note_commit::bits::fe_sub(&m, &one);
    let neg_one = -pasta_curves::Fp::ONE;
    let repr = neg_one.to_repr();
    for i in 0..255 {
        let expected = (repr[i / 8] >> (i % 8)) & 1 == 1;
        assert_eq!(p_minus_1[i], expected, "bit {} of p - 1", i);
    }
}

#[test]
fn canonicity_boundary() {
    let m = note_commit::field::fe_modulus();
    let one = note_commit::bits::fe_pad(&note_commit::bits::fe_one(), 255);
    let p_minus_1 = note_commit::bits::fe_sub(&m, &one);
    assert!(note_commit::field::fe_is_canonical(&p_minus_1));
    assert!(!note_commit::field::fe_is_canonical(&m));
    assert!(note_commit::field::fe_is_canonical(&note_commit::bits::fe_zeros(255)));
}
