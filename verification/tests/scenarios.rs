//! End-to-end scenarios: boundary field values must synthesize and satisfy
//! every gate, mirroring the boundary cases of the canonicity checker.

use ff::{Field, PrimeField};
use note_commit::bits::{fe_from_u128, fe_one, fe_pad, fe_pow2, fe_sub};
use note_commit::eval::check_all;
use note_commit::field::{fe_modulus, T_Q};
use note_commit::gadget::{NoteCommitConfig, NoteCommitWitness};
use pasta_curves::Fp;

/// The 255-bit little-endian string of a base-field element.
fn fp_bits(x: &Fp) -> Vec<bool> {
    let repr = x.to_repr();
    let mut v: Vec<bool> = Vec::new();
    for i in 0..255 {
        v.push((repr[i / 8] >> (i % 8)) & 1 == 1);
    }
    v
}

/// The y-coordinate of the Pallas point with the given x-coordinate and
/// low bit: y = sqrt(x^3 + 5), negated if its parity disagrees with the
/// requested bit.
fn y_from_x(x: &Fp, lsb: bool) -> Fp {
    let mut y = (x.square() * x + Fp::from(5u64)).sqrt().unwrap();
    let odd = y.is_odd().unwrap_u8() == 1;
    if odd != lsb {
        y = -y;
    }
    y
}

fn u128_to_255(x: u128) -> Vec<bool> {
    fe_pad(&fe_from_u128(x), 255)
}

fn pow2_255(n: usize) -> Vec<bool> {
    fe_pad(&fe_pow2(n), 255)
}

fn p_minus_one() -> Vec<bool> {
    fe_sub(&fe_modulus(), &fe_pad(&fe_one(), 255))
}

fn run_scenario(gd_y_lsb: bool, pkd_y_lsb: bool, rho: Vec<bool>, psi: Vec<bool>, value: u64) {
    let x = -Fp::ONE;
    let witness = NoteCommitWitness {
        gd_x: p_minus_one(),
        gd_y: fp_bits(&y_from_x(&x, gd_y_lsb)),
        pkd_x: p_minus_one(),
        pkd_y: fp_bits(&y_from_x(&x, pkd_y_lsb)),
        value,
        rho,
        psi,
    };
    let config = NoteCommitConfig::configure();
    let asg = config.assign_region(Some(&witness)).expect("synthesis");
    assert!(check_all(&asg.cells, &asg.y_gd, &asg.y_pkd));
}

#[test]
fn scenario_max_x_zero_randomizers() {
    run_scenario(true, true, u128_to_255(0), u128_to_255(0), 1);
}

#[test]
fn scenario_t_q_minus_one() {
    run_scenario(false, false, u128_to_255(T_Q - 1), u128_to_255(T_Q - 1), 2);
}

#[test]
fn scenario_t_q() {
    run_scenario(true, false, u128_to_255(T_Q), u128_to_255(T_Q), 3);
}

#[test]
fn scenario_two_pow_127_minus_one() {
    run_scenario(false, true, u128_to_255((1 << 127) - 1), u128_to_255((1 << 127) - 1), 4);
}

#[test]
fn scenario_two_pow_127() {
    run_scenario(false, false, u128_to_255(1 << 127), u128_to_255(1 << 127), 5);
}

#[test]
fn scenario_two_pow_254_minus_one() {
    let v = fe_sub(&pow2_255(254), &fe_pad(&fe_one(), 255));
    run_scenario(true, true, v.clone(), v, u64::MAX);
}

#[test]
fn scenario_two_pow_254() {
    run_scenario(true, false, pow2_255(254), pow2_255(254), 6);
}

#[test]
fn scenario_maximal_canonical_rho_psi() {
    // rho = psi = p - 1: the largest canonical field element, with its
    // high indicator bit set, must still satisfy every gate.
    run_scenario(true, true, p_minus_one(), p_minus_one(), 7);
}

#[test]
fn scenario_non_canonical_rho_rejected_by_gates() {
    // rho = p is a well-formed 255-bit witness: construction succeeds,
    // but the canonicity gate's residue is nonzero and the check fails.
    let p = fe_modulus();
    let x = -Fp::ONE;
    let witness = NoteCommitWitness {
        gd_x: p_minus_one(),
        gd_y: fp_bits(&y_from_x(&x, true)),
        pkd_x: p_minus_one(),
        pkd_y: fp_bits(&y_from_x(&x, true)),
        value: 8,
        rho: p.clone(),
        psi: u128_to_255(0),
    };
    let config = NoteCommitConfig::configure();
    let asg = config.assign_region(Some(&witness)).expect("synthesis still succeeds");
    assert!(!note_commit::eval::check_q_canon_2(&asg.cells));
    assert!(!check_all(&asg.cells, &asg.y_gd, &asg.y_pkd));
}

#[test]
fn canonical_construction_cannot_fail() {
    // For canonical inputs the verified entry point returns the trail
    // directly, with the gates' satisfaction proven; the evaluators must
    // agree.
    let x = -Fp::ONE;
    let witness = NoteCommitWitness {
        gd_x: p_minus_one(),
        gd_y: fp_bits(&y_from_x(&x, true)),
        pkd_x: p_minus_one(),
        pkd_y: fp_bits(&y_from_x(&x, false)),
        value: 99,
        rho: u128_to_255(T_Q),
        psi: p_minus_one(),
    };
    let config = NoteCommitConfig::configure();
    let asg = config.assign_region_canonical(&witness);
    assert!(check_all(&asg.cells, &asg.y_gd, &asg.y_pkd));
}

#[test]
fn determinism_two_constructions_agree() {
    let x = -Fp::ONE;
    let mk = || NoteCommitWitness {
        gd_x: p_minus_one(),
        gd_y: fp_bits(&y_from_x(&x, false)),
        pkd_x: p_minus_one(),
        pkd_y: fp_bits(&y_from_x(&x, true)),
        value: 77,
        rho: u128_to_255(T_Q),
        psi: u128_to_255(12345),
    };
    let config = NoteCommitConfig::configure();
    let a1 = config.assign_region(Some(&mk())).unwrap();
    let a2 = config.assign_region(Some(&mk())).unwrap();
    assert_eq!(a1.pieces, a2.pieces);
    assert_eq!(a1.cells.a_prime, a2.cells.a_prime);
    assert_eq!(a1.cells.b3_c_prime, a2.cells.b3_c_prime);
    assert_eq!(a1.cells.e1_f_prime, a2.cells.e1_f_prime);
    assert_eq!(a1.cells.g1_g2_prime, a2.cells.g1_g2_prime);
    assert_eq!(a1.cells.z13_a_prime, a2.cells.z13_a_prime);
    assert_eq!(a1.y_gd.j_prime, a2.y_gd.j_prime);
    assert_eq!(a1.y_pkd.z13_j_prime, a2.y_pkd.z13_j_prime);
    assert_eq!(a1.cells.value, a2.cells.value);
}
