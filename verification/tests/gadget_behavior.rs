//! Behavior of the witness construction: exact piece values, the error
//! path, booleanity detection, and the canonicity residues.

use note_commit::bits::{fe_eq_val, fe_from_u128, fe_from_u64, fe_is_zero, fe_pad};
use note_commit::eval::{check_q_canon_1, check_q_canon_2};
use note_commit::field::T_P;
use note_commit::gadget::{Error, NoteCommitConfig, NoteCommitWitness};
use note_commit::running_sum::short_check;

fn u128_to_255(x: u128) -> Vec<bool> {
    fe_pad(&fe_from_u128(x), 255)
}

fn small_witness() -> NoteCommitWitness {
    NoteCommitWitness {
        gd_x: u128_to_255(5),
        gd_y: u128_to_255(9),
        pkd_x: u128_to_255(0x1234),
        pkd_y: u128_to_255(1),
        value: 0x0123456789abcdef,
        rho: u128_to_255(0xfedcba),
        psi: u128_to_255(0x13579b),
    }
}

#[test]
fn absent_witness_fails_synthesis() {
    let config = NoteCommitConfig::configure();
    let r = config.assign_region(None);
    assert!(matches!(r, Err(Error::SynthesisError)));
}

#[test]
fn malformed_witness_fails_synthesis() {
    let config = NoteCommitConfig::configure();
    let mut w = small_witness();
    w.gd_x = fe_from_u128(5);  // 128 bits instead of 255
    let r = config.assign_region(Some(&w));
    assert!(matches!(r, Err(Error::SynthesisError)));
}

#[test]
fn pieces_take_exact_bit_ranges() {
    let config = NoteCommitConfig::configure();
    let w = small_witness();
    let v: u64 = w.value;
    let asg = config.assign_region(Some(&w)).unwrap();
    let c = &asg.cells;
    // gd_x = 5 is tiny: a = 5, b_0 = b_1 = 0.
    assert!(fe_eq_val(&c.a, &fe_from_u128(5)));
    assert!(fe_is_zero(&c.b_0));
    assert!(fe_is_zero(&c.b_1));
    // b_2 = bit 0 of gd_y = 1; b_3 = low four bits of pkd_x = 4.
    assert!(fe_eq_val(&c.b_2, &fe_from_u128(1)));
    assert!(fe_eq_val(&c.b_3, &fe_from_u128(0x4)));
    // c = bits 4..254 of pkd_x.
    assert!(fe_eq_val(&c.c, &fe_from_u128(0x123)));
    // The value splits as d_2 (low 8), d_3 (next 50), e_0 (top 6).
    assert!(fe_eq_val(&c.d_2, &fe_from_u64(v & 0xff)));
    assert!(fe_eq_val(&c.z1_d, &fe_from_u64((v >> 8) & ((1u64 << 50) - 1))));
    assert!(fe_eq_val(&c.e_0, &fe_from_u64(v >> 58)));
    // e_1 = low four bits of rho; f = bits 4..254 of rho.
    assert!(fe_eq_val(&c.e_1, &fe_from_u128(0xa)));
    assert!(fe_eq_val(&c.f, &fe_from_u128(0xfedcb)));
    assert!(fe_is_zero(&c.g_0));
    // g_1 = low nine bits of psi; the rest of psi's low range sits in z1_g.
    assert!(fe_eq_val(&c.g_1, &fe_from_u128(0x13579b & 0x1ff)));
    assert!(fe_eq_val(&c.z1_g, &fe_from_u128(0x13579b >> 9)));
    assert!(fe_is_zero(&c.h_0));
    assert!(fe_is_zero(&c.h_1));
    // b = b_0 + 16 b_1 + 32 b_2 + 64 b_3 = 32 + 256.
    assert!(fe_eq_val(&c.b, &fe_from_u128(32 + 64 * 4)));
}

#[test]
fn shifted_operand_has_exact_value() {
    // a = 1: a_prime = 1 + 2^130 - T_P, computed independently here from
    // the 128-bit constant.
    let config = NoteCommitConfig::configure();
    let a = fe_pad(&fe_from_u128(1), 250);
    let (prime, residue) = config.canon_bitshift_130(&a);
    let expected = {
        let p130 = fe_pad(&note_commit::bits::fe_pow2(130), 251);
        let tp = fe_pad(&fe_from_u128(T_P), 251);
        let d = note_commit::bits::fe_sub(&p130, &tp);
        let one = fe_pad(&note_commit::bits::fe_one(), 251);
        note_commit::bits::fe_add(&d, &one)
    };
    assert!(fe_eq_val(&prime, &expected));
    // 1 < T_P, so the residue is zero.
    assert!(fe_is_zero(&residue));
}

#[test]
fn residue_nonzero_at_threshold() {
    // Operand exactly T_P: the honest running sum leaves a nonzero
    // residue, so the gated check can never be satisfied with the
    // indicator bit set.
    let config = NoteCommitConfig::configure();
    let op = fe_pad(&fe_from_u128(T_P), 250);
    let (_, residue) = config.canon_bitshift_130(&op);
    assert!(!fe_is_zero(&residue));
    let below = fe_pad(&fe_from_u128(T_P - 1), 250);
    let (_, residue_below) = config.canon_bitshift_130(&below);
    assert!(fe_is_zero(&residue_below));
}

#[test]
fn booleanity_violation_detected() {
    let config = NoteCommitConfig::configure();
    let w = small_witness();
    let mut asg = config.assign_region(Some(&w)).unwrap();
    assert!(check_q_canon_1(&asg.cells));
    // A 1-bit cell forged to hold 2 fails the booleanity residual.
    asg.cells.b_1 = fe_from_u128(2);
    assert!(!check_q_canon_1(&asg.cells));
}

#[test]
fn forged_residue_detected() {
    let config = NoteCommitConfig::configure();
    // rho with its top bit set and low part above T_P: indicator g_0 = 1
    // with a nonzero canonicity residue.
    let mut rho = u128_to_255(T_P);
    rho[254] = true;  // rho = 2^254 + T_P = p: non-canonical
    let mut w = small_witness();
    w.rho = rho;
    let asg = config.assign_region(Some(&w)).unwrap();
    assert!(!check_q_canon_2(&asg.cells));
}

#[test]
fn y_bundle_takes_exact_ranges() {
    let config = NoteCommitConfig::configure();
    let y_val: u128 = 0xabcdef;
    let y = u128_to_255(y_val);
    let yc = config.y_canonicity(&y);
    assert!(fe_eq_val(&yc.lsb, &fe_from_u128(y_val & 1)));
    assert!(fe_eq_val(&yc.k_0, &fe_from_u128((y_val >> 1) & 0x1ff)));
    assert!(fe_eq_val(&yc.j, &fe_from_u128(y_val)));
    assert!(fe_eq_val(&yc.z1_j, &fe_from_u128(y_val >> 10)));
    assert!(fe_is_zero(&yc.z13_j));
    assert!(fe_is_zero(&yc.k_2));
    assert!(fe_is_zero(&yc.k_3));
    // y is far below T_P, so the shifted operand's residue vanishes.
    assert!(fe_is_zero(&yc.z13_j_prime));
}

#[test]
fn short_range_check_boundary() {
    assert!(short_check(&fe_from_u128(1023), 10));
    assert!(!short_check(&fe_from_u128(1024), 10));
    assert!(short_check(&fe_from_u128(0), 0));
    assert!(!short_check(&fe_from_u128(1), 0));
}

#[test]
fn gate_table_places_every_cell() {
    let config = NoteCommitConfig::configure();
    let w = small_witness();
    let asg = config.assign_region(Some(&w)).unwrap();
    let t = config.assign_gate(&asg.cells);
    assert_eq!(t.len(), 4);
    for row in &t {
        assert_eq!(row.len(), 10);
    }
    assert_eq!(t[0][0], asg.cells.b);
    assert_eq!(t[1][9], asg.cells.gd_x);
    assert_eq!(t[2][4], asg.cells.z1_g);
    assert_eq!(t[3][9], asg.cells.z13_a_prime);
}

#[test]
fn message_pieces_in_hash_order() {
    let config = NoteCommitConfig::configure();
    let w = small_witness();
    let asg = config.assign_region(Some(&w)).unwrap();
    assert_eq!(asg.pieces.len(), 8);
    assert_eq!(asg.pieces[0], asg.cells.a);
    assert_eq!(asg.pieces[1], asg.cells.b);
    assert_eq!(asg.pieces[2], asg.cells.c);
    assert_eq!(asg.pieces[3], asg.cells.d);
    assert_eq!(asg.pieces[4], asg.cells.e);
    assert_eq!(asg.pieces[5], asg.cells.f);
    assert_eq!(asg.pieces[6], asg.cells.g);
    assert_eq!(asg.pieces[7], asg.cells.h);
    // Piece widths: 250, 10, 250, 60, 10, 250, 250, 10.
    let widths: Vec<usize> = asg.pieces.iter().map(|p| p.len()).collect();
    assert_eq!(widths, vec![250, 10, 250, 60, 10, 250, 250, 10]);
}
