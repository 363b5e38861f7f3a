//! The cell snapshot and the three polynomial-identity gates.
//!
//! The gates are stated here as predicates over the numeric values of the
//! cells, exactly as the selector-gated identities read them.  A gated
//! check multiplies its residual by a witnessed indicator bit, so it
//! degenerates to `0 = 0` whenever the indicator is 0; [`gated`] is that
//! helper.  The soundness lemmas show that any witness accepted by the
//! gates together with the range-check facts is a correct, canonical
//! decomposition — and the booleanity lemma shows the declared 1-bit cells
//! can only hold 0 or 1.

use crate::bits::bits_val;
use crate::field::{p_modulus, T_P};
use crate::running_sum::lemma_residue_zero;
use vstd::arithmetic::power2::{lemma2_to64, lemma_pow2_adds, pow2};
use vstd::prelude::*;

verus! {

/// Booleanity residual: `x * (x - 1)` vanishes.
pub open spec fn is_boolean(x: nat) -> bool {
    x * (x as int - 1) == 0
}

/// Gated assertion: the residual is multiplied by an indicator bit, so the
/// check holds vacuously when the indicator is 0.
pub open spec fn gated(indicator: nat, residual: nat) -> bool {
    indicator * residual == 0
}

/// A booleanity residual vanishes exactly on 0 and 1.
pub proof fn lemma_boolean_values(x: nat)
    ensures
        is_boolean(x) <==> (x == 0 || x == 1),
{
    assert(is_boolean(x) <==> (x == 0 || x == 1)) by (nonlinear_arith);
}

/// A gated check holds exactly when the indicator or the residual is zero.
pub proof fn lemma_gated_values(i: nat, r: nat)
    ensures
        gated(i, r) <==> (i == 0 || r == 0),
{
    assert(i * r == 0 <==> (i == 0 || r == 0)) by (nonlinear_arith);
}

/// Every cell the two main-region gates read, in the row-major order of the
/// four-row layout.
pub struct GateCells {
    /// Piece `b`, 10 bits.
    pub b: Vec<bool>,
    /// Piece `d`, 60 bits.
    pub d: Vec<bool>,
    /// Piece `e`, 10 bits.
    pub e: Vec<bool>,
    /// Piece `g`, 250 bits.
    pub g: Vec<bool>,
    /// Piece `h`, 10 bits.
    pub h: Vec<bool>,
    /// Sub-piece `d_1`: the second point's y-coordinate sign bit.
    pub d_1: Vec<bool>,
    /// The second point's x-coordinate.
    pub pkd_x: Vec<bool>,
    /// Sub-piece `b_3`, 4 bits.
    pub b_3: Vec<bool>,
    /// Shifted operand for the first x-coordinate's canonicity check.
    pub a_prime: Vec<bool>,
    /// Sub-piece `b_2`: the first point's y-coordinate sign bit.
    pub b_2: Vec<bool>,
    /// Shifted operand for rho's canonicity check.
    pub e1_f_prime: Vec<bool>,
    /// Shifted operand for psi's canonicity check.
    pub g1_g2_prime: Vec<bool>,
    /// The 64-bit value.
    pub value: Vec<bool>,
    /// Sub-piece `d_2`, 8 bits.
    pub d_2: Vec<bool>,
    /// Running sum of `d` after one word; equals sub-piece `d_3`.
    pub z1_d: Vec<bool>,
    /// Sub-piece `e_0`, 6 bits.
    pub e_0: Vec<bool>,
    /// Shifted operand for the second x-coordinate's canonicity check.
    pub b3_c_prime: Vec<bool>,
    /// Piece `c`, 250 bits.
    pub c: Vec<bool>,
    /// Piece `a`, 250 bits.
    pub a: Vec<bool>,
    /// The first point's x-coordinate.
    pub gd_x: Vec<bool>,
    /// Sub-piece `e_1`, 4 bits.
    pub e_1: Vec<bool>,
    /// Piece `f`, 250 bits.
    pub f: Vec<bool>,
    /// Sub-piece `g_0`: rho's high indicator bit.
    pub g_0: Vec<bool>,
    /// Sub-piece `g_1`, 9 bits.
    pub g_1: Vec<bool>,
    /// Running sum of `g` after one word; equals sub-piece `g_2`.
    pub z1_g: Vec<bool>,
    /// Sub-piece `h_0`, 5 bits.
    pub h_0: Vec<bool>,
    /// Sub-piece `h_1`: psi's high indicator bit.
    pub h_1: Vec<bool>,
    /// Sub-piece `d_0`: the second x-coordinate's high indicator bit.
    pub d_0: Vec<bool>,
    /// Sub-piece `b_0`, 4 bits.
    pub b_0: Vec<bool>,
    /// Sub-piece `b_1`: the first x-coordinate's high indicator bit.
    pub b_1: Vec<bool>,
    /// Field element rho.
    pub rho: Vec<bool>,
    /// Running sum of `f` after thirteen words.
    pub z13_f: Vec<bool>,
    /// Running sum of rho's shifted operand after fourteen words.
    pub z14_e1_f_prime: Vec<bool>,
    /// Field element psi.
    pub psi: Vec<bool>,
    /// Running sum of `g` after thirteen words.
    pub z13_g: Vec<bool>,
    /// Running sum of psi's shifted operand after thirteen words.
    pub z13_g1_g2_prime: Vec<bool>,
    /// Running sum of `c` after thirteen words.
    pub z13_c: Vec<bool>,
    /// Running sum of the second x-coordinate's shifted operand after
    /// fourteen words.
    pub z14_b3_c_prime: Vec<bool>,
    /// Running sum of `a` after thirteen words.
    pub z13_a: Vec<bool>,
    /// Running sum of the first x-coordinate's shifted operand after
    /// thirteen words.
    pub z13_a_prime: Vec<bool>,
}

/// The cells one y-coordinate canonicity gate reads, over its two rows.
pub struct YCells {
    /// The y-coordinate being checked.
    pub y: Vec<bool>,
    /// Bit 0 of the y-coordinate.
    pub lsb: Vec<bool>,
    /// Bits 1..10 of the y-coordinate.
    pub k_0: Vec<bool>,
    /// Bits 250..254 of the y-coordinate.
    pub k_2: Vec<bool>,
    /// Bit 254 of the y-coordinate: the high indicator bit.
    pub k_3: Vec<bool>,
    /// The low 250 bits of the y-coordinate, as one value.
    pub j: Vec<bool>,
    /// Running sum of `j` after one word; equals bits 10..250.
    pub z1_j: Vec<bool>,
    /// Running sum of `j` after thirteen words.
    pub z13_j: Vec<bool>,
    /// Shifted operand `j + 2^130 - T_P`.
    pub j_prime: Vec<bool>,
    /// Running sum of the shifted operand after thirteen words.
    pub z13_j_prime: Vec<bool>,
}

/// The primary decomposition gate: booleanity of the six 1-bit sub-pieces,
/// recomposition of the composite pieces, recomposition of both
/// x-coordinates and the value, and correctness of the four shifted
/// canonicity operands.
pub open spec fn q_canon_1_ok(c: &GateCells) -> bool {
    &&& is_boolean(bits_val(c.b_1@))
    &&& is_boolean(bits_val(c.b_2@))
    &&& is_boolean(bits_val(c.d_0@))
    &&& is_boolean(bits_val(c.d_1@))
    &&& is_boolean(bits_val(c.g_0@))
    &&& is_boolean(bits_val(c.h_1@))
    &&& bits_val(c.b@) == bits_val(c.b_0@) + pow2(4) * bits_val(c.b_1@) + pow2(5) * bits_val(
        c.b_2@,
    ) + pow2(6) * bits_val(c.b_3@)
    &&& bits_val(c.d@) == bits_val(c.d_0@) + 2 * bits_val(c.d_1@) + 4 * bits_val(c.d_2@) + pow2(10)
        * bits_val(c.z1_d@)
    &&& bits_val(c.e@) == bits_val(c.e_0@) + pow2(6) * bits_val(c.e_1@)
    &&& bits_val(c.g@) == bits_val(c.g_0@) + 2 * bits_val(c.g_1@) + pow2(10) * bits_val(c.z1_g@)
    &&& bits_val(c.h@) == bits_val(c.h_0@) + pow2(5) * bits_val(c.h_1@)
    &&& bits_val(c.a_prime@) + T_P == bits_val(c.a@) + pow2(130)
    &&& bits_val(c.b3_c_prime@) + T_P == bits_val(c.b_3@) + pow2(4) * bits_val(c.c@) + pow2(140)
    &&& bits_val(c.e1_f_prime@) + T_P == bits_val(c.e_1@) + pow2(4) * bits_val(c.f@) + pow2(140)
    &&& bits_val(c.g1_g2_prime@) + T_P == bits_val(c.g_1@) + pow2(9) * bits_val(c.z1_g@) + pow2(130)
    &&& bits_val(c.gd_x@) == bits_val(c.a@) + pow2(250) * bits_val(c.b_0@) + pow2(254) * bits_val(
        c.b_1@,
    )
    &&& bits_val(c.pkd_x@) == bits_val(c.b_3@) + pow2(4) * bits_val(c.c@) + pow2(254) * bits_val(
        c.d_0@,
    )
    &&& bits_val(c.value@) == bits_val(c.d_2@) + pow2(8) * bits_val(c.z1_d@) + pow2(58) * bits_val(
        c.e_0@,
    )
}

/// The secondary canonicity gate: recomposition of rho and psi, and the
/// four canonicity residue checks, each gated by its high indicator bit.
pub open spec fn q_canon_2_ok(c: &GateCells) -> bool {
    &&& bits_val(c.rho@) == bits_val(c.e_1@) + pow2(4) * bits_val(c.f@) + pow2(254) * bits_val(
        c.g_0@,
    )
    &&& bits_val(c.psi@) == bits_val(c.g_1@) + pow2(9) * bits_val(c.z1_g@) + pow2(249) * bits_val(
        c.h_0@,
    ) + pow2(254) * bits_val(c.h_1@)
    &&& gated(bits_val(c.b_1@), bits_val(c.b_0@))
    &&& gated(bits_val(c.b_1@), bits_val(c.z13_a@))
    &&& gated(bits_val(c.b_1@), bits_val(c.z13_a_prime@))
    &&& gated(bits_val(c.d_0@), bits_val(c.z13_c@))
    &&& gated(bits_val(c.d_0@), bits_val(c.z14_b3_c_prime@))
    &&& gated(bits_val(c.g_0@), bits_val(c.z13_f@))
    &&& gated(bits_val(c.g_0@), bits_val(c.z14_e1_f_prime@))
    &&& gated(bits_val(c.h_1@), bits_val(c.h_0@))
    &&& gated(bits_val(c.h_1@), bits_val(c.z13_g@))
    &&& gated(bits_val(c.h_1@), bits_val(c.z13_g1_g2_prime@))
}

/// The y-coordinate gate: booleanity of the high bit, recomposition of `j`
/// and of `y`, the shifted operand, and the gated canonicity residues.
pub open spec fn q_y_canon_ok(yc: &YCells) -> bool {
    &&& is_boolean(bits_val(yc.k_3@))
    &&& bits_val(yc.j@) == bits_val(yc.lsb@) + 2 * bits_val(yc.k_0@) + pow2(10) * bits_val(
        yc.z1_j@,
    )
    &&& bits_val(yc.y@) == bits_val(yc.j@) + pow2(250) * bits_val(yc.k_2@) + pow2(254) * bits_val(
        yc.k_3@,
    )
    &&& bits_val(yc.j_prime@) + T_P == bits_val(yc.j@) + pow2(130)
    &&& gated(bits_val(yc.k_3@), bits_val(yc.k_2@))
    &&& gated(bits_val(yc.k_3@), bits_val(yc.z13_j@))
    &&& gated(bits_val(yc.k_3@), bits_val(yc.z13_j_prime@))
}

/// The width bounds that the lookup argument and the hash primitive
/// enforce on the main-region cells, outside the gates.
pub open spec fn widths_ok(c: &GateCells) -> bool {
    &&& bits_val(c.a@) < pow2(250)
    &&& bits_val(c.c@) < pow2(250)
    &&& bits_val(c.f@) < pow2(250)
    &&& bits_val(c.g@) < pow2(250)
    &&& bits_val(c.b@) < pow2(10)
    &&& bits_val(c.d@) < pow2(60)
    &&& bits_val(c.e@) < pow2(10)
    &&& bits_val(c.h@) < pow2(10)
    &&& bits_val(c.b_0@) < pow2(4)
    &&& bits_val(c.b_3@) < pow2(4)
    &&& bits_val(c.d_2@) < pow2(8)
    &&& bits_val(c.e_0@) < pow2(6)
    &&& bits_val(c.e_1@) < pow2(4)
    &&& bits_val(c.g_1@) < pow2(9)
    &&& bits_val(c.h_0@) < pow2(5)
    &&& bits_val(c.z1_d@) < pow2(50)
    &&& bits_val(c.z1_g@) < pow2(240)
}

/// The running-sum facts the shared lookup decompositions establish: each
/// final entry is its start value shifted down by ten bits per word.
/// These divisions are all the lookup argument pins about a
/// word-by-word-accepted chain, by
/// [`crate::running_sum::lemma_running_sum_entry`].
pub open spec fn sums_ok(c: &GateCells) -> bool {
    &&& bits_val(c.z1_d@) == bits_val(c.d@) / pow2(10)
    &&& bits_val(c.z1_g@) == bits_val(c.g@) / pow2(10)
    &&& bits_val(c.z13_a@) == bits_val(c.a@) / pow2(130)
    &&& bits_val(c.z13_c@) == bits_val(c.c@) / pow2(130)
    &&& bits_val(c.z13_f@) == bits_val(c.f@) / pow2(130)
    &&& bits_val(c.z13_g@) == bits_val(c.g@) / pow2(130)
    &&& bits_val(c.z13_a_prime@) == bits_val(c.a_prime@) / pow2(130)
    &&& bits_val(c.z14_b3_c_prime@) == bits_val(c.b3_c_prime@) / pow2(140)
    &&& bits_val(c.z14_e1_f_prime@) == bits_val(c.e1_f_prime@) / pow2(140)
    &&& bits_val(c.z13_g1_g2_prime@) == bits_val(c.g1_g2_prime@) / pow2(130)
}

/// The width and running-sum facts for one y-coordinate gate's cells.
pub open spec fn y_widths_ok(yc: &YCells) -> bool {
    &&& bits_val(yc.k_0@) < pow2(9)
    &&& bits_val(yc.k_2@) < pow2(4)
    &&& bits_val(yc.j@) < pow2(250)
    &&& bits_val(yc.z1_j@) == bits_val(yc.j@) / pow2(10)
    &&& bits_val(yc.z13_j@) == bits_val(yc.j@) / pow2(130)
    &&& bits_val(yc.z13_j_prime@) == bits_val(yc.j_prime@) / pow2(130)
}

/// Booleanity: in any witness the primary gate accepts, each cell declared
/// a 1-bit sub-piece holds 0 or 1.
pub proof fn lemma_booleanity(c: &GateCells)
    requires
        q_canon_1_ok(c),
    ensures
        bits_val(c.b_1@) == 0 || bits_val(c.b_1@) == 1,
        bits_val(c.b_2@) == 0 || bits_val(c.b_2@) == 1,
        bits_val(c.d_0@) == 0 || bits_val(c.d_0@) == 1,
        bits_val(c.d_1@) == 0 || bits_val(c.d_1@) == 1,
        bits_val(c.g_0@) == 0 || bits_val(c.g_0@) == 1,
        bits_val(c.h_1@) == 0 || bits_val(c.h_1@) == 1,
{
    lemma_boolean_values(bits_val(c.b_1@));
    lemma_boolean_values(bits_val(c.b_2@));
    lemma_boolean_values(bits_val(c.d_0@));
    lemma_boolean_values(bits_val(c.d_1@));
    lemma_boolean_values(bits_val(c.g_0@));
    lemma_boolean_values(bits_val(c.h_1@));
}

/// Booleanity of the y-gate's declared 1-bit cell.
pub proof fn lemma_y_booleanity(yc: &YCells)
    requires
        q_y_canon_ok(yc),
    ensures
        bits_val(yc.k_3@) == 0 || bits_val(yc.k_3@) == 1,
{
    lemma_boolean_values(bits_val(yc.k_3@));
}

/// Canonicity soundness of one shifted operand: if the residue after the
/// checked width is zero, the operand is below `T_P`.
pub proof fn lemma_prime_sound(op: nat, prime: nat, shift: nat)
    requires
        prime + T_P == op + pow2(shift),
        prime / pow2(shift) == 0,
        T_P < pow2(shift),
    ensures
        op < T_P,
{
    lemma_residue_zero(prime, shift);
}

/// Canonicity soundness of one shifted operand: for an operand at or above
/// `T_P`, the residue after the checked width cannot be zero, so no witness
/// satisfies its gated check with the indicator bit set.
pub proof fn lemma_canonicity_soundness(op: nat, prime: nat, shift: nat, residue: nat)
    requires
        prime + T_P == op + pow2(shift),
        residue == prime / pow2(shift),
        op >= T_P,
        T_P < pow2(shift),
    ensures
        residue != 0,
{
    lemma_residue_zero(prime, shift);
}

/// Canonicity completeness of one shifted operand: if the operand is below
/// `T_P`, the residue after the checked width is zero.
pub proof fn lemma_prime_complete(op: nat, prime: nat, shift: nat)
    requires
        prime + T_P == op + pow2(shift),
        op < T_P,
        T_P < pow2(shift),
    ensures
        prime / pow2(shift) == 0,
{
    lemma_residue_zero(prime, shift);
}

/// Values for the powers of two that the identity proofs lean on.
pub proof fn lemma_gate_pow2_facts()
    ensures
        pow2(1) == 2,
        pow2(2) == 4,
        pow2(4) == 16,
        pow2(5) == 32,
        pow2(6) == 64,
        pow2(8) == 256,
        pow2(9) == 512,
        pow2(10) == 1024,
        pow2(254) == pow2(250) * 16,
        pow2(254) == pow2(4) * pow2(250),
        pow2(254) == pow2(249) * 32,
        pow2(249) == pow2(9) * pow2(240),
        pow2(58) == pow2(8) * pow2(50),
        pow2(64) == pow2(58) * pow2(6),
        T_P < pow2(130),
        T_P < pow2(140),
        T_P < pow2(254),
        pow2(130) < pow2(140) < pow2(240) < pow2(249) < pow2(250) < pow2(254),
{
    lemma2_to64();
    lemma_pow2_adds(250, 4);
    lemma_pow2_adds(4, 250);
    lemma_pow2_adds(249, 5);
    lemma_pow2_adds(9, 240);
    lemma_pow2_adds(8, 50);
    lemma_pow2_adds(58, 6);
    crate::field::lemma_t_p_small();
    vstd::arithmetic::power2::lemma_pow2_strictly_increases(130, 140);
    vstd::arithmetic::power2::lemma_pow2_strictly_increases(140, 240);
    vstd::arithmetic::power2::lemma_pow2_strictly_increases(240, 249);
    vstd::arithmetic::power2::lemma_pow2_strictly_increases(249, 250);
    vstd::arithmetic::power2::lemma_pow2_strictly_increases(250, 254);
}

/// A three-term weighted sum of width-bounded parts stays below the span
/// of the next indicator weight.
proof fn lemma_weighted_bound(lo: nat, w1: nat, m1: nat, b1: nat, w2: nat, m2: nat, b2: nat)
    requires
        lo < w1,
        m1 < b1,
        m2 < b2,
        w1 * b1 == w2,
    ensures
        lo + w1 * m1 + w2 * m2 < w2 * b2,
{
    assert(lo + w1 * m1 + w2 * m2 < w2 * b2) by (nonlinear_arith)
        requires
            lo < w1,
            m1 < b1,
            m2 < b2,
            w1 * b1 == w2,
            w1 > 0 || w1 == 0,
    ;
}

/// Soundness of the two main-region gates: a witness they accept, under
/// the range-check facts, decomposes four canonical field elements and a
/// 64-bit value.
pub proof fn lemma_gates_sound(c: &GateCells)
    requires
        widths_ok(c),
        sums_ok(c),
        q_canon_1_ok(c),
        q_canon_2_ok(c),
    ensures
        bits_val(c.gd_x@) < p_modulus(),
        bits_val(c.pkd_x@) < p_modulus(),
        bits_val(c.rho@) < p_modulus(),
        bits_val(c.psi@) < p_modulus(),
        bits_val(c.value@) < pow2(64),
{
    lemma_gate_pow2_facts();
    lemma_booleanity(c);
    vstd::arithmetic::mul::lemma_mul_basics(pow2(250) as int);
    vstd::arithmetic::mul::lemma_mul_basics(pow2(254) as int);
    vstd::arithmetic::mul::lemma_mul_basics(pow2(249) as int);
    let a = bits_val(c.a@);
    let b_0 = bits_val(c.b_0@);
    let b_1 = bits_val(c.b_1@);
    let b_3 = bits_val(c.b_3@);
    let cc = bits_val(c.c@);
    let d_0 = bits_val(c.d_0@);
    let e_1 = bits_val(c.e_1@);
    let f = bits_val(c.f@);
    let g_0 = bits_val(c.g_0@);
    let g_1 = bits_val(c.g_1@);
    let z1_g = bits_val(c.z1_g@);
    let h_0 = bits_val(c.h_0@);
    let h_1 = bits_val(c.h_1@);

    // x-coordinate of the first point.
    if b_1 == 0 {
        assert(pow2(254) * b_1 == 0);
        assert(pow2(250) * b_0 <= pow2(250) * 15) by (nonlinear_arith)
            requires
                b_0 <= 15,
        ;
        assert(bits_val(c.gd_x@) < pow2(250) + pow2(250) * 15);
        assert(pow2(250) + pow2(250) * 15 == pow2(250) * 16);
    } else {
        lemma_gated_values(b_1, b_0);
        lemma_gated_values(b_1, bits_val(c.z13_a_prime@));
        lemma_prime_sound(a, bits_val(c.a_prime@), 130);
        assert(pow2(250) * b_0 == 0);
        assert(pow2(254) * b_1 == pow2(254));
        assert(bits_val(c.gd_x@) == a + pow2(254));
    }

    // x-coordinate of the second point.
    if d_0 == 0 {
        assert(pow2(254) * d_0 == 0);
        lemma_weighted_bound(b_3, pow2(4), cc, pow2(250), pow2(254), d_0, 1);
        assert(bits_val(c.pkd_x@) < pow2(254));
    } else {
        lemma_gated_values(d_0, bits_val(c.z14_b3_c_prime@));
        lemma_prime_sound((b_3 + pow2(4) * cc) as nat, bits_val(c.b3_c_prime@), 140);
        assert(pow2(254) * d_0 == pow2(254));
    }

    // rho.
    if g_0 == 0 {
        assert(pow2(254) * g_0 == 0);
        lemma_weighted_bound(e_1, pow2(4), f, pow2(250), pow2(254), g_0, 1);
        assert(bits_val(c.rho@) < pow2(254));
    } else {
        lemma_gated_values(g_0, bits_val(c.z14_e1_f_prime@));
        lemma_prime_sound((e_1 + pow2(4) * f) as nat, bits_val(c.e1_f_prime@), 140);
        assert(pow2(254) * g_0 == pow2(254));
    }

    // psi.
    if h_1 == 0 {
        assert(pow2(254) * h_1 == 0);
        assert(pow2(9) * z1_g + pow2(9) <= pow2(9) * pow2(240)) by (nonlinear_arith)
            requires
                z1_g < pow2(240),
        ;
        assert(pow2(249) * h_0 + pow2(249) <= pow2(249) * 32) by (nonlinear_arith)
            requires
                h_0 < 32,
        ;
        assert(bits_val(c.psi@) < pow2(254));
    } else {
        lemma_gated_values(h_1, h_0);
        lemma_gated_values(h_1, bits_val(c.z13_g1_g2_prime@));
        lemma_prime_sound((g_1 + pow2(9) * z1_g) as nat, bits_val(c.g1_g2_prime@), 130);
        assert(pow2(249) * h_0 == 0);
        assert(pow2(254) * h_1 == pow2(254));
        assert(bits_val(c.psi@) == g_1 + pow2(9) * z1_g + pow2(254));
    }

    // The value recomposes from parts below 2^8, 2^50 and 2^6.
    assert(bits_val(c.d_2@) + pow2(8) * bits_val(c.z1_d@) + pow2(58) * bits_val(c.e_0@) < pow2(64))
        by (nonlinear_arith)
        requires
            bits_val(c.d_2@) < pow2(8),
            bits_val(c.z1_d@) < pow2(50),
            bits_val(c.e_0@) < pow2(6),
            pow2(58) == pow2(8) * pow2(50),
            pow2(64) == pow2(58) * pow2(6),
    ;
}

/// Soundness of one y-coordinate gate: an accepted witness decomposes a
/// canonical y-coordinate.
pub proof fn lemma_y_gate_sound(yc: &YCells)
    requires
        y_widths_ok(yc),
        q_y_canon_ok(yc),
    ensures
        bits_val(yc.y@) < p_modulus(),
{
    lemma_gate_pow2_facts();
    lemma_y_booleanity(yc);
    vstd::arithmetic::mul::lemma_mul_basics(pow2(250) as int);
    vstd::arithmetic::mul::lemma_mul_basics(pow2(254) as int);
    let j = bits_val(yc.j@);
    let k_2 = bits_val(yc.k_2@);
    let k_3 = bits_val(yc.k_3@);
    if k_3 == 0 {
        assert(pow2(254) * k_3 == 0);
        assert(pow2(250) * k_2 <= pow2(250) * 15) by (nonlinear_arith)
            requires
                k_2 <= 15,
        ;
        assert(bits_val(yc.y@) < pow2(250) + pow2(250) * 15);
        assert(pow2(250) + pow2(250) * 15 == pow2(250) * 16);
    } else {
        lemma_gated_values(k_3, k_2);
        lemma_gated_values(k_3, bits_val(yc.z13_j_prime@));
        lemma_prime_sound(j, bits_val(yc.j_prime@), 130);
        assert(pow2(250) * k_2 == 0);
        assert(pow2(254) * k_3 == pow2(254));
        assert(bits_val(yc.y@) == j + pow2(254));
    }
}

} // verus!
