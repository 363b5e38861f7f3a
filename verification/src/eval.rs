//! Executable evaluators for the identity predicates and range-check facts.
//!
//! Each function here decides, for an arbitrary cell snapshot, whether
//! one of the spec-level predicates of [`crate::cells`] holds, and is proved
//! to return exactly that predicate's truth value.  A verifying
//! construction runs these on a finished witness; a cryptographically
//! invalid witness still evaluates — it simply comes back `false`.

use crate::bits::{
    bits_val, fe_add_any, fe_eq_val, fe_is_zero, fe_lt, fe_one, fe_pad, fe_pow2, fe_shl, fe_shr,
};
use crate::cells::{
    gated, is_boolean, lemma_boolean_values, lemma_gated_values, q_canon_1_ok, q_canon_2_ok,
    q_y_canon_ok, sums_ok, widths_ok, y_widths_ok, GateCells, YCells,
};
use crate::field::fe_t_p;
use vstd::arithmetic::power2::pow2;
use vstd::prelude::*;

verus! {

/// Whether a cell's value satisfies the booleanity residual.
pub fn fe_is_boolean(x: &Vec<bool>) -> (r: bool)
    ensures
        r == is_boolean(bits_val(x@)),
{
    proof {
        lemma_boolean_values(bits_val(x@));
    }
    let one = fe_one();
    fe_is_zero(x) || fe_eq_val(x, &one)
}

/// Whether a gated check holds of an indicator cell and a residual cell.
pub fn fe_gated(ind: &Vec<bool>, res: &Vec<bool>) -> (r: bool)
    ensures
        r == gated(bits_val(ind@), bits_val(res@)),
{
    proof {
        lemma_gated_values(bits_val(ind@), bits_val(res@));
    }
    fe_is_zero(ind) || fe_is_zero(res)
}

/// The value of a cell with its low `k` bits stripped, whatever its length.
fn fe_floor_div_pow2(x: &Vec<bool>, k: usize) -> (r: Vec<bool>)
    ensures
        bits_val(r@) == bits_val(x@) / pow2(k as nat),
{
    let n = if x.len() < k {
        k
    } else {
        x.len()
    };
    let xp = fe_pad(x, n);
    fe_shr(&xp, k)
}

/// Whether a cell's value is below `pow2(k)`.
fn fe_below_pow2(x: &Vec<bool>, k: usize) -> (r: bool)
    ensures
        r == (bits_val(x@) < pow2(k as nat)),
{
    let bound = fe_pow2(k);
    fe_lt(x, &bound)
}

/// Whether `lhs == x + pow2(shift) - T_P` holds of the cell values, written
/// without subtraction as `lhs + T_P == x + pow2(shift)`.
fn check_prime(lhs: &Vec<bool>, x: &Vec<bool>, shift: usize) -> (r: bool)
    ensures
        r == (bits_val(lhs@) + crate::field::T_P == bits_val(x@) + pow2(shift as nat)),
{
    let tp = fe_t_p();
    let left = fe_add_any(lhs, &tp);
    let p = fe_pow2(shift);
    let right = fe_add_any(x, &p);
    fe_eq_val(&left, &right)
}

/// Evaluate the primary decomposition gate on a snapshot.
pub fn check_q_canon_1(c: &GateCells) -> (r: bool)
    ensures
        r == q_canon_1_ok(c),
{    proof {
        vstd::arithmetic::power2::lemma2_to64();
    }

    let ok_bool = fe_is_boolean(&c.b_1) && fe_is_boolean(&c.b_2) && fe_is_boolean(&c.d_0)
        && fe_is_boolean(&c.d_1) && fe_is_boolean(&c.g_0) && fe_is_boolean(&c.h_1);

    let ok_b = {
        let s = fe_add_any(
            &fe_add_any(&fe_add_any(&c.b_0, &fe_shl(&c.b_1, 4)), &fe_shl(&c.b_2, 5)),
            &fe_shl(&c.b_3, 6),
        );
        fe_eq_val(&c.b, &s)
    };
    let ok_d = {
        let s = fe_add_any(
            &fe_add_any(&fe_add_any(&c.d_0, &fe_shl(&c.d_1, 1)), &fe_shl(&c.d_2, 2)),
            &fe_shl(&c.z1_d, 10),
        );
        fe_eq_val(&c.d, &s)
    };
    let ok_e = {
        let s = fe_add_any(&c.e_0, &fe_shl(&c.e_1, 6));
        fe_eq_val(&c.e, &s)
    };
    let ok_g = {
        let s = fe_add_any(&fe_add_any(&c.g_0, &fe_shl(&c.g_1, 1)), &fe_shl(&c.z1_g, 10));
        fe_eq_val(&c.g, &s)
    };
    let ok_h = {
        let s = fe_add_any(&c.h_0, &fe_shl(&c.h_1, 5));
        fe_eq_val(&c.h, &s)
    };

    let ok_a_prime = check_prime(&c.a_prime, &c.a, 130);
    let ok_b3_c_prime = {
        let x = fe_add_any(&c.b_3, &fe_shl(&c.c, 4));
        check_prime(&c.b3_c_prime, &x, 140)
    };
    let ok_e1_f_prime = {
        let x = fe_add_any(&c.e_1, &fe_shl(&c.f, 4));
        check_prime(&c.e1_f_prime, &x, 140)
    };
    let ok_g1_g2_prime = {
        let x = fe_add_any(&c.g_1, &fe_shl(&c.z1_g, 9));
        check_prime(&c.g1_g2_prime, &x, 130)
    };

    let ok_gd_x = {
        let s = fe_add_any(&fe_add_any(&c.a, &fe_shl(&c.b_0, 250)), &fe_shl(&c.b_1, 254));
        fe_eq_val(&c.gd_x, &s)
    };
    let ok_pkd_x = {
        let s = fe_add_any(&fe_add_any(&c.b_3, &fe_shl(&c.c, 4)), &fe_shl(&c.d_0, 254));
        fe_eq_val(&c.pkd_x, &s)
    };
    let ok_value = {
        let s = fe_add_any(&fe_add_any(&c.d_2, &fe_shl(&c.z1_d, 8)), &fe_shl(&c.e_0, 58));
        fe_eq_val(&c.value, &s)
    };

    ok_bool && ok_b && ok_d && ok_e && ok_g && ok_h && ok_a_prime && ok_b3_c_prime && ok_e1_f_prime
        && ok_g1_g2_prime && ok_gd_x && ok_pkd_x && ok_value
}

/// Evaluate the secondary canonicity gate on a snapshot.
pub fn check_q_canon_2(c: &GateCells) -> (r: bool)
    ensures
        r == q_canon_2_ok(c),
{    proof {
        vstd::arithmetic::power2::lemma2_to64();
    }

    let ok_rho = {
        let s = fe_add_any(&fe_add_any(&c.e_1, &fe_shl(&c.f, 4)), &fe_shl(&c.g_0, 254));
        fe_eq_val(&c.rho, &s)
    };
    let ok_psi = {
        let s = fe_add_any(
            &fe_add_any(&fe_add_any(&c.g_1, &fe_shl(&c.z1_g, 9)), &fe_shl(&c.h_0, 249)),
            &fe_shl(&c.h_1, 254),
        );
        fe_eq_val(&c.psi, &s)
    };
    ok_rho && ok_psi && fe_gated(&c.b_1, &c.b_0) && fe_gated(&c.b_1, &c.z13_a) && fe_gated(
        &c.b_1,
        &c.z13_a_prime,
    ) && fe_gated(&c.d_0, &c.z13_c) && fe_gated(&c.d_0, &c.z14_b3_c_prime) && fe_gated(
        &c.g_0,
        &c.z13_f,
    ) && fe_gated(&c.g_0, &c.z14_e1_f_prime) && fe_gated(&c.h_1, &c.h_0) && fe_gated(
        &c.h_1,
        &c.z13_g,
    ) && fe_gated(&c.h_1, &c.z13_g1_g2_prime)
}

/// Evaluate one y-coordinate gate on its cells.
pub fn check_q_y_canon(yc: &YCells) -> (r: bool)
    ensures
        r == q_y_canon_ok(yc),
{    proof {
        vstd::arithmetic::power2::lemma2_to64();
    }

    let ok_j = {
        let s = fe_add_any(&fe_add_any(&yc.lsb, &fe_shl(&yc.k_0, 1)), &fe_shl(&yc.z1_j, 10));
        fe_eq_val(&yc.j, &s)
    };
    let ok_y = {
        let s = fe_add_any(&fe_add_any(&yc.j, &fe_shl(&yc.k_2, 250)), &fe_shl(&yc.k_3, 254));
        fe_eq_val(&yc.y, &s)
    };
    fe_is_boolean(&yc.k_3) && ok_j && ok_y && check_prime(&yc.j_prime, &yc.j, 130) && fe_gated(
        &yc.k_3,
        &yc.k_2,
    ) && fe_gated(&yc.k_3, &yc.z13_j) && fe_gated(&yc.k_3, &yc.z13_j_prime)
}

/// Evaluate the width bounds the lookups and the hash primitive enforce.
pub fn check_widths(c: &GateCells) -> (r: bool)
    ensures
        r == widths_ok(c),
{
    fe_below_pow2(&c.a, 250) && fe_below_pow2(&c.c, 250) && fe_below_pow2(&c.f, 250)
        && fe_below_pow2(&c.g, 250) && fe_below_pow2(&c.b, 10) && fe_below_pow2(&c.d, 60)
        && fe_below_pow2(&c.e, 10) && fe_below_pow2(&c.h, 10) && fe_below_pow2(&c.b_0, 4)
        && fe_below_pow2(&c.b_3, 4) && fe_below_pow2(&c.d_2, 8) && fe_below_pow2(&c.e_0, 6)
        && fe_below_pow2(&c.e_1, 4) && fe_below_pow2(&c.g_1, 9) && fe_below_pow2(&c.h_0, 5)
        && fe_below_pow2(&c.z1_d, 50) && fe_below_pow2(&c.z1_g, 240)
}

/// Evaluate the running-sum facts shared with the hash primitive.
pub fn check_sums(c: &GateCells) -> (r: bool)
    ensures
        r == sums_ok(c),
{
    let ok_z1_d = fe_eq_val(&c.z1_d, &fe_floor_div_pow2(&c.d, 10));
    let ok_z1_g = fe_eq_val(&c.z1_g, &fe_floor_div_pow2(&c.g, 10));
    let ok_z13_a = fe_eq_val(&c.z13_a, &fe_floor_div_pow2(&c.a, 130));
    let ok_z13_c = fe_eq_val(&c.z13_c, &fe_floor_div_pow2(&c.c, 130));
    let ok_z13_f = fe_eq_val(&c.z13_f, &fe_floor_div_pow2(&c.f, 130));
    let ok_z13_g = fe_eq_val(&c.z13_g, &fe_floor_div_pow2(&c.g, 130));
    let ok_pa = fe_eq_val(&c.z13_a_prime, &fe_floor_div_pow2(&c.a_prime, 130));
    let ok_pb = fe_eq_val(&c.z14_b3_c_prime, &fe_floor_div_pow2(&c.b3_c_prime, 140));
    let ok_pe = fe_eq_val(&c.z14_e1_f_prime, &fe_floor_div_pow2(&c.e1_f_prime, 140));
    let ok_pg = fe_eq_val(&c.z13_g1_g2_prime, &fe_floor_div_pow2(&c.g1_g2_prime, 130));
    ok_z1_d && ok_z1_g && ok_z13_a && ok_z13_c && ok_z13_f && ok_z13_g && ok_pa && ok_pb && ok_pe
        && ok_pg
}

/// Evaluate the width and running-sum facts for one y-coordinate gate.
pub fn check_y_widths(yc: &YCells) -> (r: bool)
    ensures
        r == y_widths_ok(yc),
{
    fe_below_pow2(&yc.k_0, 9) && fe_below_pow2(&yc.k_2, 4) && fe_below_pow2(&yc.j, 250)
        && fe_eq_val(&yc.z1_j, &fe_floor_div_pow2(&yc.j, 10)) && fe_eq_val(
        &yc.z13_j,
        &fe_floor_div_pow2(&yc.j, 130),
    ) && fe_eq_val(&yc.z13_j_prime, &fe_floor_div_pow2(&yc.j_prime, 130))
}

/// Evaluate every gate and every range-check fact of a full main-region
/// snapshot and two y-coordinate snapshots.
pub fn check_all(c: &GateCells, y_gd: &YCells, y_pkd: &YCells) -> (r: bool)
    ensures
        r == (widths_ok(c) && sums_ok(c) && q_canon_1_ok(c) && q_canon_2_ok(c) && y_widths_ok(y_gd)
            && q_y_canon_ok(y_gd) && y_widths_ok(y_pkd) && q_y_canon_ok(y_pkd)),
{
    check_widths(c) && check_sums(c) && check_q_canon_1(c) && check_q_canon_2(c) && check_y_widths(
        y_gd,
    ) && check_q_y_canon(y_gd) && check_y_widths(y_pkd) && check_q_y_canon(y_pkd)
}

} // verus!
