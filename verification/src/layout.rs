//! The fixed region layout: named cells at (row, column) coordinates.
//!
//! The main region is four rows by ten advice columns; the y-coordinate
//! region is two rows over the last five columns.  The gates read cells
//! relative to the row their selector is enabled on, and may reach at most
//! one row above or below it.  The validators here decide collision
//! freedom and that window bound; a unit test holds the shipped layout to
//! both.

use vstd::prelude::*;

verus! {

/// A cell position: row offset within the region, advice-column index.
#[derive(Clone, Copy, PartialEq, Eq, Structural, Debug)]
pub struct CellCoord {
    /// Row offset within the region.
    pub row: u8,
    /// Advice-column index.
    pub col: u8,
}

/// The coordinates of the forty main-region cells, in the row-major order
/// of the fields of [`crate::cells::GateCells`]: row 0 holds `b, d, e, g,
/// h, d_1, pkd_x, b_3, a_prime, b_2`; row 1 holds `e1_f_prime,
/// g1_g2_prime, value, d_2, z1_d, e_0, b3_c_prime, c, a, gd_x`; row 2
/// holds `e_1, f, g_0, g_1, z1_g, h_0, h_1, d_0, b_0, b_1`; row 3 holds
/// `rho, z13_f, z14_e1_f_prime, psi, z13_g, z13_g1_g2_prime, z13_c,
/// z14_b3_c_prime, z13_a, z13_a_prime`.
pub fn main_region_coords() -> (r: Vec<CellCoord>)
    ensures
        r@.len() == 40,
        forall|i: int| 0 <= i < 40 ==> (#[trigger] r@[i]).row == i / 10 && r@[i].col == i % 10,
{
    let mut r: Vec<CellCoord> = Vec::new();
    let mut row: u8 = 0;
    while row < 4
        invariant
            row <= 4,
            r@.len() == 10 * row,
            forall|i: int|
                0 <= i < r@.len() ==> (#[trigger] r@[i]).row == i / 10 && r@[i].col == i % 10,
        decreases 4 - row,
    {
        let mut col: u8 = 0;
        while col < 10
            invariant
                row < 4,
                col <= 10,
                r@.len() == 10 * row + col,
                forall|i: int|
                    0 <= i < r@.len() ==> (#[trigger] r@[i]).row == i / 10 && r@[i].col == i % 10,
            decreases 10 - col,
        {
            r.push(CellCoord { row, col });
            proof {
                let n = r@.len() - 1;
                assert(n == 10 * row + col);
                vstd::arithmetic::div_mod::lemma_fundamental_div_mod_converse_div(
                    n,
                    10,
                    row as int,
                    col as int,
                );
                vstd::arithmetic::div_mod::lemma_fundamental_div_mod_converse_mod(
                    n,
                    10,
                    row as int,
                    col as int,
                );
            }
            col = col + 1;
        }
        row = row + 1;
    }
    r
}

/// The coordinates of the ten y-region cells, in the order of the fields
/// of [`crate::cells::YCells`]: row 0 holds `y, lsb, k_0, k_2, k_3` and
/// row 1 holds `j, z1_j, z13_j, j_prime, z13_j_prime`, over advice
/// columns 5 through 9.
pub fn y_region_coords() -> (r: Vec<CellCoord>)
    ensures
        r@.len() == 10,
        forall|i: int| 0 <= i < 10 ==> (#[trigger] r@[i]).row == i / 5 && r@[i].col == 5 + i % 5,
{
    let mut r: Vec<CellCoord> = Vec::new();
    let mut i: usize = 0;
    while i < 10
        invariant
            i <= 10,
            r@.len() == i,
            forall|j: int|
                0 <= j < r@.len() ==> (#[trigger] r@[j]).row == j / 5 && r@[j].col == 5 + j % 5,
        decreases 10 - i,
    {
        let row: u8 = if i < 5 {
            0
        } else {
            1
        };
        let col: u8 = if i < 5 {
            5 + i as u8
        } else {
            i as u8
        };
        r.push(CellCoord { row, col });
        proof {
            let n = r@.len() - 1;
            vstd::arithmetic::div_mod::lemma_fundamental_div_mod_converse_div(
                n,
                5,
                (if n < 5 {
                    0int
                } else {
                    1int
                }),
                (if n < 5 {
                    n
                } else {
                    n - 5
                }),
            );
            vstd::arithmetic::div_mod::lemma_fundamental_div_mod_converse_mod(
                n,
                5,
                (if n < 5 {
                    0int
                } else {
                    1int
                }),
                (if n < 5 {
                    n
                } else {
                    n - 5
                }),
            );
        }
        i = i + 1;
    }
    r
}

/// Whether no two coordinates in the list collide.
pub fn coords_distinct(v: &Vec<CellCoord>) -> (r: bool)
    ensures
        r == (forall|i: int, j: int| 0 <= i < j < v@.len() ==> v@[i] != v@[j]),
{
    let n = v.len();
    let mut i: usize = 0;
    while i < n
        invariant
            i <= n,
            n == v@.len(),
            forall|x: int, y: int| 0 <= x < y < v@.len() && x < i ==> v@[x] != v@[y],
        decreases n - i,
    {
        let mut j: usize = i + 1;
        while j < n
            invariant
                i < j <= n,
                n == v@.len(),
                forall|y: int| i < y < j ==> v@[i as int] != v@[y],
            decreases n - j,
        {
            if v[i].row == v[j].row && v[i].col == v[j].col {
                return false;
            }
            j = j + 1;
        }
        i = i + 1;
    }
    true
}

/// Whether every read of a gate stays within one row of its anchor row.
pub fn within_window(reads: &Vec<CellCoord>, anchor: u8) -> (r: bool)
    ensures
        r == (forall|i: int|
            0 <= i < reads@.len() ==> (#[trigger] reads@[i]).row + 1 >= anchor && reads@[i].row
                <= anchor + 1),
{
    let n = reads.len();
    let mut i: usize = 0;
    while i < n
        invariant
            i <= n,
            n == reads@.len(),
            forall|j: int|
                0 <= j < i ==> (#[trigger] reads@[j]).row + 1 >= anchor && reads@[j].row <= anchor
                    + 1,
        decreases n - i,
    {
        let c = reads[i];
        if (c.row as u16) + 1 < (anchor as u16) || (c.row as u16) > (anchor as u16) + 1 {
            return false;
        }
        i = i + 1;
    }
    true
}

/// The main-region cells the primary decomposition gate reads: the first
/// three rows, anchored on row 1.
pub fn q_canon_1_reads() -> (r: Vec<CellCoord>)
    ensures
        r@.len() == 30,
        forall|i: int| 0 <= i < 30 ==> (#[trigger] r@[i]).row == i / 10 && r@[i].col == i % 10,
        forall|i: int| 0 <= i < 30 ==> (#[trigger] r@[i]).row <= 2,
{
    let all = main_region_coords();
    let mut r: Vec<CellCoord> = Vec::new();
    let mut i: usize = 0;
    while i < 30
        invariant
            i <= 30,
            all@.len() == 40,
            forall|k: int| 0 <= k < 40 ==> (#[trigger] all@[k]).row == k / 10,
            r@.len() == i,
            forall|k: int| 0 <= k < 40 ==> (#[trigger] all@[k]).col == k % 10,
            forall|k: int|
                0 <= k < r@.len() ==> (#[trigger] r@[k]).row == k / 10 && r@[k].col == k % 10,
            forall|k: int| 0 <= k < r@.len() ==> (#[trigger] r@[k]).row <= 2,
        decreases 30 - i,
    {
        let c = all[i];
        proof {
            assert(i / 10 <= 2) by (nonlinear_arith)
                requires
                    i < 30,
            ;
        }
        r.push(c);
        i = i + 1;
    }
    r
}

/// The main-region cells the secondary canonicity gate reads: rows 2 and
/// 3, anchored on row 2.
pub fn q_canon_2_reads() -> (r: Vec<CellCoord>)
    ensures
        r@.len() == 20,
        forall|i: int|
            0 <= i < 20 ==> (#[trigger] r@[i]).row == (i + 20) / 10 && r@[i].col == (i + 20) % 10,
        forall|i: int| 0 <= i < 20 ==> 2 <= (#[trigger] r@[i]).row <= 3,
{
    let all = main_region_coords();
    let mut r: Vec<CellCoord> = Vec::new();
    let mut i: usize = 20;
    while i < 40
        invariant
            20 <= i <= 40,
            all@.len() == 40,
            forall|k: int| 0 <= k < 40 ==> (#[trigger] all@[k]).row == k / 10,
            r@.len() == i - 20,
            forall|k: int| 0 <= k < 40 ==> (#[trigger] all@[k]).col == k % 10,
            forall|k: int|
                0 <= k < r@.len() ==> (#[trigger] r@[k]).row == (k + 20) / 10 && r@[k].col == (k
                    + 20) % 10,
            forall|k: int| 0 <= k < r@.len() ==> 2 <= (#[trigger] r@[k]).row <= 3,
        decreases 40 - i,
    {
        let c = all[i];
        proof {
            assert(2 <= i / 10 <= 3) by (nonlinear_arith)
                requires
                    20 <= i < 40,
            ;
        }
        r.push(c);
        i = i + 1;
    }
    r
}

} // verus!
