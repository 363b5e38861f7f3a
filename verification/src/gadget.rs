//! The note-commitment gadget: witness construction for the decomposition
//! and canonicity region.
//!
//! [`NoteCommitConfig::assign_region`] is the one entry point: it splits
//! the witnessed inputs into message pieces, derives every canonicity
//! intermediate (shifted operands and running sums), and lays the whole
//! snapshot out for the gates.  Construction is a pure function of the
//! witness: it fails only when a required witness value is absent or
//! malformed, never on a cryptographically invalid one — such a witness
//! simply fails the identity checks later.

use crate::bits::{
    bits_val, fe_add, fe_copy, fe_from_u64, fe_pad, fe_pow2, fe_slice, fe_sub,
};
use crate::cells::{GateCells, YCells};
use crate::field::{fe_t_p, lemma_t_p_small, T_P};
use crate::pieces::decompose;
use crate::running_sum::{lemma_residue_zero, running_sums};
use vstd::arithmetic::power2::pow2;
use vstd::prelude::*;

verus! {

/// The one failure this construction surfaces: a required witness value
/// was absent or malformed when a concrete proof was being built.
#[derive(Clone, Copy, PartialEq, Eq, Structural, Debug)]
pub enum Error {
    /// A required witness value was absent or malformed.
    SynthesisError,
}

/// The private inputs of one commitment construction, as plain bit
/// strings: the two point coordinates per point, the 64-bit value, and
/// the two field-element randomizers.
pub struct NoteCommitWitness {
    /// x-coordinate of the first (diversified address) point, 255 bits.
    pub gd_x: Vec<bool>,
    /// y-coordinate of the first point, 255 bits.
    pub gd_y: Vec<bool>,
    /// x-coordinate of the second (diversified key) point, 255 bits.
    pub pkd_x: Vec<bool>,
    /// y-coordinate of the second point, 255 bits.
    pub pkd_y: Vec<bool>,
    /// The 64-bit note value.
    pub value: u64,
    /// Field element rho, 255 bits.
    pub rho: Vec<bool>,
    /// Field element psi, 255 bits.
    pub psi: Vec<bool>,
}

impl NoteCommitWitness {
    /// Every field-element input carries exactly 255 bits.
    pub open spec fn wf(&self) -> bool {
        &&& self.gd_x@.len() == 255
        &&& self.gd_y@.len() == 255
        &&& self.pkd_x@.len() == 255
        &&& self.pkd_y@.len() == 255
        &&& self.rho@.len() == 255
        &&& self.psi@.len() == 255
    }
}

/// Configuration of the gadget: where each selector-gated identity is
/// enabled within its region.
pub struct NoteCommitConfig {
    /// Main-region row on which the primary decomposition gate is enabled.
    pub q_canon_1_row: u8,
    /// Main-region row on which the secondary canonicity gate is enabled.
    pub q_canon_2_row: u8,
    /// y-region row on which the y-coordinate gate is enabled.
    pub q_y_canon_row: u8,
    /// Number of advice columns the layout spans.
    pub advice_columns: u8,
}

impl NoteCommitConfig {
    /// Fix the selector rows and column span of the fixed layout.
    pub fn configure() -> (c: Self)
        ensures
            c.q_canon_1_row == 1,
            c.q_canon_2_row == 2,
            c.q_y_canon_row == 0,
            c.advice_columns == 10,
    {
        NoteCommitConfig { q_canon_1_row: 1, q_canon_2_row: 2, q_y_canon_row: 0, advice_columns: 10 }
    }

    /// The canonicity helper shared by the first x-coordinate and both
    /// y-coordinates: shift a 250-bit operand by `2^130 - T_P` and strip
    /// thirteen ten-bit words; the returned residue is zero exactly when
    /// the operand is below `T_P`.
    pub fn canon_bitshift_130(&self, a: &Vec<bool>) -> (r: (Vec<bool>, Vec<bool>))
        requires
            a@.len() == 250,
        ensures
            r.0@.len() == 251,
            bits_val(r.0@) + T_P == bits_val(a@) + pow2(130),
            r.1@ == r.0@.subrange(130, 251),
            bits_val(r.1@) == bits_val(r.0@) / pow2(130),
            bits_val(r.1@) == 0 <==> bits_val(a@) < T_P,
    {
        let shift = fe_pad(&fe_pow2(130), 250);
        let sum = fe_add(a, &shift);
        let tp = fe_pad(&fe_t_p(), 251);
        proof {
            lemma_t_p_small();
        }
        let prime = fe_sub(&sum, &tp);
        let mut zs = running_sums(&prime, 13);
        let z = zs.remove(13);
        proof {
            lemma_residue_zero(bits_val(prime@), 130);
        }
        (prime, z)
    }

    /// Canonicity of the second x-coordinate's low 254 bits `b_3 + 2^4 c`:
    /// shift by `2^140 - T_P` and strip fourteen ten-bit words.
    pub fn pkd_x_canonicity(&self, b_3: &Vec<bool>, c: &Vec<bool>) -> (r: (Vec<bool>, Vec<bool>))
        requires
            b_3@.len() == 4,
            c@.len() == 250,
        ensures
            r.0@.len() == 255,
            bits_val(r.0@) + T_P == bits_val(b_3@) + pow2(4) * bits_val(c@) + pow2(140),
            r.1@ == r.0@.subrange(140, 255),
            bits_val(r.1@) == bits_val(r.0@) / pow2(140),
            bits_val(r.1@) == 0 <==> bits_val(b_3@) + pow2(4) * bits_val(c@) < T_P,
    {
        let low = crate::bits::fe_concat(b_3, c);
        let shift = fe_pad(&fe_pow2(140), 254);
        let sum = fe_add(&low, &shift);
        let tp = fe_pad(&fe_t_p(), 255);
        proof {
            lemma_t_p_small();
        }
        let prime = fe_sub(&sum, &tp);
        let mut zs = running_sums(&prime, 14);
        let z = zs.remove(14);
        proof {
            lemma_residue_zero(bits_val(prime@), 140);
        }
        (prime, z)
    }

    /// Canonicity of rho's low 254 bits `e_1 + 2^4 f`: shift by
    /// `2^140 - T_P` and strip fourteen ten-bit words.
    pub fn rho_canonicity(&self, e_1: &Vec<bool>, f: &Vec<bool>) -> (r: (Vec<bool>, Vec<bool>))
        requires
            e_1@.len() == 4,
            f@.len() == 250,
        ensures
            r.0@.len() == 255,
            bits_val(r.0@) + T_P == bits_val(e_1@) + pow2(4) * bits_val(f@) + pow2(140),
            r.1@ == r.0@.subrange(140, 255),
            bits_val(r.1@) == bits_val(r.0@) / pow2(140),
            bits_val(r.1@) == 0 <==> bits_val(e_1@) + pow2(4) * bits_val(f@) < T_P,
    {
        let low = crate::bits::fe_concat(e_1, f);
        let shift = fe_pad(&fe_pow2(140), 254);
        let sum = fe_add(&low, &shift);
        let tp = fe_pad(&fe_t_p(), 255);
        proof {
            lemma_t_p_small();
        }
        let prime = fe_sub(&sum, &tp);
        let mut zs = running_sums(&prime, 14);
        let z = zs.remove(14);
        proof {
            lemma_residue_zero(bits_val(prime@), 140);
        }
        (prime, z)
    }

    /// Canonicity of psi's low 249 bits `g_1 + 2^9 g_2`: shift by
    /// `2^130 - T_P` and strip thirteen ten-bit words.
    pub fn psi_canonicity(&self, g_1: &Vec<bool>, g_2: &Vec<bool>) -> (r: (Vec<bool>, Vec<bool>))
        requires
            g_1@.len() == 9,
            g_2@.len() == 240,
        ensures
            r.0@.len() == 250,
            bits_val(r.0@) + T_P == bits_val(g_1@) + pow2(9) * bits_val(g_2@) + pow2(130),
            r.1@ == r.0@.subrange(130, 250),
            bits_val(r.1@) == bits_val(r.0@) / pow2(130),
            bits_val(r.1@) == 0 <==> bits_val(g_1@) + pow2(9) * bits_val(g_2@) < T_P,
    {
        let low = crate::bits::fe_concat(g_1, g_2);
        let shift = fe_pad(&fe_pow2(130), 249);
        let sum = fe_add(&low, &shift);
        let tp = fe_pad(&fe_t_p(), 250);
        proof {
            lemma_t_p_small();
        }
        let prime = fe_sub(&sum, &tp);
        let mut zs = running_sums(&prime, 13);
        let z = zs.remove(13);
        proof {
            lemma_residue_zero(bits_val(prime@), 130);
        }
        (prime, z)
    }

    /// Decompose one y-coordinate and build its canonicity witness: the
    /// low 250 bits `j`, its running sums, and the shifted operand
    /// `j + 2^130 - T_P` with its residue.
    pub fn y_canonicity(&self, y: &Vec<bool>) -> (yc: YCells)
        requires
            y@.len() == 255,
        ensures
            ycells_correct(y@, &yc),
    {
        let lsb = fe_slice(y, 0, 1);
        let k_0 = fe_slice(y, 1, 10);
        let k_2 = fe_slice(y, 250, 254);
        let k_3 = fe_slice(y, 254, 255);
        let j = fe_slice(y, 0, 250);
        proof {
            crate::bits::lemma_val_bound(j@);
        }
        let mut zs = crate::running_sum::full_check(&j, 25, true);
        let z13_j = zs.remove(13);
        let z1_j = zs.remove(1);
        let jp = self.canon_bitshift_130(&j);
        proof {
            assert(j@.subrange(10, 250) =~= y@.subrange(10, 250));
            assert(j@.subrange(130, 250) =~= y@.subrange(130, 250));
        }
        YCells {
            y: fe_copy(y),
            lsb,
            k_0,
            k_2,
            k_3,
            j,
            z1_j,
            z13_j,
            j_prime: jp.0,
            z13_j_prime: jp.1,
        }
    }
}

/// The finished witness trail of one commitment construction: the
/// main-region snapshot, the two y-coordinate bundles, and the ordered
/// message pieces handed to the hash primitive.
pub struct NoteCommitAssignment {
    /// The forty main-region cells.
    pub cells: GateCells,
    /// The y-coordinate bundle of the first point.
    pub y_gd: YCells,
    /// The y-coordinate bundle of the second point.
    pub y_pkd: YCells,
    /// The eight message pieces `a ..= h`, in hashing order.
    pub pieces: Vec<Vec<bool>>,
}

/// The assignment is the correct, deterministic witness trail of the
/// given inputs: every cell is pinned as a function of the witness.
pub open spec fn assignment_correct(w: &NoteCommitWitness, asg: &NoteCommitAssignment) -> bool {
    let c = &asg.cells;
    &&& c.gd_x@ == w.gd_x@
    &&& c.pkd_x@ == w.pkd_x@
    &&& c.rho@ == w.rho@
    &&& c.psi@ == w.psi@
    &&& c.value@.len() == 64
    &&& bits_val(c.value@) == w.value
    &&& c.a@ == w.gd_x@.subrange(0, 250)
    &&& c.b_0@ == w.gd_x@.subrange(250, 254)
    &&& c.b_1@ == w.gd_x@.subrange(254, 255)
    &&& c.b_2@ == w.gd_y@.subrange(0, 1)
    &&& c.b_3@ == w.pkd_x@.subrange(0, 4)
    &&& c.b@ == c.b_0@ + c.b_1@ + c.b_2@ + c.b_3@
    &&& c.c@ == w.pkd_x@.subrange(4, 254)
    &&& c.d_0@ == w.pkd_x@.subrange(254, 255)
    &&& c.d_1@ == w.pkd_y@.subrange(0, 1)
    &&& c.d_2@ == c.value@.subrange(0, 8)
    &&& c.d@ == c.d_0@ + c.d_1@ + c.d_2@ + c.value@.subrange(8, 58)
    &&& c.e_0@ == c.value@.subrange(58, 64)
    &&& c.e_1@ == w.rho@.subrange(0, 4)
    &&& c.e@ == c.e_0@ + c.e_1@
    &&& c.f@ == w.rho@.subrange(4, 254)
    &&& c.g_0@ == w.rho@.subrange(254, 255)
    &&& c.g_1@ == w.psi@.subrange(0, 9)
    &&& c.g@ == c.g_0@ + c.g_1@ + w.psi@.subrange(9, 249)
    &&& c.h_0@ == w.psi@.subrange(249, 254)
    &&& c.h_1@ == w.psi@.subrange(254, 255)
    &&& c.h@ == c.h_0@ + c.h_1@ + Seq::new(4, |i: int| false)
    &&& c.z1_d@ == c.d@.subrange(10, 60)
    &&& c.z1_g@ == c.g@.subrange(10, 250)
    &&& c.z13_a@ == c.a@.subrange(130, 250)
    &&& c.z13_c@ == c.c@.subrange(130, 250)
    &&& c.z13_f@ == c.f@.subrange(130, 250)
    &&& c.z13_g@ == c.g@.subrange(130, 250)
    &&& c.a_prime@.len() == 251
    &&& bits_val(c.a_prime@) + T_P == bits_val(c.a@) + pow2(130)
    &&& c.z13_a_prime@ == c.a_prime@.subrange(130, 251)
    &&& c.b3_c_prime@.len() == 255
    &&& bits_val(c.b3_c_prime@) + T_P == bits_val(c.b_3@) + pow2(4) * bits_val(c.c@) + pow2(140)
    &&& c.z14_b3_c_prime@ == c.b3_c_prime@.subrange(140, 255)
    &&& c.e1_f_prime@.len() == 255
    &&& bits_val(c.e1_f_prime@) + T_P == bits_val(c.e_1@) + pow2(4) * bits_val(c.f@) + pow2(140)
    &&& c.z14_e1_f_prime@ == c.e1_f_prime@.subrange(140, 255)
    &&& c.g1_g2_prime@.len() == 250
    &&& bits_val(c.g1_g2_prime@) + T_P == bits_val(c.g_1@) + pow2(9) * bits_val(c.z1_g@) + pow2(
        130,
    )
    &&& c.z13_g1_g2_prime@ == c.g1_g2_prime@.subrange(130, 250)
    &&& ycells_correct(w.gd_y@, &asg.y_gd)
    &&& ycells_correct(w.pkd_y@, &asg.y_pkd)
    &&& asg.pieces@.len() == 8
    &&& asg.pieces@[0]@ == c.a@
    &&& asg.pieces@[1]@ == c.b@
    &&& asg.pieces@[2]@ == c.c@
    &&& asg.pieces@[3]@ == c.d@
    &&& asg.pieces@[4]@ == c.e@
    &&& asg.pieces@[5]@ == c.f@
    &&& asg.pieces@[6]@ == c.g@
    &&& asg.pieces@[7]@ == c.h@
}

impl NoteCommitConfig {
    /// Build the full witness trail of one commitment construction.
    ///
    /// Succeeds exactly when a witness is present and well-formed; a
    /// cryptographically invalid witness still synthesizes and only fails
    /// the identity checks afterwards.
    pub fn assign_region(&self, witness: Option<&NoteCommitWitness>) -> (r: Result<
        NoteCommitAssignment,
        Error,
    >)
        ensures
            match witness {
                Some(w) => {
                    if w.wf() {
                        r matches Ok(asg) && assignment_correct(w, &asg)
                    } else {
                        r matches Err(e) && e == Error::SynthesisError
                    }
                },
                None => r matches Err(e) && e == Error::SynthesisError,
            },
    {
        let w = match witness {
            Some(w) => w,
            None => {
                return Err(Error::SynthesisError);
            },
        };
        if w.gd_x.len() != 255 || w.gd_y.len() != 255 || w.pkd_x.len() != 255 || w.pkd_y.len()
            != 255 || w.rho.len() != 255 || w.psi.len() != 255 {
            return Err(Error::SynthesisError);
        }
        let value_bits = fe_from_u64(w.value);
        let p = decompose(&w.gd_x, &w.gd_y, &w.pkd_x, &w.pkd_y, &value_bits, &w.rho, &w.psi);
        let y_gd = self.y_canonicity(&w.gd_y);
        let y_pkd = self.y_canonicity(&w.pkd_y);
        let mut zs_a = running_sums(&p.a, 25);
        let z13_a = zs_a.remove(13);
        let mut zs_c = running_sums(&p.c, 25);
        let z13_c = zs_c.remove(13);
        let mut zs_d = running_sums(&p.d, 6);
        let z1_d = zs_d.remove(1);
        let mut zs_f = running_sums(&p.f, 25);
        let z13_f = zs_f.remove(13);
        let mut zs_g = running_sums(&p.g, 25);
        let z13_g = zs_g.remove(13);
        let z1_g = zs_g.remove(1);
        let ap = self.canon_bitshift_130(&p.a);
        let bp = self.pkd_x_canonicity(&p.b_3, &p.c);
        let ep = self.rho_canonicity(&p.e_1, &p.f);
        let gp = self.psi_canonicity(&p.g_1, &p.g_2);
        proof {
            assert(p.g@.subrange(10, 250) =~= p.g_2@);
        }
        let mut msg: Vec<Vec<bool>> = Vec::new();
        msg.push(fe_copy(&p.a));
        msg.push(fe_copy(&p.b));
        msg.push(fe_copy(&p.c));
        msg.push(fe_copy(&p.d));
        msg.push(fe_copy(&p.e));
        msg.push(fe_copy(&p.f));
        msg.push(fe_copy(&p.g));
        msg.push(fe_copy(&p.h));
        let cells = GateCells {
            b: p.b,
            d: p.d,
            e: p.e,
            g: p.g,
            h: p.h,
            d_1: p.d_1,
            pkd_x: fe_copy(&w.pkd_x),
            b_3: p.b_3,
            a_prime: ap.0,
            b_2: p.b_2,
            e1_f_prime: ep.0,
            g1_g2_prime: gp.0,
            value: value_bits,
            d_2: p.d_2,
            z1_d,
            e_0: p.e_0,
            b3_c_prime: bp.0,
            c: p.c,
            a: p.a,
            gd_x: fe_copy(&w.gd_x),
            e_1: p.e_1,
            f: p.f,
            g_0: p.g_0,
            g_1: p.g_1,
            z1_g,
            h_0: p.h_0,
            h_1: p.h_1,
            d_0: p.d_0,
            b_0: p.b_0,
            b_1: p.b_1,
            rho: fe_copy(&w.rho),
            z13_f,
            z14_e1_f_prime: ep.1,
            psi: fe_copy(&w.psi),
            z13_g,
            z13_g1_g2_prime: gp.1,
            z13_c,
            z14_b3_c_prime: bp.1,
            z13_a,
            z13_a_prime: ap.1,
        };
        Ok(NoteCommitAssignment { cells, y_gd, y_pkd, pieces: msg })
    }

    /// Build the witness trail of a canonical witness: construction cannot
    /// fail, and the result is proved to satisfy both main-region gates,
    /// both y-coordinate gates, and every range-check fact.
    pub fn assign_region_canonical(&self, w: &NoteCommitWitness) -> (asg: NoteCommitAssignment)
        requires
            w.wf(),
            bits_val(w.gd_x@) < crate::field::p_modulus(),
            bits_val(w.gd_y@) < crate::field::p_modulus(),
            bits_val(w.pkd_x@) < crate::field::p_modulus(),
            bits_val(w.pkd_y@) < crate::field::p_modulus(),
            bits_val(w.rho@) < crate::field::p_modulus(),
            bits_val(w.psi@) < crate::field::p_modulus(),
        ensures
            assignment_correct(w, &asg),
            crate::cells::widths_ok(&asg.cells),
            crate::cells::sums_ok(&asg.cells),
            crate::cells::q_canon_1_ok(&asg.cells),
            crate::cells::q_canon_2_ok(&asg.cells),
            crate::cells::y_widths_ok(&asg.y_gd),
            crate::cells::q_y_canon_ok(&asg.y_gd),
            crate::cells::y_widths_ok(&asg.y_pkd),
            crate::cells::q_y_canon_ok(&asg.y_pkd),
    {
        match self.assign_region(Some(w)) {
            Ok(asg) => {
                proof {
                    lemma_assignment_satisfies_gates(w, &asg);
                }
                asg
            },
            Err(_) => vstd::pervasive::unreached(),
        }
    }
}

/// The four-row, ten-column table holds every live cell at its documented
/// coordinate, row-major, so that no gate reads farther than one row from
/// the row its selector is enabled on.
pub open spec fn gate_table_correct(c: &GateCells, t: Seq<Seq<Seq<bool>>>) -> bool {
    &&& t.len() == 4
    &&& forall|r: int| 0 <= r < 4 ==> (#[trigger] t[r]).len() == 10
    &&& t[0][0] == c.b@
    &&& t[0][1] == c.d@
    &&& t[0][2] == c.e@
    &&& t[0][3] == c.g@
    &&& t[0][4] == c.h@
    &&& t[0][5] == c.d_1@
    &&& t[0][6] == c.pkd_x@
    &&& t[0][7] == c.b_3@
    &&& t[0][8] == c.a_prime@
    &&& t[0][9] == c.b_2@
    &&& t[1][0] == c.e1_f_prime@
    &&& t[1][1] == c.g1_g2_prime@
    &&& t[1][2] == c.value@
    &&& t[1][3] == c.d_2@
    &&& t[1][4] == c.z1_d@
    &&& t[1][5] == c.e_0@
    &&& t[1][6] == c.b3_c_prime@
    &&& t[1][7] == c.c@
    &&& t[1][8] == c.a@
    &&& t[1][9] == c.gd_x@
    &&& t[2][0] == c.e_1@
    &&& t[2][1] == c.f@
    &&& t[2][2] == c.g_0@
    &&& t[2][3] == c.g_1@
    &&& t[2][4] == c.z1_g@
    &&& t[2][5] == c.h_0@
    &&& t[2][6] == c.h_1@
    &&& t[2][7] == c.d_0@
    &&& t[2][8] == c.b_0@
    &&& t[2][9] == c.b_1@
    &&& t[3][0] == c.rho@
    &&& t[3][1] == c.z13_f@
    &&& t[3][2] == c.z14_e1_f_prime@
    &&& t[3][3] == c.psi@
    &&& t[3][4] == c.z13_g@
    &&& t[3][5] == c.z13_g1_g2_prime@
    &&& t[3][6] == c.z13_c@
    &&& t[3][7] == c.z14_b3_c_prime@
    &&& t[3][8] == c.z13_a@
    &&& t[3][9] == c.z13_a_prime@
}

/// The view of a row of copied cells.
pub open spec fn row_views(row: Seq<Vec<bool>>) -> Seq<Seq<bool>> {
    row.map(|i: int, v: Vec<bool>| v@)
}

impl NoteCommitConfig {
    /// Lay the forty live cells into the fixed four-row region, each at
    /// its documented coordinate.
    pub fn assign_gate(&self, cells: &GateCells) -> (t: Vec<Vec<Vec<bool>>>)
        ensures
            gate_table_correct(
                cells,
                t@.map(|i: int, row: Vec<Vec<bool>>| row_views(row@)),
            ),
    {
        let row0: Vec<Vec<bool>> = vec![
            fe_copy(&cells.b),
            fe_copy(&cells.d),
            fe_copy(&cells.e),
            fe_copy(&cells.g),
            fe_copy(&cells.h),
            fe_copy(&cells.d_1),
            fe_copy(&cells.pkd_x),
            fe_copy(&cells.b_3),
            fe_copy(&cells.a_prime),
            fe_copy(&cells.b_2),
        ];
        let row1: Vec<Vec<bool>> = vec![
            fe_copy(&cells.e1_f_prime),
            fe_copy(&cells.g1_g2_prime),
            fe_copy(&cells.value),
            fe_copy(&cells.d_2),
            fe_copy(&cells.z1_d),
            fe_copy(&cells.e_0),
            fe_copy(&cells.b3_c_prime),
            fe_copy(&cells.c),
            fe_copy(&cells.a),
            fe_copy(&cells.gd_x),
        ];
        let row2: Vec<Vec<bool>> = vec![
            fe_copy(&cells.e_1),
            fe_copy(&cells.f),
            fe_copy(&cells.g_0),
            fe_copy(&cells.g_1),
            fe_copy(&cells.z1_g),
            fe_copy(&cells.h_0),
            fe_copy(&cells.h_1),
            fe_copy(&cells.d_0),
            fe_copy(&cells.b_0),
            fe_copy(&cells.b_1),
        ];
        let row3: Vec<Vec<bool>> = vec![
            fe_copy(&cells.rho),
            fe_copy(&cells.z13_f),
            fe_copy(&cells.z14_e1_f_prime),
            fe_copy(&cells.psi),
            fe_copy(&cells.z13_g),
            fe_copy(&cells.z13_g1_g2_prime),
            fe_copy(&cells.z13_c),
            fe_copy(&cells.z14_b3_c_prime),
            fe_copy(&cells.z13_a),
            fe_copy(&cells.z13_a_prime),
        ];
        let t: Vec<Vec<Vec<bool>>> = vec![row0, row1, row2, row3];
        t
    }
}

/// Scaling by a weight of at least one does not shrink a value.
proof fn lemma_scale_at_least(wt: nat, x: nat)
    requires
        wt >= 1,
    ensures
        x <= wt * x,
        x >= 1 ==> wt <= wt * x,
{
    assert(x <= wt * x && (x >= 1 ==> wt <= wt * x)) by (nonlinear_arith)
        requires
            wt >= 1,
    ;
}

/// Canonicity completeness for one y-coordinate bundle: the honest
/// decomposition of a canonical y-coordinate satisfies the y gate and its
/// range-check facts.
pub proof fn lemma_ycells_satisfy_gate(y: Seq<bool>, yc: &YCells)
    requires
        y.len() == 255,
        bits_val(y) < crate::field::p_modulus(),
        ycells_correct(y, yc),
    ensures
        crate::cells::y_widths_ok(yc),
        crate::cells::q_y_canon_ok(yc),
{
    crate::cells::lemma_gate_pow2_facts();
    lemma_t_p_small();
    crate::bits::lemma_val_bound(yc.k_0@);
    crate::bits::lemma_val_bound(yc.k_2@);
    crate::bits::lemma_val_bound(yc.k_3@);
    crate::bits::lemma_val_bound(yc.j@);
    let k_2 = bits_val(yc.k_2@);
    let k_3 = bits_val(yc.k_3@);
    let j = bits_val(yc.j@);
    // Running-sum facts follow from the bit ranges.
    assert(y.subrange(10, 250) =~= yc.j@.subrange(10, 250));
    assert(y.subrange(130, 250) =~= yc.j@.subrange(130, 250));
    assert(yc.j@.subrange(10, 250) =~= yc.j@.skip(10));
    assert(yc.j@.subrange(130, 250) =~= yc.j@.skip(130));
    crate::bits::lemma_val_skip_div(yc.j@, 10);
    crate::bits::lemma_val_skip_div(yc.j@, 130);
    assert(yc.j_prime@.subrange(130, 251) =~= yc.j_prime@.skip(130));
    crate::bits::lemma_val_skip_div(yc.j_prime@, 130);
    // Booleanity of the top bit.
    crate::cells::lemma_boolean_values(k_3);
    // j and y recompose from the bit ranges.
    crate::pieces::lemma_split3(yc.j@, 1, 10);
    assert(yc.j@.subrange(0, 1) =~= y.subrange(0, 1));
    assert(yc.j@.subrange(1, 10) =~= y.subrange(1, 10));
    crate::pieces::lemma_split3(y, 250, 254);
    assert(y.subrange(0, 250) =~= yc.j@);
    // The gated canonicity checks.
    vstd::arithmetic::mul::lemma_mul_basics(k_2 as int);
    vstd::arithmetic::mul::lemma_mul_basics(bits_val(yc.z13_j@) as int);
    vstd::arithmetic::mul::lemma_mul_basics(bits_val(yc.z13_j_prime@) as int);
    if k_3 == 1 {
        vstd::arithmetic::mul::lemma_mul_basics(pow2(254) as int);
        assert(j + pow2(250) * k_2 < T_P);
        if k_2 >= 1 {
            lemma_scale_at_least(pow2(250), k_2);
            assert(false);
        }
        lemma_residue_zero(j, 130);
        lemma_residue_zero(bits_val(yc.j_prime@), 130);
    }
}

/// Canonicity completeness, end to end: the honest assignment of any
/// well-formed witness whose field elements are canonical satisfies both
/// main-region gates, both y gates, and every range-check fact.  Together
/// with the evaluators this shows an honest prover always has a
/// satisfying witness, whatever the indicator bits turn out to be.
pub proof fn lemma_assignment_satisfies_gates(w: &NoteCommitWitness, asg: &NoteCommitAssignment)
    requires
        w.wf(),
        assignment_correct(w, asg),
        bits_val(w.gd_x@) < crate::field::p_modulus(),
        bits_val(w.gd_y@) < crate::field::p_modulus(),
        bits_val(w.pkd_x@) < crate::field::p_modulus(),
        bits_val(w.pkd_y@) < crate::field::p_modulus(),
        bits_val(w.rho@) < crate::field::p_modulus(),
        bits_val(w.psi@) < crate::field::p_modulus(),
    ensures
        crate::cells::widths_ok(&asg.cells),
        crate::cells::sums_ok(&asg.cells),
        crate::cells::q_canon_1_ok(&asg.cells),
        crate::cells::q_canon_2_ok(&asg.cells),
        crate::cells::y_widths_ok(&asg.y_gd),
        crate::cells::q_y_canon_ok(&asg.y_gd),
        crate::cells::y_widths_ok(&asg.y_pkd),
        crate::cells::q_y_canon_ok(&asg.y_pkd),
{
    let c = &asg.cells;
    crate::cells::lemma_gate_pow2_facts();
    lemma_t_p_small();
    lemma_ycells_satisfy_gate(w.gd_y@, &asg.y_gd);
    lemma_ycells_satisfy_gate(w.pkd_y@, &asg.y_pkd);

    // Width bounds: every cell's length is its declared width.
    crate::bits::lemma_val_bound(c.a@);
    crate::bits::lemma_val_bound(c.b@);
    crate::bits::lemma_val_bound(c.c@);
    crate::bits::lemma_val_bound(c.d@);
    crate::bits::lemma_val_bound(c.e@);
    crate::bits::lemma_val_bound(c.f@);
    crate::bits::lemma_val_bound(c.g@);
    crate::bits::lemma_val_bound(c.h@);
    crate::bits::lemma_val_bound(c.b_0@);
    crate::bits::lemma_val_bound(c.b_1@);
    crate::bits::lemma_val_bound(c.b_2@);
    crate::bits::lemma_val_bound(c.b_3@);
    crate::bits::lemma_val_bound(c.d_0@);
    crate::bits::lemma_val_bound(c.d_1@);
    crate::bits::lemma_val_bound(c.d_2@);
    crate::bits::lemma_val_bound(c.e_0@);
    crate::bits::lemma_val_bound(c.e_1@);
    crate::bits::lemma_val_bound(c.g_0@);
    crate::bits::lemma_val_bound(c.g_1@);
    crate::bits::lemma_val_bound(c.h_0@);
    crate::bits::lemma_val_bound(c.h_1@);
    crate::bits::lemma_val_bound(c.z1_d@);
    crate::bits::lemma_val_bound(c.z1_g@);

    // Running-sum facts: each shared entry strips the low bits of its
    // source cell.
    assert(c.d@.subrange(10, 60) =~= c.d@.skip(10));
    crate::bits::lemma_val_skip_div(c.d@, 10);
    assert(c.g@.subrange(10, 250) =~= c.g@.skip(10));
    crate::bits::lemma_val_skip_div(c.g@, 10);
    assert(c.a@.subrange(130, 250) =~= c.a@.skip(130));
    crate::bits::lemma_val_skip_div(c.a@, 130);
    assert(c.c@.subrange(130, 250) =~= c.c@.skip(130));
    crate::bits::lemma_val_skip_div(c.c@, 130);
    assert(c.f@.subrange(130, 250) =~= c.f@.skip(130));
    crate::bits::lemma_val_skip_div(c.f@, 130);
    assert(c.g@.subrange(130, 250) =~= c.g@.skip(130));
    crate::bits::lemma_val_skip_div(c.g@, 130);
    assert(c.a_prime@.subrange(130, 251) =~= c.a_prime@.skip(130));
    crate::bits::lemma_val_skip_div(c.a_prime@, 130);
    assert(c.b3_c_prime@.subrange(140, 255) =~= c.b3_c_prime@.skip(140));
    crate::bits::lemma_val_skip_div(c.b3_c_prime@, 140);
    assert(c.e1_f_prime@.subrange(140, 255) =~= c.e1_f_prime@.skip(140));
    crate::bits::lemma_val_skip_div(c.e1_f_prime@, 140);
    assert(c.g1_g2_prime@.subrange(130, 250) =~= c.g1_g2_prime@.skip(130));
    crate::bits::lemma_val_skip_div(c.g1_g2_prime@, 130);

    // Booleanity of the six 1-bit sub-pieces.
    crate::cells::lemma_boolean_values(bits_val(c.b_1@));
    crate::cells::lemma_boolean_values(bits_val(c.b_2@));
    crate::cells::lemma_boolean_values(bits_val(c.d_0@));
    crate::cells::lemma_boolean_values(bits_val(c.d_1@));
    crate::cells::lemma_boolean_values(bits_val(c.g_0@));
    crate::cells::lemma_boolean_values(bits_val(c.h_1@));

    // Composite pieces recompose from their sub-pieces.
    crate::pieces::lemma_concat4(c.b_0@, c.b_1@, c.b_2@, c.b_3@);
    crate::pieces::lemma_concat4(c.d_0@, c.d_1@, c.d_2@, c.value@.subrange(8, 58));
    assert(c.d@.subrange(10, 60) =~= c.value@.subrange(8, 58));
    crate::bits::lemma_val_concat(c.e_0@, c.e_1@);
    crate::pieces::lemma_concat_pow2(c.g_0@, c.g_1@, w.psi@.subrange(9, 249));
    assert(c.g@.subrange(10, 250) =~= w.psi@.subrange(9, 249));
    crate::pieces::lemma_concat_pow2(c.h_0@, c.h_1@, Seq::new(4, |i: int| false));
    assert(bits_val(Seq::new(4, |i: int| false)) == 0) by {
        crate::bits::lemma_val_zero(Seq::new(4, |i: int| false));
    }

    // The inputs recompose from the pieces.
    crate::pieces::lemma_split3(w.gd_x@, 250, 254);
    crate::pieces::lemma_split3(w.pkd_x@, 4, 254);
    crate::pieces::lemma_split3(c.value@, 8, 58);
    crate::pieces::lemma_split3(w.rho@, 4, 254);
    crate::pieces::lemma_split4(w.psi@, 9, 249, 254);

    // The gated canonicity checks, one indicator at a time.
    let a = bits_val(c.a@);
    let b_0 = bits_val(c.b_0@);
    let b_1 = bits_val(c.b_1@);
    let b_3 = bits_val(c.b_3@);
    let cv = bits_val(c.c@);
    let d_0 = bits_val(c.d_0@);
    let e_1 = bits_val(c.e_1@);
    let f = bits_val(c.f@);
    let g_0 = bits_val(c.g_0@);
    let g_1 = bits_val(c.g_1@);
    let z1_g = bits_val(c.z1_g@);
    let h_0 = bits_val(c.h_0@);
    let h_1 = bits_val(c.h_1@);
    vstd::arithmetic::mul::lemma_mul_basics(pow2(250) as int);
    vstd::arithmetic::mul::lemma_mul_basics(pow2(254) as int);
    vstd::arithmetic::mul::lemma_mul_basics(pow2(249) as int);
    vstd::arithmetic::mul::lemma_mul_basics(b_0 as int);
    vstd::arithmetic::mul::lemma_mul_basics(h_0 as int);
    vstd::arithmetic::mul::lemma_mul_basics(bits_val(c.z13_a@) as int);
    vstd::arithmetic::mul::lemma_mul_basics(bits_val(c.z13_a_prime@) as int);
    vstd::arithmetic::mul::lemma_mul_basics(bits_val(c.z13_c@) as int);
    vstd::arithmetic::mul::lemma_mul_basics(bits_val(c.z14_b3_c_prime@) as int);
    vstd::arithmetic::mul::lemma_mul_basics(bits_val(c.z13_f@) as int);
    vstd::arithmetic::mul::lemma_mul_basics(bits_val(c.z14_e1_f_prime@) as int);
    vstd::arithmetic::mul::lemma_mul_basics(bits_val(c.z13_g@) as int);
    vstd::arithmetic::mul::lemma_mul_basics(bits_val(c.z13_g1_g2_prime@) as int);

    if b_1 == 1 {
        assert(a + pow2(250) * b_0 < T_P);
        if b_0 >= 1 {
            lemma_scale_at_least(pow2(250), b_0);
            assert(false);
        }
        lemma_residue_zero(a, 130);
        lemma_residue_zero(bits_val(c.a_prime@), 130);
    }
    if d_0 == 1 {
        assert(b_3 + pow2(4) * cv < T_P);
        lemma_scale_at_least(pow2(4), cv);
        lemma_residue_zero(cv, 130);
        lemma_residue_zero(bits_val(c.b3_c_prime@), 140);
    }
    if g_0 == 1 {
        assert(e_1 + pow2(4) * f < T_P);
        lemma_scale_at_least(pow2(4), f);
        lemma_residue_zero(f, 130);
        lemma_residue_zero(bits_val(c.e1_f_prime@), 140);
    }
    if h_1 == 1 {
        assert(g_1 + pow2(9) * z1_g + pow2(249) * h_0 < T_P);
        if h_0 >= 1 {
            lemma_scale_at_least(pow2(249), h_0);
            assert(false);
        }
        // g itself fits in 130 bits: it is one bit plus twice psi's low
        // 249 bits, which sit below T_P.
        assert(bits_val(c.g@) == g_0 + 2 * (g_1 + pow2(9) * z1_g)) by (nonlinear_arith)
            requires
                bits_val(c.g@) == g_0 + 2 * g_1 + pow2(10) * z1_g,
                pow2(10) == 2 * pow2(9),
        ;
        vstd::arithmetic::power2::lemma_pow2_unfold(130);
        vstd::arithmetic::power2::lemma_pow2_unfold(129);
        assert(bits_val(c.g@) < pow2(130));
        lemma_residue_zero(bits_val(c.g@), 130);
        lemma_residue_zero(bits_val(c.g1_g2_prime@), 130);
    }
}

/// End-to-end determinism: two correct assignments built from witnesses
/// holding identical values are identical, cell for cell, and hand the
/// hash primitive identical message pieces.
pub proof fn lemma_construction_deterministic(
    w1: &NoteCommitWitness,
    w2: &NoteCommitWitness,
    a1: &NoteCommitAssignment,
    a2: &NoteCommitAssignment,
)
    requires
        w1.wf(),
        w2.wf(),
        w1.gd_x@ == w2.gd_x@,
        w1.gd_y@ == w2.gd_y@,
        w1.pkd_x@ == w2.pkd_x@,
        w1.pkd_y@ == w2.pkd_y@,
        w1.value == w2.value,
        w1.rho@ == w2.rho@,
        w1.psi@ == w2.psi@,
        assignment_correct(w1, a1),
        assignment_correct(w2, a2),
    ensures
        assignment_views_eq(a1, a2),
{
    crate::bits::lemma_val_inj(a1.cells.value@, a2.cells.value@);
    crate::bits::lemma_val_inj(a1.cells.a_prime@, a2.cells.a_prime@);
    crate::bits::lemma_val_inj(a1.cells.b3_c_prime@, a2.cells.b3_c_prime@);
    crate::bits::lemma_val_inj(a1.cells.e1_f_prime@, a2.cells.e1_f_prime@);
    crate::bits::lemma_val_inj(a1.cells.g1_g2_prime@, a2.cells.g1_g2_prime@);
    crate::bits::lemma_val_inj(a1.y_gd.j_prime@, a2.y_gd.j_prime@);
    crate::bits::lemma_val_inj(a1.y_pkd.j_prime@, a2.y_pkd.j_prime@);
}

/// Cell-for-cell equality of two witness trails.
pub open spec fn assignment_views_eq(a1: &NoteCommitAssignment, a2: &NoteCommitAssignment) -> bool {
    &&& cells_views_eq(&a1.cells, &a2.cells)
    &&& ycells_views_eq(&a1.y_gd, &a2.y_gd)
    &&& ycells_views_eq(&a1.y_pkd, &a2.y_pkd)
    &&& a1.pieces@.len() == a2.pieces@.len()
    &&& forall|i: int| 0 <= i < a1.pieces@.len() ==> (#[trigger] a1.pieces@[i])@ == a2.pieces@[i]@
}

/// View equality of every main-region cell.
pub open spec fn cells_views_eq(c1: &GateCells, c2: &GateCells) -> bool {
    &&& c1.b@ == c2.b@
    &&& c1.d@ == c2.d@
    &&& c1.e@ == c2.e@
    &&& c1.g@ == c2.g@
    &&& c1.h@ == c2.h@
    &&& c1.d_1@ == c2.d_1@
    &&& c1.pkd_x@ == c2.pkd_x@
    &&& c1.b_3@ == c2.b_3@
    &&& c1.a_prime@ == c2.a_prime@
    &&& c1.b_2@ == c2.b_2@
    &&& c1.e1_f_prime@ == c2.e1_f_prime@
    &&& c1.g1_g2_prime@ == c2.g1_g2_prime@
    &&& c1.value@ == c2.value@
    &&& c1.d_2@ == c2.d_2@
    &&& c1.z1_d@ == c2.z1_d@
    &&& c1.e_0@ == c2.e_0@
    &&& c1.b3_c_prime@ == c2.b3_c_prime@
    &&& c1.c@ == c2.c@
    &&& c1.a@ == c2.a@
    &&& c1.gd_x@ == c2.gd_x@
    &&& c1.e_1@ == c2.e_1@
    &&& c1.f@ == c2.f@
    &&& c1.g_0@ == c2.g_0@
    &&& c1.g_1@ == c2.g_1@
    &&& c1.z1_g@ == c2.z1_g@
    &&& c1.h_0@ == c2.h_0@
    &&& c1.h_1@ == c2.h_1@
    &&& c1.d_0@ == c2.d_0@
    &&& c1.b_0@ == c2.b_0@
    &&& c1.b_1@ == c2.b_1@
    &&& c1.rho@ == c2.rho@
    &&& c1.z13_f@ == c2.z13_f@
    &&& c1.z14_e1_f_prime@ == c2.z14_e1_f_prime@
    &&& c1.psi@ == c2.psi@
    &&& c1.z13_g@ == c2.z13_g@
    &&& c1.z13_g1_g2_prime@ == c2.z13_g1_g2_prime@
    &&& c1.z13_c@ == c2.z13_c@
    &&& c1.z14_b3_c_prime@ == c2.z14_b3_c_prime@
    &&& c1.z13_a@ == c2.z13_a@
    &&& c1.z13_a_prime@ == c2.z13_a_prime@
}

/// View equality of every y-region cell.
pub open spec fn ycells_views_eq(y1: &YCells, y2: &YCells) -> bool {
    &&& y1.y@ == y2.y@
    &&& y1.lsb@ == y2.lsb@
    &&& y1.k_0@ == y2.k_0@
    &&& y1.k_2@ == y2.k_2@
    &&& y1.k_3@ == y2.k_3@
    &&& y1.j@ == y2.j@
    &&& y1.z1_j@ == y2.z1_j@
    &&& y1.z13_j@ == y2.z13_j@
    &&& y1.j_prime@ == y2.j_prime@
    &&& y1.z13_j_prime@ == y2.z13_j_prime@
}

/// The y-coordinate witness cells are a correct decomposition of the
/// given y-coordinate with its canonicity intermediates.
pub open spec fn ycells_correct(y: Seq<bool>, yc: &YCells) -> bool {
    &&& yc.y@ == y
    &&& yc.lsb@ == y.subrange(0, 1)
    &&& yc.k_0@ == y.subrange(1, 10)
    &&& yc.k_2@ == y.subrange(250, 254)
    &&& yc.k_3@ == y.subrange(254, 255)
    &&& yc.j@ == y.subrange(0, 250)
    &&& yc.z1_j@ == y.subrange(10, 250)
    &&& yc.z13_j@ == y.subrange(130, 250)
    &&& yc.j_prime@.len() == 251
    &&& bits_val(yc.j_prime@) + T_P == bits_val(yc.j@) + pow2(130)
    &&& yc.z13_j_prime@ == yc.j_prime@.subrange(130, 251)
    &&& bits_val(yc.z13_j_prime@) == bits_val(yc.j_prime@) / pow2(130)
}

} // verus!
