//! The piece decomposer: named bit ranges of the witnessed inputs.
//!
//! Two point x-coordinates, the low bit of each point's y-coordinate, a
//! 64-bit value and two field elements (rho, psi) are split into eight
//! message pieces `a ..= h`, sized for a hash primitive that consumes ten
//! bits per word.  Every piece and sub-piece is pinned here as an exact bit
//! range of its input, and the round-trip lemmas show that the declared
//! weighted sums rebuild each input from its pieces.

use crate::bits::{bits_val, fe_concat, fe_slice, fe_zeros, lemma_val_concat, lemma_val_split};
use vstd::arithmetic::power2::{lemma_pow2_adds, pow2};
use vstd::prelude::*;

verus! {

/// Splitting a string at two positions splits its value into three weighted
/// parts.
pub proof fn lemma_split3(s: Seq<bool>, k1: int, k2: int)
    requires
        0 <= k1 <= k2 <= s.len(),
    ensures
        bits_val(s) == bits_val(s.subrange(0, k1)) + pow2(k1 as nat) * bits_val(
            s.subrange(k1, k2),
        ) + pow2(k2 as nat) * bits_val(s.subrange(k2, s.len() as int)),
{
    lemma_val_split(s, k1);
    assert(s.take(k1) =~= s.subrange(0, k1));
    let hi = s.skip(k1);
    lemma_val_split(hi, k2 - k1);
    assert(hi.take(k2 - k1) =~= s.subrange(k1, k2));
    assert(hi.skip(k2 - k1) =~= s.subrange(k2, s.len() as int));
    lemma_pow2_adds(k1 as nat, (k2 - k1) as nat);
    let p1 = pow2(k1 as nat);
    let p21 = pow2((k2 - k1) as nat);
    let mid = bits_val(s.subrange(k1, k2));
    let top = bits_val(s.subrange(k2, s.len() as int));
    assert(p1 * (mid + p21 * top) == p1 * mid + (p1 * p21) * top) by (nonlinear_arith);
}

/// Splitting a string at three positions splits its value into four
/// weighted parts.
pub proof fn lemma_split4(s: Seq<bool>, k1: int, k2: int, k3: int)
    requires
        0 <= k1 <= k2 <= k3 <= s.len(),
    ensures
        bits_val(s) == bits_val(s.subrange(0, k1)) + pow2(k1 as nat) * bits_val(
            s.subrange(k1, k2),
        ) + pow2(k2 as nat) * bits_val(s.subrange(k2, k3)) + pow2(k3 as nat) * bits_val(
            s.subrange(k3, s.len() as int),
        ),
{
    lemma_split3(s, k1, k2);
    let tail = s.subrange(k2, s.len() as int);
    lemma_val_split(tail, k3 - k2);
    assert(tail.take(k3 - k2) =~= s.subrange(k2, k3));
    assert(tail.skip(k3 - k2) =~= s.subrange(k3, s.len() as int));
    lemma_pow2_adds(k2 as nat, (k3 - k2) as nat);
    let p2 = pow2(k2 as nat);
    let p32 = pow2((k3 - k2) as nat);
    let mid = bits_val(s.subrange(k2, k3));
    let top = bits_val(s.subrange(k3, s.len() as int));
    assert(p2 * (mid + p32 * top) == p2 * mid + (p2 * p32) * top) by (nonlinear_arith);
}

/// The eight message pieces and their named sub-pieces.
///
/// Each field is a little-endian bit string whose length is the sub-piece's
/// declared width; [`pieces_correct`] pins every one to an exact bit range
/// of the inputs.
pub struct Pieces {
    /// 250 bits: bits 0..250 of the first point's x-coordinate.
    pub a: Vec<bool>,
    /// 10 bits: `b_0 || b_1 || b_2 || b_3`.
    pub b: Vec<bool>,
    /// 4 bits: bits 250..254 of the first point's x-coordinate.
    pub b_0: Vec<bool>,
    /// 1 bit: bit 254 of the first point's x-coordinate.
    pub b_1: Vec<bool>,
    /// 1 bit: bit 0 of the first point's y-coordinate.
    pub b_2: Vec<bool>,
    /// 4 bits: bits 0..4 of the second point's x-coordinate.
    pub b_3: Vec<bool>,
    /// 250 bits: bits 4..254 of the second point's x-coordinate.
    pub c: Vec<bool>,
    /// 60 bits: `d_0 || d_1 || d_2 || d_3`.
    pub d: Vec<bool>,
    /// 1 bit: bit 254 of the second point's x-coordinate.
    pub d_0: Vec<bool>,
    /// 1 bit: bit 0 of the second point's y-coordinate.
    pub d_1: Vec<bool>,
    /// 8 bits: bits 0..8 of the value.
    pub d_2: Vec<bool>,
    /// 50 bits: bits 8..58 of the value.
    pub d_3: Vec<bool>,
    /// 10 bits: `e_0 || e_1`.
    pub e: Vec<bool>,
    /// 6 bits: bits 58..64 of the value.
    pub e_0: Vec<bool>,
    /// 4 bits: bits 0..4 of rho.
    pub e_1: Vec<bool>,
    /// 250 bits: bits 4..254 of rho.
    pub f: Vec<bool>,
    /// 250 bits: `g_0 || g_1 || g_2`.
    pub g: Vec<bool>,
    /// 1 bit: bit 254 of rho.
    pub g_0: Vec<bool>,
    /// 9 bits: bits 0..9 of psi.
    pub g_1: Vec<bool>,
    /// 240 bits: bits 9..249 of psi.
    pub g_2: Vec<bool>,
    /// 10 bits: `h_0 || h_1` plus four zero padding bits.
    pub h: Vec<bool>,
    /// 5 bits: bits 249..254 of psi.
    pub h_0: Vec<bool>,
    /// 1 bit: bit 254 of psi.
    pub h_1: Vec<bool>,
}

/// Every piece and sub-piece is the declared bit range of its input.
pub open spec fn pieces_correct(
    gd_x: Seq<bool>,
    gd_y: Seq<bool>,
    pkd_x: Seq<bool>,
    pkd_y: Seq<bool>,
    value: Seq<bool>,
    rho: Seq<bool>,
    psi: Seq<bool>,
    p: Pieces,
) -> bool {
    &&& p.a@ == gd_x.subrange(0, 250)
    &&& p.b_0@ == gd_x.subrange(250, 254)
    &&& p.b_1@ == gd_x.subrange(254, 255)
    &&& p.b_2@ == gd_y.subrange(0, 1)
    &&& p.b_3@ == pkd_x.subrange(0, 4)
    &&& p.b@ == p.b_0@ + p.b_1@ + p.b_2@ + p.b_3@
    &&& p.c@ == pkd_x.subrange(4, 254)
    &&& p.d_0@ == pkd_x.subrange(254, 255)
    &&& p.d_1@ == pkd_y.subrange(0, 1)
    &&& p.d_2@ == value.subrange(0, 8)
    &&& p.d_3@ == value.subrange(8, 58)
    &&& p.d@ == p.d_0@ + p.d_1@ + p.d_2@ + p.d_3@
    &&& p.e_0@ == value.subrange(58, 64)
    &&& p.e_1@ == rho.subrange(0, 4)
    &&& p.e@ == p.e_0@ + p.e_1@
    &&& p.f@ == rho.subrange(4, 254)
    &&& p.g_0@ == rho.subrange(254, 255)
    &&& p.g_1@ == psi.subrange(0, 9)
    &&& p.g_2@ == psi.subrange(9, 249)
    &&& p.g@ == p.g_0@ + p.g_1@ + p.g_2@
    &&& p.h_0@ == psi.subrange(249, 254)
    &&& p.h_1@ == psi.subrange(254, 255)
    &&& p.h@ == p.h_0@ + p.h_1@ + Seq::new(4, |i: int| false)
}

/// Split the witnessed inputs into the eight message pieces.
pub fn decompose(
    gd_x: &Vec<bool>,
    gd_y: &Vec<bool>,
    pkd_x: &Vec<bool>,
    pkd_y: &Vec<bool>,
    value: &Vec<bool>,
    rho: &Vec<bool>,
    psi: &Vec<bool>,
) -> (p: Pieces)
    requires
        gd_x@.len() == 255,
        gd_y@.len() == 255,
        pkd_x@.len() == 255,
        pkd_y@.len() == 255,
        value@.len() == 64,
        rho@.len() == 255,
        psi@.len() == 255,
    ensures
        pieces_correct(gd_x@, gd_y@, pkd_x@, pkd_y@, value@, rho@, psi@, p),
{
    let a = fe_slice(gd_x, 0, 250);
    let b_0 = fe_slice(gd_x, 250, 254);
    let b_1 = fe_slice(gd_x, 254, 255);
    let b_2 = fe_slice(gd_y, 0, 1);
    let b_3 = fe_slice(pkd_x, 0, 4);
    let b = fe_concat(&fe_concat(&fe_concat(&b_0, &b_1), &b_2), &b_3);
    let c = fe_slice(pkd_x, 4, 254);
    let d_0 = fe_slice(pkd_x, 254, 255);
    let d_1 = fe_slice(pkd_y, 0, 1);
    let d_2 = fe_slice(value, 0, 8);
    let d_3 = fe_slice(value, 8, 58);
    let d = fe_concat(&fe_concat(&fe_concat(&d_0, &d_1), &d_2), &d_3);
    let e_0 = fe_slice(value, 58, 64);
    let e_1 = fe_slice(rho, 0, 4);
    let e = fe_concat(&e_0, &e_1);
    let f = fe_slice(rho, 4, 254);
    let g_0 = fe_slice(rho, 254, 255);
    let g_1 = fe_slice(psi, 0, 9);
    let g_2 = fe_slice(psi, 9, 249);
    let g = fe_concat(&fe_concat(&g_0, &g_1), &g_2);
    let h_0 = fe_slice(psi, 249, 254);
    let h_1 = fe_slice(psi, 254, 255);
    let pad = fe_zeros(4);
    let h = fe_concat(&fe_concat(&h_0, &h_1), &pad);
    proof {
        assert(pad@ =~= Seq::new(4, |i: int| false));
    }
    Pieces { a, b, b_0, b_1, b_2, b_3, c, d, d_0, d_1, d_2, d_3, e, e_0, e_1, f, g, g_0, g_1, g_2, h, h_0, h_1 }
}

/// Recomposition round-trip: the declared weighted sums rebuild every input
/// and every composite piece from the sub-pieces, exactly.
pub proof fn lemma_pieces_recompose(
    gd_x: Seq<bool>,
    gd_y: Seq<bool>,
    pkd_x: Seq<bool>,
    pkd_y: Seq<bool>,
    value: Seq<bool>,
    rho: Seq<bool>,
    psi: Seq<bool>,
    p: Pieces,
)
    requires
        gd_x.len() == 255,
        gd_y.len() == 255,
        pkd_x.len() == 255,
        pkd_y.len() == 255,
        value.len() == 64,
        rho.len() == 255,
        psi.len() == 255,
        pieces_correct(gd_x, gd_y, pkd_x, pkd_y, value, rho, psi, p),
    ensures
        bits_val(gd_x) == bits_val(p.a@) + pow2(250) * bits_val(p.b_0@) + pow2(254) * bits_val(
            p.b_1@,
        ),
        bits_val(pkd_x) == bits_val(p.b_3@) + pow2(4) * bits_val(p.c@) + pow2(254) * bits_val(
            p.d_0@,
        ),
        bits_val(value) == bits_val(p.d_2@) + pow2(8) * bits_val(p.d_3@) + pow2(58) * bits_val(
            p.e_0@,
        ),
        bits_val(rho) == bits_val(p.e_1@) + pow2(4) * bits_val(p.f@) + pow2(254) * bits_val(
            p.g_0@,
        ),
        bits_val(psi) == bits_val(p.g_1@) + pow2(9) * bits_val(p.g_2@) + pow2(249) * bits_val(
            p.h_0@,
        ) + pow2(254) * bits_val(p.h_1@),
        bits_val(p.b@) == bits_val(p.b_0@) + pow2(4) * bits_val(p.b_1@) + pow2(5) * bits_val(
            p.b_2@,
        ) + pow2(6) * bits_val(p.b_3@),
        bits_val(p.d@) == bits_val(p.d_0@) + 2 * bits_val(p.d_1@) + 4 * bits_val(p.d_2@) + pow2(10)
            * bits_val(p.d_3@),
        bits_val(p.e@) == bits_val(p.e_0@) + pow2(6) * bits_val(p.e_1@),
        bits_val(p.g@) == bits_val(p.g_0@) + 2 * bits_val(p.g_1@) + pow2(10) * bits_val(p.g_2@),
        bits_val(p.h@) == bits_val(p.h_0@) + pow2(5) * bits_val(p.h_1@),
{
    vstd::arithmetic::power2::lemma2_to64();
    lemma_split3(gd_x, 250, 254);
    lemma_split3(pkd_x, 4, 254);
    lemma_split3(value, 8, 58);
    lemma_split3(rho, 4, 254);
    lemma_split4(psi, 9, 249, 254);
    lemma_concat4(p.b_0@, p.b_1@, p.b_2@, p.b_3@);
    lemma_concat4(p.d_0@, p.d_1@, p.d_2@, p.d_3@);
    lemma_val_concat(p.e_0@, p.e_1@);
    lemma_val_concat(p.g_0@ + p.g_1@, p.g_2@);
    lemma_val_concat(p.g_0@, p.g_1@);
    lemma_concat_pow2(p.g_0@, p.g_1@, p.g_2@);
    lemma_val_concat(p.h_0@ + p.h_1@, Seq::new(4, |i: int| false));
    lemma_val_concat(p.h_0@, p.h_1@);
    assert(bits_val(Seq::new(4, |i: int| false)) == 0) by {
        crate::bits::lemma_val_zero(Seq::new(4, |i: int| false));
    }
    lemma_concat_pow2(p.h_0@, p.h_1@, Seq::new(4, |i: int| false));
}

/// The value of a three-part concatenation, with the weights spelled out.
pub proof fn lemma_concat_pow2(x: Seq<bool>, y: Seq<bool>, z: Seq<bool>)
    ensures
        bits_val(x + y + z) == bits_val(x) + pow2(x.len()) * bits_val(y) + pow2(
            (x.len() + y.len()) as nat,
        ) * bits_val(z),
{
    lemma_val_concat(x + y, z);
    lemma_val_concat(x, y);
    lemma_pow2_adds(x.len(), y.len());
}

/// The value of a four-part concatenation, with the weights spelled out.
pub proof fn lemma_concat4(x: Seq<bool>, y: Seq<bool>, z: Seq<bool>, w: Seq<bool>)
    ensures
        bits_val(x + y + z + w) == bits_val(x) + pow2(x.len()) * bits_val(y) + pow2(
            (x.len() + y.len()) as nat,
        ) * bits_val(z) + pow2((x.len() + y.len() + z.len()) as nat) * bits_val(w),
{
    lemma_val_concat(x + y + z, w);
    lemma_concat_pow2(x, y, z);
    lemma_pow2_adds((x.len() + y.len()) as nat, z.len());
}

} // verus!
