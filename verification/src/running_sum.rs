//! Running sums: the proof currency of the range-check provider.
//!
//! Stripping ten-bit words off a value one at a time yields a sequence
//! `z_0, z_1, ...` with `z_i = floor(z_0 / 2^(10 i))`.  The circuit's lookup
//! argument constrains exactly one thing about such a sequence: every step
//! removes a word below `2^10`.  The lemmas here show that this local
//! condition pins every entry, and that the last entry is zero exactly when
//! the start value fits in the checked width.

use crate::bits::{bits_val, fe_shr};
use vstd::arithmetic::div_mod::{
    lemma_basic_div, lemma_div_denominator, lemma_fundamental_div_mod,
    lemma_mod_division_less_than_divisor,
};
use vstd::arithmetic::power2::{lemma2_to64, lemma_pow2_adds, lemma_pow2_pos, pow2};
use vstd::prelude::*;

verus! {

/// One lookup-checked step: `z` is what remains of `w` after removing one
/// word of ten bits, and that word is in range.
pub open spec fn strips_word(w: nat, z: nat) -> bool {
    w >= 1024 * z && w - 1024 * z < 1024
}

/// A sequence of cell values accepted by the word-by-word lookup argument.
pub open spec fn running_sum_ok(zs: Seq<nat>) -> bool {
    forall|i: int| 0 <= i && i + 1 < zs.len() ==> strips_word(#[trigger] zs[i], zs[i + 1])
}

/// Dividing by ten more bits is one more word-strip.
pub proof fn lemma_div_pow2_step(v: nat, m: nat)
    ensures
        v / pow2(m + 10) == (v / pow2(m)) / 1024,
        strips_word(v / pow2(m), v / pow2(m + 10)),
{
    lemma_pow2_pos(m);
    lemma_pow2_pos(m + 10);
    assert(pow2(10) == 1024) by {
        lemma2_to64();
    }
    lemma_pow2_adds(m, 10);
    lemma_div_denominator(v as int, pow2(m) as int, 1024);
    let w = v / pow2(m);
    lemma_fundamental_div_mod(w as int, 1024);
    lemma_mod_division_less_than_divisor(w as int, 1024);
}

/// A lookup-accepted sequence is the running sum of its first entry: every
/// entry is the first one shifted down by ten bits per step.
pub proof fn lemma_running_sum_entry(zs: Seq<nat>, i: int)
    requires
        running_sum_ok(zs),
        0 <= i < zs.len(),
    ensures
        zs[i] == zs[0] / pow2((10 * i) as nat),
    decreases i,
{
    if i == 0 {
        lemma_pow2_pos(0);
        assert(pow2(0) == 1) by {
            lemma2_to64();
        }
        lemma_basic_div_identity(zs[0] as int);
    } else {
        lemma_running_sum_entry(zs, i - 1);
        assert(strips_word(zs[i - 1], zs[i]));
        let m = (10 * (i - 1)) as nat;
        lemma_pow2_pos(m);
        assert(pow2(10) == 1024) by {
            lemma2_to64();
        }
        lemma_pow2_adds(m, 10);
        lemma_div_denominator(zs[0] as int, pow2(m) as int, 1024);
        lemma_strip_is_div(zs[i - 1], zs[i]);
    }
}

/// Division by one changes nothing.
proof fn lemma_basic_div_identity(x: int)
    requires
        x >= 0,
    ensures
        x / 1 == x,
{
    lemma_fundamental_div_mod(x, 1);
    lemma_mod_division_less_than_divisor(x, 1);
}

/// The word-strip relation determines the smaller value by division.
proof fn lemma_strip_is_div(w: nat, z: nat)
    requires
        strips_word(w, z),
    ensures
        z == w / 1024,
{
    vstd::arithmetic::div_mod::lemma_fundamental_div_mod_converse_div(
        w as int,
        1024,
        z as int,
        w - 1024 * z,
    );
}

/// The residue after `k` words is zero exactly when the start value fits in
/// `10 k` bits.
pub proof fn lemma_residue_zero(v: nat, m: nat)
    ensures
        v / pow2(m) == 0 <==> v < pow2(m),
{
    lemma_pow2_pos(m);
    if v < pow2(m) {
        lemma_basic_div(v as int, pow2(m) as int);
    }
    if v / pow2(m) == 0 {
        lemma_fundamental_div_mod(v as int, pow2(m) as int);
        lemma_mod_division_less_than_divisor(v as int, pow2(m) as int);
    }
}

/// The full range check of the provider: the running-sum witness over the
/// given number of words, optionally with the guarantee that the final
/// entry is zero — which an honest prover can give exactly when the value
/// fits in the checked width.
pub fn full_check(x: &Vec<bool>, words: usize, force_zero_tail: bool) -> (zs: Vec<Vec<bool>>)
    requires
        10 * words <= x@.len(),
        force_zero_tail ==> bits_val(x@) < pow2((10 * words) as nat),
    ensures
        zs@.len() == words + 1,
        forall|i: int|
            0 <= i <= words ==> (#[trigger] zs@[i])@ == x@.subrange(10 * i, x@.len() as int),
        forall|i: int|
            0 <= i <= words ==> bits_val(#[trigger] zs@[i]@) == bits_val(x@) / pow2(
                (10 * i) as nat,
            ),
        running_sum_ok(zs@.map_values(|z: Vec<bool>| bits_val(z@))),
        force_zero_tail ==> bits_val(zs@[words as int]@) == 0,
{
    let zs = running_sums(x, words);
    proof {
        if force_zero_tail {
            lemma_residue_zero(bits_val(x@), (10 * words) as nat);
        }
    }
    zs
}

/// The short range check of the provider: whether a cell holds a value of
/// at most `width` bits, for widths up to one lookup word.
pub fn short_check(x: &Vec<bool>, width: usize) -> (r: bool)
    requires
        width <= 10,
    ensures
        r == (bits_val(x@) < pow2(width as nat)),
{
    let bound = crate::bits::fe_pow2(width);
    crate::bits::fe_lt(x, &bound)
}

/// Compute the running-sum witness of a bit string: entry `i` is the string
/// with its low `10 i` bits removed.
pub fn running_sums(x: &Vec<bool>, words: usize) -> (zs: Vec<Vec<bool>>)
    requires
        10 * words <= x@.len(),
    ensures
        zs@.len() == words + 1,
        forall|i: int|
            0 <= i <= words ==> (#[trigger] zs@[i])@ == x@.subrange(10 * i, x@.len() as int),
        forall|i: int|
            0 <= i <= words ==> bits_val(#[trigger] zs@[i]@) == bits_val(x@) / pow2(
                (10 * i) as nat,
            ),
        running_sum_ok(zs@.map_values(|z: Vec<bool>| bits_val(z@))),
{
    let mut zs: Vec<Vec<bool>> = Vec::new();
    let mut i: usize = 0;
    let n = x.len();
    while i <= words
        invariant
            i <= words + 1,
            10 * words <= x@.len(),
            n == x@.len(),
            zs@.len() == i,
            forall|j: int|
                0 <= j < i ==> (#[trigger] zs@[j])@ == x@.subrange(10 * j, x@.len() as int),
            forall|j: int|
                0 <= j < i ==> bits_val(#[trigger] zs@[j]@) == bits_val(x@) / pow2(
                    (10 * j) as nat,
                ),
        decreases words + 1 - i,
    {
        let z = fe_shr(x, 10 * i);
        zs.push(z);
        i = i + 1;
    }
    proof {
        let vals = zs@.map_values(|z: Vec<bool>| bits_val(z@));
        assert forall|j: int| 0 <= j && j + 1 < vals.len() implies strips_word(
            #[trigger] vals[j],
            vals[j + 1],
        ) by {
            lemma_div_pow2_step(bits_val(x@), (10 * j) as nat);
            assert(vals[j] == bits_val(x@) / pow2((10 * j) as nat));
            assert(vals[j + 1] == bits_val(x@) / pow2((10 * (j + 1)) as nat));
            assert((10 * j + 10) as nat == (10 * (j + 1)) as nat);
        }
    }
    zs
}

} // verus!
