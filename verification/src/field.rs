//! The two field-characteristic constants and the moduli built from them.
//!
//! The circuit works over a 255-bit prime field whose modulus sits just above
//! a power of two: `p = 2^254 + T_P`.  A second, related characteristic
//! `q = 2^254 + T_Q` governs one class of inputs.  Both offsets fit well
//! inside 128 bits, which is what makes the additive-shift canonicity trick
//! cheap: `2^130` and `2^140` both dominate `T_P`.

use crate::bits::{bits_val, fe_add, fe_from_u128, fe_lt, fe_pad, fe_pow2, fe_slice};
use vstd::arithmetic::power2::{lemma_pow2_strictly_increases, pow2};
use vstd::prelude::*;

verus! {

/// Offset of the base-field modulus above `2^254`: `p = 2^254 + T_P`.
pub const T_P: u128 = 45560315531419706090280762371685220353;

/// Offset of the companion-field modulus above `2^254`: `q = 2^254 + T_Q`.
pub const T_Q: u128 = 45560315531506369815346746415080538113;

/// The base-field modulus.
pub open spec fn p_modulus() -> nat {
    (pow2(254) + T_P) as nat
}

/// The companion-field modulus.
pub open spec fn q_modulus() -> nat {
    (pow2(254) + T_Q) as nat
}

/// `T_P` is far below the shift amounts the canonicity checks use.
pub proof fn lemma_t_p_small()
    ensures
        T_P < pow2(128),
        T_P < pow2(130),
        T_P < pow2(140),
        T_P < pow2(254),
{
    assert(pow2(128) == 0x100000000000000000000000000000000) by {
        vstd::arithmetic::power2::lemma2_to64();
        vstd::arithmetic::power2::lemma_pow2_adds(64, 64);
        assert(pow2(64) * pow2(64) == 0x100000000000000000000000000000000)
            by (nonlinear_arith)
            requires
                pow2(64) == 0x10000000000000000,
        ;
    }
    lemma_pow2_strictly_increases(128, 130);
    vstd::arithmetic::power2::lemma_pow2_pos(128);
    lemma_pow2_strictly_increases(128, 140);
    lemma_pow2_strictly_increases(128, 254);
}

/// The 128-bit string holding `T_P`.
pub fn fe_t_p() -> (r: Vec<bool>)
    ensures
        r@.len() == 128,
        bits_val(r@) == T_P,
{
    fe_from_u128(T_P)
}

/// The 255-bit string holding the base-field modulus.
pub fn fe_modulus() -> (r: Vec<bool>)
    ensures
        r@.len() == 255,
        bits_val(r@) == p_modulus(),
{
    let top = fe_pow2(254);
    let tp = fe_pad(&fe_from_u128(T_P), 255);
    let sum = fe_add(&top, &tp);
    let r = fe_slice(&sum, 0, 255);
    proof {
        lemma_t_p_small();
        crate::bits::lemma_val_take_mod(sum@, 255);
        assert(sum@.subrange(0, 255) =~= sum@.take(255));
        assert(pow2(255) == 2 * pow2(254)) by {
            vstd::arithmetic::power2::lemma_pow2_unfold(255);
        }
        vstd::arithmetic::div_mod::lemma_small_mod(p_modulus(), pow2(255));
    }
    r
}

/// Whether a bit string holds a canonical field element, one strictly below
/// the base-field modulus.
pub fn fe_is_canonical(x: &Vec<bool>) -> (r: bool)
    ensures
        r == (bits_val(x@) < p_modulus()),
{
    let m = fe_modulus();
    fe_lt(x, &m)
}

} // verus!
