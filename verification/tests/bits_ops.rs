//! Unit checks of the bit-string arithmetic the gadget is built on.

use note_commit::bits::{
    fe_add, fe_add_any, fe_concat, fe_eq_val, fe_from_u128, fe_from_u64, fe_is_zero, fe_lt,
    fe_one, fe_pad, fe_pow2, fe_shl, fe_shr, fe_slice, fe_sub, fe_zeros,
};
use note_commit::running_sum::running_sums;

#[test]
fn from_u128_round_trip_via_add() {
    let a = fe_from_u128(0xdead_beef_cafe);
    let b = fe_from_u128(0x1111_2222_3333);
    let s = fe_add(&a, &b);
    assert!(fe_eq_val(&s, &fe_from_u128(0xdead_beef_cafe + 0x1111_2222_3333)));
}

#[test]
fn sub_undoes_add() {
    let a = fe_from_u128(123_456_789_000);
    let b = fe_from_u128(987_654_321);
    let s = fe_add(&a, &b);
    let d = fe_sub(&s, &fe_pad(&b, s.len()));
    assert!(fe_eq_val(&d, &a));
}

#[test]
fn add_carries_across_the_top() {
    let a = fe_from_u128(u128::MAX);
    let s = fe_add(&a, &a);
    assert_eq!(s.len(), 129);
    assert!(s[128]);
    let expected = fe_concat(&fe_from_u128(u128::MAX - 1), &fe_one());
    assert!(fe_eq_val(&s, &expected));
}

#[test]
fn slice_and_concat_round_trip() {
    let x = fe_from_u64(0xfedc_ba98_7654_3210);
    let lo = fe_slice(&x, 0, 20);
    let hi = fe_slice(&x, 20, 64);
    let back = fe_concat(&lo, &hi);
    assert_eq!(back, x);
}

#[test]
fn shl_scales_and_shr_strips() {
    let x = fe_from_u128(0b1011);
    let shifted = fe_shl(&x, 7);
    assert!(fe_eq_val(&shifted, &fe_from_u128(0b1011 << 7)));
    let back = fe_shr(&shifted, 7);
    assert!(fe_eq_val(&back, &x));
}

#[test]
fn lt_orders_values_not_lengths() {
    let small_long = fe_pad(&fe_from_u128(41), 300);
    let big_short = fe_from_u128(42);
    assert!(fe_lt(&small_long, &big_short));
    assert!(!fe_lt(&big_short, &small_long));
    assert!(!fe_lt(&big_short, &big_short));
}

#[test]
fn zeros_and_pow2_values() {
    assert!(fe_is_zero(&fe_zeros(200)));
    let p = fe_pow2(130);
    assert_eq!(p.len(), 131);
    assert!(p[130]);
    assert!(!p[0]);
    assert!(fe_eq_val(&fe_pow2(64), &fe_add_any(&fe_from_u128(1u128 << 63), &fe_from_u128(1u128 << 63))));
}

#[test]
fn running_sums_strip_ten_bits_per_word() {
    // 0x3ffff has 18 bits: one word leaves 0xff, two leave 0.
    let x = fe_pad(&fe_from_u128(0x3ffff), 30);
    let zs = running_sums(&x, 3);
    assert_eq!(zs.len(), 4);
    assert!(fe_eq_val(&zs[0], &x));
    assert!(fe_eq_val(&zs[1], &fe_from_u128(0xff)));
    assert!(fe_is_zero(&zs[2]));
    assert!(fe_is_zero(&zs[3]));
}
