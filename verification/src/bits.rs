//! Little-endian bit strings and the arithmetic facts about their values.
//!
//! Every field element, message piece and running-sum entry in this crate is
//! carried as a `Vec<bool>` holding its bits least-significant first.  The
//! numeric meaning of such a string is given by [`bits_val`], and the exec
//! operations here are each proved against that meaning.

use vstd::arithmetic::div_mod::{
    lemma_fundamental_div_mod_converse_div, lemma_fundamental_div_mod_converse_mod,
};
use vstd::arithmetic::power2::{lemma_pow2_adds, lemma_pow2_pos, lemma_pow2_unfold, pow2};
use vstd::prelude::*;

verus! {

/// The numeric value of a little-endian bit string.
pub open spec fn bits_val(s: Seq<bool>) -> nat
    decreases s.len(),
{
    if s.len() == 0 {
        0
    } else {
        (if s[0] {
            1nat
        } else {
            0nat
        }) + 2 * bits_val(s.skip(1))
    }
}

/// The numeric value of one bit.
pub open spec fn bit_val(b: bool) -> nat {
    if b {
        1
    } else {
        0
    }
}

/// A bit string's value is bounded by two to its length.
pub proof fn lemma_val_bound(s: Seq<bool>)
    ensures
        bits_val(s) < pow2(s.len()),
    decreases s.len(),
{
    if s.len() == 0 {
        assert(pow2(0) == 1) by {
            vstd::arithmetic::power2::lemma2_to64();
        }
    } else {
        lemma_val_bound(s.skip(1));
        lemma_pow2_unfold(s.len());
    }
}

/// Splitting a bit string at position `k` splits its value: the low part
/// contributes directly and the high part is scaled by `pow2(k)`.
pub proof fn lemma_val_split(s: Seq<bool>, k: int)
    requires
        0 <= k <= s.len(),
    ensures
        bits_val(s) == bits_val(s.take(k)) + pow2(k as nat) * bits_val(s.skip(k)),
    decreases k,
{
    if k == 0 {
        assert(s.take(0) =~= Seq::<bool>::empty());
        assert(s.skip(0) =~= s);
        assert(pow2(0) == 1) by {
            vstd::arithmetic::power2::lemma2_to64();
        }
    } else {
        lemma_val_split(s.skip(1), k - 1);
        assert(s.take(k).skip(1) =~= s.skip(1).take(k - 1));
        assert(s.skip(1).skip(k - 1) =~= s.skip(k));
        lemma_pow2_unfold(k as nat);
        let h = bits_val(s.skip(k));
        let pk1 = pow2((k - 1) as nat);
        assert(2 * (bits_val(s.skip(1).take(k - 1)) + pk1 * h) == 2 * bits_val(
            s.skip(1).take(k - 1),
        ) + (2 * pk1) * h) by (nonlinear_arith);
    }
}

/// Two bit strings of one length with one value are the same string.
pub proof fn lemma_val_inj(s: Seq<bool>, t: Seq<bool>)
    requires
        s.len() == t.len(),
        bits_val(s) == bits_val(t),
    ensures
        s =~= t,
    decreases s.len(),
{
    if s.len() != 0 {
        assert(bit_val(s[0]) + 2 * bits_val(s.skip(1)) == bit_val(t[0]) + 2 * bits_val(t.skip(1)));
        assert(s[0] == t[0]);
        lemma_val_inj(s.skip(1), t.skip(1));
        assert(forall|i: int|
            0 < i < s.len() ==> s[i] == s.skip(1)[i - 1] && t[i] == t.skip(1)[i - 1]);
    }
}

/// Appending one bit on the most-significant end adds its scaled value.
pub proof fn lemma_val_push(s: Seq<bool>, b: bool)
    ensures
        bits_val(s.push(b)) == bits_val(s) + pow2(s.len()) * bit_val(b),
    decreases s.len(),
{
    if s.len() == 0 {
        assert(s.push(b).skip(1) =~= Seq::<bool>::empty());
        assert(s.push(b)[0] == b);
        assert(bits_val(s.push(b)) == bit_val(b) + 2 * bits_val(s.push(b).skip(1)));
        assert(pow2(0) == 1) by {
            vstd::arithmetic::power2::lemma2_to64();
        }
    } else {
        assert(s.push(b).skip(1) =~= s.skip(1).push(b));
        assert(s.push(b)[0] == s[0]);
        lemma_val_push(s.skip(1), b);
        lemma_pow2_unfold(s.len());
        let pk1 = pow2((s.len() - 1) as nat);
        assert(2 * (bits_val(s.skip(1)) + pk1 * bit_val(b)) == 2 * bits_val(s.skip(1)) + (2 * pk1)
            * bit_val(b)) by (nonlinear_arith);
        assert(bits_val(s.push(b)) == bit_val(s[0]) + 2 * bits_val(s.skip(1).push(b)));
    }
}

/// A bit string's value is zero exactly when every bit is clear.
pub proof fn lemma_val_zero(s: Seq<bool>)
    ensures
        bits_val(s) == 0 <==> (forall|i: int| 0 <= i < s.len() ==> !s[i]),
    decreases s.len(),
{
    if s.len() != 0 {
        lemma_val_zero(s.skip(1));
        if bits_val(s) == 0 {
            assert(forall|i: int| 0 < i < s.len() ==> s[i] == s.skip(1)[i - 1]);
        } else {
            if forall|i: int| 0 <= i < s.len() ==> !s[i] {
                assert(forall|i: int| 0 <= i < s.skip(1).len() ==> s.skip(1)[i] == s[i + 1]);
                assert(bits_val(s.skip(1)) == 0);
                assert(false);
            }
        }
    }
}

/// Dropping the low `k` bits divides the value by `pow2(k)`.
pub proof fn lemma_val_skip_div(s: Seq<bool>, k: int)
    requires
        0 <= k <= s.len(),
    ensures
        bits_val(s.skip(k)) == bits_val(s) / pow2(k as nat),
{
    lemma_val_split(s, k);
    lemma_val_bound(s.take(k));
    lemma_pow2_pos(k as nat);
    vstd::arithmetic::mul::lemma_mul_is_commutative(
        pow2(k as nat) as int,
        bits_val(s.skip(k)) as int,
    );
    lemma_fundamental_div_mod_converse_div(
        bits_val(s) as int,
        pow2(k as nat) as int,
        bits_val(s.skip(k)) as int,
        bits_val(s.take(k)) as int,
    );
}

/// Keeping the low `k` bits takes the value modulo `pow2(k)`.
pub proof fn lemma_val_take_mod(s: Seq<bool>, k: int)
    requires
        0 <= k <= s.len(),
    ensures
        bits_val(s.take(k)) == bits_val(s) % pow2(k as nat),
{
    lemma_val_split(s, k);
    lemma_val_bound(s.take(k));
    lemma_pow2_pos(k as nat);
    vstd::arithmetic::mul::lemma_mul_is_commutative(
        pow2(k as nat) as int,
        bits_val(s.skip(k)) as int,
    );
    lemma_fundamental_div_mod_converse_mod(
        bits_val(s) as int,
        pow2(k as nat) as int,
        bits_val(s.skip(k)) as int,
        bits_val(s.take(k)) as int,
    );
}

/// The value of a concatenation: the right-hand part is scaled by two to the
/// length of the left-hand part.
pub proof fn lemma_val_concat(a: Seq<bool>, b: Seq<bool>)
    ensures
        bits_val(a + b) == bits_val(a) + pow2(a.len()) * bits_val(b),
{
    lemma_val_split(a + b, a.len() as int);
    assert((a + b).take(a.len() as int) =~= a);
    assert((a + b).skip(a.len() as int) =~= b);
}

/// Copy the bit range `lo..hi` out of a string.
pub fn fe_slice(x: &Vec<bool>, lo: usize, hi: usize) -> (r: Vec<bool>)
    requires
        lo <= hi <= x@.len(),
    ensures
        r@ == x@.subrange(lo as int, hi as int),
{
    let mut r: Vec<bool> = Vec::new();
    let mut i: usize = lo;
    while i < hi
        invariant
            lo <= i <= hi <= x@.len(),
            r@ =~= x@.subrange(lo as int, i as int),
        decreases hi - i,
    {
        r.push(x[i]);
        i = i + 1;
    }
    r
}

/// Copy a bit string.
pub fn fe_copy(x: &Vec<bool>) -> (r: Vec<bool>)
    ensures
        r@ == x@,
{
    let r = fe_slice(x, 0, x.len());
    proof {
        assert(x@.subrange(0, x@.len() as int) =~= x@);
    }
    r
}

/// Concatenate two bit strings, low part first.
pub fn fe_concat(a: &Vec<bool>, b: &Vec<bool>) -> (r: Vec<bool>)
    ensures
        r@ == a@ + b@,
        bits_val(r@) == bits_val(a@) + pow2(a@.len()) * bits_val(b@),
{
    let mut r: Vec<bool> = Vec::new();
    let mut i: usize = 0;
    while i < a.len()
        invariant
            i <= a@.len(),
            r@ =~= a@.take(i as int),
        decreases a@.len() - i,
    {
        r.push(a[i]);
        i = i + 1;
    }
    let mut j: usize = 0;
    while j < b.len()
        invariant
            j <= b@.len(),
            r@ =~= a@ + b@.take(j as int),
        decreases b@.len() - j,
    {
        r.push(b[j]);
        j = j + 1;
    }
    assert(r@ =~= a@ + b@);
    proof {
        lemma_val_concat(a@, b@);
    }
    r
}

/// An all-zero string of the given length.
pub fn fe_zeros(n: usize) -> (r: Vec<bool>)
    ensures
        r@.len() == n,
        forall|i: int| 0 <= i < n ==> !r@[i],
        bits_val(r@) == 0,
{
    let mut r: Vec<bool> = Vec::new();
    let mut i: usize = 0;
    while i < n
        invariant
            i <= n,
            r@.len() == i,
            forall|j: int| 0 <= j < i ==> !r@[j],
        decreases n - i,
    {
        r.push(false);
        i = i + 1;
    }
    proof {
        lemma_val_zero(r@);
    }
    r
}

/// The string of length `n + 1` whose value is `pow2(n)`.
pub fn fe_pow2(n: usize) -> (r: Vec<bool>)
    ensures
        r@.len() == n + 1,
        bits_val(r@) == pow2(n as nat),
{
    let mut r = fe_zeros(n);
    proof {
        lemma_val_push(r@, true);
    }
    r.push(true);
    r
}

/// Extend a string with high zero bits; the value is unchanged.
pub fn fe_pad(x: &Vec<bool>, n: usize) -> (r: Vec<bool>)
    requires
        x@.len() <= n,
    ensures
        r@.len() == n,
        r@.take(x@.len() as int) == x@,
        forall|i: int| x@.len() <= i < n ==> !r@[i],
        bits_val(r@) == bits_val(x@),
{
    let mut r: Vec<bool> = Vec::new();
    let mut i: usize = 0;
    while i < x.len()
        invariant
            i <= x@.len(),
            r@ =~= x@.take(i as int),
        decreases x@.len() - i,
    {
        r.push(x[i]);
        i = i + 1;
    }
    assert(r@ =~= x@);
    while i < n
        invariant
            x@.len() <= i <= n,
            r@.len() == i,
            r@.take(x@.len() as int) =~= x@,
            forall|j: int| x@.len() <= j < i ==> !r@[j],
            bits_val(r@) == bits_val(x@),
        decreases n - i,
    {
        proof {
            lemma_val_push(r@, false);
        }
        r.push(false);
        i = i + 1;
    }
    r
}

/// The low 128-bit string of a machine integer.
pub fn fe_from_u128(x: u128) -> (r: Vec<bool>)
    ensures
        r@.len() == 128,
        bits_val(r@) == x,
{
    let mut r: Vec<bool> = Vec::new();
    let mut cur: u128 = x;
    let mut i: usize = 0;
    proof {
        vstd::arithmetic::power2::lemma2_to64();
    }
    while i < 128
        invariant
            i <= 128,
            r@.len() == i,
            bits_val(r@) + pow2(i as nat) * (cur as nat) == x,
        decreases 128 - i,
    {
        let b: bool = cur % 2 == 1;
        proof {
            lemma_val_push(r@, b);
            lemma_pow2_unfold((i + 1) as nat);
            let p = pow2(i as nat);
            assert(cur == 2 * (cur / 2) + bit_val(b)) by (nonlinear_arith)
                requires
                    b == (cur % 2 == 1),
            ;
            assert(p * (cur as nat) == p * bit_val(b) + (2 * p) * ((cur / 2) as nat))
                by (nonlinear_arith)
                requires
                    cur == 2 * (cur / 2) + bit_val(b),
            ;
        }
        r.push(b);
        cur = cur / 2;
        i = i + 1;
    }
    proof {
        assert(pow2(128) > x) by {
            vstd::arithmetic::power2::lemma2_to64();
            lemma_pow2_adds(64, 64);
            assert(pow2(64) * pow2(64) > u128::MAX) by (nonlinear_arith)
                requires
                    pow2(64) == 0x10000000000000000,
            ;
        }
        if cur > 0 {
            assert(pow2(i as nat) * (cur as nat) >= pow2(128)) by (nonlinear_arith)
                requires
                    cur >= 1,
                    pow2(i as nat) == pow2(128),
            ;
        }
    }
    r
}

/// The 64-bit string of a machine integer.
pub fn fe_from_u64(x: u64) -> (r: Vec<bool>)
    ensures
        r@.len() == 64,
        bits_val(r@) == x,
{
    let wide = fe_from_u128(x as u128);
    let r = fe_slice(&wide, 0, 64);
    proof {
        lemma_val_take_mod(wide@, 64);
        assert(wide@.subrange(0, 64) =~= wide@.take(64));
        assert(pow2(64) == 0x10000000000000000) by {
            vstd::arithmetic::power2::lemma2_to64();
        }
        vstd::arithmetic::div_mod::lemma_small_mod(x as nat, pow2(64));
    }
    r
}

/// Add two bit strings of one length; the result is one bit longer.
pub fn fe_add(a: &Vec<bool>, b: &Vec<bool>) -> (r: Vec<bool>)
    requires
        a@.len() == b@.len(),
    ensures
        r@.len() == a@.len() + 1,
        bits_val(r@) == bits_val(a@) + bits_val(b@),
{
    let n = a.len();
    let mut r: Vec<bool> = Vec::new();
    let mut carry: bool = false;
    let mut i: usize = 0;
    while i < n
        invariant
            i <= n,
            n == a@.len() == b@.len(),
            r@.len() == i,
            bits_val(r@) + pow2(i as nat) * bit_val(carry) == bits_val(a@.take(i as int))
                + bits_val(b@.take(i as int)),
        decreases n - i,
    {
        let s: u8 = (if a[i] {
            1u8
        } else {
            0u8
        }) + (if b[i] {
            1u8
        } else {
            0u8
        }) + (if carry {
            1u8
        } else {
            0u8
        });
        let bit: bool = s == 1 || s == 3;
        let carry2: bool = s >= 2;
        proof {
            lemma_val_push(r@, bit);
            lemma_pow2_unfold((i + 1) as nat);
            assert(a@.take(i + 1) =~= a@.take(i as int).push(a@[i as int]));
            assert(b@.take(i + 1) =~= b@.take(i as int).push(b@[i as int]));
            lemma_val_push(a@.take(i as int), a@[i as int]);
            lemma_val_push(b@.take(i as int), b@[i as int]);
            let p = pow2(i as nat);
            assert(p * bit_val(carry) + p * (bit_val(a@[i as int]) + bit_val(b@[i as int])) == p
                * bit_val(bit) + (2 * p) * bit_val(carry2)) by (nonlinear_arith)
                requires
                    bit_val(carry) + bit_val(a@[i as int]) + bit_val(b@[i as int]) == bit_val(bit)
                        + 2 * bit_val(carry2),
            ;
        }
        r.push(bit);
        carry = carry2;
        i = i + 1;
    }
    proof {
        assert(a@.take(n as int) =~= a@);
        assert(b@.take(n as int) =~= b@);
        lemma_val_push(r@, carry);
    }
    r.push(carry);
    r
}

/// Subtract `b` from `a`, both of one length; requires that no borrow remains.
pub fn fe_sub(a: &Vec<bool>, b: &Vec<bool>) -> (r: Vec<bool>)
    requires
        a@.len() == b@.len(),
        bits_val(b@) <= bits_val(a@),
    ensures
        r@.len() == a@.len(),
        bits_val(r@) == bits_val(a@) - bits_val(b@),
{
    let n = a.len();
    let mut r: Vec<bool> = Vec::new();
    let mut borrow: bool = false;
    let mut i: usize = 0;
    while i < n
        invariant
            i <= n,
            n == a@.len() == b@.len(),
            r@.len() == i,
            bits_val(r@) == bits_val(a@.take(i as int)) + pow2(i as nat) * bit_val(borrow)
                - bits_val(b@.take(i as int)),
        decreases n - i,
    {
        let t: u8 = 2 + (if a[i] {
            1u8
        } else {
            0u8
        }) - (if b[i] {
            1u8
        } else {
            0u8
        }) - (if borrow {
            1u8
        } else {
            0u8
        });
        let bit: bool = t == 1 || t == 3;
        let borrow2: bool = t < 2;
        proof {
            lemma_val_push(r@, bit);
            lemma_pow2_unfold((i + 1) as nat);
            assert(a@.take(i + 1) =~= a@.take(i as int).push(a@[i as int]));
            assert(b@.take(i + 1) =~= b@.take(i as int).push(b@[i as int]));
            lemma_val_push(a@.take(i as int), a@[i as int]);
            lemma_val_push(b@.take(i as int), b@[i as int]);
            let p = pow2(i as nat);
            assert(p * bit_val(borrow) + p * bit_val(bit) + p * bit_val(b@[i as int]) == p
                * bit_val(a@[i as int]) + (2 * p) * bit_val(borrow2)) by (nonlinear_arith)
                requires
                    bit_val(bit) + bit_val(b@[i as int]) + bit_val(borrow) == bit_val(
                        a@[i as int],
                    ) + 2 * bit_val(borrow2),
            ;
        }
        r.push(bit);
        borrow = borrow2;
        i = i + 1;
    }
    proof {
        assert(a@.take(n as int) =~= a@);
        assert(b@.take(n as int) =~= b@);
        if borrow {
            lemma_val_bound(r@);
        }
    }
    r
}

/// Drop the low `k` bits; the value is divided by `pow2(k)`.
pub fn fe_shr(x: &Vec<bool>, k: usize) -> (r: Vec<bool>)
    requires
        k <= x@.len(),
    ensures
        r@ == x@.subrange(k as int, x@.len() as int),
        bits_val(r@) == bits_val(x@) / pow2(k as nat),
{
    let r = fe_slice(x, k, x.len());
    proof {
        assert(x@.subrange(k as int, x@.len() as int) =~= x@.skip(k as int));
        lemma_val_skip_div(x@, k as int);
    }
    r
}

/// Scale by `pow2(k)` by prepending `k` zero bits.
pub fn fe_shl(x: &Vec<bool>, k: usize) -> (r: Vec<bool>)
    ensures
        r@.len() == x@.len() + k,
        bits_val(r@) == pow2(k as nat) * bits_val(x@),
{
    let z = fe_zeros(k);
    let r = fe_concat(&z, x);
    r
}

/// Add two bit strings of any lengths.
pub fn fe_add_any(a: &Vec<bool>, b: &Vec<bool>) -> (r: Vec<bool>)
    ensures
        r@.len() == (if a@.len() < b@.len() {
            b@.len()
        } else {
            a@.len()
        }) + 1,
        bits_val(r@) == bits_val(a@) + bits_val(b@),
{
    let n = if a.len() < b.len() {
        b.len()
    } else {
        a.len()
    };
    let ap = fe_pad(a, n);
    let bp = fe_pad(b, n);
    fe_add(&ap, &bp)
}

/// The one-bit string holding 1.
pub fn fe_one() -> (r: Vec<bool>)
    ensures
        r@.len() == 1,
        bits_val(r@) == 1,
{
    let mut r: Vec<bool> = Vec::new();
    proof {
        lemma_val_push(r@, true);
        vstd::arithmetic::power2::lemma2_to64();
    }
    r.push(true);
    r
}

/// Whether the string's value is zero.
pub fn fe_is_zero(x: &Vec<bool>) -> (r: bool)
    ensures
        r == (bits_val(x@) == 0),
{
    let mut i: usize = 0;
    proof {
        lemma_val_zero(x@);
    }
    while i < x.len()
        invariant
            i <= x@.len(),
            forall|j: int| 0 <= j < i ==> !x@[j],
            bits_val(x@) == 0 <==> (forall|j: int| 0 <= j < x@.len() ==> !x@[j]),
        decreases x@.len() - i,
    {
        if x[i] {
            return false;
        }
        i = i + 1;
    }
    true
}

/// Whether two strings denote one value, whatever their lengths.
pub fn fe_eq_val(a: &Vec<bool>, b: &Vec<bool>) -> (r: bool)
    ensures
        r == (bits_val(a@) == bits_val(b@)),
{
    let n = if a.len() < b.len() {
        b.len()
    } else {
        a.len()
    };
    let ap = fe_pad(a, n);
    let bp = fe_pad(b, n);
    let mut i: usize = 0;
    while i < n
        invariant
            i <= n,
            ap@.len() == n,
            bp@.len() == n,
            bits_val(ap@) == bits_val(a@),
            bits_val(bp@) == bits_val(b@),
            forall|j: int| 0 <= j < i ==> ap@[j] == bp@[j],
        decreases n - i,
    {
        if ap[i] != bp[i] {
            proof {
                if bits_val(ap@) == bits_val(bp@) {
                    lemma_val_inj(ap@, bp@);
                }
            }
            return false;
        }
        i = i + 1;
    }
    proof {
        assert(ap@ =~= bp@);
    }
    true
}

/// Strict comparison of the values of two bit strings.
pub fn fe_lt(a: &Vec<bool>, b: &Vec<bool>) -> (r: bool)
    ensures
        r == (bits_val(a@) < bits_val(b@)),
{
    let n = if a.len() < b.len() {
        b.len()
    } else {
        a.len()
    };
    let ap = fe_pad(a, n);
    let bp = fe_pad(b, n);
    let mut i: usize = n;
    while i > 0
        invariant
            i <= n,
            ap@.len() == n,
            bp@.len() == n,
            bits_val(ap@) == bits_val(a@),
            bits_val(bp@) == bits_val(b@),
            forall|j: int| i <= j < n ==> ap@[j] == bp@[j],
        decreases i,
    {
        i = i - 1;
        if ap[i] != bp[i] {
            proof {
                if bp@[i as int] {
                    lemma_val_high_bit_compare(ap@, bp@, i as int);
                } else {
                    lemma_val_high_bit_compare(bp@, ap@, i as int);
                }
            }
            return bp[i];
        }
    }
    proof {
        assert(ap@ =~= bp@);
    }
    false
}

/// If two strings of one length agree above position `i` and differ there,
/// the one holding the set bit has the larger value.
pub proof fn lemma_val_high_bit_compare(s: Seq<bool>, t: Seq<bool>, i: int)
    requires
        s.len() == t.len(),
        0 <= i < s.len(),
        forall|j: int| i < j < s.len() ==> s[j] == t[j],
        !s[i],
        t[i],
    ensures
        bits_val(s) < bits_val(t),
{
    lemma_val_split(s, i + 1);
    lemma_val_split(t, i + 1);
    assert(s.skip(i + 1) =~= t.skip(i + 1));
    assert(s.take(i + 1) =~= s.take(i).push(s[i]));
    assert(t.take(i + 1) =~= t.take(i).push(t[i]));
    lemma_val_push(s.take(i), s[i]);
    lemma_val_push(t.take(i), t[i]);
    lemma_val_bound(s.take(i));
    let p = pow2(i as nat);
    assert(p * bit_val(s[i]) == 0) by (nonlinear_arith)
        requires
            bit_val(s[i]) == 0,
    ;
    assert(p * bit_val(t[i]) == p) by (nonlinear_arith)
        requires
            bit_val(t[i]) == 1,
    ;
    assert(bits_val(s.take(i + 1)) < pow2(i as nat) <= bits_val(t.take(i + 1)));
}

} // verus!
