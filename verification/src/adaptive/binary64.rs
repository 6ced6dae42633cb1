//! Floating-point parameter values are held as the bit patterns of IEEE-754
//! binary64 numbers. This module compares such patterns exactly as the
//! hardware compares the numbers they encode, and truncates them to integers
//! exactly as a saturating `as i64` cast does.

use vstd::prelude::*;
use vstd::arithmetic::power2::{pow2, lemma_pow2_adds, lemma_pow2_strictly_increases, lemma_pow2_pos, lemma2_to64, lemma2_to64_rest};
use vstd::arithmetic::div_mod::lemma_div_is_ordered_by_denominator;
use vstd::arithmetic::mul::lemma_mul_strict_inequality;
use vstd::bits::{lemma_u64_shl_is_mul, lemma_u64_shr_is_div};

verus! {

/// Sign bit of an encoded number (1 for negative).
pub open spec fn sign_bit(b: u64) -> nat {
    b as nat / 0x8000_0000_0000_0000
}

/// Biased exponent field.
pub open spec fn biased_exponent(b: u64) -> nat {
    (b as nat / 0x10_0000_0000_0000) % 2048
}

/// Fraction (mantissa without its implicit leading bit).
pub open spec fn fraction(b: u64) -> nat {
    b as nat % 0x10_0000_0000_0000
}

/// Everything but the sign bit; it orders non-negative numbers.
pub open spec fn magnitude(b: u64) -> nat {
    b as nat % 0x8000_0000_0000_0000
}

/// Whether the pattern encodes a NaN.
pub open spec fn is_nan(b: u64) -> bool {
    biased_exponent(b) == 2047 && fraction(b) != 0
}

/// Whether the pattern encodes positive or negative zero.
pub open spec fn is_zero(b: u64) -> bool {
    magnitude(b) == 0
}

/// IEEE-754 `a < b` on encoded numbers: false when either is NaN, and the
/// two zeros are equal.
pub open spec fn spec_lt(a: u64, b: u64) -> bool {
    &&& !is_nan(a)
    &&& !is_nan(b)
    &&& !(is_zero(a) && is_zero(b))
    &&& if sign_bit(a) == 0 && sign_bit(b) == 0 {
        magnitude(a) < magnitude(b)
    } else if sign_bit(a) == 1 && sign_bit(b) == 1 {
        magnitude(a) > magnitude(b)
    } else {
        sign_bit(a) == 1
    }
}

/// IEEE-754 `a == b` on encoded numbers.
pub open spec fn spec_eq(a: u64, b: u64) -> bool {
    !is_nan(a) && !is_nan(b) && (a == b || (is_zero(a) && is_zero(b)))
}

/// IEEE-754 `a <= b` on encoded numbers.
pub open spec fn spec_le(a: u64, b: u64) -> bool {
    spec_lt(a, b) || spec_eq(a, b)
}

/// Integer part of the absolute value of a finite number whose unbiased
/// exponent `k` is below 63.
pub open spec fn truncated_magnitude(b: u64) -> int {
    let m = fraction(b) + pow2(52);
    let k = biased_exponent(b) - 1023;
    if k >= 52 {
        (m * pow2((k - 52) as nat)) as int
    } else {
        (m / pow2((52 - k) as nat)) as int
    }
}

/// The result of casting the encoded number to `i64` with `as`: truncation
/// toward zero, saturating at the bounds of `i64`, and 0 for NaN.
pub open spec fn spec_to_i64(b: u64) -> i64 {
    if is_nan(b) || biased_exponent(b) < 1023 {
        0
    } else if biased_exponent(b) >= 1023 + 63 {
        if sign_bit(b) == 0 { i64::MAX } else { i64::MIN }
    } else if sign_bit(b) == 0 {
        truncated_magnitude(b) as i64
    } else {
        (-truncated_magnitude(b)) as i64
    }
}

fn fields(b: u64) -> (r: (u64, u64, u64))
    ensures
        r.0 == sign_bit(b),
        r.1 == biased_exponent(b),
        r.2 == fraction(b),
        r.0 <= 1,
        r.1 < 2048,
        r.2 < 0x10_0000_0000_0000,
{
    (b / 0x8000_0000_0000_0000, (b / 0x10_0000_0000_0000) % 2048, b % 0x10_0000_0000_0000)
}

/// Whether `a` encodes NaN.
pub fn nan(a: u64) -> (r: bool)
    ensures
        r == is_nan(a),
{
    let (_, e, f) = fields(a);
    e == 2047 && f != 0
}

/// IEEE-754 `a < b`.
pub fn lt(a: u64, b: u64) -> (r: bool)
    ensures
        r == spec_lt(a, b),
{
    if nan(a) || nan(b) {
        return false;
    }
    let ma = a % 0x8000_0000_0000_0000;
    let mb = b % 0x8000_0000_0000_0000;
    if ma == 0 && mb == 0 {
        return false;
    }
    let sa = a / 0x8000_0000_0000_0000;
    let sb = b / 0x8000_0000_0000_0000;
    if sa == 0 && sb == 0 {
        ma < mb
    } else if sa == 1 && sb == 1 {
        ma > mb
    } else {
        sa == 1
    }
}

/// IEEE-754 `a == b`.
pub fn equal(a: u64, b: u64) -> (r: bool)
    ensures
        r == spec_eq(a, b),
{
    if nan(a) || nan(b) {
        return false;
    }
    a == b || (a % 0x8000_0000_0000_0000 == 0 && b % 0x8000_0000_0000_0000 == 0)
}

/// IEEE-754 `a <= b`.
pub fn le(a: u64, b: u64) -> (r: bool)
    ensures
        r == spec_le(a, b),
{
    if lt(a, b) {
        return true;
    }
    if nan(a) || nan(b) {
        return false;
    }
    a == b || (a % 0x8000_0000_0000_0000 == 0 && b % 0x8000_0000_0000_0000 == 0)
}

proof fn lemma_magnitude_bound(b: u64)
    requires
        !is_nan(b),
        1023 <= biased_exponent(b) < 1023 + 63,
    ensures
        0 <= truncated_magnitude(b) < pow2(63),
{
    let m = fraction(b) + pow2(52);
    let k = (biased_exponent(b) - 1023) as nat;
    lemma2_to64();
    lemma2_to64_rest();
    assert(fraction(b) < 0x10_0000_0000_0000);
    assert(m < pow2(53));
    if k >= 52 {
        let s = (k - 52) as nat;
        lemma_pow2_pos(s);
        lemma_mul_strict_inequality(m as int, pow2(53) as int, pow2(s) as int);
        lemma_pow2_adds(53, s);
        if 53 + s < 63 {
            lemma_pow2_strictly_increases(53 + s, 63);
        }
        assert(m * pow2(s) == pow2(s) * m) by (nonlinear_arith);
        assert(pow2(53) * pow2(s) == pow2(s) * pow2(53)) by (nonlinear_arith);
    } else {
        let s = (52 - k) as nat;
        lemma_pow2_pos(s);
        lemma_div_is_ordered_by_denominator(m as int, 1, pow2(s) as int);
        lemma_pow2_strictly_increases(53, 63);
    }
}

/// `b` cast to `i64` the way Rust casts a float: truncation toward zero,
/// saturation at the bounds, 0 for NaN.
pub fn to_i64(b: u64) -> (r: i64)
    ensures
        r == spec_to_i64(b),
{
    let (s, e, f) = fields(b);
    if (e == 2047 && f != 0) || e < 1023 {
        return 0;
    }
    if e >= 1023 + 63 {
        return if s == 0 { i64::MAX } else { i64::MIN };
    }
    proof {
        lemma_magnitude_bound(b);
        lemma2_to64();
        lemma2_to64_rest();
    }
    let m: u64 = f + 0x10_0000_0000_0000;
    let k: u64 = e - 1023;
    let mag: u64 = if k >= 52 {
        proof {
            lemma_pow2_pos((k - 52) as nat);
            assert(m * pow2((k - 52) as nat) < pow2(63));
            lemma_u64_shl_is_mul(m, (k - 52) as u64);
        }
        m << (k - 52)
    } else {
        proof {
            lemma_u64_shr_is_div(m, (52 - k) as u64);
        }
        m >> (52 - k)
    };
    assert(mag == truncated_magnitude(b));
    assert(mag < 0x8000_0000_0000_0000);
    let v: i64 = mag as i64;
    if s == 0 {
        v
    } else {
        -v
    }
}

} // verus!
