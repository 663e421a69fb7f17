//! How floating-point numbers are rounded.
//!
//! Every finite number of a binary type is a whole multiple of the least positive
//! one. In those units an exact result is a fraction of integers, and a rounded
//! result is the number nearest to it, the one with the even last digit where two
//! are as near.

use vstd::arithmetic::power2::{lemma_pow2_adds, lemma_pow2_pos, lemma_pow2_unfold, pow2};
use vstd::prelude::*;

use crate::tensor::value::{is_nan, ElementType};

verus! {

/// The element types whose arithmetic is that of IEEE 754 on the processor.
pub open spec fn exact_type(e: ElementType) -> bool {
    e is F32 || e is F64
}

/// How many numbers there are from one power of two up to the next.
pub open spec fn binade(e: ElementType) -> nat {
    match e {
        ElementType::F64 => pow2(52),
        _ => pow2(23),
    }
}

/// The number of a key that is not negative, in units of the least positive
/// number of its type.
pub open spec fn magnitude(e: ElementType, key: int) -> int {
    let (exponent, digits) = (key / binade(e) as int, key % binade(e) as int);
    if exponent == 0 {
        key
    } else {
        (binade(e) + digits) * pow2((exponent - 1) as nat)
    }
}

/// The number of a key, in units of the least positive number of its type. An
/// infinity counts as the number that would follow the largest.
pub open spec fn units(e: ElementType, key: int) -> int {
    if key >= 0 {
        magnitude(e, key)
    } else {
        -magnitude(e, -key)
    }
}

/// How many units make one.
pub open spec fn scale(e: ElementType) -> int {
    match e {
        ElementType::F64 => pow2(1074) as int,
        _ => pow2(149) as int,
    }
}

/// Whether a key belongs to a number, infinities included.
pub open spec fn number(e: ElementType, key: int) -> bool {
    !is_nan(e, key)
}

/// Whether a key belongs to a finite number.
pub open spec fn finite(e: ElementType, key: int) -> bool {
    number(e, key - 1) && number(e, key + 1)
}

/// Whether `r` is the number nearest to `n / d` units: the midpoint between it and
/// a larger number is not below, and that between it and a smaller number not
/// above. On a midpoint the last digit is even.
pub open spec fn rounds_to(e: ElementType, n: int, d: int, r: int) -> bool {
    &&& number(e, r)
    &&& forall|q: int|
        #![trigger units(e, q)]
        number(e, q) && q > r ==> {
            &&& (units(e, r) + units(e, q)) * d >= 2 * n
            &&& (units(e, r) + units(e, q)) * d == 2 * n ==> r % 2 == 0
        }
    &&& forall|q: int|
        #![trigger units(e, q)]
        number(e, q) && q < r ==> {
            &&& (units(e, r) + units(e, q)) * d <= 2 * n
            &&& (units(e, r) + units(e, q)) * d == 2 * n ==> r % 2 == 0
        }
}

/// Whether `r` is the number nearest to the square root of `x` squared units.
pub open spec fn roots_to(e: ElementType, x: int, r: int) -> bool {
    &&& number(e, r)
    &&& r >= 0
    &&& forall|q: int|
        #![trigger units(e, q)]
        number(e, q) && q > r ==> {
            let m = units(e, r) + units(e, q);
            &&& m * m >= 4 * x
            &&& m * m == 4 * x ==> r % 2 == 0
        }
    &&& forall|q: int|
        #![trigger units(e, q)]
        number(e, q) && 0 <= q < r ==> {
            let m = units(e, r) + units(e, q);
            &&& m * m <= 4 * x
            &&& m * m == 4 * x ==> r % 2 == 0
        }
}

proof fn lemma_binade(e: ElementType)
    ensures
        binade(e) >= 2,
        scale(e) > 0,
{
    lemma_pow2_pos(22);
    lemma_pow2_unfold(23);
    lemma_pow2_pos(51);
    lemma_pow2_unfold(52);
    lemma_pow2_pos(149);
    lemma_pow2_pos(1074);
}

/// One divides into at least one unit.
pub proof fn lemma_scale(e: ElementType)
    ensures
        scale(e) > 0,
{
    lemma_binade(e);
}

proof fn lemma_next_magnitude(e: ElementType, key: int)
    requires
        key >= 0,
    ensures
        0 <= magnitude(e, key) < magnitude(e, key + 1),
{
    lemma_binade(e);
    let s = binade(e) as int;
    let (q, f) = (key / s, key % s);
    vstd::arithmetic::div_mod::lemma_fundamental_div_mod(key, s);
    assert(0 <= f < s);
    assert(q >= 0) by (nonlinear_arith)
        requires
            key == s * q + f,
            0 <= f < s,
            key >= 0,
    ;
    if q >= 1 {
        lemma_pow2_pos((q - 1) as nat);
    }
    if f + 1 < s {
        vstd::arithmetic::div_mod::lemma_fundamental_div_mod_converse(key + 1, s, q, f + 1);
        if q >= 1 {
            let p = pow2((q - 1) as nat) as int;
            assert((s + (f + 1)) * p > (s + f) * p && (s + f) * p >= 0) by (nonlinear_arith)
                requires
                    p > 0,
                    s > 0,
                    f >= 0,
            ;
        }
    } else {
        assert(key + 1 == (q + 1) * s + 0) by (nonlinear_arith)
            requires
                key == s * q + f,
                f + 1 == s,
        ;
        vstd::arithmetic::div_mod::lemma_fundamental_div_mod_converse(key + 1, s, q + 1, 0);
        lemma_pow2_pos(q as nat);
        if q >= 1 {
            lemma_pow2_unfold(q as nat);
            let p = pow2((q - 1) as nat) as int;
            assert((s + 0) * (2 * p) > (s + f) * p && (s + f) * p >= 0) by (nonlinear_arith)
                requires
                    p > 0,
                    f + 1 == s,
                    s > 0,
                    f >= 0,
            ;
        } else {
            assert(q == 0);
            vstd::arithmetic::power2::lemma2_to64();
            assert(pow2(0) == 1);
            assert((s + 0) * 1 == s);
            assert(magnitude(e, key + 1) == (s + 0) * pow2(0));
        }
    }
}

proof fn lemma_magnitude_grows(e: ElementType, a: int, b: int)
    requires
        0 <= a < b,
    ensures
        0 <= magnitude(e, a) < magnitude(e, b),
    decreases b,
{
    lemma_next_magnitude(e, b - 1);
    if a < b - 1 {
        lemma_magnitude_grows(e, a, b - 1);
    }
}

proof fn lemma_no_units(e: ElementType)
    ensures
        units(e, 0) == 0,
{
    lemma_binade(e);
    vstd::arithmetic::div_mod::lemma_basic_div(0, binade(e) as int);
}

/// A larger key belongs to a larger number.
pub proof fn lemma_units_grow(e: ElementType, a: int, b: int)
    requires
        a < b,
    ensures
        units(e, a) < units(e, b),
{
    lemma_no_units(e);
    if a >= 0 {
        lemma_magnitude_grows(e, a, b);
    } else if b <= 0 {
        lemma_magnitude_grows(e, -b, -a);
    } else {
        lemma_magnitude_grows(e, 0, b);
        lemma_magnitude_grows(e, 0, -a);
    }
}

/// What keys say of the numbers that they belong to.
pub proof fn lemma_units(e: ElementType, a: int, b: int)
    ensures
        units(e, 0) == 0,
        units(e, -a) == -units(e, a),
        a < b <==> units(e, a) < units(e, b),
        a == b <==> units(e, a) == units(e, b),
        a > 0 <==> units(e, a) > 0,
        a < 0 <==> units(e, a) < 0,
{
    lemma_no_units(e);
    if a < b {
        lemma_units_grow(e, a, b);
    } else if b < a {
        lemma_units_grow(e, b, a);
    }
    if a > 0 {
        lemma_units_grow(e, 0, a);
    } else if a < 0 {
        lemma_units_grow(e, a, 0);
    }
}

proof fn lemma_between(e: ElementType, a: int, q: int, b: int)
    requires
        number(e, a),
        number(e, b),
        a <= q <= b,
    ensures
        number(e, q),
{
}

/// A larger exact result is not rounded to a smaller number.
pub proof fn lemma_rounding_grows(
    e: ElementType,
    n1: int,
    d1: int,
    r1: int,
    n2: int,
    d2: int,
    r2: int,
)
    requires
        d1 > 0,
        d2 > 0,
        n1 * d2 <= n2 * d1,
        rounds_to(e, n1, d1, r1),
        rounds_to(e, n2, d2, r2),
    ensures
        r1 <= r2,
{
    if r1 > r2 {
        let (u1, u2) = (units(e, r1), units(e, r2));
        let m = u1 + u2;
        assert(m * d1 <= 2 * n1);
        assert((u2 + u1) * d2 >= 2 * n2);
        assert(m * d1 == 2 * n1 && m * d2 == 2 * n2) by (nonlinear_arith)
            requires
                d1 > 0,
                d2 > 0,
                n1 * d2 <= n2 * d1,
                m * d1 <= 2 * n1,
                m * d2 >= 2 * n2,
        ;
        assert(r1 % 2 == 0 && r2 % 2 == 0);
        let q = r2 + 1;
        lemma_between(e, r2, q, r1);
        lemma_units_grow(e, r2, q);
        let uq = units(e, q);
        assert((u1 + uq) * d1 <= 2 * n1);
        assert((u1 + uq) * d1 > m * d1) by (nonlinear_arith)
            requires
                d1 > 0,
                u1 + uq > m,
        ;
    }
}

/// What one exact result is rounded to.
pub proof fn lemma_rounding_is_unique(e: ElementType, n: int, d: int, r1: int, r2: int)
    requires
        d > 0,
        rounds_to(e, n, d, r1),
        rounds_to(e, n, d, r2),
    ensures
        r1 == r2,
{
    lemma_rounding_grows(e, n, d, r1, n, d, r2);
    lemma_rounding_grows(e, n, d, r2, n, d, r1);
}

/// A number needs no rounding.
pub proof fn lemma_numbers_stay(e: ElementType, k: int, d: int)
    requires
        number(e, k),
        d > 0,
    ensures
        rounds_to(e, units(e, k) * d, d, k),
{
    let u = units(e, k);
    assert forall|q: int|
        #![trigger units(e, q)]
        number(e, q) && q > k implies {
        &&& (u + units(e, q)) * d >= 2 * (u * d)
        &&& (u + units(e, q)) * d == 2 * (u * d) ==> k % 2 == 0
    } by {
        lemma_units_grow(e, k, q);
        let v = units(e, q);
        assert((u + v) * d > 2 * (u * d)) by (nonlinear_arith)
            requires
                d > 0,
                v > u,
        ;
    }
    assert forall|q: int|
        #![trigger units(e, q)]
        number(e, q) && q < k implies {
        &&& (u + units(e, q)) * d <= 2 * (u * d)
        &&& (u + units(e, q)) * d == 2 * (u * d) ==> k % 2 == 0
    } by {
        lemma_units_grow(e, q, k);
        let v = units(e, q);
        assert((u + v) * d < 2 * (u * d)) by (nonlinear_arith)
            requires
                d > 0,
                v < u,
        ;
    }
}

/// An exact result that is a number is rounded to that number.
pub proof fn lemma_exact(e: ElementType, k: int, d: int, r: int)
    requires
        number(e, k),
        d > 0,
        rounds_to(e, units(e, k) * d, d, r),
    ensures
        r == k,
{
    lemma_numbers_stay(e, k, d);
    lemma_rounding_is_unique(e, units(e, k) * d, d, k, r);
}

/// Rounding keeps to the side of a number on which the exact result lies.
pub proof fn lemma_keeps_its_side(e: ElementType, n: int, d: int, r: int, k: int)
    requires
        d > 0,
        rounds_to(e, n, d, r),
        number(e, k),
    ensures
        n >= units(e, k) * d ==> r >= k,
        n <= units(e, k) * d ==> r <= k,
{
    lemma_numbers_stay(e, k, d);
    let w = units(e, k) * d;
    if n >= w {
        assert(w * d <= n * d) by (nonlinear_arith)
            requires
                w <= n,
                d > 0,
        ;
        lemma_rounding_grows(e, w, d, k, n, d, r);
    }
    if n <= w {
        assert(n * d <= w * d) by (nonlinear_arith)
            requires
                n <= w,
                d > 0,
        ;
        lemma_rounding_grows(e, n, d, r, w, d, k);
    }
}

/// Rounding keeps the sign.
pub proof fn lemma_rounding_keeps_sign(e: ElementType, n: int, d: int, r: int)
    requires
        exact_type(e),
        d > 0,
        rounds_to(e, n, d, r),
    ensures
        n >= 0 ==> r >= 0,
        n <= 0 ==> r <= 0,
{
    lemma_no_units(e);
    assert(units(e, 0) * d == 0) by (nonlinear_arith)
        requires
            units(e, 0) == 0,
    ;
    lemma_keeps_its_side(e, n, d, r, 0);
}

/// The square root of a larger number is not rounded to a smaller one.
pub proof fn lemma_roots_grow(e: ElementType, x1: int, r1: int, x2: int, r2: int)
    requires
        x1 <= x2,
        roots_to(e, x1, r1),
        roots_to(e, x2, r2),
    ensures
        r1 <= r2,
{
    if r1 > r2 {
        let (u1, u2) = (units(e, r1), units(e, r2));
        let m = u1 + u2;
        lemma_units(e, r2, r1);
        assert(m * m <= 4 * x1);
        assert((u2 + u1) * (u2 + u1) >= 4 * x2);
        assert(m * m == 4 * x1 && m * m == 4 * x2);
        assert(r1 % 2 == 0 && r2 % 2 == 0);
        let q = r2 + 1;
        lemma_between(e, r2, q, r1);
        lemma_units_grow(e, r2, q);
        let w = u1 + units(e, q);
        assert(w * w <= 4 * x1);
        assert(w * w > m * m) by (nonlinear_arith)
            requires
                w > m,
                m >= 0,
        ;
    }
}

/// The square of what a square root is rounded to is the number itself, up to the
/// neighbours of the root: that of the smaller one is not above it, that of the
/// larger one not below.
pub proof fn lemma_root_squared(e: ElementType, x: int, r: int)
    requires
        exact_type(e),
        roots_to(e, x, r),
    ensures
        r > 0 ==> units(e, r - 1) * units(e, r - 1) <= x,
        number(e, r + 1) ==> x <= units(e, r + 1) * units(e, r + 1),
{
    let u = units(e, r);
    if r > 0 {
        lemma_units(e, r - 1, r);
        let v = units(e, r - 1);
        lemma_between(e, 0, r - 1, r);
        let m = u + v;
        assert(m * m <= 4 * x);
        lemma_no_units(e);
        if r - 1 > 0 {
            lemma_units_grow(e, 0, r - 1);
        }
        assert(4 * (v * v) <= m * m) by (nonlinear_arith)
            requires
                m == u + v,
                0 <= v < u,
        ;
    }
    if number(e, r + 1) {
        lemma_units_grow(e, r, r + 1);
        let v = units(e, r + 1);
        let m = u + v;
        assert(m * m >= 4 * x);
        lemma_no_units(e);
        if r > 0 {
            lemma_units_grow(e, 0, r);
        }
        assert(4 * (v * v) >= m * m) by (nonlinear_arith)
            requires
                m == u + v,
                0 <= u < v,
        ;
    }
}

/// The key of one.
pub open spec fn one(e: ElementType) -> int {
    match e {
        ElementType::F64 => 0x3ff0_0000_0000_0000,
        _ => 0x3f80_0000,
    }
}

/// One is as many units as the type divides it into.
pub proof fn lemma_one(e: ElementType)
    ensures
        units(e, one(e)) == scale(e),
{
    vstd::arithmetic::power2::lemma2_to64();
    lemma_pow2_adds(32, 20);
    assert(pow2(52) == 0x10_0000_0000_0000);
    assert(pow2(23) == 0x80_0000);
    lemma_pow2_adds(23, 126);
    lemma_pow2_adds(52, 1022);
    match e {
        ElementType::F64 => {
            assert(0x3ff0_0000_0000_0000int / 0x10_0000_0000_0000 == 1023);
            assert(0x3ff0_0000_0000_0000int % 0x10_0000_0000_0000 == 0);
            assert(pow2(52) + 0 == pow2(52));
        },
        _ => {
            assert(0x3f80_0000int / 0x80_0000 == 127);
            assert(0x3f80_0000int % 0x80_0000 == 0);
        },
    }
}

/// The number of a key that is written as an exponent and digits.
pub proof fn lemma_written(e: ElementType, exponent: int, digits: int)
    requires
        exponent >= 1,
        0 <= digits < binade(e),
    ensures
        units(e, exponent * binade(e) + digits) == (binade(e) + digits) * pow2(
            (exponent - 1) as nat,
        ),
        exponent * binade(e) + digits > 0,
{
    lemma_binade(e);
    let s = binade(e) as int;
    let key = exponent * s + digits;
    assert(exponent * s >= s) by (nonlinear_arith)
        requires
            exponent >= 1,
            s > 0,
    ;
    assert(key == s * exponent + digits) by (nonlinear_arith)
        requires
            key == exponent * s + digits,
    ;
    vstd::arithmetic::div_mod::lemma_fundamental_div_mod_converse(key, s, exponent, digits);
}

/// The key of a power of two.
pub open spec fn power(e: ElementType, exponent: int) -> int {
    match e {
        ElementType::F64 => (exponent + 1023) * 0x10_0000_0000_0000,
        _ => (exponent + 127) * 0x80_0000,
    }
}

/// How many numbers lie from a power of two up to the next.
pub proof fn lemma_binades()
    ensures
        pow2(23) == 0x80_0000,
        pow2(52) == 0x10_0000_0000_0000,
        pow2(29) == 0x2000_0000,
{
    vstd::arithmetic::power2::lemma2_to64();
    lemma_pow2_adds(32, 20);
}

/// A power of two in units.
pub proof fn lemma_power(e: ElementType, exponent: int)
    requires
        -126 <= exponent < 128,
    ensures
        e is F64 ==> units(e, power(e, exponent)) == pow2((exponent + 1074) as nat),
        !(e is F64) ==> units(e, power(e, exponent)) == pow2((exponent + 149) as nat),
        finite(e, power(e, exponent)),
        power(e, exponent) > 0,
{
    lemma_binades();
    match e {
        ElementType::F64 => {
            lemma_written(e, exponent + 1023, 0);
            lemma_pow2_adds(52, (exponent + 1022) as nat);
        },
        _ => {
            lemma_written(e, exponent + 127, 0);
            lemma_pow2_adds(23, (exponent + 126) as nat);
        },
    }
}

proof fn lemma_leading_power(k: int, p: nat) -> (r: nat)
    requires
        pow2(p) <= k < 0x20_0000_0000_0000,
        p <= 52,
    ensures
        pow2(r) <= k < 2 * pow2(r),
        r <= 52,
    decreases 53 - p,
{
    lemma_pow2_unfold(p + 1);
    if k < 2 * pow2(p) {
        p
    } else {
        lemma_binades();
        assert(p < 52);
        lemma_leading_power(k, p + 1)
    }
}

/// A natural number times a power of two is a double-precision number.
proof fn lemma_natural_times(k: int, z: nat) -> (w: int)
    requires
        0 < k < 0x20_0000_0000_0000,
        52 <= z <= 1074,
    ensures
        w > 0,
        units(ElementType::F64, w) == k * pow2(z),
        number(ElementType::F64, w + 1),
{
    lemma_binades();
    vstd::arithmetic::power2::lemma2_to64();
    let p = lemma_leading_power(k, 0);
    let c = pow2((52 - p) as nat) as int;
    let digits = k * c - pow2(52);
    lemma_pow2_pos((52 - p) as nat);
    lemma_pow2_adds(p, (52 - p) as nat);
    let b = pow2(p) as int;
    assert(b * c <= k * c < 2 * (b * c)) by (nonlinear_arith)
        requires
            b <= k < 2 * b,
            c > 0,
    ;
    lemma_written(ElementType::F64, z - 51 + p as int, digits);
    lemma_pow2_adds((52 - p) as nat, (z - 52 + p) as nat);
    let d = pow2((z - 52 + p) as nat) as int;
    assert((k * c) * d == k * (c * d)) by (nonlinear_arith);
    (z - 51 + p as int) * pow2(52) + digits
}

/// Every single-precision number is a double-precision one.
pub proof fn lemma_widened(k: int) -> (w: int)
    requires
        k > 0,
        finite(ElementType::F32, k),
    ensures
        w > 0,
        finite(ElementType::F64, w),
        units(ElementType::F64, w) * scale(ElementType::F32) == units(ElementType::F32, k) * scale(
            ElementType::F64,
        ),
{
    lemma_binades();
    let s = 0x80_0000int;
    let (q, f) = (k / s, k % s);
    vstd::arithmetic::div_mod::lemma_fundamental_div_mod(k, s);
    lemma_pow2_adds(925, 149);
    let (t, z) = (pow2(925) as int, pow2(149) as int);
    let u = units(ElementType::F32, k);
    assert((u * t) * z == u * (t * z)) by (nonlinear_arith);
    if q == 0 {
        lemma_natural_times(k, 925)
    } else {
        assert(1 <= q < 255);
        assert(u == (s + f) * pow2((q - 1) as nat));
        let digits = f * 0x2000_0000;
        lemma_written(ElementType::F64, q + 896, digits);
        lemma_pow2_adds(29, (q + 895) as nat);
        lemma_pow2_adds((q - 1) as nat, 925);
        let (a, b) = (pow2((q + 895) as nat) as int, pow2((q - 1) as nat) as int);
        assert((0x10_0000_0000_0000 + digits) * a == (s + f) * (0x2000_0000 * a))
            by (nonlinear_arith)
            requires
                digits == f * 0x2000_0000,
                s == 0x80_0000,
        ;
        assert((s + f) * (b * t) == ((s + f) * b) * t) by (nonlinear_arith);
        (q + 896) * pow2(52) + digits
    }
}

/// A natural number that can be counted in double precision is a double-precision
/// number.
pub proof fn lemma_natural(n: int) -> (w: int)
    requires
        0 < n < 0x20_0000_0000_0000,
    ensures
        w > 0,
        finite(ElementType::F64, w),
        units(ElementType::F64, w) == n * scale(ElementType::F64),
{
    lemma_natural_times(n, 1074)
}

/// A fraction is rounded as its reduced form.
pub proof fn lemma_reduced(e: ElementType, n: int, d: int, c: int, r: int)
    requires
        c > 0,
        rounds_to(e, n * c, d * c, r),
    ensures
        rounds_to(e, n, d, r),
{
    assert forall|q: int|
        #![trigger units(e, q)]
        number(e, q) && q != r implies {
        let m = units(e, r) + units(e, q);
        &&& q > r ==> m * d >= 2 * n
        &&& q < r ==> m * d <= 2 * n
        &&& m * d == 2 * n ==> r % 2 == 0
    } by {
        let m = units(e, r) + units(e, q);
        assert(m * (d * c) == (m * d) * c && 2 * (n * c) == (2 * n) * c) by (nonlinear_arith);
        let (a, b) = (m * d, 2 * n);
        assert((a * c >= b * c ==> a >= b) && (a * c <= b * c ==> a <= b)) by (nonlinear_arith)
            requires
                c > 0,
        ;
    }
}

} // verus!
