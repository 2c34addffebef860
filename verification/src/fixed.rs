//! Saturating fixed-point arithmetic with sixteen fractional bits.

use vstd::prelude::*;

verus! {

/// A real number `v`, held as `v * 65536` rounded down.
pub type Fixed = i64;

/// The fixed-point representation of `1`.
pub const ONE: i64 = 65536;

/// The fixed-point representation of one half.
pub const HALF: i64 = 32768;

/// One quarter.
pub const QUARTER: Fixed = 16384;

/// One eighth.
pub const EIGHTH: Fixed = 8192;

/// One sixteenth.
pub const SIXTEENTH: Fixed = 4096;

/// The whole numbers that the formulas of the crate use.
pub const TWO: Fixed = 2 * 65536;

pub const THREE: Fixed = 3 * 65536;

pub const FOUR: Fixed = 4 * 65536;

pub const FIVE: Fixed = 5 * 65536;

pub const SEVEN: Fixed = 7 * 65536;

pub const EIGHT: Fixed = 8 * 65536;

pub const SIXTEEN: Fixed = 16 * 65536;

pub const HUNDRED: Fixed = 100 * 65536;

pub const MINUS_TWO: Fixed = -2 * 65536;

pub const MINUS_THREE: Fixed = -3 * 65536;

/// `v` clamped into the range of an `i64`.
pub open spec fn sat(v: int) -> Fixed {
    if v < i64::MIN {
        i64::MIN
    } else if v > i64::MAX {
        i64::MAX
    } else {
        v as i64
    }
}

/// The saturating sum.
pub open spec fn sum(a: Fixed, b: Fixed) -> Fixed {
    sat(a + b)
}

/// The saturating difference.
pub open spec fn diff(a: Fixed, b: Fixed) -> Fixed {
    sat(a - b)
}

/// The saturating fixed-point product, rounded down.
pub open spec fn prod(a: Fixed, b: Fixed) -> Fixed {
    sat((a * b) / (ONE as int))
}

/// The quotient of two integers rounded down, for any non-zero divisor.
pub open spec fn floor_quot(n: int, d: int) -> int {
    if d > 0 {
        n / d
    } else {
        (-n) / (-d)
    }
}

/// The saturating fixed-point quotient, rounded down. A zero divisor gives the
/// largest value of the dividend's sign, and zero for a zero dividend.
pub open spec fn quot(a: Fixed, b: Fixed) -> Fixed {
    if b == 0 {
        if a > 0 {
            i64::MAX
        } else if a < 0 {
            i64::MIN
        } else {
            0
        }
    } else {
        sat(floor_quot(a * (ONE as int), b as int))
    }
}

/// `r` is the integer nearest to the square root of `n` (halves round up).
pub open spec fn is_nearest_root(n: int, r: int) -> bool {
    r >= 0 && (2 * r - 1) * (2 * r - 1) <= 4 * n && 4 * n < (2 * r + 1) * (2 * r + 1)
}

/// The integer nearest to the square root of `n`; zero for a negative `n`.
pub open spec fn nearest_root(n: int) -> int {
    if n <= 0 {
        0
    } else {
        choose|r: int| is_nearest_root(n, r)
    }
}

/// The fixed-point square root, rounded to the nearest representable value;
/// zero for a negative number.
pub open spec fn root(a: Fixed) -> Fixed {
    nearest_root(a * (ONE as int)) as i64
}

/// The whole part: the largest multiple of [`ONE`] that is at most `a`.
pub open spec fn whole(a: Fixed) -> Fixed {
    ((a as int / (ONE as int)) * (ONE as int)) as i64
}

/// The nearest whole number, halves rounded up.
pub open spec fn rounded(a: Fixed) -> Fixed {
    whole(sum(a, HALF))
}

/// The least whole number that is not below `a`.
pub open spec fn ceiling(a: Fixed) -> Fixed {
    negated(whole(negated(a)))
}

/// The fractional part, in `0 .. ONE`.
pub open spec fn frac(a: Fixed) -> Fixed {
    (a as int % (ONE as int)) as i64
}

/// The index that a coordinate falls on: its whole part as a count, zero for
/// a negative coordinate, the largest index for one beyond it.
pub open spec fn index_of(a: Fixed) -> usize {
    if a < 0 {
        0
    } else if a as int / (ONE as int) > usize::MAX {
        usize::MAX
    } else {
        (a as int / (ONE as int)) as usize
    }
}

/// The fixed-point representation of the integer `n`, saturating.
pub open spec fn of_int(n: i64) -> Fixed {
    sat(n * (ONE as int))
}

/// The fixed-point representation of the count `n`, saturating.
pub open spec fn of_index(n: usize) -> Fixed {
    sat(n * (ONE as int))
}

/// The saturating negation.
pub open spec fn negated(a: Fixed) -> Fixed {
    sat(-a)
}

/// The saturating absolute value.
pub open spec fn magnitude_of(a: Fixed) -> Fixed {
    if a < 0 {
        sat(-a)
    } else {
        a
    }
}

/// The smaller of two numbers.
pub open spec fn lesser(a: Fixed, b: Fixed) -> Fixed {
    if a < b {
        a
    } else {
        b
    }
}

/// The larger of two numbers.
pub open spec fn greater(a: Fixed, b: Fixed) -> Fixed {
    if a > b {
        a
    } else {
        b
    }
}

pub(crate) fn saturate(v: i128) -> (r: i64)
    ensures
        r == sat(v as int),
{
    if v < i64::MIN as i128 {
        i64::MIN
    } else if v > i64::MAX as i128 {
        i64::MAX
    } else {
        v as i64
    }
}

/// Division rounded down, on wide integers.
pub(crate) fn floor_div(n: i128, d: i128) -> (q: i128)
    requires
        d != 0,
        n > i128::MIN,
        d > i128::MIN,
    ensures
        q == floor_quot(n as int, d as int),
{
    let (nn, dd): (i128, i128) = if d > 0 { (n, d) } else { (-n, -d) };
    let q: i128 = nn / dd;
    let m: i128 = nn % dd;
    proof {
        lemma_floor_from_truncated(nn as int, dd as int);
    }
    if m < 0 {
        q - 1
    } else {
        q
    }
}

/// Truncated division and remainder give the floor: one less where the
/// remainder is not zero and the dividend is negative.
proof fn lemma_floor_from_truncated(n: int, d: int)
    requires
        d > 0,
    ensures
        n < 0 && (-n) % d != 0 ==> n / d == -((-n) / d) - 1,
        n < 0 && (-n) % d == 0 ==> n / d == -((-n) / d),
        0 <= (-n) % d < d,
{
    vstd::arithmetic::div_mod::lemma_mod_bound(-n, d);
    if n < 0 {
        let q = (-n) / d;
        let m = (-n) % d;
        vstd::arithmetic::div_mod::lemma_fundamental_div_mod(-n, d);
        assert(-n == d * q + m);
        if m != 0 {
            assert(n == d * (-q - 1) + (d - m)) by (nonlinear_arith)
                requires
                    -n == d * q + m,
            ;
            vstd::arithmetic::div_mod::lemma_fundamental_div_mod_converse(n, d, -q - 1, d - m);
        } else {
            assert(n == d * (-q) + 0) by (nonlinear_arith)
                requires
                    -n == d * q + m,
                    m == 0,
            ;
            vstd::arithmetic::div_mod::lemma_fundamental_div_mod_converse(n, d, -q, 0);
        }
    }
}

/// The product of two numbers of magnitude at most `m` has magnitude at most
/// `m * m`.
pub proof fn lemma_product_bound(a: int, b: int, m: int)
    requires
        -m <= a <= m,
        -m <= b <= m,
    ensures
        -(m * m) <= a * b <= m * m,
{
    assert((m - a) * (m - b) >= 0) by (nonlinear_arith)
        requires
            m - a >= 0,
            m - b >= 0,
    ;
    assert((m + a) * (m + b) >= 0) by (nonlinear_arith)
        requires
            m + a >= 0,
            m + b >= 0,
    ;
    assert((m - a) * (m + b) >= 0) by (nonlinear_arith)
        requires
            m - a >= 0,
            m + b >= 0,
    ;
    assert((m + a) * (m - b) >= 0) by (nonlinear_arith)
        requires
            m + a >= 0,
            m - b >= 0,
    ;
    assert(-(m * m) <= a * b <= m * m) by (nonlinear_arith)
        requires
            (m - a) * (m - b) >= 0,
            (m + a) * (m + b) >= 0,
            (m - a) * (m + b) >= 0,
            (m + a) * (m - b) >= 0,
    ;
}

/// Adds two numbers, saturating at the ends of the range.
pub fn fx_add(a: Fixed, b: Fixed) -> (r: Fixed)
    ensures
        r == sum(a, b),
{
    saturate(a as i128 + b as i128)
}

/// Subtracts `b` from `a`, saturating at the ends of the range.
pub fn fx_sub(a: Fixed, b: Fixed) -> (r: Fixed)
    ensures
        r == diff(a, b),
{
    saturate(a as i128 - b as i128)
}

/// Multiplies two numbers, rounding down and saturating.
pub fn fx_mul(a: Fixed, b: Fixed) -> (r: Fixed)
    ensures
        r == prod(a, b),
{
    proof {
        lemma_product_bound(a as int, b as int, 0x8000_0000_0000_0000);
        assert(0x8000_0000_0000_0000int * 0x8000_0000_0000_0000int
            == 0x4000_0000_0000_0000_0000_0000_0000_0000int) by (nonlinear_arith);
    }
    let p: i128 = (a as i128) * (b as i128);
    saturate(floor_div(p, ONE as i128))
}

/// Divides `a` by `b`, rounding down and saturating; a zero divisor gives the
/// end of the range on the dividend's side.
pub fn fx_div(a: Fixed, b: Fixed) -> (r: Fixed)
    ensures
        r == quot(a, b),
{
    if b == 0 {
        if a > 0 {
            i64::MAX
        } else if a < 0 {
            i64::MIN
        } else {
            0
        }
    } else {
        let n: i128 = (a as i128) * 65536;
        saturate(floor_div(n, b as i128))
    }
}

/// Two integers nearest to the same square root are equal.
pub proof fn lemma_nearest_root_unique(n: int, r1: int, r2: int)
    requires
        n > 0,
        is_nearest_root(n, r1),
        is_nearest_root(n, r2),
    ensures
        r1 == r2,
{
    if r1 < r2 {
        assert((2 * r1 + 1) * (2 * r1 + 1) <= (2 * r2 - 1) * (2 * r2 - 1)) by (nonlinear_arith)
            requires
                0 <= 2 * r1 + 1 <= 2 * r2 - 1,
        ;
    } else if r2 < r1 {
        assert((2 * r2 + 1) * (2 * r2 + 1) <= (2 * r1 - 1) * (2 * r1 - 1)) by (nonlinear_arith)
            requires
                0 <= 2 * r2 + 1 <= 2 * r1 - 1,
        ;
    }
}

/// Every positive integer has a nearest root.
pub proof fn lemma_nearest_root_exists(n: int) -> (r: int)
    requires
        n > 0,
    ensures
        is_nearest_root(n, r),
        r == nearest_root(n),
    decreases n,
{
    let r = if n == 1 {
        assert(is_nearest_root(1, 1)) by (nonlinear_arith);
        1
    } else {
        let before = lemma_nearest_root_exists(n - 1);
        if 4 * n < (2 * before + 1) * (2 * before + 1) {
            before
        } else {
            let after = before + 1;
            assert((2 * after - 1) * (2 * after - 1) == (2 * before + 1) * (2 * before + 1)
                && (2 * before + 1) * (2 * before + 1) + 4 <= (2 * after + 1) * (2 * after + 1))
                by (nonlinear_arith)
                requires
                    before >= 0,
                    after == before + 1,
            ;
            after
        }
    };
    assert(is_nearest_root(n, r));
    lemma_nearest_root_unique(n, r, nearest_root(n));
    r
}

/// The largest value that [`root`] takes.
pub const ROOT_MAX: Fixed = 0x100_0000_0000;

/// A square root is not negative and not above [`ROOT_MAX`], and that of a
/// number of at least [`ONE`] is at least [`ONE`].
pub proof fn lemma_root_bounds(a: Fixed)
    ensures
        0 <= root(a) <= ROOT_MAX,
        a >= ONE ==> root(a) >= ONE,
        a <= 0 ==> root(a) == 0,
{
    if a > 0 {
        let n = a * (ONE as int);
        let r = lemma_nearest_root_exists(n);
        if r > ROOT_MAX {
            assert((2 * r - 1) * (2 * r - 1) > 4 * n) by (nonlinear_arith)
                requires
                    r > 0x100_0000_0000,
                    n <= 0x7fff_ffff_ffff_ffff * 65536,
            ;
        }
        if a >= ONE && r < ONE {
            assert((2 * r + 1) * (2 * r + 1) <= 4 * n) by (nonlinear_arith)
                requires
                    0 <= r < 65536,
                    n >= 65536 * 65536,
            ;
        }
    }
}

/// The largest `s` whose square is at most `m`.
fn floor_root(m: u128) -> (s: u128)
    requires
        m < 0x4_0000_0000_0000_0000_0000,
    ensures
        s * s <= m < (s + 1) * (s + 1),
        s < 0x200_0000_0000,
{
    let mut lo: u128 = 0;
    let mut hi: u128 = 0x200_0000_0000;
    assert(0x200_0000_0000int * 0x200_0000_0000int == 0x4_0000_0000_0000_0000_0000int)
        by (nonlinear_arith);
    while hi - lo > 1
        invariant
            lo < hi <= 0x200_0000_0000,
            lo * lo <= m < hi * hi,
        decreases hi - lo,
    {
        let mid: u128 = lo + (hi - lo) / 2;
        proof {
            lemma_product_bound(mid as int, mid as int, 0x200_0000_0000);
            assert(0x200_0000_0000int * 0x200_0000_0000int
                == 0x4_0000_0000_0000_0000_0000int) by (nonlinear_arith);
        }
        if mid * mid <= m {
            lo = mid;
        } else {
            hi = mid;
        }
    }
    lo
}

/// The square root, rounded to the nearest representable value; zero for a
/// negative number.
pub fn fx_sqrt(a: Fixed) -> (r: Fixed)
    ensures
        r == root(a),
        0 <= r <= ROOT_MAX,
{
    if a <= 0 {
        return 0;
    }
    let n: u128 = (a as u128) * 65536;
    let s: u128 = floor_root(4 * n);
    let r: u128 = (s + 1) / 2;
    proof {
        let ni = n as int;
        let si = s as int;
        let ri = r as int;
        assert(si * si <= 4 * ni < (si + 1) * (si + 1));
        if si % 2 == 1 {
            assert(si == 2 * ri - 1);
            assert((si + 1) * (si + 1) <= (2 * ri + 1) * (2 * ri + 1)) by (nonlinear_arith)
                requires
                    si == 2 * ri - 1,
                    ri >= 0,
            ;
        } else {
            assert(si == 2 * ri);
            assert(si != 0) by (nonlinear_arith)
                requires
                    4 * ni < (si + 1) * (si + 1),
                    ni > 0,
            ;
            assert((2 * ri - 1) * (2 * ri - 1) <= si * si) by (nonlinear_arith)
                requires
                    si == 2 * ri,
                    ri >= 1,
            ;
        }
        assert(is_nearest_root(ni, ri));
        let c = choose|c: int| is_nearest_root(ni, c);
        lemma_nearest_root_unique(ni, ri, c);
    }
    r as i64
}

/// The whole part of a number: rounded down to a multiple of [`ONE`].
pub fn fx_floor(a: Fixed) -> (r: Fixed)
    ensures
        r == whole(a),
        r <= a < r + ONE,
{
    let q: i128 = floor_div(a as i128, 65536);
    proof {
        vstd::arithmetic::div_mod::lemma_fundamental_div_mod(a as int, 65536);
        vstd::arithmetic::div_mod::lemma_mod_bound(a as int, 65536);
    }
    (q * 65536) as i64
}

/// The nearest whole number, halves rounded up.
pub fn fx_round(a: Fixed) -> (r: Fixed)
    ensures
        r == rounded(a),
{
    fx_floor(fx_add(a, HALF))
}

/// The least whole number that is not below `a`.
pub fn fx_ceil(a: Fixed) -> (r: Fixed)
    ensures
        r == ceiling(a),
{
    fx_neg(fx_floor(fx_neg(a)))
}

/// The fractional part of a number, in `0 .. ONE`.
pub fn fx_fract(a: Fixed) -> (r: Fixed)
    ensures
        r == frac(a),
        0 <= r < ONE,
{
    let q: i128 = floor_div(a as i128, 65536);
    proof {
        vstd::arithmetic::div_mod::lemma_fundamental_div_mod(a as int, 65536);
        vstd::arithmetic::div_mod::lemma_mod_bound(a as int, 65536);
    }
    (a as i128 - q * 65536) as i64
}

/// The index that a coordinate falls on.
pub fn fx_index(a: Fixed) -> (r: usize)
    ensures
        r == index_of(a),
{
    if a < 0 {
        0
    } else {
        let q: i64 = a / 65536;
        if q as u64 > usize::MAX as u64 {
            usize::MAX
        } else {
            q as usize
        }
    }
}

/// The number that stands for the integer `n`.
pub fn fx_from_int(n: i64) -> (r: Fixed)
    ensures
        r == of_int(n),
{
    saturate(n as i128 * 65536)
}

/// The number that stands for the count `n`.
pub fn fx_from_index(n: usize) -> (r: Fixed)
    ensures
        r == of_index(n),
{
    saturate(n as i128 * 65536)
}

/// The negation of a number, saturating.
pub fn fx_neg(a: Fixed) -> (r: Fixed)
    ensures
        r == negated(a),
{
    saturate(-(a as i128))
}

/// The absolute value of a number, saturating.
pub fn fx_abs(a: Fixed) -> (r: Fixed)
    ensures
        r == magnitude_of(a),
        r >= 0,
{
    if a < 0 {
        saturate(-(a as i128))
    } else {
        a
    }
}

/// The smaller of two numbers.
pub fn fx_min(a: Fixed, b: Fixed) -> (r: Fixed)
    ensures
        r == lesser(a, b),
{
    if a < b {
        a
    } else {
        b
    }
}

/// The larger of two numbers.
pub fn fx_max(a: Fixed, b: Fixed) -> (r: Fixed)
    ensures
        r == greater(a, b),
{
    if a > b {
        a
    } else {
        b
    }
}

/// `input` kept between `min` and `max`.
pub open spec fn clamped(input: Fixed, min: Fixed, max: Fixed) -> Fixed {
    if input < min {
        min
    } else if input > max {
        max
    } else {
        input
    }
}

/// Keeps `input` between `min` and `max`, by `num::clamp`. Trusted: that
/// function returns `min` for an input below it, `max` for one above it and
/// the input otherwise, and may panic where `min` is above `max`.
#[verifier::external_body]
pub(crate) fn fx_clamp(input: Fixed, min: Fixed, max: Fixed) -> (r: Fixed)
    requires
        min <= max,
    ensures
        r == clamped(input, min, max),
{
    num::clamp(input, min, max)
}

} // verus!
