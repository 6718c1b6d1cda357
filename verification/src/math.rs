//! Integer numeric kernels used by the physical formulas: floor square root,
//! and fixed-point natural logarithm and exponential at scale 10^9.

use vstd::prelude::*;

verus! {

/// The floor of the square root of `n`, as a spec-level recurrence.
pub open spec fn sqrt_floor(n: int) -> int
    decreases n,
{
    if n < 1 {
        0
    } else {
        let r = sqrt_floor(n - 1);
        if (r + 1) * (r + 1) <= n {
            r + 1
        } else {
            r
        }
    }
}

/// `sqrt_floor(n)` is characterized by `r^2 <= n < (r+1)^2`.
pub proof fn lemma_sqrt_floor_bounds(n: int)
    requires
        n >= 0,
    ensures
        sqrt_floor(n) >= 0,
        sqrt_floor(n) * sqrt_floor(n) <= n,
        (sqrt_floor(n) + 1) * (sqrt_floor(n) + 1) > n,
    decreases n,
{
    if n == 0 {
    } else {
        lemma_sqrt_floor_bounds(n - 1);
        let r = sqrt_floor(n - 1);
        if (r + 1) * (r + 1) <= n {
            assert(sqrt_floor(n) == r + 1);
            assert((r + 2) * (r + 2) > n) by (nonlinear_arith)
                requires
                    (r + 1) * (r + 1) > n - 1,
                    r >= 0,
            ;
        } else {
            assert(sqrt_floor(n) == r);
        }
    }
}

/// Any `r` with `r^2 <= n < (r+1)^2` equals `sqrt_floor(n)`.
pub proof fn lemma_sqrt_floor_unique(n: int, r: int)
    requires
        n >= 0,
        r >= 0,
        r * r <= n,
        (r + 1) * (r + 1) > n,
    ensures
        r == sqrt_floor(n),
{
    lemma_sqrt_floor_bounds(n);
    let s = sqrt_floor(n);
    if r < s {
        assert((r + 1) * (r + 1) <= s * s) by (nonlinear_arith)
            requires 0 <= r, r + 1 <= s;
    }
    if s < r {
        assert((s + 1) * (s + 1) <= r * r) by (nonlinear_arith)
            requires 0 <= s, s + 1 <= r;
    }
}

/// The floor square root is at least any `d` whose square is at most `n`.
pub proof fn lemma_sqrt_floor_ge(n: int, d: int)
    requires
        d >= 0,
        d * d <= n,
    ensures
        sqrt_floor(n) >= d,
{
    lemma_sqrt_floor_bounds(n);
    let s = sqrt_floor(n);
    if s < d {
        assert((s + 1) * (s + 1) <= d * d) by (nonlinear_arith)
            requires 0 <= s, s + 1 <= d;
    }
}

/// The floor square root is at most any `d` whose square is at least `n`.
pub proof fn lemma_sqrt_floor_le(n: int, d: int)
    requires
        n >= 0,
        d >= 0,
        d * d >= n,
    ensures
        sqrt_floor(n) <= d,
{
    lemma_sqrt_floor_bounds(n);
    let s = sqrt_floor(n);
    if d < s {
        assert(s * s > d * d) by (nonlinear_arith)
            requires 0 <= d, d < s;
    }
}

/// Floor square root by binary search.
pub fn isqrt_u128(n: u128) -> (r: u128)
    requires
        n < 0x80000000000000000000000000000000,
    ensures
        r == sqrt_floor(n as int),
{
    let mut lo: u128 = 0;
    let mut hi: u128 = 0x10000000000000000;
    while lo + 1 < hi
        invariant
            lo < hi <= 0x10000000000000000,
            lo * lo <= n,
            hi * hi > n,
        decreases hi - lo,
    {
        let mid = lo + (hi - lo) / 2;
        proof {
            assert(mid * mid < 0x100000000000000000000000000000000) by (nonlinear_arith)
                requires mid < 0x10000000000000000;
        }
        if mid * mid <= n {
            lo = mid;
        } else {
            hi = mid;
        }
    }
    proof {
        assert((lo + 1) * (lo + 1) > n);
        lemma_sqrt_floor_unique(n as int, lo as int);
    }
    lo
}


/// Product of two `u64` values, exactly, in a `u128`.
pub fn mul_wide(a: u64, b: u64) -> (r: u128)
    ensures
        r == a * b,
{
    proof {
        assert((a as int) * (b as int) <= 0xffffffffffffffff * 0xffffffffffffffff)
            by (nonlinear_arith)
            requires a <= 0xffffffffffffffff, b <= 0xffffffffffffffff;
        assert((a as int) * (b as int) >= 0) by (nonlinear_arith)
            requires a >= 0, b >= 0;
    }
    (a as u128) * (b as u128)
}

/// Fixed-point scale of the logarithm and exponential kernels: 10^9.
pub const S9: u64 = 1000000000;

/// ln 2 at scale 10^9.
pub const LN2_S9: u64 = 693147181;

/// Repeated halving of `m` until it drops below `2 * S9`.
pub open spec fn half_down(m: int) -> int
    decreases m,
{
    if m >= 2000000000 {
        half_down(m / 2)
    } else {
        m
    }
}

/// How many halvings `half_down` performs.
pub open spec fn half_down_count(m: int) -> int
    decreases m,
{
    if m >= 2000000000 {
        1 + half_down_count(m / 2)
    } else {
        0
    }
}

/// Repeated doubling of `m` until it reaches `S9`.
pub open spec fn dbl_up(m: int) -> int
    decreases 2000000000 - m,
{
    if 1 <= m < 1000000000 {
        dbl_up(2 * m)
    } else {
        m
    }
}

/// How many doublings `dbl_up` performs.
pub open spec fn dbl_up_count(m: int) -> int
    decreases 2000000000 - m,
{
    if 1 <= m < 1000000000 {
        1 + dbl_up_count(2 * m)
    } else {
        0
    }
}

/// The `i`-th odd power of the logarithm series argument: `t * (t2/S9)^i`
/// with floor division at each step.
pub open spec fn ln_pow_term(t: int, t2: int, i: int) -> int
    decreases i,
{
    if i <= 0 {
        t
    } else {
        ln_pow_term(t, t2, i - 1) * t2 / 1000000000
    }
}

/// Partial sum of the first `n` terms of the inverse hyperbolic tangent
/// series at scale 10^9: `sum_i ln_pow_term(i) / (2i+1)`.
pub open spec fn ln_series_sum(t: int, t2: int, n: int) -> int
    decreases n,
{
    if n <= 0 {
        0
    } else {
        ln_series_sum(t, t2, n - 1) + ln_pow_term(t, t2, n - 1) / (2 * (n - 1) + 1)
    }
}

/// The fixed-point natural logarithm of `x / S9` at scale 10^9, as the exact
/// integer recurrence the executable kernel computes: normalize into
/// [S9, 2*S9) by powers of two, then ten terms of the series.
pub open spec fn spec_ln_s9(x: int) -> int {
    let m1 = half_down(x);
    let m = dbl_up(m1);
    let k = half_down_count(x) - dbl_up_count(m1);
    let t = (m - 1000000000) * 1000000000 / (m + 1000000000);
    let t2 = t * t / 1000000000;
    k * (LN2_S9 as int) + 2 * ln_series_sum(t, t2, 10)
}

/// The normalized mantissa lies in [S9, 2*S9).
pub proof fn lemma_dbl_up_bounds(m: int)
    requires
        1 <= m < 2000000000,
    ensures
        1000000000 <= dbl_up(m) < 2000000000,
    decreases 2000000000 - m,
{
    if m < 1000000000 {
        lemma_dbl_up_bounds(2 * m);
    }
}

/// Halving counts are nonnegative.
proof fn lemma_half_count_nonneg(m: int)
    ensures
        half_down_count(m) >= 0,
    decreases m,
{
    if m >= 2000000000 {
        lemma_half_count_nonneg(m / 2);
    }
}

/// Halving `half_down_count` times still leaves at least one power of two
/// inside the value.
proof fn lemma_half_count_prod(x: int)
    requires
        x >= 1,
    ensures
        half_down_count(x) >= 0,
        pow2(half_down_count(x) as nat) <= x,
    decreases x,
{
    if x >= 2000000000 {
        lemma_half_count_prod(x / 2);
        let c2 = half_down_count(x / 2);
        vstd::arithmetic::power2::lemma_pow2_unfold((c2 + 1) as nat);
        assert(2 * pow2(c2 as nat) <= 2 * (x / 2)) by (nonlinear_arith)
            requires pow2(c2 as nat) <= x / 2;
    } else {
        assert(pow2(0) == 1) by { vstd::arithmetic::power2::lemma2_to64(); }
    }
}

/// No `u64` needs more than 63 halvings.
proof fn lemma_half_count_small(x: int)
    requires
        1 <= x <= 0xffffffffffffffff,
    ensures
        0 <= half_down_count(x) <= 63,
{
    lemma_half_count_prod(x);
    let c = half_down_count(x);
    if c > 63 {
        vstd::arithmetic::power2::lemma2_to64_rest();
        vstd::arithmetic::power2::lemma2_to64();
        if c > 64 {
            vstd::arithmetic::power2::lemma_pow2_strictly_increases(64, c as nat);
        }
        assert(pow2(64) == 0x10000000000000000);
    }
}

/// Doubling counts are nonnegative and bounded by 30 below `2 * S9`.
proof fn lemma_dbl_count_bound(m: int)
    requires
        1 <= m < 2000000000,
    ensures
        0 <= dbl_up_count(m) <= 30,
    decreases 2000000000 - m,
{
    if m < 1000000000 {
        lemma_dbl_count_bound(2 * m);
        assert(dbl_up_count(m) == 1 + dbl_up_count(2 * m));
        if dbl_up_count(2 * m) == 30 {
            lemma_dbl_count_prod(m);
            vstd::arithmetic::power2::lemma2_to64();
            assert(vstd::arithmetic::power2::pow2(31) == 2147483648)
                by {
                    vstd::arithmetic::power2::lemma_pow2_unfold(31);
                    vstd::arithmetic::power2::lemma2_to64();
                }
            assert(m * pow2(31) >= pow2(31)) by (nonlinear_arith)
                requires m >= 1, pow2(31) >= 0;
        }
    }
}

use vstd::arithmetic::power2::pow2;

/// A value doubled `dbl_up_count` times stays below `2 * S9`.
proof fn lemma_dbl_count_prod(m: int)
    requires
        1 <= m < 2000000000,
    ensures
        dbl_up_count(m) >= 0,
        m * pow2(dbl_up_count(m) as nat) < 2000000000,
    decreases 2000000000 - m,
{
    if m < 1000000000 {
        lemma_dbl_count_prod(2 * m);
        let c2 = dbl_up_count(2 * m);
        assert(dbl_up_count(m) == 1 + c2);
        vstd::arithmetic::power2::lemma_pow2_unfold((c2 + 1) as nat);
        let p = pow2(c2 as nat) as int;
        assert(pow2((c2 + 1) as nat) == 2 * p);
        assert((2 * m) * p < 2000000000);
        assert(m * (2 * p) == (2 * m) * p) by (nonlinear_arith);
        assert(m * pow2(dbl_up_count(m) as nat) == m * (2 * p));
    } else {
        assert(dbl_up_count(m) == 0);
        assert(pow2(0) == 1) by {
            vstd::arithmetic::power2::lemma2_to64();
        }
        assert(m * pow2(dbl_up_count(m) as nat) == m) by (nonlinear_arith)
            requires pow2(dbl_up_count(m) as nat) == 1;
    }
}

/// The fixed-point natural logarithm of `x / S9` at scale 10^9.
pub fn ln_s9(x: u64) -> (r: i64)
    requires
        x >= 1,
    ensures
        r == spec_ln_s9(x as int),
{
    proof {
        lemma_half_count_small(x as int);
        lemma_half_count_nonneg(x as int);
    }
    let mut m: u64 = x;
    let mut k: i64 = 0;
    while m >= 2000000000
        invariant
            m >= 1,
            m <= x,
            half_down(m as int) == half_down(x as int),
            half_down_count(x as int) == k + half_down_count(m as int),
            half_down_count(x as int) <= 63,
            0 <= k <= 63,
        decreases m,
    {
        proof {
            lemma_half_count_nonneg(m as int / 2);
        }
        m = m / 2;
        k = k + 1;
    }
    let ghost m1 = m as int;
    proof {
        assert(half_down(m as int) == m as int);
        assert(half_down_count(m as int) == 0);
        lemma_dbl_count_bound(m as int);
    }
    let mut j: i64 = 0;
    while m < 1000000000
        invariant
            1 <= m < 2000000000,
            dbl_up(m as int) == dbl_up(m1),
            dbl_up_count(m1) == j + dbl_up_count(m as int),
            0 <= j <= 30,
            dbl_up_count(m1) <= 30,
        decreases 2000000000 - m,
    {
        proof {
            lemma_dbl_count_bound(m as int);
            lemma_dbl_count_bound(2 * m as int);
        }
        m = m * 2;
        j = j + 1;
    }
    proof {
        assert(dbl_up(m as int) == m as int);
        assert(dbl_up_count(m as int) == 0);
        lemma_dbl_up_bounds(m1);
    }
    // series argument: t = (m - S9) * S9 / (m + S9), within [0, S9/3]
    let t: u64 = (m - 1000000000) * 1000000000 / (m + 1000000000);
    proof {
        assert((m - 1000000000) * 1000000000 < (m + 1000000000) * 334000000)
            by (nonlinear_arith)
            requires 1000000000 <= m < 2000000000;
        vstd::arithmetic::div_mod::lemma_multiply_divide_lt(
            ((m - 1000000000) * 1000000000) as int, (m + 1000000000) as int, 334000000);
        vstd::arithmetic::div_mod::lemma_div_pos_is_pos(
            ((m - 1000000000) * 1000000000) as int, (m + 1000000000) as int);
    }
    proof {
        assert(t * t / 1000000000 <= 334000000 && t * t >= 0 && t * t <= 0x10000000000000000)
            by (nonlinear_arith)
            requires 0 <= t < 334000000;
    }
    let t2: u64 = t * t / 1000000000;
    // ten terms of 2 * (t + t^3/3 + t^5/5 + ...)
    let mut sum: u64 = 0;
    let mut p: u64 = t;
    let mut i: u64 = 0;
    while i < 10
        invariant
            0 <= t < 334000000,
            t2 == t * t / (1000000000 as int),
            0 <= t2 <= 334000000,
            p == ln_pow_term(t as int, t2 as int, i as int),
            0 <= p <= t,
            sum == ln_series_sum(t as int, t2 as int, i as int),
            sum <= i * 334000000,
            i <= 10,
        decreases 10 - i,
    {
        proof {
            vstd::arithmetic::div_mod::lemma_div_is_ordered_by_denominator(
                p as int, 1, 2 * i as int + 1);
            assert(p as int / 1 == p as int);
            vstd::arithmetic::div_mod::lemma_div_pos_is_pos(p as int, 2 * i as int + 1);
            assert(0 <= p * t2 <= p * 1000000000) by (nonlinear_arith)
                requires 0 <= p, 0 <= t2 <= 1000000000;
            assert(p * 1000000000 / 1000000000 == p);
            vstd::arithmetic::div_mod::lemma_div_is_ordered(
                (p * t2) as int, (p * 1000000000) as int, 1000000000);
            vstd::arithmetic::div_mod::lemma_div_pos_is_pos((p * t2) as int, 1000000000);
        }
        sum = sum + p / (2 * i + 1);
        p = p * t2 / 1000000000;
        i = i + 1;
    }
    proof {
        assert(0 <= k <= 63);
        assert(0 <= j <= 30);
        assert(sum <= 3340000000);
    }
    let a: i64 = k * 693147181;
    let b: i64 = j * 693147181;
    let c: i64 = 2 * (sum as i64);
    a - b + c
}

/// The `i`-th exponential series term: `S9 * (r/S9)^i / i!` with floor
/// division at each step.
pub open spec fn exp_term(r: int, i: int) -> int
    decreases i,
{
    if i <= 0 {
        1000000000
    } else {
        exp_term(r, i - 1) * r / (1000000000 * i)
    }
}

/// Partial sum of the first `n` exponential series terms.
pub open spec fn exp_series_sum(r: int, n: int) -> int
    decreases n,
{
    if n <= 0 {
        0
    } else {
        exp_series_sum(r, n - 1) + exp_term(r, n - 1)
    }
}

/// The fixed-point exponential of `x / S9` at scale 10^9, as the exact
/// integer recurrence the executable kernel computes: split off a power of
/// two, sum fourteen series terms on the remainder, then shift. Very
/// negative arguments underflow to 0.
pub open spec fn spec_exp_s9(x: int) -> int {
    let k = if x >= 0 { x / (LN2_S9 as int) } else { -((-x + LN2_S9 - 1) / (LN2_S9 as int)) };
    let r = x - k * (LN2_S9 as int);
    let s = exp_series_sum(r, 14);
    if k >= 0 {
        s * pow2(k as nat)
    } else if -k >= 63 {
        0
    } else {
        s / (pow2((-k) as nat) as int)
    }
}

/// Exponential series terms on a remainder below ln 2 stay within [0, S9],
/// and partial sums within [0, n * S9].
pub proof fn lemma_exp_term_bounds(r: int, i: int)
    requires
        0 <= r < LN2_S9,
        i >= 0,
    ensures
        0 <= exp_term(r, i) <= 1000000000,
        0 <= exp_series_sum(r, i) <= i * 1000000000,
    decreases i,
{
    if i <= 0 {
    } else {
        lemma_exp_term_bounds(r, i - 1);
        let prev = exp_term(r, i - 1);
        assert(0 <= prev * r <= prev * 1000000000) by (nonlinear_arith)
            requires 0 <= prev, 0 <= r <= 1000000000;
        assert(prev * 1000000000 / (1000000000 * i) <= prev) by (nonlinear_arith)
            requires 0 <= prev, i >= 1;
        vstd::arithmetic::div_mod::lemma_div_is_ordered(
            prev * r, prev * 1000000000, 1000000000 * i);
        assert(prev * r / (1000000000 * i) >= 0) by (nonlinear_arith)
            requires prev * r >= 0, i >= 1;
        assert(exp_series_sum(r, i) == exp_series_sum(r, i - 1) + exp_term(r, i - 1));
        assert(exp_term(r, i) == prev * r / (1000000000 * i));
    }
}

/// The fixed-point exponential of `x / S9` at scale 10^9. Arguments above
/// 21 units keep the result within a `u64`.
pub fn exp_s9(x: i64) -> (r: u64)
    requires
        -64000000000 <= x <= 21000000000,
    ensures
        r == spec_exp_s9(x as int),
{
    let l: i64 = LN2_S9 as i64;
    let k: i64 = if x >= 0 {
        x / l
    } else {
        -((-x + l - 1) / l)
    };
    proof {
        if x >= 0 {
            vstd::arithmetic::div_mod::lemma_fundamental_div_mod(x as int, l as int);
            vstd::arithmetic::div_mod::lemma_div_is_ordered(x as int, 21000000000, l as int);
        } else {
            vstd::arithmetic::div_mod::lemma_fundamental_div_mod((-x + l - 1) as int, l as int);
            vstd::arithmetic::div_mod::lemma_div_is_ordered(
                (-x + l - 1) as int, 64000000000 + l - 1, l as int);
            vstd::arithmetic::div_mod::lemma_div_pos_is_pos((-x + l - 1) as int, l as int);
        }
    }
    let r0: i64 = x - k * l;
    proof {
        assert(0 <= r0 < l);
    }
    let ru: u64 = r0 as u64;
    // fourteen terms of 1 + r + r^2/2! + ...
    let mut sum: u64 = 0;
    let mut term: u64 = 1000000000;
    let mut i: u64 = 0;
    while i < 14
        invariant
            0 <= ru < LN2_S9,
            term == exp_term(ru as int, i as int),
            0 <= term <= 1000000000,
            sum == exp_series_sum(ru as int, i as int),
            0 <= sum <= i * 1000000000,
            i <= 14,
        decreases 14 - i,
    {
        proof {
            lemma_exp_term_bounds(ru as int, i as int + 1);
            assert(0 <= term * ru <= 1000000000 * 693147181) by (nonlinear_arith)
                requires 0 <= term <= 1000000000, 0 <= ru <= 693147181;
        }
        sum = sum + term;
        term = term * ru / (1000000000 * (i + 1));
        i = i + 1;
    }
    // scale by 2^k
    if k >= 0 {
        proof {
            vstd::arithmetic::power2::lemma2_to64();
            assert(pow2(0) == 1);
            if (k as nat) < 30 {
                vstd::arithmetic::power2::lemma_pow2_strictly_increases(k as nat, 30);
            }
            assert(sum * pow2(k as nat) <= 14000000000 * 0x40000000) by (nonlinear_arith)
                requires 0 <= sum <= 14000000000, 0 <= pow2(k as nat) <= 0x40000000;
        }
        let mut cur: u64 = sum;
        let mut s: u64 = 0;
        while s < k as u64
            invariant
                0 <= k <= 30,
                s <= k as u64,
                sum <= 14000000000,
                cur == sum * pow2(s as nat),
                sum * pow2(k as nat) <= 14000000000 * 0x40000000,
            decreases k - s,
        {
            proof {
                vstd::arithmetic::power2::lemma_pow2_unfold((s + 1) as nat);
                assert(sum * (2 * pow2(s as nat)) == 2 * (sum * pow2(s as nat)))
                    by (nonlinear_arith);
                vstd::arithmetic::power2::lemma_pow2_strictly_increases(
                    (s + 1) as nat, (k + 1) as nat);
                assert(sum * pow2((s + 1) as nat) <= sum * pow2(k as nat)) by {
                    if s as int + 1 < k {
                        vstd::arithmetic::power2::lemma_pow2_strictly_increases(
                            (s + 1) as nat, k as nat);
                    }
                    assert(sum * pow2((s + 1) as nat) <= sum * pow2(k as nat))
                        by (nonlinear_arith)
                        requires sum >= 0, pow2((s + 1) as nat) <= pow2(k as nat);
                }
            }
            cur = cur * 2;
            s = s + 1;
        }
        proof {
            assert(pow2(0) == 1) by { vstd::arithmetic::power2::lemma2_to64(); }
        }
        cur
    } else {
        let neg: u64 = (-k) as u64;
        if neg >= 63 {
            0
        } else {
            proof {
                vstd::arithmetic::power2::lemma2_to64();
            }
            let mut cur: u64 = sum;
            let mut s: u64 = 0;
            while s < neg
                invariant
                    0 < neg <= 62,
                    s <= neg,
                    sum <= 14000000000,
                    cur == sum as int / (pow2(s as nat) as int),
                decreases neg - s,
            {
                proof {
                    vstd::arithmetic::power2::lemma_pow2_unfold((s + 1) as nat);
                    vstd::arithmetic::power2::lemma_pow2_pos(s as nat);
                    vstd::arithmetic::div_mod::lemma_div_denominator(
                        sum as int, pow2(s as nat) as int, 2);
                    assert(pow2(s as nat) * 2 == pow2((s + 1) as nat));
                }
                cur = cur / 2;
                s = s + 1;
            }
            proof {
                assert(pow2(0) == 1) by { vstd::arithmetic::power2::lemma2_to64(); }
            }
            cur
        }
    }
}

/// Logarithm series powers stay within [0, t], and partial sums within
/// [0, n * t].
pub proof fn lemma_ln_series_bounds(t: int, t2: int, n: int)
    requires
        0 <= t,
        0 <= t2 <= 1000000000,
        n >= 0,
    ensures
        0 <= ln_pow_term(t, t2, n) <= t,
        0 <= ln_series_sum(t, t2, n) <= n * t,
    decreases n,
{
    if n <= 0 {
    } else {
        lemma_ln_series_bounds(t, t2, n - 1);
        let prev = ln_pow_term(t, t2, n - 1);
        assert(0 <= prev * t2 <= prev * 1000000000) by (nonlinear_arith)
            requires 0 <= prev, 0 <= t2 <= 1000000000;
        assert(prev * 1000000000 / 1000000000 == prev);
        vstd::arithmetic::div_mod::lemma_div_is_ordered(
            prev * t2, prev * 1000000000, 1000000000);
        assert(prev * t2 / 1000000000 >= 0) by (nonlinear_arith) requires prev * t2 >= 0;
        vstd::arithmetic::div_mod::lemma_div_is_ordered_by_denominator(
            prev, 1, 2 * (n - 1) + 1);
        assert(prev / 1 == prev);
        vstd::arithmetic::div_mod::lemma_div_pos_is_pos(prev, 2 * (n - 1) + 1);
        assert((n - 1) * t + t == n * t) by (nonlinear_arith);
    }
}

/// The fixed-point logarithm of any positive `u64` argument lies within
/// about [-21, 51] scale units.
pub proof fn lemma_ln_s9_bounds(x: int)
    requires
        1 <= x <= 0xffffffffffffffff,
    ensures
        -21000000000 <= spec_ln_s9(x) <= 50400000000,
{
    lemma_half_count_small(x);
    let m1 = half_down(x);
    lemma_half_down_small(x);
    lemma_dbl_count_bound(m1);
    let m = dbl_up(m1);
    lemma_dbl_up_bounds(m1);
    let t = (m - 1000000000) * 1000000000 / (m + 1000000000);
    assert((m - 1000000000) * 1000000000 < (m + 1000000000) * 334000000)
        by (nonlinear_arith)
        requires 1000000000 <= m < 2000000000;
    vstd::arithmetic::div_mod::lemma_multiply_divide_lt(
        (m - 1000000000) * 1000000000, m + 1000000000, 334000000);
    vstd::arithmetic::div_mod::lemma_div_pos_is_pos(
        (m - 1000000000) * 1000000000, m + 1000000000);
    let t2 = t * t / 1000000000;
    assert(0 <= t * t / 1000000000 <= 334000000) by (nonlinear_arith)
        requires 0 <= t < 334000000;
    lemma_ln_series_bounds(t, t2, 10);
    assert(ln_series_sum(t, t2, 10) <= 10 * t);
}

/// Halving a `u64` below `2 * S9` keeps it at least 1.
proof fn lemma_half_down_small(x: int)
    requires
        x >= 1,
    ensures
        1 <= half_down(x) < 2000000000,
    decreases x,
{
    if x >= 2000000000 {
        lemma_half_down_small(x / 2);
    }
}

/// The exponential of a nonpositive argument stays within fourteen scale
/// units.
pub proof fn lemma_exp_nonpos_bound(a: int)
    requires
        -64000000000 <= a <= 0,
    ensures
        0 <= spec_exp_s9(a) <= 14000000000,
{
    let l = LN2_S9 as int;
    let k = if a >= 0 { a / l } else { -((-a + l - 1) / l) };
    let r = a - k * l;
    if a >= 0 {
        assert(k == 0);
        assert(r == 0);
    } else {
        let y = -a;
        let c = (y + l - 1) / l;
        vstd::arithmetic::div_mod::lemma_fundamental_div_mod(y + l - 1, l);
        vstd::arithmetic::div_mod::lemma_div_is_ordered(l, y + l - 1, l);
        vstd::arithmetic::div_mod::lemma_div_by_self(l);
        assert(c >= 1);
        assert(k == -c);
        assert(0 <= r < l);
    }
    lemma_exp_term_bounds(r, 14);
    let s = exp_series_sum(r, 14);
    vstd::arithmetic::power2::lemma2_to64();
    if k == 0 {
        assert(pow2(0) == 1);
        assert(spec_exp_s9(a) == s * 1);
    } else {
        assert(k < 0);
        if -k >= 63 {
        } else {
            vstd::arithmetic::power2::lemma_pow2_pos((-k) as nat);
            vstd::arithmetic::div_mod::lemma_div_is_ordered_by_denominator(
                s, 1, pow2((-k) as nat) as int);
            assert(s / 1 == s);
            vstd::arithmetic::div_mod::lemma_div_pos_is_pos(s, pow2((-k) as nat) as int);
        }
    }
}

} // verus!
