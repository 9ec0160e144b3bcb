//! Rounding in IEEE 754 double precision, carried out on integers.
//!
//! A positive double is held as a pair `(m, e)` that stands for `m * 2^e`, with
//! `2^52 <= m <= 2^53`; zero is `(0, 0)`. Quotas are far too small for
//! subnormal numbers or infinities to appear, so the exponent is unbounded here.
use vstd::arithmetic::power2::*;
use vstd::prelude::*;

verus! {

/// `2^52`, the smallest significand of a normalised double.
pub const TWO_52: u128 = 0x10_0000_0000_0000;

/// `2^53`, the bound on the significand of a double.
pub const TWO_53: u128 = 0x20_0000_0000_0000;

/// The integer nearest to `num / den`; of two equally near, the even one.
pub open spec fn half_even(num: nat, den: nat) -> nat {
    let q: nat = num / den;
    let r: nat = num % den;
    if 2 * r < den || (2 * r == den && q % 2 == 0) {
        q
    } else {
        q + 1
    }
}

/// How far `num / den` is from the interval from `2^52` up to `2^53`.
pub open spec fn distance(num: nat, den: nat) -> nat {
    if num >= TWO_53 * den {
        (num - TWO_53 * den + 1) as nat
    } else if num < TWO_52 * den {
        (TWO_52 * den - num) as nat
    } else {
        0
    }
}

/// The double nearest to the fraction `num / den`, ties going to the even
/// significand: the fraction is scaled by powers of two until its integer part
/// has 53 bits, and is then rounded to an integer.
pub open spec fn nearest(num: nat, den: nat) -> (nat, int)
    decreases distance(num, den),
{
    if num == 0 || den == 0 {
        (0, 0)
    } else if num >= TWO_53 * den {
        let (m, e) = nearest(num, 2 * den);
        (m, e + 1)
    } else if num < TWO_52 * den {
        let (m, e) = nearest(2 * num, den);
        (m, e - 1)
    } else {
        (half_even(num, den), 0)
    }
}

/// The integer nearest to `m * 2^e`; of two equally near, the larger one.
pub open spec fn half_up(m: nat, e: int) -> nat {
    if e >= 0 {
        m * pow2(e as nat)
    } else {
        (m + pow2((-e - 1) as nat)) / pow2((-e) as nat)
    }
}

/// What `nearest` is, with no recursion: the fraction, scaled by `2^-e`, lies
/// between `2^52` and `2^53`, and `m` is that scaled fraction rounded to an integer.
pub proof fn nearest_is_the_rounded_scaled_fraction(num: nat, den: nat)
    requires
        num > 0,
        den > 0,
    ensures
        ({
            let (m, e) = nearest(num, den);
            let n = if e < 0 {
                num * pow2((-e) as nat)
            } else {
                num
            };
            let d = if e < 0 {
                den
            } else {
                den * pow2(e as nat)
            };
            &&& TWO_52 * d <= n < TWO_53 * d
            &&& m == half_even(n, d)
            &&& num >= TWO_52 * den ==> e >= 0
            &&& num < TWO_53 * den ==> e <= 0
        }),
    decreases distance(num, den),
{
    lemma2_to64();
    let (m, e) = nearest(num, den);
    if num >= TWO_53 * den {
        nearest_is_the_rounded_scaled_fraction(num, 2 * den);
        assert(e - 1 == nearest(num, 2 * den).1);
        lemma_pow2_unfold(e as nat);
        let p = pow2((e - 1) as nat);
        assert((2 * den) * p == den * (2 * p)) by (nonlinear_arith);
        assert((2 * den) * p == den * pow2(e as nat));
    } else if num < TWO_52 * den {
        nearest_is_the_rounded_scaled_fraction(2 * num, den);
        assert(e + 1 == nearest(2 * num, den).1);
        lemma_pow2_unfold((-e) as nat);
        let p = pow2((-e - 1) as nat);
        assert((2 * num) * p == num * (2 * p)) by (nonlinear_arith);
        assert((2 * num) * p == num * pow2((-e) as nat));
        if e == -1 {
            assert(den * pow2(0) == den);
            assert(p == 1);
            assert((2 * num) * p == 2 * num) by (nonlinear_arith)
                requires
                    p == 1,
            ;
        }
    } else {
        assert(den * pow2(0) == den);
    }
}

/// A rounded integer is off by at most one half.
pub proof fn half_even_is_near(num: nat, den: nat)
    requires
        den > 0,
    ensures
        -(den as int) <= 2 * (num - half_even(num, den) * den) <= den,
{
    let q = num / den;
    let r = num % den;
    assert(num == q * den + r) by {
        vstd::arithmetic::div_mod::lemma_fundamental_div_mod(num as int, den as int);
        assert(q * den == den * q) by (nonlinear_arith);
    }
    assert((q + 1) * den == q * den + den) by (nonlinear_arith);
}

/// Rounding to an integer does not pass an integer.
pub proof fn half_even_respects_integers(num: nat, den: nat, k: nat)
    requires
        den > 0,
    ensures
        k * den <= num ==> k <= half_even(num, den),
        num <= k * den ==> half_even(num, den) <= k,
{
    let q = num / den;
    let r = num % den;
    vstd::arithmetic::div_mod::lemma_fundamental_div_mod(num as int, den as int);
    assert(q * den == den * q) by (nonlinear_arith);
    if k * den <= num {
        assert(k <= q) by (nonlinear_arith)
            requires
                k * den <= num,
                num == q * den + r,
                0 <= r < den,
        ;
    }
    if num <= k * den {
        assert(q <= k) by (nonlinear_arith)
            requires
                num <= k * den,
                num == q * den + r,
                0 <= r < den,
        ;
        if q == k {
            assert(r == 0);
        }
    }
}

/// A rounded fraction has a significand of 53 bits.
pub proof fn nearest_is_normalised(num: nat, den: nat)
    requires
        num > 0,
        den > 0,
    ensures
        TWO_52 <= nearest(num, den).0 <= TWO_53,
{
    nearest_is_the_rounded_scaled_fraction(num, den);
    let (m, e) = nearest(num, den);
    let n: nat = if e < 0 {
        num * pow2((-e) as nat)
    } else {
        num
    };
    let d: nat = if e < 0 {
        den
    } else {
        den * pow2(e as nat)
    };
    half_even_respects_integers(n, d, TWO_52 as nat);
    half_even_respects_integers(n, d, TWO_53 as nat);
}

/// Rounding keeps the order of integers.
pub proof fn half_even_is_monotone(a: nat, b: nat, den: nat)
    requires
        den > 0,
        a <= b,
    ensures
        half_even(a, den) <= half_even(b, den),
{
    let q = b / den;
    let r = b % den;
    vstd::arithmetic::div_mod::lemma_fundamental_div_mod(b as int, den as int);
    vstd::arithmetic::div_mod::lemma_fundamental_div_mod(a as int, den as int);
    let p = a / den;
    vstd::arithmetic::div_mod::lemma_div_is_ordered(a as int, b as int, den as int);
    assert(p <= q);
}

/// Rounding keeps the order of fractions with one denominator.
pub proof fn nearest_is_monotone(a: nat, b: nat, den: nat)
    requires
        den > 0,
        0 < a <= b,
    ensures
        ({
            let (ma, ea) = nearest(a, den);
            let (mb, eb) = nearest(b, den);
            at_most((ma, ea), (mb, eb))
        }),
    decreases distance(a, den) + distance(b, den),
{
    nearest_is_the_rounded_scaled_fraction(a, den);
    nearest_is_the_rounded_scaled_fraction(b, den);
    if a >= TWO_53 * den {
        nearest_is_monotone(a, b, 2 * den);
    } else if b >= TWO_53 * den {
        nearest_is_the_rounded_scaled_fraction(b, 2 * den);
    } else if b < TWO_52 * den {
        nearest_is_monotone(2 * a, 2 * b, den);
    } else if a < TWO_52 * den {
        nearest_is_the_rounded_scaled_fraction(2 * a, den);
    } else {
        half_even_is_monotone(a, b, den);
    }
}

/// Zero is rounded to zero, whatever the exponent.
pub proof fn half_up_of_zero(e: int)
    ensures
        half_up(0, e) == 0,
{
    if e < 0 {
        let k: nat = (-e) as nat;
        lemma_pow2_unfold(k);
        lemma_pow2_pos((k - 1) as nat);
        let p: int = pow2((k - 1) as nat) as int;
        assert((0 + p) / (2 * p) == 0) by (nonlinear_arith)
            requires
                p > 0,
        ;
    }
}

/// Doubling a fraction raises the exponent by one and keeps the significand.
pub proof fn nearest_of_double(num: nat, den: nat)
    requires
        num > 0,
        den > 0,
    ensures
        nearest(2 * num, den) == (nearest(num, den).0, nearest(num, den).1 + 1),
    decreases distance(num, den),
{
    if num >= TWO_53 * den {
        assert(nearest(2 * num, den).0 == nearest(2 * num, 2 * den).0);
        assert(nearest(2 * num, den).1 == nearest(2 * num, 2 * den).1 + 1);
        nearest_of_double(num, 2 * den);
    } else if num < TWO_52 * den {
        assert(nearest(num, den).0 == nearest(2 * num, den).0);
        assert(nearest(num, den).1 == nearest(2 * num, den).1 - 1);
    } else {
        assert(nearest(2 * num, den).0 == nearest(2 * num, 2 * den).0);
        assert(nearest(2 * num, den).1 == nearest(2 * num, 2 * den).1 + 1);
        let q = num / den;
        let r = num % den;
        vstd::arithmetic::div_mod::lemma_fundamental_div_mod(num as int, den as int);
        assert(2 * num == (2 * den) * q + 2 * r) by (nonlinear_arith)
            requires
                num == den * q + r,
        ;
        vstd::arithmetic::div_mod::lemma_fundamental_div_mod_converse(
            (2 * num) as int,
            (2 * den) as int,
            q as int,
            (2 * r) as int,
        );
        assert(half_even(2 * num, 2 * den) == half_even(num, den));
    }
}

/// Scaling a fraction by `2^k` raises the exponent by `k` and keeps the significand.
pub proof fn nearest_of_scaled(num: nat, den: nat, k: nat)
    requires
        num > 0,
        den > 0,
    ensures
        num * pow2(k) > 0,
        nearest(num * pow2(k), den) == (nearest(num, den).0, nearest(num, den).1 + k),
    decreases k,
{
    lemma2_to64();
    if k == 0 {
        assert(num * pow2(0) == num);
    } else {
        let j: nat = (k - 1) as nat;
        nearest_of_scaled(num, den, j);
        lemma_pow2_unfold(k);
        let p = pow2(j);
        assert(num * (2 * p) == 2 * (num * p)) by (nonlinear_arith);
        nearest_of_double(num * p, den);
    }
}

/// Whether the double `a` is at most the double `b`.
pub open spec fn at_most(a: (nat, int), b: (nat, int)) -> bool {
    a.1 < b.1 || (a.1 == b.1 && a.0 <= b.0)
}

/// A significand is at most another one that is scaled by a power of two.
pub proof fn lemma_at_most_scaled(a: nat, b: nat, k: nat)
    requires
        TWO_52 <= a <= TWO_53,
        TWO_52 <= b <= TWO_53,
        k > 0 || a <= b,
    ensures
        a <= b * pow2(k),
{
    lemma2_to64();
    if k == 0 {
        assert(b * pow2(0) == b);
    } else {
        if k > 1 {
            lemma_pow2_strictly_increases(1, k);
        }
        let p = pow2(k);
        assert(b * p >= 2 * b) by (nonlinear_arith)
            requires
                p >= 2,
        ;
    }
}

/// Rounding `factor * m / den * 2^e` keeps the order of the doubles `m * 2^e`.
pub proof fn scaled_nearest_is_monotone(a: (nat, int), b: (nat, int), factor: nat, den: nat)
    requires
        TWO_52 <= a.0 <= TWO_53,
        TWO_52 <= b.0 <= TWO_53,
        factor > 0,
        den > 0,
        at_most(a, b),
    ensures
        ({
            let (ma, ea) = nearest(a.0 * factor, den);
            let (mb, eb) = nearest(b.0 * factor, den);
            at_most((ma, ea + a.1), (mb, eb + b.1))
        }),
{
    let k: nat = (b.1 - a.1) as nat;
    lemma_at_most_scaled(a.0, b.0, k);
    let x = a.0 * factor;
    let y = b.0 * factor;
    let p = pow2(k);
    let am = a.0;
    let bm = b.0;
    assert(0 < am * factor <= bm * factor * p && bm * factor > 0) by (nonlinear_arith)
        requires
            am <= bm * p,
            factor > 0,
            am > 0,
            bm > 0,
    ;
    nearest_of_scaled(y, den, k);
    nearest_is_monotone(x, y * p, den);
}

/// Halving the unit changes nothing of the rounded integer.
pub proof fn half_up_of_double(m: nat, x: int)
    ensures
        half_up(2 * m, x - 1) == half_up(m, x),
{
    lemma2_to64();
    if x > 0 {
        lemma_pow2_unfold(x as nat);
        let p = pow2((x - 1) as nat);
        assert((2 * m) * p == m * (2 * p)) by (nonlinear_arith);
    } else if x == 0 {
        assert(m * pow2(0) == m);
        assert((2 * m + 1) / 2 == m);
    } else {
        let k: nat = (-x) as nat;
        lemma_pow2_unfold(k + 1);
        lemma_pow2_unfold(k);
        lemma_pow2_pos(k);
        let p = pow2(k);
        let h = pow2((k - 1) as nat);
        vstd::arithmetic::div_mod::lemma_div_denominator((2 * m + p) as int, 2, p as int);
        assert((2 * m + p) / 2 == m + h);
        assert(2 * p == pow2(k + 1));
    }
}

/// Rounding a double to an integer keeps the order.
pub proof fn half_up_is_monotone(a: (nat, int), b: (nat, int))
    requires
        a.1 <= b.1,
        a.0 <= b.0 * pow2((b.1 - a.1) as nat),
    ensures
        half_up(a.0, a.1) <= half_up(b.0, b.1),
    decreases b.1 - a.1,
{
    lemma2_to64();
    if a.1 == b.1 {
        assert(b.0 * pow2(0) == b.0);
        if a.1 >= 0 {
            let p = pow2(a.1 as nat);
            let am = a.0;
            let bm = b.0;
            assert(am * p <= bm * p) by (nonlinear_arith)
                requires
                    am <= bm,
            ;
        } else {
            let k: nat = (-a.1) as nat;
            lemma_pow2_pos(k);
            let h = pow2((k - 1) as nat);
            vstd::arithmetic::div_mod::lemma_div_is_ordered(
                (a.0 + h) as int,
                (b.0 + h) as int,
                pow2(k) as int,
            );
        }
    } else {
        half_up_of_double(b.0, b.1);
        let k: nat = (b.1 - a.1) as nat;
        lemma_pow2_unfold(k);
        let p = pow2((k - 1) as nat);
        let bm = b.0;
        assert((2 * bm) * p == bm * (2 * p)) by (nonlinear_arith);
        half_up_is_monotone(a, (2 * b.0, b.1 - 1));
    }
}

/// Computes `nearest(num, den)`.
pub fn nearest_double(num: u128, den: u128) -> (r: (u128, i32))
    requires
        0 < num <= 0x1_0000_0000_0000_0000,
        0 < den <= 0x1_0000_0000_0000_0000,
    ensures
        (r.0 as nat, r.1 as int) == nearest(num as nat, den as nat),
        TWO_52 <= r.0 <= TWO_53,
        -120 <= r.1 <= 64,
{
    let mut n: u128 = num;
    let mut d: u128 = den;
    let mut e: i32 = 0;
    proof {
        lemma2_to64();
        lemma2_to64_rest();
        lemma_pow2_adds(60, 60);
    }
    while n >= TWO_53 * d
        invariant
            n == num <= 0x1_0000_0000_0000_0000,
            0 < n,
            0 < d <= 0x1_0000_0000_0000_0000,
            0 <= e <= 64,
            pow2(e as nat) <= d,
            pow2(64) == 0x1_0000_0000_0000_0000,
            e > 0 ==> n >= TWO_52 * d,
            ({
                let (m, x) = nearest(n as nat, d as nat);
                nearest(num as nat, den as nat) == (m, x + e)
            }),
        decreases n - d,
    {
        proof {
            if e >= 64 {
                assert(e == 64);
            }
            lemma_pow2_unfold((e + 1) as nat);
        }
        d = 2 * d;
        e = e + 1;
    }
    let ghost up: int = e as int;
    let ghost mut k: nat = 0;
    while n < TWO_52 * d
        invariant
            0 < n < TWO_53 * d,
            0 < d <= 0x1_0000_0000_0000_0000,
            0 <= up <= 64,
            up > 0 ==> n >= TWO_52 * d,
            e == up - k,
            k <= 120,
            pow2(k) <= n,
            pow2(120) == pow2(60) * pow2(60),
            pow2(60) == 0x1000000000000000,
            ({
                let (m, x) = nearest(n as nat, d as nat);
                nearest(num as nat, den as nat) == (m, x + e)
            }),
        decreases TWO_53 * d - n,
    {
        proof {
            if k >= 120 {
                assert(k == 120);
                let p = pow2(60);
                assert(p * p == 0x1000000000000000 * 0x1000000000000000) by (nonlinear_arith)
                    requires
                        p == 0x1000000000000000,
                ;
                assert(false);
            }
            lemma_pow2_unfold((k + 1) as nat);
            k = k + 1;
        }
        n = 2 * n;
        e = e - 1;
    }
    let q: u128 = n / d;
    let r: u128 = n % d;
    assert(TWO_52 <= q < TWO_53) by (nonlinear_arith)
        requires
            q == n / d,
            d > 0,
            TWO_52 * d <= n < TWO_53 * d,
    ;
    if 2 * r < d || (2 * r == d && q % 2 == 0) {
        (q, e)
    } else {
        (q + 1, e)
    }
}

/// `2^31`, the first integer beyond `i32`.
pub const TWO_31: i64 = 0x8000_0000;

/// Computes `half_up(m, e)`, or `2^31` where that is smaller.
pub fn round_up_to_two_31(m: u128, e: i32) -> (r: i64)
    requires
        TWO_52 <= m <= TWO_53,
    ensures
        half_up(m as nat, e as int) <= TWO_31 ==> r == half_up(m as nat, e as int),
        half_up(m as nat, e as int) > TWO_31 ==> r == TWO_31,
{
    if e >= 0 {
        proof {
            lemma_pow2_pos(e as nat);
            assert(m * pow2(e as nat) >= m) by (nonlinear_arith)
                requires
                    pow2(e as nat) > 0,
            ;
        }
        return TWO_31;
    }
    if e <= -60 {
        proof {
            lemma2_to64();
            lemma2_to64_rest();
            let k: nat = (-(e as int)) as nat;
            lemma_pow2_unfold(k);
            if k > 60 {
                lemma_pow2_strictly_increases(59, (k - 1) as nat);
            }
            let p: int = pow2((k - 1) as nat) as int;
            assert((m + p) / (2 * p) == 0) by (nonlinear_arith)
                requires
                    0 <= m < p,
            ;
        }
        return 0;
    }
    let k: u64 = (-e) as u64;
    proof {
        lemma2_to64();
        lemma2_to64_rest();
        if k < 59 {
            lemma_pow2_strictly_increases(k as nat, 59);
        }
        lemma_pow2_unfold(k as nat);
        vstd::bits::lemma_u64_shl_is_mul(1, k);
        vstd::bits::lemma_u64_shl_is_mul(1, (k - 1) as u64);
    }
    let whole: u128 = (1u64 << k) as u128;
    let half: u128 = (1u64 << (k - 1)) as u128;
    let rounded: u128 = (m + half) / whole;
    if rounded <= 0x8000_0000 {
        rounded as i64
    } else {
        TWO_31
    }
}

} // verus!
