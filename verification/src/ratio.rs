//! Ratios rounded the way double-precision arithmetic rounds them.
//!
//! A count such as 1250 shown in thousands, or a share of votes shown as a
//! percentage, goes through a 53-bit significand before it is rounded for
//! display, and at the ties this is visible. The arithmetic here is on integers:
//! a value is a significand `m` and an exponent `e`, standing for `m * 2^e`.

use crate::number::{decimal, nat_text, digit, digit_char};
use vstd::prelude::*;
use vstd::string::*;

verus! {

pub open spec fn two_to(k: nat) -> nat
    decreases k,
{
    if k == 0 {
        1
    } else {
        2 * two_to((k - 1) as nat)
    }
}

pub proof fn lemma_two_to(k: nat)
    ensures
        two_to(k) > 0,
    decreases k,
{
    if k > 0 {
        lemma_two_to((k - 1) as nat);
    }
}

pub proof fn lemma_two_to_monotonic(j: nat, k: nat)
    requires
        j <= k,
    ensures
        two_to(j) <= two_to(k),
    decreases k,
{
    if j < k {
        lemma_two_to_monotonic(j, (k - 1) as nat);
    }
}

/// `2^52` and `2^53`: a significand lies between them.
pub const LOW: u128 = 0x10_0000_0000_0000;

pub const HIGH: u128 = 0x20_0000_0000_0000;

/// `a / b` to the nearest integer, a tie going to the even one.
pub open spec fn half_even(a: nat, b: nat) -> nat {
    let q = a / b;
    let r = a % b;
    if 2 * r < b || (2 * r == b && q % 2 == 0) {
        q
    } else {
        q + 1
    }
}

/// A significand and a binary exponent.
pub struct Scaled {
    pub m: u64,
    pub e: i32,
}

/// Scale `num / den` by powers of two until it lies in `[2^52, 2^53)`, and keep
/// the exponent that undoes the scaling.
pub open spec fn fitted(num: nat, den: nat, e: int) -> (nat, nat, int)
    decreases
            if num >= den * HIGH {
                num - den * LOW
            } else if num < den * LOW {
                den * LOW - num
            } else {
                0
            },
    when num > 0 && den > 0
{
    if num >= den * HIGH {
        fitted(num, den * 2, e + 1)
    } else if num < den * LOW {
        fitted(num * 2, den, e - 1)
    } else {
        (num, den, e)
    }
}

/// The double-precision value nearest to `num / den`, as a significand and an
/// exponent.
pub open spec fn nearest(num: nat, den: nat) -> (nat, int) {
    if num == 0 {
        (0, 0)
    } else {
        let (n, d, e) = fitted(num, den, 0);
        (half_even(n, d), e)
    }
}

proof fn lemma_half_even_bounds(a: nat, b: nat, lo: nat, hi: nat)
    requires
        b > 0,
        lo * b <= a,
        a < hi * b,
    ensures
        lo <= half_even(a, b) <= hi,
{
    vstd::arithmetic::div_mod::lemma_fundamental_div_mod(a as int, b as int);
    let q = (a / b) as int;
    assert(lo <= q) by (nonlinear_arith)
        requires
            lo * b <= a,
            a == b * q + a % b,
            a % b < b,
            b > 0,
    ;
    assert(q < hi) by (nonlinear_arith)
        requires
            a < hi * b,
            a == b * q + a % b,
            a % b >= 0,
            b > 0,
    ;
}

/// `a / b` to the nearest integer, a tie going to the even one.
pub fn divide_half_even(a: u128, b: u128) -> (q: u128)
    requires
        0 < b < 0x4000_0000_0000_0000_0000_0000_0000_0000,
        a < 0x4000_0000_0000_0000_0000_0000_0000_0000,
    ensures
        q == half_even(a as nat, b as nat),
        q <= a / b + 1,
{
    let q: u128 = a / b;
    let r: u128 = a % b;
    if 2 * r < b || (2 * r == b && q % 2 == 0) {
        q
    } else {
        assert(q <= a) by (nonlinear_arith)
            requires
                q == a / b,
                b > 0,
        ;
        q + 1
    }
}

/// The double-precision value nearest to `num / den`.
pub fn round_ratio(num: u64, den: u64) -> (r: Scaled)
    requires
        den > 0,
    ensures
        (r.m as nat, r.e as int) == nearest(num as nat, den as nat),
        r.m <= HIGH,
        num > 0 ==> LOW <= r.m,
        num == 0 ==> r.m == 0,
        -117 <= r.e <= 55,
        num > 0 && r.e >= 0 ==> two_to(r.e as nat) * den * LOW <= num,
        num > 0 && r.e < 0 ==> den * LOW <= two_to((-r.e) as nat) * num < den * HIGH,
{
    round_wide(num as u128, den)
}

/// The double-precision value nearest to `num / den`, for a numerator that may
/// be the product of two significands.
pub fn round_wide(num: u128, den: u64) -> (r: Scaled)
    requires
        den > 0,
        num < 0x800_0000_0000_0000_0000_0000_0000,
    ensures
        (r.m as nat, r.e as int) == nearest(num as nat, den as nat),
        r.m <= HIGH,
        num > 0 ==> LOW <= r.m,
        num == 0 ==> r.m == 0,
        -117 <= r.e <= 55,
        num > 0 && r.e >= 0 ==> two_to(r.e as nat) * den * LOW <= num,
        num > 0 && r.e < 0 ==> den * LOW <= two_to((-r.e) as nat) * num < den * HIGH,
{
    if num == 0 {
        return Scaled { m: 0, e: 0 };
    }
    let mut n: u128 = num;
    let mut d: u128 = den as u128;
    let mut e: i32 = 0;
    assert(two_to(0) == 1);
    assert(two_to(e as nat) * den == d) by (nonlinear_arith)
        requires
            two_to(e as nat) == 1,
            den == d,
    ;
    while n >= d * HIGH
        invariant
            0 < n < 0x800_0000_0000_0000_0000_0000_0000,
            0 < d <= u64::MAX,
            0 <= e <= 55,
            e == 0 ==> d == den,
            e > 0 ==> d * LOW <= n,
            n == num,
            two_to(e as nat) * den == d,
            den > 0,
            fitted(num as nat, den as nat, 0) == fitted(n as nat, d as nat, e as int),
        decreases n - d,
    {
        proof {
            lemma_grown(e as nat, den as nat, d as nat, n as nat);
        }
        d = d * 2;
        e = e + 1;
        assert(two_to(e as nat) == 2 * two_to((e - 1) as nat));
        assert(two_to(e as nat) * den == d) by (nonlinear_arith)
            requires
                two_to(e as nat) == 2 * two_to((e - 1) as nat),
                two_to((e - 1) as nat) * den * 2 == d,
        ;
    }
    let ghost top = e;
    let ghost base = n;
    assert(n == two_to((top - e) as nat) * base) by (nonlinear_arith)
        requires
            two_to((top - e) as nat) == 1,
            n == base,
    ;
    while n < d * LOW
        invariant
            0 < n < d * HIGH,
            0 < d <= u64::MAX,
            e <= top <= 55,
            0 <= top,
            top > 0 ==> d * LOW <= n,
            base >= 1,
            base == num,
            top > 0 ==> e == top,
            top == 0 ==> d == den,
            two_to(top as nat) * den == d,
            n == two_to((top - e) as nat) * base,
            -117 <= e,
            fitted(num as nat, den as nat, 0) == fitted(n as nat, d as nat, e as int),
        decreases d * HIGH - n,
    {
        proof {
            lemma_shrunk((top - e) as nat, base as nat, n as nat, d as nat);
        }
        n = n * 2;
        e = e - 1;
        assert(two_to((top - e) as nat) == 2 * two_to((top - e - 1) as nat));
        assert(n == two_to((top - e) as nat) * base) by (nonlinear_arith)
            requires
                two_to((top - e) as nat) == 2 * two_to((top - e - 1) as nat),
                two_to((top - e - 1) as nat) * base * 2 == n,
        ;
    }
    proof {
        lemma_half_even_bounds(n as nat, d as nat, LOW as nat, HIGH as nat);
    }
    let m: u128 = divide_half_even(n, d);
    Scaled { m: m as u64, e }
}

proof fn lemma_grown(e: nat, den: nat, d: nat, n: nat)
    requires
        two_to(e) * den == d,
        d * HIGH <= n < 0x800_0000_0000_0000_0000_0000_0000,
        den > 0,
    ensures
        e < 55,
        d * 2 <= u64::MAX,
{
    if e >= 55 {
        lemma_two_to_monotonic(55, e);
        assert(two_to(55) == 0x80_0000_0000_0000) by {
            reveal_with_fuel(two_to, 31);
            assert(two_to(30) == 0x4000_0000);
        }
        assert(d >= 0x80_0000_0000_0000) by (nonlinear_arith)
            requires
                two_to(e) * den == d,
                two_to(e) >= 0x80_0000_0000_0000,
                den > 0,
        ;
    }
}

proof fn lemma_shrunk(k: nat, base: nat, n: nat, d: nat)
    requires
        n == two_to(k) * base,
        base >= 1,
        n < d * LOW,
        d <= u64::MAX,
    ensures
        k < 117,
{
    if k >= 117 {
        lemma_two_to_monotonic(117, k);
        assert(two_to(117) == 0x20_0000_0000_0000_0000_0000_0000_0000) by {
            reveal_with_fuel(two_to, 31);
            assert(two_to(30) == 0x4000_0000);
            assert(two_to(60) == 0x1000_0000_0000_0000);
            assert(two_to(90) == 0x400_0000_0000_0000_0000_0000);
        }
        assert(n >= two_to(k)) by (nonlinear_arith)
            requires
                n == two_to(k) * base,
                base >= 1,
        ;
    }
}


/// `m * 2^e` to the nearest integer, a tie going away from zero.
pub open spec fn half_away(m: nat, e: int) -> nat {
    if e >= 0 {
        m * two_to(e as nat)
    } else {
        let d = two_to((-e) as nat);
        (2 * m + d) / (2 * d)
    }
}

/// `100 * part / whole` as double-precision arithmetic computes it, to the
/// nearest integer.
pub open spec fn percentage(part: nat, whole: nat) -> nat {
    let (ma, ea) = nearest(part, 1);
    let (mb, eb) = nearest(whole, 1);
    let (mq, eq) = nearest(ma, mb);
    let (mp, ep) = nearest(mq * 100, 1);
    half_away(mp, ep + eq + ea - eb)
}

/// The closest 32-bit integer.
pub open spec fn clamp_i32(n: int) -> i32 {
    if n > i32::MAX {
        i32::MAX
    } else if n < i32::MIN {
        i32::MIN
    } else {
        n as i32
    }
}

/// The share `part / whole` in percent, where `whole` is positive.
pub open spec fn percent_spec(part: int, whole: int) -> i32 {
    if part >= 0 {
        clamp_i32(percentage(part as nat, whole as nat) as int)
    } else {
        clamp_i32(-(percentage((-part) as nat, whole as nat) as int))
    }
}

/// `2^k`.
pub fn power(k: u32) -> (p: u128)
    requires
        k <= 120,
    ensures
        p == two_to(k as nat),
        0 < p <= 0x100_0000_0000_0000_0000_0000_0000_0000,
{
    let mut p: u128 = 1;
    let mut i: u32 = 0;
    proof {
        lemma_two_to_120();
    }
    while i < k
        invariant
            i <= k <= 120,
            p == two_to(i as nat),
            two_to(120) == 0x100_0000_0000_0000_0000_0000_0000_0000,
        decreases k - i,
    {
        proof {
            lemma_two_to_monotonic((i + 1) as nat, 120);
        }
        p = p * 2;
        i = i + 1;
    }
    proof {
        lemma_two_to(k as nat);
        lemma_two_to_monotonic(k as nat, 120);
    }
    p
}

proof fn lemma_two_to_60()
    ensures
        two_to(30) == 0x4000_0000,
        two_to(60) == 0x1000_0000_0000_0000,
{
    reveal_with_fuel(two_to, 31);
    assert(two_to(30) == 0x4000_0000);
}

proof fn lemma_two_to_120()
    ensures
        two_to(120) == 0x100_0000_0000_0000_0000_0000_0000_0000,
{
    reveal_with_fuel(two_to, 31);
    assert(two_to(30) == 0x4000_0000);
    assert(two_to(60) == 0x1000_0000_0000_0000);
    assert(two_to(90) == 0x400_0000_0000_0000_0000_0000);
}

/// `m * 2^e` to the nearest integer, a tie going away from zero, and no more
/// than `2^52`.
fn round_half_away(m: u64, e: i32) -> (r: u64)
    requires
        m == 0 || LOW <= m <= HIGH,
        -1000 <= e <= 1000,
    ensures
        r == half_away(m as nat, e as int) || (r == LOW && half_away(m as nat, e as int) >= LOW),
{
    if m == 0 {
        proof {
            if e >= 0 {
                assert(half_away(0, e as int) == 0) by (nonlinear_arith)
                    requires
                        e >= 0,
                ;
            } else {
                let d = two_to((-e) as nat);
                lemma_two_to((-e) as nat);
                assert(d / (2 * d) == 0) by (nonlinear_arith)
                    requires
                        d > 0,
                ;
            }
        }
        return 0;
    }
    if e >= 0 {
        proof {
            lemma_two_to(e as nat);
            assert(m * two_to(e as nat) >= m) by (nonlinear_arith)
                requires
                    two_to(e as nat) >= 1,
                    m >= 0,
            ;
        }
        return LOW as u64;
    }
    let k: u32 = (-e) as u32;
    if k > 100 {
        proof {
            lemma_two_to_60();
            lemma_two_to_monotonic(60, k as nat);
            let d = two_to(k as nat);
            assert((2 * (m as nat) + d) / (2 * d) == 0) by (nonlinear_arith)
                requires
                    d >= 0x1000_0000_0000_0000,
                    m <= 0x20_0000_0000_0000,
            ;
        }
        return 0;
    }
    let d: u128 = power(k);
    let r: u128 = (2 * (m as u128) + d) / (2 * d);
    assert(r <= 2 * m as u128) by (nonlinear_arith)
        requires
            r == (2 * (m as u128) + d) / (2 * d),
            d >= 1,
            m >= 1,
    ;
    r as u64
}

/// The share `part / whole` in percent, as double-precision arithmetic gives
/// it.
pub fn percent_of(part: i64, whole: i64) -> (r: i32)
    requires
        whole > 0,
    ensures
        r == percent_spec(part as int, whole as int),
{
    let size: u64 = if part >= 0 {
        part as u64
    } else if part == i64::MIN {
        0x8000_0000_0000_0000u64
    } else {
        (-part) as u64
    };
    let a = round_ratio(size, 1);
    let b = round_ratio(whole as u64, 1);
    let q = round_ratio(a.m, b.m);
    let p = round_ratio(q.m * 100, 1);
    let n: u64 = round_half_away(p.m, p.e + q.e + a.e - b.e);
    if part >= 0 {
        if n > 0x7fff_ffff {
            i32::MAX
        } else {
            n as i32
        }
    } else if n > 0x8000_0000 {
        i32::MIN
    } else {
        (-(n as i64)) as i32
    }
}

/// `n / unit` as double-precision arithmetic computes it.
pub open spec fn quotient(n: nat, unit: nat) -> (nat, int) {
    let (ma, ea) = nearest(n, 1);
    let (mq, eq) = nearest(ma, unit);
    (mq, eq + ea)
}

/// `m * 2^e` is less than `limit`.
pub open spec fn value_below(v: (nat, int), limit: nat) -> bool {
    if v.1 >= 0 {
        v.0 * two_to(v.1 as nat) < limit
    } else {
        v.0 < limit * two_to((-v.1) as nat)
    }
}

/// `m * 2^e`, for a negative `e`, counted in `parts` per unit and rounded to the
/// nearest, a tie going to the even one.
pub open spec fn in_parts(v: (nat, int), parts: nat) -> nat {
    half_even(v.0 * parts, two_to((-v.1) as nat))
}

/// A value with no decimals.
pub open spec fn fixed_0(v: (nat, int)) -> Seq<char> {
    decimal(in_parts(v, 1))
}

/// A value with one decimal.
pub open spec fn fixed_1(v: (nat, int)) -> Seq<char> {
    let t = in_parts(v, 10);
    decimal(t / 10) + seq!['.'] + seq![digit_char((t % 10) as int)]
}

/// A number of units to one decimal, or to none once it reaches ten.
pub open spec fn short_quotient(n: nat, unit: nat) -> Seq<char> {
    let v = quotient(n, unit);
    if value_below(v, 10) {
        fixed_1(v)
    } else {
        fixed_0(v)
    }
}


/// `n / unit`, for a quotient that is not large.
fn divide_units(n: u64, unit: u64) -> (v: Scaled)
    requires
        1 <= n,
        1000 <= unit <= 0x4000_0000,
        n < unit * 0x4_0000_0000,
    ensures
        (v.m as nat, v.e as int) == quotient(n as nat, unit as nat),
        LOW <= v.m <= HIGH,
        -118 <= v.e < 0,
{
    let a = round_ratio(n, 1);
    let q = round_ratio(a.m, unit);
    proof {
        if q.e >= 0 {
            lemma_two_to(q.e as nat);
            assert(two_to(q.e as nat) * unit >= unit) by (nonlinear_arith)
                requires
                    two_to(q.e as nat) >= 1,
            ;
        }
        if a.e > 0 && q.e + a.e >= 0 {
            lemma_two_to_monotonic((-q.e) as nat, a.e as nat);
            let x = two_to(a.e as nat);
            let y = two_to((-q.e) as nat);
            assert(x * 1 * LOW == x * LOW);
            assert(y * a.m <= y * HIGH) by (nonlinear_arith)
                requires
                    a.m <= HIGH,
                    y >= 0,
            ;
            assert(false);
        }
        if q.e < -40 {
            lemma_two_to_60();
            lemma_two_to_monotonic(30, (-q.e) as nat);
            reveal_with_fuel(two_to, 11);
            lemma_two_to_monotonic(40, (-q.e) as nat);
            let y = two_to((-q.e) as nat);
            assert(y * a.m >= y * LOW) by (nonlinear_arith)
                requires
                    a.m >= LOW,
                    y >= 0,
            ;
            assert(false);
        }
        if a.e < -60 {
            lemma_two_to_60();
            lemma_two_to_monotonic(60, (-a.e) as nat);
            let x = two_to((-a.e) as nat);
            assert(x * n >= x) by (nonlinear_arith)
                requires
                    n >= 1,
                    x >= 0,
            ;
            assert(false);
        }
    }
    Scaled { m: q.m, e: q.e + a.e }
}

/// A value with no decimals.
fn text_0(v: &Scaled) -> (s: String)
    requires
        v.m <= HIGH,
        -118 <= v.e < 0,
    ensures
        s@ == fixed_0((v.m as nat, v.e as int)),
{
    let d: u128 = power((-v.e) as u32);
    let t: u128 = divide_half_even(v.m as u128, d);
    proof {
        lemma_quotient_at_most(v.m as nat, d as nat);
    }
    nat_text(t as u64)
}

/// A value with one decimal.
fn text_1(v: &Scaled) -> (s: String)
    requires
        v.m <= HIGH,
        -118 <= v.e < 0,
    ensures
        s@ == fixed_1((v.m as nat, v.e as int)),
{
    let d: u128 = power((-v.e) as u32);
    let t: u128 = divide_half_even(v.m as u128 * 10, d);
    proof {
        lemma_quotient_at_most((v.m * 10) as nat, d as nat);
    }
    let t: u64 = t as u64;
    let mut s = nat_text(t / 10);
    s.push('.');
    s.push(digit((t % 10) as u8));
    assert(s@ =~= fixed_1((v.m as nat, v.e as int)));
    s
}

proof fn lemma_quotient_at_most(a: nat, b: nat)
    requires
        b > 0,
    ensures
        a / b <= a,
{
    assert(a / b <= a) by (nonlinear_arith)
        requires
            b > 0,
    ;
}

/// A number of units to one decimal.
pub fn one_decimal(n: u64, unit: u64) -> (s: String)
    requires
        1 <= n,
        1000 <= unit <= 0x4000_0000,
        n < unit * 0x4_0000_0000,
    ensures
        s@ == fixed_1(quotient(n as nat, unit as nat)),
{
    text_1(&divide_units(n, unit))
}

/// A number of units to one decimal, or to none once it reaches ten.
pub fn short_decimal(n: u64, unit: u64) -> (s: String)
    requires
        1 <= n,
        1000 <= unit <= 0x4000_0000,
        n < unit * 0x4_0000_0000,
    ensures
        s@ == short_quotient(n as nat, unit as nat),
{
    let v = divide_units(n, unit);
    let d: u128 = power((-v.e) as u32);
    if (v.m as u128) < 10 * d {
        text_1(&v)
    } else {
        text_0(&v)
    }
}


/// `a / b` as double-precision arithmetic computes it.
pub open spec fn over(a: (nat, int), b: (nat, int)) -> (nat, int) {
    let (m, e) = nearest(a.0, b.0);
    (m, e + a.1 - b.1)
}

/// `a * b` as double-precision arithmetic computes it.
pub open spec fn times(a: (nat, int), b: (nat, int)) -> (nat, int) {
    let (m, e) = nearest(a.0 * b.0, 1);
    (m, e + a.1 + b.1)
}

/// The whole part of a value.
pub open spec fn whole(v: (nat, int)) -> nat {
    if v.1 >= 0 {
        v.0 * two_to(v.1 as nat)
    } else {
        v.0 / two_to((-v.1) as nat)
    }
}

pub open spec fn scaled_view(s: Scaled) -> (nat, int) {
    (s.m as nat, s.e as int)
}

/// `a / b`.
pub fn divide(a: &Scaled, b: &Scaled) -> (r: Scaled)
    requires
        a.m <= HIGH,
        0 < b.m <= HIGH,
        -10_000 <= a.e <= 10_000,
        -10_000 <= b.e <= 10_000,
    ensures
        scaled_view(r) == over(scaled_view(*a), scaled_view(*b)),
        r.m == 0 || LOW <= r.m <= HIGH,
        a.m > 0 ==> r.m > 0,
        -20_200 <= r.e <= 20_100,
        a.e - b.e - 117 <= r.e <= a.e - b.e + 55,
{
    let q = round_ratio(a.m, b.m);
    Scaled { m: q.m, e: q.e + a.e - b.e }
}

/// `a * b`.
pub fn multiply(a: &Scaled, b: &Scaled) -> (r: Scaled)
    requires
        a.m <= HIGH,
        b.m <= HIGH,
        -10_000 <= a.e <= 10_000,
        -10_000 <= b.e <= 10_000,
    ensures
        scaled_view(r) == times(scaled_view(*a), scaled_view(*b)),
        r.m == 0 || LOW <= r.m <= HIGH,
        -20_200 <= r.e <= 20_100,
{
    assert(a.m * b.m <= 0x400_0000_0000_0000_0000_0000_0000) by (nonlinear_arith)
        requires
            a.m <= 0x20_0000_0000_0000,
            b.m <= 0x20_0000_0000_0000,
    ;
    let q = round_wide((a.m as u128) * (b.m as u128), 1);
    Scaled { m: q.m, e: q.e + a.e + b.e }
}

/// Whether a value is less than one.
pub fn below_one(v: &Scaled) -> (r: bool)
    requires
        v.m == 0 || LOW <= v.m <= HIGH,
        -10_000 <= v.e <= 10_000,
    ensures
        r == value_below(scaled_view(*v), 1),
{
    if v.m == 0 {
        proof {
            if v.e >= 0 {
                assert(0 * two_to(v.e as nat) == 0);
            } else {
                lemma_two_to((-v.e) as nat);
            }
        }
        return true;
    }
    if v.e >= 0 {
        proof {
            lemma_two_to(v.e as nat);
            assert(v.m * two_to(v.e as nat) >= v.m) by (nonlinear_arith)
                requires
                    two_to(v.e as nat) >= 1,
                    v.m >= 0,
            ;
        }
        return false;
    }
    if v.e < -60 {
        proof {
            lemma_two_to_60();
            lemma_two_to_monotonic(60, (-v.e) as nat);
        }
        return true;
    }
    (v.m as u128) < power((-v.e) as u32)
}

/// The whole part of a value, or the largest 64-bit number where it does not fit.
pub fn truncate(v: &Scaled) -> (r: u64)
    requires
        v.m == 0 || LOW <= v.m <= HIGH,
        -100_000 <= v.e <= 100_000,
    ensures
        r == whole(scaled_view(*v)) || (r == u64::MAX && whole(scaled_view(*v)) > u64::MAX),
{
    if v.m == 0 {
        proof {
            if v.e >= 0 {
                assert(0 * two_to(v.e as nat) == 0);
            } else {
                lemma_two_to((-v.e) as nat);
                assert(0nat / two_to((-v.e) as nat) == 0) by (nonlinear_arith)
                    requires
                        two_to((-v.e) as nat) > 0,
                ;
            }
        }
        return 0;
    }
    if v.e >= 0 {
        if v.e > 60 {
            proof {
                lemma_two_to_60();
                lemma_two_to_monotonic(60, v.e as nat);
                let p = two_to(v.e as nat);
                assert(v.m * p >= 0x10_0000_0000_0000 * 0x1000_0000_0000_0000) by (nonlinear_arith)
                    requires
                        v.m >= 0x10_0000_0000_0000,
                        p >= 0x1000_0000_0000_0000,
                ;
            }
            return u64::MAX;
        }
        proof {
            lemma_two_to_60();
            lemma_two_to_monotonic(v.e as nat, 60);
            let p = two_to(v.e as nat);
            assert(v.m * p <= 0x20_0000_0000_0000 * 0x1000_0000_0000_0000) by (nonlinear_arith)
                requires
                    v.m <= 0x20_0000_0000_0000,
                    p <= 0x1000_0000_0000_0000,
            ;
        }
        let p: u128 = power(v.e as u32);
        let n: u128 = (v.m as u128) * p;
        if n > u64::MAX as u128 {
            u64::MAX
        } else {
            n as u64
        }
    } else if v.e < -100 {
        proof {
            lemma_two_to_60();
            lemma_two_to_monotonic(60, (-v.e) as nat);
            let p = two_to((-v.e) as nat);
            assert((v.m as nat) / p == 0) by (nonlinear_arith)
                requires
                    v.m <= 0x20_0000_0000_0000,
                    p >= 0x1000_0000_0000_0000,
            ;
        }
        0
    } else {
        let p: u128 = power((-v.e) as u32);
        proof {
            lemma_quotient_at_most(v.m as nat, p as nat);
        }
        ((v.m as u128) / p) as u64
    }
}

proof fn lemma_two_to_adds(a: nat, b: nat)
    ensures
        two_to(a + b) == two_to(a) * two_to(b),
    decreases b,
{
    if b > 0 {
        lemma_two_to_adds(a, (b - 1) as nat);
        assert(two_to(a + b) == 2 * two_to((a + b - 1) as nat));
        let x = two_to(a);
        let y = two_to((b - 1) as nat);
        assert(2 * (x * y) == x * (2 * y)) by (nonlinear_arith);
    } else {
        assert(two_to(a) * 1 == two_to(a));
    }
}

/// Where the scaling of a number ends that is large enough for no smaller
/// exponent.
proof fn lemma_fitted_up(n: nat, a: nat)
    requires
        n > 0,
        two_to(a) * LOW <= n,
    ensures
        ({
            let (m, d, e) = fitted(n, two_to(a), a as int);
            e >= a && m == n && d == two_to(e as nat) && d * LOW <= n < d * HIGH
        }),
    decreases n - two_to(a),
{
    lemma_two_to(a);
    if n >= two_to(a) * HIGH {
        assert(two_to(a + 1) == two_to(a) * 2);
        lemma_fitted_up(n, a + 1);
    }
}

/// Where the scaling of a number ends that is small enough for no larger
/// exponent.
proof fn lemma_fitted_down(n: nat, b: nat)
    requires
        n > 0,
        n * two_to(b) < HIGH,
    ensures
        ({
            let (m, d, e) = fitted(n * two_to(b), 1, -(b as int));
            e <= -b && d == 1 && m == n * two_to((-e) as nat) && LOW <= m < HIGH
        }),
    decreases HIGH - n * two_to(b),
{
    let x = n * two_to(b);
    lemma_two_to(b);
    assert(x > 0) by (nonlinear_arith)
        requires
            x == n * two_to(b),
            n > 0,
            two_to(b) > 0,
    ;
    if x < LOW {
        assert(n * two_to(b + 1) == x * 2) by (nonlinear_arith)
            requires
                two_to(b + 1) == 2 * two_to(b),
                x == n * two_to(b),
        ;
        lemma_fitted_down(n, b + 1);
    }
}

/// Rounding does not depend on the unit.
proof fn lemma_half_even_scales(a: nat, b: nat, c: nat)
    requires
        b > 0,
        c > 0,
    ensures
        half_even(a * c, b * c) == half_even(a, b),
{
    let q = (a / b) as int;
    let r = (a % b) as int;
    vstd::arithmetic::div_mod::lemma_fundamental_div_mod(a as int, b as int);
    assert(a * c == q * (b * c) + r * c) by (nonlinear_arith)
        requires
            a == b * q + r,
    ;
    assert(0 <= r * c < b * c) by (nonlinear_arith)
        requires
            0 <= r < b,
            c > 0,
    ;
    vstd::arithmetic::div_mod::lemma_fundamental_div_mod_converse(
        (a * c) as int,
        (b * c) as int,
        q,
        r * c,
    );
    assert((2 * r < b) == (2 * (r * c) < b * c)) by (nonlinear_arith)
        requires
            c > 0,
    ;
    assert((2 * r == b) == (2 * (r * c) == b * c)) by (nonlinear_arith)
        requires
            c > 0,
    ;
}

/// The nearest value, in a unit `2^-k` that is small enough: the number is moved
/// by `s` powers of two, and so is the value.
proof fn lemma_nearest_in_units(n: nat, s: int, k: int)
    requires
        n > 0,
        k + s >= 0,
        k + s + nearest(n, 1).1 >= 0,
    ensures
        ({
            let (m, e) = nearest(n, 1);
            let d = two_to((k + s + e) as nat);
            let x = n * two_to((k + s) as nat);
            d * LOW <= x < d * HIGH && m == half_even(x, d)
        }),
{
    let (m, e) = nearest(n, 1);
    assert(two_to(0) == 1);
    let x = n * two_to((k + s) as nat);
    let d = two_to((k + s + e) as nat);
    if n >= LOW {
        lemma_fitted_up(n, 0);
        let c = two_to((k + s) as nat);
        let p = two_to(e as nat);
        lemma_two_to((k + s) as nat);
        lemma_two_to(e as nat);
        lemma_two_to_adds(e as nat, (k + s) as nat);
        assert(d == p * c);
        assert(d * LOW <= x < d * HIGH) by (nonlinear_arith)
            requires
                p * LOW <= n < p * HIGH,
                x == n * c,
                d == p * c,
                c > 0,
        ;
        lemma_half_even_scales(n, p, c);
    } else {
        assert(n * two_to(0) == n);
        lemma_fitted_down(n, 0);
        let c = two_to((k + s + e) as nat);
        let p = two_to((-e) as nat);
        lemma_two_to((k + s + e) as nat);
        lemma_two_to_adds((-e) as nat, (k + s + e) as nat);
        assert(two_to((k + s) as nat) == p * c);
        let y = n * p;
        assert(x == y * c) by (nonlinear_arith)
            requires
                x == n * (p * c),
                y == n * p,
        ;
        assert(d * LOW <= x < d * HIGH) by (nonlinear_arith)
            requires
                LOW <= y < HIGH,
                x == y * c,
                d == c,
                c > 0,
        ;
        lemma_half_even_scales(y, 1, c);
        assert(1 * c == c);
    }
}

/// Rounding to 53 bits keeps the order.
proof fn lemma_rounding_keeps_order(x: nat, a: nat, y: nat, b: nat)
    requires
        two_to(a) * LOW <= x < two_to(a) * HIGH,
        two_to(b) * LOW <= y < two_to(b) * HIGH,
        x <= y,
    ensures
        half_even(x, two_to(a)) * two_to(a) <= half_even(y, two_to(b)) * two_to(b),
{
    let p = two_to(a);
    let q = two_to(b);
    lemma_two_to(a);
    lemma_two_to(b);
    if a == b {
        vstd::arithmetic::div_mod::lemma_fundamental_div_mod(x as int, p as int);
        vstd::arithmetic::div_mod::lemma_fundamental_div_mod(y as int, p as int);
        vstd::arithmetic::div_mod::lemma_div_is_ordered(x as int, y as int, p as int);
        assert(half_even(x, p) <= half_even(y, p)) by {
            if x / p == y / p {
                assert(x % p <= y % p);
            }
        }
        vstd::arithmetic::mul::lemma_mul_inequality(
            half_even(x, p) as int,
            half_even(y, p) as int,
            p as int,
        );
    } else {
        if b < a {
            lemma_two_to_monotonic(b + 1, a);
            assert(two_to(b + 1) == 2 * q);
            assert(false);
        }
        lemma_two_to_monotonic(a + 1, b);
        assert(two_to(a + 1) == 2 * p);
        lemma_half_even_bounds(x, p, LOW as nat, HIGH as nat);
        lemma_half_even_bounds(y, q, LOW as nat, HIGH as nat);
        let u = half_even(x, p);
        let v = half_even(y, q);
        assert(u * p <= v * q) by (nonlinear_arith)
            requires
                u <= HIGH,
                v >= LOW,
                2 * p <= q,
                HIGH == 2 * LOW,
                p > 0,
        ;
    }
}

/// The whole part, from the value in a unit `2^-k` that is small enough.
proof fn lemma_whole_in_units(v: (nat, int), k: nat)
    requires
        v.1 + k >= 0,
    ensures
        whole(v) == v.0 * two_to((v.1 + k) as nat) / two_to(k),
{
    lemma_two_to(k);
    if v.1 >= 0 {
        lemma_two_to_adds(v.1 as nat, k);
        let w = v.0 * two_to(v.1 as nat);
        let c = two_to(k);
        assert(v.0 * two_to((v.1 + k) as nat) == w * c) by (nonlinear_arith)
            requires
                two_to((v.1 + k) as nat) == two_to(v.1 as nat) * c,
                w == v.0 * two_to(v.1 as nat),
        ;
        vstd::arithmetic::div_mod::lemma_div_multiples_vanish(w as int, c as int);
        assert(w * c == c * w) by (nonlinear_arith);
    } else {
        let d = two_to((-v.1) as nat);
        let c = two_to((v.1 + k) as nat);
        lemma_two_to((-v.1) as nat);
        lemma_two_to((v.1 + k) as nat);
        lemma_two_to_adds((-v.1) as nat, (v.1 + k) as nat);
        vstd::arithmetic::div_mod::lemma_truncate_middle(v.0 as int, c as int, d as int);
        vstd::arithmetic::div_mod::lemma_div_denominator((v.0 * c) as int, c as int, d as int);
        vstd::arithmetic::div_mod::lemma_div_multiples_vanish(v.0 as int, c as int);
        assert(c * v.0 == v.0 * c) by (nonlinear_arith);
        assert(c * d == two_to(k)) by (nonlinear_arith)
            requires
                two_to(k) == d * c,
        ;
    }
}

/// The whole part of a product with a fixed value grows with the number that is
/// multiplied.
pub proof fn lemma_products_keep_order(i: nat, j: nat, w: (nat, int))
    requires
        i <= j,
        w.0 > 0,
    ensures
        whole(times(nearest(i, 1), w)) <= whole(times(nearest(j, 1), w)),
{
    if i == 0 {
        let v = times(nearest(0, 1), w);
        assert(0 * w.0 == 0);
        assert(v.0 == 0);
        if v.1 >= 0 {
            assert(0 * two_to(v.1 as nat) == 0);
        } else {
            lemma_two_to((-v.1) as nat);
            assert(0nat / two_to((-v.1) as nat) == 0) by (nonlinear_arith)
                requires
                    two_to((-v.1) as nat) > 0,
            ;
        }
    } else {
        let (mi, ei) = nearest(i, 1);
        let (mj, ej) = nearest(j, 1);
        lemma_nearest_positive(i);
        lemma_nearest_positive(j);
        let (a, b) = (mi * w.0, mj * w.0);
        assert(a > 0 && b > 0) by (nonlinear_arith)
            requires
                a == mi * w.0,
                b == mj * w.0,
                mi > 0,
                mj > 0,
                w.0 > 0,
        ;
        let (ma, ea) = nearest(a, 1);
        let (mb, eb) = nearest(b, 1);
        let k: int = size(ei) + size(ej) + size(ea) + size(eb) + size(w.1);
        lemma_nearest_in_units(i, 0, k);
        lemma_nearest_in_units(j, 0, k);
        let c = two_to(k as nat);
        assert(i * c <= j * c) by (nonlinear_arith)
            requires
                i <= j,
        ;
        lemma_rounding_keeps_order(i * c, (k + ei) as nat, j * c, (k + ej) as nat);

        let si = ei + w.1;
        let sj = ej + w.1;
        lemma_nearest_in_units(a, si, 2 * k);
        lemma_nearest_in_units(b, sj, 2 * k);
        let f = w.0 * two_to((k + w.1) as nat);
        lemma_two_to_adds((k + ei) as nat, (k + w.1) as nat);
        lemma_two_to_adds((k + ej) as nat, (k + w.1) as nat);
        let pi = two_to((k + ei) as nat);
        let pj = two_to((k + ej) as nat);
        let g = two_to((k + w.1) as nat);
        let x = a * two_to((2 * k + si) as nat);
        let y = b * two_to((2 * k + sj) as nat);
        assert(x == (mi * pi) * f) by (nonlinear_arith)
            requires
                x == (mi * w.0) * (pi * g),
                f == w.0 * g,
        ;
        assert(y == (mj * pj) * f) by (nonlinear_arith)
            requires
                y == (mj * w.0) * (pj * g),
                f == w.0 * g,
        ;
        assert(x <= y) by (nonlinear_arith)
            requires
                x == (mi * pi) * f,
                y == (mj * pj) * f,
                mi * pi <= mj * pj,
                f >= 0,
        ;
        lemma_rounding_keeps_order(x, (2 * k + si + ea) as nat, y, (2 * k + sj + eb) as nat);
        let u = times((mi, ei), w);
        let v = times((mj, ej), w);
        assert(u == (ma, ea + si) && v == (mb, eb + sj));
        lemma_whole_in_units(u, (2 * k) as nat);
        lemma_whole_in_units(v, (2 * k) as nat);
        lemma_two_to((2 * k) as nat);
        vstd::arithmetic::div_mod::lemma_div_is_ordered(
            (u.0 * two_to((u.1 + 2 * k) as nat)) as int,
            (v.0 * two_to((v.1 + 2 * k) as nat)) as int,
            two_to((2 * k) as nat) as int,
        );
    }
}

spec fn size(e: int) -> int {
    if e < 0 {
        -e
    } else {
        e
    }
}

/// What is not zero is not rounded to zero.
pub proof fn lemma_nearest_positive(n: nat)
    requires
        n > 0,
    ensures
        nearest(n, 1).0 >= LOW,
{
    let (m, e) = nearest(n, 1);
    let k = size(e);
    lemma_nearest_in_units(n, 0, k);
    let d = two_to((k + e) as nat);
    lemma_two_to((k + e) as nat);
    let x = n * two_to(k as nat);
    lemma_half_even_bounds(x, d, LOW as nat, HIGH as nat);
}

/// Rounding to the even neighbour: the result is a nearest integer, and of two that are
/// as near it is the even one.
pub proof fn law_half_even_rounds(a: nat, b: nat)
    requires
        b > 0,
    ensures
        ({
            let q = half_even(a, b) as int;
            &&& 2 * a - b <= 2 * (q * b) <= 2 * a + b
            &&& (2 * (q * b) == 2 * a + b || 2 * (q * b) == 2 * a - b) ==> q % 2 == 0
        }),
{
    let q = (a / b) as int;
    let r = (a % b) as int;
    assert(a == q * b + r && 0 <= r < b) by (nonlinear_arith)
        requires
            b > 0,
            q == (a / b) as int,
            r == (a % b) as int,
    ;
    assert((q + 1) * b == q * b + b) by (nonlinear_arith);
}

/// Rounding away from zero: the result is a nearest integer, and of two that are as
/// near it is the larger one.
pub proof fn law_half_away_rounds(m: nat, k: nat)
    ensures
        ({
            let d = two_to(k) as int;
            let q = half_away(m, -(k as int)) as int;
            2 * m - d < 2 * (q * d) <= 2 * m + d
        }),
{
    lemma_two_to(k);
    let d = two_to(k) as int;
    if k > 0 {
        let n = 2 * m + d;
        let q = n / (2 * d);
        assert(q * (2 * d) <= n < (q + 1) * (2 * d)) by (nonlinear_arith)
            requires
                d > 0,
                q == n / (2 * d),
        ;
        assert(q * (2 * d) == 2 * (q * d)) by (nonlinear_arith);
        assert((q + 1) * (2 * d) == 2 * (q * d) + 2 * d) by (nonlinear_arith);
    } else {
        assert(d == 1);
        assert(half_away(m, 0) == m * two_to(0));
    }
}

proof fn lemma_fitted_one(m: nat, k: nat)
    requires
        m > 0,
        k <= 52,
    ensures
        fitted(m * two_to(k), m, -(k as int)) == (m * two_to(52), m, -52int),
    decreases 52 - k,
{
    lemma_two_to(k);
    lemma_two_to_52();
    assert(m * two_to(k) > 0) by (nonlinear_arith)
        requires
            m > 0,
            two_to(k) > 0,
    ;
    lemma_two_to_monotonic(k, 52);
    assert(m * two_to(k) <= m * two_to(52)) by (nonlinear_arith)
        requires
            two_to(k) <= two_to(52),
    ;
    assert(m * LOW == m * two_to(52));
    assert(m * HIGH == 2 * (m * LOW)) by (nonlinear_arith)
        requires
            HIGH == 2 * LOW,
    ;
    assert(m * LOW > 0) by (nonlinear_arith)
        requires
            m > 0,
            LOW > 0,
    ;
    if k < 52 {
        lemma_two_to_monotonic(k + 1, 52);
        assert(two_to(k + 1) == 2 * two_to(k));
        assert(m * two_to(k) * 2 == m * two_to(k + 1)) by (nonlinear_arith)
            requires
                two_to(k + 1) == 2 * two_to(k),
        ;
        assert(m * two_to(k) < m * LOW) by (nonlinear_arith)
            requires
                2 * two_to(k) <= LOW,
                two_to(k) > 0,
                m > 0,
        ;
        lemma_fitted_one(m, k + 1);
    }
}

proof fn lemma_two_to_52()
    ensures
        two_to(46) == 0x4000_0000_0000,
        two_to(52) == LOW,
        HIGH == 2 * LOW,
{
    lemma_two_to_60();
    reveal_with_fuel(two_to, 17);
    assert(two_to(30) == 0x4000_0000);
    assert(two_to(46) == 65536 * two_to(30));
    assert(two_to(52) == 64 * two_to(46));
}

proof fn lemma_hundred()
    ensures
        nearest(LOW as nat * 100, 1) == (100nat * 0x4000_0000_0000, 6int),
{
    let n = LOW as nat * 100;
    reveal_with_fuel(fitted, 8);
    assert(fitted(n, 1, 0) == (n, 64nat, 6int));
    assert(n == 64 * (100nat * 0x4000_0000_0000));
    assert(n / 64 == 100nat * 0x4000_0000_0000);
    assert(n % 64 == 0);
}

/// The ends of the scale are exact: no votes in favour are nothing, and all of them are
/// a hundred percent. More than none and fewer than all is computed in between as
/// double-precision arithmetic has it.
pub proof fn law_percentages_at_the_ends(whole: nat)
    requires
        whole > 0,
    ensures
        percentage(0, whole) == 0,
        percentage(whole, whole) == 100,
        percent_spec(0, whole as int) == 0,
        percent_spec(whole as int, whole as int) == 100,
        percent_spec(-whole, whole as int) == -100,
{
    let (m, e) = nearest(whole, 1);
    lemma_nearest_positive(whole);
    lemma_two_to_52();
    assert(two_to(0) == 1);
    assert(m * two_to(0) == m) by (nonlinear_arith)
        requires
            two_to(0) == 1,
    ;
    lemma_fitted_one(m, 0);
    let n = m * two_to(52);
    assert(n / m == two_to(52) && n % m == 0) by (nonlinear_arith)
        requires
            m > 0,
            n == m * two_to(52),
    ;
    assert(half_even(n, m) == LOW);
    assert(nearest(m, m) == (LOW as nat, -52int));
    lemma_hundred();
    let d = two_to(46);
    let p = 100nat * 0x4000_0000_0000;
    assert(half_away(p, -46) == (2 * p + d) / (2 * d));
    assert(d == 0x4000_0000_0000nat);
    assert((2 * p + d) / (2 * d) == 100) by (nonlinear_arith)
        requires
            d == 0x4000_0000_0000nat,
            p == 100 * d,
    ;
    assert(half_away(p, -46) == 100);
    assert(nearest(0, 1) == (0nat, 0int));
    let (ma, ea) = nearest(0, 1);
    let (mq, eq) = nearest(ma, m);
    assert(mq == 0 && eq == 0);
    let (mp, ep) = nearest(0, 1);
    lemma_half_away_zero(ep + eq + ea - e);
}

proof fn lemma_half_away_zero(e: int)
    ensures
        half_away(0, e) == 0,
{
    if e < 0 {
        let d = two_to((-e) as nat);
        lemma_two_to((-e) as nat);
        assert((2 * 0 + d) / (2 * d) == 0) by (nonlinear_arith)
            requires
                d > 0,
        ;
    } else {
        assert(0 * two_to(e as nat) == 0) by (nonlinear_arith);
    }
}

} // verus!
