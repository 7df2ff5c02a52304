//! Rounding to nearest, ties to even, and what is shown by means of it: sizes
//! in bytes and the progress of a removal. Both are computed on binary
//! fractions with a limited number of significant bits.

use crate::text;
use crate::text::to_decimal;
use vstd::arithmetic::power2;
use vstd::prelude::*;
use vstd::string::StringExecFns;

verus! {

/// Sizes are computed with 53 significant bits: as multiples, fewer than this,
/// of a power of two.
pub const SIZE_LIMIT: u128 = 0x20_0000_0000_0000;

/// Progress is computed with 24 significant bits.
pub const PROGRESS_LIMIT: u128 = 0x100_0000;

/// `a / b` rounded to the nearest whole number, a tie to the even one.
pub open spec fn round_half_even(a: nat, b: nat) -> nat {
    let q = a / b;
    let r = a % b;
    if 2 * r < b {
        q
    } else if 2 * r > b {
        q + 1
    } else {
        q + q % 2
    }
}

/// The least power of two of which `v` holds less than `limit`.
pub open spec fn unit(v: nat, limit: nat) -> nat
    decreases v,
{
    if v < limit || v < 2 {
        1
    } else {
        2 * unit(v / 2, limit)
    }
}

/// `v` rounded to a multiple of the least power of two of which it holds less
/// than `limit`: to as many significant bits as `limit` has zeros.
pub open spec fn round_bits(v: nat, limit: nat) -> nat {
    round_half_even(v, unit(v, limit)) * unit(v, limit)
}

/// The least power of two by which `a` has to be multiplied to reach `b`.
pub open spec fn scale(a: nat, b: nat) -> nat
    decreases (if a < b { b - a } else { 0 }),
{
    if a == 0 || a >= b {
        1
    } else {
        2 * scale(2 * a, b)
    }
}

fn half_even(a: u128, b: u128) -> (r: u128)
    requires
        0 < b,
        a < u128::MAX,
    ensures
        r == round_half_even(a as nat, b as nat),
        r <= a / b + 1,
{
    let q: u128 = a / b;
    let m: u128 = a % b;
    assert(a / b <= a) by (nonlinear_arith)
        requires
            0 < b,
    ;
    if m < b - m {
        q
    } else if m > b - m {
        q + 1
    } else {
        q + q % 2
    }
}

fn unit_of(v: u128, limit: u128) -> (r: u128)
    ensures
        r == unit(v as nat, limit as nat),
        1 <= r,
        r == 1 || r <= v,
    decreases v,
{
    if v < limit || v < 2 {
        1
    } else {
        2 * unit_of(v / 2, limit)
    }
}

fn rounded(v: u128, limit: u128) -> (r: u128)
    requires
        v < 0x1_0000_0000_0000_0000_0000_0000_0000,
    ensures
        r == round_bits(v as nat, limit as nat),
        r <= 2 * v,
{
    let u: u128 = unit_of(v, limit);
    let q: u128 = half_even(v, u);
    proof {
        if u == 1 {
            assert(v / u == v && v % u == 0) by (nonlinear_arith)
                requires
                    u == 1,
            ;
            assert(q * u == v) by (nonlinear_arith)
                requires
                    u == 1,
                    q == v,
            ;
        } else {
            assert(q * u <= 2 * v) by (nonlinear_arith)
                requires
                    q <= v / u + 1,
                    1 < u <= v,
            ;
        }
    }
    q * u
}

fn scale_of(a: u128, b: u128) -> (r: u128)
    requires
        b < 0x1_0000_0000_0000_0000_0000_0000_0000,
    ensures
        r == scale(a as nat, b as nat),
        1 <= r,
        r == 1 || r * a < 2 * b,
    decreases (if a < b { b - a } else { 0 }),
{
    if a == 0 || a >= b {
        1
    } else {
        let s: u128 = scale_of(2 * a, b);
        assert(s * (2 * a) == (2 * s) * a) by (nonlinear_arith);
        assert(s == 1 || s <= 2 * b) by (nonlinear_arith)
            requires
                s == 1 || s * (2 * a) < 2 * b,
                0 < a,
        ;
        2 * s
    }
}

/// How far a removal is that has come to the package `i` of `n`, out of ninety.
/// The quotient of the two, each rounded to the significant bits, is rounded to
/// them, and so is its product with ninety, of which the whole part counts.
pub open spec fn progress_percent(i: nat, n: nat) -> nat {
    let limit = PROGRESS_LIMIT as nat;
    let a = round_bits(i, limit);
    let b = round_bits(n, limit);
    let s = scale(a, b * (limit / 2));
    let quotient = round_half_even(a * s, b);
    round_bits(quotient * 90, limit) / s
}

/// How far a removal is that has come to the package `i` of `n`, out of ninety.
pub fn percent(i: usize, n: usize) -> (r: u8)
    requires
        i < n,
    ensures
        r == progress_percent(i as nat, n as nat),
        r <= 90,
{
    let a: u128 = rounded(i as u128, PROGRESS_LIMIT);
    let b: u128 = rounded(n as u128, PROGRESS_LIMIT);
    proof {
        lemma_progress(i as nat, n as nat);
    }
    let s: u128 = scale_of(a, b * 0x80_0000);
    assert(s * a == a * s) by (nonlinear_arith);
    let quotient: u128 = half_even(a * s, b);
    assert(a * s / b as int <= a * s) by (nonlinear_arith)
        requires
            0 < b,
            0 <= a * s,
    ;
    let product: u128 = rounded(quotient * 90, PROGRESS_LIMIT);
    (product / s) as u8
}

proof fn lemma_half_even_monotone(a: nat, c: nat, b: nat)
    requires
        a <= c,
        0 < b,
    ensures
        round_half_even(a, b) <= round_half_even(c, b),
{
    assert(a / b <= c / b) by (nonlinear_arith)
        requires
            a <= c,
            0 < b,
    ;
    if a / b == c / b {
        assert(a % b <= c % b) by (nonlinear_arith)
            requires
                a <= c,
                a / b == c / b,
                0 < b,
        ;
    }
}

proof fn lemma_half_even_multiple(k: nat, b: nat)
    requires
        0 < b,
    ensures
        round_half_even(k * b, b) == k,
{
    assert((k * b) / b == k && (k * b) % b == 0) by (nonlinear_arith)
        requires
            0 < b,
    ;
}

proof fn lemma_unit(v: nat, limit: nat)
    requires
        2 <= limit,
    ensures
        1 <= unit(v, limit),
        v < limit * unit(v, limit),
        unit(v, limit) > 1 ==> limit * unit(v, limit) <= 2 * v,
    decreases v,
{
    if v >= limit {
        lemma_unit(v / 2, limit);
        let u = unit(v / 2, limit);
        assert(limit * (2 * u) == 2 * (limit * u)) by (nonlinear_arith);
        if u == 1 {
            assert(limit * u == limit) by (nonlinear_arith)
                requires
                    u == 1,
            ;
        }
    }
}

proof fn lemma_unit_monotone(v: nat, w: nat, limit: nat)
    requires
        v <= w,
        2 <= limit,
    ensures
        unit(v, limit) == unit(w, limit) || 2 * unit(v, limit) <= unit(w, limit),
    decreases w,
{
    lemma_unit(w / 2, limit);
    if v >= limit {
        lemma_unit_monotone(v / 2, w / 2, limit);
    }
}

proof fn lemma_round_bounds(v: nat, limit: nat)
    requires
        2 <= limit,
        limit % 2 == 0,
    ensures
        round_bits(v, limit) <= limit * unit(v, limit),
        unit(v, limit) == 1 ==> round_bits(v, limit) == v,
        unit(v, limit) > 1 ==> (limit / 2) * unit(v, limit) <= round_bits(v, limit),
{
    let u = unit(v, limit);
    let r = round_half_even(v, u);
    lemma_unit(v, limit);
    lemma_half_even_multiple(limit, u);
    lemma_half_even_monotone(v, limit * u, u);
    assert(r * u <= limit * u) by (nonlinear_arith)
        requires
            r <= limit,
    ;
    if u == 1 {
        lemma_half_even_multiple(v, u);
        assert(v * u == v) by (nonlinear_arith)
            requires
                u == 1,
        ;
    } else {
        let half = limit / 2;
        lemma_half_even_multiple(half, u);
        assert(2 * (half * u) == limit * u) by (nonlinear_arith)
            requires
                limit == 2 * half,
        ;
        lemma_half_even_monotone(half * u, v, u);
        assert(half * u <= r * u) by (nonlinear_arith)
            requires
                half <= r,
        ;
    }
}

/// A number that has no more than the significant bits is not changed.
pub proof fn small_numbers_are_exact(v: nat, limit: nat)
    requires
        v < limit,
        2 <= limit,
        limit % 2 == 0,
    ensures
        round_bits(v, limit) == v,
{
    lemma_round_bounds(v, limit);
}

/// Rounding to significant bits keeps the order of two numbers.
pub proof fn round_bits_is_monotone(v: nat, w: nat, limit: nat)
    requires
        v <= w,
        2 <= limit,
        limit % 2 == 0,
    ensures
        round_bits(v, limit) <= round_bits(w, limit),
{
    let u = unit(v, limit);
    let t = unit(w, limit);
    lemma_unit(v, limit);
    lemma_unit_monotone(v, w, limit);
    lemma_round_bounds(v, limit);
    lemma_round_bounds(w, limit);
    if u == t {
        lemma_half_even_monotone(v, w, u);
        let p = round_half_even(v, u);
        let q = round_half_even(w, u);
        assert(p * u <= q * u) by (nonlinear_arith)
            requires
                p <= q,
        ;
    } else {
        let half = limit / 2;
        assert(limit * u <= half * t) by (nonlinear_arith)
            requires
                limit == 2 * half,
                2 * u <= t,
        ;
    }
}

proof fn lemma_exact_double(x: nat, limit: nat)
    requires
        round_bits(x, limit) == x,
        2 <= limit,
        limit % 2 == 0,
    ensures
        round_bits(2 * x, limit) == 2 * x,
{
    let u = unit(x, limit);
    lemma_unit(x, limit);
    lemma_unit(2 * x, limit);
    lemma_round_bounds(2 * x, limit);
    if 2 * x >= limit {
        let k = round_half_even(x, u);
        assert((2 * x) / 2 == x);
        assert(k * (2 * u) == 2 * (k * u)) by (nonlinear_arith);
        lemma_half_even_multiple(k, 2 * u);
    }
}

proof fn lemma_scale_exact(a: nat, b: nat, limit: nat)
    requires
        90 < limit,
        limit % 2 == 0,
    ensures
        1 <= scale(a, b),
        round_bits(90 * scale(a, b), limit) == 90 * scale(a, b),
    decreases (if a < b { b - a } else { 0 }),
{
    if a == 0 || a >= b {
        lemma_round_bounds(90, limit);
    } else {
        lemma_scale_exact(2 * a, b, limit);
        lemma_exact_double(90 * scale(2 * a, b), limit);
    }
}

/// A removal that has not come to its end is at most at ninety out of a hundred.
pub proof fn lemma_progress(i: nat, n: nat)
    requires
        i < n,
    ensures
        1 <= round_bits(n, PROGRESS_LIMIT as nat),
        progress_percent(i, n) <= 90,
{
    let limit = PROGRESS_LIMIT as nat;
    let a = round_bits(i, limit);
    let b = round_bits(n, limit);
    let s = scale(a, b * (limit / 2));
    let quotient = round_half_even(a * s, b);
    let product = round_bits(quotient * 90, limit);
    lemma_round_bounds(1, limit);
    round_bits_is_monotone(1, n, limit);
    round_bits_is_monotone(i, n, limit);
    lemma_scale_exact(a, b * (limit / 2), limit);
    assert(a * s <= s * b) by (nonlinear_arith)
        requires
            a <= b,
    ;
    lemma_half_even_monotone(a * s, s * b, b);
    lemma_half_even_multiple(s, b);
    round_bits_is_monotone(quotient * 90, 90 * s, limit);
    assert(product / s <= 90) by (nonlinear_arith)
        requires
            product <= 90 * s,
            1 <= s,
    ;
}

proof fn lemma_scale(a: nat, b: nat)
    requires
        0 < a,
    ensures
        1 <= scale(a, b),
        b <= a * scale(a, b),
        scale(a, b) > 1 ==> a * scale(a, b) < 2 * b,
    decreases (if a < b { b - a } else { 0 }),
{
    if a < b {
        lemma_scale(2 * a, b);
        let s = scale(2 * a, b);
        assert((2 * a) * s == a * (2 * s)) by (nonlinear_arith);
    }
}

proof fn lemma_scale_antitone(a: nat, c: nat, b: nat)
    requires
        0 < a <= c,
    ensures
        scale(a, b) == scale(c, b) || scale(a, b) >= 2 * scale(c, b),
    decreases (if a < b { b - a } else { 0 }),
{
    if a < b {
        lemma_scale(2 * a, b);
        if c < b {
            lemma_scale_antitone(2 * a, 2 * c, b);
        }
    }
}

proof fn lemma_ninety(limit: nat)
    requires
        90 < limit,
        limit % 4 == 0,
        limit == PROGRESS_LIMIT,
    ensures
        round_bits(limit * 90, limit) == limit * 90,
        round_bits((limit / 2) * 90, limit) == (limit / 2) * 90,
{
    lemma_round_bounds(90, limit);
    assert(unit(90, limit) == 1);
    lemma_exact_powers(23, limit);
    lemma_exact_powers(24, limit);
    power2::lemma2_to64();
}

proof fn lemma_exact_powers(k: nat, limit: nat)
    requires
        90 < limit,
        limit % 2 == 0,
    ensures
        round_bits(power2::pow2(k) * 90, limit) == power2::pow2(k) * 90,
    decreases k,
{
    if k == 0 {
        lemma_round_bounds(90, limit);
        power2::lemma2_to64();
    } else {
        lemma_exact_powers((k - 1) as nat, limit);
        lemma_exact_double(power2::pow2((k - 1) as nat) * 90, limit);
        power2::lemma_pow2_unfold(k);
        assert(2 * (power2::pow2((k - 1) as nat) * 90) == power2::pow2(k) * 90) by (nonlinear_arith)
            requires
                power2::pow2(k) == 2 * power2::pow2((k - 1) as nat),
        ;
    }
}

/// The progress of a removal never goes back.
pub proof fn progress_never_goes_back(i: nat, j: nat, n: nat)
    requires
        i <= j < n,
    ensures
        progress_percent(i, n) <= progress_percent(j, n),
{
    let limit = PROGRESS_LIMIT as nat;
    let half = limit / 2;
    let a = round_bits(i, limit);
    let c = round_bits(j, limit);
    let b = round_bits(n, limit);
    let s = scale(a, b * half);
    let t = scale(c, b * half);
    let p = round_half_even(a * s, b);
    let q = round_half_even(c * t, b);
    lemma_progress(i, n);
    lemma_progress(j, n);
    round_bits_is_monotone(i, j, limit);
    round_bits_is_monotone(j, n, limit);
    if a == 0 {
        lemma_half_even_multiple(0, b);
        lemma_round_bounds(0, limit);
        assert(a * s == 0 * b) by (nonlinear_arith)
            requires
                a == 0,
        ;
        assert(round_bits(p * 90, limit) == 0);
        assert(progress_percent(i, n) == 0);
    } else {
        lemma_scale(a, b * half);
        lemma_scale(c, b * half);
        lemma_scale_antitone(a, c, b * half);
        let x = round_bits(p * 90, limit);
        let y = round_bits(q * 90, limit);
        if s == t {
            assert(a * s <= c * t) by (nonlinear_arith)
                requires
                    a <= c,
                    s == t,
            ;
            lemma_half_even_monotone(a * s, c * t, b);
            round_bits_is_monotone(p * 90, q * 90, limit);
            assert(x / s <= y / t) by (nonlinear_arith)
                requires
                    x <= y,
                    s == t,
                    1 <= s,
            ;
        } else {
            assert(2 * (b * half) == limit * b) by (nonlinear_arith)
                requires
                    limit == 2 * half,
            ;
            assert(b * half == half * b) by (nonlinear_arith);
            lemma_half_even_multiple(limit, b);
            lemma_half_even_multiple(half, b);
            lemma_half_even_monotone(a * s, limit * b, b);
            lemma_half_even_monotone(half * b, c * t, b);
            lemma_ninety(limit);
            round_bits_is_monotone(p * 90, limit * 90, limit);
            round_bits_is_monotone(half * 90, q * 90, limit);
            assert(x / s <= y / t) by (nonlinear_arith)
                requires
                    x <= 2 * (half * 90),
                    half * 90 <= y,
                    2 * t <= s,
                    1 <= t,
            ;
        }
    }
}

/// `t` in decimal notation, with a point before the last `places` digits, of
/// which there are none, one or two.
pub open spec fn fixed(t: nat, places: nat) -> Seq<char> {
    if places == 0 {
        text::decimal(t)
    } else if places == 1 {
        text::decimal(t / 10) + seq!['.', text::digit(t % 10)]
    } else {
        text::decimal(t / 100) + seq!['.', text::digit(t / 10 % 10), text::digit(t % 10)]
    }
}

/// A size in bytes as it is shown: in KiB without a fraction below one MiB, in
/// MiB with one decimal place below one GiB, else in GiB with two; a dash where
/// it is negative.
pub open spec fn size_text(b: i64) -> Seq<char> {
    if b < 0 {
        "–"@
    } else {
        let f = round_bits(b as nat, SIZE_LIMIT as nat);
        if f < 0x10_0000 {
            fixed(round_half_even(f, 0x400), 0) + " KiB"@
        } else if f < 0x4000_0000 {
            fixed(round_half_even(f * 10, 0x10_0000), 1) + " MiB"@
        } else {
            fixed(round_half_even(f * 100, 0x4000_0000), 2) + " GiB"@
        }
    }
}

/// A size in bytes as it is shown.
pub fn fmt_size(b: i64) -> (r: String)
    ensures
        r@ == size_text(b),
{
    if b < 0 {
        return "–".to_owned();
    }
    let f: u128 = rounded(b as u128, SIZE_LIMIT);
    if f < 0x10_0000 {
        let t: u128 = half_even(f, 0x400);
        to_decimal(t).concat(" KiB")
    } else if f < 0x4000_0000 {
        let t: u128 = half_even(f * 10, 0x10_0000);
        let mut r = to_decimal(t / 10);
        r.push('.');
        r.push(text::digit_char((t % 10) as u8));
        assert(r@ =~= fixed(t as nat, 1));
        r.concat(" MiB")
    } else {
        let t: u128 = half_even(f * 100, 0x4000_0000);
        let mut r = to_decimal(t / 100);
        r.push('.');
        r.push(text::digit_char((t / 10 % 10) as u8));
        r.push(text::digit_char((t % 10) as u8));
        assert(r@ =~= fixed(t as nat, 2));
        r.concat(" GiB")
    }
}

/// Whether `q` is the whole number nearest to `a / b`, or the even one of two that
/// are equally near.
pub open spec fn is_nearest(a: int, b: int, q: int) -> bool {
    &&& 2 * (a - q * b) <= b
    &&& 2 * (q * b - a) <= b
    &&& 2 * (a - q * b) == b || 2 * (q * b - a) == b ==> q % 2 == 0
}

/// A quotient is rounded to the nearest whole number, and to the even one of two that
/// are equally near.
pub proof fn quotients_are_rounded_to_the_nearest(a: nat, b: nat)
    requires
        0 < b,
    ensures
        is_nearest(a as int, b as int, round_half_even(a, b) as int),
{
    let q = (a / b) as int;
    let r = (a % b) as int;
    assert(a == q * b + r) by (nonlinear_arith)
        requires
            q == a / b,
            r == a % b,
            0 < b,
    ;
    assert(0 <= r < b) by (nonlinear_arith)
        requires
            r == a % b,
            0 < b,
    ;
    assert((q + 1) * b == q * b + b) by (nonlinear_arith);
}

proof fn lemma_unit_is_power(v: nat, limit: nat) -> (k: nat)
    ensures
        unit(v, limit) == power2::pow2(k),
        k == 0 <==> unit(v, limit) == 1,
    decreases v,
{
    power2::lemma2_to64();
    if v < limit || v < 2 {
        0
    } else {
        let k = lemma_unit_is_power(v / 2, limit);
        power2::lemma_pow2_unfold(k + 1);
        power2::lemma_pow2_pos(k);
        k + 1
    }
}

/// Rounding to significant bits leads to the nearest multiple of the least power of
/// two of which the number holds less than `limit`, and to the even one of two that
/// are equally near.
pub proof fn numbers_are_rounded_to_the_nearest(v: nat, limit: nat)
    requires
        2 <= limit,
    ensures
        exists|k: nat, q: nat|
            #![trigger power2::pow2(k), is_nearest(v as int, power2::pow2(k) as int, q as int)]
            round_bits(v, limit) == q * power2::pow2(k) && is_nearest(
                v as int,
                power2::pow2(k) as int,
                q as int,
            ) && v < limit * power2::pow2(k) && (k > 0 ==> limit * power2::pow2(k) <= 2 * v),
{
    let k = lemma_unit_is_power(v, limit);
    let u = unit(v, limit);
    lemma_unit(v, limit);
    let q = round_half_even(v, u);
    quotients_are_rounded_to_the_nearest(v, u);
    assert(is_nearest(v as int, power2::pow2(k) as int, q as int));
}

/// A size below two to the power of 53 is shown to the nearest KiB below one MiB, to
/// the nearest tenth of a MiB below one GiB, and to the nearest hundredth of a GiB
/// above. A negative size is shown as a dash.
pub proof fn sizes_are_shown_to_the_nearest(b: i64)
    requires
        b < 0x20_0000_0000_0000,
    ensures
        b < 0 ==> size_text(b) == "–"@,
        0 <= b < 0x10_0000 ==> exists|t: nat| #[trigger]
            is_nearest(b as int, 0x400, t as int) && size_text(b) == text::decimal(t) + " KiB"@,
        0x10_0000 <= b < 0x4000_0000 ==> exists|t: nat| #[trigger]
            is_nearest(b * 10, 0x10_0000, t as int) && size_text(b) == text::decimal(t / 10)
                + seq!['.'] + text::decimal(t % 10) + " MiB"@,
        0x4000_0000 <= b ==> exists|t: nat| #[trigger]
            is_nearest(b * 100, 0x4000_0000, t as int) && size_text(b) == text::decimal(t / 100)
                + seq!['.'] + text::decimal(t / 10 % 10) + text::decimal(t % 10) + " GiB"@,
{
    if b >= 0 {
        small_numbers_are_exact(b as nat, SIZE_LIMIT as nat);
        if b < 0x10_0000 {
            quotients_are_rounded_to_the_nearest(b as nat, 0x400);
        } else if b < 0x4000_0000 {
            let t = round_half_even((b * 10) as nat, 0x10_0000);
            quotients_are_rounded_to_the_nearest((b * 10) as nat, 0x10_0000);
            assert(fixed(t, 1) =~= text::decimal(t / 10) + seq!['.'] + text::decimal(t % 10));
        } else {
            let t = round_half_even((b * 100) as nat, 0x4000_0000);
            quotients_are_rounded_to_the_nearest((b * 100) as nat, 0x4000_0000);
            assert(fixed(t, 2) =~= text::decimal(t / 100) + seq!['.'] + text::decimal(
                t / 10 % 10,
            ) + text::decimal(t % 10));
        }
    }
}

/// A larger size is first rounded to 53 significant bits, and then shown to the
/// nearest hundredth of a GiB.
pub proof fn large_sizes_are_shown_to_the_nearest(b: i64)
    requires
        b >= 0x20_0000_0000_0000,
    ensures
        exists|t: nat| #[trigger]
            is_nearest(
                (round_bits(b as nat, 0x20_0000_0000_0000) * 100) as int,
                0x4000_0000,
                t as int,
            ) && size_text(b) == text::decimal(t / 100) + seq!['.'] + text::decimal(t / 10 % 10)
                + text::decimal(t % 10) + " GiB"@,
{
    let f = round_bits(b as nat, 0x20_0000_0000_0000);
    round_bits_is_monotone(0x4000_0000, b as nat, 0x20_0000_0000_0000);
    small_numbers_are_exact(0x4000_0000, 0x20_0000_0000_0000);
    let t = round_half_even(f * 100, 0x4000_0000);
    quotients_are_rounded_to_the_nearest(f * 100, 0x4000_0000);
    assert(fixed(t, 2) =~= text::decimal(t / 100) + seq!['.'] + text::decimal(t / 10 % 10)
        + text::decimal(t % 10));
}

/// The progress of a removal is the whole part of its share of ninety, with an error
/// of no more than three parts in two to the power of 24.
pub proof fn progress_is_the_share_of_ninety(i: nat, n: nat)
    requires
        i < n < 0x100_0000,
    ensures
        i == 0 ==> progress_percent(i, n) == 0,
        0x100_0000 * (n * progress_percent(i, n)) <= 0x100_0003 * (90 * i),
        0xff_fffe * (90 * i) <= 0x100_0000 * (n * (progress_percent(i, n) + 1)),
{
    let limit = PROGRESS_LIMIT as nat;
    let half = limit / 2;
    small_numbers_are_exact(i, limit);
    small_numbers_are_exact(n, limit);
    let s = scale(i, n * half);
    let q = round_half_even(i * s, n);
    let x = round_bits(q * 90, limit);
    let p = progress_percent(i, n);
    lemma_progress(i, n);
    if i == 0 {
        lemma_half_even_multiple(0, n);
        assert(i * s == 0 * n) by (nonlinear_arith)
            requires
                i == 0,
        ;
        lemma_round_bounds(0, limit);
        assert(n * p == 0) by (nonlinear_arith)
            requires
                p == 0,
        ;
        assert(0 <= n * (p + 1)) by (nonlinear_arith)
            requires
                0 <= p,
                0 <= n,
        ;
    } else {
        lemma_scale(i, n * half);
        quotients_are_rounded_to_the_nearest(i * s, n);
        lemma_round_error(q * 90, limit);
        assert(x / s == p);
        assert(p * s <= x && x < (p + 1) * s) by (nonlinear_arith)
            requires
                x / s == p,
                1 <= s,
        ;
        // `w` is `i * s`, and `m` is `q * n`, the two of which differ by half of `n`.
        let w: int = (i * s) as int;
        let m: int = (q * n) as int;
        assert(half * n <= w) by (nonlinear_arith)
            requires
                n * half <= i * s,
                w == i * s,
        ;
        lemma_upper(p as int, s as int, x as int, q as int, n as int, w, m, i as int);
        lemma_lower(p as int, s as int, x as int, q as int, n as int, w, m, i as int);
    }
}

proof fn lemma_round_error(v: nat, limit: nat)
    requires
        2 <= limit,
    ensures
        limit * (round_bits(v, limit) - v) <= v,
        limit * (v - round_bits(v, limit)) <= v,
{
    let u = unit(v, limit);
    let q = round_half_even(v, u);
    lemma_unit(v, limit);
    quotients_are_rounded_to_the_nearest(v, u);
    let r: int = (q * u) as int;
    assert(r == round_bits(v, limit));
    if u == 1 {
        assert(r == v) by (nonlinear_arith)
            requires
                2 * (v - r) <= 1,
                2 * (r - v) <= 1,
        ;
        assert(limit * (r - v) == 0 && limit * (v - r) == 0) by (nonlinear_arith)
            requires
                r == v,
        ;
    } else {
        assert(limit * (r - v) <= v) by (nonlinear_arith)
            requires
                2 * (r - v) <= u,
                limit * u <= 2 * v,
                0 < limit,
        ;
        assert(limit * (v - r) <= v) by (nonlinear_arith)
            requires
                2 * (v - r) <= u,
                limit * u <= 2 * v,
                0 < limit,
        ;
    }
}

proof fn lemma_upper(p: int, s: int, x: int, q: int, n: int, w: int, m: int, i: int)
    requires
        1 <= s,
        1 <= n,
        0 <= i,
        0 <= p,
        p * s <= x,
        0x100_0000 * (x - q * 90) <= q * 90,
        m == q * n,
        w == i * s,
        2 * (m - w) <= n,
        0x80_0000 * n <= w,
    ensures
        0x100_0000 * (n * p) <= 0x100_0003 * (90 * i),
{
    let l: int = 0x100_0000;
    assert(l * x <= (l + 1) * (90 * q));
    assert(l * (p * s * n) <= (l + 1) * 90 * m) by (nonlinear_arith)
        requires
            p * s <= x,
            l * x <= (l + 1) * (90 * q),
            m == q * n,
            1 <= n,
            l == 0x100_0000,
    ;
    assert(l * m <= (l + 1) * w);
    assert(l * l * (p * s * n) <= (l + 1) * 90 * ((l + 1) * w)) by (nonlinear_arith)
        requires
            l * (p * s * n) <= (l + 1) * 90 * m,
            l * m <= (l + 1) * w,
            l == 0x100_0000,
    ;
    assert(0 <= w) by (nonlinear_arith)
        requires
            w == i * s,
            0 <= i,
            1 <= s,
    ;
    assert((l + 1) * 90 * ((l + 1) * w) <= l * (l + 3) * 90 * w) by (nonlinear_arith)
        requires
            0 <= w,
            l == 0x100_0000,
    ;
    assert(s * (l * (n * p)) == l * (p * s * n)) by (nonlinear_arith);
    assert(s * ((l + 3) * (90 * i)) == (l + 3) * 90 * w) by (nonlinear_arith)
        requires
            w == i * s,
    ;
    assert(l * (l * (p * s * n)) == l * l * (p * s * n)) by (nonlinear_arith);
    assert(l * ((l + 3) * 90 * w) == l * (l + 3) * 90 * w) by (nonlinear_arith);
    assert(l * (p * s * n) <= (l + 3) * 90 * w);
    assert(l * (n * p) <= (l + 3) * (90 * i)) by (nonlinear_arith)
        requires
            s * (l * (n * p)) <= s * ((l + 3) * (90 * i)),
            1 <= s,
    ;
}

proof fn lemma_lower(p: int, s: int, x: int, q: int, n: int, w: int, m: int, i: int)
    requires
        1 <= s,
        1 <= n,
        0 <= i,
        0 <= p,
        x < (p + 1) * s,
        0x100_0000 * (q * 90 - x) <= q * 90,
        m == q * n,
        w == i * s,
        2 * (w - m) <= n,
        0x80_0000 * n <= w,
    ensures
        0xff_fffe * (90 * i) <= 0x100_0000 * (n * (p + 1)),
{
    let l: int = 0x100_0000;
    assert((l - 1) * (90 * q) <= l * x);
    assert((l - 1) * 90 * m <= l * ((p + 1) * s * n)) by (nonlinear_arith)
        requires
            x < (p + 1) * s,
            (l - 1) * (90 * q) <= l * x,
            m == q * n,
            1 <= n,
            l == 0x100_0000,
    ;
    assert((l - 1) * w <= l * m);
    assert(0 <= w) by (nonlinear_arith)
        requires
            w == i * s,
            0 <= i,
            1 <= s,
    ;
    assert((l - 1) * 90 * ((l - 1) * w) <= l * (l * ((p + 1) * s * n))) by (nonlinear_arith)
        requires
            (l - 1) * 90 * m <= l * ((p + 1) * s * n),
            (l - 1) * w <= l * m,
            l == 0x100_0000,
    ;
    assert(l * ((l - 2) * 90 * w) <= (l - 1) * 90 * ((l - 1) * w)) by (nonlinear_arith)
        requires
            0 <= w,
            l == 0x100_0000,
    ;
    assert((l - 2) * 90 * w <= l * ((p + 1) * s * n));
    assert(s * ((l - 2) * (90 * i)) == (l - 2) * 90 * w) by (nonlinear_arith)
        requires
            w == i * s,
    ;
    assert(s * (l * (n * (p + 1))) == l * ((p + 1) * s * n)) by (nonlinear_arith);
    assert((l - 2) * (90 * i) <= l * (n * (p + 1))) by (nonlinear_arith)
        requires
            s * ((l - 2) * (90 * i)) <= s * (l * (n * (p + 1))),
            1 <= s,
    ;
}

} // verus!
