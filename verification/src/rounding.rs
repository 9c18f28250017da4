//! Single-precision rounding, carried out on integers.
//!
//! A single-precision number keeps a significand of 24 bits. Scaled by a fixed
//! power of two, every intermediate value of the tile generator is a natural
//! number, and the result of one rounded operation is that number rounded to 24
//! significant bits, halves going to the even neighbour.
use vstd::prelude::*;
use vstd::arithmetic::div_mod::{lemma_div_denominator, lemma_fundamental_div_mod};

verus! {

/// Two to the power 24: the first number that does not fit the significand.
pub const SIGNIFICAND_LIMIT: u128 = 0x100_0000;

/// The distance between neighbouring 24-bit numbers around `n`.
pub open spec fn spacing(n: nat) -> nat
    decreases n,
{
    if n < SIGNIFICAND_LIMIT {
        1
    } else {
        2 * spacing(n / 2)
    }
}

/// The multiple of `step` nearest to `n`; halfway, the even multiple.
pub open spec fn nearest_multiple(n: nat, step: nat) -> nat {
    let below = n / step;
    let rest = n % step;
    if 2 * rest < step || (2 * rest == step && below % 2 == 0) {
        below * step
    } else {
        (below + 1) * step
    }
}

/// `n` rounded to 24 significant bits.
pub open spec fn rounded(n: nat) -> nat {
    nearest_multiple(n, spacing(n))
}

/// The spacing is positive and never above the number itself, except at zero.
pub proof fn lemma_spacing_bounds(n: nat)
    ensures
        spacing(n) >= 1,
        spacing(n) <= n || spacing(n) == 1,
    decreases n,
{
    if n >= SIGNIFICAND_LIMIT {
        lemma_spacing_bounds(n / 2);
    }
}

/// Numbers that fit the significand are kept as they are.
pub proof fn law_small_numbers_are_exact(n: nat)
    requires
        n < SIGNIFICAND_LIMIT,
    ensures
        rounded(n) == n,
{
    assert(n / 1 == n && n % 1 == 0);
    assert(n * 1 == n);
}

/// Rounding moves a number by at most half of the spacing around it.
pub proof fn law_rounding_error(n: nat)
    ensures
        2 * (rounded(n) - n) <= spacing(n),
        2 * (n - rounded(n)) <= spacing(n),
{
    lemma_spacing_bounds(n);
    let step = spacing(n);
    lemma_fundamental_div_mod(n as int, step as int);
    let below = n / step;
    assert(below * step == step * below) by (nonlinear_arith);
    assert((below + 1) * step == step * below + step) by (nonlinear_arith);
}

/// The spacing around `n` is at most one part in two to the power 23 of `n`.
pub proof fn lemma_spacing_relative(n: nat)
    ensures
        spacing(n) == 1 || spacing(n) * 0x80_0000 <= n,
    decreases n,
{
    if n >= SIGNIFICAND_LIMIT {
        lemma_spacing_relative(n / 2);
    }
}

/// A rounded number exceeds the one it came from by at most one part in two to the power 24.
pub proof fn lemma_rounded_upper(n: nat, bound: nat)
    requires
        n <= bound,
        bound >= SIGNIFICAND_LIMIT,
    ensures
        rounded(n) <= bound + bound / 0x100_0000,
{
    law_rounding_error(n);
    lemma_spacing_relative(n);
    if spacing(n) == 1 {
        assert(2 * (rounded(n) - n) <= 1);
    }
}

/// Two to the power `j`.
pub open spec fn power_of_two(j: nat) -> nat
    decreases j,
{
    if j == 0 {
        1
    } else {
        2 * power_of_two((j - 1) as nat)
    }
}

/// The spacing around `n` divides every power of two that is large enough.
pub proof fn lemma_spacing_divides(n: nat, j: nat)
    requires
        n < SIGNIFICAND_LIMIT * power_of_two(j),
    ensures
        power_of_two(j) % spacing(n) == 0,
    decreases j,
{
    lemma_spacing_bounds(n);
    if n >= SIGNIFICAND_LIMIT {
        if j == 0 {
            assert(power_of_two(0) == 1);
            assert(false);
        }
        let half = power_of_two((j - 1) as nat);
        lemma_spacing_divides(n / 2, (j - 1) as nat);
        lemma_spacing_bounds(n / 2);
        let step = spacing(n / 2);
        lemma_fundamental_div_mod(half as int, step as int);
        let q = half / step;
        assert(2 * (step * q) == (2 * step) * q) by (nonlinear_arith);
        lemma_multiple_of(2 * step, q);
    }
}

proof fn lemma_multiple_of(step: nat, q: nat)
    requires
        step > 0,
    ensures
        (step * q) % step == 0,
{
    vstd::arithmetic::div_mod::lemma_mod_multiples_basic(q as int, step as int);
    assert(q * step == step * q) by (nonlinear_arith);
}

/// Rounding does not pass a multiple of the spacing.
pub proof fn lemma_rounded_at_most(n: nat, bound: nat)
    requires
        n <= bound,
        bound % spacing(n) == 0,
    ensures
        rounded(n) <= bound,
{
    lemma_spacing_bounds(n);
    let step = spacing(n);
    lemma_fundamental_div_mod(n as int, step as int);
    lemma_fundamental_div_mod(bound as int, step as int);
    let below = n / step;
    let q = bound / step;
    assert(below * step == step * below) by (nonlinear_arith);
    assert((below + 1) * step == step * below + step) by (nonlinear_arith);
    assert(n % step > 0 ==> q >= below + 1) by (nonlinear_arith)
        requires
            n == step * below + n % step,
            bound == step * q,
            n <= bound,
            step > 0,
    ;
    if n % step > 0 {
        assert(step * q >= step * (below + 1)) by (nonlinear_arith)
            requires
                q >= below + 1,
                step > 0,
        ;
        assert(step * (below + 1) == step * below + step) by (nonlinear_arith);
    }
}

/// Rounding does not pass a multiple of two to the power 32 (within range).
pub proof fn lemma_rounded_at_most_whole(n: nat, factor: nat)
    requires
        n <= 0x1_0000_0000 * factor,
        factor <= 0x10_0000,
    ensures
        rounded(n) <= 0x1_0000_0000 * factor,
{
    assert(power_of_two(32) == 0x1_0000_0000) by {
        reveal_with_fuel(power_of_two, 33);
    }
    lemma_spacing_divides(n, 32);
    lemma_spacing_bounds(n);
    let step = spacing(n);
    lemma_fundamental_div_mod(0x1_0000_0000, step as int);
    let q = 0x1_0000_0000nat / step;
    assert((step * q) * factor == step * (q * factor)) by (nonlinear_arith);
    lemma_multiple_of(step, q * factor);
    lemma_rounded_at_most(n, 0x1_0000_0000 * factor);
}

/// The spacing grows with the number, doubling at the least when it changes.
pub proof fn lemma_spacing_monotone(a: nat, b: nat)
    requires
        a <= b,
    ensures
        spacing(a) == spacing(b) || 2 * spacing(a) <= spacing(b),
    decreases b,
{
    if a >= SIGNIFICAND_LIMIT {
        lemma_spacing_monotone(a / 2, b / 2);
    } else if b >= SIGNIFICAND_LIMIT {
        lemma_spacing_bounds(b / 2);
    }
}

/// A number is below the significand limit counted in its spacing.
pub proof fn lemma_below_limit(n: nat)
    ensures
        n < SIGNIFICAND_LIMIT * spacing(n),
    decreases n,
{
    if n >= SIGNIFICAND_LIMIT {
        lemma_below_limit(n / 2);
    }
}

/// Rounding keeps the order of numbers.
pub proof fn law_rounding_is_monotone(a: nat, b: nat)
    requires
        a <= b,
    ensures
        rounded(a) <= rounded(b),
{
    lemma_spacing_bounds(a);
    lemma_spacing_bounds(b);
    lemma_spacing_monotone(a, b);
    let s = spacing(a);
    let t = spacing(b);
    lemma_fundamental_div_mod(a as int, s as int);
    lemma_fundamental_div_mod(b as int, t as int);
    let p = a / s;
    let q = b / t;
    assert((p + 1) * s == p * s + s) by (nonlinear_arith);
    assert((q + 1) * t == q * t + t) by (nonlinear_arith);
    assert(s * p == p * s) by (nonlinear_arith);
    assert(t * q == q * t) by (nonlinear_arith);
    if s == t {
        vstd::arithmetic::div_mod::lemma_div_is_ordered(a as int, b as int, s as int);
        if p < q {
            assert((p + 1) * s <= q * s) by (nonlinear_arith)
                requires
                    p + 1 <= q,
            ;
        }
    } else {
        lemma_below_limit(a);
        lemma_spacing_relative(b);
        assert(p < SIGNIFICAND_LIMIT) by (nonlinear_arith)
            requires
                p * s <= a,
                a < SIGNIFICAND_LIMIT * s,
                s > 0,
        ;
        assert((p + 1) * s <= SIGNIFICAND_LIMIT * s) by (nonlinear_arith)
            requires
                p + 1 <= SIGNIFICAND_LIMIT,
        ;
        assert(q >= 0x80_0000) by (nonlinear_arith)
            requires
                b < q * t + t,
                t * 0x80_0000 <= b,
                t > 0,
        ;
        assert(q * t >= 0x80_0000 * t) by (nonlinear_arith)
            requires
                q >= 0x80_0000,
        ;
    }
}

/// Four halvings at once.
proof fn lemma_spacing_sixteenfold(n: nat)
    requires
        n >= 16 * SIGNIFICAND_LIMIT,
    ensures
        spacing(n) == 16 * spacing(n / 16),
{
    reveal_with_fuel(spacing, 5);
    assert(n / 2 / 2 / 2 / 2 == n / 16);
}

/// Rounds `n` to 24 significant bits.
pub fn round_to_significand(n: u128) -> (r: u128)
    requires
        n <= 0xff_ffff_ffff_ffff_ffff_ffff_ffff_ffff,
    ensures
        r as nat == rounded(n as nat),
        r <= 2 * n,
{
    let mut step: u128 = 1;
    let mut top: u128 = n;
    // Sixteenfold steps as long as they stay above the limit, then twofold ones.
    while top >= 16 * SIGNIFICAND_LIMIT
        invariant
            step >= 1,
            top == n / step,
            step * top <= n,
            n <= 0xff_ffff_ffff_ffff_ffff_ffff_ffff_ffff,
            spacing(n as nat) == step * spacing(top as nat),
        decreases top,
    {
        proof {
            lemma_div_denominator(n as int, step as int, 16);
            lemma_spacing_sixteenfold(top as nat);
            let ghost rest = spacing((top / 16) as nat);
            assert(step * (16 * rest) == (step * 16) * rest) by (nonlinear_arith);
            assert(step * (16 * SIGNIFICAND_LIMIT) <= step * top) by (nonlinear_arith)
                requires
                    top >= 16 * SIGNIFICAND_LIMIT,
                    step >= 1,
            ;
            assert((step * 16) * (top / 16) <= step * top) by (nonlinear_arith)
                requires
                    step >= 1,
            ;
        }
        step = step * 16;
        top = top / 16;
    }
    while top >= SIGNIFICAND_LIMIT
        invariant
            step >= 1,
            top == n / step,
            step * top <= n,
            n <= 0xff_ffff_ffff_ffff_ffff_ffff_ffff_ffff,
            spacing(n as nat) == step * spacing(top as nat),
        decreases top,
    {
        proof {
            lemma_div_denominator(n as int, step as int, 2);
            let ghost old_top: nat = top as nat;
            assert(spacing(old_top) == 2 * spacing(old_top / 2));
            assert(step * (2 * spacing(old_top / 2)) == (step * 2) * spacing(old_top / 2)) by (nonlinear_arith);
            assert(step * SIGNIFICAND_LIMIT <= step * top) by (nonlinear_arith)
                requires
                    top >= SIGNIFICAND_LIMIT,
                    step >= 1,
            ;
            assert((step * 2) * (top / 2) <= step * top) by (nonlinear_arith)
                requires
                    step >= 1,
            ;
        }
        step = step * 2;
        top = top / 2;
    }
    proof {
        assert(spacing(top as nat) == 1);
        lemma_fundamental_div_mod(n as int, step as int);
        assert(step * top == top * step) by (nonlinear_arith);
        assert((top + 1) * step == top * step + step) by (nonlinear_arith);
        lemma_spacing_bounds(n as nat);
        assert(step == spacing(n as nat)) by (nonlinear_arith)
            requires
                spacing(n as nat) == step * spacing(top as nat),
                spacing(top as nat) == 1,
        ;
        assert(top == n / step);
    }
    let rest: u128 = n % step;
    if 2 * rest < step || (2 * rest == step && top % 2 == 0) {
        top * step
    } else {
        proof {
            assert(n >= step || step == 1);
            if n < step {
                assert(n == 0);
                assert(rest == 0);
            }
        }
        (top + 1) * step
    }
}

/// The single-precision quotient of two numbers, in units of two to the power minus 64.
/// The quotient is taken to 64 bits after the point, with a trailing bit that stands for
/// what lies beyond, and then rounded.
pub open spec fn rounded_ratio(a: nat, b: nat) -> nat {
    let wide = a * 0x8000_0000_0000_0000;
    rounded(2 * (wide / b) + (if wide % b == 0 { 0nat } else { 1nat }))
}

/// Divides in single precision.
pub fn divide_to_significand(a: u128, b: u128) -> (r: u128)
    requires
        a <= 0x1_0000_0000,
        0 < b,
    ensures
        r as nat == rounded_ratio(a as nat, b as nat),
        r <= 2 * (2 * a * 0x8000_0000_0000_0000 + 1),
        a <= b ==> r <= 0x1_0000_0200_0000_0000,
{
    let wide: u128 = a * 0x8000_0000_0000_0000;
    let rest: u128 = wide % b;
    proof {
        vstd::arithmetic::div_mod::lemma_div_is_ordered_by_denominator(wide as int, 1, b as int);
    }
    let quotient: u128 = 2 * (wide / b) + (if rest == 0 {
        0
    } else {
        1
    });
    proof {
        if a <= b {
            lemma_fundamental_div_mod(wide as int, b as int);
            assert((wide as int) / (b as int) <= 0x8000_0000_0000_0000) by (nonlinear_arith)
                requires
                    wide == a * 0x8000_0000_0000_0000,
                    a <= b,
                    0 < b,
                    wide == b * (wide as int / b as int) + wide as int % b as int,
                    wide as int % b as int >= 0,
            ;
            lemma_rounded_upper(quotient as nat, 0x1_0000_0000_0000_0001);
        }
    }
    round_to_significand(quotient)
}

/// The whole number nearest to a fixed-point number with 64 bits after the point, halves up.
pub open spec fn nearest_whole(v: nat) -> nat {
    (v + 0x8000_0000_0000_0000) / 0x1_0000_0000_0000_0000
}

} // verus!
