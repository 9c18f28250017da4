//! Seeded pseudo-random draws and integer hashes.
use vstd::prelude::*;

use crate::rounding::{
    law_rounding_error, law_rounding_is_monotone, law_small_numbers_are_exact, lemma_rounded_at_most_whole,
    lemma_spacing_relative, round_to_significand, rounded,
};

verus! {

/// One in the fixed-point scale of a draw: two to the power 32.
pub const ONE: u128 = 0x1_0000_0000;

/// The largest whole factor and offset that a draw is scaled by.
pub const MAX_FACTOR: u128 = 1024;

/// The step of the 32-bit xorshift generator.
pub open spec fn xorshift(s: u32) -> u32 {
    let a = s ^ (s << 13u32);
    let b = a ^ (a >> 17u32);
    b ^ (b << 5u32)
}

/// The state after `n` steps.
pub open spec fn xorshift_after(s: u32, n: nat) -> u32
    decreases n,
{
    if n == 0 {
        s
    } else {
        xorshift(xorshift_after(s, (n - 1) as nat))
    }
}

/// The state that a seed starts from.
pub open spec fn seed_state(seed: u32) -> u32 {
    seed ^ 0xdead_beef
}

/// The whole part of a draw scaled by `factor`. A draw is `bits` over two to the
/// power 32, and both it and the product are rounded to single precision.
pub open spec fn whole_of_draw(bits: u32, factor: nat) -> nat {
    rounded(rounded(bits as nat) * factor) / ONE as nat
}

/// A signed fixed-point number with its magnitude rounded to 24 bits.
pub open spec fn rounded_signed(v: int) -> int {
    if v < 0 {
        -(rounded((-v) as nat) as int)
    } else {
        rounded(v as nat) as int
    }
}

/// The fixed-point value of a draw scaled by `factor`, less `offset`.
pub open spec fn shifted_draw(bits: u32, factor: nat, offset: nat) -> int {
    rounded_signed(rounded(rounded(bits as nat) * factor) - offset * ONE)
}

/// A fixed-point number without its fraction.
pub open spec fn toward_zero(v: int) -> int {
    if v < 0 {
        -((-v) / ONE as int)
    } else {
        v / ONE as int
    }
}

/// A seeded stream of pseudo-random draws.
#[derive(Clone, Copy, Debug, PartialEq, Eq, Structural)]
pub struct SeededRng {
    pub state: u32,
}

/// Starts the stream of a seed.
pub fn seeded_rng(seed: u32) -> (r: SeededRng)
    ensures
        r.state == seed_state(seed),
{
    SeededRng { state: seed ^ 0xdead_beef }
}

impl SeededRng {
    /// Moves on by one step and returns the new state.
    pub fn next_bits(&mut self) -> (r: u32)
        ensures
            final(self).state == xorshift(old(self).state),
            r == final(self).state,
    {
        let s: u32 = self.state;
        let a: u32 = s ^ (s << 13u32);
        let b: u32 = a ^ (a >> 17u32);
        let c: u32 = b ^ (b << 5u32);
        self.state = c;
        c
    }
}

/// A draw never exceeds one, and a scaled draw never exceeds its factor.
pub proof fn law_draw_bounds(bits: u32, factor: nat)
    requires
        factor <= MAX_FACTOR,
    ensures
        rounded(bits as nat) <= ONE,
        rounded(rounded(bits as nat) * factor) <= ONE * factor,
        whole_of_draw(bits, factor) <= factor,
{
    lemma_rounded_at_most_whole(bits as nat, 1);
    let unit = rounded(bits as nat);
    assert(unit * factor <= ONE * factor) by (nonlinear_arith)
        requires
            unit <= ONE,
    ;
    lemma_rounded_at_most_whole(unit * factor, factor);
}

/// The whole part of a draw scaled by `factor`.
pub fn draw_whole(bits: u32, factor: u32) -> (r: usize)
    requires
        factor <= MAX_FACTOR,
    ensures
        r as nat == whole_of_draw(bits, factor as nat),
        r <= factor,
{
    let unit: u128 = round_to_significand(bits as u128);
    proof {
        law_draw_bounds(bits, factor as nat);
        assert(unit * factor <= ONE * MAX_FACTOR) by (nonlinear_arith)
            requires
                unit <= ONE,
                factor <= MAX_FACTOR,
        ;
    }
    let scaled: u128 = round_to_significand(unit * (factor as u128));
    (scaled / ONE) as usize
}

/// The fixed-point value of a draw scaled by `factor`, less `offset`.
pub fn draw_shifted(bits: u32, factor: u32, offset: u32) -> (r: i128)
    requires
        factor <= MAX_FACTOR,
        offset <= MAX_FACTOR,
    ensures
        r == shifted_draw(bits, factor as nat, offset as nat),
        -(ONE * offset) <= r <= ONE * factor,
{
    let unit: u128 = round_to_significand(bits as u128);
    proof {
        law_draw_bounds(bits, factor as nat);
        assert(unit * factor <= ONE * MAX_FACTOR) by (nonlinear_arith)
            requires
                unit <= ONE,
                factor <= MAX_FACTOR,
        ;
    }
    let scaled: u128 = round_to_significand(unit * (factor as u128));
    let away: u128 = (offset as u128) * ONE;
    if scaled < away {
        proof {
            lemma_rounded_at_most_whole((away - scaled) as nat, offset as nat);
        }
        let magnitude: u128 = round_to_significand(away - scaled);
        -(magnitude as i128)
    } else {
        proof {
            lemma_rounded_at_most_whole((scaled - away) as nat, factor as nat);
        }
        round_to_significand(scaled - away) as i128
    }
}

/// Drops the fraction of a fixed-point number.
pub fn drop_fraction(v: i128) -> (r: i32)
    requires
        -(ONE * MAX_FACTOR) <= v <= ONE * MAX_FACTOR,
    ensures
        r == toward_zero(v as int),
        v >= 0 ==> r >= 0,
        v <= 0 ==> r <= 0,
{
    if v < 0 {
        let magnitude: u128 = (-v) as u128;
        -((magnitude / ONE) as i32)
    } else {
        ((v as u128) / ONE) as i32
    }
}

/// No two states of the generator lead to the same one, and zero alone stays where it is: steps of
/// two states combine as the states do.
#[verifier::rlimit(50)]
pub proof fn law_states_do_not_meet(a: u32, b: u32)
    ensures
        xorshift(a) == xorshift(b) <==> a == b,
        xorshift(a) == 0 <==> a == 0,
        xorshift(a ^ b) == xorshift(a) ^ xorshift(b),
        seed_state(a) == seed_state(b) <==> a == b,
        seed_state(a) ^ seed_state(b) == a ^ b,
        seed_state(seed_state(a)) == a,
{
    assert({
        let p = a ^ (a << 13u32);
        let q = p ^ (p >> 17u32);
        let x = q ^ (q << 5u32);
        let r = b ^ (b << 13u32);
        let s = r ^ (r >> 17u32);
        let y = s ^ (s << 5u32);
        let e = (a ^ b) ^ ((a ^ b) << 13u32);
        let f = e ^ (e >> 17u32);
        let z = f ^ (f << 5u32);
        &&& (x == y ==> a == b)
        &&& (x == 0 ==> a == 0)
        &&& (a == 0 ==> x == 0)
        &&& z == x ^ y
    }) by (bit_vector);
    assert((a ^ 0xdead_beefu32 == b ^ 0xdead_beefu32 ==> a == b) && (a ^ 0xdead_beefu32) ^ (b ^ 0xdead_beefu32) == a ^ b
        && (a ^ 0xdead_beefu32) ^ 0xdead_beefu32 == a) by (bit_vector);
}

/// Steps add up.
pub proof fn law_steps_add_up(s: u32, m: nat, n: nat)
    ensures
        xorshift_after(xorshift_after(s, m), n) == xorshift_after(s, m + n),
        xorshift_after(s, 1) == xorshift(s),
    decreases n,
{
    reveal_with_fuel(xorshift_after, 2);
    if n > 0 {
        law_steps_add_up(s, m, (n - 1) as nat);
    }
}

/// Rounding a signed number treats both signs alike and keeps the order.
pub proof fn law_signs_are_rounded_alike(v: int, more: int)
    requires
        v <= more,
    ensures
        rounded_signed(-v) == -rounded_signed(v),
        rounded_signed(v) <= rounded_signed(more),
{
    law_small_numbers_are_exact(0);
    if v >= 0 {
        law_rounding_is_monotone(v as nat, more as nat);
    } else if more < 0 {
        law_rounding_is_monotone((-more) as nat, (-v) as nat);
    }
}

/// Leaving out a fraction treats both signs alike, keeps whole numbers and the order, and moves
/// toward zero by less than one.
#[verifier::rlimit(50)]
pub proof fn law_fractions_are_left_out(v: int, more: int, k: int)
    requires
        v <= more,
    ensures
        toward_zero(-v) == -toward_zero(v),
        toward_zero(k * ONE) == k,
        toward_zero(v) <= toward_zero(more),
        v >= 0 ==> 0 <= toward_zero(v) * ONE <= v < (toward_zero(v) + 1) * ONE,
{
}

/// A higher draw never gives a lower number, nor does a larger factor, and what a draw gives is
/// its share of the factor: the whole part, but for what single precision leaves out.
#[verifier::rlimit(50)]
pub proof fn law_draws_are_scaled(bits: u32, higher: u32, factor: nat, larger: nat)
    requires
        bits <= higher,
        factor <= larger <= MAX_FACTOR,
    ensures
        whole_of_draw(bits, factor) <= whole_of_draw(higher, factor),
        whole_of_draw(bits, factor) <= whole_of_draw(bits, larger),
        whole_of_draw(bits, factor) * ONE <= bits * factor + 0x10_0000,
        bits * factor < (whole_of_draw(bits, factor) + 1) * ONE + 0x10_0000,
{
    law_rounding_is_monotone(bits as nat, higher as nat);
    let u = rounded(bits as nat);
    let v = rounded(higher as nat);
    assert(u * factor <= v * factor && u * factor <= u * larger) by (nonlinear_arith)
        requires
            u <= v,
            factor <= larger,
    ;
    law_rounding_is_monotone(u * factor, v * factor);
    law_rounding_is_monotone(u * factor, u * larger);
    law_rounding_error(bits as nat);
    lemma_spacing_relative(bits as nat);
    assert(u <= bits + 256 && bits <= u + 256);
    law_rounding_error(u * factor);
    lemma_spacing_relative(u * factor);
    assert(u * factor <= bits * factor + 0x4_0000 && bits * factor <= u * factor + 0x4_0000 && u * factor
        <= 0x1_0000_0100 * 1024) by (nonlinear_arith)
        requires
            u <= bits + 256,
            bits <= u + 256,
            factor <= 1024,
            bits <= 0xffff_ffff,
    ;
}

/// A higher draw never gives a lower shifted number, and a larger offset never a higher one.
pub proof fn law_shifted_draws_keep_their_order(bits: u32, higher: u32, factor: nat, offset: nat, farther: nat)
    requires
        bits <= higher,
        offset <= farther,
    ensures
        shifted_draw(bits, factor, offset) <= shifted_draw(higher, factor, offset),
        shifted_draw(bits, factor, farther) <= shifted_draw(bits, factor, offset),
{
    law_rounding_is_monotone(bits as nat, higher as nat);
    let u = rounded(bits as nat);
    let v = rounded(higher as nat);
    assert(u * factor <= v * factor) by (nonlinear_arith)
        requires
            u <= v,
    ;
    law_rounding_is_monotone(u * factor, v * factor);
    law_signs_are_rounded_alike(rounded(u * factor) - offset * ONE, rounded(v * factor) - offset * ONE);
    law_signs_are_rounded_alike(rounded(u * factor) - farther * ONE, rounded(u * factor) - offset * ONE);
}

/// A shifted draw is its share of the factor less the offset, but for what single precision leaves out.
#[verifier::rlimit(50)]
pub proof fn law_shifted_draws_are_scaled(bits: u32, factor: nat, offset: nat)
    requires
        factor <= MAX_FACTOR,
        offset <= MAX_FACTOR,
    ensures
        -0x10_0000 <= shifted_draw(bits, factor, offset) - (bits * factor - offset * ONE) <= 0x10_0000,
{
    let u = rounded(bits as nat);
    law_rounding_error(bits as nat);
    lemma_spacing_relative(bits as nat);
    assert(u <= bits + 256 && bits <= u + 256);
    law_rounding_error(u * factor);
    lemma_spacing_relative(u * factor);
    assert(u * factor <= bits * factor + 0x4_0000 && bits * factor <= u * factor + 0x4_0000 && u * factor
        <= 0x1_0000_0100 * 1024) by (nonlinear_arith)
        requires
            u <= bits + 256,
            bits <= u + 256,
            factor <= 1024,
            bits <= 0xffff_ffff,
    ;
    let v = rounded(u * factor) - offset * ONE;
    let m: nat = if v < 0 { (-v) as nat } else { v as nat };
    assert(m <= 0x1_0000_0200 * 1024);
    law_rounding_error(m);
    lemma_spacing_relative(m);
}

} // verus!
