//! The material patterns that a tile can show before noise is added.
use vstd::prelude::*;

use crate::raster::lemma_exact_in_units;
use crate::rng::{
    draw_shifted, draw_whole, drop_fraction, law_draw_bounds, law_fractions_are_left_out,
    law_shifted_draws_are_scaled, law_shifted_draws_keep_their_order, law_steps_add_up, seed_state, seeded_rng, shifted_draw, toward_zero,
    whole_of_draw, xorshift, xorshift_after, SeededRng, MAX_FACTOR, ONE,
};
use crate::rounding::{
    law_rounding_is_monotone, law_small_numbers_are_exact, power_of_two, round_to_significand, rounded,
};
use crate::tiles::{
    clamped, fill, filled, hash_u32, law_a_rectangle_is_filled, mixed, put, row, set_px, sw, tint, tinted, TEXELS, TILE_TEX,
};

verus! {

/// The smaller of two numbers.
pub open spec fn lesser(a: int, b: int) -> int {
    if a < b {
        a
    } else {
        b
    }
}

fn lesser_of(a: usize, b: usize) -> (r: usize)
    ensures
        r == lesser(a as int, b as int),
{
    if a < b {
        a
    } else {
        b
    }
}

/// A texel of running-bond brickwork: courses of 10 texels, bricks of 20, joints of 1.
pub open spec fn brick_texel(base: [u8; 3], mortar: [u8; 3], seed: u32, x: int, y: int) -> [u8; 3] {
    let course = y / 10;
    let along = if course % 2 == 0 { x } else { x + 10 };
    let y_in = y % 10;
    let x_in = along % 20;
    if y_in < 1 || x_in < 1 {
        mortar
    } else {
        let key = mixed(((course * 131 + along / 20) as u32).wrapping_add(seed.wrapping_mul(17)));
        let brick = tinted(base, (key & 31) - 15);
        let edge = lesser(lesser(x_in, 19 - x_in), lesser(y_in, 9 - y_in));
        if edge < 2 {
            tinted(brick, -10)
        } else if edge > 5 {
            tinted(brick, 4)
        } else {
            brick
        }
    }
}

/// A texel of coursed stone blocks, 24 texels wide and high, with joints of 1.
pub open spec fn block_texel(base: [u8; 3], mortar: [u8; 3], seed: u32, x: int, y: int) -> [u8; 3] {
    let y_in = y % 24;
    let x_in = x % 24;
    if y_in < 1 || x_in < 1 {
        mortar
    } else {
        let key = mixed(((y / 24 * 257 + x / 24) as u32).wrapping_add(seed.wrapping_mul(29)));
        let block = tinted(base, (key & 23) - 11);
        let edge = lesser(lesser(x_in, 23 - x_in), lesser(y_in, 23 - y_in));
        if edge < 2 {
            tinted(block, -9)
        } else {
            block
        }
    }
}

/// A texel of rippled sand: sparse dark grains on every third row.
pub open spec fn sand_texel(base: [u8; 3], mortar: [u8; 3], x: int, y: int) -> [u8; 3] {
    if y % 3 == 0 && (x * 7 + y * 3) % 13 < 2 {
        mortar
    } else {
        base
    }
}

/// A tile of one colour.
pub open spec fn plain(base: [u8; 3]) -> Seq<[u8; 3]> {
    Seq::new(TEXELS as nat, |i: int| base)
}

/// A tile of one colour.
pub fn plain_tile(base: [u8; 3]) -> (t: Vec<[u8; 3]>)
    ensures
        t@ == plain(base),
{
    let mut t: Vec<[u8; 3]> = Vec::new();
    while t.len() < TEXELS
        invariant
            t@.len() <= TEXELS,
            forall|i: int| 0 <= i < t@.len() ==> t@[i] == base,
        decreases TEXELS - t.len(),
    {
        t.push(base);
    }
    t
}

fn brick_texel_at(base: [u8; 3], mortar: [u8; 3], seed: u32, x: usize, y: usize) -> (r: [u8; 3])
    requires
        x < TILE_TEX,
        y < TILE_TEX,
    ensures
        r == brick_texel(base, mortar, seed, x as int, y as int),
{
    let brick_w: usize = 20;
    let brick_h: usize = 10;
    let joint: usize = 1;
    let course: usize = y / brick_h;
    let y_in: usize = y % brick_h;
    let along: usize = if course % 2 == 0 {
        x
    } else {
        x + brick_w / 2
    };
    let x_in: usize = along % brick_w;
    if y_in < joint || x_in < joint {
        return mortar;
    }
    let key: u32 = hash_u32(((course * 131 + along / brick_w) as u32).wrapping_add(seed.wrapping_mul(17)));
    let low: u32 = key & 31;
    assert(key & 31 <= 31) by (bit_vector);
    let brick: [u8; 3] = tint(base, low as i32 - 15);
    let edge: usize = lesser_of(
        lesser_of(x_in, brick_w - 1 - x_in),
        lesser_of(y_in, brick_h - 1 - y_in),
    );
    if edge < joint + 1 {
        tint(brick, -10)
    } else if edge > joint + 4 {
        tint(brick, 4)
    } else {
        brick
    }
}

fn block_texel_at(base: [u8; 3], mortar: [u8; 3], seed: u32, x: usize, y: usize) -> (r: [u8; 3])
    requires
        x < TILE_TEX,
        y < TILE_TEX,
    ensures
        r == block_texel(base, mortar, seed, x as int, y as int),
{
    let block_w: usize = 24;
    let block_h: usize = 24;
    let joint: usize = 1;
    let y_in: usize = y % block_h;
    let x_in: usize = x % block_w;
    if y_in < joint || x_in < joint {
        return mortar;
    }
    let key: u32 = hash_u32(((y / block_h * 257 + x / block_w) as u32).wrapping_add(seed.wrapping_mul(29)));
    let low: u32 = key & 23;
    assert(key & 23 <= 23) by (bit_vector);
    let block: [u8; 3] = tint(base, low as i32 - 11);
    let edge: usize = lesser_of(
        lesser_of(x_in, block_w - 1 - x_in),
        lesser_of(y_in, block_h - 1 - y_in),
    );
    if edge < joint + 1 {
        tint(block, -9)
    } else {
        block
    }
}

/// Brickwork.
pub fn brick_tile(base: [u8; 3], mortar: [u8; 3], seed: u32) -> (t: Vec<[u8; 3]>)
    ensures
        t@.len() == TEXELS,
        forall|i: int| 0 <= i < TEXELS ==> t@[i] == brick_texel(
            base,
            mortar,
            seed,
            i % TILE_TEX as int,
            i / TILE_TEX as int,
        ),
{
    let mut t: Vec<[u8; 3]> = Vec::new();
    while t.len() < TEXELS
        invariant
            t@.len() <= TEXELS,
            forall|i: int| 0 <= i < t@.len() ==> t@[i] == brick_texel(
                base,
                mortar,
                seed,
                i % TILE_TEX as int,
                i / TILE_TEX as int,
            ),
        decreases TEXELS - t.len(),
    {
        let i: usize = t.len();
        t.push(brick_texel_at(base, mortar, seed, i % TILE_TEX, i / TILE_TEX));
    }
    t
}

/// Coursed stone blocks.
pub fn block_tile(base: [u8; 3], mortar: [u8; 3], seed: u32) -> (t: Vec<[u8; 3]>)
    ensures
        t@.len() == TEXELS,
        forall|i: int| 0 <= i < TEXELS ==> t@[i] == block_texel(
            base,
            mortar,
            seed,
            i % TILE_TEX as int,
            i / TILE_TEX as int,
        ),
{
    let mut t: Vec<[u8; 3]> = Vec::new();
    while t.len() < TEXELS
        invariant
            t@.len() <= TEXELS,
            forall|i: int| 0 <= i < t@.len() ==> t@[i] == block_texel(
                base,
                mortar,
                seed,
                i % TILE_TEX as int,
                i / TILE_TEX as int,
            ),
        decreases TEXELS - t.len(),
    {
        let i: usize = t.len();
        t.push(block_texel_at(base, mortar, seed, i % TILE_TEX, i / TILE_TEX));
    }
    t
}

/// Rippled sand.
pub fn sand_tile(base: [u8; 3], mortar: [u8; 3]) -> (t: Vec<[u8; 3]>)
    ensures
        t@.len() == TEXELS,
        forall|i: int| 0 <= i < TEXELS ==> t@[i] == sand_texel(base, mortar, i % TILE_TEX as int, i / TILE_TEX as int),
{
    let mut t: Vec<[u8; 3]> = Vec::new();
    while t.len() < TEXELS
        invariant
            t@.len() <= TEXELS,
            forall|i: int| 0 <= i < t@.len() ==> t@[i] == sand_texel(
                base,
                mortar,
                i % TILE_TEX as int,
                i / TILE_TEX as int,
            ),
        decreases TEXELS - t.len(),
    {
        let i: usize = t.len();
        let x: usize = i % TILE_TEX;
        let y: usize = i / TILE_TEX;
        if y % 3 == 0 && (x * 7 + y * 3) % 13 < 2 {
            t.push(mortar);
        } else {
            t.push(base);
        }
    }
    t
}

/// The positions of the grooves of one axis of bark, drawn from `state` onwards:
/// each lies `least` to `least + span` layout units after the one before.
pub open spec fn grooves(state: u32, at: int, least: nat, span: nat) -> Seq<int>
    decreases (if at < TILE_TEX { TILE_TEX - at } else { 0 }),
{
    if at >= TILE_TEX || least == 0 {
        Seq::empty()
    } else {
        let drawn = xorshift(state);
        let next = at + least + whole_of_draw(drawn, span);
        seq![next] + grooves(drawn, next, least, span)
    }
}

/// The state of the generator once the grooves of one axis are drawn.
pub open spec fn state_after_grooves(state: u32, at: int, least: nat, span: nat) -> u32
    decreases (if at < TILE_TEX { TILE_TEX - at } else { 0 }),
{
    if at >= TILE_TEX || least == 0 {
        state
    } else {
        let drawn = xorshift(state);
        state_after_grooves(drawn, at + least + whole_of_draw(drawn, span), least, span)
    }
}

/// A texel of bark: grooves across both axes.
pub open spec fn bark_texel(base: [u8; 3], mortar: [u8; 3], seed: u32, x: int, y: int) -> [u8; 3] {
    let state = seed_state(seed.wrapping_add(10));
    let upright = grooves(state, 0, 3, 5);
    let level = grooves(state_after_grooves(state, 0, 3, 5), 0, 4, 6);
    if upright.contains(x) || level.contains(y) {
        mortar
    } else {
        base
    }
}

/// Bark.
pub fn bark_tile(base: [u8; 3], mortar: [u8; 3], seed: u32) -> (t: Vec<[u8; 3]>)
    ensures
        t@.len() == TEXELS,
        forall|i: int| 0 <= i < TEXELS ==> t@[i] == bark_texel(
            base,
            mortar,
            seed,
            i % TILE_TEX as int,
            i / TILE_TEX as int,
        ),
{
    let mut rng: SeededRng = seeded_rng(seed.wrapping_add(10));
    let ghost start = rng.state;
    let ghost upright = grooves(start, 0, 3, 5);
    let ghost middle = state_after_grooves(start, 0, 3, 5);
    let ghost level = grooves(middle, 0, 4, 6);
    let mut t: Vec<[u8; 3]> = plain_tile(base);
    let ghost mut done: Seq<int> = Seq::empty();
    let mut x: usize = 0;
    while x < TILE_TEX
        invariant
            x <= 1000,
            t@.len() == TEXELS,
            upright == done + grooves(rng.state, x as int, 3, 5),
            middle == state_after_grooves(rng.state, x as int, 3, 5),
            forall|i: int| 0 <= i < TEXELS ==> t@[i] == (if done.contains(i % TILE_TEX as int) { mortar } else { base }),
        decreases 1000 - x,
    {
        let ghost done_before = done;
        let ghost x_before = x as int;
        let ghost state_before = rng.state;
        let bits: u32 = rng.next_bits();
        x = x + sw(3 + draw_whole(bits, 5));
        proof {
            done = done.push(x as int);
            assert(grooves(state_before, x_before, 3, 5) == seq![x as int] + grooves(rng.state, x as int, 3, 5));
            assert(upright == done + grooves(rng.state, x as int, 3, 5));
            assert forall|v: int| done.contains(v) <==> (done_before.contains(v) || v == x) by {
                if done_before.contains(v) {
                    let k = choose|k: int| 0 <= k < done_before.len() && done_before[k] == v;
                    assert(done[k] == v);
                }
                if v == x {
                    assert(done[done.len() - 1] == v);
                }
            }
        }
        if x < TILE_TEX {
            fill(&mut t, x, 0, 1, TILE_TEX, mortar);
        }
    }
    assert(grooves(rng.state, x as int, 3, 5) == Seq::<int>::empty());
    assert(upright == done);
    let ghost mut rows: Seq<int> = Seq::empty();
    let mut y: usize = 0;
    while y < TILE_TEX
        invariant
            y <= 1000,
            t@.len() == TEXELS,
            level == rows + grooves(rng.state, y as int, 4, 6),
            forall|i: int| 0 <= i < TEXELS ==> t@[i] == (if upright.contains(i % TILE_TEX as int) || rows.contains(
                i / TILE_TEX as int,
            ) { mortar } else { base }),
        decreases 1000 - y,
    {
        let ghost rows_before = rows;
        let ghost y_before = y as int;
        let ghost state_before = rng.state;
        let bits: u32 = rng.next_bits();
        y = y + sw(4 + draw_whole(bits, 6));
        proof {
            rows = rows.push(y as int);
            assert(grooves(state_before, y_before, 4, 6) == seq![y as int] + grooves(rng.state, y as int, 4, 6));
            assert(level == rows + grooves(rng.state, y as int, 4, 6));
            assert forall|v: int| rows.contains(v) <==> (rows_before.contains(v) || v == y) by {
                if rows_before.contains(v) {
                    let k = choose|k: int| 0 <= k < rows_before.len() && rows_before[k] == v;
                    assert(rows[k] == v);
                }
                if v == y {
                    assert(rows[rows.len() - 1] == v);
                }
            }
        }
        if y < TILE_TEX {
            row(&mut t, y, mortar);
        }
    }
    assert(grooves(rng.state, y as int, 4, 6) == Seq::<int>::empty());
    assert(level == rows);
    t
}

/// How far a scratch has drifted, in whole texels, after `at` of `steps` steps: the
/// single-precision value of `drift * at / steps` without its fraction.
pub open spec fn drifted(drift: int, at: nat, steps: nat) -> int {
    let magnitude = if drift < 0 { -drift } else { drift };
    let wide = rounded(magnitude as nat * at) * 0x1_0000_0000_0000;
    let quotient = 2 * (wide / steps) + (if wide % steps == 0 { 0nat } else { 1nat });
    let whole = (rounded(quotient as nat) / 0x2_0000_0000_0000_0000_0000) as int;
    if drift < 0 {
        -whole
    } else {
        whole
    }
}

/// The tile once a scratch has run from step `at` to its end.
pub open spec fn scratched(
    t: Seq<[u8; 3]>,
    mortar: [u8; 3],
    x: int,
    y: int,
    drift: int,
    at: nat,
    steps: nat,
) -> Seq<[u8; 3]>
    decreases steps - at,
{
    if at >= steps {
        t
    } else {
        let next = (x + drifted(drift, at, steps)) % TILE_TEX as int;
        scratched(
            put(t, next, lesser(y + at, TILE_TEX - 1), mortar),
            mortar,
            next,
            y,
            drift,
            at + 1,
            steps,
        )
    }
}

/// The tile once `count` scratches have been drawn from `state` onwards.
pub open spec fn rock_face(t: Seq<[u8; 3]>, mortar: [u8; 3], state: u32, count: nat) -> Seq<[u8; 3]>
    decreases count,
{
    if count == 0 {
        t
    } else {
        let first = xorshift(state);
        let second = xorshift(first);
        let third = xorshift(second);
        let fourth = xorshift(third);
        rock_face(
            scratched(
                t,
                mortar,
                whole_of_draw(first, 32) as int,
                whole_of_draw(second, 32) as int,
                shifted_draw(third, 7, 3),
                0,
                5 + whole_of_draw(fourth, 10),
            ),
            mortar,
            fourth,
            (count - 1) as nat,
        )
    }
}

fn drift_at(drift: i128, at: usize, steps: usize) -> (r: i32)
    requires
        -(ONE * 3) <= drift <= ONE * 7,
        at < steps <= 100,
    ensures
        r == drifted(drift as int, at as nat, steps as nat),
        -0x10000 <= r <= 0x10000,
{
    let magnitude: u128 = if drift < 0 {
        (-drift) as u128
    } else {
        drift as u128
    };
    assert(magnitude * at <= (ONE * 7) * 100) by (nonlinear_arith)
        requires
            magnitude <= ONE * 7,
            at <= 100,
    ;
    let wide: u128 = round_to_significand(magnitude * (at as u128)) * 0x1_0000_0000_0000;
    let divisor: u128 = steps as u128;
    let rest: u128 = wide % divisor;
    proof {
        vstd::arithmetic::div_mod::lemma_div_is_ordered_by_denominator(wide as int, 1, divisor as int);
    }
    let quotient: u128 = 2 * (wide / divisor) + (if rest == 0 {
        0
    } else {
        1
    });
    let whole: u128 = round_to_significand(quotient) / 0x2_0000_0000_0000_0000_0000;
    if drift < 0 {
        -(whole as i32)
    } else {
        whole as i32
    }
}

fn scratch(t: &mut Vec<[u8; 3]>, mortar: [u8; 3], x0: usize, y: usize, drift: i128, steps: usize)
    requires
        old(t)@.len() == TEXELS,
        x0 <= TILE_TEX,
        y <= TILE_TEX,
        -(ONE * 3) <= drift <= ONE * 7,
        steps <= 100,
    ensures
        final(t)@ == scratched(old(t)@, mortar, x0 as int, y as int, drift as int, 0, steps as nat),
        final(t)@.len() == TEXELS,
{
    let ghost goal = scratched(t@, mortar, x0 as int, y as int, drift as int, 0, steps as nat);
    let mut x: usize = x0;
    let mut at: usize = 0;
    while at < steps
        invariant
            at <= steps <= 100,
            x <= TILE_TEX,
            y <= TILE_TEX,
            -(ONE * 3) <= drift <= ONE * 7,
            t@.len() == TEXELS,
            goal == scratched(t@, mortar, x as int, y as int, drift as int, at as nat, steps as nat),
        decreases steps - at,
    {
        let moved: i32 = x as i32 + drift_at(drift, at, steps);
        let next: usize = wrap_to_tile(moved);
        let down: usize = lesser_of(y + at, TILE_TEX - 1);
        set_px(t, next, down, mortar);
        x = next;
        at = at + 1;
    }
}

/// The position within the tile that `v` stands for when the tile repeats.
pub fn wrap_to_tile(v: i32) -> (r: usize)
    requires
        -0x1000_0000 <= v <= 0x1000_0000,
    ensures
        r == v as int % TILE_TEX as int,
{
    // A multiple of the side that is large enough to make the sum positive.
    let lifted: i32 = v + 32 * 0x80_0000;
    proof {
        vstd::arithmetic::div_mod::lemma_mod_multiples_vanish(0x80_0000, v as int, TILE_TEX as int);
    }
    (lifted as usize) % TILE_TEX
}

/// Weathered rock: 8 scratches.
pub fn rock_tile(base: [u8; 3], mortar: [u8; 3], seed: u32) -> (t: Vec<[u8; 3]>)
    ensures
        t@ == rock_face(plain(base), mortar, seed_state(seed.wrapping_add(20)), 8),
        t@.len() == TEXELS,
{
    let mut rng: SeededRng = seeded_rng(seed.wrapping_add(20));
    let mut t: Vec<[u8; 3]> = plain_tile(base);
    let ghost goal = rock_face(t@, mortar, rng.state, 8);
    let mut left: usize = 8;
    while left > 0
        invariant
            t@.len() == TEXELS,
            goal == rock_face(t@, mortar, rng.state, left as nat),
        decreases left,
    {
        let x: usize = draw_whole(rng.next_bits(), 32);
        let y: usize = draw_whole(rng.next_bits(), 32);
        let drift: i128 = draw_shifted(rng.next_bits(), 7, 3);
        let steps: usize = sw(5 + draw_whole(rng.next_bits(), 10));
        scratch(&mut t, mortar, x, y, drift, steps);
        left = left - 1;
    }
    t
}

/// The tile once `count` specks have been drawn from `state` onwards.
pub open spec fn specked(t: Seq<[u8; 3]>, mortar: [u8; 3], state: u32, count: nat) -> Seq<[u8; 3]>
    decreases count,
{
    if count == 0 {
        t
    } else {
        let first = xorshift(state);
        let second = xorshift(first);
        let third = xorshift(second);
        specked(
            filled(
                t,
                whole_of_draw(first, 32) as int,
                whole_of_draw(second, 32) as int,
                1 + whole_of_draw(third, 3) as int,
                1,
                mortar,
            ),
            mortar,
            third,
            (count - 1) as nat,
        )
    }
}

/// Packed dirt: 40 specks.
pub fn dirt_tile(base: [u8; 3], mortar: [u8; 3], seed: u32) -> (t: Vec<[u8; 3]>)
    ensures
        t@ == specked(plain(base), mortar, seed_state(seed.wrapping_add(30)), 40),
        t@.len() == TEXELS,
{
    let mut rng: SeededRng = seeded_rng(seed.wrapping_add(30));
    let mut t: Vec<[u8; 3]> = plain_tile(base);
    let ghost goal = specked(t@, mortar, rng.state, 40);
    let mut left: usize = 40;
    while left > 0
        invariant
            t@.len() == TEXELS,
            goal == specked(t@, mortar, rng.state, left as nat),
        decreases left,
    {
        let x: usize = draw_whole(rng.next_bits(), 32);
        let y: usize = draw_whole(rng.next_bits(), 32);
        let w: usize = sw(1 + draw_whole(rng.next_bits(), 3));
        fill(&mut t, x, y, w, 1, mortar);
        left = left - 1;
    }
    t
}

/// Two fifths in single precision, in the scale of a draw.
pub const TWO_FIFTHS: u128 = 1717986944;

/// Whether a draw lies above two fifths.
pub open spec fn is_common(bits: u32) -> bool {
    rounded(bits as nat) > TWO_FIFTHS
}

fn drew_common(bits: u32) -> (r: bool)
    ensures
        r == is_common(bits),
{
    round_to_significand(bits as u128) > TWO_FIFTHS
}

/// The colour of a blade of grass.
pub open spec fn blade_colour(base: [u8; 3]) -> [u8; 3] {
    [clamped(base[0] + 10, 0, 255) as u8, clamped(base[1] + 28, 0, 255) as u8, base[2]]
}

/// The tile once the blades from column `x` on have been drawn.
pub open spec fn bladed(t: Seq<[u8; 3]>, base: [u8; 3], state: u32, x: int) -> Seq<[u8; 3]>
    decreases (if x < TILE_TEX { TILE_TEX - x } else { 0 }),
{
    if x >= TILE_TEX {
        t
    } else {
        let first = xorshift(state);
        if is_common(first) {
            let second = xorshift(first);
            let height = 2 + whole_of_draw(second, 6);
            bladed(filled(t, x, TILE_TEX - height, 1, height as int, blade_colour(base)), base, second, x + 2)
        } else {
            bladed(t, base, first, x + 2)
        }
    }
}

/// Grass: a blade on most of every second layout column.
pub fn grass_tile(base: [u8; 3], seed: u32) -> (t: Vec<[u8; 3]>)
    ensures
        t@ == bladed(plain(base), base, seed_state(seed.wrapping_add(40)), 0),
        t@.len() == TEXELS,
{
    let mut rng: SeededRng = seeded_rng(seed.wrapping_add(40));
    let mut t: Vec<[u8; 3]> = plain_tile(base);
    let ghost goal = bladed(t@, base, rng.state, 0);
    let blade: [u8; 3] = [tint(base, 10)[0], tint(base, 28)[1], base[2]];
    let mut x: usize = 0;
    while x < TILE_TEX
        invariant
            x <= 1000,
            blade == blade_colour(base),
            t@.len() == TEXELS,
            goal == bladed(t@, base, rng.state, x as int),
        decreases 1000 - x,
    {
        if drew_common(rng.next_bits()) {
            let height: usize = sw(2 + draw_whole(rng.next_bits(), 6));
            fill(&mut t, x, TILE_TEX - height, sw(1), height, blade);
        }
        x = x + sw(2);
    }
    t
}

/// The colour of one dab of foliage.
pub open spec fn dab_colour(base: [u8; 3], first: u32, second: u32) -> [u8; 3] {
    [
        clamped(base[0] + toward_zero(shifted_draw(first, 20, 8)), 0, 255) as u8,
        clamped(base[1] + toward_zero(shifted_draw(second, 28, 5)), 0, 255) as u8,
        base[2],
    ]
}

/// The tile and the generator once the dabs of one row from column `x` on are drawn.
pub open spec fn dabbed_row(t: Seq<[u8; 3]>, base: [u8; 3], state: u32, x: int, y: int) -> (Seq<[u8; 3]>, u32)
    decreases (if x < TILE_TEX { TILE_TEX - x } else { 0 }),
{
    if x >= TILE_TEX {
        (t, state)
    } else {
        let first = xorshift(state);
        if is_common(first) {
            let second = xorshift(first);
            let third = xorshift(second);
            dabbed_row(filled(t, x, y, 2, 2, dab_colour(base, second, third)), base, third, x + 3, y)
        } else {
            dabbed_row(t, base, first, x + 3, y)
        }
    }
}

/// The tile once the dabs from row `y` on are drawn.
pub open spec fn dabbed(t: Seq<[u8; 3]>, base: [u8; 3], state: u32, y: int) -> Seq<[u8; 3]>
    decreases (if y < TILE_TEX { TILE_TEX - y } else { 0 }),
{
    if y >= TILE_TEX {
        t
    } else {
        let (next, after) = dabbed_row(t, base, state, 0, y);
        dabbed(next, base, after, y + 3)
    }
}

/// Hedge foliage: square dabs on a regular grid, most of them present.
pub fn hedge_tile(base: [u8; 3], seed: u32) -> (t: Vec<[u8; 3]>)
    ensures
        t@ == dabbed(plain(base), base, seed_state(seed.wrapping_add(50)), 0),
        t@.len() == TEXELS,
{
    let mut rng: SeededRng = seeded_rng(seed.wrapping_add(50));
    let mut t: Vec<[u8; 3]> = plain_tile(base);
    let ghost goal = dabbed(t@, base, rng.state, 0);
    let mut y: usize = 0;
    while y < TILE_TEX
        invariant
            y <= 1000,
            t@.len() == TEXELS,
            goal == dabbed(t@, base, rng.state, y as int),
        decreases 1000 - y,
    {
        let ghost row_goal = dabbed_row(t@, base, rng.state, 0, y as int);
        let mut x: usize = 0;
        while x < TILE_TEX
            invariant
                x <= 1000,
                y < TILE_TEX,
                t@.len() == TEXELS,
                row_goal == dabbed_row(t@, base, rng.state, x as int, y as int),
            decreases 1000 - x,
        {
            if drew_common(rng.next_bits()) {
                let first: u32 = rng.next_bits();
                let second: u32 = rng.next_bits();
                let red: [u8; 3] = tint(base, drop_fraction(draw_shifted(first, 20, 8)));
                let green: [u8; 3] = tint(base, drop_fraction(draw_shifted(second, 28, 5)));
                fill(&mut t, x, y, sw(2), sw(2), [red[0], green[1], base[2]]);
            }
            x = x + sw(3);
        }
        y = y + sw(3);
    }
    t
}

/// Whether a texel of brickwork is a joint: it shows the mortar, whatever its colour.
#[verifier::opaque]
pub open spec fn is_brick_joint(base: [u8; 3], seed: u32, x: int, y: int) -> bool {
    forall|m: [u8; 3]| #[trigger] brick_texel(base, m, seed, x, y) == m
}

/// Whether a texel of blockwork is a joint.
#[verifier::opaque]
pub open spec fn is_block_joint(base: [u8; 3], seed: u32, x: int, y: int) -> bool {
    forall|m: [u8; 3]| #[trigger] block_texel(base, m, seed, x, y) == m
}

proof fn lemma_brick_joint(base: [u8; 3], seed: u32, x: int, y: int)
    ensures
        is_brick_joint(base, seed, x, y) <==> y % 10 < 1 || (if y / 10 % 2 == 0 { x } else { x + 10 }) % 20 < 1,
{
    reveal(is_brick_joint);
    let m = [0u8, 0u8, 0u8];
    let n = [255u8, 0u8, 0u8];
    assert(m[0] != n[0]);
    if !(y % 10 < 1 || (if y / 10 % 2 == 0 { x } else { x + 10 }) % 20 < 1) {
        assert(brick_texel(base, m, seed, x, y) == brick_texel(base, n, seed, x, y));
    }
}

proof fn lemma_block_joint(base: [u8; 3], seed: u32, x: int, y: int)
    ensures
        is_block_joint(base, seed, x, y) <==> y % 24 < 1 || x % 24 < 1,
{
    reveal(is_block_joint);
    let m = [0u8, 0u8, 0u8];
    let n = [255u8, 0u8, 0u8];
    assert(m[0] != n[0]);
    if !(y % 24 < 1 || x % 24 < 1) {
        assert(block_texel(base, m, seed, x, y) == block_texel(base, n, seed, x, y));
    }
}

/// The joints of brickwork repeat after a brick of twenty texels and after two courses of ten, and
/// from course to course they move by half a brick. Every course begins with a joint, and a course
/// has one upright joint to a brick. The colours do not matter.
#[verifier::rlimit(50)]
pub proof fn law_bricks_run_in_courses(base: [u8; 3], other: [u8; 3], seed: u32, again: u32, x: int, y: int)
    ensures
        is_brick_joint(base, seed, x, y) == is_brick_joint(other, again, x, y),
        is_brick_joint(base, seed, x, y) == is_brick_joint(base, seed, x + 20, y),
        is_brick_joint(base, seed, x, y) == is_brick_joint(base, seed, x, y + 20),
        is_brick_joint(base, seed, x, y) == is_brick_joint(base, seed, x + 10, y + 10),
        is_brick_joint(base, seed, x, 10 * y),
        y % 10 != 0 && is_brick_joint(base, seed, x, y) ==> !is_brick_joint(base, seed, x + 10, y)
            && !is_brick_joint(base, seed, x + 1, y),
        y % 10 != 0 ==> is_brick_joint(base, seed, 0, y) || is_brick_joint(base, seed, 10, y),
        is_brick_joint(base, seed, 0, 1) && !is_brick_joint(base, seed, 1, 1),
{
    lemma_brick_joint(base, seed, x, y);
    lemma_brick_joint(other, again, x, y);
    lemma_brick_joint(base, seed, x + 20, y);
    lemma_brick_joint(base, seed, x, y + 20);
    lemma_brick_joint(base, seed, x + 10, y + 10);
    lemma_brick_joint(base, seed, x, 10 * y);
    lemma_brick_joint(base, seed, x + 10, y);
    lemma_brick_joint(base, seed, x + 1, y);
    lemma_brick_joint(base, seed, 0, y);
    lemma_brick_joint(base, seed, 10, y);
    lemma_brick_joint(base, seed, 0, 1);
    lemma_brick_joint(base, seed, 1, 1);
}

/// A brick looks alike from both ends and shows its own colour between its edges and its middle; at
/// its edge it is darker.
#[verifier::rlimit(50)]
pub proof fn law_bricks_have_edges(base: [u8; 3], mortar: [u8; 3], seed: u32, course: int, k: int, i: int, j: int, c: int)
    requires
        course % 2 == 0,
        1 <= i < 19,
        1 <= j < 9,
        0 <= c < 3,
    ensures
        brick_texel(base, mortar, seed, 20 * k + i, 10 * course + j) == brick_texel(
            base,
            mortar,
            seed,
            20 * k + 19 - i,
            10 * course + j,
        ),
        brick_texel(base, mortar, seed, 20 * k + i, 10 * course + j) == brick_texel(
            base,
            mortar,
            seed,
            20 * k + i,
            10 * course + 9 - j,
        ),
        brick_texel(base, mortar, seed, 20 * k + 1, 10 * course + j)[c] <= brick_texel(
            base,
            mortar,
            seed,
            20 * k + i,
            10 * course + j,
        )[c],
{
    let x = 20 * k + i;
    let y = 10 * course + j;
    assert(y / 10 == course && y % 10 == j && x / 20 == k && x % 20 == i);
    assert((x + 19 - 2 * i) / 20 == k && (x + 19 - 2 * i) % 20 == 19 - i);
    assert((y + 9 - 2 * j) / 10 == course && (y + 9 - 2 * j) % 10 == 9 - j);
    assert((20 * k + 1) / 20 == k && (20 * k + 1) % 20 == 1);
}

/// The joints of blockwork repeat after a block of twenty-four texels in either direction, lie along
/// two sides of each, and nowhere else. The colours do not matter.
#[verifier::rlimit(50)]
pub proof fn law_blocks_are_square(base: [u8; 3], other: [u8; 3], seed: u32, again: u32, x: int, y: int, i: int, j: int)
    requires
        1 <= i < 24,
        1 <= j < 24,
    ensures
        is_block_joint(base, seed, x, y) == is_block_joint(other, again, x, y),
        is_block_joint(base, seed, x, y) == is_block_joint(base, seed, y, x),
        is_block_joint(base, seed, x, y) == is_block_joint(base, seed, x + 24, y),
        is_block_joint(base, seed, 24 * x, y),
        is_block_joint(base, seed, x, 24 * y),
        !is_block_joint(base, seed, 24 * x + i, 24 * y + j),
{
    lemma_block_joint(base, seed, x, y);
    lemma_block_joint(other, again, x, y);
    lemma_block_joint(base, seed, y, x);
    lemma_block_joint(base, seed, x + 24, y);
    lemma_block_joint(base, seed, 24 * x, y);
    lemma_block_joint(base, seed, x, 24 * y);
    lemma_block_joint(base, seed, 24 * x + i, 24 * y + j);
}

/// A block looks alike from all its ends, has one colour inside and a darker edge.
#[verifier::rlimit(50)]
pub proof fn law_blocks_have_edges(base: [u8; 3], mortar: [u8; 3], seed: u32, k: int, l: int, i: int, j: int, c: int)
    requires
        1 <= i < 23,
        1 <= j < 23,
        0 <= c < 3,
    ensures
        block_texel(base, mortar, seed, 24 * k + i, 24 * l + j) == block_texel(
            base,
            mortar,
            seed,
            24 * k + 23 - i,
            24 * l + j,
        ),
        block_texel(base, mortar, seed, 24 * k + i, 24 * l + j) == block_texel(
            base,
            mortar,
            seed,
            24 * k + i,
            24 * l + 23 - j,
        ),
        block_texel(base, mortar, seed, 24 * k + 1, 24 * l + j)[c] <= block_texel(
            base,
            mortar,
            seed,
            24 * k + i,
            24 * l + j,
        )[c],
        2 <= i < 22 && 2 <= j < 22 ==> block_texel(base, mortar, seed, 24 * k + i, 24 * l + j) == block_texel(
            base,
            mortar,
            seed,
            24 * k + 12,
            24 * l + 12,
        ),
{
    let x = 24 * k + i;
    let y = 24 * l + j;
    assert(y / 24 == l && y % 24 == j && x / 24 == k && x % 24 == i);
    assert((x + 23 - 2 * i) / 24 == k && (x + 23 - 2 * i) % 24 == 23 - i);
    assert((y + 23 - 2 * j) / 24 == l && (y + 23 - 2 * j) % 24 == 23 - j);
    assert((24 * k + 1) / 24 == k && (24 * k + 1) % 24 == 1);
    assert((24 * k + 12) / 24 == k && (24 * k + 12) % 24 == 12);
    assert((24 * l + 12) / 24 == l && (24 * l + 12) % 24 == 12);
}

/// Sand has grains on every third row alone, two to thirteen texels, and the next such row is the
/// same moved by eight texels.
pub proof fn law_sand_ripples(base: [u8; 3], mortar: [u8; 3], x: int, y: int)
    ensures
        0 <= x < 13 && x != 0 && x != 2 ==> sand_texel(base, mortar, x, 0) == base,
        y % 3 != 0 ==> sand_texel(base, mortar, x, y) == base,
        sand_texel(base, mortar, x + 13, y) == sand_texel(base, mortar, x, y),
        sand_texel(base, mortar, x + 8, y + 3) == sand_texel(base, mortar, x, y),
        sand_texel(base, mortar, 0, 0) == mortar && sand_texel(base, mortar, 2, 0) == mortar,
        sand_texel(base, mortar, 0, 0) == sand_texel(base, mortar, 13 * x, 0),
        sand_texel(base, mortar, 1, 0) == base,
{
    assert(((x + 13) * 7 + y * 3) % 13 == (x * 7 + y * 3) % 13);
    assert(((x + 8) * 7 + (y + 3) * 3) % 13 == (x * 7 + y * 3) % 13);
    assert((y + 3) % 3 == y % 3);
    assert((13 * x * 7 + 0) % 13 == 0);
}

/// A tile of one colour has that colour on every texel.
pub proof fn law_plain_tiles(base: [u8; 3], i: int)
    requires
        0 <= i < TEXELS,
    ensures
        plain(base).len() == TEXELS,
        plain(base)[i] == base,
{
}

/// Grooves lie at least their distance apart, and no farther than that and the span of a draw; the
/// first lies that far from the start. They take a draw each, and go on to the end of the tile.
#[verifier::rlimit(50)]
pub proof fn law_grooves_keep_their_distance(state: u32, at: int, least: nat, span: nat, i: int)
    requires
        least > 0,
        span <= MAX_FACTOR,
    ensures
        ({
            let g = grooves(state, at, least, span);
            &&& 0 <= i < g.len() ==> least <= g[i] - (if i == 0 { at } else { g[i - 1] }) <= least + span
            &&& 0 <= i < g.len() - 1 ==> g[i] < TILE_TEX
            &&& g.len() > 0 ==> g.last() >= TILE_TEX
            &&& at < TILE_TEX ==> g.len() > 0
            &&& state_after_grooves(state, at, least, span) == xorshift_after(state, g.len())
        }),
    decreases (if at < TILE_TEX { TILE_TEX - at } else { 0 }),
{
    let g = grooves(state, at, least, span);
    if at < TILE_TEX {
        let drawn = xorshift(state);
        let next = at + least + whole_of_draw(drawn, span);
        law_draw_bounds(drawn, span);
        let rest = grooves(drawn, next, least, span);
        law_grooves_keep_their_distance(drawn, next, least, span, i - 1);
        assert(g =~= seq![next] + rest);
        assert(g[0] == next);
        if i > 0 && i < g.len() {
            assert(g[i] == rest[i - 1]);
            if i > 1 {
                assert(g[i - 1] == rest[i - 2]);
            }
        }
        if rest.len() > 0 {
            assert(g.last() == rest.last());
        } else {
            assert(g.last() == next);
        }
        law_steps_add_up(state, 1, rest.len());
        assert(1 + rest.len() == g.len());
    } else {
        assert(xorshift_after(state, 0) == state);
    }
}

/// Bark is grooved along whole columns and rows: where a texel is grooved and another of its column
/// is not, its whole row is.
pub proof fn law_bark_has_whole_grooves(base: [u8; 3], mortar: [u8; 3], seed: u32, x: int, y: int, u: int, v: int)
    requires
        base != mortar,
    ensures
        bark_texel(base, mortar, seed, x, y) == base || bark_texel(base, mortar, seed, x, y) == mortar,
        bark_texel(base, mortar, seed, x, y) == mortar && bark_texel(base, mortar, seed, x, v) == base
            ==> bark_texel(base, mortar, seed, u, y) == mortar,
        bark_texel(base, mortar, seed, x, y) == mortar && bark_texel(base, mortar, seed, u, y) == base
            ==> bark_texel(base, mortar, seed, x, v) == mortar,
        bark_texel(base, mortar, seed, 0, 0) == base,
{
    let state = seed_state(seed.wrapping_add(10));
    lemma_grooves_lie_beyond(state, 0, 3, 5);
    lemma_grooves_lie_beyond(state_after_grooves(state, 0, 3, 5), 0, 4, 6);
}

proof fn lemma_grooves_lie_beyond(state: u32, at: int, least: nat, span: nat)
    requires
        least > 0,
    ensures
        forall|i: int| 0 <= i < grooves(state, at, least, span).len() ==> #[trigger] grooves(state, at, least, span)[i] > at,
    decreases (if at < TILE_TEX { TILE_TEX - at } else { 0 }),
{
    if at < TILE_TEX {
        let drawn = xorshift(state);
        let next = at + least + whole_of_draw(drawn, span);
        lemma_grooves_lie_beyond(drawn, next, least, span);
        let rest = grooves(drawn, next, least, span);
        assert forall|i: int| 0 <= i < grooves(state, at, least, span).len() implies #[trigger] grooves(
            state,
            at,
            least,
            span,
        )[i] > at by {
            if i > 0 {
                assert(grooves(state, at, least, span)[i] == rest[i - 1]);
            }
        }
    }
}

/// A scratch drifts the same way to either side, not at all at its start, and farther with every
/// step.
#[verifier::rlimit(50)]
pub proof fn law_scratches_drift(drift: int, at: nat, later: nat, steps: nat)
    requires
        at <= later,
        steps > 0,
    ensures
        drifted(-drift, at, steps) == -drifted(drift, at, steps),
        drifted(drift, 0, steps) == 0,
        drift >= 0 ==> 0 <= drifted(drift, at, steps) <= drifted(drift, later, steps),
{
    law_small_numbers_are_exact(0);
    let m = (if drift < 0 { -drift } else { drift }) as nat;
    assert(m * 0 == 0);
    assert(0 * 0x1_0000_0000_0000 == 0);
    assert(0nat / steps == 0 && 0nat % steps == 0) by (nonlinear_arith)
        requires
            steps > 0,
    ;
    assert(drifted(drift, 0, steps) == 0);
    assert(m * at <= m * later) by (nonlinear_arith)
        requires
            at <= later,
    ;
    law_rounding_is_monotone(m * at, m * later);
    let p = rounded(m * at) * 0x1_0000_0000_0000;
    let q = rounded(m * later) * 0x1_0000_0000_0000;
    vstd::arithmetic::div_mod::lemma_fundamental_div_mod(p as int, steps as int);
    vstd::arithmetic::div_mod::lemma_fundamental_div_mod(q as int, steps as int);
    vstd::arithmetic::div_mod::lemma_div_is_ordered(p as int, q as int, steps as int);
    let low = 2 * (p / steps) + (if p % steps == 0 { 0nat } else { 1nat });
    let high = 2 * (q / steps) + (if q % steps == 0 { 0nat } else { 1nat });
    if p / steps == q / steps {
        assert(p % steps <= q % steps);
    }
    law_rounding_is_monotone(low, high);
    if drift == 0 {
        assert(m * at == 0 && m * later == 0) by (nonlinear_arith)
            requires
                m == 0,
        ;
        assert(p == 0 && q == 0);
    }
}

/// A scratch shows the mortar and changes nothing else; nor do scratches and specks together.
#[verifier::rlimit(50)]
pub proof fn law_scratches_show_the_mortar(
    t: Seq<[u8; 3]>,
    mortar: [u8; 3],
    x: int,
    y: int,
    drift: int,
    at: nat,
    steps: nat,
    i: int,
)
    requires
        TEXELS <= t.len(),
        0 <= i < t.len(),
    ensures
        scratched(t, mortar, x, y, drift, at, steps).len() == t.len(),
        scratched(t, mortar, x, y, drift, at, steps)[i] == t[i] || scratched(t, mortar, x, y, drift, at, steps)[i]
            == mortar,
        i / (TILE_TEX as int) < y + at && i / (TILE_TEX as int) < TILE_TEX - 1 && y >= 0 ==> scratched(
            t,
            mortar,
            x,
            y,
            drift,
            at,
            steps,
        )[i] == t[i],
    decreases steps - at,
{
    if at < steps {
        let next = (x + drifted(drift, at, steps)) % TILE_TEX as int;
        let row = lesser(y + at, TILE_TEX - 1);
        let u = put(t, next, row, mortar);
        assert(TILE_TEX == 32 && TEXELS == 32 * 32);
        law_scratches_show_the_mortar(u, mortar, next, y, drift, at + 1, steps, i);
    }
}

/// A rock face has scratches of mortar on its colour, and nothing else.
pub proof fn law_rock_shows_its_mortar(t: Seq<[u8; 3]>, mortar: [u8; 3], state: u32, count: nat, i: int)
    requires
        TEXELS <= t.len(),
        0 <= i < t.len(),
    ensures
        rock_face(t, mortar, state, count).len() == t.len(),
        rock_face(t, mortar, state, count)[i] == t[i] || rock_face(t, mortar, state, count)[i] == mortar,
    decreases count,
{
    if count > 0 {
        let first = xorshift(state);
        let second = xorshift(first);
        let third = xorshift(second);
        let fourth = xorshift(third);
        let x = whole_of_draw(first, 32) as int;
        let y = whole_of_draw(second, 32) as int;
        let drift = shifted_draw(third, 7, 3);
        let steps = 5 + whole_of_draw(fourth, 10);
        law_scratches_show_the_mortar(t, mortar, x, y, drift, 0, steps, i);
        law_rock_shows_its_mortar(
            scratched(t, mortar, x, y, drift, 0, steps),
            mortar,
            fourth,
            (count - 1) as nat,
            i,
        );
    }
}

/// Dirt has specks of mortar on its colour, and nothing else; each speck is one texel high and takes
/// three draws.
#[verifier::rlimit(50)]
pub proof fn law_dirt_shows_its_mortar(t: Seq<[u8; 3]>, mortar: [u8; 3], state: u32, count: nat, more: nat, i: int)
    requires
        0 <= i < t.len(),
    ensures
        specked(t, mortar, state, count).len() == t.len(),
        specked(t, mortar, state, count)[i] == t[i] || specked(t, mortar, state, count)[i] == mortar,
        specked(t, mortar, state, count + more) == specked(
            specked(t, mortar, state, count),
            mortar,
            xorshift_after(state, 3 * count),
            more,
        ),
    decreases count,
{
    if count > 0 {
        let first = xorshift(state);
        let second = xorshift(first);
        let third = xorshift(second);
        let u = filled(
            t,
            whole_of_draw(first, 32) as int,
            whole_of_draw(second, 32) as int,
            1 + whole_of_draw(third, 3) as int,
            1,
            mortar,
        );
        law_dirt_shows_its_mortar(u, mortar, third, (count - 1) as nat, more, i);
        assert((count + more - 1) as nat == (count - 1) as nat + more);
        reveal_with_fuel(xorshift_after, 4);
        assert(xorshift_after(state, 3) == third);
        law_steps_add_up(state, 3, (3 * (count - 1)) as nat);
    } else {
        assert(xorshift_after(state, 0) == state);
    }
}

/// A blade of grass is greener and a little redder than the ground, and as blue.
pub proof fn law_blades_are_greener(base: [u8; 3])
    ensures
        base[1] <= 227 ==> blade_colour(base)[1] - base[1] == 28,
        base[0] <= 245 ==> blade_colour(base)[0] - base[0] == 10,
        blade_colour(base)[0] >= base[0] && blade_colour(base)[1] >= base[1],
        blade_colour(base)[2] == base[2],
{
}

/// Blades stand on every second column from the one where they start, rise from the bottom of the
/// tile by no more than eight texels, and change nothing else.
#[verifier::rlimit(50)]
pub proof fn law_blades_rise_from_the_ground(t: Seq<[u8; 3]>, base: [u8; 3], state: u32, x: int, u: int, v: int)
    requires
        TEXELS <= t.len(),
        0 <= x,
        0 <= u < TILE_TEX,
        0 <= v < TILE_TEX,
    ensures
        bladed(t, base, state, x).len() == t.len(),
        bladed(t, base, state, x)[v * TILE_TEX + u] == t[v * TILE_TEX + u] || bladed(t, base, state, x)[v * TILE_TEX + u]
            == blade_colour(base),
        u < x || (u - x) % 2 != 0 || v < TILE_TEX - 8 ==> bladed(t, base, state, x)[v * TILE_TEX + u] == t[v * TILE_TEX
            + u],
    decreases (if x < TILE_TEX { TILE_TEX - x } else { 0 }),
{
    assert(TILE_TEX == 32 && TEXELS == 32 * 32);
    if x < TILE_TEX {
        let first = xorshift(state);
        if is_common(first) {
            let second = xorshift(first);
            let height = 2 + whole_of_draw(second, 6);
            law_draw_bounds(second, 6);
            let w = filled(t, x, TILE_TEX - height, 1, height as int, blade_colour(base));
            law_a_rectangle_is_filled(t, x, TILE_TEX - height, 1, height as int, blade_colour(base), u, v);
            law_blades_rise_from_the_ground(w, base, second, x + 2, u, v);
        } else {
            law_blades_rise_from_the_ground(t, base, first, x + 2, u, v);
        }
    }
}

/// A dab keeps the blue of the foliage, and higher draws never make it darker.
pub proof fn law_dabs_keep_their_blue(base: [u8; 3], first: u32, second: u32, higher: u32)
    requires
        first <= higher,
    ensures
        dab_colour(base, first, second)[2] == base[2],
        dab_colour(base, first, second)[0] <= dab_colour(base, higher, second)[0],
        dab_colour(base, second, first)[1] <= dab_colour(base, second, higher)[1],
        dab_colour(base, first, second)[1] == dab_colour(base, higher, second)[1],
{
    law_shifted_draws_keep_their_order(first, higher, 20, 8, 8);
    law_shifted_draws_keep_their_order(first, higher, 28, 5, 5);
    law_fractions_are_left_out(shifted_draw(first, 20, 8), shifted_draw(higher, 20, 8), 0);
    law_fractions_are_left_out(shifted_draw(first, 28, 5), shifted_draw(higher, 28, 5), 0);
}

#[verifier::rlimit(50)]
proof fn lemma_dabbed_row(t: Seq<[u8; 3]>, base: [u8; 3], state: u32, x: int, y: int, i: int)
    requires
        0 <= i < t.len(),
        0 <= x,
        t[i][2] == base[2],
    ensures
        dabbed_row(t, base, state, x, y).0.len() == t.len(),
        dabbed_row(t, base, state, x, y).0[i][2] == base[2],
        !(y <= i / TILE_TEX as int && i / (TILE_TEX as int) < y + 2) || i % (TILE_TEX as int) < x ==> dabbed_row(
            t,
            base,
            state,
            x,
            y,
        ).0[i] == t[i],
        (i % (TILE_TEX as int) - x) % 3 == 2 ==> dabbed_row(t, base, state, x, y).0[i] == t[i],
    decreases (if x < TILE_TEX { TILE_TEX - x } else { 0 }),
{
    if x < TILE_TEX {
        let first = xorshift(state);
        if is_common(first) {
            let second = xorshift(first);
            let third = xorshift(second);
            let w = filled(t, x, y, 2, 2, dab_colour(base, second, third));
            lemma_dabbed_row(w, base, third, x + 3, y, i);
        } else {
            lemma_dabbed_row(t, base, first, x + 3, y, i);
        }
    }
}

/// Foliage is dabbed two texels wide and high on a grid of three: every third row and column stays,
/// and so does the blue of every texel.
#[verifier::rlimit(50)]
pub proof fn law_foliage_has_gaps(t: Seq<[u8; 3]>, base: [u8; 3], state: u32, y: int, i: int)
    requires
        0 <= i < t.len(),
        0 <= y,
        t[i][2] == base[2],
    ensures
        dabbed(t, base, state, y).len() == t.len(),
        dabbed(t, base, state, y)[i][2] == base[2],
        i % (TILE_TEX as int) % 3 == 2 || (i / (TILE_TEX as int) - y) % 3 == 2 || i / (TILE_TEX as int) < y
            ==> dabbed(t, base, state, y)[i] == t[i],
    decreases (if y < TILE_TEX { TILE_TEX - y } else { 0 }),
{
    if y < TILE_TEX {
        lemma_dabbed_row(t, base, state, 0, y, i);
        let (next, after) = dabbed_row(t, base, state, 0, y);
        law_foliage_has_gaps(next, base, after, y + 3, i);
    }
}

/// A draw is common from a little above two fifths on, and not below.
pub proof fn law_common_draws(bits: u32, higher: u32)
    requires
        bits <= higher,
    ensures
        is_common(bits) ==> is_common(higher),
        bits <= 1717986943 ==> !is_common(bits),
        bits >= 1717987200 ==> is_common(bits),
{
    law_rounding_is_monotone(bits as nat, higher as nat);
    assert(power_of_two(7) == 128) by {
        reveal_with_fuel(power_of_two, 8);
    }
    lemma_exact_in_units(13421773, 7);
    lemma_exact_in_units(13421775, 7);
    if bits <= 1717986943 {
        law_rounding_is_monotone(bits as nat, 13421773 * 128);
    }
    if bits >= 1717987200 {
        law_rounding_is_monotone(13421775 * 128, bits as nat);
    }
}

/// A dab moves the red by eight steps down to twelve up and the green by five down to twenty-three up, in
/// proportion to the draws, as long as it meets no limit.
#[verifier::rlimit(50)]
pub proof fn law_dabs_vary_by_their_draws(base: [u8; 3], first: u32, second: u32)
    ensures
        ({
            let dab = dab_colour(base, first, second);
            let one: int = 0x1_0000_0000;
            &&& 0 < dab[0] < 255 ==> -one - 0x10_0000 < (dab[0] - base[0]) * one - (first * 20 - 8 * one) < one + 0x10_0000
            &&& 0 < dab[1] < 255 ==> -one - 0x10_0000 < (dab[1] - base[1]) * one - (second * 28 - 5 * one) < one + 0x10_0000
        }),
{
    law_shifted_draws_are_scaled(first, 20, 8);
    law_shifted_draws_are_scaled(second, 28, 5);
}

} // verus!
