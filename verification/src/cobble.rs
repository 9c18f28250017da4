//! Cobblestones: every texel shows the stone whose centre is nearest, and mortar
//! where the two nearest centres are about equally far.
//!
//! Lengths are fixed-point integers. Positions count in units of two to the power
//! minus 24, squares in units of two to the power minus 48, and distances in units
//! of two to the power minus 52. Each operation rounds to single precision.
use vstd::prelude::*;

use crate::rng::{
    draw_shifted, drop_fraction, law_draw_bounds, law_signs_are_rounded_alike, law_steps_add_up, rounded_signed,
    seed_state, seeded_rng, shifted_draw, toward_zero, xorshift, xorshift_after, SeededRng,
};
use crate::raster::lemma_exact_in_units;
use crate::rounding::{
    law_rounding_error, law_rounding_is_monotone, law_small_numbers_are_exact, lemma_rounded_at_most_whole,
    lemma_spacing_relative, power_of_two, round_to_significand, rounded, SIGNIFICAND_LIMIT,
};
use crate::tiles::{tint, tinted, TEXELS, TILE_TEX};

verus! {

/// The number of stones: eight rows of eight.
pub const STONES: usize = 64;

/// The side of the tile in position units.
pub const SIDE: u128 = 32 * 0x100_0000;

/// 0.65 in single precision, times two to the power 24.
pub const JITTER: u128 = 10905190;

/// The mortar width, 1.2 texels in single precision, in distance units.
pub const MORTAR_WIDTH: u128 = 10066330 * 0x2000_0000;

/// One texel in distance units.
pub const TEXEL: u128 = 0x10_0000_0000_0000;

/// A distance beyond every other.
pub const FAR: u128 = 0x1_0000_0000_0000_0000_0000;

/// How far a centre is moved off the middle of its cell, in units of two to the power
/// minus 56.
pub open spec fn jitter(bits: u32) -> int {
    let centred = rounded_signed(rounded(bits as nat) - 0x8000_0000);
    rounded_signed(rounded_signed(centred * 4) * JITTER)
}

/// One coordinate of the centre of the stone in cell `cell`. A centre lies at half a
/// texel or beyond, where single precision has no finer steps than a position unit.
pub open spec fn centre(cell: nat, bits: u32) -> nat {
    rounded(((4 * cell + 2) * 0x100_0000_0000_0000 + jitter(bits)) as nat) / 0x1_0000_0000
}

/// A stone: the coordinates of its centre and its colour.
#[derive(Clone, Copy, Debug)]
pub struct Stone {
    pub x: u128,
    pub y: u128,
    pub colour: [u8; 3],
}

/// Stone `k` of the field grown from `state`, which takes three draws for each stone.
pub open spec fn stone(base: [u8; 3], state: u32, k: nat) -> Stone {
    Stone {
        x: centre(k % 8, xorshift_after(state, 3 * k + 1)) as u128,
        y: centre(k / 8, xorshift_after(state, 3 * k + 2)) as u128,
        colour: tinted(base, toward_zero(shifted_draw(xorshift_after(state, 3 * k + 3), 30, 15))),
    }
}

/// The distance between texel `at` and position `to` along one axis of the repeating tile.
pub open spec fn axis_gap(at: nat, to: nat) -> nat {
    let here = at * 0x100_0000;
    let direct = rounded(if here < to { (to - here) as nat } else { (here - to) as nat });
    let around = rounded((SIDE - direct) as nat);
    if direct < around {
        direct
    } else {
        around
    }
}

/// The square of the distance between a texel and the centre of a stone.
pub open spec fn square_gap(s: Stone, x: nat, y: nat) -> nat {
    let dx = axis_gap(x, s.x as nat);
    let dy = axis_gap(y, s.y as nat);
    rounded(rounded(dx * dx) + rounded(dy * dy))
}

/// Whether `r` is the whole part of the square root of `n`.
pub open spec fn is_floor_root(n: nat, r: nat) -> bool {
    r * r <= n && n < (r + 1) * (r + 1)
}

/// The whole part of the square root of `n`.
pub open spec fn floor_root(n: nat) -> nat {
    choose|r: nat| is_floor_root(n, r)
}

/// The distance whose square is `square`: the root, with a trailing bit that stands
/// for what lies beyond it, rounded to single precision.
pub open spec fn distance(square: nat) -> nat {
    let wide = square * 0x40_0000_0000_0000;
    let root = floor_root(wide);
    rounded(2 * root + (if root * root == wide { 0nat } else { 1nat }))
}

/// The nearest stones to a texel: the two least distances, and which stone is nearest.
pub struct Nearest {
    pub first: nat,
    pub second: nat,
    pub stone: int,
}

/// The nearest of the first `k` stones; of two at the same distance, the earlier one.
pub open spec fn nearest(stones: Seq<Stone>, x: nat, y: nat, k: nat) -> Nearest
    decreases k,
{
    if k == 0 {
        Nearest { first: FAR as nat, second: FAR as nat, stone: -1 }
    } else {
        let so_far = nearest(stones, x, y, (k - 1) as nat);
        let d = distance(square_gap(stones[k - 1], x, y));
        if d < so_far.first {
            Nearest { first: d, second: so_far.first, stone: k - 1 }
        } else if d < so_far.second {
            Nearest { first: so_far.first, second: d, stone: so_far.stone }
        } else {
            so_far
        }
    }
}

/// How much lighter a stone is at a distance from its centre: from -2 to 0 steps of tint.
pub open spec fn shade(d: nat) -> int {
    let v = rounded_signed(2 * MORTAR_WIDTH - d);
    let limit = 8 * TEXEL;
    let bounded = if v < -limit { -limit } else if v > limit { limit as int } else { v };
    if bounded < 0 {
        -((-bounded) / TEXEL as int / 3)
    } else {
        bounded / TEXEL as int / 3
    }
}

/// A texel of the cobblestone tile.
pub open spec fn cobble_texel(stones: Seq<Stone>, mortar: [u8; 3], x: nat, y: nat) -> [u8; 3] {
    let near = nearest(stones, x, y, STONES as nat);
    if rounded((near.second - near.first) as nat) < MORTAR_WIDTH {
        mortar
    } else {
        tinted(stones[near.stone].colour, shade(near.first))
    }
}

/// The field of stones of a seed.
pub open spec fn stone_field(base: [u8; 3], seed: u32) -> Seq<Stone> {
    Seq::new(STONES as nat, |k: int| stone(base, seed_state(seed.wrapping_add(71)), k as nat))
}

/// A square root has one whole part.
pub proof fn lemma_floor_root_unique(n: nat, r: nat)
    requires
        is_floor_root(n, r),
    ensures
        floor_root(n) == r,
{
    let c = floor_root(n);
    assert(is_floor_root(n, c));
    if c < r {
        assert((c + 1) * (c + 1) <= r * r) by (nonlinear_arith)
            requires
                c + 1 <= r,
        ;
    } else if r < c {
        assert((r + 1) * (r + 1) <= c * c) by (nonlinear_arith)
            requires
                r + 1 <= c,
        ;
    }
}

/// The whole part of the square root.
pub fn integer_root(n: u128) -> (r: u128)
    requires
        n < 0x100_0000_0000_0000_0000_0000_0000_0000,
    ensures
        r == floor_root(n as nat),
        is_floor_root(n as nat, r as nat),
        r < 0x1000_0000_0000_0000,
{
    let mut low: u128 = 0;
    let mut high: u128 = 0x1000_0000_0000_0000;
    while high - low > 1
        invariant
            low < high <= 0x1000_0000_0000_0000,
            low * low <= n,
            n < high * high,
        decreases high - low,
    {
        let mid: u128 = low + (high - low) / 2;
        assert(mid * mid <= 0x1000_0000_0000_0000 * 0x1000_0000_0000_0000) by (nonlinear_arith)
            requires
                mid <= 0x1000_0000_0000_0000,
        ;
        if mid * mid <= n {
            low = mid;
        } else {
            high = mid;
        }
    }
    assert(high == low + 1);
    assert(is_floor_root(n as nat, low as nat));
    proof {
        lemma_floor_root_unique(n as nat, low as nat);
    }
    low
}

/// Every number has a whole root.
pub proof fn lemma_floor_root_exists(n: nat)
    ensures
        is_floor_root(n, floor_root(n)),
    decreases n,
{
    if n == 0 {
        assert(0nat * 0nat == 0 && (0nat + 1) * (0nat + 1) == 1) by (nonlinear_arith);
        assert(is_floor_root(0, 0));
    } else {
        lemma_floor_root_exists((n - 1) as nat);
        let r = floor_root((n - 1) as nat);
        if n < (r + 1) * (r + 1) {
            assert(is_floor_root(n, r));
        } else {
            assert((r + 2) * (r + 2) == (r + 1) * (r + 1) + 2 * r + 3) by (nonlinear_arith);
            assert(is_floor_root(n, r + 1));
        }
    }
}

/// A larger square belongs to a distance that is no smaller.
pub proof fn law_distance_is_monotone(a: nat, b: nat)
    requires
        a <= b,
    ensures
        distance(a) <= distance(b),
{
    let m = a * 0x40_0000_0000_0000;
    let n = b * 0x40_0000_0000_0000;
    lemma_floor_root_exists(m);
    lemma_floor_root_exists(n);
    let r = floor_root(m);
    let s = floor_root(n);
    assert(r <= s) by (nonlinear_arith)
        requires
            r * r <= m,
            m <= n,
            n < (s + 1) * (s + 1),
    ;
    let low = 2 * r + (if r * r == m { 0nat } else { 1nat });
    let high = 2 * s + (if s * s == n { 0nat } else { 1nat });
    if r == s {
        assert(r * r == s * s);
    }
    assert(low <= high);
    law_rounding_is_monotone(low, high);
}

/// Rounds the magnitude of a signed number.
fn round_signed(v: i128) -> (r: i128)
    requires
        -0xff_ffff_ffff_ffff_ffff_ffff_ffff_ffff <= v <= 0xff_ffff_ffff_ffff_ffff_ffff_ffff_ffff,
    ensures
        r == rounded_signed(v as int),
{
    if v < 0 {
        -(round_to_significand((-v) as u128) as i128)
    } else {
        round_to_significand(v as u128) as i128
    }
}

/// The farthest that a centre can lie, in position units.
pub const MAX_CENTRE: u128 = 127 * 0x40_0000;

fn jitter_of(bits: u32) -> (r: i128)
    ensures
        r == jitter(bits),
        -0x160_0000_0000_0000 < r < 0x160_0000_0000_0000,
{
    let unit: u128 = round_to_significand(bits as u128);
    proof {
        lemma_rounded_at_most_whole(bits as nat, 1);
    }
    let off: i128 = unit as i128 - 0x8000_0000;
    let centred: i128 = round_signed(off);
    proof {
        let m: nat = if off < 0 { (-off) as nat } else { off as nat };
        crate::rounding::lemma_rounded_upper(m, 0x8000_0000);
    }
    let spread: i128 = round_signed(centred * 4);
    proof {
        let m: nat = if centred < 0 { (-(centred * 4)) as nat } else { (centred * 4) as nat };
        crate::rounding::lemma_rounded_upper(m, 0x2_0000_0400);
        let w: nat = if spread < 0 { (-(spread * JITTER)) as nat } else { (spread * JITTER) as nat };
        crate::rounding::lemma_rounded_upper(w, 0x2_0000_1000 * 10905190);
    }
    round_signed(spread * (JITTER as i128))
}

fn centre_of(cell: usize, bits: u32) -> (r: u128)
    requires
        cell < 8,
    ensures
        r as nat == centre(cell as nat, bits),
        r <= MAX_CENTRE,
{
    let middle: i128 = (4 * (cell as i128) + 2) * 0x100_0000_0000_0000;
    let moved: i128 = middle + jitter_of(bits);
    proof {
        crate::rounding::lemma_rounded_upper(moved as nat, 126 * 0x40_0000_0000_0000);
    }
    round_to_significand(moved as u128) / 0x1_0000_0000
}

/// Grows the field of stones of a seed.
fn grow_stones(base: [u8; 3], seed: u32) -> (r: Vec<Stone>)
    ensures
        r@ == stone_field(base, seed),
        forall|k: int| 0 <= k < r@.len() ==> r@[k].x <= MAX_CENTRE && r@[k].y <= MAX_CENTRE,
{
    let mut rng: SeededRng = seeded_rng(seed.wrapping_add(71));
    let ghost start = rng.state;
    let mut stones: Vec<Stone> = Vec::new();
    while stones.len() < STONES
        invariant
            stones@.len() <= STONES,
            rng.state == xorshift_after(start, 3 * stones@.len()),
            forall|k: int| 0 <= k < stones@.len() ==> stones@[k] == stone(base, start, k as nat),
            forall|k: int| 0 <= k < stones@.len() ==> stones@[k].x <= MAX_CENTRE && stones@[k].y <= MAX_CENTRE,
        decreases STONES - stones.len(),
    {
        let k: usize = stones.len();
        let first: u32 = rng.next_bits();
        let second: u32 = rng.next_bits();
        let third: u32 = rng.next_bits();
        proof {
            assert(xorshift_after(start, (3 * k + 1) as nat) == xorshift(xorshift_after(start, (3 * k) as nat)));
            assert(xorshift_after(start, (3 * k + 2) as nat) == xorshift(xorshift_after(start, (3 * k + 1) as nat)));
            assert(xorshift_after(start, (3 * k + 3) as nat) == xorshift(xorshift_after(start, (3 * k + 2) as nat)));
        }
        let x: u128 = centre_of(k % 8, first);
        let y: u128 = centre_of(k / 8, second);
        let colour: [u8; 3] = tint(base, drop_fraction(draw_shifted(third, 30, 15)));
        stones.push(Stone { x, y, colour });
    }
    stones
}

fn gap_along(at: usize, to: u128) -> (r: u128)
    requires
        at < TILE_TEX,
        to <= MAX_CENTRE,
    ensures
        r as nat == axis_gap(at as nat, to as nat),
        r <= 17 * 0x100_0000,
{
    let here: u128 = (at as u128) * 0x100_0000;
    let apart: u128 = if here < to {
        to - here
    } else {
        here - to
    };
    proof {
        crate::rounding::lemma_rounded_upper(apart as nat, 127 * 0x40_0000);
    }
    let direct: u128 = round_to_significand(apart);
    let around: u128 = round_to_significand(SIDE - direct);
    proof {
        if direct >= 17 * 0x100_0000 {
            crate::rounding::lemma_rounded_upper((SIDE - direct) as nat, 15 * 0x100_0000);
        }
    }
    if direct < around {
        direct
    } else {
        around
    }
}

fn square_gap_of(stone: &Stone, x: usize, y: usize) -> (r: u128)
    requires
        x < TILE_TEX,
        y < TILE_TEX,
        stone.x <= MAX_CENTRE,
        stone.y <= MAX_CENTRE,
    ensures
        r as nat == square_gap(*stone, x as nat, y as nat),
        r < 0x400_0000_0000_0000,
{
    let dx: u128 = gap_along(x, stone.x);
    let dy: u128 = gap_along(y, stone.y);
    assert(dx * dx <= (17 * 0x100_0000) * (17 * 0x100_0000)) by (nonlinear_arith)
        requires
            dx <= 17 * 0x100_0000,
    ;
    assert(dy * dy <= (17 * 0x100_0000) * (17 * 0x100_0000)) by (nonlinear_arith)
        requires
            dy <= 17 * 0x100_0000,
    ;
    proof {
        crate::rounding::lemma_rounded_upper((dx * dx) as nat, 0x122_0000_0000_0000);
        crate::rounding::lemma_rounded_upper((dy * dy) as nat, 0x122_0000_0000_0000);
    }
    let across: u128 = round_to_significand(dx * dx);
    let down: u128 = round_to_significand(dy * dy);
    proof {
        crate::rounding::lemma_rounded_upper((across + down) as nat, 0x250_0000_0000_0000);
    }
    round_to_significand(across + down)
}

/// The distance whose square is given, in single precision.
pub fn distance_of(square: u128) -> (r: u128)
    requires
        square <= 0x1_0000_0000_0000_0000,
    ensures
        r as nat == distance(square as nat),
        r < FAR,
{
    let wide: u128 = square * 0x40_0000_0000_0000;
    let root: u128 = integer_root(wide);
    assert(root * root <= 0x1000_0000_0000_0000 * 0x1000_0000_0000_0000) by (nonlinear_arith)
        requires
            root < 0x1000_0000_0000_0000,
    ;
    let beyond: u128 = if root * root == wide {
        0
    } else {
        1
    };
    round_to_significand(2 * root + beyond)
}

/// Finds the nearest stone and the two least distances. A square that is no smaller
/// than that of the second distance cannot change either, so its root is not taken.
fn nearest_of(stones: &Vec<Stone>, x: usize, y: usize) -> (r: (u128, u128, usize))
    requires
        x < TILE_TEX,
        y < TILE_TEX,
        stones@.len() == STONES,
        forall|k: int| 0 <= k < stones@.len() ==> stones@[k].x <= MAX_CENTRE && stones@[k].y <= MAX_CENTRE,
    ensures
        r.0 == nearest(stones@, x as nat, y as nat, STONES as nat).first,
        r.1 == nearest(stones@, x as nat, y as nat, STONES as nat).second,
        r.2 == nearest(stones@, x as nat, y as nat, STONES as nat).stone,
        r.0 <= r.1 < FAR,
        r.2 < STONES,
{
    let mut first: u128 = FAR;
    let mut second: u128 = FAR;
    let mut first_square: u128 = 0;
    let mut second_square: u128 = 0;
    let mut index: usize = 0;
    let mut k: usize = 0;
    while k < STONES
        invariant
            k <= STONES,
            x < TILE_TEX,
            y < TILE_TEX,
            stones@.len() == STONES,
            forall|j: int| 0 <= j < stones@.len() ==> stones@[j].x <= MAX_CENTRE && stones@[j].y <= MAX_CENTRE,
            first == nearest(stones@, x as nat, y as nat, k as nat).first,
            second == nearest(stones@, x as nat, y as nat, k as nat).second,
            k > 0 ==> index == nearest(stones@, x as nat, y as nat, k as nat).stone,
            k > 0 ==> index < k,
            first <= second <= FAR,
            first == FAR || first == distance(first_square as nat),
            second == FAR || second == distance(second_square as nat),
            k >= 1 ==> first < FAR,
            k >= 2 ==> second < FAR,
        decreases STONES - k,
    {
        let square: u128 = square_gap_of(&stones[k], x, y);
        if second == FAR || square < second_square {
            let d: u128 = distance_of(square);
            if d < first {
                second = first;
                second_square = first_square;
                first = d;
                first_square = square;
                index = k;
            } else if d < second {
                second = d;
                second_square = square;
            }
        } else {
            proof {
                law_distance_is_monotone(second_square as nat, square as nat);
            }
        }
        k = k + 1;
    }
    (first, second, index)
}

fn shade_of(d: u128) -> (r: i32)
    requires
        d < FAR,
    ensures
        r == shade(d as nat),
        -3 < r < 3,
{
    let v: i128 = round_signed(2 * (MORTAR_WIDTH as i128) - d as i128);
    let limit: i128 = 8 * (TEXEL as i128);
    let bounded: i128 = if v < -limit {
        -limit
    } else if v > limit {
        limit
    } else {
        v
    };
    if bounded < 0 {
        -((((-bounded) as u128) / TEXEL / 3) as i32)
    } else {
        ((bounded as u128) / TEXEL / 3) as i32
    }
}

/// Cobblestones.
pub fn cobble_tile(base: [u8; 3], mortar: [u8; 3], seed: u32) -> (t: Vec<[u8; 3]>)
    ensures
        t@.len() == TEXELS,
        forall|i: int| 0 <= i < TEXELS ==> t@[i] == cobble_texel(
            stone_field(base, seed),
            mortar,
            (i % TILE_TEX as int) as nat,
            (i / TILE_TEX as int) as nat,
        ),
{
    let stones: Vec<Stone> = grow_stones(base, seed);
    let mut t: Vec<[u8; 3]> = Vec::new();
    while t.len() < TEXELS
        invariant
            t@.len() <= TEXELS,
            stones@ == stone_field(base, seed),
            forall|k: int| 0 <= k < stones@.len() ==> stones@[k].x <= MAX_CENTRE && stones@[k].y <= MAX_CENTRE,
            forall|i: int| 0 <= i < t@.len() ==> t@[i] == cobble_texel(
                stone_field(base, seed),
                mortar,
                (i % TILE_TEX as int) as nat,
                (i / TILE_TEX as int) as nat,
            ),
        decreases TEXELS - t.len(),
    {
        let i: usize = t.len();
        let (first, second, index) = nearest_of(&stones, i % TILE_TEX, i / TILE_TEX);
        if round_to_significand(second - first) < MORTAR_WIDTH {
            t.push(mortar);
        } else {
            t.push(tint(stones[index].colour, shade_of(first)));
        }
    }
    t
}

/// The nearest stone is nearer than every stone before it and no farther than any behind it, and
/// of the other stones none is nearer than the second distance.
#[verifier::rlimit(50)]
pub proof fn law_nearest_is_least(stones: Seq<Stone>, x: nat, y: nat, k: nat, i: int)
    requires
        0 <= i < k <= stones.len(),
        forall|j: int| 0 <= j < k ==> distance(square_gap(#[trigger] stones[j], x, y)) < FAR,
    ensures
        ({
            let near = nearest(stones, x, y, k);
            let d = distance(square_gap(stones[i], x, y));
            &&& 0 <= near.stone < k
            &&& near.first == distance(square_gap(stones[near.stone], x, y))
            &&& near.first <= near.second
            &&& i < near.stone ==> near.first < d
            &&& i >= near.stone ==> near.first <= d
            &&& i != near.stone ==> near.second <= d
            &&& near.second == FAR || exists|j: int|
                0 <= j < k && j != near.stone && near.second == distance(square_gap(#[trigger] stones[j], x, y))
        }),
    decreases k,
{
    let near = nearest(stones, x, y, k);
    let so_far = nearest(stones, x, y, (k - 1) as nat);
    let last = distance(square_gap(stones[k - 1], x, y));
    if k > 1 {
        if i < k - 1 {
            law_nearest_is_least(stones, x, y, (k - 1) as nat, i);
        } else {
            law_nearest_is_least(stones, x, y, (k - 1) as nat, 0);
        }
        if last < so_far.first {
            let j = so_far.stone;
            assert(near.second == distance(square_gap(stones[j], x, y)));
        } else if last < so_far.second {
            assert(near.second == distance(square_gap(stones[k - 1], x, y)));
        } else if so_far.second != FAR {
            let j = choose|j: int|
                0 <= j < k - 1 && j != so_far.stone && so_far.second == distance(square_gap(#[trigger] stones[j], x, y));
            assert(near.second == distance(square_gap(stones[j], x, y)));
        }
    }
}

/// Along an axis a texel lies nowhere on top of itself, is as far from another as that is from it,
/// and never farther than half the tile, which repeats.
pub proof fn law_gaps_wrap_around(a: nat, b: nat, to: nat)
    requires
        a < 32,
        b < 32,
        to <= SIDE,
    ensures
        axis_gap(a, a * 0x100_0000) == 0,
        axis_gap(a, b * 0x100_0000) == axis_gap(b, a * 0x100_0000),
        axis_gap(a, to) <= 16 * 0x100_0000,
        axis_gap(0, 0) == axis_gap(0, SIDE as nat),
{
    law_small_numbers_are_exact(0);
    assert(power_of_two(24) == 0x100_0000) by {
        reveal_with_fuel(power_of_two, 25);
    }
    lemma_exact_in_units(16, 24);
    lemma_exact_in_units(32, 24);
    let here = a * 0x100_0000;
    let gap: nat = if here < to { (to - here) as nat } else { (here - to) as nat };
    law_rounding_is_monotone(gap, SIDE as nat);
    let direct = rounded(gap);
    if direct > 16 * 0x100_0000 {
        law_rounding_is_monotone((SIDE - direct) as nat, 16 * 0x100_0000);
    }
}

/// The gap of whole texels is their number, counted the shorter way round.
pub proof fn law_gaps_count_texels(a: nat, b: nat)
    requires
        a <= b < 32,
    ensures
        b - a <= 16 ==> axis_gap(a, b * 0x100_0000) == (b - a) * 0x100_0000,
        b - a >= 16 ==> axis_gap(a, b * 0x100_0000) == (32 - (b - a)) * 0x100_0000,
{
    assert(power_of_two(24) == 0x100_0000) by {
        reveal_with_fuel(power_of_two, 25);
    }
    lemma_exact_in_units((b - a) as nat, 24);
    lemma_exact_in_units((32 - (b - a)) as nat, 24);
}

/// The distance of a square is its side.
pub proof fn law_distance_of_a_square(side: nat)
    requires
        side < SIGNIFICAND_LIMIT,
    ensures
        distance(side * side) == side * 0x1000_0000,
{
    let wide = (side * side) * 0x40_0000_0000_0000;
    let root = side * 0x800_0000;
    assert(root * root == wide && wide < (root + 1) * (root + 1)) by (nonlinear_arith)
        requires
            wide == (side * side) * 0x40_0000_0000_0000,
            root == side * 0x800_0000,
    ;
    lemma_floor_root_unique(wide, root);
    assert(power_of_two(28) == 0x1000_0000) by {
        reveal_with_fuel(power_of_two, 29);
    }
    lemma_exact_in_units(side, 28);
}

/// The square of a gap does not depend on the axes: turning the tile over its diagonal changes
/// nothing, and a texel that is no nearer along either axis is no nearer.
pub proof fn law_gaps_add_up(s: Stone, t: Stone, x: nat, y: nat, u: nat, v: nat)
    ensures
        square_gap(s, x, y) == square_gap((Stone { x: s.y, y: s.x, colour: s.colour }), y, x),
        axis_gap(x, s.x as nat) <= axis_gap(u, t.x as nat) && axis_gap(y, s.y as nat) <= axis_gap(v, t.y as nat)
            ==> square_gap(s, x, y) <= square_gap(t, u, v),
{
    let a = axis_gap(x, s.x as nat);
    let b = axis_gap(y, s.y as nat);
    let c = axis_gap(u, t.x as nat);
    let d = axis_gap(v, t.y as nat);
    if a <= c && b <= d {
        assert(a * a <= c * c && b * b <= d * d) by (nonlinear_arith)
            requires
                a <= c,
                b <= d,
        ;
        law_rounding_is_monotone(a * a, c * c);
        law_rounding_is_monotone(b * b, d * d);
        law_rounding_is_monotone(rounded(a * a) + rounded(b * b), rounded(c * c) + rounded(d * d));
    }
}

/// A higher draw never moves a centre back; a draw of one half leaves it in the middle of its cell.
pub proof fn law_jitter_keeps_its_order(bits: u32, higher: u32)
    requires
        bits <= higher,
    ensures
        jitter(bits) <= jitter(higher),
        jitter(0x8000_0000) == 0,
        bits >= 0x8000_0000 ==> jitter(bits) >= 0,
        bits <= 0x8000_0000 ==> jitter(bits) <= 0,
{
    assert(power_of_two(31) == 0x8000_0000) by {
        reveal_with_fuel(power_of_two, 32);
    }
    lemma_exact_in_units(1, 31);
    law_small_numbers_are_exact(0);
    lemma_jitter_order(bits, higher);
    if bits >= 0x8000_0000 {
        lemma_jitter_order(0x8000_0000, bits);
    }
    if bits <= 0x8000_0000 {
        lemma_jitter_order(bits, 0x8000_0000);
    }
}

proof fn lemma_jitter_order(bits: u32, higher: u32)
    requires
        bits <= higher,
    ensures
        jitter(bits) <= jitter(higher),
{
    law_rounding_is_monotone(bits as nat, higher as nat);
    let a = rounded(bits as nat) - 0x8000_0000;
    let b = rounded(higher as nat) - 0x8000_0000;
    law_signs_are_rounded_alike(a, b);
    let c = rounded_signed(a);
    let d = rounded_signed(b);
    law_signs_are_rounded_alike(c * 4, d * 4);
    let e = rounded_signed(c * 4);
    let f = rounded_signed(d * 4);
    assert(e * JITTER <= f * JITTER) by (nonlinear_arith)
        requires
            e <= f,
    ;
    law_signs_are_rounded_alike(e * JITTER, f * JITTER);
}

#[verifier::rlimit(50)]
proof fn lemma_jitter_bound(bits: u32)
    ensures
        -0x160_0000_0000_0000 < jitter(bits) < 0x160_0000_0000_0000,
{
    lemma_rounded_at_most_whole(bits as nat, 1);
    let off = rounded(bits as nat) - 0x8000_0000;
    let m: nat = if off < 0 { (-off) as nat } else { off as nat };
    crate::rounding::lemma_rounded_upper(m, 0x8000_0000);
    let centred = rounded_signed(off);
    let n: nat = if centred < 0 { (-(centred * 4)) as nat } else { (centred * 4) as nat };
    crate::rounding::lemma_rounded_upper(n, 0x2_0000_0400);
    let spread = rounded_signed(centred * 4);
    let w: nat = if spread < 0 { (-(spread * JITTER)) as nat } else { (spread * JITTER) as nat };
    crate::rounding::lemma_rounded_upper(w, 0x2_0000_1000 * 10905190);
}

/// Every stone has its centre in a cell of its own, four texels wide and high, and within one and a
/// half texels of the middle of it.
#[verifier::rlimit(50)]
pub proof fn law_stones_keep_to_their_cells(base: [u8; 3], state: u32, k: nat)
    requires
        k < 64,
    ensures
        2 * ((4 * (k % 8) + 2) * 0x100_0000 - stone(base, state, k).x) <= 3 * 0x100_0000,
        2 * (stone(base, state, k).x - (4 * (k % 8) + 2) * 0x100_0000) <= 3 * 0x100_0000,
        2 * ((4 * (k / 8) + 2) * 0x100_0000 - stone(base, state, k).y) <= 3 * 0x100_0000,
        2 * (stone(base, state, k).y - (4 * (k / 8) + 2) * 0x100_0000) <= 3 * 0x100_0000,
{
    lemma_centre_bound(k % 8, xorshift_after(state, 3 * k + 1));
    lemma_centre_bound(k / 8, xorshift_after(state, 3 * k + 2));
}

#[verifier::rlimit(50)]
proof fn lemma_centre_bound(cell: nat, bits: u32)
    requires
        cell < 8,
    ensures
        2 * ((4 * cell + 2) * 0x100_0000 - centre(cell, bits)) <= 3 * 0x100_0000,
        2 * (centre(cell, bits) - (4 * cell + 2) * 0x100_0000) <= 3 * 0x100_0000,
        centre(cell, bits) <= u128::MAX,
{
    lemma_jitter_bound(bits);
    let moved = ((4 * cell + 2) * 0x100_0000_0000_0000 + jitter(bits)) as nat;
    law_rounding_error(moved);
    lemma_spacing_relative(moved);
}

/// Two draws alike in order give centres in the same order.
pub proof fn law_centres_keep_their_order(cell: nat, bits: u32, higher: u32)
    requires
        bits <= higher,
    ensures
        centre(cell, bits) <= centre(cell, higher),
{
    lemma_jitter_bound(bits);
    lemma_jitter_bound(higher);
    law_jitter_keeps_its_order(bits, higher);
    let a = ((4 * cell + 2) * 0x100_0000_0000_0000 + jitter(bits)) as nat;
    let b = ((4 * cell + 2) * 0x100_0000_0000_0000 + jitter(higher)) as nat;
    law_rounding_is_monotone(a, b);
    vstd::arithmetic::div_mod::lemma_div_is_ordered(rounded(a) as int, rounded(b) as int, 0x1_0000_0000);
}

/// A stone is no lighter farther from its centre, is as it is near it, and never more than two
/// steps darker.
#[verifier::rlimit(50)]
pub proof fn law_stones_darken_outwards(d: nat, farther: nat)
    requires
        d <= farther,
    ensures
        shade(farther) <= shade(d),
        -2 <= shade(d) <= 0,
        d <= 2 * MORTAR_WIDTH ==> shade(d) == 0,
        d >= 11 * TEXEL ==> shade(d) == -2,
{
    law_signs_are_rounded_alike(2 * MORTAR_WIDTH - farther, 2 * MORTAR_WIDTH - d);
    let top: nat = 2 * MORTAR_WIDTH as nat;
    law_small_numbers_are_exact(0);
    law_signs_are_rounded_alike(2 * MORTAR_WIDTH - d, top as int);
    crate::rounding::lemma_rounded_upper(top, top);
    if d <= top {
        law_signs_are_rounded_alike(0, 2 * MORTAR_WIDTH - d);
    }
    if d >= 11 * TEXEL {
        law_signs_are_rounded_alike(2 * MORTAR_WIDTH - d, -(8 * TEXEL as int));
        assert(power_of_two(55) == 8 * TEXEL) by {
            reveal_with_fuel(power_of_two, 56);
        }
        lemma_exact_in_units(1, 55);
    }
}

/// A texel shows the mortar where its two nearest stones are equally far, and elsewhere the mortar
/// or the nearest stone.
pub proof fn law_mortar_lies_between_stones(stones: Seq<Stone>, mortar: [u8; 3], other: [u8; 3], x: nat, y: nat)
    ensures
        ({
            let near = nearest(stones, x, y, STONES as nat);
            let texel = cobble_texel(stones, mortar, x, y);
            &&& near.first == near.second ==> texel == mortar
            &&& near.second >= near.first + MORTAR_WIDTH + TEXEL ==> texel == cobble_texel(stones, other, x, y)
            &&& texel == mortar || texel == tinted(stones[near.stone].colour, shade(near.first))
        }),
{
    let near = nearest(stones, x, y, STONES as nat);
    law_small_numbers_are_exact(0);
    if near.second >= near.first + MORTAR_WIDTH + TEXEL {
        let gap = (near.second - near.first) as nat;
        let least = (MORTAR_WIDTH + TEXEL) as nat;
        law_rounding_is_monotone(least, gap);
        law_rounding_error(least);
        lemma_spacing_relative(least);
    }
}

/// The stones of a field are numbered row by row, each from three draws of its own.
pub proof fn law_stones_take_three_draws(base: [u8; 3], other: [u8; 3], seed: u32, k: int)
    requires
        0 <= k < 64,
    ensures
        stone_field(base, seed).len() == 64,
        stone_field(base, seed)[k].x == stone_field(other, seed)[k].x,
        stone_field(base, seed)[k].y == stone_field(other, seed)[k].y,
        stone(base, xorshift_after(seed_state(seed.wrapping_add(71)), 3 * k as nat), 0).colour == stone_field(
            base,
            seed,
        )[k].colour,
{
    law_steps_add_up(seed_state(seed.wrapping_add(71)), 3 * k as nat, 3);
}

/// The shade of a stone goes by its distance in steps of three texels, the first of which ends three
/// texels beyond twice the width of the mortar.
#[verifier::rlimit(50)]
pub proof fn law_shade_goes_by_three_texels(d: nat)
    ensures
        d >= 2 * MORTAR_WIDTH + 3 * TEXEL ==> shade(d) <= -1,
        d + TEXEL / 1024 < 2 * MORTAR_WIDTH + 3 * TEXEL ==> shade(d) == 0,
        d >= 2 * MORTAR_WIDTH + 6 * TEXEL ==> shade(d) == -2,
        d + TEXEL / 1024 < 2 * MORTAR_WIDTH + 6 * TEXEL ==> shade(d) >= -1,
{
    law_stones_darken_outwards(d, d);
    let far: int = d - 2 * MORTAR_WIDTH;
    assert(power_of_two(52) == TEXEL) by {
        reveal_with_fuel(power_of_two, 53);
    }
    lemma_exact_in_units(3, 52);
    lemma_exact_in_units(6, 52);
    if far >= 0 {
        let f = far as nat;
        law_signs_are_rounded_alike(far, far);
        assert(rounded_signed(2 * MORTAR_WIDTH - d) == -(rounded(f) as int));
        if f >= 3 * TEXEL {
            law_rounding_is_monotone(3 * TEXEL as nat, f);
        }
        if f >= 6 * TEXEL {
            law_rounding_is_monotone(6 * TEXEL as nat, f);
        }
        law_rounding_error(f);
        lemma_spacing_relative(f);
    }
}

/// The colour of a stone is that of its field moved by a draw: from fifteen steps darker to fifteen
/// lighter, in proportion to the draw.
#[verifier::rlimit(50)]
pub proof fn law_stones_vary_by_a_draw(base: [u8; 3], state: u32, k: nat)
    ensures
        ({
            let bits = xorshift_after(state, 3 * k + 3);
            let step = toward_zero(shifted_draw(bits, 30, 15));
            &&& stone(base, state, k).colour == tinted(base, step)
            &&& -15 <= step <= 15
            &&& -0x1_0010_0000 < step * 0x1_0000_0000 - (bits * 30 - 15 * 0x1_0000_0000) < 0x1_0010_0000
        }),
{
    let bits = xorshift_after(state, 3 * k + 3);
    law_draw_bounds(bits, 30);
    let u = rounded(bits as nat);
    law_rounding_error(bits as nat);
    lemma_spacing_relative(bits as nat);
    law_rounding_error(u * 30);
    lemma_spacing_relative(u * 30);
    let v = rounded(u * 30) - 15 * 0x1_0000_0000;
    let m: nat = if v < 0 { (-v) as nat } else { v as nat };
    law_rounding_error(m);
    lemma_spacing_relative(m);
    lemma_rounded_at_most_whole(m, 15);
}

} // verus!
