//! Drawing on RGBA pictures with whole coordinates.
use vstd::prelude::*;
use vstd::arithmetic::div_mod::{lemma_fundamental_div_mod, lemma_fundamental_div_mod_converse};

use crate::cobble::{
    distance, distance_of, floor_root, is_floor_root, law_distance_is_monotone, lemma_floor_root_exists,
};
use crate::layers::RenderLayers;
use crate::rounding::{
    divide_to_significand, law_rounding_error, law_rounding_is_monotone, law_small_numbers_are_exact,
    lemma_rounded_at_most_whole, lemma_rounded_upper, lemma_spacing_bounds, lemma_spacing_divides,
    lemma_spacing_relative, power_of_two,
    round_to_significand, rounded, rounded_ratio, spacing, SIGNIFICAND_LIMIT,
};
use crate::settings::PathForgeSettings;
use crate::tiles::clamped;

verus! {

/// Whether byte `i` of a picture of width `w` is a colour channel of a pixel in the
/// rectangle from (`x0`, `y0`) up to, but without, (`x1`, `y1`).
pub open spec fn colours_rect(i: int, w: int, x0: int, x1: int, y0: int, y1: int) -> bool {
    i % 4 < 3 && x0 <= (i / 4) % w && (i / 4) % w < x1 && y0 <= (i / 4) / w && (i / 4) / w < y1
}

/// A picture with a rectangle of one colour on it; the alpha channel is kept.
pub open spec fn with_rect(buf: Seq<u8>, w: int, x0: int, x1: int, y0: int, y1: int, c: [u8; 3]) -> Seq<u8> {
    Seq::new(buf.len(), |i: int| if colours_rect(i, w, x0, x1, y0, y1) { c[i % 4] } else { buf[i] })
}

/// The pixel at a place in a row of pixels is the one at its column and row.
pub proof fn lemma_pixel_place(w: int, x: int, y: int, p: int)
    requires
        0 <= x < w,
        0 <= y,
        0 <= p,
    ensures
        (p % w == x && p / w == y) <==> p == y * w + x,
{
    if p == y * w + x {
        lemma_fundamental_div_mod_converse(p, w, y, x);
    }
    if p % w == x && p / w == y {
        lemma_fundamental_div_mod(p, w);
        assert(w * y == y * w) by (nonlinear_arith);
    }
}

/// A pixel within the picture has its bytes within it.
pub proof fn lemma_pixel_fits(w: int, h: int, x: int, y: int)
    requires
        0 <= x < w,
        0 <= y < h,
    ensures
        0 <= y * w + x < w * h,
{
    assert(y * w + x < w * h) by (nonlinear_arith)
        requires
            0 <= x < w,
            0 <= y,
            y + 1 <= h,
    ;
    assert(0 <= y * w) by (nonlinear_arith)
        requires
            0 <= y,
            0 <= w,
    ;
}

fn clamp_to(v: i32, limit: usize) -> (r: usize)
    requires
        limit <= i32::MAX,
    ensures
        r == clamped(v as int, 0, limit as int),
{
    if v < 0 {
        0
    } else if v > limit as i32 {
        limit
    } else {
        v as usize
    }
}

/// Fills the part of a rectangle that lies within the picture. The corner at (`x1i`,
/// `y1i`) is not filled any more. Bytes that follow the picture stay.
pub fn fill_rect_px(
    buf: &mut Vec<u8>,
    w: usize,
    h: usize,
    x0i: i32,
    y0i: i32,
    x1i: i32,
    y1i: i32,
    color: [u8; 3],
)
    requires
        w <= i32::MAX,
        h <= i32::MAX,
        w * h * 4 <= old(buf)@.len(),
    ensures
        final(buf)@ == with_rect(
            old(buf)@,
            w as int,
            clamped(x0i as int, 0, w as int),
            clamped(x1i as int, 0, w as int),
            clamped(y0i as int, 0, h as int),
            clamped(y1i as int, 0, h as int),
            color,
        ),
{
    let x0: usize = clamp_to(x0i, w);
    let x1: usize = clamp_to(x1i, w);
    let y0: usize = clamp_to(y0i, h);
    let y1: usize = clamp_to(y1i, h);
    let ghost before = buf@;
    let mut y: usize = y0;
    while y < y1
        invariant
            y0 <= y,
            y <= y1 || y == y0,
            x1 <= w,
            y1 <= h,
            w * h * 4 <= buf@.len(),
            buf@.len() == before.len(),
            forall|i: int|
                0 <= i < buf@.len() ==> buf@[i] == (if colours_rect(
                    i,
                    w as int,
                    x0 as int,
                    x1 as int,
                    y0 as int,
                    y as int,
                ) { color[i % 4] } else { before[i] }),
        decreases y1 - y,
    {
        let ghost rows = buf@;
        let mut x: usize = x0;
        while x < x1
            invariant
                x0 <= x,
                x <= x1 || x == x0,
                y < y1,
                x1 <= w,
                y1 <= h,
                w * h * 4 <= buf@.len(),
                buf@.len() == rows.len(),
                forall|i: int|
                    0 <= i < buf@.len() ==> buf@[i] == (if colours_rect(
                        i,
                        w as int,
                        x0 as int,
                        x as int,
                        y as int,
                        y + 1,
                    ) { color[i % 4] } else { rows[i] }),
            decreases x1 - x,
        {
            proof {
                lemma_pixel_fits(w as int, h as int, x as int, y as int);
                assert(y * w <= w * h) by (nonlinear_arith)
                    requires
                        y <= h,
                ;
            }
            let total: usize = buf.len();
            assert((y * w + x) * 4 + 3 < total);
            let pi: usize = (y * w + x) * 4;
            buf[pi] = color[0];
            buf[pi + 1] = color[1];
            buf[pi + 2] = color[2];
            proof {
                assert forall|i: int| 0 <= i < buf@.len() implies buf@[i] == (if colours_rect(
                    i,
                    w as int,
                    x0 as int,
                    x + 1,
                    y as int,
                    y + 1,
                ) { color[i % 4] } else { rows[i] }) by {
                    lemma_pixel_place(w as int, x as int, y as int, i / 4);
                    assert(i == i / 4 * 4 + i % 4);
                }
            }
            x = x + 1;
        }
        y = y + 1;
    }
}

/// The colour of row `y` of a sky gradient of `rows` rows, one channel of it: the value at
/// `y / rows` of the way between two bytes, computed in single precision.
pub open spec fn gradient_channel(top: u8, bottom: u8, y: nat, rows: nat) -> u8 {
    let t = rounded_ratio(rounded(y), rounded(rows));
    if bottom < top {
        let down = rounded(((top - bottom) as nat) * t);
        let left = top * 0x1_0000_0000_0000_0000 - down;
        if left < 0 {
            0
        } else {
            clamped((rounded(left as nat) / 0x1_0000_0000_0000_0000) as int, 0, 255) as u8
        }
    } else {
        let up = rounded(((bottom - top) as nat) * t);
        clamped((rounded((top * 0x1_0000_0000_0000_0000 + up) as nat) / 0x1_0000_0000_0000_0000) as int, 0, 255) as u8
    }
}

fn gradient_byte(top: u8, bottom: u8, y: usize, rows: usize) -> (r: u8)
    requires
        y < rows <= u32::MAX,
    ensures
        r == gradient_channel(top, bottom, y as nat, rows as nat),
{
    proof {
        law_rounding_is_monotone(y as nat, rows as nat);
        law_rounding_is_monotone(1, rows as nat);
        law_small_numbers_are_exact(1);
        lemma_rounded_at_most_whole(rows as nat, 1);
    }
    let t: u128 = divide_to_significand(round_to_significand(y as u128), round_to_significand(rows as u128));
    if bottom < top {
        let span: u128 = (top - bottom) as u128;
        assert(span * t <= 255 * 0x1_0000_0200_0000_0000) by (nonlinear_arith)
            requires
                span <= 255,
                t <= 0x1_0000_0200_0000_0000,
        ;
        let down: u128 = round_to_significand(span * t);
        let from: u128 = (top as u128) * 0x1_0000_0000_0000_0000;
        if from < down {
            return 0;
        }
        let v: u128 = round_to_significand(from - down) / 0x1_0000_0000_0000_0000;
        if v > 255 {
            255
        } else {
            v as u8
        }
    } else {
        let span: u128 = (bottom - top) as u128;
        assert(span * t <= 255 * 0x1_0000_0200_0000_0000) by (nonlinear_arith)
            requires
                span <= 255,
                t <= 0x1_0000_0200_0000_0000,
        ;
        let up: u128 = round_to_significand(span * t);
        let from: u128 = (top as u128) * 0x1_0000_0000_0000_0000;
        let v: u128 = round_to_significand(from + up) / 0x1_0000_0000_0000_0000;
        if v > 255 {
            255
        } else {
            v as u8
        }
    }
}

/// The row that the horizon lies in: its height in a picture of 768 rows, scaled to `rows`
/// rows in single precision, to the nearest row, and eight rows at least from both edges, as
/// far as single precision tells rows apart.
pub open spec fn horizon_row_of(horizon_y: u32, rows: nat) -> int {
    let wide = rounded(rows) * 0x100_0000_0000;
    let scale = rounded(2 * (wide / 768) + (if wide % 768 == 0 { 0nat } else { 1nat }));
    let scaled = rounded(rounded(horizon_y as nat) * scale);
    clamped(((scaled + 0x100_0000_0000) / 0x200_0000_0000) as int, 8, rounded((rows - 8) as nat) as int)
}

/// The row that the horizon lies in. The bound is the largest number of single precision that
/// 32 bits hold.
pub fn horizon_row(horizon_y: u32, rows: usize) -> (r: usize)
    requires
        16 <= rows <= 0xffff_ff00,
    ensures
        r == horizon_row_of(horizon_y, rows as nat),
        8 <= r,
        rows <= 0x100_0000 ==> r <= rows - 8,
{
    proof {
        law_rounding_is_monotone(8, (rows - 8) as nat);
        law_small_numbers_are_exact(8);
        if rows <= 0x100_0000 {
            law_small_numbers_are_exact((rows - 8) as nat);
        }
        lemma_rounded_at_most_whole(rows as nat, 1);
        law_rounding_is_monotone((rows - 8) as nat, 0xffff_ff00);
        assert(rounded(0xffff_ff00) == 0xffff_ff00) by {
            reveal_with_fuel(spacing, 10);
            let step = spacing(0xffff_ff00);
            assert(step == 256);
            assert(0xffff_ff00nat / step == 0xff_ffff && 0xffff_ff00nat % step == 0) by (nonlinear_arith)
                requires
                    step == 256,
            ;
        }
        lemma_rounded_at_most_whole(horizon_y as nat, 1);
    }
    let wide: u128 = round_to_significand(rows as u128) * 0x100_0000_0000;
    let rest: u128 = wide % 768;
    let quotient: u128 = 2 * (wide / 768) + (if rest == 0 {
        0
    } else {
        1
    });
    proof {
        lemma_rounded_upper(quotient as nat, 0xc000_0000_0000_0000);
    }
    let scale: u128 = round_to_significand(quotient);
    let height: u128 = round_to_significand(horizon_y as u128);
    assert(height * scale <= 0x1_0000_0000 * 0x1_0000_0000_0000_0000) by (nonlinear_arith)
        requires
            height <= 0x1_0000_0000,
            scale <= 0x1_0000_0000_0000_0000,
    ;
    let scaled: u128 = round_to_significand(height * scale);
    let nearest: u128 = (scaled + 0x100_0000_0000) / 0x200_0000_0000;
    let last: u128 = round_to_significand((rows - 8) as u128);
    if nearest < 8 {
        8
    } else if nearest > last {
        last as usize
    } else {
        nearest as usize
    }
}

/// The background colour of row `y`: the sky down to the horizon, the void below it and
/// where there is no sky, black where the sky is not drawn.
pub open spec fn background_colour<N>(s: PathForgeSettings<N>, layers: RenderLayers, horizon: nat, y: nat) -> [u8; 3] {
    if !layers.sky {
        [0u8, 0u8, 0u8]
    } else if s.sky.enabled && y < horizon {
        [
            gradient_channel(s.sky.top[0], s.sky.horizon[0], y, horizon),
            gradient_channel(s.sky.top[1], s.sky.horizon[1], y, horizon),
            gradient_channel(s.sky.top[2], s.sky.horizon[2], y, horizon),
        ]
    } else {
        s.scene.void_color
    }
}

/// The background colour of a row.
pub fn background_row<N>(s: &PathForgeSettings<N>, layers: &RenderLayers, horizon: usize, y: usize) -> (r: [u8; 3])
    requires
        horizon <= u32::MAX,
    ensures
        r == background_colour(*s, *layers, horizon as nat, y as nat),
{
    if !layers.sky {
        [0, 0, 0]
    } else if s.sky.enabled && y < horizon {
        [
            gradient_byte(s.sky.top[0], s.sky.horizon[0], y, horizon),
            gradient_byte(s.sky.top[1], s.sky.horizon[1], y, horizon),
            gradient_byte(s.sky.top[2], s.sky.horizon[2], y, horizon),
        ]
    } else {
        s.scene.void_color
    }
}

/// Byte `i` of the background.
pub open spec fn background_byte<N>(s: PathForgeSettings<N>, layers: RenderLayers, w: int, horizon: nat, i: int) -> u8 {
    if i % 4 == 3 {
        255
    } else {
        background_colour(s, layers, horizon, (i / 4 / w) as nat)[i % 4]
    }
}

/// Paints the background: every row in its colour, opaque.
pub fn paint_background<N>(
    buf: &mut Vec<u8>,
    w: usize,
    h: usize,
    horizon: usize,
    s: &PathForgeSettings<N>,
    layers: &RenderLayers,
)
    requires
        horizon <= u32::MAX,
        w * h * 4 <= usize::MAX,
        old(buf)@.len() == w * h * 4,
    ensures
        final(buf)@.len() == w * h * 4,
        forall|i: int|
            0 <= i < final(buf)@.len() ==> final(buf)@[i] == background_byte(*s, *layers, w as int, horizon as nat, i),
{
    let mut y: usize = 0;
    while y < h
        invariant
            y <= h,
            horizon <= u32::MAX,
            w * h * 4 <= usize::MAX,
            buf@.len() == w * h * 4,
            forall|i: int|
                0 <= i < y * w * 4 ==> buf@[i] == background_byte(*s, *layers, w as int, horizon as nat, i),
        decreases h - y,
    {
        let c: [u8; 3] = background_row(s, layers, horizon, y);
        let mut x: usize = 0;
        proof {
            assert(y * w <= w * h) by (nonlinear_arith)
                requires
                    y <= h,
            ;
        }
        while x < w
            invariant
                x <= w,
                y < h,
                w * h * 4 <= usize::MAX,
                y * w <= w * h,
                buf@.len() == w * h * 4,
                c == background_colour(*s, *layers, horizon as nat, y as nat),
                forall|i: int|
                    0 <= i < (y * w + x) * 4 ==> buf@[i] == background_byte(*s, *layers, w as int, horizon as nat, i),
            decreases w - x,
        {
            proof {
                lemma_pixel_fits(w as int, h as int, x as int, y as int);
                lemma_pixel_place(w as int, x as int, y as int, y * w + x);
            }
            let pi: usize = (y * w + x) * 4;
            buf[pi] = c[0];
            buf[pi + 1] = c[1];
            buf[pi + 2] = c[2];
            buf[pi + 3] = 255;
            proof {
                assert forall|i: int| 0 <= i < (y * w + x + 1) * 4 implies buf@[i] == background_byte(
                    *s,
                    *layers,
                    w as int,
                    horizon as nat,
                    i,
                ) by {
                    if i >= (y * w + x) * 4 {
                        assert(i / 4 == y * w + x);
                    }
                }
            }
            x = x + 1;
        }
        proof {
            assert((y + 1) * w == y * w + w) by (nonlinear_arith);
        }
        y = y + 1;
    }
    proof {
        assert(h * w == w * h) by (nonlinear_arith);
    }
}

/// The side of a square of `texels` texels: the whole part of the root in single precision.
pub open spec fn square_side(texels: nat) -> nat {
    distance(rounded(texels)) / 0x1000_0000
}

/// A whole number of at most 24 bits stays exact in larger units.
proof fn lemma_whole_units_are_exact(k: nat)
    requires
        k < SIGNIFICAND_LIMIT,
    ensures
        rounded((k * 0x1000_0000) as nat) == k * 0x1000_0000,
{
    assert(power_of_two(28) == 0x1000_0000) by {
        reveal_with_fuel(power_of_two, 29);
    }
    lemma_exact_in_units(k, 28);
}

/// A whole number of at most 24 bits stays exact when it counts a power of two.
pub proof fn lemma_exact_in_units(k: nat, j: nat)
    requires
        k < SIGNIFICAND_LIMIT,
    ensures
        rounded(k * power_of_two(j)) == k * power_of_two(j),
    decreases j,
{
    let unit = power_of_two(j);
    let n = k * unit;
    assert(unit > 0) by {
        lemma_power_is_positive(j);
    }
    assert(n < SIGNIFICAND_LIMIT * unit) by (nonlinear_arith)
        requires
            n == k * unit,
            k < SIGNIFICAND_LIMIT,
            unit > 0,
    ;
    lemma_spacing_divides(n, j);
    lemma_spacing_bounds(n);
    let step = spacing(n);
    lemma_fundamental_div_mod(unit as int, step as int);
    let q = unit / step;
    assert(n == (k * q) * step + 0) by (nonlinear_arith)
        requires
            n == k * unit,
            unit == step * q,
    ;
    lemma_fundamental_div_mod_converse(n as int, step as int, (k * q) as int, 0);
}

proof fn lemma_power_is_positive(j: nat)
    ensures
        power_of_two(j) > 0,
    decreases j,
{
    if j > 0 {
        lemma_power_is_positive((j - 1) as nat);
    }
}

/// Below two to the power 24, the side of a square is the whole part of the exact root.
pub proof fn law_small_squares_have_whole_sides(texels: nat)
    requires
        texels < 0x100_0000,
    ensures
        is_floor_root(texels, square_side(texels)),
{
    law_small_numbers_are_exact(texels);
    lemma_floor_root_exists(texels);
    let k = floor_root(texels);
    let m = k + 1;
    assert(k < 0x1000) by (nonlinear_arith)
        requires
            k * k <= texels,
            texels < 0x100_0000,
    ;
    let wide = texels * 0x40_0000_0000_0000;
    lemma_floor_root_exists(wide);
    let root = floor_root(wide);
    let v = 2 * root + (if root * root == wide { 0nat } else { 1nat });
    // The root is no less than that of the whole square below.
    let low = k * 0x800_0000;
    assert(low * low <= wide) by (nonlinear_arith)
        requires
            low == k * 0x800_0000,
            wide == texels * 0x40_0000_0000_0000,
            k * k <= texels,
    ;
    assert(low <= root) by (nonlinear_arith)
        requires
            low * low <= wide,
            wide < (root + 1) * (root + 1),
    ;
    law_rounding_is_monotone((k * 0x1000_0000) as nat, v);
    lemma_whole_units_are_exact(k);
    // It stays so far below the next whole root that rounding does not reach it.
    let high = (m * 0x800_0000 - 0x4000) as nat;
    assert(wide < high * high) by (nonlinear_arith)
        requires
            high == m * 0x800_0000 - 0x4000,
            1 <= m <= 0x1000,
            texels < m * m,
            wide == texels * 0x40_0000_0000_0000,
    ;
    assert(root < high) by (nonlinear_arith)
        requires
            root * root <= wide,
            wide < high * high,
    ;
    assert(power_of_two(16) == 0x1_0000) by {
        reveal_with_fuel(power_of_two, 17);
    }
    lemma_spacing_divides(v, 16);
    lemma_spacing_bounds(v);
    let step = spacing(v);
    assert(step <= 0x1_0000) by (nonlinear_arith)
        requires
            0x1_0000nat % step == 0,
            step > 0,
    ;
    law_rounding_error(v);
}

/// A square of 32 bits has a distance of few bits.
proof fn lemma_small_distance(square: nat)
    requires
        square <= 0x1_0000_0000,
    ensures
        distance(square) <= 0x2000_0000_0000,
{
    let wide = square * 0x40_0000_0000_0000;
    lemma_floor_root_exists(wide);
    let root = floor_root(wide);
    assert(root <= 0x800_0000_0000) by (nonlinear_arith)
        requires
            root * root <= wide,
            wide <= 0x1_0000_0000 * 0x40_0000_0000_0000,
    ;
    lemma_rounded_upper(
        (2 * root + (if root * root == wide { 0nat } else { 1nat })) as nat,
        0x1000_0000_0001,
    );
}

/// Finds the side of a square of texels.
pub fn side_of_square(texels: usize) -> (r: usize)
    requires
        1 <= texels <= usize::MAX / 3,
    ensures
        r == square_side(texels as nat),
        texels < 0x100_0000 ==> is_floor_root(texels as nat, r as nat),
        1 <= r,
{
    proof {
        law_rounding_is_monotone(1, texels as nat);
        law_small_numbers_are_exact(1);
        lemma_rounded_upper(texels as nat, 0x6000_0000_0000_0000);
        law_small_squares_have_whole_sides(1);
        assert(square_side(1) >= 1) by (nonlinear_arith)
            requires
                is_floor_root(1, square_side(1)),
        ;
        law_distance_is_monotone(1, rounded(texels as nat));
        if texels < 0x100_0000 {
            law_small_squares_have_whole_sides(texels as nat);
        }
    }
    let across: u128 = distance_of(round_to_significand(texels as u128)) / 0x1000_0000;
    proof {
        if texels <= 0x8000_0000 {
            lemma_rounded_at_most_whole(texels as nat, 1);
            lemma_small_distance(rounded(texels as nat));
        }
    }
    across as usize
}

/// The side of a square tile of RGB texels, one at least.
pub fn tile_side(tile: &Vec<u8>) -> (r: usize)
    ensures
        r == (if tile@.len() < 3 { 1 } else { square_side((tile@.len() / 3) as nat) }),
        3 <= tile@.len() && tile@.len() / 3 < 0x100_0000 ==> is_floor_root((tile@.len() / 3) as nat, r as nat),
        1 <= r,
{
    if tile.len() < 3 {
        return 1;
    }
    side_of_square(tile.len() / 3)
}

/// The texel of a tile at a column and a row; beyond the last ones, that of the last.
pub fn tile_texel(tile: &Vec<u8>, side: usize, x: usize, y: usize) -> (r: [u8; 3])
    requires
        1 <= side,
        (clamped(y as int, 0, side - 1) * side + clamped(x as int, 0, side - 1)) * 3 + 2 < tile@.len(),
    ensures
        ({
            let p = (clamped(y as int, 0, side - 1) * side + clamped(x as int, 0, side - 1)) * 3;
            r == [tile@[p], tile@[p + 1], tile@[p + 2]]
        }),
{
    let cx: usize = if x > side - 1 {
        side - 1
    } else {
        x
    };
    let cy: usize = if y > side - 1 {
        side - 1
    } else {
        y
    };
    let total: usize = tile.len();
    assert((cy * side + cx) * 3 + 2 < total);
    assert(cy * side >= 0) by (nonlinear_arith)
        requires
            0 <= cy,
            0 <= side,
    ;
    let p: usize = (cy * side + cx) * 3;
    [tile[p], tile[p + 1], tile[p + 2]]
}

pub proof fn lemma_full_units_are_exact(k: nat)
    requires
        k < SIGNIFICAND_LIMIT,
    ensures
        rounded(k * 0x1_0000_0000_0000_0000) == k * 0x1_0000_0000_0000_0000,
{
    assert(power_of_two(64) == 0x1_0000_0000_0000_0000) by {
        reveal_with_fuel(power_of_two, 65);
    }
    lemma_exact_in_units(k, 64);
}

/// A larger part of the same whole is a larger ratio.
pub proof fn lemma_ratio_is_monotone(a: nat, b: nat, whole: nat)
    requires
        a <= b,
        whole > 0,
    ensures
        rounded_ratio(a, whole) <= rounded_ratio(b, whole),
{
    let p = a * 0x8000_0000_0000_0000;
    let q = b * 0x8000_0000_0000_0000;
    lemma_fundamental_div_mod(p as int, whole as int);
    lemma_fundamental_div_mod(q as int, whole as int);
    vstd::arithmetic::div_mod::lemma_div_is_ordered(p as int, q as int, whole as int);
    let low = 2 * (p / whole) + (if p % whole == 0 { 0nat } else { 1nat });
    let high = 2 * (q / whole) + (if q % whole == 0 { 0nat } else { 1nat });
    if p / whole == q / whole {
        assert(p % whole <= q % whole);
    }
    assert(low <= high);
    law_rounding_is_monotone(low, high);
}

/// The sky has its top colour in the topmost row, and would have its bottom colour in the row
/// of the horizon.
pub proof fn law_gradient_joins_its_ends(top: u8, bottom: u8, rows: nat)
    requires
        rows > 0,
    ensures
        gradient_channel(top, bottom, 0, rows) == top,
        gradient_channel(top, bottom, rows, rows) == bottom,
{
    law_small_numbers_are_exact(0);
    law_small_numbers_are_exact(1);
    law_rounding_is_monotone(1, rows);
    let whole = rounded(rows);
    let unit = 0x1_0000_0000_0000_0000nat;
    assert(0nat / whole == 0 && 0nat % whole == 0) by (nonlinear_arith)
        requires
            whole > 0,
    ;
    assert(rounded_ratio(0, whole) == 0);
    let full = whole * 0x8000_0000_0000_0000;
    assert(full / whole == 0x8000_0000_0000_0000 && full % whole == 0) by {
        lemma_fundamental_div_mod_converse(full as int, whole as int, 0x8000_0000_0000_0000, 0);
    }
    lemma_full_units_are_exact(1);
    assert(rounded_ratio(whole, whole) == unit);
    lemma_full_units_are_exact(top as nat);
    lemma_full_units_are_exact(bottom as nat);
    let span = if bottom < top { (top - bottom) as nat } else { (bottom - top) as nat };
    lemma_full_units_are_exact(span);
    assert(span * 0 == 0);
    assert((top as nat) * unit / unit == top);
    assert((bottom as nat) * unit / unit == bottom);
}

/// The sky goes from its top colour toward its bottom colour and never turns back: a lower row
/// is no farther from the bottom colour, and no row lies beyond either.
pub proof fn law_gradient_never_turns_back(top: u8, bottom: u8, y: nat, lower: nat, rows: nat)
    requires
        y <= lower <= rows,
        rows > 0,
    ensures
        top <= bottom ==> top <= gradient_channel(top, bottom, y, rows) <= gradient_channel(top, bottom, lower, rows)
            <= bottom,
        bottom <= top ==> bottom <= gradient_channel(top, bottom, lower, rows) <= gradient_channel(
            top,
            bottom,
            y,
            rows,
        ) <= top,
{
    law_gradient_joins_its_ends(top, bottom, rows);
    lemma_gradient_steps(top, bottom, 0, y, rows);
    lemma_gradient_steps(top, bottom, y, lower, rows);
    lemma_gradient_steps(top, bottom, lower, rows, rows);
}

proof fn lemma_gradient_steps(top: u8, bottom: u8, y: nat, lower: nat, rows: nat)
    requires
        y <= lower,
        rows > 0,
    ensures
        top <= bottom ==> gradient_channel(top, bottom, y, rows) <= gradient_channel(top, bottom, lower, rows),
        bottom <= top ==> gradient_channel(top, bottom, lower, rows) <= gradient_channel(top, bottom, y, rows),
{
    law_rounding_is_monotone(y, lower);
    law_rounding_is_monotone(1, rows);
    law_small_numbers_are_exact(1);
    let unit = 0x1_0000_0000_0000_0000nat;
    lemma_ratio_is_monotone(rounded(y), rounded(lower), rounded(rows));
    let s = rounded_ratio(rounded(y), rounded(rows));
    let t = rounded_ratio(rounded(lower), rounded(rows));
    let span = if bottom < top { (top - bottom) as nat } else { (bottom - top) as nat };
    assert(span * s <= span * t) by (nonlinear_arith)
        requires
            s <= t,
    ;
    law_rounding_is_monotone(span * s, span * t);
    let near = rounded(span * s);
    let far = rounded(span * t);
    if bottom < top {
        let from = (top as nat) * unit;
        if far <= from {
            law_rounding_is_monotone((from - far) as nat, (from - near) as nat);
            vstd::arithmetic::div_mod::lemma_div_is_ordered(
                rounded((from - far) as nat) as int,
                rounded((from - near) as nat) as int,
                unit as int,
            );
        }
    } else {
        let from = (top as nat) * unit;
        law_rounding_is_monotone(from + near, from + far);
        vstd::arithmetic::div_mod::lemma_div_is_ordered(
            rounded(from + near) as int,
            rounded(from + far) as int,
            unit as int,
        );
        if bottom == top {
            assert(span == 0);
            assert(0 * s == 0 && 0 * t == 0) by (nonlinear_arith);
        }
    }
}

/// The background row by row: nothing but black where the sky is left out, the void from the
/// horizon on down and under a sky that is disabled, the top colour in the topmost row of an
/// enabled sky, and every row of it between its two colours.
pub proof fn law_background_is_sky_above_void<N>(s: PathForgeSettings<N>, layers: RenderLayers, horizon: nat, y: nat, c: int)
    requires
        0 <= c < 3,
    ensures
        !layers.sky ==> background_colour(s, layers, horizon, y)[c] == 0,
        layers.sky && (y >= horizon || !s.sky.enabled) ==> background_colour(s, layers, horizon, y)[c]
            == s.scene.void_color[c],
        layers.sky && s.sky.enabled && horizon > 0 ==> background_colour(s, layers, horizon, 0)[c] == s.sky.top[c],
        layers.sky && s.sky.enabled && y < horizon ==> {
            let v = background_colour(s, layers, horizon, y)[c];
            ||| s.sky.top[c] <= v <= s.sky.horizon[c]
            ||| s.sky.horizon[c] <= v <= s.sky.top[c]
        },
{
    if layers.sky && s.sky.enabled && horizon > 0 {
        law_gradient_joins_its_ends(s.sky.top[c], s.sky.horizon[c], horizon);
        if y < horizon {
            law_gradient_never_turns_back(s.sky.top[c], s.sky.horizon[c], y, y, horizon);
        }
    }
}

/// The background is opaque, each of its rows has one colour, and its bytes are those of the
/// colour of the row.
pub proof fn law_background_has_a_colour_a_row<N>(
    s: PathForgeSettings<N>,
    layers: RenderLayers,
    w: int,
    horizon: nat,
    x: int,
    y: int,
    c: int,
)
    requires
        0 <= x < w,
        0 <= y,
        0 <= c < 4,
    ensures
        background_byte(s, layers, w, horizon, (y * w + x) * 4 + c) == (if c == 3 {
            255u8
        } else {
            background_colour(s, layers, horizon, y as nat)[c]
        }),
{
    assert(0 <= y * w) by (nonlinear_arith)
        requires
            0 <= y,
            0 <= w,
    ;
    let i = (y * w + x) * 4 + c;
    assert(i / 4 == y * w + x && i % 4 == c);
    lemma_pixel_place(w, x, y, y * w + x);
}

/// A filled rectangle by its pixels: those within it have the colour, those outside what they
/// had, and no alpha changes.
pub proof fn law_rectangle_colours_its_pixels(
    buf: Seq<u8>,
    w: int,
    x0: int,
    x1: int,
    y0: int,
    y1: int,
    color: [u8; 3],
    x: int,
    y: int,
    c: int,
)
    requires
        0 <= x < w,
        0 <= y,
        0 <= c < 4,
        (y * w + x) * 4 + c < buf.len(),
    ensures
        with_rect(buf, w, x0, x1, y0, y1, color).len() == buf.len(),
        with_rect(buf, w, x0, x1, y0, y1, color)[(y * w + x) * 4 + c] == (if c < 3 && x0 <= x && x < x1 && y0 <= y && y
            < y1 { color[c] } else { buf[(y * w + x) * 4 + c] }),
{
    assert(0 <= y * w) by (nonlinear_arith)
        requires
            0 <= y,
            0 <= w,
    ;
    let i = (y * w + x) * 4 + c;
    assert(i / 4 == y * w + x && i % 4 == c);
    lemma_pixel_place(w, x, y, y * w + x);
}

/// A horizon that is set lower lies no higher in the picture, and it keeps off both edges.
pub proof fn law_horizon_keeps_its_order(horizon_y: u32, lower: u32, rows: nat)
    requires
        horizon_y <= lower,
        16 <= rows,
    ensures
        8 <= horizon_row_of(horizon_y, rows) <= horizon_row_of(lower, rows),
        rows <= 0x100_0000 ==> horizon_row_of(lower, rows) <= rows - 8,
{
    law_rounding_is_monotone(8, (rows - 8) as nat);
    law_small_numbers_are_exact(8);
    if rows <= 0x100_0000 {
        law_small_numbers_are_exact((rows - 8) as nat);
    }
    law_rounding_is_monotone(horizon_y as nat, lower as nat);
    let wide = rounded(rows) * 0x100_0000_0000;
    let scale = rounded(2 * (wide / 768) + (if wide % 768 == 0 { 0nat } else { 1nat }));
    let a = rounded(horizon_y as nat);
    let b = rounded(lower as nat);
    assert(a * scale <= b * scale) by (nonlinear_arith)
        requires
            a <= b,
    ;
    law_rounding_is_monotone(a * scale, b * scale);
}

/// In a picture of 768 rows, the horizon lies in the row that it is set to, as far as the edges
/// let it.
pub proof fn law_horizon_of_a_full_picture(horizon_y: u32)
    requires
        horizon_y < 0x100_0000,
    ensures
        horizon_row_of(horizon_y, 768) == clamped(horizon_y as int, 8, 760),
{
    law_small_numbers_are_exact(768);
    law_small_numbers_are_exact(760);
    law_small_numbers_are_exact(horizon_y as nat);
    assert(power_of_two(41) == 0x200_0000_0000) by {
        reveal_with_fuel(power_of_two, 42);
    }
    lemma_exact_in_units(1, 41);
    lemma_exact_in_units(horizon_y as nat, 41);
    let wide = rounded(768) * 0x100_0000_0000;
    assert(wide / 768 == 0x100_0000_0000 && wide % 768 == 0);
    assert(1 * power_of_two(41) == 0x200_0000_0000);
}

/// Away from the edges, the horizon lies at the same part of every picture, within a row.
#[verifier::rlimit(50)]
pub proof fn law_horizon_scales_with_the_picture(horizon_y: u32, rows: nat)
    requires
        16 <= rows <= 0x1_0000,
        horizon_y <= 0x1_0000,
    ensures
        ({
            let r = horizon_row_of(horizon_y, rows);
            8 < r < rows - 8 ==> -768 <= r * 768 - horizon_y * rows <= 768
        }),
{
    law_small_numbers_are_exact(rows);
    law_small_numbers_are_exact((rows - 8) as nat);
    law_small_numbers_are_exact(horizon_y as nat);
    let h = horizon_y as nat;
    let wide = rows * 0x100_0000_0000;
    let quotient = 2 * (wide / 768) + (if wide % 768 == 0 { 0nat } else { 1nat });
    let scale = rounded(quotient);
    lemma_fundamental_div_mod(wide as int, 768);
    assert(-1536 <= quotient * 768 - 2 * wide <= 1536);
    law_rounding_error(quotient);
    lemma_spacing_relative(quotient);
    // The scale is off by at most half a part in two to the power 23.
    let slack = scale - quotient;
    assert(2 * slack * 0x80_0000 <= quotient + 0x80_0000 && -2 * slack * 0x80_0000 <= quotient + 0x80_0000);
    let miss = scale * 768 - 2 * wide;
    assert(-0x2_0100_0000 <= miss <= 0x2_0100_0000);
    let product = h * scale;
    let scaled = rounded(product);
    law_rounding_error(product);
    lemma_spacing_relative(product);
    let unit = 0x200_0000_0000int;
    assert(product * 768 == h * (2 * wide) + h * miss) by (nonlinear_arith)
        requires
            product == h * scale,
            miss == scale * 768 - 2 * wide,
    ;
    assert(-0x2_0200_0000_0000 <= h * miss <= 0x2_0200_0000_0000) by (nonlinear_arith)
        requires
            0 <= h <= 0x1_0000,
            -0x2_0100_0000 <= miss <= 0x2_0100_0000,
    ;
    assert(h * (2 * wide) == (h * rows) * unit) by (nonlinear_arith)
        requires
            wide == rows * 0x100_0000_0000,
            unit == 0x200_0000_0000,
    ;
    let r = ((scaled + 0x100_0000_0000) / 0x200_0000_0000) as int;
    if r < rows - 8 {
        assert(scaled <= 0x1_0000 * unit);
        assert(product <= 0x400_0000_0000_0000);
        assert(-0x8_0000_0000 <= scaled - product <= 0x8_0000_0000);
        assert(-unit <= 2 * (r * unit - scaled) <= unit);
        assert(-768 * unit <= (r * 768) * unit - (h * rows) * unit <= 768 * unit);
        assert(-768 <= r * 768 - h * rows <= 768) by (nonlinear_arith)
            requires
                -768 * unit <= (r * 768) * unit - (h * rows) * unit <= 768 * unit,
                unit == 0x200_0000_0000,
        ;
    }
}

/// The sky changes evenly: every row of it is within two steps of the straight line from its
/// top colour to its bottom colour.
#[verifier::rlimit(50)]
pub proof fn law_gradient_is_even(top: u8, bottom: u8, y: nat, rows: nat)
    requires
        y <= rows <= 0x100_0000,
        rows > 0,
    ensures
        ({
            let v = gradient_channel(top, bottom, y, rows);
            let line = top * rows + (bottom - top) * y;
            (v - 1) * rows <= line <= (v + 2) * rows
        }),
{
    if rows < 0x100_0000 {
        law_small_numbers_are_exact(rows);
    } else {
        lemma_exact_in_units(1, 24);
        reveal_with_fuel(power_of_two, 25);
    }
    if y < 0x100_0000 {
        law_small_numbers_are_exact(y);
    }
    let unit = 0x1_0000_0000_0000_0000nat;
    let wide = y * 0x8000_0000_0000_0000;
    lemma_fundamental_div_mod(wide as int, rows as int);
    let q = wide / rows;
    let rest = wide % rows;
    let quotient = 2 * q + (if rest == 0 { 0nat } else { 1nat });
    let t = rounded(quotient);
    law_rounding_error(quotient);
    lemma_spacing_relative(quotient);
    assert(q <= 0x8000_0000_0000_0000) by (nonlinear_arith)
        requires
            wide == rows * q + rest,
            wide == y * 0x8000_0000_0000_0000,
            y <= rows,
            rows > 0,
            rest >= 0,
    ;
    let slip = t - quotient;
    assert(-0x200_0000_0000 <= slip <= 0x200_0000_0000);
    assert(-(rows as int) <= quotient * rows - y * unit <= rows) by (nonlinear_arith)
        requires
            wide == rows * q + rest,
            wide == y * 0x8000_0000_0000_0000,
            unit == 0x1_0000_0000_0000_0000,
            0 <= rest < rows,
            quotient == 2 * q + (if rest == 0 { 0nat } else { 1nat }),
    ;
    let span = if bottom < top { (top - bottom) as nat } else { (bottom - top) as nat };
    let part = rounded(span * t);
    law_rounding_error(span * t);
    lemma_spacing_relative(span * t);
    assert(span * t <= 255 * 0x1_0000_0200_0000_0001) by (nonlinear_arith)
        requires
            span <= 255,
            t <= 0x1_0000_0200_0000_0001,
    ;
    let loss = part - span * t;
    assert(-0x1_0000_0000_0000 <= loss <= 0x1_0000_0000_0000);
    let from = (top as nat) * unit;
    // Where the part is larger than what there is, it is so by its own error alone.
    let exact: int = if bottom < top { from - part } else { (from + part) as int };
    let whole = rounded(if exact < 0 { 0nat } else { exact as nat });
    law_rounding_error(if exact < 0 { 0nat } else { exact as nat });
    lemma_spacing_relative(if exact < 0 { 0nat } else { exact as nat });
    law_small_numbers_are_exact(0);
    assert(from <= 255 * unit);
    assert(part <= 256 * unit);
    let v = gradient_channel(top, bottom, y, rows) as int;
    let line = top * rows + (bottom - top) * y;
    // The part times the rows, against the span times the row.
    let gap = part * rows - span * (y * unit);
    assert(gap == (quotient * rows - y * unit) * span + slip * span * rows + loss * rows) by (nonlinear_arith)
        requires
            gap == part * rows - span * (y * unit),
            loss == part - span * t,
            slip == t - quotient,
    ;
    assert(-0x4_0000_0000_0000 * rows <= gap <= 0x4_0000_0000_0000 * rows) by (nonlinear_arith)
        requires
            gap == (quotient * rows - y * unit) * span + slip * span * rows + loss * rows,
            -(rows as int) <= quotient * rows - y * unit <= rows,
            -0x200_0000_0000 <= slip <= 0x200_0000_0000,
            -0x1_0000_0000_0000 <= loss <= 0x1_0000_0000_0000,
            0 <= span <= 255,
            rows > 0,
    ;
    assert(exact * rows - line * unit == (if bottom < top { -gap } else { gap })) by (nonlinear_arith)
        requires
            gap == part * rows - span * (y * unit),
            line == top * rows + (bottom - top) * y,
            from == top * unit,
            bottom < top ==> exact == from - part && span == top - bottom,
            !(bottom < top) ==> exact == from + part && span == bottom - top,
    ;
    assert(0 <= line <= 255 * rows) by (nonlinear_arith)
        requires
            line == top * rows + (bottom - top) * y,
            0 <= y <= rows,
            0 <= top <= 255,
            0 <= bottom <= 255,
    ;
    let room = 0x4_0000_0000_0000int;
    assert(-room <= exact <= 255 * unit + room) by (nonlinear_arith)
        requires
            -room * rows <= exact * rows - line * unit <= room * rows,
            0 <= line <= 255 * rows,
            rows > 0,
            unit > 0,
    ;
    assert(-room <= whole - exact <= room);
    assert(whole < 256 * unit);
    assert(v == whole / unit);
    assert(v * unit <= whole && whole < (v + 1) * unit) by {
        lemma_fundamental_div_mod(whole as int, unit as int);
    }
    assert((v - 1) * rows <= line && line <= (v + 2) * rows) by (nonlinear_arith)
        requires
            v * unit <= whole,
            whole < (v + 1) * unit,
            -room <= whole - exact <= room,
            -room * rows <= exact * rows - line * unit <= room * rows,
            room == 0x4_0000_0000_0000,
            unit == 0x1_0000_0000_0000_0000,
            rows > 0,
    ;
}

} // verus!
