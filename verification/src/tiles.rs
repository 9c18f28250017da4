//! Procedural material tiles: square RGB textures of `TILE` texels a side.
use vstd::prelude::*;

use crate::settings::TILE;

verus! {

/// The side of the grid that the patterns are laid out on.
pub const BASE_TILE: usize = 32;

/// The side of a generated tile.
pub const TILE_TEX: usize = TILE;

/// The number of texels in a tile.
pub const TEXELS: usize = TILE * TILE;

/// Scales a length on the layout grid to texels.
pub fn s(v: usize) -> (r: usize)
    requires
        v * TILE_TEX <= usize::MAX,
    ensures
        r == v,
{
    assert(TILE_TEX == 32 && BASE_TILE == 32);
    (v * TILE_TEX) / BASE_TILE
}

/// Scales a length on the layout grid to texels, to at least one.
pub fn sw(v: usize) -> (r: usize)
    requires
        v * TILE_TEX <= usize::MAX,
    ensures
        r == if v == 0 { 1 } else { v },
{
    assert(TILE_TEX == 32 && BASE_TILE == 32);
    let scaled: usize = (v * TILE_TEX) / BASE_TILE;
    if scaled < 1 {
        1
    } else {
        scaled
    }
}

/// `v` brought into the range from `low` to `high`.
pub open spec fn clamped(v: int, low: int, high: int) -> int {
    if v < low {
        low
    } else if v > high {
        high
    } else {
        v
    }
}

/// A colour with `delta` added to each channel, within the range of a byte.
pub open spec fn tinted(c: [u8; 3], delta: int) -> [u8; 3] {
    [
        clamped(c[0] + delta, 0, 255) as u8,
        clamped(c[1] + delta, 0, 255) as u8,
        clamped(c[2] + delta, 0, 255) as u8,
    ]
}

/// Adds `delta` to a channel and clamps the sum.
pub fn shifted_channel(c: u8, delta: i32, low: u8, high: u8) -> (r: u8)
    requires
        delta <= 0x7fff_ff00,
        low <= high,
    ensures
        r == clamped(c + delta, low as int, high as int),
{
    let v: i32 = c as i32 + delta;
    if v < low as i32 {
        low
    } else if v > high as i32 {
        high
    } else {
        v as u8
    }
}

/// Adds `delta` to each channel of a colour.
pub fn tint(c: [u8; 3], delta: i32) -> (r: [u8; 3])
    requires
        delta <= 0x7fff_ff00,
    ensures
        r == tinted(c, delta as int),
{
    [
        shifted_channel(c[0], delta, 0, 255),
        shifted_channel(c[1], delta, 0, 255),
        shifted_channel(c[2], delta, 0, 255),
    ]
}

/// The finalising mix of a 32-bit hash.
pub open spec fn mixed(x: u32) -> u32 {
    let a = x ^ (x >> 16u32);
    let b = a.wrapping_mul(0x7feb352d);
    let c = b ^ (b >> 15u32);
    let d = c.wrapping_mul(0x846ca68b);
    d ^ (d >> 16u32)
}

/// Mixes the bits of a 32-bit key.
pub fn hash_u32(x: u32) -> (r: u32)
    ensures
        r == mixed(x),
{
    let a: u32 = x ^ (x >> 16u32);
    let b: u32 = a.wrapping_mul(0x7feb352d);
    let c: u32 = b ^ (b >> 15u32);
    let d: u32 = c.wrapping_mul(0x846ca68b);
    d ^ (d >> 16u32)
}

/// The tile with one texel replaced; positions outside change nothing, and what follows the
/// tile stays.
pub open spec fn put(t: Seq<[u8; 3]>, x: int, y: int, c: [u8; 3]) -> Seq<[u8; 3]> {
    if 0 <= x < TILE_TEX && 0 <= y < TILE_TEX {
        t.update(y * TILE_TEX + x, c)
    } else {
        t
    }
}

/// Whether texel `i` lies in the rectangle.
pub open spec fn in_rect(i: int, x0: int, y0: int, w: int, h: int) -> bool {
    x0 <= i % TILE_TEX as int && i % (TILE_TEX as int) < x0 + w && y0 <= i / TILE_TEX as int && i / (TILE_TEX as int) < y0 + h
}

/// The tile with a rectangle filled; the part outside is cut off, and what follows the tile
/// stays.
pub open spec fn filled(t: Seq<[u8; 3]>, x0: int, y0: int, w: int, h: int, c: [u8; 3]) -> Seq<[u8; 3]> {
    Seq::new(t.len(), |i: int| if i < TEXELS && in_rect(i, x0, y0, w, h) { c } else { t[i] })
}

/// Sets one texel, if it lies in the tile.
pub fn set_px(data: &mut Vec<[u8; 3]>, x: usize, y: usize, c: [u8; 3])
    requires
        TEXELS <= old(data)@.len(),
    ensures
        final(data)@ == put(old(data)@, x as int, y as int, c),
{
    if x < TILE_TEX && y < TILE_TEX {
        let i: usize = y * TILE_TEX + x;
        data[i] = c;
    }
}

/// Fills a rectangle; the part outside the tile is ignored.
pub fn fill(data: &mut Vec<[u8; 3]>, x0: usize, y0: usize, w: usize, h: usize, c: [u8; 3])
    requires
        TEXELS <= old(data)@.len(),
        x0 + w <= usize::MAX,
        y0 + h <= usize::MAX,
    ensures
        final(data)@ == filled(old(data)@, x0 as int, y0 as int, w as int, h as int, c),
{
    let ghost before = data@;
    let mut y: usize = y0;
    while y < y0 + h
        invariant
            y0 <= y <= y0 + h,
            x0 + w <= usize::MAX,
            y0 + h <= usize::MAX,
            TEXELS <= before.len(),
            data@ == filled(before, x0 as int, y0 as int, w as int, y - y0, c),
        decreases y0 + h - y,
    {
        let ghost rows = data@;
        let mut x: usize = x0;
        while x < x0 + w
            invariant
                y0 <= y < y0 + h,
                x0 <= x <= x0 + w,
                x0 + w <= usize::MAX,
                y0 + h <= usize::MAX,
                TEXELS <= rows.len(),
                data@ == filled(rows, x0 as int, y as int, x - x0, 1, c),
            decreases x0 + w - x,
        {
            let ghost row = data@;
            set_px(data, x, y, c);
            proof {
                assert forall|i: int| 0 <= i < rows.len() implies data@[i] == filled(
                    rows,
                    x0 as int,
                    y as int,
                    x + 1 - x0,
                    1,
                    c,
                )[i] by {
                    if i % TILE_TEX as int == x && i / TILE_TEX as int == y {
                        assert(i == y * TILE_TEX + x);
                    }
                }
            }
            x = x + 1;
        }
        proof {
            assert forall|i: int| 0 <= i < before.len() implies data@[i] == filled(
                before,
                x0 as int,
                y0 as int,
                w as int,
                y + 1 - y0,
                c,
            )[i] by {}
        }
        y = y + 1;
    }
}

/// Fills one row.
pub fn row(data: &mut Vec<[u8; 3]>, y: usize, c: [u8; 3])
    requires
        TEXELS <= old(data)@.len(),
        y < usize::MAX,
    ensures
        final(data)@ == filled(old(data)@, 0, y as int, TILE_TEX as int, 1, c),
{
    fill(data, 0, y, TILE_TEX, 1, c);
}

/// A number that was brought into a range lies in it, stays if it lay there, and keeps its order
/// with others.
pub proof fn law_clamped_numbers(v: int, more: int, low: int, high: int)
    requires
        low <= high,
        v <= more,
    ensures
        low <= clamped(v, low, high) <= clamped(more, low, high) <= high,
        low <= v <= high ==> clamped(v, low, high) == v,
        v <= low ==> clamped(v, low, high) == low,
        v >= high ==> clamped(v, low, high) == high,
{
}

/// Tinting by nothing keeps a colour. Every channel moves by the same step as far as a byte allows,
/// so a stronger tint is never darker, and undoing a tint that met no limit gives the colour back.
pub proof fn law_tints_move_every_channel(c: [u8; 3], delta: int, more: int, i: int)
    requires
        0 <= i < 3,
        delta <= more,
    ensures
        tinted(c, 0) == c,
        tinted(c, delta)[i] <= tinted(c, more)[i],
        0 < tinted(c, delta)[i] < 255 ==> tinted(c, delta)[i] - c[i] == delta,
        delta >= 0 ==> c[i] <= tinted(c, delta)[i],
        delta <= 0 ==> c[i] >= tinted(c, delta)[i],
        delta >= 255 ==> tinted(c, delta)[i] == 255,
        delta <= -255 ==> tinted(c, delta)[i] == 0,
        0 <= c[i] + delta <= 255 ==> tinted(tinted(c, delta), -delta)[i] == c[i],
{
    assert(tinted(c, 0)@ =~= c@);
    assert(tinted(c, 0) =~= c);
}

/// Setting a texel changes that texel and no other; outside the tile nothing changes.
pub proof fn law_one_texel_is_set(t: Seq<[u8; 3]>, x: int, y: int, c: [u8; 3], u: int, v: int)
    requires
        TEXELS <= t.len(),
        0 <= u < TILE_TEX,
        0 <= v < TILE_TEX,
    ensures
        put(t, x, y, c).len() == t.len(),
        u == x && v == y ==> put(t, x, y, c)[v * TILE_TEX + u] == c,
        u != x || v != y ==> put(t, x, y, c)[v * TILE_TEX + u] == t[v * TILE_TEX + u],
{
    assert(TEXELS == TILE_TEX * TILE_TEX);
    assert(v * TILE_TEX + u < TEXELS);
}

/// Filling a rectangle changes the texels in it and no others.
#[verifier::rlimit(50)]
pub proof fn law_a_rectangle_is_filled(t: Seq<[u8; 3]>, x0: int, y0: int, w: int, h: int, c: [u8; 3], x: int, y: int)
    requires
        TEXELS <= t.len(),
        0 <= x < TILE_TEX,
        0 <= y < TILE_TEX,
    ensures
        filled(t, x0, y0, w, h, c).len() == t.len(),
        x0 <= x < x0 + w && y0 <= y < y0 + h ==> filled(t, x0, y0, w, h, c)[y * TILE_TEX + x] == c,
        !(x0 <= x < x0 + w && y0 <= y < y0 + h) ==> filled(t, x0, y0, w, h, c)[y * TILE_TEX + x] == t[y * TILE_TEX + x],
{
    let i = y * TILE_TEX + x;
    assert(TILE_TEX == 32 && TEXELS == 32 * 32);
    assert(0 <= i < TEXELS);
    assert(i / TILE_TEX as int == y && i % TILE_TEX as int == x);
}

/// Multiplying by a factor that has an inverse keeps 32-bit numbers apart.
#[verifier::rlimit(50)]
pub proof fn lemma_factor_keeps_apart(x: u32, y: u32, factor: u32, inverse: int, turns: int)
    requires
        factor * inverse == 1 + turns * 0x1_0000_0000,
        x.wrapping_mul(factor) == y.wrapping_mul(factor),
    ensures
        x == y,
{
    let whole: int = 0x1_0000_0000;
    let p = x * factor;
    let q = y * factor;
    assert(p % whole == q % whole);
    let j = p / whole;
    let k = q / whole;
    assert(p - q == (j - k) * whole);
    let d: int = x - y;
    assert(d * factor == p - q) by (nonlinear_arith)
        requires
            d == x - y,
            p == x * factor,
            q == y * factor,
    ;
    let n = (j - k) * inverse - d * turns;
    assert(d == n * whole) by (nonlinear_arith)
        requires
            d * factor == (j - k) * whole,
            factor * inverse == 1 + turns * whole,
            n == (j - k) * inverse - d * turns,
    ;
    assert(n == 0) by (nonlinear_arith)
        requires
            d == n * whole,
            -whole < d < whole,
            whole == 0x1_0000_0000,
    ;
}

/// Mixing keeps different keys apart.
#[verifier::rlimit(50)]
pub proof fn law_mixing_keeps_keys_apart(x: u32, y: u32)
    ensures
        mixed(x) == mixed(y) <==> x == y,
{
    if mixed(x) == mixed(y) {
        let a = x ^ (x >> 16u32);
        let b = a.wrapping_mul(0x7feb352d);
        let c = b ^ (b >> 15u32);
        let d = c.wrapping_mul(0x846ca68b);
        let e = y ^ (y >> 16u32);
        let f = e.wrapping_mul(0x7feb352d);
        let g = f ^ (f >> 15u32);
        let h = g.wrapping_mul(0x846ca68b);
        assert(d ^ (d >> 16u32) == h ^ (h >> 16u32) ==> d == h) by (bit_vector);
        lemma_factor_keeps_apart(c, g, 0x846ca68b, 1124208931, 581534029);
        assert(b ^ (b >> 15u32) == f ^ (f >> 15u32) ==> b == f) by (bit_vector);
        lemma_factor_keeps_apart(a, e, 0x7feb352d, 493478565, 246582719);
        assert(x ^ (x >> 16u32) == y ^ (y >> 16u32) ==> x == y) by (bit_vector);
    }
}

} // verus!
