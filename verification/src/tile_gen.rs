//! Tile generation: a pattern, the marks of wear on it, and noise over both.
use vstd::prelude::*;

use crate::cobble::{cobble_texel, cobble_tile, stone_field};
use crate::patterns::{
    bark_texel, bark_tile, block_texel, block_tile, brick_texel, brick_tile, bladed, dabbed, dirt_tile,
    grass_tile, hedge_tile, plain, plain_tile, rock_face, rock_tile, sand_texel, sand_tile, specked,
};
use crate::rng::{law_steps_add_up, seed_state, seeded_rng, xorshift, xorshift_after, SeededRng, ONE};
use crate::raster::lemma_exact_in_units;
use crate::rounding::{
    law_rounding_error, law_rounding_is_monotone, law_small_numbers_are_exact, lemma_rounded_at_most_whole,
    lemma_rounded_upper, lemma_spacing_relative, power_of_two, round_to_significand, rounded,
};
use crate::settings::{FloorPattern, WallPattern, TILE};
use crate::text::same_text;
use crate::tiles::{clamped, put, set_px, shifted_channel, TEXELS, TILE_TEX};

verus! {

/// One in the scale of a mark's strength: two to the power 27.
pub const FULL_STRENGTH: u32 = 0x800_0000;

/// A spot of wear: a colour blended over one texel. The strength counts in units of
/// two to the power minus 27, which holds every single-precision strength from one
/// sixteenth up.
#[derive(Clone, Copy, Debug)]
pub struct Mark {
    pub x: usize,
    pub y: usize,
    pub colour: [u8; 3],
    pub strength: u32,
}

/// A channel with another laid over it, computed in single precision.
pub open spec fn blended_channel(under: u8, over: u8, strength: nat) -> u8 {
    let rest = rounded((FULL_STRENGTH - strength) as nat);
    let sum = rounded(rounded(under as nat * rest) + rounded(over as nat * strength));
    clamped((sum / FULL_STRENGTH as nat) as int, 0, 255) as u8
}

/// A colour with another laid over it.
pub open spec fn blended(under: [u8; 3], over: [u8; 3], strength: nat) -> [u8; 3] {
    [
        blended_channel(under[0], over[0], strength),
        blended_channel(under[1], over[1], strength),
        blended_channel(under[2], over[2], strength),
    ]
}

/// The tile with one mark on it; a mark outside the tile changes nothing.
pub open spec fn marked_once(t: Seq<[u8; 3]>, m: Mark) -> Seq<[u8; 3]> {
    if m.x < TILE_TEX && m.y < TILE_TEX {
        put(t, m.x as int, m.y as int, blended(t[m.y * TILE_TEX + m.x], m.colour, m.strength as nat))
    } else {
        t
    }
}

/// The tile with marks on it, laid one after the other.
pub open spec fn marked(t: Seq<[u8; 3]>, marks: Seq<Mark>) -> Seq<[u8; 3]>
    decreases marks.len(),
{
    if marks.len() == 0 {
        t
    } else {
        marked_once(marked(t, marks.drop_last()), marks.last())
    }
}

/// The brightness change that one draw gives a texel: a fraction between minus and plus
/// 0.45 of `noise`, in single precision and without its fraction.
pub open spec fn noise_delta(bits: u32, noise: u32) -> int {
    let centred = 2 * rounded(bits as nat) - ONE;
    let magnitude = rounded(if centred < 0 { (-centred) as nat } else { centred as nat });
    let scaled = rounded(rounded(magnitude * rounded(noise as nat)) * 15099494);
    let whole = (scaled / 0x200_0000_0000_0000) as int;
    if centred < 0 {
        -whole
    } else {
        whole
    }
}

/// Channel `j` of the tile once noise is added: the same change for the three channels
/// of a texel, within the range from 2 to 253.
pub open spec fn noised_byte(t: Seq<[u8; 3]>, noise: u32, seed: u32, j: int) -> u8 {
    let i = j / 3;
    clamped(t[i][j % 3] + noise_delta(xorshift_after(seed_state(seed), (i + 1) as nat), noise), 2, 253) as u8
}

/// The bytes of the tile once noise is added.
pub open spec fn noised(t: Seq<[u8; 3]>, noise: u32, seed: u32) -> Seq<u8> {
    Seq::new(3 * t.len(), |j: int| noised_byte(t, noise, seed, j))
}

/// A tile given by the colour of each texel.
pub open spec fn from_texels(f: spec_fn(int, int) -> [u8; 3]) -> Seq<[u8; 3]> {
    Seq::new(TEXELS as nat, |i: int| f(i % TILE_TEX as int, i / TILE_TEX as int))
}

/// The pattern of a name; an unknown name leaves the base colour.
pub open spec fn painted(pattern: Seq<char>, base: [u8; 3], mortar: [u8; 3], seed: u32) -> Seq<[u8; 3]> {
    if pattern == "Cobblestone"@ {
        from_texels(|x: int, y: int| cobble_texel(stone_field(base, seed), mortar, x as nat, y as nat))
    } else if pattern == "Brick"@ {
        from_texels(|x: int, y: int| brick_texel(base, mortar, seed, x, y))
    } else if pattern == "Stone Block"@ {
        from_texels(|x: int, y: int| block_texel(base, mortar, seed, x, y))
    } else if pattern == "Bark"@ {
        from_texels(|x: int, y: int| bark_texel(base, mortar, seed, x, y))
    } else if pattern == "Rock Face"@ {
        rock_face(plain(base), mortar, seed_state(seed.wrapping_add(20)), 8)
    } else if pattern == "Sand"@ {
        from_texels(|x: int, y: int| sand_texel(base, mortar, x, y))
    } else if pattern == "Dirt"@ {
        specked(plain(base), mortar, seed_state(seed.wrapping_add(30)), 40)
    } else if pattern == "Grass"@ {
        bladed(plain(base), base, seed_state(seed.wrapping_add(40)), 0)
    } else if pattern == "Hedge"@ {
        dabbed(plain(base), base, seed_state(seed.wrapping_add(50)), 0)
    } else {
        plain(base)
    }
}

/// Paints the pattern of a name.
pub fn paint_pattern(pattern: &str, base: [u8; 3], mortar: [u8; 3], seed: u32) -> (t: Vec<[u8; 3]>)
    ensures
        t@ == painted(pattern@, base, mortar, seed),
        t@.len() == TEXELS,
{
    if same_text(pattern, "Cobblestone") {
        cobble_tile(base, mortar, seed)
    } else if same_text(pattern, "Brick") {
        brick_tile(base, mortar, seed)
    } else if same_text(pattern, "Stone Block") {
        block_tile(base, mortar, seed)
    } else if same_text(pattern, "Bark") {
        bark_tile(base, mortar, seed)
    } else if same_text(pattern, "Rock Face") {
        rock_tile(base, mortar, seed)
    } else if same_text(pattern, "Sand") {
        sand_tile(base, mortar)
    } else if same_text(pattern, "Dirt") {
        dirt_tile(base, mortar, seed)
    } else if same_text(pattern, "Grass") {
        grass_tile(base, seed)
    } else if same_text(pattern, "Hedge") {
        hedge_tile(base, seed)
    } else {
        plain_tile(base)
    }
}

fn blend_channel(under: u8, over: u8, strength: u32) -> (r: u8)
    requires
        strength <= FULL_STRENGTH,
    ensures
        r == blended_channel(under, over, strength as nat),
{
    let rest: u128 = round_to_significand((FULL_STRENGTH - strength) as u128);
    assert(under * rest <= 255 * 0x1000_0000) by (nonlinear_arith)
        requires
            under <= 255,
            rest <= 0x1000_0000,
    ;
    assert(over * strength <= 255 * 0x800_0000) by (nonlinear_arith)
        requires
            over <= 255,
            strength <= 0x800_0000,
    ;
    let kept: u128 = round_to_significand((under as u128) * rest);
    let laid: u128 = round_to_significand((over as u128) * (strength as u128));
    let whole: u128 = round_to_significand(kept + laid) / (FULL_STRENGTH as u128);
    if whole > 255 {
        255
    } else {
        whole as u8
    }
}

/// Blends one mark over its texel, if that lies in the tile.
pub fn blend_px(data: &mut Vec<[u8; 3]>, mark: &Mark)
    requires
        TEXELS <= old(data)@.len(),
        mark.strength <= FULL_STRENGTH,
    ensures
        final(data)@ == marked_once(old(data)@, *mark),
{
    if mark.x < TILE_TEX && mark.y < TILE_TEX {
        let under: [u8; 3] = data[mark.y * TILE_TEX + mark.x];
        let colour: [u8; 3] = [
            blend_channel(under[0], mark.colour[0], mark.strength),
            blend_channel(under[1], mark.colour[1], mark.strength),
            blend_channel(under[2], mark.colour[2], mark.strength),
        ];
        set_px(data, mark.x, mark.y, colour);
    }
}

/// Lays marks over a tile, one after the other.
pub fn apply_marks(data: &mut Vec<[u8; 3]>, marks: &[Mark])
    requires
        TEXELS <= old(data)@.len(),
        forall|k: int| 0 <= k < marks@.len() ==> marks@[k].strength <= FULL_STRENGTH,
    ensures
        final(data)@ == marked(old(data)@, marks@),
        final(data)@.len() == old(data)@.len(),
{
    let ghost before = data@;
    let mut k: usize = 0;
    assert(marks@.take(0) == Seq::<Mark>::empty());
    while k < marks.len()
        invariant
            k <= marks@.len(),
            data@.len() == before.len(),
            TEXELS <= before.len(),
            forall|j: int| 0 <= j < marks@.len() ==> marks@[j].strength <= FULL_STRENGTH,
            data@ == marked(before, marks@.take(k as int)),
        decreases marks.len() - k,
    {
        blend_px(data, &marks[k]);
        k = k + 1;
        proof {
            let now = marks@.take(k as int);
            assert(now.drop_last() == marks@.take(k - 1));
            assert(now.last() == marks@[k - 1]);
        }
    }
    assert(marks@.take(marks@.len() as int) == marks@);
}

fn noise_step(bits: u32, noise: u32) -> (r: i32)
    ensures
        r == noise_delta(bits, noise),
        r <= 0x7fff_ff00,
{
    let unit: u128 = round_to_significand(bits as u128);
    let amount: u128 = round_to_significand(noise as u128);
    proof {
        lemma_rounded_at_most_whole(bits as nat, 1);
        lemma_rounded_at_most_whole(noise as nat, 1);
    }
    let twice: u128 = 2 * unit;
    let below: bool = twice < ONE;
    let apart: u128 = if below {
        ONE - twice
    } else {
        twice - ONE
    };
    proof {
        lemma_rounded_at_most_whole(apart as nat, 1);
    }
    let magnitude: u128 = round_to_significand(apart);
    assert(magnitude * amount <= ONE * ONE) by (nonlinear_arith)
        requires
            magnitude <= ONE,
            amount <= ONE,
    ;
    let product: u128 = round_to_significand(magnitude * amount);
    proof {
        lemma_rounded_upper((magnitude * amount) as nat, (ONE * ONE) as nat);
        lemma_rounded_upper((product * 15099494) as nat, 0x1_0000_0100_0000_0000 * 15099494);
    }
    let scaled: u128 = round_to_significand(product * 15099494);
    let whole: u128 = scaled / 0x200_0000_0000_0000;
    if below {
        -(whole as i32)
    } else {
        whole as i32
    }
}

/// Adds noise to a tile and lays out its bytes.
pub fn add_noise(texels: &Vec<[u8; 3]>, noise: u32, seed: u32) -> (r: Vec<u8>)
    requires
        texels@.len() == TEXELS,
    ensures
        r@ == noised(texels@, noise, seed),
        r@.len() == 3 * TEXELS,
        forall|j: int| 0 <= j < r@.len() ==> 2 <= #[trigger] r@[j] && r@[j] <= 253,
{
    let mut rng: SeededRng = seeded_rng(seed);
    let ghost start = rng.state;
    let mut out: Vec<u8> = Vec::new();
    let mut i: usize = 0;
    while i < TEXELS
        invariant
            i <= TEXELS,
            texels@.len() == TEXELS,
            start == seed_state(seed),
            rng.state == xorshift_after(start, i as nat),
            out@.len() == 3 * i,
            forall|j: int| 0 <= j < 3 * i ==> out@[j] == noised_byte(texels@, noise, seed, j),
        decreases TEXELS - i,
    {
        let delta: i32 = noise_step(rng.next_bits(), noise);
        let c: [u8; 3] = texels[i];
        proof {
            assert(xorshift_after(start, (i + 1) as nat) == xorshift(xorshift_after(start, i as nat)));
            assert((3 * i) / 3 == i && (3 * i + 1) / 3 == i && (3 * i + 2) / 3 == i);
        }
        out.push(shifted_channel(c[0], delta, 2, 253));
        out.push(shifted_channel(c[1], delta, 2, 253));
        out.push(shifted_channel(c[2], delta, 2, 253));
        i = i + 1;
    }
    out
}

/// Noise brightens or darkens a texel as a whole: where no channel meets a limit, their
/// differences stay.
pub proof fn law_noise_keeps_differences(t: Seq<[u8; 3]>, noise: u32, seed: u32, i: int, a: int, b: int)
    requires
        0 <= i < t.len(),
        0 <= a < 3,
        0 <= b < 3,
        2 < noised(t, noise, seed)[3 * i + a] < 253,
        2 < noised(t, noise, seed)[3 * i + b] < 253,
    ensures
        noised(t, noise, seed)[3 * i + a] - noised(t, noise, seed)[3 * i + b] == t[i][a] - t[i][b],
{
    assert((3 * i + a) / 3 == i && (3 * i + a) % 3 == a);
    assert((3 * i + b) / 3 == i && (3 * i + b) % 3 == b);
}

/// Without noise the texels stay, within the limits.
pub proof fn law_no_noise_keeps_texels(t: Seq<[u8; 3]>, seed: u32, i: int, a: int)
    requires
        0 <= i < t.len(),
        0 <= a < 3,
    ensures
        noised(t, 0, seed)[3 * i + a] == clamped(t[i][a] as int, 2, 253),
{
    let bits = xorshift_after(seed_state(seed), (i + 1) as nat);
    assert((3 * i + a) / 3 == i && (3 * i + a) % 3 == a);
    assert(noise_delta(bits, 0) == 0) by {
        law_small_numbers_are_exact(0);
        let centred = 2 * rounded(bits as nat) - ONE;
        let magnitude = rounded(if centred < 0 { (-centred) as nat } else { centred as nat });
        assert(magnitude * 0 == 0) by (nonlinear_arith);
    }
}

/// A texel that no mark lies on keeps its colour.
pub proof fn law_unmarked_texels_stay(t: Seq<[u8; 3]>, marks: Seq<Mark>, x: int, y: int)
    requires
        TEXELS <= t.len(),
        0 <= x < TILE_TEX,
        0 <= y < TILE_TEX,
        forall|k: int| 0 <= k < marks.len() ==> !((#[trigger] marks[k]).x == x && marks[k].y == y),
    ensures
        marked(t, marks).len() == t.len(),
        marked(t, marks)[y * TILE_TEX + x] == t[y * TILE_TEX + x],
    decreases marks.len(),
{
    if marks.len() > 0 {
        let before = marks.drop_last();
        assert forall|k: int| 0 <= k < before.len() implies !((#[trigger] before[k]).x == x && before[k].y == y) by {
            assert(before[k] == marks[k]);
        }
        law_unmarked_texels_stay(t, before, x, y);
        let m = marks.last();
        assert(m == marks[marks.len() - 1]);
        if m.y * TILE_TEX + m.x == y * TILE_TEX + x && m.x < TILE_TEX {
            assert(m.y == y);
        }
    }
}

/// The bytes of a finished tile.
pub open spec fn tile_bytes(
    pattern: Seq<char>,
    base: [u8; 3],
    mortar: [u8; 3],
    noise: u32,
    marks: Seq<Mark>,
    seed: u32,
) -> Seq<u8> {
    noised(marked(painted(pattern, base, mortar, seed), marks), noise, seed)
}

/// Generates the tile of a pattern name: RGB bytes, row by row.
pub fn gen_tile(pattern: &str, base: [u8; 3], mortar: [u8; 3], noise: u32, marks: &[Mark], seed: u32) -> (r: Vec<u8>)
    requires
        forall|k: int| 0 <= k < marks@.len() ==> marks@[k].strength <= FULL_STRENGTH,
    ensures
        r@ == tile_bytes(pattern@, base, mortar, noise, marks@, seed),
        r@.len() == 3 * TILE * TILE,
        forall|j: int| 0 <= j < r@.len() ==> 2 <= #[trigger] r@[j] && r@[j] <= 253,
{
    let mut texels: Vec<[u8; 3]> = paint_pattern(pattern, base, mortar, seed);
    apply_marks(&mut texels, marks);
    add_noise(&texels, noise, seed)
}

/// Generates the tile of a floor material.
pub fn gen_floor_tile(
    pattern: &FloorPattern,
    base: [u8; 3],
    mortar: [u8; 3],
    noise: u32,
    marks: &[Mark],
    seed: u32,
) -> (r: Vec<u8>)
    requires
        forall|k: int| 0 <= k < marks@.len() ==> marks@[k].strength <= FULL_STRENGTH,
    ensures
        r@ == tile_bytes(pattern.title(), base, mortar, noise, marks@, seed),
        r@.len() == 3 * TILE * TILE,
        forall|j: int| 0 <= j < r@.len() ==> 2 <= #[trigger] r@[j] && r@[j] <= 253,
{
    gen_tile(pattern.name(), base, mortar, noise, marks, seed)
}

/// Generates the tile of a wall material.
pub fn gen_wall_tile(
    pattern: &WallPattern,
    base: [u8; 3],
    mortar: [u8; 3],
    noise: u32,
    marks: &[Mark],
    seed: u32,
) -> (r: Vec<u8>)
    requires
        forall|k: int| 0 <= k < marks@.len() ==> marks@[k].strength <= FULL_STRENGTH,
    ensures
        r@ == tile_bytes(pattern.title(), base, mortar, noise, marks@, seed),
        r@.len() == 3 * TILE * TILE,
        forall|j: int| 0 <= j < r@.len() ==> 2 <= #[trigger] r@[j] && r@[j] <= 253,
{
    gen_tile(pattern.name(), base, mortar, noise, marks, seed)
}

proof fn lemma_nearly(n: nat, bound: nat)
    requires
        n <= bound,
        bound >= 0x80_0000,
    ensures
        rounded(n) <= n + bound / 0x100_0000 + 1,
        n <= rounded(n) + bound / 0x100_0000 + 1,
{
    law_rounding_error(n);
    lemma_spacing_relative(n);
}

/// A blend lies between its two colours in the proportion of its strength: it is the whole part of
/// the weighted mean, but for what single precision leaves out.
#[verifier::rlimit(50)]
pub proof fn law_blend_is_a_weighted_mean(under: u8, over: u8, strength: nat)
    requires
        strength <= FULL_STRENGTH,
    ensures
        blended_channel(under, over, strength) * FULL_STRENGTH <= under * (FULL_STRENGTH - strength) + over * strength
            + 0x8000,
        under * (FULL_STRENGTH - strength) + over * strength < (blended_channel(under, over, strength) + 1)
            * FULL_STRENGTH + 0x8000,
{
    let left = (FULL_STRENGTH - strength) as nat;
    let rest = rounded(left);
    let u = under as nat;
    let o = over as nat;
    lemma_nearly(left, 0x800_0000);
    assert(u * rest <= u * left + 255 * 9 && u * left <= u * rest + 255 * 9 && u * rest <= 255 * 0x800_0009 && o
        * strength <= 255 * 0x800_0000 && u * left + o * strength <= 255 * 0x800_0000) by (nonlinear_arith)
        requires
            u <= 255,
            o <= 255,
            rest <= left + 9,
            left <= rest + 9,
            left + strength == 0x800_0000,
    ;
    lemma_nearly(u * rest, 0x8_0000_0000);
    lemma_nearly(o * strength, 0x8_0000_0000);
    let parts = rounded(u * rest) + rounded(o * strength);
    lemma_nearly(parts, 0x8_0000_0000);
    let sum = rounded(parts);
    let exact = u * left + o * strength;
    assert(sum <= exact + 0x8000 && exact <= sum + 0x8000);
    assert(under * (FULL_STRENGTH - strength) == u * left);
    assert(over * strength == o * strength);
    assert(sum / FULL_STRENGTH as nat <= 255);
}

/// Laid over at no strength a colour leaves the other as it is, and at full strength it takes its
/// place; brighter colours never give a darker blend.
pub proof fn law_blend_ends(under: u8, over: u8, brighter: u8, stronger: u8, strength: nat)
    requires
        strength <= FULL_STRENGTH,
        under <= brighter,
        over <= stronger,
    ensures
        blended_channel(under, over, 0) == under,
        blended_channel(under, over, FULL_STRENGTH as nat) == over,
        blended_channel(under, over, strength) <= blended_channel(brighter, stronger, strength),
{
    assert(power_of_two(27) == 0x800_0000) by {
        reveal_with_fuel(power_of_two, 28);
    }
    lemma_exact_in_units(1, 27);
    lemma_exact_in_units(under as nat, 27);
    lemma_exact_in_units(over as nat, 27);
    law_small_numbers_are_exact(0);
    assert(over as nat * 0 == 0 && under as nat * 0 == 0);
    let rest = rounded((FULL_STRENGTH - strength) as nat);
    assert(under as nat * rest <= brighter as nat * rest && over as nat * strength <= stronger as nat * strength)
        by (nonlinear_arith)
        requires
            under <= brighter,
            over <= stronger,
    ;
    law_rounding_is_monotone(under as nat * rest, brighter as nat * rest);
    law_rounding_is_monotone(over as nat * strength, stronger as nat * strength);
    law_rounding_is_monotone(
        rounded(under as nat * rest) + rounded(over as nat * strength),
        rounded(brighter as nat * rest) + rounded(stronger as nat * strength),
    );
}

/// Marks are laid one after the other: those of two lists as those of the first and then those of
/// the second.
pub proof fn law_marks_are_laid_in_order(t: Seq<[u8; 3]>, a: Seq<Mark>, b: Seq<Mark>)
    ensures
        marked(t, a + b) == marked(marked(t, a), b),
    decreases b.len(),
{
    if b.len() == 0 {
        assert(a + b =~= a);
    } else {
        assert((a + b).drop_last() =~= a + b.drop_last());
        assert((a + b).last() == b.last());
        law_marks_are_laid_in_order(t, a, b.drop_last());
    }
}

/// A mark blends its colour over its own texel.
pub proof fn law_a_mark_is_blended(t: Seq<[u8; 3]>, m: Mark, c: int)
    requires
        TEXELS <= t.len(),
        m.x < TILE_TEX,
        m.y < TILE_TEX,
        0 <= c < 3,
    ensures
        marked(t, seq![m])[m.y * TILE_TEX + m.x][c] == blended_channel(
            t[m.y * TILE_TEX + m.x][c],
            m.colour[c],
            m.strength as nat,
        ),
{
    reveal_with_fuel(marked, 2);
    assert(seq![m].drop_last() =~= Seq::<Mark>::empty());
    assert(TEXELS == TILE_TEX * TILE_TEX);
    assert(m.y * TILE_TEX + m.x < TEXELS);
}

/// A higher draw never darkens a texel more, the upper half of the draws brightens and the lower
/// half darkens, and more noise never changes a texel less.
#[verifier::rlimit(50)]
pub proof fn law_noise_follows_its_draw(bits: u32, higher: u32, noise: u32, more: u32)
    requires
        bits <= higher,
        noise <= more,
    ensures
        noise_delta(bits, noise) <= noise_delta(higher, noise),
        bits >= 0x8000_0000 ==> 0 <= noise_delta(bits, noise) <= noise_delta(bits, more),
        bits <= 0x8000_0000 ==> noise_delta(bits, more) <= noise_delta(bits, noise) <= 0,
{
    law_rounding_is_monotone(bits as nat, higher as nat);
    assert(power_of_two(31) == 0x8000_0000) by {
        reveal_with_fuel(power_of_two, 32);
    }
    lemma_exact_in_units(1, 31);
    if bits >= 0x8000_0000 {
        law_rounding_is_monotone(0x8000_0000, bits as nat);
    }
    if bits <= 0x8000_0000 {
        law_rounding_is_monotone(bits as nat, 0x8000_0000);
    }
    if higher <= 0x8000_0000 {
        law_rounding_is_monotone(higher as nat, 0x8000_0000);
    } else {
        law_rounding_is_monotone(0x8000_0000, higher as nat);
    }
    let a = 2 * rounded(bits as nat) - ONE;
    let b = 2 * rounded(higher as nat) - ONE;
    let m: nat = if a < 0 { (-a) as nat } else { a as nat };
    let n: nat = if b < 0 { (-b) as nat } else { b as nat };
    if a >= 0 {
        lemma_noise_size(m, n, noise, noise);
    } else if b < 0 {
        lemma_noise_size(n, m, noise, noise);
    }
    lemma_noise_size(m, m, noise, more);
    if a == 0 {
        law_small_numbers_are_exact(0);
        assert(0 * rounded(noise as nat) == 0 && 0 * rounded(more as nat) == 0);
        assert(noise_size(0, noise) == 0 && noise_size(0, more) == 0);
    }
}

spec fn noise_size(magnitude: nat, noise: u32) -> nat {
    rounded(rounded(rounded(magnitude) * rounded(noise as nat)) * 15099494) / 0x200_0000_0000_0000
}

proof fn lemma_noise_size(m: nat, n: nat, noise: u32, more: u32)
    requires
        m <= n,
        noise <= more,
    ensures
        noise_size(m, noise) <= noise_size(n, more),
{
    law_rounding_is_monotone(m, n);
    law_rounding_is_monotone(noise as nat, more as nat);
    let p = rounded(m);
    let q = rounded(n);
    let v = rounded(noise as nat);
    let w = rounded(more as nat);
    assert(p * v <= q * w) by (nonlinear_arith)
        requires
            p <= q,
            v <= w,
    ;
    law_rounding_is_monotone(p * v, q * w);
    law_rounding_is_monotone(rounded(p * v) * 15099494, rounded(q * w) * 15099494);
}

/// Noise changes a texel by no more than nine twentieths of its strength.
#[verifier::rlimit(50)]
pub proof fn law_noise_is_bounded(bits: u32, noise: u32)
    requires
        noise <= 0x1_0000,
    ensures
        -9 * noise <= 20 * noise_delta(bits, noise) <= 9 * noise,
{
    lemma_rounded_at_most_whole(bits as nat, 1);
    let centred = 2 * rounded(bits as nat) - ONE;
    let m: nat = if centred < 0 { (-centred) as nat } else { centred as nat };
    assert(m <= 0x1_0000_0000);
    law_small_numbers_are_exact(noise as nat);
    lemma_noise_size(m, 0x1_0000_0000, noise, noise);
    lemma_rounded_at_most_whole(0x1_0000_0000, 1);
    let p = rounded(0x1_0000_0000nat);
    assert(power_of_two(32) == 0x1_0000_0000) by {
        reveal_with_fuel(power_of_two, 33);
    }
    lemma_exact_in_units(1, 32);
    lemma_exact_in_units(noise as nat, 32);
    assert(rounded(p * noise as nat) == 0x1_0000_0000 * noise as nat);
    let product: nat = 0x1_0000_0000 * noise as nat * 15099494;
    law_rounding_error(product);
    lemma_spacing_relative(product);
    let scaled = rounded(product);
    assert(scaled <= product + product / 0x100_0000 + 1);
    let whole = scaled / 0x200_0000_0000_0000;
    assert(whole * 0x200_0000_0000_0000 <= scaled);
    assert(20 * whole <= 9 * noise);
}

/// The noise of a tile does not depend on its colours, and leaves every byte between 2 and 253.
pub proof fn law_noise_ignores_the_colours(t: Seq<[u8; 3]>, u: Seq<[u8; 3]>, noise: u32, seed: u32, j: int)
    requires
        t.len() == u.len(),
        0 <= j < 3 * t.len(),
    ensures
        2 <= noised(t, noise, seed)[j] <= 253,
        noised(t, noise, seed).len() == 3 * t.len(),
        t[j / 3][j % 3] <= u[j / 3][j % 3] ==> noised(t, noise, seed)[j] <= noised(u, noise, seed)[j],
        2 < noised(t, noise, seed)[j] < 253 && 2 < noised(u, noise, seed)[j] < 253 ==> noised(t, noise, seed)[j]
            - noised(u, noise, seed)[j] == t[j / 3][j % 3] - u[j / 3][j % 3],
{
}

/// Sand is the same for every seed, grass and hedges for every mortar, and a name of no pattern
/// leaves the base colour.
pub proof fn law_what_patterns_ignore(
    pattern: Seq<char>,
    base: [u8; 3],
    mortar: [u8; 3],
    other: [u8; 3],
    seed: u32,
    again: u32,
)
    ensures
        pattern == "Sand"@ ==> painted(pattern, base, mortar, seed) == painted(pattern, base, mortar, again),
        pattern == "Grass"@ || pattern == "Hedge"@ ==> painted(pattern, base, mortar, seed) == painted(
            pattern,
            base,
            other,
            seed,
        ),
        pattern.len() == 0 ==> painted(pattern, base, mortar, seed) == plain(base),
        pattern.len() == 0 ==> painted(pattern, base, mortar, seed).len() == TEXELS,
{
    reveal_strlit("Cobblestone");
    reveal_strlit("Brick");
    reveal_strlit("Stone Block");
    reveal_strlit("Bark");
    reveal_strlit("Rock Face");
    reveal_strlit("Sand");
    reveal_strlit("Dirt");
    reveal_strlit("Grass");
    reveal_strlit("Hedge");
    if pattern == "Grass"@ || pattern == "Hedge"@ {
        assert(pattern[0] == 'G' || pattern[0] == 'H');
        assert("Brick"@[0] == 'B');
    }
    if pattern == "Sand"@ {
        assert(pattern[0] == 'S' && pattern.len() == 4);
        assert("Bark"@[0] == 'B');
    }
}

/// A tile that is given by its texels has each at its place.
pub proof fn law_texels_have_their_places(f: spec_fn(int, int) -> [u8; 3], x: int, y: int)
    requires
        0 <= x < TILE_TEX,
        0 <= y < TILE_TEX,
    ensures
        from_texels(f).len() == TEXELS,
        from_texels(f)[y * TILE_TEX + x] == f(x, y),
{
    let i = y * TILE_TEX + x;
    assert(TILE_TEX == 32 && TEXELS == 32 * 32);
    assert(0 <= i < TEXELS);
    assert(i / TILE_TEX as int == y && i % TILE_TEX as int == x);
}

/// Noise changes a texel in proportion to its strength and to how far its draw lies from the middle:
/// by the whole part of nine twentieths of both, but for what single precision leaves out.
#[verifier::rlimit(50)]
pub proof fn law_noise_is_in_proportion(bits: u32, noise: u32)
    requires
        noise <= 0x1_0000,
    ensures
        ({
            let k: int = if bits >= 0x8000_0000 { 2 * bits - 0x1_0000_0000 } else { 0x1_0000_0000 - 2 * bits };
            let d: int = if bits >= 0x8000_0000 { noise_delta(bits, noise) } else { -noise_delta(bits, noise) };
            &&& d >= 0
            &&& 20 * d * 0x1_0000_0000 <= 9 * (noise * k) + 0x1_0000_0000
            &&& 9 * (noise * k) < 20 * (d + 1) * 0x1_0000_0000 + 0x1_0000_0000
        }),
{
    law_noise_follows_its_draw(bits, bits, noise, noise);
    let b = rounded(bits as nat);
    lemma_nearly(bits as nat, 0x1_0000_0000);
    lemma_rounded_at_most_whole(bits as nat, 1);
    assert(power_of_two(31) == 0x8000_0000) by {
        reveal_with_fuel(power_of_two, 32);
    }
    lemma_exact_in_units(1, 31);
    if bits >= 0x8000_0000 {
        law_rounding_is_monotone(0x8000_0000, bits as nat);
    } else {
        law_rounding_is_monotone(bits as nat, 0x8000_0000);
    }
    let centred = 2 * b - ONE;
    let size: nat = if centred < 0 { (-centred) as nat } else { centred as nat };
    let k: int = if bits >= 0x8000_0000 { 2 * bits - 0x1_0000_0000 } else { 0x1_0000_0000 - 2 * bits };
    assert(-600 <= size - k <= 600);
    lemma_nearly(size, 0x1_0000_0000);
    let m = rounded(size);
    assert(-900 <= m - k <= 900);
    law_small_numbers_are_exact(noise as nat);
    let v = noise as nat;
    let p = m * v;
    assert(-900 * 0x1_0000 <= p - v * k <= 900 * 0x1_0000 && 0 <= v * k <= 0x1_0000 * 0x1_0000_0000) by (nonlinear_arith)
        requires
            p == m * v,
            -900 <= m - k <= 900,
            0 <= k <= 0x1_0000_0000,
            v <= 0x1_0000,
    ;
    lemma_nearly(p, 0x2_0000_0000_0000);
    let r = rounded(p);
    let t = r * 15099494;
    lemma_nearly(t, 0x2_0000_0000_0000 * 15099494);
    let scaled = rounded(t);
    let whole = scaled / 0x200_0000_0000_0000;
    assert(noise * k == v * k);
    assert(whole == (if bits >= 0x8000_0000 || size == 0 { noise_delta(bits, noise) } else { -noise_delta(bits, noise) }));
}

/// The texels of a tile take a draw each, in order: the first takes the first of its seed, and every
/// other is noised as the first would be under the seed that has come that far.
pub proof fn law_texels_take_a_draw_each(t: Seq<[u8; 3]>, noise: u32, seed: u32, later: u32, i: int, c: int)
    requires
        0 <= i < t.len(),
        0 <= c < 3,
        seed_state(later) == xorshift_after(seed_state(seed), i as nat),
    ensures
        noised(t, noise, seed)[3 * i + c] == noised(t.skip(i), noise, later)[c],
        noised(t, noise, seed)[c] == clamped(t[0][c] + noise_delta(xorshift(seed_state(seed)), noise), 2, 253),
{
    assert((3 * i + c) / 3 == i && (3 * i + c) % 3 == c);
    assert(c / 3 == 0 && c % 3 == c);
    law_steps_add_up(seed_state(seed), i as nat, 1);
    law_steps_add_up(seed_state(seed), 0, 1);
    law_steps_add_up(seed_state(later), 0, 1);
    assert(t.skip(i)[0] == t[i]);
}

/// Without noise a tile shows its pattern, but for the limits of a byte; a mark of full strength
/// shows its own colour instead, and only on its texel.
#[verifier::rlimit(50)]
pub proof fn law_tiles_show_pattern_and_wear(
    pattern: Seq<char>,
    base: [u8; 3],
    mortar: [u8; 3],
    seed: u32,
    m: Mark,
    x: int,
    y: int,
    c: int,
)
    requires
        painted(pattern, base, mortar, seed).len() == TEXELS,
        m.strength == FULL_STRENGTH,
        m.x < TILE_TEX,
        m.y < TILE_TEX,
        0 <= x < TILE_TEX,
        0 <= y < TILE_TEX,
        0 <= c < 3,
    ensures
        ({
            let i = y * TILE_TEX + x;
            let t = painted(pattern, base, mortar, seed);
            &&& tile_bytes(pattern, base, mortar, 0, Seq::empty(), seed)[3 * i + c] == clamped(t[i][c] as int, 2, 253)
            &&& tile_bytes(pattern, base, mortar, 0, seq![m], seed)[3 * i + c] == clamped(
                if m.x == x && m.y == y {
                    m.colour[c] as int
                } else {
                    t[i][c] as int
                },
                2,
                253,
            )
        }),
{
    let t = painted(pattern, base, mortar, seed);
    let i = y * TILE_TEX + x;
    assert(TILE_TEX == 32 && TEXELS == 32 * 32);
    assert(0 <= i < TEXELS);
    law_no_noise_keeps_texels(t, seed, i, c);
    assert(marked(t, Seq::empty()) == t);
    let u = marked(t, seq![m]);
    reveal_with_fuel(marked, 2);
    assert(seq![m].drop_last() =~= Seq::<Mark>::empty());
    assert(u.len() == t.len());
    law_no_noise_keeps_texels(u, seed, i, c);
    law_a_mark_is_blended(t, m, c);
    law_blend_ends(t[i][c], m.colour[c], t[i][c], m.colour[c], 0);
    if !(m.x == x && m.y == y) {
        law_unmarked_texels_stay(t, seq![m], x, y);
    }
}

/// The patterns of walls and paths go by their names, texel by texel.
#[verifier::rlimit(50)]
pub proof fn law_patterns_by_texel(base: [u8; 3], mortar: [u8; 3], seed: u32, x: int, y: int)
    requires
        0 <= x < TILE_TEX,
        0 <= y < TILE_TEX,
    ensures
        ({
            let i = y * TILE_TEX + x;
            &&& painted("Cobblestone"@, base, mortar, seed)[i] == cobble_texel(
                stone_field(base, seed),
                mortar,
                x as nat,
                y as nat,
            )
            &&& painted("Brick"@, base, mortar, seed)[i] == brick_texel(base, mortar, seed, x, y)
            &&& painted("Stone Block"@, base, mortar, seed)[i] == block_texel(base, mortar, seed, x, y)
            &&& painted("Bark"@, base, mortar, seed)[i] == bark_texel(base, mortar, seed, x, y)
            &&& painted("Sand"@, base, mortar, seed)[i] == sand_texel(base, mortar, x, y)
        }),
{
    let i = y * TILE_TEX + x;
    assert(TILE_TEX == 32 && TEXELS == 32 * 32);
    assert(0 <= i < TEXELS);
    assert(i / TILE_TEX as int == y && i % TILE_TEX as int == x);
    lemma_pattern_names_differ();
}

/// The patterns that are grown from draws go by their names, each from a seed of its own.
pub proof fn law_grown_patterns(base: [u8; 3], mortar: [u8; 3], seed: u32)
    ensures
        painted("Rock Face"@, base, mortar, seed) == rock_face(plain(base), mortar, seed_state(seed.wrapping_add(20)), 8),
        painted("Dirt"@, base, mortar, seed) == specked(plain(base), mortar, seed_state(seed.wrapping_add(30)), 40),
        painted("Grass"@, base, mortar, seed) == bladed(plain(base), base, seed_state(seed.wrapping_add(40)), 0),
        painted("Hedge"@, base, mortar, seed) == dabbed(plain(base), base, seed_state(seed.wrapping_add(50)), 0),
{
    lemma_pattern_names_differ();
}

proof fn lemma_pattern_names_differ()
    ensures
        "Cobblestone"@.len() == 11 && "Cobblestone"@[0] == 'C',
        "Brick"@.len() == 5 && "Brick"@[0] == 'B',
        "Stone Block"@.len() == 11 && "Stone Block"@[0] == 'S',
        "Bark"@.len() == 4 && "Bark"@[0] == 'B',
        "Rock Face"@.len() == 9,
        "Sand"@.len() == 4 && "Sand"@[0] == 'S',
        "Dirt"@.len() == 4 && "Dirt"@[0] == 'D',
        "Grass"@.len() == 5 && "Grass"@[0] == 'G',
        "Hedge"@.len() == 5 && "Hedge"@[0] == 'H',
{
    reveal_strlit("Cobblestone");
    reveal_strlit("Brick");
    reveal_strlit("Stone Block");
    reveal_strlit("Bark");
    reveal_strlit("Rock Face");
    reveal_strlit("Sand");
    reveal_strlit("Dirt");
    reveal_strlit("Grass");
    reveal_strlit("Hedge");
}

} // verus!
