//! The marks of wear on a tile: cracks that wander over it and chips out of it.
use vstd::prelude::*;

use crate::patterns::wrap_to_tile;
use crate::rounding::{
    law_rounding_error, law_rounding_is_monotone, lemma_spacing_relative, round_to_significand, rounded,
};
use crate::tile_gen::Mark;
use crate::tiles::{clamped, TILE_TEX};

verus! {

/// A channel of a crack: 0.85 of the mortar and 0.15 of the base, in single precision. The
/// two factors count in units of two to the power minus 26.
pub open spec fn crack_channel(base: u8, mortar: u8) -> u8 {
    let sum = rounded(rounded(mortar as nat * 57042536) + rounded(base as nat * 10066330));
    clamped((sum / 0x400_0000) as int, 0, 255) as u8
}

fn crack_byte(base: u8, mortar: u8) -> (r: u8)
    ensures
        r == crack_channel(base, mortar),
{
    let dark: u128 = round_to_significand((mortar as u128) * 57042536);
    let light: u128 = round_to_significand((base as u128) * 10066330);
    let v: u128 = round_to_significand(dark + light) / 0x400_0000;
    if v > 255 {
        255
    } else {
        v as u8
    }
}

/// The colour of the cracks of a tile.
pub fn crack_colour(base: [u8; 3], mortar: [u8; 3]) -> (r: [u8; 3])
    ensures
        r == [
            crack_channel(base[0], mortar[0]),
            crack_channel(base[1], mortar[1]),
            crack_channel(base[2], mortar[2]),
        ],
{
    [crack_byte(base[0], mortar[0]), crack_byte(base[1], mortar[1]), crack_byte(base[2], mortar[2])]
}

/// The marks that a crack leaves where it passes a texel: one on the texel, and on a wide
/// crack weaker ones on the texels to the right and below, which wrap around.
pub open spec fn crack_step(x: usize, y: usize, colour: [u8; 3], wide: bool, strong: u32, weak: u32) -> Seq<Mark> {
    let here = Mark { x, y, colour, strength: strong };
    if wide {
        seq![
            here,
            Mark { x: ((x + 1) % (TILE_TEX as int)) as usize, y, colour, strength: weak },
            Mark { x, y: ((y + 1) % (TILE_TEX as int)) as usize, colour, strength: weak },
        ]
    } else {
        seq![here]
    }
}

/// The marks of a crack along a path of texels.
pub open spec fn crack_marks(
    path: Seq<(usize, usize)>,
    colour: [u8; 3],
    wide: bool,
    strong: u32,
    weak: u32,
) -> Seq<Mark>
    decreases path.len(),
{
    if path.len() == 0 {
        Seq::empty()
    } else {
        crack_marks(path.drop_last(), colour, wide, strong, weak) + crack_step(
            path.last().0,
            path.last().1,
            colour,
            wide,
            strong,
            weak,
        )
    }
}

/// Appends the marks of a crack along a path of texels.
pub fn push_crack(
    marks: &mut Vec<Mark>,
    path: &Vec<(usize, usize)>,
    colour: [u8; 3],
    wide: bool,
    strong: u32,
    weak: u32,
)
    requires
        forall|i: int| 0 <= i < path@.len() ==> (#[trigger] path@[i]).0 < usize::MAX && path@[i].1 < usize::MAX,
    ensures
        final(marks)@ == old(marks)@ + crack_marks(path@, colour, wide, strong, weak),
{
    let ghost before = marks@;
    let mut i: usize = 0;
    assert(path@.take(0) == Seq::<(usize, usize)>::empty());
    assert(marks@ == before + crack_marks(path@.take(0), colour, wide, strong, weak));
    while i < path.len()
        invariant
            i <= path@.len(),
            forall|k: int| 0 <= k < path@.len() ==> (#[trigger] path@[k]).0 < usize::MAX && path@[k].1 < usize::MAX,
            marks@ == before + crack_marks(path@.take(i as int), colour, wide, strong, weak),
        decreases path.len() - i,
    {
        let ghost so_far = marks@;
        let x: usize = path[i].0;
        let y: usize = path[i].1;
        marks.push(Mark { x, y, colour, strength: strong });
        if wide {
            marks.push(Mark { x: (x + 1) % TILE_TEX, y, colour, strength: weak });
            marks.push(Mark { x, y: (y + 1) % TILE_TEX, colour, strength: weak });
        }
        proof {
            let now = path@.take(i + 1);
            assert(now.drop_last() == path@.take(i as int));
            assert(now.last() == path@[i as int]);
            assert(marks@ == so_far + crack_step(x, y, colour, wide, strong, weak));
            assert(marks@ == before + crack_marks(now, colour, wide, strong, weak));
        }
        i = i + 1;
    }
    assert(path@.take(path@.len() as int) == path@);
}

/// The marks of the first `n` places of one row of a chip, from left to right: those within
/// its radius, wrapped around the tile.
pub open spec fn chip_row(cx: int, cy: int, r: int, oy: int, colour: [u8; 3], strength: u32, n: nat) -> Seq<Mark>
    decreases n,
{
    if n == 0 {
        Seq::empty()
    } else {
        let before = chip_row(cx, cy, r, oy, colour, strength, (n - 1) as nat);
        let ox = n - 1 - r;
        if ox * ox + oy * oy <= r * r {
            before.push(
                Mark {
                    x: ((cx + ox) % TILE_TEX as int) as usize,
                    y: ((cy + oy) % TILE_TEX as int) as usize,
                    colour,
                    strength,
                },
            )
        } else {
            before
        }
    }
}

/// The marks of the first `n` rows of a chip.
pub open spec fn chip_rows(cx: int, cy: int, r: int, colour: [u8; 3], strength: u32, n: nat) -> Seq<Mark>
    decreases n,
{
    if n == 0 {
        Seq::empty()
    } else {
        chip_rows(cx, cy, r, colour, strength, (n - 1) as nat) + chip_row(
            cx,
            cy,
            r,
            n - 1 - r,
            colour,
            strength,
            (2 * r + 1) as nat,
        )
    }
}

/// Appends the marks of a chip: a disc around a texel.
pub fn push_chip(marks: &mut Vec<Mark>, cx: usize, cy: usize, r: i32, colour: [u8; 3], strength: u32)
    requires
        cx <= TILE_TEX,
        cy <= TILE_TEX,
        0 <= r <= 1000,
    ensures
        final(marks)@ == old(marks)@ + chip_rows(
            cx as int,
            cy as int,
            r as int,
            colour,
            strength,
            (2 * r + 1) as nat,
        ),
{
    let ghost before = marks@;
    let mut oy: i32 = -r;
    assert(marks@ == before + chip_rows(cx as int, cy as int, r as int, colour, strength, 0));
    while oy <= r
        invariant
            cx <= TILE_TEX,
            cy <= TILE_TEX,
            0 <= r <= 1000,
            -r <= oy <= r + 1,
            marks@ == before + chip_rows(cx as int, cy as int, r as int, colour, strength, (oy + r) as nat),
        decreases r + 1 - oy,
    {
        let ghost rows = marks@;
        let mut ox: i32 = -r;
        assert(marks@ == rows + chip_row(cx as int, cy as int, r as int, oy as int, colour, strength, 0));
        while ox <= r
            invariant
                cx <= TILE_TEX,
                cy <= TILE_TEX,
                0 <= r <= 1000,
                -r <= oy <= r,
                -r <= ox <= r + 1,
                marks@ == rows + chip_row(
                    cx as int,
                    cy as int,
                    r as int,
                    oy as int,
                    colour,
                    strength,
                    (ox + r) as nat,
                ),
            decreases r + 1 - ox,
        {
            let ghost so_far = marks@;
            let ghost row = chip_row(cx as int, cy as int, r as int, oy as int, colour, strength, (ox + r) as nat);
            assert(0 <= ox * ox <= 1_000_000 && 0 <= oy * oy <= 1_000_000 && 0 <= r * r <= 1_000_000)
                by (nonlinear_arith)
                requires
                    -1000 <= ox <= 1000,
                    -1000 <= oy <= 1000,
                    0 <= r <= 1000,
            ;
            if ox * ox + oy * oy <= r * r {
                let x: usize = wrap_to_tile(cx as i32 + ox);
                let y: usize = wrap_to_tile(cy as i32 + oy);
                let mark: Mark = Mark { x, y, colour, strength };
                marks.push(mark);
                assert(marks@ == rows + row.push(mark));
            }
            ox = ox + 1;
        }
        assert(marks@ == before + chip_rows(cx as int, cy as int, r as int, colour, strength, (oy + r + 1) as nat));
        oy = oy + 1;
    }
}

/// A crack lies between the mortar and the base: it is the whole part of 85 hundredths of the one
/// and 15 of the other, but for what single precision leaves out, and brighter colours never give a
/// darker crack.
#[verifier::rlimit(50)]
pub proof fn law_cracks_lean_to_the_mortar(base: u8, mortar: u8, lighter: u8, paler: u8)
    requires
        base <= lighter,
        mortar <= paler,
    ensures
        crack_channel(base, mortar) <= crack_channel(lighter, paler),
        100 * crack_channel(base, mortar) <= 85 * mortar + 15 * base + 1,
        85 * mortar + 15 * base < 100 * (crack_channel(base, mortar) + 1) + 1,
{
    let m = mortar as nat * 57042536;
    let b = base as nat * 10066330;
    law_rounding_is_monotone(m, paler as nat * 57042536);
    law_rounding_is_monotone(b, lighter as nat * 10066330);
    law_rounding_is_monotone(
        rounded(m) + rounded(b),
        rounded(paler as nat * 57042536) + rounded(lighter as nat * 10066330),
    );
    law_rounding_error(m);
    lemma_spacing_relative(m);
    law_rounding_error(b);
    lemma_spacing_relative(b);
    law_rounding_error(rounded(m) + rounded(b));
    lemma_spacing_relative(rounded(m) + rounded(b));
    let sum = rounded(rounded(m) + rounded(b));
    assert(sum <= m + b + 8192 && m + b <= sum + 8192);
}

/// A crack is made of the marks of its texels, one after the other: one on each, and on a wide
/// crack two weaker ones beside it.
pub proof fn law_cracks_follow_their_path(
    a: Seq<(usize, usize)>,
    b: Seq<(usize, usize)>,
    colour: [u8; 3],
    wide: bool,
    strong: u32,
    weak: u32,
)
    ensures
        crack_marks(a + b, colour, wide, strong, weak) == crack_marks(a, colour, wide, strong, weak) + crack_marks(
            b,
            colour,
            wide,
            strong,
            weak,
        ),
        crack_marks(a, colour, wide, strong, weak).len() == a.len() * (if wide { 3int } else { 1 }),
    decreases a.len() + b.len(),
{
    if a.len() > 0 {
        law_cracks_follow_their_path(a.drop_last(), Seq::empty(), colour, wide, strong, weak);
    }
    if b.len() == 0 {
        assert(a + b =~= a);
        assert(crack_marks(a, colour, wide, strong, weak) + crack_marks(b, colour, wide, strong, weak) =~= crack_marks(
            a,
            colour,
            wide,
            strong,
            weak,
        ));
    } else {
        assert((a + b).drop_last() =~= a + b.drop_last());
        assert((a + b).last() == b.last());
        law_cracks_follow_their_path(a, b.drop_last(), colour, wide, strong, weak);
        assert(crack_marks(a + b, colour, wide, strong, weak) =~= crack_marks(a, colour, wide, strong, weak)
            + crack_marks(b, colour, wide, strong, weak));
    }
}

/// Every mark of a crack has its colour and lies on a texel of the path at full strength or, on a
/// wide crack, right of or below one at the weaker strength. Within the tile they stay within it.
pub proof fn law_marks_of_a_crack(x: usize, y: usize, colour: [u8; 3], wide: bool, strong: u32, weak: u32, i: int)
    requires
        x < TILE_TEX,
        y < TILE_TEX,
        0 <= i < crack_step(x, y, colour, wide, strong, weak).len(),
    ensures
        ({
            let m = crack_step(x, y, colour, wide, strong, weak)[i];
            &&& m.colour == colour
            &&& m.x < TILE_TEX && m.y < TILE_TEX
            &&& i == 0 ==> m.x == x && m.y == y && m.strength == strong
            &&& i > 0 ==> wide && m.strength == weak
            &&& i == 1 && x + 1 < TILE_TEX ==> m.x == x + 1 && m.y == y
            &&& i == 1 && x + 1 == TILE_TEX ==> m.x == 0 && m.y == y
            &&& i == 2 && y + 1 < TILE_TEX ==> m.x == x && m.y == y + 1
            &&& i == 2 && y + 1 == TILE_TEX ==> m.x == x && m.y == 0
        }),
{
}

/// The mark of a chip at an offset from its centre.
pub open spec fn chip_mark(cx: int, cy: int, ox: int, oy: int, colour: [u8; 3], strength: u32) -> Mark {
    Mark {
        x: ((cx + ox) % TILE_TEX as int) as usize,
        y: ((cy + oy) % TILE_TEX as int) as usize,
        colour,
        strength,
    }
}

proof fn lemma_chip_row(cx: int, cy: int, r: int, oy: int, colour: [u8; 3], strength: u32, n: nat, ox: int)
    requires
        -r <= ox < n - r,
        ox * ox + oy * oy <= r * r,
    ensures
        chip_row(cx, cy, r, oy, colour, strength, n).contains(chip_mark(cx, cy, ox, oy, colour, strength)),
    decreases n,
{
    let row = chip_row(cx, cy, r, oy, colour, strength, n);
    let before = chip_row(cx, cy, r, oy, colour, strength, (n - 1) as nat);
    let m = chip_mark(cx, cy, ox, oy, colour, strength);
    if ox == n - 1 - r {
        assert(row[before.len() as int] == m);
    } else {
        lemma_chip_row(cx, cy, r, oy, colour, strength, (n - 1) as nat, ox);
        let i = choose|i: int| 0 <= i < before.len() && before[i] == m;
        assert(row[i] == m);
    }
}

proof fn lemma_chip_rows(cx: int, cy: int, r: int, colour: [u8; 3], strength: u32, n: nat, ox: int, oy: int)
    requires
        -r <= oy < n - r,
        -r <= ox <= r,
        ox * ox + oy * oy <= r * r,
    ensures
        chip_rows(cx, cy, r, colour, strength, n).contains(chip_mark(cx, cy, ox, oy, colour, strength)),
    decreases n,
{
    let rows = chip_rows(cx, cy, r, colour, strength, n);
    let before = chip_rows(cx, cy, r, colour, strength, (n - 1) as nat);
    let row = chip_row(cx, cy, r, n - 1 - r, colour, strength, (2 * r + 1) as nat);
    let m = chip_mark(cx, cy, ox, oy, colour, strength);
    if oy == n - 1 - r {
        lemma_chip_row(cx, cy, r, oy, colour, strength, (2 * r + 1) as nat, ox);
        let i = choose|i: int| 0 <= i < row.len() && row[i] == m;
        assert(rows[before.len() + i] == m);
    } else {
        lemma_chip_rows(cx, cy, r, colour, strength, (n - 1) as nat, ox, oy);
        let i = choose|i: int| 0 <= i < before.len() && before[i] == m;
        assert(rows[i] == m);
    }
}

/// A chip marks every texel within its radius around its centre, which wraps around the tile.
pub proof fn law_chips_cover_their_disc(
    cx: int,
    cy: int,
    r: int,
    colour: [u8; 3],
    strength: u32,
    ox: int,
    oy: int,
)
    requires
        r >= 0,
        ox * ox + oy * oy <= r * r,
    ensures
        chip_rows(cx, cy, r, colour, strength, (2 * r + 1) as nat).contains(
            chip_mark(cx, cy, ox, oy, colour, strength),
        ),
{
    assert(-r <= ox <= r && -r <= oy <= r) by (nonlinear_arith)
        requires
            r >= 0,
            ox * ox + oy * oy <= r * r,
    ;
    lemma_chip_rows(cx, cy, r, colour, strength, (2 * r + 1) as nat, ox, oy);
}

/// Whether a mark of a chip lies within the radius of it.
pub open spec fn is_chipped(cx: int, cy: int, r: int, colour: [u8; 3], strength: u32, m: Mark) -> bool {
    exists|ox: int, oy: int|
        #![trigger chip_mark(cx, cy, ox, oy, colour, strength)]
        ox * ox + oy * oy <= r * r && m == chip_mark(cx, cy, ox, oy, colour, strength)
}

proof fn lemma_row_is_chipped(cx: int, cy: int, r: int, oy: int, colour: [u8; 3], strength: u32, n: nat, i: int)
    requires
        0 <= i < chip_row(cx, cy, r, oy, colour, strength, n).len(),
    ensures
        is_chipped(cx, cy, r, colour, strength, chip_row(cx, cy, r, oy, colour, strength, n)[i]),
    decreases n,
{
    let before = chip_row(cx, cy, r, oy, colour, strength, (n - 1) as nat);
    if i < before.len() {
        lemma_row_is_chipped(cx, cy, r, oy, colour, strength, (n - 1) as nat, i);
    } else {
        let ox = n - 1 - r;
        assert(chip_row(cx, cy, r, oy, colour, strength, n)[i] == chip_mark(cx, cy, ox, oy, colour, strength));
    }
}

/// A chip marks nothing beyond its radius.
pub proof fn law_chips_keep_to_their_disc(cx: int, cy: int, r: int, colour: [u8; 3], strength: u32, n: nat, i: int)
    requires
        0 <= i < chip_rows(cx, cy, r, colour, strength, n).len(),
    ensures
        is_chipped(cx, cy, r, colour, strength, chip_rows(cx, cy, r, colour, strength, n)[i]),
    decreases n,
{
    let before = chip_rows(cx, cy, r, colour, strength, (n - 1) as nat);
    if i < before.len() {
        law_chips_keep_to_their_disc(cx, cy, r, colour, strength, (n - 1) as nat, i);
    } else {
        lemma_row_is_chipped(cx, cy, r, n - 1 - r, colour, strength, (2 * r + 1) as nat, i - before.len());
    }
}

} // verus!
