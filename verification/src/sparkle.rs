//! Light that is added to single pixels and small discs: stars and motes.
use vstd::prelude::*;

use crate::raster::{lemma_pixel_fits, lemma_pixel_place};
use crate::tiles::clamped;

verus! {

/// The sum of two bytes, up to the largest byte.
pub open spec fn lit(v: u8, more: u8) -> u8 {
    clamped(v + more, 0, 255) as u8
}

fn light_up(v: u8, more: u8) -> (r: u8)
    ensures
        r == lit(v, more),
{
    let sum: u32 = v as u32 + more as u32;
    if sum > 255 {
        255
    } else {
        sum as u8
    }
}

/// A picture with light added to the colour channels of one pixel, if that lies within it.
pub open spec fn with_light(buf: Seq<u8>, w: int, h: int, x: int, y: int, more: [u8; 3]) -> Seq<u8> {
    if 0 <= x < w && 0 <= y < h {
        Seq::new(buf.len(), |i: int| if i / 4 == y * w + x && i % 4 < 3 { lit(buf[i], more[i % 4]) } else { buf[i] })
    } else {
        buf
    }
}

/// Adds light to one pixel, if that lies within the picture.
pub fn add_light(buf: &mut Vec<u8>, w: usize, h: usize, x: i64, y: i64, more: [u8; 3])
    requires
        w * h * 4 <= old(buf)@.len() <= usize::MAX,
        w <= 0x7fff_ffff,
        h <= 0x7fff_ffff,
    ensures
        final(buf)@ == with_light(old(buf)@, w as int, h as int, x as int, y as int, more),
{
    if x < 0 || y < 0 || x >= w as i64 || y >= h as i64 {
        return;
    }
    let ghost before = buf@;
    proof {
        lemma_pixel_fits(w as int, h as int, x as int, y as int);
        assert(y * w >= 0) by (nonlinear_arith)
            requires
                y >= 0,
                w >= 0,
        ;
    }
    let pi: usize = ((y as usize) * w + (x as usize)) * 4;
    buf[pi] = light_up(buf[pi], more[0]);
    buf[pi + 1] = light_up(buf[pi + 1], more[1]);
    buf[pi + 2] = light_up(buf[pi + 2], more[2]);
    proof {
        let goal = with_light(before, w as int, h as int, x as int, y as int, more);
        assert forall|i: int| 0 <= i < buf@.len() implies #[trigger] buf@[i] == goal[i] by {
            assert(i == i / 4 * 4 + i % 4);
        }
        assert(buf@ =~= goal);
    }
}

/// Adds a mote: the same light to each channel of a pixel.
pub fn add_mote(buf: &mut Vec<u8>, w: usize, h: usize, x: i64, y: i64, brightness: u8)
    requires
        w * h * 4 <= old(buf)@.len() <= usize::MAX,
        w <= 0x7fff_ffff,
        h <= 0x7fff_ffff,
    ensures
        final(buf)@ == with_light(
            old(buf)@,
            w as int,
            h as int,
            x as int,
            y as int,
            [brightness, brightness, brightness],
        ),
{
    add_light(buf, w, h, x, y, [brightness, brightness, brightness]);
}

/// Whether a pixel lies in a disc.
pub open spec fn in_disc(x: int, y: int, cx: int, cy: int, r: int) -> bool {
    (x - cx) * (x - cx) + (y - cy) * (y - cy) <= r * r
}

/// Whether byte `i` is a colour channel of a pixel of the disc, in a part of the square
/// around it: the rows above `row`, and of that row the columns left of `column`.
pub open spec fn in_part(i: int, w: int, h: int, cx: int, cy: int, r: int, row: int, column: int) -> bool {
    let x = i / 4 % w;
    let y = i / 4 / w;
    &&& i % 4 < 3
    &&& y < h
    &&& cx - r <= x <= cx + r
    &&& cy - r <= y <= cy + r
    &&& y < row || (y == row && x < column)
    &&& in_disc(x, y, cx, cy, r)
}

/// Byte `i` of a picture with light added to a disc, as far as it lies within the top `h`
/// rows.
pub open spec fn disc_byte(buf: Seq<u8>, w: int, h: int, cx: int, cy: int, r: int, more: [u8; 3], i: int) -> u8 {
    let x = i / 4 % w;
    let y = i / 4 / w;
    if i % 4 < 3 && y < h && in_disc(x, y, cx, cy, r) {
        lit(buf[i], more[i % 4])
    } else {
        buf[i]
    }
}

/// Adds a star: light on every pixel of a disc, as far as it lies within the top `h` rows. The
/// square of a corner's distance fits 32 bits with a sign.
pub fn add_star(buf: &mut Vec<u8>, w: usize, h: usize, cx: i32, cy: i32, r: i32, more: [u8; 3])
    requires
        0 < w <= 0x7fff_ffff,
        h <= 0x7fff_ffff,
        w * h * 4 <= old(buf)@.len() <= usize::MAX,
        0 <= r <= 32767,
        i32::MIN <= cx - r && cx + r <= i32::MAX,
        i32::MIN <= cy - r && cy + r <= i32::MAX,
    ensures
        final(buf)@.len() == old(buf)@.len(),
        forall|i: int|
            0 <= i < old(buf)@.len() ==> #[trigger] final(buf)@[i] == disc_byte(
                old(buf)@,
                w as int,
                h as int,
                cx as int,
                cy as int,
                r as int,
                more,
                i,
            ),
{
    let ghost before = buf@;
    let mut oy: i32 = -r;
    while oy <= r
        invariant
            0 < w <= 0x7fff_ffff,
            h <= 0x7fff_ffff,
            w * h * 4 <= before.len() <= usize::MAX,
            buf@.len() == before.len(),
            0 <= r <= 32767,
            -r <= oy <= r + 1,
            forall|i: int|
                0 <= i < before.len() ==> #[trigger] buf@[i] == (if in_part(
                    i,
                    w as int,
                    h as int,
                    cx as int,
                    cy as int,
                    r as int,
                    cy + oy,
                    cx - r,
                ) { lit(before[i], more[i % 4]) } else { before[i] }),
        decreases r + 1 - oy,
    {
        let mut ox: i32 = -r;
        while ox <= r
            invariant
                0 < w <= 0x7fff_ffff,
                h <= 0x7fff_ffff,
                w * h * 4 <= before.len() <= usize::MAX,
                buf@.len() == before.len(),
                0 <= r <= 32767,
                -r <= oy <= r,
                -r <= ox <= r + 1,
                forall|i: int|
                    0 <= i < before.len() ==> #[trigger] buf@[i] == (if in_part(
                        i,
                        w as int,
                        h as int,
                        cx as int,
                        cy as int,
                        r as int,
                        cy + oy,
                        cx + ox,
                    ) { lit(before[i], more[i % 4]) } else { before[i] }),
            decreases r + 1 - ox,
        {
            let ghost so_far = buf@;
            assert(0 <= ox * ox <= 1_073_676_289 && 0 <= oy * oy <= 1_073_676_289 && 0 <= r * r <= 1_073_676_289)
                by (nonlinear_arith)
                requires
                    -32767 <= ox <= 32767,
                    -32767 <= oy <= 32767,
                    0 <= r <= 32767,
            ;
            let inside: bool = ox * ox + oy * oy <= r * r;
            if inside {
                add_light(buf, w, h, cx as i64 + ox as i64, cy as i64 + oy as i64, more);
            }
            proof {
                let x = cx + ox;
                let y = cy + oy;
                assert forall|i: int| 0 <= i < before.len() implies #[trigger] buf@[i] == (if in_part(
                    i,
                    w as int,
                    h as int,
                    cx as int,
                    cy as int,
                    r as int,
                    cy + oy,
                    cx + ox + 1,
                ) { lit(before[i], more[i % 4]) } else { before[i] }) by {
                    assert(so_far[i] == so_far[i]);
                    vstd::arithmetic::div_mod::lemma_fundamental_div_mod(i / 4, w as int);
                    vstd::arithmetic::div_mod::lemma_mod_bound(i / 4, w as int);
                    assert(i / 4 / w as int >= 0) by (nonlinear_arith)
                        requires
                            i / 4 == w * (i / 4 / w as int) + i / 4 % w as int,
                            0 <= i / 4 % w as int,
                            i / 4 % (w as int) < w,
                            0 <= i / 4,
                            0 < w,
                    ;
                    if 0 <= x < w && 0 <= y {
                        lemma_pixel_place(w as int, x, y, i / 4);
                    }
                    if i / 4 % w as int == x && i / 4 / w as int == y {
                        assert(in_disc(x, y, cx as int, cy as int, r as int) == inside);
                    }
                }
            }
            ox = ox + 1;
        }
        proof {
            assert forall|i: int| 0 <= i < before.len() implies #[trigger] buf@[i] == (if in_part(
                i,
                w as int,
                h as int,
                cx as int,
                cy as int,
                r as int,
                cy + oy + 1,
                cx - r,
            ) { lit(before[i], more[i % 4]) } else { before[i] }) by {}
        }
        oy = oy + 1;
    }
    proof {
        assert forall|i: int| 0 <= i < before.len() implies #[trigger] buf@[i] == disc_byte(
            before,
            w as int,
            h as int,
            cx as int,
            cy as int,
            r as int,
            more,
            i,
        ) by {
            let x = i / 4 % w as int;
            let y = i / 4 / w as int;
            if in_disc(x, y, cx as int, cy as int, r as int) {
                assert(cx - r <= x <= cx + r && cy - r <= y <= cy + r) by (nonlinear_arith)
                    requires
                        (x - cx) * (x - cx) + (y - cy) * (y - cy) <= r * r,
                        r >= 0,
                ;
            }
        }
    }
}

/// Light adds up until the brightest: it never darkens, no light changes nothing, and more of it
/// is never darker.
pub proof fn law_light_adds_up(v: u8, more: u8, most: u8)
    ensures
        v + more <= 255 ==> lit(v, more) == v + more,
        v + more > 255 ==> lit(v, more) == 255,
        lit(v, more) >= v,
        lit(v, 0) == v,
        lit(v, more) == lit(more, v),
        more <= most ==> lit(v, more) <= lit(v, most),
{
}

/// Light on a pixel brightens the colours of that pixel, and nothing else.
pub proof fn law_light_stays_on_its_pixel(
    buf: Seq<u8>,
    w: int,
    h: int,
    x: int,
    y: int,
    more: [u8; 3],
    px: int,
    py: int,
    c: int,
)
    requires
        0 <= px < w,
        0 <= py < h,
        0 <= c < 4,
        (py * w + px) * 4 + c < buf.len(),
    ensures
        with_light(buf, w, h, x, y, more).len() == buf.len(),
        with_light(buf, w, h, x, y, more)[(py * w + px) * 4 + c] == (if px == x && py == y && c < 3 {
            lit(buf[(py * w + px) * 4 + c], more[c])
        } else {
            buf[(py * w + px) * 4 + c]
        }),
{
    assert(0 <= py * w) by (nonlinear_arith)
        requires
            0 <= py,
            0 <= w,
    ;
    let i = (py * w + px) * 4 + c;
    assert(i / 4 == py * w + px && i % 4 == c);
    if 0 <= x < w && 0 <= y < h {
        lemma_pixel_place(w, x, y, py * w + px);
        lemma_pixel_place(w, px, py, py * w + px);
    }
}

/// A star lights the pixels that are no farther from its middle than its radius, as far as they
/// lie in the rows it is drawn in; all others, and every alpha, stay.
pub proof fn law_star_is_round(
    buf: Seq<u8>,
    w: int,
    h: int,
    cx: int,
    cy: int,
    r: int,
    more: [u8; 3],
    dx: int,
    dy: int,
    c: int,
)
    requires
        0 <= cx + dx < w,
        0 <= cy + dy,
        0 <= c < 4,
    ensures
        disc_byte(buf, w, h, cx, cy, r, more, ((cy + dy) * w + cx + dx) * 4 + c) == (if c < 3 && cy + dy < h && dx * dx
            + dy * dy <= r * r {
            lit(buf[((cy + dy) * w + cx + dx) * 4 + c], more[c])
        } else {
            buf[((cy + dy) * w + cx + dx) * 4 + c]
        }),
{
    let px = cx + dx;
    let py = cy + dy;
    assert(0 <= py * w) by (nonlinear_arith)
        requires
            0 <= py,
            0 <= w,
    ;
    let i = (py * w + cx + dx) * 4 + c;
    assert(i / 4 == py * w + px && i % 4 == c);
    lemma_pixel_place(w, px, py, py * w + px);
}

} // verus!
