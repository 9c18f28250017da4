//! Bloom: the bright parts of a picture, blurred along both axes and added to it.
use vstd::prelude::*;

use crate::raster::{lemma_pixel_fits, lemma_pixel_place};
use crate::tiles::clamped;

verus! {

/// The widest blur: the largest whose window of bytes has a sum that fits 32 bits with a sign.
pub const MAX_RADIUS: usize = 4_210_751;

/// How much of a channel lies above the threshold.
pub open spec fn excess(v: u8, threshold: u8) -> u32 {
    if v > threshold {
        (v - threshold) as u32
    } else {
        0
    }
}

/// The element at `i`; beyond either end, the one at that end.
pub open spec fn at_edge(line: Seq<u32>, i: int) -> u32 {
    line[clamped(i, 0, line.len() - 1)]
}

/// The sum of `n` elements from `first` on, the ends of the line going on forever.
pub open spec fn run_sum(line: Seq<u32>, first: int, n: nat) -> int
    decreases n,
{
    if n == 0 {
        0
    } else {
        run_sum(line, first, (n - 1) as nat) + at_edge(line, first + n - 1)
    }
}

/// The sum of the elements within `radius` of `x`.
pub open spec fn window_sum(line: Seq<u32>, x: int, radius: nat) -> int {
    run_sum(line, x - radius, 2 * radius + 1)
}

/// Moving the window by one takes in one element and drops one.
pub proof fn law_window_slides(line: Seq<u32>, first: int, n: nat)
    ensures
        run_sum(line, first + 1, n) == run_sum(line, first, n) + at_edge(line, first + n) - at_edge(line, first),
    decreases n,
{
    if n > 0 {
        law_window_slides(line, first, (n - 1) as nat);
    }
}

proof fn lemma_run_sum_bound(line: Seq<u32>, first: int, n: nat, limit: u32)
    requires
        line.len() > 0,
        forall|i: int| 0 <= i < line.len() ==> #[trigger] line[i] <= limit,
    ensures
        0 <= run_sum(line, first, n) <= limit * n,
    decreases n,
{
    if n > 0 {
        lemma_run_sum_bound(line, first, (n - 1) as nat, limit);
        assert(limit * n == limit * (n - 1) + limit) by (nonlinear_arith);
    } else {
        assert(limit * 0 == 0) by (nonlinear_arith);
    }
}

/// The index of the element at `i`, or of the end that `i` lies beyond.
fn edge_index(i: i64, len: usize) -> (r: usize)
    requires
        0 < len <= 0x7fff_ffff,
    ensures
        r == clamped(i as int, 0, len - 1),
{
    if i < 0 {
        0
    } else if i > (len - 1) as i64 {
        len - 1
    } else {
        i as usize
    }
}

/// The sums of the elements around each place of a line.
pub fn window_sums(line: &Vec<u32>, radius: usize) -> (r: Vec<u32>)
    requires
        0 < line@.len() <= 0x7fff_ffff,
        radius <= MAX_RADIUS,
        forall|i: int| 0 <= i < line@.len() ==> #[trigger] line@[i] <= 255,
    ensures
        r@.len() == line@.len(),
        forall|x: int| 0 <= x < r@.len() ==> (#[trigger] r@[x]) as int == window_sum(line@, x, radius as nat),
        forall|x: int| 0 <= x < r@.len() ==> #[trigger] r@[x] <= 255 * (2 * radius + 1),
{
    let size: usize = 2 * radius + 1;
    let mut sum: u32 = 0;
    let mut k: usize = 0;
    while k < size
        invariant
            k <= size,
            size == 2 * radius + 1,
            radius <= MAX_RADIUS,
            0 < line@.len() <= 0x7fff_ffff,
            forall|i: int| 0 <= i < line@.len() ==> #[trigger] line@[i] <= 255,
            sum as int == run_sum(line@, -(radius as int), k as nat),
            sum <= 255 * k,
        decreases size - k,
    {
        let i: usize = edge_index(k as i64 - radius as i64, line.len());
        sum = sum + line[i];
        k = k + 1;
    }
    let mut out: Vec<u32> = Vec::new();
    let mut x: usize = 0;
    while x < line.len()
        invariant
            x <= line@.len(),
            size == 2 * radius + 1,
            radius <= MAX_RADIUS,
            0 < line@.len() <= 0x7fff_ffff,
            forall|i: int| 0 <= i < line@.len() ==> #[trigger] line@[i] <= 255,
            sum as int == window_sum(line@, x as int, radius as nat),
            out@.len() == x,
            forall|i: int| 0 <= i < x ==> (#[trigger] out@[i]) as int == window_sum(line@, i, radius as nat),
            forall|i: int| 0 <= i < x ==> #[trigger] out@[i] <= 255 * (2 * radius + 1),
        decreases line.len() - x,
    {
        proof {
            lemma_run_sum_bound(line@, x - radius, size as nat, 255);
            lemma_run_sum_bound(line@, x + 1 - radius, size as nat, 255);
            law_window_slides(line@, x - radius, size as nat);
        }
        out.push(sum);
        let gone: usize = edge_index(x as i64 - radius as i64, line.len());
        let come: usize = edge_index(x as i64 + radius as i64 + 1, line.len());
        sum = sum + line[come] - line[gone];
        x = x + 1;
    }
    out
}

/// The excess of channel `c` along row `y`.
pub open spec fn bright_row(buf: Seq<u8>, w: int, c: int, threshold: u8, y: int) -> Seq<u32> {
    Seq::new(w as nat, |x: int| excess(buf[(y * w + x) * 4 + c], threshold))
}

/// The blur along row `y` at column `x`.
pub open spec fn row_blur(buf: Seq<u8>, w: int, c: int, threshold: u8, radius: nat, x: int, y: int) -> u32 {
    (window_sum(bright_row(buf, w, c, threshold, y), x, radius) / (2 * radius + 1) as int) as u32
}

/// The row blurs along column `x`.
pub open spec fn blurred_column(buf: Seq<u8>, w: int, h: int, c: int, threshold: u8, radius: nat, x: int) -> Seq<u32> {
    Seq::new(h as nat, |y: int| row_blur(buf, w, c, threshold, radius, x, y))
}

/// The sum of the row blurs around a pixel, along its column.
pub open spec fn halo(buf: Seq<u8>, w: int, h: int, c: int, threshold: u8, radius: nat, x: int, y: int) -> int {
    window_sum(blurred_column(buf, w, h, c, threshold, radius, x), y, radius)
}

/// Byte `i` of a picture with bloom: a colour channel gains what the table says for its
/// halo, up to the brightest, and the alpha channel stays.
pub open spec fn bloomed_byte(buf: Seq<u8>, w: int, h: int, gain: Seq<u8>, threshold: u8, radius: nat, i: int) -> u8 {
    if i % 4 == 3 {
        buf[i]
    } else {
        clamped(buf[i] + gain[halo(buf, w, h, i % 4, threshold, radius, i / 4 % w, i / 4 / w)], 0, 255) as u8
    }
}

fn blur_rows(buf: &Vec<u8>, w: usize, h: usize, c: usize, threshold: u8, radius: usize) -> (r: Vec<u32>)
    requires
        0 < w <= 0x7fff_ffff,
        c < 3,
        radius <= MAX_RADIUS,
        w * h * 4 <= usize::MAX,
        buf@.len() == w * h * 4,
    ensures
        r@.len() == w * h,
        forall|x: int, y: int|
            0 <= x < w && 0 <= y < h ==> #[trigger] r@[y * w + x] == row_blur(
                buf@,
                w as int,
                c as int,
                threshold,
                radius as nat,
                x,
                y,
            ),
        forall|p: int| 0 <= p < r@.len() ==> #[trigger] r@[p] <= 255,
{
    let size: u32 = (2 * radius + 1) as u32;
    let mut out: Vec<u32> = Vec::new();
    let mut y: usize = 0;
    while y < h
        invariant
            y <= h,
            0 < w <= 0x7fff_ffff,
            c < 3,
            radius <= MAX_RADIUS,
            size == 2 * radius + 1,
            w * h * 4 <= usize::MAX,
            buf@.len() == w * h * 4,
            out@.len() == y * w,
            forall|x: int, v: int|
                0 <= x < w && 0 <= v < y ==> #[trigger] out@[v * w + x] == row_blur(
                    buf@,
                    w as int,
                    c as int,
                    threshold,
                    radius as nat,
                    x,
                    v,
                ),
            forall|p: int| 0 <= p < out@.len() ==> #[trigger] out@[p] <= 255,
        decreases h - y,
    {
        let ghost row = bright_row(buf@, w as int, c as int, threshold, y as int);
        let mut line: Vec<u32> = Vec::new();
        while line.len() < w
            invariant
                line@.len() <= w,
                y < h,
                c < 3,
                w * h * 4 <= usize::MAX,
                buf@.len() == w * h * 4,
                row == bright_row(buf@, w as int, c as int, threshold, y as int),
                line@ == row.take(line@.len() as int),
            decreases w - line.len(),
        {
            let x: usize = line.len();
            proof {
                lemma_pixel_fits(w as int, h as int, x as int, y as int);
                assert(y * w >= 0) by (nonlinear_arith)
                    requires
                        y >= 0,
                        w >= 0,
                ;
            }
            let v: u8 = buf[(y * w + x) * 4 + c];
            line.push(if v > threshold {
                (v - threshold) as u32
            } else {
                0
            });
            assert(line@ == row.take(x + 1));
        }
        assert(line@ == row);
        let sums: Vec<u32> = window_sums(&line, radius);
        let ghost before = out@;
        let mut x: usize = 0;
        while x < w
            invariant
                x <= w,
                y < h,
                size == 2 * radius + 1,
                radius <= MAX_RADIUS,
                sums@.len() == w,
                forall|i: int| 0 <= i < w ==> (#[trigger] sums@[i]) as int == window_sum(row, i, radius as nat),
                forall|i: int| 0 <= i < w ==> #[trigger] sums@[i] <= 255 * (2 * radius + 1),
                row == bright_row(buf@, w as int, c as int, threshold, y as int),
                before.len() == y * w,
                out@.len() == y * w + x,
                forall|p: int| 0 <= p < before.len() ==> #[trigger] out@[p] == before[p],
                forall|p: int| 0 <= p < before.len() ==> #[trigger] before[p] <= 255,
                forall|i: int|
                    0 <= i < x ==> #[trigger] out@[y * w + i] == row_blur(
                        buf@,
                        w as int,
                        c as int,
                        threshold,
                        radius as nat,
                        i,
                        y as int,
                    ),
                forall|p: int| 0 <= p < out@.len() ==> #[trigger] out@[p] <= 255,
            decreases w - x,
        {
            let value: u32 = sums[x] / size;
            assert(value <= 255) by (nonlinear_arith)
                requires
                    value == sums@[x as int] / size,
                    sums@[x as int] <= 255 * size,
                    size > 0,
            ;
            out.push(value);
            x = x + 1;
        }
        proof {
            assert((y + 1) * w == y * w + w) by (nonlinear_arith);
            assert forall|i: int, v: int| 0 <= i < w && 0 <= v < y + 1 implies #[trigger] out@[v * w + i] == row_blur(
                buf@,
                w as int,
                c as int,
                threshold,
                radius as nat,
                i,
                v,
            ) by {
                if v < y {
                    lemma_pixel_fits(w as int, y as int, i, v);
                    assert(w * y == y * w) by (nonlinear_arith);
                    assert(out@[v * w + i] == before[v * w + i]);
                }
            }
        }
        y = y + 1;
    }
    proof {
        assert(h * w == w * h) by (nonlinear_arith);
    }
    out
}

/// Adds to channel `c` what the table says for the sum of the row blurs around a pixel.
fn add_halo(buf: &mut Vec<u8>, w: usize, h: usize, c: usize, blur: &Vec<u32>, radius: usize, gain: &Vec<u8>)
    requires
        0 < w,
        0 < h <= 0x7fff_ffff,
        c < 3,
        radius <= MAX_RADIUS,
        w * h * 4 <= usize::MAX,
        old(buf)@.len() == w * h * 4,
        blur@.len() == w * h,
        forall|p: int| 0 <= p < blur@.len() ==> #[trigger] blur@[p] <= 255,
        gain@.len() > 255 * (2 * radius + 1),
    ensures
        final(buf)@.len() == old(buf)@.len(),
        forall|i: int|
            0 <= i < old(buf)@.len() ==> #[trigger] final(buf)@[i] == (if i % 4 == c {
                clamped(
                    old(buf)@[i] + gain@[window_sum(
                        Seq::new(h as nat, |y: int| blur@[y * w + i / 4 % w as int]),
                        i / 4 / w as int,
                        radius as nat,
                    )],
                    0,
                    255,
                ) as u8
            } else {
                old(buf)@[i]
            }),
{
    let ghost before = buf@;
    let mut x: usize = 0;
    while x < w
        invariant
            x <= w,
            0 < h <= 0x7fff_ffff,
            c < 3,
            radius <= MAX_RADIUS,
            w * h * 4 <= usize::MAX,
            before.len() == w * h * 4,
            buf@.len() == w * h * 4,
            blur@.len() == w * h,
            forall|p: int| 0 <= p < blur@.len() ==> #[trigger] blur@[p] <= 255,
            gain@.len() > 255 * (2 * radius + 1),
            forall|i: int|
                0 <= i < before.len() ==> #[trigger] buf@[i] == (if i % 4 == c && i / 4 % (w as int) < x {
                    clamped(
                        before[i] + gain@[window_sum(
                            Seq::new(h as nat, |y: int| blur@[y * w + i / 4 % w as int]),
                            i / 4 / w as int,
                            radius as nat,
                        )],
                        0,
                        255,
                    ) as u8
                } else {
                    before[i]
                }),
        decreases w - x,
    {
        let ghost column = Seq::new(h as nat, |y: int| blur@[y * w + x as int]);
        let mut line: Vec<u32> = Vec::new();
        while line.len() < h
            invariant
                line@.len() <= h,
                x < w,
                w * h * 4 <= usize::MAX,
                blur@.len() == w * h,
                forall|p: int| 0 <= p < blur@.len() ==> #[trigger] blur@[p] <= 255,
                column == Seq::new(h as nat, |y: int| blur@[y * w + x as int]),
                line@ == column.take(line@.len() as int),
                forall|i: int| 0 <= i < line@.len() ==> #[trigger] line@[i] <= 255,
            decreases h - line.len(),
        {
            let y: usize = line.len();
            proof {
                lemma_pixel_fits(w as int, h as int, x as int, y as int);
                assert(y * w >= 0) by (nonlinear_arith)
                    requires
                        y >= 0,
                        w >= 0,
                ;
            }
            line.push(blur[y * w + x]);
            assert(line@ == column.take(y + 1));
        }
        assert(line@ == column);
        let sums: Vec<u32> = window_sums(&line, radius);
        let ghost columns = buf@;
        let mut y: usize = 0;
        while y < h
            invariant
                y <= h,
                x < w,
                c < 3,
                radius <= MAX_RADIUS,
                w * h * 4 <= usize::MAX,
                columns.len() == w * h * 4,
                buf@.len() == w * h * 4,
                sums@.len() == h,
                gain@.len() > 255 * (2 * radius + 1),
                forall|i: int| 0 <= i < h ==> (#[trigger] sums@[i]) as int == window_sum(column, i, radius as nat),
                forall|i: int| 0 <= i < h ==> #[trigger] sums@[i] <= 255 * (2 * radius + 1),
                forall|i: int|
                    0 <= i < columns.len() ==> #[trigger] buf@[i] == (if i % 4 == c && i / 4 % (w as int) == x && i / 4
                        / (w as int) < y {
                        clamped(
                            columns[i] + gain@[window_sum(column, i / 4 / w as int, radius as nat)],
                            0,
                            255,
                        ) as u8
                    } else {
                        columns[i]
                    }),
            decreases h - y,
        {
            proof {
                lemma_pixel_fits(w as int, h as int, x as int, y as int);
                assert(y * w >= 0) by (nonlinear_arith)
                    requires
                        y >= 0,
                        w >= 0,
                ;
            }
            let ghost so_far = buf@;
            let at: usize = (y * w + x) * 4 + c;
            proof {
                lemma_pixel_place(w as int, x as int, y as int, at as int / 4);
                assert(at as int / 4 == y * w + x);
                assert(so_far[at as int] == columns[at as int]);
            }
            let sum: u32 = buf[at] as u32 + gain[sums[y] as usize] as u32;
            buf[at] = if sum > 255 {
                255
            } else {
                sum as u8
            };
            proof {
                assert forall|i: int| 0 <= i < columns.len() implies #[trigger] buf@[i] == (if i % 4 == c && i / 4 % (
                w as int) == x && i / 4 / (w as int) < y + 1 {
                    clamped(
                        columns[i] + gain@[window_sum(column, i / 4 / w as int, radius as nat)],
                        0,
                        255,
                    ) as u8
                } else {
                    columns[i]
                }) by {
                    lemma_pixel_place(w as int, x as int, y as int, i / 4);
                    assert(i == i / 4 * 4 + i % 4);
                    if i != at {
                        assert(buf@[i] == so_far[i]);
                    }
                }
            }
            y = y + 1;
        }
        proof {
            assert forall|i: int| 0 <= i < before.len() implies #[trigger] buf@[i] == (if i % 4 == c && i / 4 % (
            w as int) < x + 1 {
                clamped(
                    before[i] + gain@[window_sum(
                        Seq::new(h as nat, |y: int| blur@[y * w + i / 4 % w as int]),
                        i / 4 / w as int,
                        radius as nat,
                    )],
                    0,
                    255,
                ) as u8
            } else {
                before[i]
            }) by {
                lemma_row_in_picture(w as int, h as int, i);
                if i / 4 % (w as int) == x {
                    assert(columns[i] == before[i]);
                    assert(Seq::new(h as nat, |y: int| blur@[y * w + i / 4 % w as int]) == column);
                } else {
                    assert(buf@[i] == columns[i]);
                }
            }
        }
        x = x + 1;
    }
    proof {
        assert forall|i: int| 0 <= i < before.len() implies #[trigger] buf@[i] == (if i % 4 == c {
            clamped(
                before[i] + gain@[window_sum(
                    Seq::new(h as nat, |y: int| blur@[y * w + i / 4 % w as int]),
                    i / 4 / w as int,
                    radius as nat,
                )],
                0,
                255,
            ) as u8
        } else {
            before[i]
        }) by {
            lemma_row_in_picture(w as int, h as int, i);
        }
    }
}

/// The row and the column of a byte lie within the picture.
proof fn lemma_row_in_picture(w: int, h: int, i: int)
    requires
        0 < w,
        0 <= i < w * h * 4,
    ensures
        0 <= i / 4 / w < h,
        0 <= i / 4 % w < w,
        i / 4 == i / 4 / w * w + i / 4 % w,
{
    vstd::arithmetic::div_mod::lemma_fundamental_div_mod(i / 4, w);
    vstd::arithmetic::div_mod::lemma_mod_bound(i / 4, w);
    let y = i / 4 / w;
    assert(w * y == y * w) by (nonlinear_arith);
    assert(0 <= y < h) by (nonlinear_arith)
        requires
            i / 4 == w * y + i / 4 % w,
            0 <= i / 4 % w < w,
            0 <= i / 4 < w * h,
            0 < w,
    ;
}

/// Adds bloom to a picture. The gain table says what a channel gains for each sum of
/// blurred excess around it.
pub fn apply_bloom(buf: &mut Vec<u8>, w: usize, h: usize, gain: &Vec<u8>, threshold: u8, radius: usize)
    requires
        0 < w <= 0x7fff_ffff,
        0 < h <= 0x7fff_ffff,
        radius <= MAX_RADIUS,
        w * h * 4 <= usize::MAX,
        old(buf)@.len() == w * h * 4,
        gain@.len() > 255 * (2 * radius + 1),
    ensures
        final(buf)@.len() == old(buf)@.len(),
        forall|i: int|
            0 <= i < old(buf)@.len() ==> #[trigger] final(buf)@[i] == bloomed_byte(
                old(buf)@,
                w as int,
                h as int,
                gain@,
                threshold,
                radius as nat,
                i,
            ),
{
    let ghost before = buf@;
    let red: Vec<u32> = blur_rows(buf, w, h, 0, threshold, radius);
    let green: Vec<u32> = blur_rows(buf, w, h, 1, threshold, radius);
    let blue: Vec<u32> = blur_rows(buf, w, h, 2, threshold, radius);
    add_halo(buf, w, h, 0, &red, radius, gain);
    let ghost after_red = buf@;
    add_halo(buf, w, h, 1, &green, radius, gain);
    let ghost after_green = buf@;
    add_halo(buf, w, h, 2, &blue, radius, gain);
    proof {
        assert forall|i: int| 0 <= i < before.len() implies #[trigger] buf@[i] == bloomed_byte(
            before,
            w as int,
            h as int,
            gain@,
            threshold,
            radius as nat,
            i,
        ) by {
            lemma_row_in_picture(w as int, h as int, i);
            let x = i / 4 % w as int;
            assert(after_green[i] == after_green[i] && after_red[i] == after_red[i]);
            assert(Seq::new(h as nat, |y: int| red@[y * w + x]) == blurred_column(
                before,
                w as int,
                h as int,
                0,
                threshold,
                radius as nat,
                x,
            ));
            assert(Seq::new(h as nat, |y: int| green@[y * w + x]) == blurred_column(
                before,
                w as int,
                h as int,
                1,
                threshold,
                radius as nat,
                x,
            ));
            assert(Seq::new(h as nat, |y: int| blue@[y * w + x]) == blurred_column(
                before,
                w as int,
                h as int,
                2,
                threshold,
                radius as nat,
                x,
            ));
        }
    }
}

/// The excess is what is left above the threshold: it brings the threshold up to a brighter
/// channel, and a darker one has none.
pub proof fn law_excess_is_above_the_threshold(v: u8, threshold: u8)
    ensures
        v >= threshold ==> excess(v, threshold) + threshold == v,
        v <= threshold ==> excess(v, threshold) == 0,
{
}

/// A window of radius zero is its element, and the window of a level line is as many times the
/// level as the window is wide.
pub proof fn law_window_of_a_level_line(line: Seq<u32>, level: u32, x: int, radius: nat)
    requires
        0 <= x < line.len(),
    ensures
        window_sum(line, x, 0) == line[x],
        (forall|i: int| 0 <= i < line.len() ==> #[trigger] line[i] == level) ==> window_sum(line, x, radius) == level * (2
            * radius + 1),
{
    reveal_with_fuel(run_sum, 2);
    if forall|i: int| 0 <= i < line.len() ==> #[trigger] line[i] == level {
        lemma_level_run(line, level, x - radius, 2 * radius + 1);
    }
}

proof fn lemma_level_run(line: Seq<u32>, level: u32, first: int, n: nat)
    requires
        line.len() > 0,
        forall|i: int| 0 <= i < line.len() ==> #[trigger] line[i] == level,
    ensures
        run_sum(line, first, n) == level * n,
    decreases n,
{
    if n > 0 {
        lemma_level_run(line, level, first, (n - 1) as nat);
        assert(level * n == level * (n - 1) + level) by (nonlinear_arith);
    } else {
        assert(level * 0 == 0) by (nonlinear_arith);
    }
}

/// Bloom only adds light: no channel gets darker, and the alpha stays.
pub proof fn law_bloom_only_brightens(
    buf: Seq<u8>,
    w: int,
    h: int,
    gain: Seq<u8>,
    threshold: u8,
    radius: nat,
    i: int,
)
    ensures
        bloomed_byte(buf, w, h, gain, threshold, radius, i) >= buf[i],
        i % 4 == 3 ==> bloomed_byte(buf, w, h, gain, threshold, radius, i) == buf[i],
{
}

/// A picture without anything above the threshold has no halo, so that bloom leaves it as it is
/// when no halo gains nothing.
pub proof fn law_dark_pictures_have_no_bloom(
    buf: Seq<u8>,
    w: int,
    h: int,
    gain: Seq<u8>,
    threshold: u8,
    radius: nat,
    x: int,
    y: int,
    c: int,
)
    requires
        0 <= x < w,
        0 <= y < h,
        0 <= c < 3,
        gain[0] == 0,
        forall|px: int, py: int|
            0 <= px < w && 0 <= py < h ==> #[trigger] buf[(py * w + px) * 4 + c] <= threshold,
    ensures
        halo(buf, w, h, c, threshold, radius, x, y) == 0,
        bloomed_byte(buf, w, h, gain, threshold, radius, (y * w + x) * 4 + c) == buf[(y * w + x) * 4 + c],
{
    lemma_level_halo(buf, w, h, c, threshold, radius, x, y, 0);
    assert(0 * (2 * radius + 1) == 0) by (nonlinear_arith);
    lemma_pixel_byte(w, x, y, c);
}

/// In a picture of one brightness, the halo of every pixel is its excess as many times as the
/// blur is wide.
#[verifier::rlimit(50)]
pub proof fn law_level_pictures_bloom_evenly(
    buf: Seq<u8>,
    w: int,
    h: int,
    threshold: u8,
    radius: nat,
    x: int,
    y: int,
    c: int,
    v: u8,
)
    requires
        0 <= x < w,
        0 <= y < h,
        0 <= c < 3,
        v >= threshold,
        forall|px: int, py: int| 0 <= px < w && 0 <= py < h ==> #[trigger] buf[(py * w + px) * 4 + c] == v,
    ensures
        halo(buf, w, h, c, threshold, radius, x, y) == (v - threshold) * (2 * radius + 1),
{
    lemma_level_halo(buf, w, h, c, threshold, radius, x, y, (v - threshold) as u32);
}

proof fn lemma_pixel_byte(w: int, x: int, y: int, c: int)
    requires
        0 <= x < w,
        0 <= y,
        0 <= c < 4,
    ensures
        ({
            let i = (y * w + x) * 4 + c;
            i % 4 == c && i / 4 % w == x && i / 4 / w == y
        }),
{
    assert(0 <= y * w) by (nonlinear_arith)
        requires
            0 <= y,
            0 <= w,
    ;
    let i = (y * w + x) * 4 + c;
    assert(i / 4 == y * w + x && i % 4 == c);
    lemma_pixel_place(w, x, y, y * w + x);
}

proof fn lemma_level_halo(
    buf: Seq<u8>,
    w: int,
    h: int,
    c: int,
    threshold: u8,
    radius: nat,
    x: int,
    y: int,
    level: u32,
)
    requires
        0 <= x < w,
        0 <= y < h,
        0 <= c < 3,
        forall|px: int, py: int|
            0 <= px < w && 0 <= py < h ==> excess(#[trigger] buf[(py * w + px) * 4 + c], threshold) == level,
    ensures
        halo(buf, w, h, c, threshold, radius, x, y) == level * (2 * radius + 1),
{
    let column = blurred_column(buf, w, h, c, threshold, radius, x);
    assert forall|py: int| 0 <= py < column.len() implies #[trigger] column[py] == level by {
        let row = bright_row(buf, w, c, threshold, py);
        assert forall|px: int| 0 <= px < row.len() implies #[trigger] row[px] == level by {
            assert(excess(buf[(py * w + px) * 4 + c], threshold) == level);
        }
        lemma_level_run(row, level, x - radius, 2 * radius + 1);
        let n = (2 * radius + 1) as int;
        assert((level * n) / n == level) by {
            vstd::arithmetic::div_mod::lemma_div_multiples_vanish(level as int, n);
            assert(level * n == n * level) by (nonlinear_arith);
        }
    }
    lemma_level_run(column, level, y - radius, 2 * radius + 1);
}

/// Turned round, a line has the same windows: none leans to one side.
pub proof fn law_windows_are_even_sided(line: Seq<u32>, x: int, radius: nat)
    requires
        0 <= x < line.len(),
    ensures
        window_sum(line.reverse(), x, radius) == window_sum(line, line.len() - 1 - x, radius),
{
    lemma_turned_run(line, x - radius, 2 * radius + 1);
}

proof fn lemma_turned_run(line: Seq<u32>, first: int, n: nat)
    requires
        line.len() > 0,
    ensures
        run_sum(line.reverse(), first, n) == run_sum(line, line.len() - first - n, n),
    decreases n,
{
    if n > 0 {
        lemma_turned_run(line, first, (n - 1) as nat);
        let start = line.len() - first - n;
        law_window_slides(line, start, (n - 1) as nat);
        let at = first + n - 1;
        assert(at_edge(line.reverse(), at) == at_edge(line, line.len() - 1 - at));
        assert(run_sum(line, start, n) == run_sum(line, start, (n - 1) as nat) + at_edge(line, start + n - 1));
    }
}

proof fn lemma_equal_runs(a: Seq<u32>, b: Seq<u32>, first: int, n: nat)
    requires
        forall|i: int| first <= i < first + n ==> #[trigger] at_edge(a, i) == at_edge(b, i),
    ensures
        run_sum(a, first, n) == run_sum(b, first, n),
    decreases n,
{
    if n > 0 {
        lemma_equal_runs(a, b, first, (n - 1) as nat);
        assert(at_edge(a, first + n - 1) == at_edge(b, first + n - 1));
    }
}

/// The halo of a pixel depends on the channel it is taken from alone, and there on the pixels within
/// the radius, across and down.
#[verifier::rlimit(50)]
pub proof fn law_halos_are_local(
    a: Seq<u8>,
    b: Seq<u8>,
    w: int,
    h: int,
    c: int,
    threshold: u8,
    radius: nat,
    x: int,
    y: int,
)
    requires
        0 <= x < w,
        0 <= y < h,
        forall|u: int, v: int|
            0 <= u < w && 0 <= v < h && -radius <= u - x <= radius && -radius <= v - y <= radius
                ==> #[trigger] a[(v * w + u) * 4 + c] == b[(v * w + u) * 4 + c],
    ensures
        halo(a, w, h, c, threshold, radius, x, y) == halo(b, w, h, c, threshold, radius, x, y),
{
    let p = blurred_column(a, w, h, c, threshold, radius, x);
    let q = blurred_column(b, w, h, c, threshold, radius, x);
    assert forall|i: int| y - radius <= i < y - radius + (2 * radius + 1) implies #[trigger] at_edge(p, i) == at_edge(
        q,
        i,
    ) by {
        let v = clamped(i, 0, h - 1);
        let s = bright_row(a, w, c, threshold, v);
        let t = bright_row(b, w, c, threshold, v);
        assert forall|j: int| x - radius <= j < x - radius + (2 * radius + 1) implies #[trigger] at_edge(s, j) == at_edge(
            t,
            j,
        ) by {
            let u = clamped(j, 0, w - 1);
            assert(a[(v * w + u) * 4 + c] == b[(v * w + u) * 4 + c]);
        }
        lemma_equal_runs(s, t, x - radius, 2 * radius + 1);
        assert(p[v] == q[v]);
    }
    lemma_equal_runs(p, q, y - radius, 2 * radius + 1);
}

/// A pixel gains in each channel what the table says for the halo of that channel around it.
pub proof fn law_pixels_gain_by_their_halo(
    buf: Seq<u8>,
    w: int,
    h: int,
    gain: Seq<u8>,
    threshold: u8,
    radius: nat,
    x: int,
    y: int,
    c: int,
)
    requires
        0 <= x < w,
        0 <= y < h,
        0 <= c < 3,
    ensures
        ({
            let i = (y * w + x) * 4 + c;
            let more = gain[halo(buf, w, h, c, threshold, radius, x, y)];
            &&& buf[i] + more <= 255 ==> bloomed_byte(buf, w, h, gain, threshold, radius, i) == buf[i] + more
            &&& buf[i] + more >= 255 ==> bloomed_byte(buf, w, h, gain, threshold, radius, i) == 255
        }),
{
    lemma_pixel_byte(w, x, y, c);
}

} // verus!
