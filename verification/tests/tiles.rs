//! The tile generator against the same arithmetic done in `f32`.
use path_forge::rng::{draw_shifted, draw_whole, drop_fraction, seeded_rng};
use path_forge::rounding::{divide_to_significand, round_to_significand};
use path_forge::settings::{FloorPattern, WallPattern, TILE};
use path_forge::tile_gen::{
    add_noise, apply_marks, gen_floor_tile, gen_tile, gen_wall_tile, paint_pattern, Mark, FULL_STRENGTH,
};
use path_forge::tiles::{fill, hash_u32, row, s, set_px, sw, tint, TEXELS, TILE_TEX};
use path_forge::wear::{crack_colour, push_chip, push_crack};

const SIDE: usize = 32;

fn draws(seed: u32) -> impl FnMut() -> f32 {
    let mut state = seed ^ 0xdead_beef;
    move || {
        state ^= state << 13;
        state ^= state >> 17;
        state ^= state << 5;
        state as f64 as f32 / 4_294_967_296.0
    }
}

fn put(t: &mut [[u8; 3]], x: usize, y: usize, c: [u8; 3]) {
    if x < SIDE && y < SIDE {
        t[y * SIDE + x] = c;
    }
}

fn block(t: &mut [[u8; 3]], x: usize, y: usize, w: usize, h: usize, c: [u8; 3]) {
    for v in y..y + h {
        for u in x..x + w {
            put(t, u, v, c);
        }
    }
}

fn shade(c: [u8; 3], d: i32) -> [u8; 3] {
    c.map(|v| (v as i32 + d).clamp(0, 255) as u8)
}

fn units(v: usize) -> usize {
    (v * SIDE / 32).max(1)
}

fn painted_in_f32(pattern: &str, base: [u8; 3], mortar: [u8; 3], seed: u32) -> Vec<[u8; 3]> {
    let mut t = vec![base; SIDE * SIDE];
    match pattern {
        "Cobblestone" => {
            let mut rng = draws(seed.wrapping_add(71));
            let cell = SIDE as f32 / 8.0;
            let mut centres = Vec::new();
            for gy in 0..8 {
                for gx in 0..8 {
                    let jx = (rng() - 0.5) * cell * 0.65;
                    let jy = (rng() - 0.5) * cell * 0.65;
                    let cx = gx as f32 * cell + cell * 0.5 + jx;
                    let cy = gy as f32 * cell + cell * 0.5 + jy;
                    let td = (rng() * 30.0 - 15.0) as i32;
                    centres.push((cx, cy, shade(base, td)));
                }
            }
            let joint = (SIDE as f32 / 86.0).max(1.2);
            for y in 0..SIDE {
                for x in 0..SIDE {
                    let (mut d1, mut d2, mut col) = (f32::MAX, f32::MAX, base);
                    for (cx, cy, c) in &centres {
                        let dx0 = (x as f32 - *cx).abs();
                        let dy0 = (y as f32 - *cy).abs();
                        let dx = dx0.min(SIDE as f32 - dx0);
                        let dy = dy0.min(SIDE as f32 - dy0);
                        let d = (dx * dx + dy * dy).sqrt();
                        if d < d1 {
                            d2 = d1;
                            d1 = d;
                            col = *c;
                        } else if d < d2 {
                            d2 = d;
                        }
                    }
                    if d2 - d1 < joint {
                        put(&mut t, x, y, mortar);
                    } else {
                        let lift = ((joint * 2.0 - d1).max(-8.0).min(8.0)) as i32;
                        put(&mut t, x, y, shade(col, lift / 3));
                    }
                }
            }
        }
        "Brick" => {
            let (long, high, joint) = ((SIDE / 5).max(20), (SIDE / 12).max(10), (SIDE / 96).max(1));
            for y in 0..SIDE {
                for x in 0..SIDE {
                    let (course, y_in) = (y / high, y % high);
                    let along = x + if course % 2 == 0 { 0 } else { long / 2 };
                    let x_in = along % long;
                    if y_in < joint || x_in < joint {
                        put(&mut t, x, y, mortar);
                        continue;
                    }
                    let key = hash_u32(
                        ((course * 131 + along / long) as u32).wrapping_add(seed.wrapping_mul(17)),
                    );
                    let mut c = shade(base, (key & 31) as i32 - 15);
                    let edge = x_in.min(long - 1 - x_in).min(y_in.min(high - 1 - y_in));
                    if edge < joint + 1 {
                        c = shade(c, -10);
                    } else if edge > joint + 4 {
                        c = shade(c, 4);
                    }
                    put(&mut t, x, y, c);
                }
            }
        }
        "Stone Block" => {
            let (long, high, joint) = ((SIDE / 6).max(24), (SIDE / 5).max(24), (SIDE / 96).max(1));
            for y in 0..SIDE {
                for x in 0..SIDE {
                    let (ry, rx) = (y % high, x % long);
                    if ry < joint || rx < joint {
                        put(&mut t, x, y, mortar);
                        continue;
                    }
                    let key = hash_u32(
                        ((y / high * 257 + x / long) as u32).wrapping_add(seed.wrapping_mul(29)),
                    );
                    let mut c = shade(base, (key & 23) as i32 - 11);
                    if rx.min(long - 1 - rx).min(ry.min(high - 1 - ry)) < joint + 1 {
                        c = shade(c, -9);
                    }
                    put(&mut t, x, y, c);
                }
            }
        }
        "Bark" => {
            let mut rng = draws(seed.wrapping_add(10));
            let mut x = 0;
            while x < SIDE {
                x += units(3 + (rng() * 5.0) as usize);
                block(&mut t, x, 0, 1, SIDE, mortar);
            }
            let mut y = 0;
            while y < SIDE {
                y += units(4 + (rng() * 6.0) as usize);
                block(&mut t, 0, y, SIDE, 1, mortar);
            }
        }
        "Rock Face" => {
            let mut rng = draws(seed.wrapping_add(20));
            for _ in 0..8 * SIDE / 32 {
                let mut x = (rng() * SIDE as f32) as usize;
                let y = (rng() * SIDE as f32) as usize;
                let dx = rng() * 7.0 - 3.0;
                let steps = units(5 + (rng() * 10.0) as usize);
                for k in 0..steps {
                    let nx = (x as i32 + (dx * k as f32 / steps as f32) as i32).rem_euclid(SIDE as i32) as usize;
                    put(&mut t, nx, (y + k).min(SIDE - 1), mortar);
                    x = nx;
                }
            }
        }
        "Sand" => {
            for y in (0..SIDE).step_by(units(3)) {
                for x in 0..SIDE {
                    if (x * 7 + y * 3) % 13 < 2 {
                        put(&mut t, x, y, mortar);
                    }
                }
            }
        }
        "Dirt" => {
            let mut rng = draws(seed.wrapping_add(30));
            for _ in 0..40 * SIDE * SIDE / (32 * 32) {
                let x = (rng() * SIDE as f32) as usize;
                let y = (rng() * SIDE as f32) as usize;
                let w = units(1 + (rng() * 3.0) as usize);
                block(&mut t, x, y, w, 1, mortar);
            }
        }
        "Grass" => {
            let mut rng = draws(seed.wrapping_add(40));
            let mut x = 0;
            while x < SIDE {
                if rng() > 0.4 {
                    let h = units(2 + (rng() * 6.0) as usize);
                    let blade = [shade(base, 10)[0], shade(base, 28)[1], base[2]];
                    block(&mut t, x, SIDE - h, units(1), h, blade);
                }
                x += units(2);
            }
        }
        "Hedge" => {
            let mut rng = draws(seed.wrapping_add(50));
            for y in (0..SIDE).step_by(units(3)) {
                for x in (0..SIDE).step_by(units(3)) {
                    if rng() > 0.4 {
                        let red = (base[0] as i32 + (rng() * 20.0 - 8.0) as i32).clamp(0, 255) as u8;
                        let green = (base[1] as i32 + (rng() * 28.0 - 5.0) as i32).clamp(0, 255) as u8;
                        block(&mut t, x, y, units(2), units(2), [red, green, base[2]]);
                    }
                }
            }
        }
        _ => {}
    }
    t
}

fn agrees(pattern: &str, seeds: &[u32]) {
    let base = [0x8a, 0x75, 0x56];
    let mortar = [0x4e, 0x40, 0x32];
    for &seed in seeds {
        let made = paint_pattern(pattern, base, mortar, seed);
        assert_eq!(made.len(), TEXELS);
        assert!(made == painted_in_f32(pattern, base, mortar, seed), "{} with seed {}", pattern, seed);
    }
}

#[test]
fn cobblestones_match_single_precision() {
    agrees("Cobblestone", &[0, 1, 11, 12, 500, 12345, 99_999_999, 4_000_000_007, u32::MAX]);
    let many: Vec<u32> = (0..60).map(|k| k * 71_582_788).collect();
    agrees("Cobblestone", &many);
}

#[test]
fn brickwork_matches() {
    agrees("Brick", &[0, 12, 22, 77_777, u32::MAX]);
}

#[test]
fn stone_blocks_match() {
    agrees("Stone Block", &[0, 13, 22, 901, u32::MAX]);
}

#[test]
fn bark_matches_single_precision() {
    agrees("Bark", &[0, 1, 24, 500, 12345, u32::MAX]);
}

#[test]
fn rock_matches_single_precision() {
    agrees("Rock Face", &[0, 1, 25, 500, 12345, 99_999_999, u32::MAX]);
}

#[test]
fn sand_matches() {
    agrees("Sand", &[0, 14]);
}

#[test]
fn dirt_matches_single_precision() {
    agrees("Dirt", &[0, 15, 321, u32::MAX]);
}

#[test]
fn grass_matches_single_precision() {
    agrees("Grass", &[0, 16, 40, 4096, u32::MAX]);
}

#[test]
fn hedge_matches_single_precision() {
    agrees("Hedge", &[0, 26, 50, 65_535, u32::MAX]);
}

#[test]
fn unknown_pattern_keeps_the_base_colour() {
    let t = paint_pattern("Marble", [1, 2, 3], [4, 5, 6], 9);
    assert!(t.iter().all(|c| *c == [1, 2, 3]));
}

#[test]
fn noise_matches_single_precision() {
    for &(noise, seed) in &[(0u32, 3u32), (13, 11), (30, 42), (255, 7), (u32::MAX, 5)] {
        let t = paint_pattern("Sand", [120, 60, 250], [0, 255, 30], seed);
        let made = add_noise(&t, noise, seed);
        let mut rng = draws(seed);
        for (i, c) in t.iter().enumerate() {
            let delta = ((rng() * 2.0 - 1.0) * noise as f32 * 0.45) as i32;
            for k in 0..3 {
                assert_eq!(made[i * 3 + k], (c[k] as i32 + delta).clamp(2, 253) as u8);
            }
        }
        assert!(made.iter().all(|b| (2..=253).contains(b)));
    }
}

#[test]
fn marks_blend_in_single_precision() {
    let base = [10, 200, 77];
    let mut made = paint_pattern("Sand", base, [90, 14, 255], 1);
    let mut wanted = made.clone();
    let mut marks = Vec::new();
    for k in 0..400usize {
        let a: f32 = 0.12 + (k as f32) * 0.0018;
        let (x, y) = ((k * 37) % 40, (k * 53) % 40);
        let c = [(k % 256) as u8, (k * 7 % 256) as u8, (255 - k % 256) as u8];
        marks.push(Mark { x, y, colour: c, strength: (a * 134_217_728.0) as u32 });
        if x < SIDE && y < SIDE {
            let inv = (1.0 - a).clamp(0.0, 1.0);
            let old = wanted[y * SIDE + x];
            for j in 0..3 {
                wanted[y * SIDE + x][j] = (old[j] as f32 * inv + c[j] as f32 * a).clamp(0.0, 255.0) as u8;
            }
        }
    }
    apply_marks(&mut made, &marks);
    assert!(made == wanted);
}

#[test]
fn crack_colour_matches_single_precision() {
    for b in (0..=255u32).step_by(5) {
        for m in (0..=255u32).step_by(3) {
            let (b, m) = (b as u8, m as u8);
            let want = ((m as f32 * 0.85 + b as f32 * 0.15).clamp(0.0, 255.0)) as u8;
            assert_eq!(crack_colour([b, 0, b], [m, 0, m])[0], want);
        }
    }
}

#[test]
fn cracks_and_chips_leave_their_marks() {
    let mut marks = Vec::new();
    push_crack(&mut marks, &vec![(5, 6), (31, 31)], [1, 2, 3], true, 900, 400);
    let places: Vec<(usize, usize, u32)> = marks.iter().map(|m| (m.x, m.y, m.strength)).collect();
    assert_eq!(
        places,
        vec![(5, 6, 900), (6, 6, 400), (5, 7, 400), (31, 31, 900), (0, 31, 400), (31, 0, 400)]
    );
    let mut edge = Vec::new();
    push_crack(&mut edge, &vec![(32, 3)], [1, 2, 3], true, 900, 400);
    let places: Vec<(usize, usize)> = edge.iter().map(|m| (m.x, m.y)).collect();
    assert_eq!(places, vec![(32, 3), (1, 3), (32, 4)]);
    let mut thin = Vec::new();
    push_crack(&mut thin, &vec![(5, 6)], [1, 2, 3], false, 900, 400);
    assert_eq!(thin.len(), 1);

    let mut chip = Vec::new();
    push_chip(&mut chip, 0, 31, 1, [9, 9, 9], 77);
    let places: Vec<(usize, usize)> = chip.iter().map(|m| (m.x, m.y)).collect();
    assert_eq!(places, vec![(0, 30), (31, 31), (0, 31), (1, 31), (0, 0)]);
}

#[test]
fn tiles_have_their_size_and_range() {
    let marks = [Mark { x: 3, y: 4, colour: [255, 255, 255], strength: 134_217_728 }];
    let t = gen_tile("Brick", [0, 128, 255], [9, 9, 9], 0, &marks, 5);
    assert_eq!(t.len(), 3072);
    let p = (4 * TILE + 3) * 3;
    assert_eq!(&t[p..p + 3], &[253, 253, 253]);
    assert!(t.iter().all(|b| (2..=253).contains(b)));
    for pattern in FloorPattern::all() {
        assert_eq!(gen_floor_tile(&pattern, [9; 3], [8; 3], 3, &[], 1).len(), 3 * TILE * TILE);
    }
    for pattern in WallPattern::all() {
        assert_eq!(gen_wall_tile(&pattern, [9; 3], [8; 3], 3, &[], 1).len(), 3 * TILE * TILE);
    }
}

#[test]
fn materials_use_the_pattern_of_their_name() {
    let (base, mortar) = ([40, 50, 60], [1, 2, 3]);
    assert!(
        gen_floor_tile(&FloorPattern::StoneBlock, base, mortar, 4, &[], 9)
            == gen_tile("Stone Block", base, mortar, 4, &[], 9)
    );
    assert!(
        gen_wall_tile(&WallPattern::RockFace, base, mortar, 4, &[], 9)
            == gen_tile("Rock Face", base, mortar, 4, &[], 9)
    );
}

#[test]
fn draws_match_single_precision() {
    let mut rng = seeded_rng(42);
    let mut wanted = draws(42);
    for _ in 0..20_000 {
        let bits = rng.next_bits();
        let v = wanted();
        assert_eq!(bits as f64 as f32 / 4_294_967_296.0, v);
        assert_eq!(draw_whole(bits, 192), (v * 192.0) as usize);
        assert_eq!(draw_whole(bits, 5), (v * 5.0) as usize);
        assert_eq!(drop_fraction(draw_shifted(bits, 30, 15)), (v * 30.0 - 15.0) as i32);
        assert_eq!(drop_fraction(draw_shifted(bits, 28, 5)), (v * 28.0 - 5.0) as i32);
    }
    assert_eq!(draw_whole(u32::MAX, 192), 192);
    assert_eq!(draw_whole(0, 192), 0);
}

#[test]
fn rounding_matches_single_precision() {
    let mut rng = seeded_rng(7);
    for i in 0..20_000u32 {
        let n = ((rng.next_bits() as u64) << (i % 32)) | (i as u64 & 1);
        assert_eq!(round_to_significand(n as u128), n as f32 as u128);
        let (a, b) = (rng.next_bits() >> (i % 24), 1 + (rng.next_bits() >> (i % 30)));
        let (a, b) = (a & 0xff_ffff, 1 + (b & 0xff_ffff));
        let q = divide_to_significand(a as u128, b as u128);
        assert_eq!(q as f64 / 18_446_744_073_709_551_616.0, (a as f32 / b as f32) as f64);
    }
    assert_eq!(round_to_significand(0x100_0001), 0x100_0000);
    assert_eq!(round_to_significand(0x100_0003), 0x100_0004);
}

#[test]
fn layout_lengths_scale_to_texels() {
    assert_eq!(s(0), 0);
    assert_eq!(s(5), 5);
    assert_eq!(sw(0), 1);
    assert_eq!(sw(3), 3);
}

#[test]
fn tint_clamps_each_channel() {
    assert_eq!(tint([0, 100, 250], 10), [10, 110, 255]);
    assert_eq!(tint([0, 100, 250], -120), [0, 0, 130]);
    assert_eq!(tint([5, 5, 5], i32::MIN), [0, 0, 0]);
}

#[test]
fn hash_mixes_the_key() {
    fn mix(mut x: u32) -> u32 {
        x ^= x >> 16;
        x = x.wrapping_mul(0x7feb352d);
        x ^= x >> 15;
        x = x.wrapping_mul(0x846ca68b);
        x ^= x >> 16;
        x
    }
    assert_eq!(hash_u32(0), 0);
    for k in [1u32, 2, 131, 0xdead_beef, u32::MAX] {
        assert_eq!(hash_u32(k), mix(k));
    }
}

#[test]
fn painting_stays_within_the_tile() {
    let mut t = vec![[0u8; 3]; TEXELS];
    set_px(&mut t, TILE_TEX, 0, [1, 1, 1]);
    set_px(&mut t, 0, TILE_TEX, [1, 1, 1]);
    assert!(t.iter().all(|c| *c == [0, 0, 0]));
    set_px(&mut t, 31, 31, [1, 2, 3]);
    assert_eq!(t[TEXELS - 1], [1, 2, 3]);
    fill(&mut t, 30, 10, 10, 2, [7, 7, 7]);
    assert_eq!(t.iter().filter(|c| **c == [7, 7, 7]).count(), 4);
    row(&mut t, 5, [8, 8, 8]);
    assert_eq!(t.iter().filter(|c| **c == [8, 8, 8]).count(), 32);

    let mut longer = vec![[0u8; 3]; TEXELS + 40];
    fill(&mut longer, 30, 30, 9, 9, [7, 7, 7]);
    row(&mut longer, 40, [8, 8, 8]);
    set_px(&mut longer, 3, 33, [9, 9, 9]);
    assert_eq!(longer.iter().filter(|c| **c == [7, 7, 7]).count(), 4);
    assert!(longer[TEXELS..].iter().all(|c| *c == [0, 0, 0]));
}

#[test]
fn noise_changes_a_texel_as_a_whole() {
    let quiet = gen_tile("Brick", [90, 80, 70], [40, 30, 20], 0, &[], 11);
    let noisy = gen_tile("Brick", [90, 80, 70], [40, 30, 20], 25, &[], 11);
    assert_ne!(quiet, noisy);
    for (q, n) in quiet.chunks(3).zip(noisy.chunks(3)) {
        let delta = n[0] as i32 - q[0] as i32;
        assert_eq!(n[1] as i32 - q[1] as i32, delta);
        assert_eq!(n[2] as i32 - q[2] as i32, delta);
        assert!(delta.abs() <= 11);
    }
}

#[test]
fn tiles_stay_within_two_and_253() {
    let tile = gen_tile("Sky", [0, 128, 255], [0, 0, 0], 0, &[], 3);
    assert!(tile.chunks(3).all(|t| t == [2, 128, 253]));
}

#[test]
fn marks_change_their_texels_only() {
    let marks = [Mark { x: 5, y: 7, colour: [250, 0, 0], strength: FULL_STRENGTH }];
    let plain = gen_tile("Brick", [90, 80, 70], [40, 30, 20], 0, &[], 11);
    let worn = gen_tile("Brick", [90, 80, 70], [40, 30, 20], 0, &marks, 11);
    let at = (7 * TILE_TEX + 5) * 3;
    assert_eq!(&worn[at..at + 3], &[250, 2, 2]);
    for i in 0..worn.len() {
        assert!(worn[i] == plain[i] || (at..at + 3).contains(&i));
    }
}
