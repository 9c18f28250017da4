use path_forge::bloom::{apply_bloom, window_sums};
use path_forge::defaults::Milli;
use path_forge::gpu::{
    aligned_bytes_per_row, atmo_slots, atmo_type_code, check_frame, check_size, mount_pack, prop_flags,
    prop_shadow_profile_defaults, prop_slots, prop_type_code, rgb_tile_to_rgba, scene_flags, slots_shed_light,
    unpad_rows, workgroups, GpuEffectSettings,
};
use path_forge::instances::{
    debris_count, draw_type, grain_noise, hash_noise, inst_fraction, inst_hash, instance_tint, loop_seed_index,
    mote_count, mote_seed, row_count, side_list, sprite_key, star_cycles, tree_shadow_mode,
};
use path_forge::kinds::{AtmoType, AttachmentSurface, MountSide, PropType};
use path_forge::layers::RenderLayers;
use path_forge::presets::{forest_path, stone_dungeon};
use path_forge::raster::{background_row, fill_rect_px, horizon_row, paint_background, side_of_square, tile_side, tile_texel};
use path_forge::renderer::{floor_key, is_stale, wall_key, PathRenderer};
use path_forge::settings::{AtmoLayer, PropInstance};
use path_forge::sparkle::{add_light, add_mote, add_star};
use path_forge::sprites::{row_span, sprite_extent, SpriteCache, SpriteData, SpriteLookup};
use path_forge::tile_gen::{gen_floor_tile, gen_wall_tile, Mark};

fn lerp_u8(a: u8, b: u8, t: f32) -> u8 {
    (a as f32 + (b as f32 - a as f32) * t) as u8
}

#[test]
fn rectangles_are_cut_at_the_edges() {
    let (w, h) = (7usize, 5usize);
    for (x0, y0, x1, y1) in [(1, 1, 4, 3), (-3, -2, 2, 99), (5, 4, 5, 5), (6, 3, 2, 4), (-9, -9, 99, 99)] {
        let mut got = vec![9u8; w * h * 4];
        fill_rect_px(&mut got, w, h, x0, y0, x1, y1, [1, 2, 3]);
        for y in 0..h as i32 {
            for x in 0..w as i32 {
                let i = (y as usize * w + x as usize) * 4;
                let inside = x >= x0 && x < x1 && y >= y0 && y < y1;
                let want = if inside { [1, 2, 3, 9] } else { [9, 9, 9, 9] };
                assert_eq!(&got[i..i + 4], &want);
            }
        }
        let mut longer = vec![9u8; w * h * 4 + 30];
        fill_rect_px(&mut longer, w, h, x0, y0, x1, y1, [1, 2, 3]);
        assert_eq!(&longer[..w * h * 4], &got[..]);
        assert!(longer[w * h * 4..].iter().all(|b| *b == 9));
    }
}

#[test]
fn horizon_scales_with_the_canvas() {
    for rows in [16usize, 480, 854, 1080, 3840, 65535, 70_001, 16_777_221, 0xffff_ff00] {
        for horizon_y in [0u32, 80, 164, 260, 853, 5000] {
            let scaled = (horizon_y as f32 * (rows as f32 / 768.0)).round();
            let want = scaled.clamp(8.0, (rows - 8) as f32) as usize;
            assert_eq!(horizon_row(horizon_y, rows), want, "{} {}", rows, horizon_y);
        }
    }
}

#[test]
fn sky_fades_into_the_horizon() {
    let mut s = forest_path();
    let layers = RenderLayers::all();
    let horizon = 141usize;
    for y in 0..horizon {
        let t = y as f32 / horizon as f32;
        let want = [
            lerp_u8(s.sky.top[0], s.sky.horizon[0], t),
            lerp_u8(s.sky.top[1], s.sky.horizon[1], t),
            lerp_u8(s.sky.top[2], s.sky.horizon[2], t),
        ];
        assert_eq!(background_row(&s, &layers, horizon, y), want, "{}", y);
    }
    for (horizon, y) in [(100_003usize, 77_777usize), (20_000_003, 16_777_219), (u32::MAX as usize, u32::MAX as usize - 1)] {
        let t = y as f32 / horizon as f32;
        assert_eq!(background_row(&s, &layers, horizon, y)[0], lerp_u8(s.sky.top[0], s.sky.horizon[0], t));
    }
    let mut buf = vec![0u8; 3 * 200 * 4];
    paint_background(&mut buf, 3, 200, horizon, &s, &layers);
    assert_eq!(&buf[..4], &[s.sky.top[0], s.sky.top[1], s.sky.top[2], 255]);
    assert!(buf.chunks(4).all(|p| p[3] == 255));
    s.sky.enabled = false;
    assert_eq!(background_row(&s, &layers, horizon, 3), s.scene.void_color);
}

#[test]
fn tiles_are_read_within_bounds() {
    let tile: Vec<u8> = (0..4 * 4 * 3).map(|i| i as u8).collect();
    assert_eq!(tile_side(&tile), 4);
    assert_eq!(tile_side(&vec![0; 3 * 15]), 3);
    assert_eq!(tile_side(&vec![]), 1);
    for n in [1usize, 2, 3, 4, 8, 9, 1023, 1024, 1025, 16_777_214, 16_777_215, 16_777_216, 16_785_407, 16_785_408, 3_000_000_000] {
        assert_eq!(side_of_square(n.min(usize::MAX / 3)), (n.min(usize::MAX / 3) as f32).sqrt() as usize, "{}", n);
    }
    for k in 1..4097usize {
        assert_eq!(side_of_square(k * k - 1 + usize::from(k == 1)), (k - 1).max(1));
    }
    assert_eq!(tile_texel(&tile, 4, 1, 2), [27, 28, 29]);
    assert_eq!(tile_texel(&tile, 4, 99, 99), [45, 46, 47]);
    let (side, rgba) = rgb_tile_to_rgba(&tile);
    assert_eq!(side, 4);
    assert_eq!(&rgba[..8], &[0, 1, 2, 255, 3, 4, 5, 255]);
    assert_eq!(rgba.len(), 64);
}

#[test]
fn light_is_added_up_to_white() {
    let mut buf = vec![100u8; 4 * 3 * 4];
    add_light(&mut buf, 4, 3, 1, 2, [200, 10, 0]);
    assert_eq!(&buf[36..40], &[255, 110, 100, 100]);
    let before = buf.clone();
    add_light(&mut buf, 4, 3, -1, 2, [200, 10, 0]);
    add_light(&mut buf, 4, 3, 4, 2, [200, 10, 0]);
    add_mote(&mut buf, 4, 3, 0, 3, 50);
    assert_eq!(buf, before);
    add_mote(&mut buf, 4, 3, 0, 0, 50);
    assert_eq!(&buf[..4], &[150, 150, 150, 100]);
}

#[test]
fn stars_are_discs() {
    let (w, h) = (9usize, 9usize);
    for (cx, cy, r) in [(4i32, 4i32, 0i32), (4, 4, 2), (0, 8, 3), (-1, -1, 2), (40, 4, 2)] {
        let mut got = vec![10u8; w * h * 4];
        add_star(&mut got, w, h, cx, cy, r, [5, 250, 1]);
        let mut want = vec![10u8; w * h * 4];
        for dy in -r..=r {
            for dx in -r..=r {
                let (x, y) = (cx + dx, cy + dy);
                if dx * dx + dy * dy <= r * r && x >= 0 && y >= 0 && x < w as i32 && y < h as i32 {
                    let i = (y as usize * w + x as usize) * 4;
                    want[i] = want[i].saturating_add(5);
                    want[i + 1] = want[i + 1].saturating_add(250);
                    want[i + 2] = want[i + 2].saturating_add(1);
                }
            }
        }
        assert_eq!(got, want, "{} {} {}", cx, cy, r);
    }
}

#[test]
fn windows_are_summed() {
    let line: Vec<u32> = vec![1, 2, 3, 4, 5];
    assert_eq!(window_sums(&line, 0), line);
    assert_eq!(window_sums(&line, 1), vec![4, 6, 9, 12, 14]);
    assert_eq!(window_sums(&vec![7], 3), vec![49]);
}

fn blurred(line: &[i32], radius: i32) -> Vec<i32> {
    let n = line.len() as i32;
    (0..n).map(|x| (x - radius..=x + radius).map(|k| line[k.clamp(0, n - 1) as usize]).sum()).collect()
}

fn plain_bloom(buf: &mut [u8], w: usize, h: usize, intensity: f32, threshold: u8, radius: i32) {
    let ksize = radius * 2 + 1;
    let scale = intensity * (1.0 / (ksize as f32 * 0.9));
    for c in 0..3 {
        let mut rows: Vec<Vec<i32>> = Vec::new();
        for y in 0..h {
            let line: Vec<i32> = (0..w).map(|x| buf[(y * w + x) * 4 + c].saturating_sub(threshold) as i32).collect();
            rows.push(blurred(&line, radius).iter().map(|v| v / ksize).collect());
        }
        for x in 0..w {
            let column: Vec<i32> = (0..h).map(|y| rows[y][x]).collect();
            for (y, sum) in blurred(&column, radius).iter().enumerate() {
                let i = (y * w + x) * 4 + c;
                buf[i] = buf[i].saturating_add((*sum as f32 * scale) as u8);
            }
        }
    }
}

#[test]
fn bright_pixels_glow() {
    let (w, h) = (17usize, 11usize);
    for (radius, threshold, intensity) in [(0usize, 100u8, 0.5f32), (2, 160, 1.0), (6, 180, 0.7), (30, 10, 0.3)] {
        let mut buf: Vec<u8> = (0..w * h * 4).map(|i| (i * i * 31 % 251) as u8).collect();
        let mut want = buf.clone();
        plain_bloom(&mut want, w, h, intensity, threshold, radius as i32);
        let ksize = radius * 2 + 1;
        let scale = intensity * (1.0 / (ksize as f32 * 0.9));
        let gain: Vec<u8> = (0..=255 * ksize).map(|v| (v as f32 * scale) as u8).collect();
        apply_bloom(&mut buf, w, h, &gain, threshold, radius);
        assert_eq!(buf, want, "{}", radius);
    }
}

#[test]
fn dark_pictures_do_not_bloom() {
    let mut buf = vec![120u8; 6 * 6 * 4];
    let gain: Vec<u8> = (0..=255 * 5).map(|v| if v == 0 { 0 } else { 9 }).collect();
    let before = buf.clone();
    apply_bloom(&mut buf, 6, 6, &gain, 160, 2);
    assert_eq!(buf, before);
}

#[test]
fn instances_hash_alike_on_both_sides_of_zero() {
    assert_eq!(inst_hash(7, -3), inst_hash(7, 3));
    assert_eq!(inst_hash(0, 0), {
        let mut h = 1013904223u32;
        h ^= h >> 16;
        h = h.wrapping_mul(0x45d9f3b);
        h ^ (h >> 16)
    });
    assert_eq!(inst_fraction(5, 9), inst_hash(5, 9) >> 8);
    assert_eq!(inst_hash(1, i32::MIN), inst_hash(1u32.wrapping_add(0x8000_0000), 0));
}

#[test]
fn instances_repeat_with_the_loop() {
    for n in -20..20 {
        assert_eq!(loop_seed_index(true, 4, n), n.rem_euclid(4));
        assert_eq!(loop_seed_index(true, 4, n + 4), loop_seed_index(true, 4, n));
        assert_eq!(loop_seed_index(true, 0, n), 0);
        assert_eq!(loop_seed_index(false, 4, n), n);
    }
}

#[test]
fn trees_mix_with_other_trees_only() {
    assert_eq!(draw_type(PropType::Tree, true, false, true), PropType::Tree);
    assert_eq!(draw_type(PropType::DeadTree, true, true, true), PropType::PineTree);
    assert_eq!(draw_type(PropType::PineTree, true, true, false), PropType::DeadTree);
    assert_eq!(draw_type(PropType::PineTree, false, true, false), PropType::PineTree);
    assert_eq!(draw_type(PropType::Rock, true, true, true), PropType::Rock);
    assert_eq!(tree_shadow_mode(PropType::Tree), 1);
    assert_eq!(tree_shadow_mode(PropType::Bush), 0);
}

#[test]
fn counts_are_limited() {
    assert_eq!((row_count(0), row_count(3), row_count(900)), (1, 3, 64));
    assert_eq!((mote_count(7), mote_count(90)), (7, 25));
    assert_eq!((debris_count(7), debris_count(90)), (7, 10));
    assert_eq!(mote_seed(2, 5), 77 + 74 + 55);
    for i in 0..50 {
        assert_eq!(star_cycles(4, i), 1 + inst_hash(3005, i) % 9);
    }
}

#[test]
fn sides_are_mirrored() {
    let signs = |side| side_list(side).iter().map(|s| s.0).collect::<Vec<i8>>();
    assert_eq!(signs(MountSide::Both).len(), 2);
    assert_eq!(signs(MountSide::Left).len(), 1);
    assert_eq!(signs(MountSide::Left), vec![-1]);
    assert_eq!(signs(MountSide::Right), vec![1]);
    assert_ne!(sprite_key(3, 1, true), sprite_key(3, 1, false));
}

#[test]
fn noises_are_hashes_of_their_places() {
    for (seed, x, y) in [(1u32, 2i32, 3i32), (9, -4, 70000), (u32::MAX, i32::MIN, i32::MAX)] {
        let mix = seed ^ (x as u32).wrapping_mul(374761393) ^ (y as u32).wrapping_mul(668265263);
        let want = inst_hash(mix, x.wrapping_mul(31) ^ y.wrapping_mul(17)) & 0x00ff_ffff;
        assert_eq!(hash_noise(seed, x, y), want);
    }
    for (x, y, seed) in [(0u32, 0u32, 0u32), (5, 6, 7), (479, 853, 12345)] {
        let mut h = x
            .wrapping_mul(2246822519)
            .wrapping_add(y.wrapping_mul(2654435761))
            .wrapping_add(seed.wrapping_mul(1013904223));
        h ^= h >> 16;
        assert_eq!(grain_noise(x, y, seed), h & 0xffff);
    }
}

#[test]
fn tints_vary_around_their_colour() {
    for n in 0..400 {
        let h = inst_hash(42, n);
        let tv = ((h & 0x1f) as i32 - 16) as f32;
        for tint in [[100u8, 150, 200], [0, 255, 3]] {
            let want = [
                (tint[0] as f32 + tv * 0.5).clamp(0.0, 255.0) as u8,
                (tint[1] as f32 + tv * 0.8).clamp(0.0, 255.0) as u8,
                (tint[2] as f32 + tv * 0.4).clamp(0.0, 255.0) as u8,
            ];
            assert_eq!(instance_tint(tint, h), want);
        }
    }
}

#[test]
fn rows_are_aligned_for_the_gpu() {
    for (w, want) in [(0u32, 0u32), (1, 256), (64, 256), (65, 512), (480, 2048), (854, 3584)] {
        assert_eq!(aligned_bytes_per_row(w), want);
    }
    for n in [0u32, 1, 7, 8, 9, 480, 854, u32::MAX] {
        assert_eq!(workgroups(n), n.div_ceil(8));
    }
    let mapped: Vec<u8> = (0..24).collect();
    assert_eq!(unpad_rows(&mapped, 3, 8, 3), vec![0, 1, 2, 8, 9, 10, 16, 17, 18]);
}

#[test]
fn frames_are_checked() {
    assert_eq!(check_frame(32, 4, 2), Ok(()));
    assert_eq!(check_frame(0, 0, 2), Err("Invalid zero-size frame".to_string()));
    assert_eq!(check_frame(31, 4, 2), Err("Frame size mismatch: got 31, expected 32".to_string()));
}

#[test]
fn default_effects_change_nothing() {
    let e: GpuEffectSettings<Milli> = Default::default();
    assert_eq!(e.saturation, Milli(1000));
    assert_eq!(e.contrast, Milli(1000));
    assert_eq!(e.brightness, Milli(1000));
    assert_eq!(e.effect_mix, Milli(0));
}

#[test]
fn kinds_have_their_codes() {
    for (i, t) in PropType::all().iter().enumerate() {
        assert_eq!(prop_type_code(t), i as u32);
    }
    for (i, t) in AtmoType::all().iter().enumerate() {
        assert_eq!(atmo_type_code(t), i as u32);
    }
    assert_eq!(prop_shadow_profile_defaults(PropType::Boulder), prop_shadow_profile_defaults(PropType::Rock));
    assert_eq!(prop_shadow_profile_defaults(PropType::DeadTree).0[0], Milli(8400));
}

#[test]
fn switches_are_packed() {
    let mut p = PropInstance::new(PropType::Rock);
    p.x_jitter_enabled = true;
    p.y_jitter_enabled = false;
    p.emits_light = true;
    p.casts_shadow = true;
    assert_eq!(prop_flags(&p), 13);
    let mut l = AtmoLayer::new(AtmoType::Torch);
    l.mount_surface = AttachmentSurface::Ceiling;
    l.mount_side = MountSide::Right;
    l.emits_light = true;
    l.casts_shadow = true;
    assert_eq!(mount_pack(&l), 323);
    l.emits_light = false;
    assert_eq!(mount_pack(&l), 223);
}

#[test]
fn slots_hold_the_first_enabled_ones() {
    let mut s = forest_path();
    s.props.items.clear();
    for i in 0..12 {
        let mut p = PropInstance::new(PropType::Rock);
        p.enabled = i != 1;
        p.emits_light = i == 11;
        s.props.items.push(p);
    }
    s.props.items[2].sprite_path = "a.png".to_string();
    let slots = prop_slots(&s);
    let items: Vec<usize> = slots.iter().map(|p| p.item).collect();
    assert_eq!(items, vec![0, 2, 3, 4, 5, 6, 7, 8]);
    assert!(slots[0].drawn && !slots[1].drawn && slots[2].drawn);
    assert!(!slots_shed_light(&s, &slots));
    s.props.items[8].emits_light = true;
    assert!(slots_shed_light(&s, &slots));
    s.atmo.layers.clear();
    for t in AtmoType::all() {
        s.atmo.layers.push(AtmoLayer::new(*t));
    }
    s.atmo.layers[2].enabled = false;
    assert_eq!(atmo_slots(&s), vec![1, 3, 4, 5]);
}

#[test]
fn flags_of_a_scene() {
    let mut s = stone_dungeon();
    s.sky.stars_count = 9000;
    s.sky.cloud_count = 17;
    s.canvas.landscape = true;
    let f = scene_flags(&s, 3, 1);
    assert_eq!(f.dim, [854, 480, 0, 1]);
    assert_eq!(f.sky_flags[3], 1);
    assert_eq!((f.sky_counts[0], f.sky_counts[1]), (8000, 17));
    assert_eq!(f.feature_counts, [3, 1, 0, 0]);
    s.walls.tex_rot_90 = true;
    assert_eq!(scene_flags(&s, 0, 0).tex_flags, [0, 1, 0, 0]);
}

#[test]
fn tiles_are_made_again_when_the_material_changes() {
    let mut s = stone_dungeon();
    let mut r = PathRenderer::default();
    let seed = r.due_floor(&s, 5);
    assert!(seed.is_some());
    let marks = [Mark { x: 3, y: 4, colour: [1, 2, 3], strength: 1 << 26 }];
    r.refresh_floor(&s, 5, &marks);
    assert_eq!(r.due_floor(&s, 5), None);
    assert!(r.due_wall(&s, 5).is_some());
    assert_eq!(
        r.floor_tile,
        gen_floor_tile(&s.floor.pattern, s.floor.base, s.floor.mortar, s.floor.noise, &marks, seed.unwrap())
    );
    assert!(is_stale(&None, &floor_key(&s, 5)));
    s.floor.variation_seed += 1;
    assert!(r.due_floor(&s, 5).is_some());
    s.floor.variation_seed -= 1;
    assert!(r.due_floor(&s, 6).is_some());
    let wall_seed = r.due_wall(&s, 0).unwrap();
    r.refresh_wall(&s, 0, &[]);
    assert_eq!(
        r.wall_tile,
        gen_wall_tile(&s.walls.pattern, s.walls.base, s.walls.mortar, s.walls.noise, &[], wall_seed)
    );
    assert!(wall_key(&s, 0).matches(&wall_key(&s, 0)));
}

fn sprite(rows: &[&str]) -> (u32, u32, Vec<u8>) {
    let mut pixels = Vec::new();
    for row in rows {
        for c in row.chars() {
            pixels.extend_from_slice(&[0, 0, 0, if c == '#' { 24 } else { 23 }]);
        }
    }
    (rows[0].len() as u32, rows.len() as u32, pixels)
}

#[test]
fn extents_bound_the_opaque_pixels() {
    let (w, h, pixels) = sprite(&["......", "..#...", "...##.", "......"]);
    let e = sprite_extent(w, h, &pixels).unwrap();
    assert_eq!((e.min_x, e.max_x, e.min_y, e.max_y), (2, 4, 1, 2));
    assert_eq!(e.rows[1], Some((2, 2)));
    assert_eq!(e.rows[2], Some((3, 4)));
    assert_eq!(row_span(w, h, &pixels, 0), None);
    let (w, h, empty) = sprite(&["..", ".."]);
    assert!(sprite_extent(w, h, &empty).is_none());
}

fn written(w: u32, h: u32, rgba: Vec<u8>, format: image::ImageFormat) -> Vec<u8> {
    let picture = image::RgbaImage::from_raw(w, h, rgba).unwrap();
    let mut file = std::io::Cursor::new(Vec::new());
    picture.write_to(&mut file, format).unwrap();
    file.into_inner()
}

fn png(w: u32, h: u32, rgba: Vec<u8>) -> Vec<u8> {
    written(w, h, rgba, image::ImageFormat::Png)
}

#[test]
fn sprites_of_every_format_are_decoded() {
    let rgba = vec![255, 0, 0, 255, 0, 255, 0, 255];
    for (path, format) in [
        ("TREE.PNG", image::ImageFormat::Png),
        ("dir.x/tree.aPnG", image::ImageFormat::Png),
        ("tree.Gif", image::ImageFormat::Gif),
        ("C:\\art\\tree.bmp", image::ImageFormat::Bmp),
        ("..webp", image::ImageFormat::WebP),
    ] {
        let mut cache = SpriteCache::new();
        cache.load(path.to_string(), Some(written(2, 1, rgba.clone(), format)));
        let d = cache.image(0).as_ref().unwrap();
        assert_eq!((d.w, d.h, &d.rgba), (2, 1, &rgba), "{}", path);
    }
    for path in ["tree", "tree.txt", ".png", "a.png/b", "tree.tga", "tree.png.", "tree.", "a/.png", ".."] {
        let mut cache = SpriteCache::new();
        cache.load(path.to_string(), Some(png(2, 1, rgba.clone())));
        assert!(cache.image(0).is_none(), "{}", path);
    }
}

#[test]
fn decoded_images_are_kept() {
    let mut cache = SpriteCache::new();
    let flat = vec![200u8; 8 * 8 * 3];
    let mut file = std::io::Cursor::new(Vec::new());
    image::RgbImage::from_raw(8, 8, flat).unwrap().write_to(&mut file, image::ImageFormat::Jpeg).unwrap();
    cache.load("a.jpg".to_string(), Some(file.into_inner()));
    let d = cache.image(0).as_ref().unwrap();
    assert_eq!((d.w, d.h), (8, 8));
    assert!(d.rgba.chunks(4).all(|p| p[0].abs_diff(200) <= 2 && p[3] == 255));
    cache.load("//tmp/a.png".to_string(), Some(png(1, 1, vec![1, 2, 3, 4])));
    assert_eq!(cache.image(1).as_ref().unwrap().rgba, vec![1, 2, 3, 4]);
    cache.store("b".to_string(), Some(SpriteData { w: 1, h: 1, rgba: vec![4, 3, 2, 1] }));
    cache.store("c".to_string(), None);
    assert!(matches!(cache.find("b"), SpriteLookup::Cached(2)));
    assert_eq!(cache.image(2).as_ref().unwrap().texel(0, 0), [4, 3, 2, 1]);
    assert!(cache.image(3).is_none());
}

#[test]
fn sizes_without_pixels_are_refused() {
    assert_eq!(check_size(1, 1), Ok(()));
    assert_eq!(check_size(0, 9), Err("Invalid size".to_string()));
    assert_eq!(check_size(9, 0), Err("Invalid size".to_string()));
}

#[test]
fn sprites_are_read_once() {
    let mut cache = SpriteCache::new();
    assert!(matches!(cache.find("  "), SpriteLookup::Blank));
    let rgba: Vec<u8> = (0..24).map(|i| i * 10).collect();
    match cache.find(" a.png ") {
        SpriteLookup::Missing(p) => {
            assert_eq!(p, "a.png");
            cache.load(p, Some(png(3, 2, rgba.clone())));
        }
        _ => panic!("nothing was read"),
    }
    for (path, file) in [("b.png", None), ("c.png", Some(vec![1, 2, 3])), ("d", Some(png(1, 1, vec![9; 4])))] {
        match cache.find(path) {
            SpriteLookup::Missing(p) => cache.load(p, file),
            _ => panic!("nothing was read"),
        }
        match cache.find(path) {
            SpriteLookup::Cached(i) => assert!(cache.image(i).is_none()),
            _ => panic!("the failure was kept"),
        }
    }
    match cache.find("a.png") {
        SpriteLookup::Cached(i) => {
            let d = cache.image(i).as_ref().unwrap();
            assert_eq!((d.w, d.h), (3, 2));
            assert_eq!(d.rgba, rgba);
            assert_eq!(d.texel(1, 1), [160, 170, 180, 190]);
        }
        _ => panic!("the image was kept"),
    }
}
