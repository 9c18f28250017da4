use path_forge::defaults::Milli;
use path_forge::frames::{rgb_to_rgba, rgba_to_rgb, FrameMixer};
use path_forge::gif_export::{export_gif, export_loop_gif, frame_plan, render_loop_frames, LoopExport};
use path_forge::layers::{
    effective_layer_smoothing, has_emitter, has_sprite_instances, layer_has_atmo, layer_has_floor,
    layer_has_props, layer_has_sky, layer_has_walls, supports_exact_scene_parity, RenderLayers,
};
use path_forge::presets::{forest_path, stone_dungeon};
use path_forge::project_export::{
    error_update, export_project_gifs, export_project_gifs_with_progress, frame_update, gpu_failure_text,
    render_panic_text, reports_frames, uses_gpu_scene, Contents, ExportUpdate, ProjectAction, ProjectExport, ProjectLayer,
};
use path_forge::settings::{AtmoType, PathForgeSettings};

fn decoded(bytes: &[u8]) -> (u16, u16, Vec<(u16, Vec<u8>)>, gif::Repeat) {
    let mut options = gif::DecodeOptions::new();
    options.set_color_output(gif::ColorOutput::RGBA);
    let mut decoder = options.read_info(bytes).unwrap();
    let (w, h) = (decoder.width(), decoder.height());
    let mut frames = Vec::new();
    while let Some(frame) = decoder.read_next_frame().unwrap() {
        frames.push((frame.delay, frame.buffer.to_vec()));
    }
    let repeat = decoder.repeat();
    (w, h, frames, repeat)
}

fn picture(w: usize, h: usize, shift: u8) -> Vec<u8> {
    let mut out = Vec::new();
    for i in 0..w * h {
        out.extend_from_slice(&[(i as u8 % 16) * 16, shift, 255 - shift, 255]);
    }
    out
}

#[test]
fn few_colours_survive_the_encoding() {
    let frames = vec![picture(8, 4, 0), picture(8, 4, 100)];
    let bytes = export_gif(&frames, 8, 4, 83).unwrap();
    assert_eq!(&bytes[..6], b"GIF89a");
    assert_eq!(bytes[bytes.len() - 1], 0x3b);
    let (w, h, got, repeat) = decoded(&bytes);
    assert_eq!((w, h), (8, 4));
    assert_eq!(repeat, gif::Repeat::Infinite);
    assert_eq!(got.len(), 2);
    for (frame, (delay, rgba)) in frames.iter().zip(&got) {
        assert_eq!(*delay, 8);
        assert_eq!(frame, rgba);
    }
}

#[test]
fn bytes_open_with_size_and_repeat_block() {
    let bytes = export_gif(&vec![], 300, 2, 10).unwrap();
    let mut want = b"GIF89a".to_vec();
    want.extend_from_slice(&[44, 1, 2, 0, 0x80, 0, 0, 0, 0, 0, 0, 0, 0]);
    want.extend_from_slice(b"\x21\xff\x0bNETSCAPE2.0\x03\x01\x00\x00\x00");
    want.push(0x3b);
    assert_eq!(bytes, want);
}

#[test]
fn many_colours_are_reduced_to_a_table() {
    let mut rgba = Vec::new();
    for i in 0..64 * 64usize {
        rgba.extend_from_slice(&[(i % 64) as u8 * 4, (i / 64) as u8 * 4, ((i * 7) % 256) as u8, 255]);
    }
    let bytes = export_gif(&vec![rgba.clone()], 64, 64, 100).unwrap();
    let (_, _, got, _) = decoded(&bytes);
    let colours: std::collections::HashSet<&[u8]> = got[0].1.chunks(4).collect();
    assert!(colours.len() <= 256);
    assert!(got[0].1 != rgba);
    assert_eq!(got[0].1.len(), rgba.len());
    assert_eq!(export_gif(&vec![rgba], 64, 64, 100).unwrap(), bytes);
}

#[test]
fn delays_round_to_hundredths() {
    for (ms, want) in [(0u32, 0u16), (4, 0), (5, 1), (83, 8), (86, 9), (100, 10), (655_374, 1)] {
        let bytes = export_gif(&vec![picture(2, 2, 0)], 2, 2, ms).unwrap();
        assert_eq!(decoded(&bytes).2[0].0, want, "{}", ms);
    }
}

#[test]
fn tiny_pictures_are_always_encoded() {
    for (w, h) in [(1u16, 1u16), (2, 1), (1, 3)] {
        let frame = picture(w as usize, h as usize, 30);
        let bytes = export_gif(&vec![frame.clone(), frame.clone()], w, h, 20).unwrap();
        let (got_w, got_h, got, _) = decoded(&bytes);
        assert_eq!((got_w, got_h), (w, h));
        assert_eq!(got, vec![(2, frame.clone()), (2, frame)]);
    }
    assert!(export_gif(&vec![vec![]], 0, 3, 20).is_ok());
}

fn small_scene() -> PathForgeSettings<Milli> {
    let mut s = stone_dungeon();
    s.canvas.base_w = 6;
    s.canvas.base_h = 4;
    s
}

#[test]
fn a_loop_is_exported_frame_by_frame() {
    let s = small_scene();
    let (mut export, layers) = export_loop_gif(&s, 25, 3, 2).unwrap();
    assert!(layers.covers_everything());
    assert_eq!(export.timing().n_frames, 3);
    assert_eq!(export.timing().delay_hundredths, 4);
    assert_eq!(export.timing().loop_tiles, 4);
    let mut file = export.take_output();
    let mut asked = Vec::new();
    let mut progress = Vec::new();
    for frame in 0..3u8 {
        while let Some(want) = export.wanted() {
            asked.push(want);
            let shift = frame * 40 + want.1 as u8 * 20;
            export.add_sample(&picture(6, 4, shift));
        }
        progress.push(export.finish_frame(None).unwrap());
        file.extend(export.take_output());
    }
    assert_eq!(export.wanted(), None);
    assert_eq!(asked, vec![(0, 0), (0, 1), (1, 0), (1, 1), (2, 0), (2, 1)]);
    assert_eq!(progress, vec![(1, 3), (2, 3), (3, 3)]);
    file.extend(export.finish().unwrap());
    let (w, h, got, _) = decoded(&file);
    assert_eq!((w, h, got.len()), (6, 4, 3));
    for (i, (delay, rgba)) in got.iter().enumerate() {
        assert_eq!(*delay, 4);
        assert_eq!(rgba[1], i as u8 * 40 + 10);
    }
    let means: Vec<Vec<u8>> = (0..3u8)
        .map(|i| {
            let mut p = picture(6, 4, i * 40 + 10);
            for px in p.chunks_mut(4) {
                px[2] = 255 - (i * 40 + 10);
            }
            p
        })
        .collect();
    assert_eq!(file, export_gif(&means, 6, 4, 40).unwrap());
}

#[test]
fn processed_pictures_replace_the_mean() {
    let s = small_scene();
    let mut export = LoopExport::start(&s, 10, 2, 0).unwrap();
    assert_eq!(export.wanted(), Some((0, 0)));
    export.add_sample(&picture(6, 4, 9));
    assert_eq!(export.wanted(), None);
    assert_eq!(export.mean_rgba(), picture(6, 4, 9));
    assert_eq!(export.finish_frame(Some(picture(6, 4, 77))).unwrap(), (1, 2));
    let mut file = export.take_output();
    file.extend(export.finish().unwrap());
    assert_eq!(decoded(&file).2[0].1, picture(6, 4, 77));
}

#[test]
fn plans_have_frames_and_delays() {
    let mut s = stone_dungeon();
    for fps in 1..400u32 {
        let want = ((100.0 / fps as f32).round() as u16).max(1);
        assert_eq!(frame_plan(&s, fps, 36).delay_hundredths, want, "{}", fps);
    }
    assert_eq!(frame_plan(&s, 0, 36).delay_hundredths, 100);
    assert_eq!(frame_plan(&s, u32::MAX, 0).delay_hundredths, 1);
    assert_eq!(frame_plan(&s, 10, 0).n_frames, 2);
    assert_eq!(frame_plan(&s, 10, 99_999).n_frames, 20000);
    s.anim.loop_s = 0;
    assert_eq!(frame_plan(&s, 10, 5).loop_tiles, 1);
}

#[test]
fn full_loops_have_their_number_of_frames() {
    let mut s = stone_dungeon();
    for (loop_s, fps, cycles) in
        [(4u32, 12u32, 1u32), (0, 0, 0), (3, 1, 7), (16_777_217, 3, 1), (100_000, 50_000, 3), (u32::MAX, u32::MAX, u32::MAX)]
    {
        s.anim.loop_s = loop_s;
        let tiles = loop_s.max(1) as f32 * cycles.max(1) as f32;
        let want = ((tiles * fps as f32).round() as u32).max(1);
        let (length, count) = render_loop_frames(&s, fps, cycles);
        assert_eq!((length as f32, count), (tiles, want));
    }
}

#[test]
fn alpha_is_dropped_and_added() {
    assert_eq!(rgba_to_rgb(&[1, 2, 3, 4, 5, 6, 7, 8, 9]), vec![1, 2, 3, 5, 6, 7]);
    assert_eq!(rgb_to_rgba(&[1, 2, 3, 5, 6, 7]), vec![1, 2, 3, 255, 5, 6, 7, 255]);
    let rgb = vec![9, 8, 7, 6, 5, 4];
    assert_eq!(rgba_to_rgb(&rgb_to_rgba(&rgb)), rgb);
}

#[test]
fn samples_are_averaged_rounding_down() {
    let mut mixer = FrameMixer::new(1);
    mixer.add_sample(&[10, 255, 0, 7]);
    mixer.add_sample(&[11, 255, 0, 9]);
    mixer.add_sample(&[11, 255, 1, 9]);
    assert_eq!(mixer.count(), 3);
    assert_eq!(mixer.mean_rgb(), vec![10, 255, 0]);
    mixer.clear();
    assert_eq!(mixer.count(), 0);
    for _ in 0..5 {
        mixer.add_sample(&[200, 3, 99, 0]);
    }
    assert_eq!(mixer.mean_rgb(), vec![200, 3, 99]);
}

#[test]
fn layers_show_what_they_hold() {
    let mut s = stone_dungeon();
    assert!(!layer_has_sky(&s) && layer_has_floor(&s) && layer_has_walls(&s));
    assert!(layer_has_atmo(&s) && !layer_has_props(&s));
    s.sky.stars_enabled = true;
    assert!(layer_has_sky(&s));
    s.walls.enabled = false;
    assert!(!layer_has_walls(&s));
    let l = &mut s.atmo.layers[0];
    l.atmo_type = AtmoType::Unlit;
    l.n_motes = 0;
    l.n_debris = 0;
    assert!(!layer_has_atmo(&s));
    s.atmo.layers[0].sprite_pool_paths = "a".to_string();
    assert!(!layer_has_atmo(&s));
    s.atmo.layers[0].sprite_pool_enabled = true;
    assert!(layer_has_atmo(&s));
    s.atmo.layers[0].enabled = false;
    assert!(!layer_has_atmo(&s));
    let f = forest_path();
    assert!(layer_has_props(&f));
}

#[test]
fn sprites_close_the_parity_gate() {
    let mut s = forest_path();
    assert!(supports_exact_scene_parity(&s) && !has_sprite_instances(&s));
    s.props.items[0].sprite_path = "  ".to_string();
    assert!(supports_exact_scene_parity(&s));
    s.props.items[0].sprite_path = "tree.png".to_string();
    assert!(!supports_exact_scene_parity(&s) && has_sprite_instances(&s));
    s.props.items[0].enabled = false;
    assert!(supports_exact_scene_parity(&s));
    s.atmo.layers[0].sprite_pool_paths = "a;b".to_string();
    s.atmo.layers[0].sprite_pool_enabled = true;
    assert!(!supports_exact_scene_parity(&s));
    assert!(!uses_gpu_scene(true, &s, true, &RenderLayers::all()));
    s.atmo.layers[0].sprite_pool_enabled = false;
    assert!(uses_gpu_scene(true, &s, true, &Contents::of(&s).layers_for(ProjectLayer::Sky)));
    assert!(!uses_gpu_scene(true, &s, false, &Contents::of(&s).layers_for(ProjectLayer::Sky)));
    assert!(uses_gpu_scene(true, &s, false, &RenderLayers::all()));
    assert!(!uses_gpu_scene(false, &s, false, &RenderLayers::all()));
}

#[test]
fn emitters_are_found() {
    let mut s = stone_dungeon();
    assert!(has_emitter(&s));
    s.atmo.layers[0].emits_light = false;
    assert!(!has_emitter(&s));
    s.sky.moon_enabled = true;
    assert!(has_emitter(&s));
    s.sky.moon_emits_light = false;
    assert!(!has_emitter(&s));
    let mut f = forest_path();
    f.sky.sun_emits_light = false;
    f.atmo.layers[0].enabled = false;
    assert!(!has_emitter(&f));
    f.props.items[1].emits_light = true;
    assert!(has_emitter(&f));
}

#[test]
fn layers_need_fewer_samples() {
    let c = Contents { sky: true, floor: true, walls: true, atmo: true, props: true };
    assert_eq!(effective_layer_smoothing(8, c.layers_for(ProjectLayer::Sky)), 1);
    assert_eq!(effective_layer_smoothing(8, c.layers_for(ProjectLayer::Atmosphere)), 2);
    assert_eq!(effective_layer_smoothing(1, c.layers_for(ProjectLayer::Atmosphere)), 1);
    assert_eq!(effective_layer_smoothing(8, c.layers_for(ProjectLayer::Walls)), 8);
    assert_eq!(effective_layer_smoothing(0, RenderLayers::all()), 1);
}

fn tell(u: &ExportUpdate) -> (String, String, u32, u32, bool, bool) {
    (u.stage.clone(), u.message.clone(), u.current, u.total, u.done, u.failed)
}

#[test]
fn a_project_is_exported_layer_by_layer() {
    let mut project: ProjectExport = export_project_gifs(&stone_dungeon());
    let mut told = Vec::new();
    let mut made = Vec::new();
    loop {
        match project.next_action() {
            ProjectAction::Tell(u) => told.push(tell(&u)),
            ProjectAction::Make(layer, start) => {
                if let Some(u) = start {
                    told.push(tell(&u));
                }
                made.push(layer.file_name());
                let u = if layer == ProjectLayer::Walls { project.failed("disk full") } else { project.made(36) };
                told.push(tell(&u));
            }
            ProjectAction::Conclude => break,
        }
    }
    assert_eq!(
        made,
        ["02_path_floor.gif", "03_walls.gif", "04_atmosphere.gif", "06_composite_layered.gif"]
    );
    let line = |s: &str, m: &str, c, t, f| (s.to_string(), m.to_string(), c, t, false, f);
    assert_eq!(
        told,
        vec![
            line("sky", "Skipping sky (disabled/empty)", 0, 4, false),
            line("path_floor", "Starting path_floor", 0, 1, false),
            line("path_floor", "Finished path_floor", 1, 4, false),
            line("walls", "Starting walls", 0, 1, false),
            line("walls", "Failed walls: disk full", 2, 4, true),
            line("atmosphere", "Starting atmosphere", 0, 1, false),
            line("atmosphere", "Finished atmosphere", 3, 4, false),
            line("props", "Skipping props (disabled/empty)", 3, 4, false),
            line("composite_layered", "Finished composite_layered", 4, 4, false),
        ]
    );
    let (last, text) = project.conclude("out/x");
    let want = "Saved 36 frames in out/x | Generated: path_floor, atmosphere, composite_layered | \
                Skipped: sky, props | Failed: walls (disk full)";
    assert_eq!(text, Ok(want.to_string()));
    assert_eq!(tell(&last), ("export".to_string(), want.to_string(), 4, 4, true, true));
}

#[test]
fn a_fast_export_makes_the_composite_only() {
    let mut project = export_project_gifs_with_progress(&forest_path(), false);
    match project.next_action() {
        ProjectAction::Tell(u) => assert_eq!(
            tell(&u),
            (
                "composite_layered".to_string(),
                "Fast export mode: skipping individual layer GIFs".to_string(),
                0,
                1,
                false,
                false
            )
        ),
        _ => panic!("a report is due"),
    }
    match project.next_action() {
        ProjectAction::Make(layer, start) => assert!(layer == ProjectLayer::Composite && start.is_none()),
        _ => panic!("the composite is due"),
    }
    let u = project.failed("no room");
    assert_eq!(u.message, "Failed composite_layered: no room");
    assert!(matches!(project.next_action(), ProjectAction::Conclude));
    let (last, text) = project.conclude("d");
    let want = "No GIFs generated in d. Failures: composite_layered (no room)";
    assert_eq!(text, Err(want.to_string()));
    assert_eq!(tell(&last), ("export".to_string(), want.to_string(), 0, 1, true, true));
}

#[test]
fn frame_reports_count() {
    let u = frame_update(ProjectLayer::Props, 3, 36);
    assert_eq!(tell(&u), ("props".to_string(), "props frame 3/36".to_string(), 3, 36, false, false));
    assert_eq!(render_panic_text(false, 4, "a.gif"), "render panic while exporting frame 4 to a.gif");
    assert_eq!(render_panic_text(true, 4, "a.gif"), "render panic while exporting composite frame 4 to a.gif");
    assert_eq!(
        gpu_failure_text(true, 2, "a.gif", "lost"),
        "gpu scene render failed composite frame 2 to a.gif: lost"
    );
    assert_eq!(gpu_failure_text(false, 2, "a.gif", "lost"), "gpu scene render failed frame 2 to a.gif: lost");
}

#[test]
fn frames_and_errors_are_reported() {
    assert!(!reports_frames(true, 1, true));
    assert!(reports_frames(true, 2, true) && reports_frames(true, 1, false) && reports_frames(false, 1, true));
    let u = error_update("no room");
    assert_eq!((u.stage.as_str(), u.message.as_str()), ("export", "Export error: no room"));
    assert_eq!((u.current, u.total, u.done, u.failed), (0, 1, true, true));
}
