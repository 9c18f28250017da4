use path_forge::defaults::Milli;
use path_forge::kinds::LightingPreset;
use path_forge::node_lab::{layout_cell, NodeLabState};
use path_forge::project_export::ExportUpdate;
use path_forge::settings::CanvasSettings;
use path_forge::studio::{
    accepts_frame, apply_size, clamp_canvas, clamp_side, effective_output_fps, hardlock_frames,
    lighting_preset_preview_text, read_number, should_dispatch, snap_side, spacing_fits, suggest_spacing,
    ExportStatus, GpuState, RenderWorker, WorkerPhase, WorkerStep,
};

#[test]
fn rates_are_boosted_by_smoothing() {
    assert_eq!(effective_output_fps(12, false, 4), 12);
    assert_eq!(effective_output_fps(12, true, 4), 48);
    assert_eq!(effective_output_fps(12, true, 0), 24);
    assert_eq!(effective_output_fps(0, false, 0), 1);
    assert_eq!(effective_output_fps(200, true, 3), 240);
    assert_eq!(effective_output_fps(u32::MAX, true, u32::MAX), 240);
}

#[test]
fn sides_snap_to_sixteen() {
    assert_eq!(clamp_side(10), 360);
    assert_eq!(clamp_side(9000), 3840);
    for v in [0u32, 360, 367, 368, 480, 487, 488, 854, 3839, 3840, 9999] {
        assert_eq!(snap_side(v), ((v.clamp(360, 3840) + 8) / 16) * 16);
        assert_eq!(snap_side(snap_side(v)), snap_side(v));
        assert_eq!(snap_side(v) % 16, 0);
    }
}

#[test]
fn sizes_are_entered_as_text() {
    assert_eq!(read_number(" 480 "), Some(480));
    assert_eq!(read_number("-3"), None);
    let mut c = CanvasSettings::default();
    assert_eq!(apply_size(&mut c, "500", "x"), (false, false));
    assert_eq!((c.base_w, c.base_h), (480, 854));
    assert_eq!(apply_size(&mut c, "500", " 854 "), (true, true));
    assert_eq!((c.base_w, c.base_h), (496, 848));
    assert_eq!(apply_size(&mut c, "500", "854"), (true, false));
    c.base_w = 1;
    c.base_h = 99999;
    clamp_canvas(&mut c);
    assert_eq!((c.base_w, c.base_h), (360, 3840));
}

#[test]
fn spacings_divide_the_loop() {
    assert!(spacing_fits(4, 2));
    assert!(spacing_fits(4, 4));
    assert!(!spacing_fits(4, 3));
    assert_eq!(suggest_spacing(4, 2), 2);
    for loop_s in 1..=12u32 {
        for spacing in 1..=16u32 {
            let n = (loop_s as f32 / spacing as f32).round().max(1.0);
            let want = ((loop_s as f32 / n).round() as u32).max(1);
            assert_eq!(suggest_spacing(loop_s, spacing), want);
            assert_eq!(spacing_fits(loop_s, spacing), loop_s % spacing == 0);
        }
    }
}

#[test]
fn frames_of_a_hard_lock_are_limited() {
    assert_eq!((hardlock_frames(1), hardlock_frames(36), hardlock_frames(999)), (12, 36, 720));
}

#[test]
fn moods_are_described() {
    for m in LightingPreset::all() {
        assert!(!lighting_preset_preview_text(m).is_empty());
    }
    assert_ne!(
        lighting_preset_preview_text(&LightingPreset::HighNoon),
        lighting_preset_preview_text(&LightingPreset::NightNeon)
    );
}

#[test]
fn only_the_latest_frame_is_shown() {
    assert!(accepts_frame(3, 3, 32, 4, 2));
    assert!(!accepts_frame(2, 3, 32, 4, 2));
    assert!(!accepts_frame(3, 3, 31, 4, 2));
    assert!(should_dispatch(true, false, false, false));
    assert!(!should_dispatch(true, true, false, true));
    assert!(!should_dispatch(false, false, false, true));
    assert!(!should_dispatch(true, false, true, false));
    assert!(should_dispatch(true, false, true, true));
}

#[test]
fn the_worker_falls_back_to_the_cpu() {
    let mut w = RenderWorker::new();
    assert_eq!(w.request(true, true, true), WorkerStep::OpenScene);
    assert_eq!(w.outcome(false), WorkerStep::DrawOnCpu);
    assert_eq!(w.scene, GpuState::Failed);
    assert_eq!(w.outcome(true), WorkerStep::OpenEffects);
    assert_eq!(w.outcome(true), WorkerStep::ApplyEffects);
    assert_eq!(w.outcome(false), WorkerStep::SendFrame);
    assert_eq!(w.phase, WorkerPhase::Idle);
    assert_eq!(w.request(true, true, false), WorkerStep::DrawOnCpu);
    assert_eq!(w.outcome(false), WorkerStep::SendGrey);
    assert_eq!(w.phase, WorkerPhase::Idle);
}

#[test]
fn the_worker_uses_an_open_gpu() {
    let mut w = RenderWorker::new();
    assert_eq!(w.request(true, true, false), WorkerStep::OpenScene);
    assert_eq!(w.outcome(true), WorkerStep::DrawOnGpu);
    assert_eq!(w.outcome(true), WorkerStep::SendFrame);
    assert_eq!(w.request(true, true, true), WorkerStep::DrawOnGpu);
    assert_eq!(w.outcome(true), WorkerStep::OpenEffects);
    assert_eq!(w.outcome(false), WorkerStep::SendFrame);
    assert_eq!(w.effects, GpuState::Failed);
    assert_eq!(w.request(true, false, true), WorkerStep::DrawOnCpu);
    assert_eq!(w.outcome(true), WorkerStep::SendFrame);
}

fn update(total: u32, done: bool) -> ExportUpdate {
    ExportUpdate {
        stage: "sky".to_string(),
        message: "m".to_string(),
        current: 2,
        total,
        done,
        failed: false,
    }
}

#[test]
fn an_export_is_followed() {
    let mut s = ExportStatus::idle();
    assert!(!s.exporting && s.message.is_empty());
    assert!(!s.begin("  "));
    assert_eq!(s.message, "Export requires a project name");
    assert!(s.begin("x"));
    assert!(s.exporting);
    assert_eq!((s.stage.as_str(), s.message.as_str()), ("init", "Exporting layer GIFs and composite..."));
    s.take(update(4, false));
    assert_eq!((s.current, s.total, s.exporting), (2, 4, true));
    s.take(update(0, false));
    assert_eq!((s.current, s.total), (2, 4));
    s.notice_stall(false, 50);
    assert_eq!(s.message, "m");
    s.notice_stall(true, 50);
    assert_eq!(s.message, "Export is very slow at 50% (stage: sky). Still rendering frames...");
    assert!(s.stall_notified);
    s.take(update(4, true));
    assert!(!s.exporting && !s.stall_notified);
    s.begin("x");
    s.lose();
    assert_eq!(s.message, "Export failed: worker disconnected");
    s.notice_stall(true, 0);
    assert_eq!(s.message, "Export is very slow at 0% (stage: init). Still rendering frames...");
    assert!(s.stall_notified && !s.exporting);
    s.begin("x");
    s.refuse("no threads");
    assert_eq!(s.message, "Export thread error: no threads");
    assert!(!s.exporting);
}

fn number(m: Milli) -> f32 {
    m.0 as f32 / 1000.0
}

#[test]
fn a_node_lab_starts_with_two_nodes() {
    let mut lab: NodeLabState<f32> = NodeLabState::new();
    lab.ensure_seed_nodes(number);
    lab.ensure_seed_nodes(number);
    assert_eq!(lab.graph.nodes.len(), 2);
    assert_eq!(lab.graph.nodes[0].title, "Noise");
    assert_eq!((lab.graph.nodes[0].x, lab.graph.nodes[0].y), (32.0, 48.0));
    assert_eq!(lab.graph.nodes[0].params[1].value, 42.0);
    assert_eq!(lab.graph.nodes[1].params[0].value, 0.5);
    lab.add_node(number);
    assert_eq!((lab.graph.nodes[2].id, lab.graph.nodes[2].title.as_str()), (3, "Node 3"));
    assert_eq!(lab.inspect(), Some(2));
    lab.delete_selected();
    assert_eq!(lab.selected_id, Some(1));
    lab.add_node(number);
    assert_eq!(lab.graph.nodes[2].id, 4);
    lab.selected_id = Some(99);
    assert_eq!(lab.inspect(), None);
    assert_eq!(lab.selected_id, Some(1));
    lab.graph.nodes[2].id = 2;
    lab.selected_id = Some(2);
    assert_eq!(lab.inspect(), Some(1));
    lab.new_param_name = "  ".to_string();
    assert!(lab.take_new_param(0.0).is_none());
    lab.new_param_name = " Hue 2 ".to_string();
    assert_eq!(lab.take_new_param(0.0).unwrap().name, "Hue 2");
    assert!(lab.new_param_name.is_empty());
}

#[test]
fn deleting_takes_every_node_with_the_id() {
    let mut lab: NodeLabState<f32> = NodeLabState::new();
    lab.ensure_seed_nodes(number);
    lab.delete_selected();
    lab.delete_selected();
    assert!(lab.graph.nodes.is_empty());
    assert_eq!(lab.selected_id, None);
    lab.delete_selected();
    assert_eq!(lab.selected_id, None);
}

#[test]
fn nodes_are_laid_out_in_threes() {
    assert_eq!(layout_cell(0), (0, 0));
    assert_eq!(layout_cell(5), (2, 1));
    assert_eq!(layout_cell(6), (0, 2));
}
