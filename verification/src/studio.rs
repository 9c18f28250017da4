//! The decisions of the program around the renderer: sizes and rates that the user enters,
//! the steps of the render worker, and the state of an export as it is shown.
use vstd::prelude::*;
use vstd::string::StringExecFns;

use crate::kinds::LightingPreset;
use crate::project_export::ExportUpdate;
use crate::raster::{lemma_full_units_are_exact, lemma_ratio_is_monotone};
use crate::rounding::{
    divide_to_significand, lemma_rounded_at_most_whole, nearest_whole, round_to_significand, rounded, rounded_ratio,
    SIGNIFICAND_LIMIT,
};
use crate::settings::CanvasSettings;
use crate::text::{
    chars_of, decimal, digits, law_digits_stand_for_the_number, law_strip_keeps_what_is_between,
    law_written_numbers_are_read, number_value, parse_number, strip, stripped, CharClass,
};
use crate::tiles::clamped;

verus! {

/// The frame rate of preview and export: the cap times the boost that temporal smoothing
/// gives, two at least, and no more than 240.
pub open spec fn output_fps(cap: u32, smoothing: bool, boost: u32) -> int {
    let base = if cap < 1 { 1 } else { cap as int };
    let factor = if !smoothing { 1 } else if boost < 2 { 2 } else { boost as int };
    clamped(base * factor, 1, 240)
}

/// The frame rate of preview and export.
pub fn effective_output_fps(cap: u32, smoothing: bool, boost: u32) -> (r: u32)
    ensures
        r == output_fps(cap, smoothing, boost),
        1 <= r <= 240,
{
    let base: u64 = if cap < 1 {
        1
    } else {
        cap as u64
    };
    let factor: u64 = if !smoothing {
        1
    } else if boost < 2 {
        2
    } else {
        boost as u64
    };
    assert(1 <= base * factor <= 0xffff_ffff * 0xffff_ffff) by (nonlinear_arith)
        requires
            1 <= base <= 0xffff_ffff,
            1 <= factor <= 0xffff_ffff,
    ;
    let rate: u64 = base * factor;
    if rate > 240 {
        240
    } else {
        rate as u32
    }
}

/// A canvas side that the user asked for: from 360 to 3840, to the nearest multiple of 16.
pub open spec fn snapped_side(v: u32) -> int {
    (clamped(v as int, 360, 3840) + 8) / 16 * 16
}

/// A side within the limits of a canvas.
pub fn clamp_side(v: u32) -> (r: u32)
    ensures
        r == clamped(v as int, 360, 3840),
{
    if v < 360 {
        360
    } else if v > 3840 {
        3840
    } else {
        v
    }
}

/// A canvas side that the user asked for.
pub fn snap_side(v: u32) -> (r: u32)
    ensures
        r == snapped_side(v),
{
    ((clamp_side(v) + 8) / 16) * 16
}

/// A snapped side is a multiple of 16 within the limits, no more than 8 from a side within
/// them that was asked for, and snapping it again changes nothing.
pub proof fn law_snapped_side(v: u32)
    ensures
        snapped_side(v) % 16 == 0,
        360 <= snapped_side(v) <= 3840,
        360 <= v <= 3840 ==> -8 <= snapped_side(v) - v <= 8,
        snapped_side(snapped_side(v) as u32) == snapped_side(v),
{
}

/// The number that the user entered, white space around it aside.
pub open spec fn entered_number(text: Seq<char>) -> Option<u32> {
    number_value(strip(text, CharClass::White), 10)
}

/// Reads a number that the user entered.
pub fn read_number(text: &str) -> (r: Option<u32>)
    ensures
        r == entered_number(text@),
{
    parse_number(&stripped(&chars_of(text), CharClass::White), 10)
}

/// Applies the sides that the user entered to a canvas. Nothing happens unless both are
/// numbers; says whether they were, and whether the canvas changed.
pub fn apply_size(canvas: &mut CanvasSettings, width: &str, height: &str) -> (r: (bool, bool))
    ensures
        ({
            let w = entered_number(width@);
            let h = entered_number(height@);
            if w is Some && h is Some {
                &&& final(canvas).base_w == snapped_side(w->0)
                &&& final(canvas).base_h == snapped_side(h->0)
                &&& final(canvas).landscape == old(canvas).landscape
                &&& r.0
                &&& r.1 == (*final(canvas) != *old(canvas))
            } else {
                *final(canvas) == *old(canvas) && !r.0 && !r.1
            }
        }),
{
    match (read_number(width), read_number(height)) {
        (Some(w), Some(h)) => {
            let new_w: u32 = snap_side(w);
            let new_h: u32 = snap_side(h);
            let changed: bool = canvas.base_w != new_w || canvas.base_h != new_h;
            canvas.base_w = new_w;
            canvas.base_h = new_h;
            (true, changed)
        },
        _ => (false, false),
    }
}

/// Brings the sides of a canvas within their limits.
pub fn clamp_canvas(canvas: &mut CanvasSettings)
    ensures
        final(canvas).base_w == clamped(old(canvas).base_w as int, 360, 3840),
        final(canvas).base_h == clamped(old(canvas).base_h as int, 360, 3840),
        final(canvas).landscape == old(canvas).landscape,
{
    canvas.base_w = clamp_side(canvas.base_w);
    canvas.base_h = clamp_side(canvas.base_h);
}

/// A count of at least one, in single precision.
pub open spec fn at_least_one(n: u32) -> nat {
    rounded((if n < 1 { 1 } else { n as int }) as nat)
}

/// Whether lights spaced `spacing` apart come out even over a loop: the spacing divides it.
pub open spec fn spacing_is_seamless(loop_s: u32, spacing: u32) -> bool {
    at_least_one(loop_s) % at_least_one(spacing) == 0
}

/// The spacing that comes out about even: the loop over the whole number of spacings that is
/// nearest to what fits, to the nearest whole number, one at least.
pub open spec fn suggested_spacing(loop_s: u32, spacing: u32) -> int {
    let fit = nearest_whole(rounded_ratio(at_least_one(loop_s), at_least_one(spacing)));
    let count = if fit < 1 { 1 } else { fit };
    clamped(nearest_whole(rounded_ratio(at_least_one(loop_s), count)) as int, 1, u32::MAX as int)
}

fn one_at_least(n: u32) -> (r: u128)
    ensures
        r as nat == at_least_one(n),
        1 <= r <= 0x1_0000_0000,
{
    let v: u128 = if n < 1 {
        1
    } else {
        n as u128
    };
    proof {
        lemma_rounded_at_most_whole(v as nat, 1);
        crate::rounding::law_small_numbers_are_exact(1);
        crate::rounding::law_rounding_is_monotone(1, v as nat);
    }
    round_to_significand(v)
}

/// Whether lights spaced `spacing` apart come out even over a loop.
pub fn spacing_fits(loop_s: u32, spacing: u32) -> (r: bool)
    ensures
        r == spacing_is_seamless(loop_s, spacing),
{
    one_at_least(loop_s) % one_at_least(spacing) == 0
}

/// The spacing that comes out about even over a loop.
pub fn suggest_spacing(loop_s: u32, spacing: u32) -> (r: u32)
    ensures
        r == suggested_spacing(loop_s, spacing),
{
    let length: u128 = one_at_least(loop_s);
    let step: u128 = one_at_least(spacing);
    let ratio: u128 = divide_to_significand(length, step);
    let fit: u128 = (ratio + 0x8000_0000_0000_0000) / 0x1_0000_0000_0000_0000;
    let count: u128 = if fit < 1 {
        1
    } else {
        fit
    };
    let share: u128 = divide_to_significand(length, count);
    let nearest: u128 = (share + 0x8000_0000_0000_0000) / 0x1_0000_0000_0000_0000;
    if nearest < 1 {
        1
    } else if nearest > 0xffff_ffff {
        u32::MAX
    } else {
        nearest as u32
    }
}

/// A spacing that divides a loop of fewer than two to the power 24 tiles is seamless, and no
/// other is.
pub proof fn law_seamless_spacings_divide(loop_s: u32, spacing: u32)
    requires
        1 <= loop_s < 0x100_0000,
        1 <= spacing < 0x100_0000,
    ensures
        spacing_is_seamless(loop_s, spacing) <==> loop_s % spacing == 0,
{
    crate::rounding::law_small_numbers_are_exact(loop_s as nat);
    crate::rounding::law_small_numbers_are_exact(spacing as nat);
}

/// The number of frames of an export, from the number that the loop takes: 12 to 720.
pub fn hardlock_frames(raw: u32) -> (r: u32)
    ensures
        r == clamped(raw as int, 12, 720),
{
    if raw < 12 {
        12
    } else if raw > 720 {
        720
    } else {
        raw
    }
}

/// What the interface says of a lighting mood.
pub open spec fn mood_text(preset: LightingPreset) -> Seq<char> {
    match preset {
        LightingPreset::Balanced => "Will set neutral ambient/atmo defaults, enable sun+clouds, and keep moderate shadow-follow behavior."@,
        LightingPreset::GoldenHour => "Will warm sky/sun/cloud tint, increase atmospheric tint influence, and lengthen prop shadows."@,
        LightingPreset::HighNoon => "Will raise ambient light, reduce atmospheric tinting, and shorten prop shadows for overhead sun."@,
        LightingPreset::NightNeon => "Will lower ambient light, boost atmospheric influence, enable moon+stars mood, and deepen/extend shadows."@,
    }
}

/// What the interface says of a lighting mood.
pub fn lighting_preset_preview_text(preset: &LightingPreset) -> (r: &'static str)
    ensures
        r@ == mood_text(*preset),
{
    match preset {
        LightingPreset::Balanced => "Will set neutral ambient/atmo defaults, enable sun+clouds, and keep moderate shadow-follow behavior.",
        LightingPreset::GoldenHour => "Will warm sky/sun/cloud tint, increase atmospheric tint influence, and lengthen prop shadows.",
        LightingPreset::HighNoon => "Will raise ambient light, reduce atmospheric tinting, and shorten prop shadows for overhead sun.",
        LightingPreset::NightNeon => "Will lower ambient light, boost atmospheric influence, enable moon+stars mood, and deepen/extend shadows.",
    }
}

/// Whether a rendered frame is shown: it is the one that is waited for, and its bytes are
/// those of its size.
pub fn accepts_frame(frame_id: u64, latest: u64, len: usize, w: usize, h: usize) -> (r: bool)
    ensures
        r == (frame_id == latest && len == w * h * 4),
{
    if frame_id != latest {
        return false;
    }
    assert(w * h <= 0xffff_ffff_ffff_ffff * 0xffff_ffff_ffff_ffff) by (nonlinear_arith)
        requires
            w <= 0xffff_ffff_ffff_ffff,
            h <= 0xffff_ffff_ffff_ffff,
    ;
    let size: u128 = (w as u128) * (h as u128);
    if size > 0xffff_ffff_ffff_ffff {
        return false;
    }
    len as u128 == size * 4
}

/// Whether the next frame is sent to the worker.
pub open spec fn is_due(dirty: bool, pending: bool, playing: bool, waited: bool) -> bool {
    &&& dirty
    &&& !pending
    &&& !playing || waited
}

/// Whether the next frame is sent to the worker: something changed, nothing is under way,
/// and while playing the frame time has passed.
pub fn should_dispatch(dirty: bool, pending: bool, playing: bool, waited: bool) -> (r: bool)
    ensures
        r == is_due(dirty, pending, playing, waited),
        r == (dirty && !pending && (playing ==> waited)),
{
    dirty && !pending && (!playing || waited)
}

/// Whether a part of the GPU can be used.
#[derive(Clone, Copy, Debug, PartialEq, Eq, Structural)]
pub enum GpuState {
    /// It was not needed yet.
    Untried,
    /// It is open.
    Ready,
    /// It could not be opened, and is not tried again.
    Failed,
}

/// What the worker is waiting for.
#[derive(Clone, Copy, Debug, PartialEq, Eq, Structural)]
pub enum WorkerPhase {
    Idle,
    OpeningScene,
    DrawingOnGpu,
    DrawingOnCpu,
    OpeningEffects,
    ApplyingEffects,
}

/// What the worker does next.
#[derive(Clone, Copy, Debug, PartialEq, Eq, Structural)]
pub enum WorkerStep {
    OpenScene,
    DrawOnGpu,
    DrawOnCpu,
    OpenEffects,
    ApplyEffects,
    /// Send the frame that was drawn.
    SendFrame,
    /// Start over with a new renderer, and send a grey frame.
    SendGrey,
}

/// The state of the render worker.
#[derive(Clone, Copy, Debug, PartialEq, Eq, Structural)]
pub struct RenderWorker {
    pub scene: GpuState,
    pub effects: GpuState,
    pub effects_wanted: bool,
    pub phase: WorkerPhase,
}

/// What follows once the picture is drawn.
pub open spec fn after_drawing(w: RenderWorker) -> (RenderWorker, WorkerStep) {
    if !w.effects_wanted || w.effects == GpuState::Failed {
        (RenderWorker { phase: WorkerPhase::Idle, ..w }, WorkerStep::SendFrame)
    } else if w.effects == GpuState::Ready {
        (RenderWorker { phase: WorkerPhase::ApplyingEffects, ..w }, WorkerStep::ApplyEffects)
    } else {
        (RenderWorker { phase: WorkerPhase::OpeningEffects, ..w }, WorkerStep::OpenEffects)
    }
}

/// What follows a request for a frame. The GPU draws it only where that is enabled and
/// exact.
pub open spec fn after_request(w: RenderWorker, gpu_scene: bool, exact: bool, effects: bool) -> (
    RenderWorker,
    WorkerStep,
) {
    let asked = RenderWorker { effects_wanted: effects, ..w };
    if !gpu_scene || !exact || w.scene == GpuState::Failed {
        (RenderWorker { phase: WorkerPhase::DrawingOnCpu, ..asked }, WorkerStep::DrawOnCpu)
    } else if w.scene == GpuState::Ready {
        (RenderWorker { phase: WorkerPhase::DrawingOnGpu, ..asked }, WorkerStep::DrawOnGpu)
    } else {
        (RenderWorker { phase: WorkerPhase::OpeningScene, ..asked }, WorkerStep::OpenScene)
    }
}

/// What follows the outcome of a step. What fails on the GPU goes on without it.
pub open spec fn after_outcome(w: RenderWorker, ok: bool) -> (RenderWorker, WorkerStep) {
    match w.phase {
        WorkerPhase::Idle => (w, WorkerStep::SendFrame),
        WorkerPhase::OpeningScene => if ok {
            (
                RenderWorker { scene: GpuState::Ready, phase: WorkerPhase::DrawingOnGpu, ..w },
                WorkerStep::DrawOnGpu,
            )
        } else {
            (
                RenderWorker { scene: GpuState::Failed, phase: WorkerPhase::DrawingOnCpu, ..w },
                WorkerStep::DrawOnCpu,
            )
        },
        WorkerPhase::DrawingOnGpu => if ok {
            after_drawing(w)
        } else {
            (RenderWorker { phase: WorkerPhase::DrawingOnCpu, ..w }, WorkerStep::DrawOnCpu)
        },
        WorkerPhase::DrawingOnCpu => if ok {
            after_drawing(w)
        } else {
            (RenderWorker { phase: WorkerPhase::Idle, ..w }, WorkerStep::SendGrey)
        },
        WorkerPhase::OpeningEffects => if ok {
            (
                RenderWorker { effects: GpuState::Ready, phase: WorkerPhase::ApplyingEffects, ..w },
                WorkerStep::ApplyEffects,
            )
        } else {
            (
                RenderWorker { effects: GpuState::Failed, phase: WorkerPhase::Idle, ..w },
                WorkerStep::SendFrame,
            )
        },
        WorkerPhase::ApplyingEffects => (RenderWorker { phase: WorkerPhase::Idle, ..w }, WorkerStep::SendFrame),
    }
}

impl RenderWorker {
    /// A worker that has not drawn anything yet.
    pub fn new() -> (r: Self)
        ensures
            r == (RenderWorker {
                scene: GpuState::Untried,
                effects: GpuState::Untried,
                effects_wanted: false,
                phase: WorkerPhase::Idle,
            }),
    {
        RenderWorker {
            scene: GpuState::Untried,
            effects: GpuState::Untried,
            effects_wanted: false,
            phase: WorkerPhase::Idle,
        }
    }

    fn finish_drawing(&mut self) -> (r: WorkerStep)
        ensures
            (*final(self), r) == after_drawing(*old(self)),
    {
        if !self.effects_wanted || self.effects == GpuState::Failed {
            self.phase = WorkerPhase::Idle;
            WorkerStep::SendFrame
        } else if self.effects == GpuState::Ready {
            self.phase = WorkerPhase::ApplyingEffects;
            WorkerStep::ApplyEffects
        } else {
            self.phase = WorkerPhase::OpeningEffects;
            WorkerStep::OpenEffects
        }
    }

    /// Takes a request for a frame.
    pub fn request(&mut self, gpu_scene: bool, exact: bool, effects: bool) -> (r: WorkerStep)
        requires
            old(self).phase == WorkerPhase::Idle,
        ensures
            (*final(self), r) == after_request(*old(self), gpu_scene, exact, effects),
    {
        self.effects_wanted = effects;
        if !gpu_scene || !exact || self.scene == GpuState::Failed {
            self.phase = WorkerPhase::DrawingOnCpu;
            WorkerStep::DrawOnCpu
        } else if self.scene == GpuState::Ready {
            self.phase = WorkerPhase::DrawingOnGpu;
            WorkerStep::DrawOnGpu
        } else {
            self.phase = WorkerPhase::OpeningScene;
            WorkerStep::OpenScene
        }
    }

    /// Takes the outcome of the step that the worker is waiting for.
    pub fn outcome(&mut self, ok: bool) -> (r: WorkerStep)
        requires
            old(self).phase != WorkerPhase::Idle,
        ensures
            (*final(self), r) == after_outcome(*old(self), ok),
    {
        match self.phase {
            WorkerPhase::Idle => WorkerStep::SendFrame,
            WorkerPhase::OpeningScene => {
                if ok {
                    self.scene = GpuState::Ready;
                    self.phase = WorkerPhase::DrawingOnGpu;
                    WorkerStep::DrawOnGpu
                } else {
                    self.scene = GpuState::Failed;
                    self.phase = WorkerPhase::DrawingOnCpu;
                    WorkerStep::DrawOnCpu
                }
            },
            WorkerPhase::DrawingOnGpu => {
                if ok {
                    self.finish_drawing()
                } else {
                    self.phase = WorkerPhase::DrawingOnCpu;
                    WorkerStep::DrawOnCpu
                }
            },
            WorkerPhase::DrawingOnCpu => {
                if ok {
                    self.finish_drawing()
                } else {
                    self.phase = WorkerPhase::Idle;
                    WorkerStep::SendGrey
                }
            },
            WorkerPhase::OpeningEffects => {
                if ok {
                    self.effects = GpuState::Ready;
                    self.phase = WorkerPhase::ApplyingEffects;
                    WorkerStep::ApplyEffects
                } else {
                    self.effects = GpuState::Failed;
                    self.phase = WorkerPhase::Idle;
                    WorkerStep::SendFrame
                }
            },
            WorkerPhase::ApplyingEffects => {
                self.phase = WorkerPhase::Idle;
                WorkerStep::SendFrame
            },
        }
    }
}

/// How many outcomes at most are left before a frame is sent.
pub open spec fn steps_left(w: RenderWorker) -> nat {
    match w.phase {
        WorkerPhase::Idle => 0,
        WorkerPhase::ApplyingEffects => 1,
        WorkerPhase::OpeningEffects => 2,
        WorkerPhase::DrawingOnCpu => 3,
        WorkerPhase::DrawingOnGpu => 4,
        WorkerPhase::OpeningScene => 5,
    }
}

/// Every outcome brings the worker nearer to sending a frame, and it is idle again just when
/// it sends one.
pub proof fn law_worker_sends_a_frame(w: RenderWorker, ok: bool)
    requires
        w.phase != WorkerPhase::Idle,
    ensures
        steps_left(after_outcome(w, ok).0) < steps_left(w),
        (after_outcome(w, ok).0.phase == WorkerPhase::Idle) <==> (after_outcome(w, ok).1 == WorkerStep::SendFrame
            || after_outcome(w, ok).1 == WorkerStep::SendGrey),
{
}

/// What the worker waits for fits what it knows of the GPU: it opens what was not tried, and
/// uses what is open.
pub open spec fn is_in_order(w: RenderWorker) -> bool {
    match w.phase {
        WorkerPhase::OpeningScene => w.scene == GpuState::Untried,
        WorkerPhase::DrawingOnGpu => w.scene == GpuState::Ready,
        WorkerPhase::OpeningEffects => w.effects_wanted && w.effects == GpuState::Untried,
        WorkerPhase::ApplyingEffects => w.effects_wanted && w.effects == GpuState::Ready,
        _ => true,
    }
}

/// A worker starts in order and stays so.
pub proof fn law_worker_stays_in_order(w: RenderWorker, ok: bool, gpu_scene: bool, exact: bool, effects: bool)
    ensures
        w.phase == WorkerPhase::Idle ==> is_in_order(w),
        is_in_order(w) && w.phase == WorkerPhase::Idle ==> is_in_order(
            after_request(w, gpu_scene, exact, effects).0,
        ),
        is_in_order(w) && w.phase != WorkerPhase::Idle ==> is_in_order(after_outcome(w, ok).0),
{
}

/// A part of the GPU that could not be opened is never tried again.
pub proof fn law_failed_gpu_is_left_alone(w: RenderWorker, ok: bool, gpu_scene: bool, exact: bool, effects: bool)
    requires
        is_in_order(w),
    ensures
        w.scene == GpuState::Failed ==> {
            &&& after_request(w, gpu_scene, exact, effects).0.scene == GpuState::Failed
            &&& after_request(w, gpu_scene, exact, effects).1 == WorkerStep::DrawOnCpu
            &&& after_outcome(w, ok).0.scene == GpuState::Failed
            &&& after_outcome(w, ok).1 != WorkerStep::OpenScene
        },
        w.effects == GpuState::Failed ==> {
            &&& after_request(w, gpu_scene, exact, effects).0.effects == GpuState::Failed
            &&& after_outcome(w, ok).0.effects == GpuState::Failed
            &&& after_outcome(w, ok).1 != WorkerStep::OpenEffects
        },
{
}

/// The GPU draws a scene only where it draws it exactly, and where it fails the CPU draws it.
pub proof fn law_gpu_draws_exact_scenes_only(w: RenderWorker, gpu_scene: bool, exact: bool, effects: bool)
    ensures
        !(gpu_scene && exact) ==> after_request(w, gpu_scene, exact, effects).1 == WorkerStep::DrawOnCpu,
        w.phase == WorkerPhase::DrawingOnGpu ==> after_outcome(w, false).1 == WorkerStep::DrawOnCpu,
        w.phase == WorkerPhase::OpeningScene ==> after_outcome(w, false).1 == WorkerStep::DrawOnCpu,
{
}

/// The state of an export as it is shown.
pub struct ExportStatus {
    pub exporting: bool,
    pub stage: String,
    pub message: String,
    /// The progress as a fraction.
    pub current: u32,
    pub total: u32,
    /// Whether it was said that the export is slow.
    pub stall_notified: bool,
}

impl ExportStatus {
    /// No export.
    pub fn idle() -> (r: Self)
        ensures
            !r.exporting,
            r.stage@ == Seq::<char>::empty(),
            r.message@ == Seq::<char>::empty(),
            r.current == 0,
            r.total == 1,
            !r.stall_notified,
    {
        ExportStatus {
            exporting: false,
            stage: String::new(),
            message: String::new(),
            current: 0,
            total: 1,
            stall_notified: false,
        }
    }

    /// Starts an export, if the project has a name; says whether it does.
    pub fn begin(&mut self, project_name: &str) -> (r: bool)
        ensures
            r == !crate::text::is_blank(project_name@),
            final(self).exporting == r,
            r ==> {
                &&& final(self).stage@ == "init"@
                &&& final(self).message@ == "Exporting layer GIFs and composite..."@
                &&& final(self).current == 0
                &&& final(self).total == 1
                &&& !final(self).stall_notified
            },
            !r ==> {
                &&& final(self).message@ == "Export requires a project name"@
                &&& final(self).stage == old(self).stage
                &&& final(self).current == old(self).current
                &&& final(self).total == old(self).total
                &&& final(self).stall_notified == old(self).stall_notified
            },
    {
        if crate::text::blank(project_name) {
            self.message = "Export requires a project name".to_owned();
            self.exporting = false;
            return false;
        }
        self.exporting = true;
        self.stage = "init".to_owned();
        self.message = "Exporting layer GIFs and composite...".to_owned();
        self.current = 0;
        self.total = 1;
        self.stall_notified = false;
        true
    }

    /// Takes a report. One without a total leaves the progress as it is; the last one ends
    /// the export.
    pub fn take(&mut self, update: ExportUpdate)
        ensures
            final(self).stage == update.stage,
            final(self).message == update.message,
            update.total > 0 ==> final(self).current == update.current && final(self).total == update.total,
            update.total == 0 ==> final(self).current == old(self).current && final(self).total == old(self).total,
            !final(self).stall_notified,
            final(self).exporting == (old(self).exporting && !update.done),
    {
        self.stage = update.stage;
        self.message = update.message;
        if update.total > 0 {
            self.current = update.current;
            self.total = update.total;
        }
        self.stall_notified = false;
        if update.done {
            self.exporting = false;
        }
    }

    /// Gives the export up, since its worker is gone.
    pub fn lose(&mut self)
        ensures
            !final(self).exporting,
            final(self).message@ == "Export failed: worker disconnected"@,
            final(self).current == 0,
            final(self).total == 1,
            final(self).stage == old(self).stage,
            final(self).stall_notified == old(self).stall_notified,
    {
        self.message = "Export failed: worker disconnected".to_owned();
        self.current = 0;
        self.total = 1;
        self.exporting = false;
    }

    /// Gives the export up, since its worker could not be started.
    pub fn refuse(&mut self, reason: &str)
        ensures
            !final(self).exporting,
            final(self).message@ == "Export thread error: "@ + reason@,
            final(self).current == 0,
            final(self).total == 1,
            final(self).stage == old(self).stage,
            final(self).stall_notified == old(self).stall_notified,
    {
        let mut text: String = "Export thread error: ".to_owned();
        text.append(reason);
        self.message = text;
        self.current = 0;
        self.total = 1;
        self.exporting = false;
    }

    /// Says once that the export is slow, when nothing was heard of it for too long. The caller
    /// asks while an export ran as it last looked, also where its worker was just lost.
    pub fn notice_stall(&mut self, late: bool, percent: u32)
        ensures
            final(self).exporting == old(self).exporting,
            final(self).stage == old(self).stage,
            final(self).current == old(self).current,
            final(self).total == old(self).total,
            final(self).stall_notified == (old(self).stall_notified || late),
            (late && !old(self).stall_notified) ==> final(self).message@
                == "Export is very slow at "@ + digits(percent as nat) + "% (stage: "@ + (if old(self).stage@.len()
                == 0 { "unknown"@ } else { old(self).stage@ }) + "). Still rendering frames..."@,
            !(late && !old(self).stall_notified) ==> final(self).message == old(self).message,
    {
        if !late || self.stall_notified {
            return;
        }
        self.stall_notified = true;
        let mut text: String = "Export is very slow at ".to_owned();
        text.append(decimal(percent as u64).as_str());
        text.append("% (stage: ");
        if chars_of(self.stage.as_str()).len() == 0 {
            text.append("unknown");
        } else {
            text.append(self.stage.as_str());
        }
        text.append("). Still rendering frames...");
        self.message = text;
    }
}

/// The frame rate stays within 1 and 240, never falls when the cap or the boost rises, is the
/// cap itself without smoothing, and with it at least twice the cap and the product with the
/// boost, as far as 240 goes.
pub proof fn law_frame_rate(cap: u32, boost: u32, more: u32, stronger: u32)
    requires
        cap <= more,
        boost <= stronger,
    ensures
        1 <= output_fps(cap, true, boost) <= 240,
        1 <= output_fps(cap, false, boost) <= 240,
        output_fps(cap, true, boost) <= output_fps(more, true, stronger),
        1 <= cap <= 240 ==> output_fps(cap, false, boost) == cap,
        cap >= 240 ==> output_fps(cap, false, boost) == 240,
        1 <= cap <= 120 ==> output_fps(cap, true, boost) >= 2 * cap,
        1 <= cap && 2 <= boost && cap * boost <= 240 ==> output_fps(cap, true, boost) == cap * boost,
        1 <= cap && 2 <= boost && cap * boost >= 240 ==> output_fps(cap, true, boost) == 240,
{
    let base = if cap < 1 { 1 } else { cap as int };
    let factor = if boost < 2 { 2 } else { boost as int };
    let base2 = if more < 1 { 1 } else { more as int };
    let factor2 = if stronger < 2 { 2 } else { stronger as int };
    assert(2 * base <= base * factor <= base2 * factor2) by (nonlinear_arith)
        requires
            1 <= base <= base2,
            2 <= factor <= factor2,
    ;
    assert(base * 1 == base);
}

/// A number is read as it was written, whatever white space stands around it; one beyond 32 bits
/// is not.
pub proof fn law_entered_numbers_are_read(n: nat, lead: Seq<char>, trail: Seq<char>)
    requires
        forall|i: int| 0 <= i < lead.len() ==> CharClass::White.holds(#[trigger] lead[i]),
        forall|i: int| 0 <= i < trail.len() ==> CharClass::White.holds(#[trigger] trail[i]),
    ensures
        entered_number(lead + digits(n) + trail) == (if n <= u32::MAX { Some(n as u32) } else { None }),
{
    law_digits_stand_for_the_number(n);
    law_written_numbers_are_read(n);
    assert('0' <= digits(n)[0] <= '9');
    assert('0' <= digits(n)[digits(n).len() - 1] <= '9');
    law_strip_keeps_what_is_between(lead, digits(n), trail, CharClass::White);
}

proof fn lemma_whole_ratio(a: nat, b: nat, q: nat)
    requires
        b > 0,
        a == q * b,
        q < SIGNIFICAND_LIMIT,
    ensures
        nearest_whole(rounded_ratio(a, b)) == q,
{
    let half: nat = 0x8000_0000_0000_0000;
    let wide = a * half;
    assert(wide == (q * half) * b) by (nonlinear_arith)
        requires
            a == q * b,
            wide == a * half,
    ;
    vstd::arithmetic::div_mod::lemma_div_multiples_vanish((q * half) as int, b as int);
    vstd::arithmetic::div_mod::lemma_mod_multiples_basic((q * half) as int, b as int);
    assert(b * (q * half) == (q * half) * b) by (nonlinear_arith);
    assert(wide / b == q * half);
    assert(wide % b == 0);
    lemma_full_units_are_exact(q);
}

/// A spacing that comes out even is suggested as it is, and one of more than the loop gives the
/// loop itself.
#[verifier::rlimit(50)]
pub proof fn law_even_spacings_are_kept(loop_s: u32, spacing: u32)
    requires
        1 <= loop_s < 0x100_0000,
        1 <= spacing < 0x100_0000,
    ensures
        loop_s % spacing == 0 ==> suggested_spacing(loop_s, spacing) == spacing,
        spacing >= loop_s ==> suggested_spacing(loop_s, spacing) == loop_s,
{
    crate::rounding::law_small_numbers_are_exact(loop_s as nat);
    crate::rounding::law_small_numbers_are_exact(spacing as nat);
    let n = loop_s as nat;
    let k = spacing as nat;
    if loop_s % spacing == 0 {
        let q = n / k;
        vstd::arithmetic::div_mod::lemma_fundamental_div_mod(n as int, k as int);
        assert(n == q * k) by (nonlinear_arith)
            requires
                n == k * q + 0,
        ;
        assert(1 <= q <= n) by (nonlinear_arith)
            requires
                n == q * k,
                n >= 1,
                k >= 1,
        ;
        lemma_whole_ratio(n, k, q);
        assert(n == k * q) by (nonlinear_arith)
            requires
                n == q * k,
        ;
        lemma_whole_ratio(n, q, k);
    }
    if spacing >= loop_s {
        lemma_whole_ratio(k, k, 1);
        lemma_ratio_is_monotone(n, k, k);
        let fit = nearest_whole(rounded_ratio(n, k));
        assert(fit <= 1);
        lemma_whole_ratio(n, 1, n);
    }
}

/// Effects are applied where they are wanted and can be, and only there; that they cannot be never
/// costs the frame. A grey frame is sent only where the CPU failed to draw.
pub proof fn law_effects_are_applied_where_wanted(w: RenderWorker, ok: bool)
    ensures
        !w.effects_wanted ==> after_drawing(w).1 == WorkerStep::SendFrame,
        w.effects_wanted && w.effects == GpuState::Ready ==> after_drawing(w).1 == WorkerStep::ApplyEffects,
        w.effects_wanted && w.effects == GpuState::Untried ==> after_drawing(w).1 == WorkerStep::OpenEffects,
        w.effects == GpuState::Failed ==> after_drawing(w).1 == WorkerStep::SendFrame,
        after_drawing(w).0.effects == w.effects && after_drawing(w).0.scene == w.scene,
        w.phase == WorkerPhase::OpeningEffects ==> after_outcome(w, ok).1 == (if ok {
            WorkerStep::ApplyEffects
        } else {
            WorkerStep::SendFrame
        }),
        w.phase == WorkerPhase::ApplyingEffects ==> after_outcome(w, ok).1 == WorkerStep::SendFrame,
        after_outcome(w, ok).1 == WorkerStep::SendGrey <==> w.phase == WorkerPhase::DrawingOnCpu && !ok,
        w.phase == WorkerPhase::DrawingOnCpu && ok || w.phase == WorkerPhase::DrawingOnGpu && ok ==> after_outcome(w, ok)
            == after_drawing(w),
{
}

/// A request is remembered with its wish for effects, and leaves what is known of the GPU; an
/// enabled and exact scene is drawn on an open GPU, and one that was not tried is opened first and
/// then drawn on.
pub proof fn law_requests_use_the_gpu(w: RenderWorker, gpu_scene: bool, exact: bool, effects: bool)
    ensures
        after_request(w, gpu_scene, exact, effects).0.effects_wanted == effects,
        after_request(w, gpu_scene, exact, effects).0.scene == w.scene,
        after_request(w, gpu_scene, exact, effects).0.effects == w.effects,
        gpu_scene && exact && w.scene == GpuState::Ready ==> after_request(w, gpu_scene, exact, effects).1
            == WorkerStep::DrawOnGpu,
        gpu_scene && exact && w.scene == GpuState::Untried ==> {
            let opening = after_request(w, gpu_scene, exact, effects);
            &&& opening.1 == WorkerStep::OpenScene
            &&& after_outcome(opening.0, true).1 == WorkerStep::DrawOnGpu
            &&& after_outcome(opening.0, true).0.scene == GpuState::Ready
            &&& after_outcome(opening.0, true).0.effects_wanted == effects
            &&& after_outcome(opening.0, false).1 == WorkerStep::DrawOnCpu
            &&& after_outcome(opening.0, false).0.scene == GpuState::Failed
        },
{
}

/// The last frame of the worker leaves it ready for another: from any request, whatever the
/// outcomes, it sends one after at most five.
pub proof fn law_requests_are_answered(w: RenderWorker, gpu_scene: bool, exact: bool, effects: bool)
    ensures
        0 < steps_left(after_request(w, gpu_scene, exact, effects).0) <= 5,
        after_request(w, gpu_scene, exact, effects).0.phase != WorkerPhase::Idle,
{
}

/// No two moods are described alike.
pub proof fn law_mood_texts_differ(a: LightingPreset, b: LightingPreset)
    ensures
        mood_text(a) == mood_text(b) <==> a == b,
{
    reveal_strlit(
        "Will set neutral ambient/atmo defaults, enable sun+clouds, and keep moderate shadow-follow behavior.",
    );
    reveal_strlit(
        "Will warm sky/sun/cloud tint, increase atmospheric tint influence, and lengthen prop shadows.",
    );
    reveal_strlit(
        "Will raise ambient light, reduce atmospheric tinting, and shorten prop shadows for overhead sun.",
    );
    reveal_strlit(
        "Will lower ambient light, boost atmospheric influence, enable moon+stars mood, and deepen/extend shadows.",
    );
    assert(mood_text(a).len() != mood_text(b).len() || mood_text(a)[5] != mood_text(b)[5] || a == b);
}

/// A side halfway between two multiples of 16 goes up, a longer side never comes out shorter, and
/// sides beyond the limits come out at them, the lower one at the next multiple.
pub proof fn law_sides_snap_upwards(v: u32, longer: u32)
    requires
        v <= longer,
    ensures
        snapped_side(v) <= snapped_side(longer),
        360 <= v <= 3840 ==> -8 < snapped_side(v) - v <= 8,
        360 <= v <= 3840 && v % 16 == 0 ==> snapped_side(v) == v,
        v >= 3840 ==> snapped_side(v) == 3840,
        v <= 360 ==> snapped_side(v) == 368,
{
}

#[verifier::rlimit(50)]
proof fn lemma_nearest_ratio(a: nat, b: nat)
    requires
        0 < a < 0x40_0000,
        0 < b <= 0x1_0000_0000,
    ensures
        ({
            let n = nearest_whole(rounded_ratio(a, b));
            -b <= 2 * (n * b - a) <= b
        }),
{
    let half: nat = 0x8000_0000_0000_0000;
    let unit: nat = 0x1_0000_0000_0000_0000;
    let wide = a * half;
    let q = wide / b;
    let rest = wide % b;
    vstd::arithmetic::div_mod::lemma_fundamental_div_mod(wide as int, b as int);
    vstd::arithmetic::div_mod::lemma_mod_bound(wide as int, b as int);
    let raw = 2 * q + (if rest == 0 { 0nat } else { 1nat });
    crate::rounding::law_rounding_error(raw);
    crate::rounding::lemma_spacing_relative(raw);
    let r = rounded(raw);
    let n = nearest_whole(r);
    let e: int = r - raw;
    assert(b * q == q * b) by (nonlinear_arith);
    assert(-b <= raw * b - a * unit <= b) by (nonlinear_arith)
        requires
            wide == a * half,
            unit == 2 * half,
            wide == b * q + rest,
            0 <= rest < b,
            raw == 2 * q + (if rest == 0 { 0nat } else { 1nat }),
            b > 0,
    ;
    assert(n * unit <= r + half && r + half < n * unit + unit);
    if crate::rounding::spacing(raw) == 1 {
        assert(-1 <= 2 * e <= 1);
        assert(e == 0);
    } else {
        assert(0x100_0000 * e <= raw && -raw <= 0x100_0000 * e);
    }
    lemma_ratio_bounds(a, b, raw as int, e, n as int);
}

#[verifier::rlimit(50)]
proof fn lemma_ratio_bounds(a: nat, b: nat, raw: int, e: int, n: int)
    requires
        0 < a < 0x40_0000,
        0 < b,
        raw >= 0,
        -b <= raw * b - a * 0x1_0000_0000_0000_0000 <= b,
        0x100_0000 * e <= raw,
        -raw <= 0x100_0000 * e,
        n * 0x1_0000_0000_0000_0000 <= raw + e + 0x8000_0000_0000_0000,
        raw + e + 0x8000_0000_0000_0000 < n * 0x1_0000_0000_0000_0000 + 0x1_0000_0000_0000_0000,
        b <= 0x1_0000_0000,
    ensures
        -b <= 2 * (n * b - a) <= b,
{
    let unit: int = 0x1_0000_0000_0000_0000;
    let x = raw * b;
    let y = e * b;
    assert(0x100_0000 * y <= x && -x <= 0x100_0000 * y) by (nonlinear_arith)
        requires
            x == raw * b,
            y == e * b,
            0x100_0000 * e <= raw,
            -raw <= 0x100_0000 * e,
            b > 0,
    ;
    assert(2 * (n * b) * unit <= 2 * x + 2 * y + b * unit) by (nonlinear_arith)
        requires
            n * unit <= raw + e + 0x8000_0000_0000_0000,
            x == raw * b,
            y == e * b,
            unit == 0x1_0000_0000_0000_0000,
            b > 0,
    ;
    assert(2 * x + 2 * y < 2 * (n * b) * unit + b * unit) by (nonlinear_arith)
        requires
            raw + e + 0x8000_0000_0000_0000 < n * unit + unit,
            x == raw * b,
            y == e * b,
            unit == 0x1_0000_0000_0000_0000,
            b > 0,
    ;
    let p = n * b;
    assert(x <= a * unit + b);
    assert(0x100_0000 * y <= a * unit + b);
    assert(4 * y < unit);
    assert(-4 * y < unit);
    assert(2 * p * unit <= 2 * a * unit + 2 * b + 2 * y + b * unit);
    assert(2 * p <= 2 * a + b);
    assert(2 * a + -b <= 2 * p);
}

/// The suggested spacing comes out about even: it is the nearest to the loop over a count, which is
/// the nearest to the loop over the spacing that was asked for, and one for a spacing of more than
/// two loops.
#[verifier::rlimit(50)]
pub proof fn law_suggested_spacing_is_nearest(loop_s: u32, spacing: u32)
    requires
        1 <= loop_s < 0x40_0000,
        1 <= spacing < 0x40_0000,
    ensures
        exists|count: int|
            #![trigger count * spacing]
            {
                &&& count >= 1
                &&& -spacing <= 2 * (count * spacing - loop_s)
                &&& 2 * (count * spacing - loop_s) <= spacing || (count == 1 && spacing >= 2 * loop_s)
                &&& -count <= 2 * (suggested_spacing(loop_s, spacing) * count - loop_s) <= count
            },
{
    crate::rounding::law_small_numbers_are_exact(loop_s as nat);
    crate::rounding::law_small_numbers_are_exact(spacing as nat);
    let n = loop_s as nat;
    let k = spacing as nat;
    lemma_nearest_ratio(n, k);
    let fit = nearest_whole(rounded_ratio(n, k));
    let count = if fit < 1 { 1 } else { fit };
    assert(count <= 0x1_0000_0000) by (nonlinear_arith)
        requires
            2 * (fit * k - n) <= k,
            n < 0x40_0000,
            k >= 1,
            count == (if fit < 1 { 1 } else { fit }),
    ;
    lemma_nearest_ratio(n, count);
    let share = nearest_whole(rounded_ratio(n, count));
    assert(share * count <= 0x80_0000) by (nonlinear_arith)
        requires
            2 * (share * count - n) <= count,
            2 * (fit * k - n) <= k,
            n < 0x40_0000,
            k >= 1,
            k < 0x40_0000,
            count == (if fit < 1 { 1 } else { fit }),
    ;
    assert(share >= 1) by (nonlinear_arith)
        requires
            -count <= 2 * (share * count - n),
            2 * (fit * k - n) <= k,
            n >= 1,
            k >= 1,
            count == (if fit < 1 { 1 } else { fit }),
    ;
    assert(share <= 0x80_0000) by (nonlinear_arith)
        requires
            share * count <= 0x80_0000,
            count >= 1,
    ;
    let c: int = count as int;
    assert(suggested_spacing(loop_s, spacing) == share);
    assert(c * spacing == count * k);
    assert(share * c == share * count);
    if fit < 1 {
        assert(fit * k == 0) by (nonlinear_arith)
            requires
                fit == 0,
        ;
        assert(c * spacing == spacing);
        assert(2 * n <= k);
    }
    assert(-c <= 2 * (suggested_spacing(loop_s, spacing) * c - loop_s) <= c);
}

/// Nothing is sent while a frame is under way or nothing changed. Waiting counts while playing alone:
/// there a changed picture is sent when the time has passed, and otherwise at once.
pub proof fn law_frames_are_sent_when_due(dirty: bool, pending: bool, playing: bool, waited: bool)
    ensures
        pending ==> !is_due(dirty, pending, playing, waited),
        !dirty ==> !is_due(dirty, pending, playing, waited),
        is_due(dirty, pending, false, true) == is_due(dirty, pending, false, false),
        !is_due(dirty, pending, true, false),
        is_due(dirty, pending, true, true) == is_due(dirty, pending, false, waited),
        is_due(true, false, playing, true),
{
}

} // verus!
