//! The export of a project: a GIF for each layer that shows something, a composite of
//! all, and the reports on how far it is.
use vstd::prelude::*;
use vstd::string::StringExecFns;

use crate::layers::{
    layer_has_atmo, layer_has_floor, layer_has_props, layer_has_sky, layer_has_walls, shows_atmo, shows_props,
    shows_sky, shows_sprite, supports_exact_scene_parity, RenderLayers,
};
use crate::settings::PathForgeSettings;
use crate::text::{decimal, digits, join, joined};

verus! {

/// A report on an export.
#[derive(Clone, Debug)]
pub struct ExportUpdate {
    pub stage: String,
    pub message: String,
    pub current: u32,
    pub total: u32,
    pub done: bool,
    pub failed: bool,
}

/// Whether a report has the given contents.
pub open spec fn reports(
    u: ExportUpdate,
    stage: Seq<char>,
    message: Seq<char>,
    current: int,
    total: int,
    done: bool,
    failed: bool,
) -> bool {
    &&& u.stage@ == stage
    &&& u.message@ == message
    &&& u.current == current
    &&& u.total == total
    &&& u.done == done
    &&& u.failed == failed
}

fn report(stage: &str, message: String, current: u32, total: u32, done: bool, failed: bool) -> (r: ExportUpdate)
    ensures
        reports(r, stage@, message@, current as int, total as int, done, failed),
{
    ExportUpdate { stage: stage.to_owned(), message, current, total, done, failed }
}

/// A text of two parts.
fn two(a: &str, b: &str) -> (r: String)
    ensures
        r@ == a@ + b@,
{
    let mut m: String = a.to_owned();
    m.append(b);
    m
}

/// The GIFs of a project, in the order in which they are made.
#[derive(Clone, Copy, Debug, PartialEq, Eq, Structural)]
pub enum ProjectLayer {
    Sky,
    PathFloor,
    Walls,
    Atmosphere,
    Props,
    Composite,
}

impl ProjectLayer {
    /// The name in reports.
    pub open spec fn title(self) -> Seq<char> {
        match self {
            ProjectLayer::Sky => "sky"@,
            ProjectLayer::PathFloor => "path_floor"@,
            ProjectLayer::Walls => "walls"@,
            ProjectLayer::Atmosphere => "atmosphere"@,
            ProjectLayer::Props => "props"@,
            ProjectLayer::Composite => "composite_layered"@,
        }
    }

    /// The name in reports.
    pub fn name(&self) -> (r: &'static str)
        ensures
            r@ == self.title(),
    {
        match self {
            ProjectLayer::Sky => "sky",
            ProjectLayer::PathFloor => "path_floor",
            ProjectLayer::Walls => "walls",
            ProjectLayer::Atmosphere => "atmosphere",
            ProjectLayer::Props => "props",
            ProjectLayer::Composite => "composite_layered",
        }
    }

    /// The name of the file.
    pub fn file_name(&self) -> (r: &'static str)
        ensures
            r@ == (match *self {
                ProjectLayer::Sky => "01_sky.gif"@,
                ProjectLayer::PathFloor => "02_path_floor.gif"@,
                ProjectLayer::Walls => "03_walls.gif"@,
                ProjectLayer::Atmosphere => "04_atmosphere.gif"@,
                ProjectLayer::Props => "05_props.gif"@,
                ProjectLayer::Composite => "06_composite_layered.gif"@,
            }),
    {
        match self {
            ProjectLayer::Sky => "01_sky.gif",
            ProjectLayer::PathFloor => "02_path_floor.gif",
            ProjectLayer::Walls => "03_walls.gif",
            ProjectLayer::Atmosphere => "04_atmosphere.gif",
            ProjectLayer::Props => "05_props.gif",
            ProjectLayer::Composite => "06_composite_layered.gif",
        }
    }

    /// The place in the order of the GIFs.
    pub open spec fn index(self) -> int {
        match self {
            ProjectLayer::Sky => 0,
            ProjectLayer::PathFloor => 1,
            ProjectLayer::Walls => 2,
            ProjectLayer::Atmosphere => 3,
            ProjectLayer::Props => 4,
            ProjectLayer::Composite => 5,
        }
    }
}

/// The layer at a place in the order.
pub open spec fn layer_of(step: int) -> ProjectLayer {
    if step == 0 {
        ProjectLayer::Sky
    } else if step == 1 {
        ProjectLayer::PathFloor
    } else if step == 2 {
        ProjectLayer::Walls
    } else if step == 3 {
        ProjectLayer::Atmosphere
    } else if step == 4 {
        ProjectLayer::Props
    } else {
        ProjectLayer::Composite
    }
}

fn layer_at(step: u32) -> (r: ProjectLayer)
    ensures
        r == layer_of(step as int),
{
    match step {
        0 => ProjectLayer::Sky,
        1 => ProjectLayer::PathFloor,
        2 => ProjectLayer::Walls,
        3 => ProjectLayer::Atmosphere,
        4 => ProjectLayer::Props,
        _ => ProjectLayer::Composite,
    }
}

/// Which layers of a scene show something.
#[derive(Clone, Copy, Debug, PartialEq, Eq, Structural)]
pub struct Contents {
    pub sky: bool,
    pub floor: bool,
    pub walls: bool,
    pub atmo: bool,
    pub props: bool,
}

impl Contents {
    /// Whether the layer at a place in the order shows something.
    pub open spec fn has(self, step: int) -> bool {
        match layer_of(step) {
            ProjectLayer::Sky => self.sky,
            ProjectLayer::PathFloor => self.floor,
            ProjectLayer::Walls => self.walls,
            ProjectLayer::Atmosphere => self.atmo,
            ProjectLayer::Props => self.props,
            ProjectLayer::Composite => true,
        }
    }

    /// The number of the first `step` layers that show something.
    pub open spec fn count(self, step: int) -> int
        decreases step,
    {
        if step <= 0 {
            0
        } else {
            self.count(step - 1) + (if self.has(step - 1) { 1int } else { 0 })
        }
    }

    /// Finds the layers of a scene that show something.
    pub fn of<N>(settings: &PathForgeSettings<N>) -> (r: Self)
        ensures
            r == (Contents {
                sky: shows_sky(*settings),
                floor: true,
                walls: settings.walls.enabled,
                atmo: shows_atmo(*settings),
                props: shows_props(*settings),
            }),
    {
        Contents {
            sky: layer_has_sky(settings),
            floor: layer_has_floor(settings),
            walls: layer_has_walls(settings),
            atmo: layer_has_atmo(settings),
            props: layer_has_props(settings),
        }
    }

    fn has_layer(&self, layer: ProjectLayer) -> (r: bool)
        ensures
            r == self.has(layer.index()),
    {
        match layer {
            ProjectLayer::Sky => self.sky,
            ProjectLayer::PathFloor => self.floor,
            ProjectLayer::Walls => self.walls,
            ProjectLayer::Atmosphere => self.atmo,
            ProjectLayer::Props => self.props,
            ProjectLayer::Composite => true,
        }
    }

    /// What is drawn for a GIF.
    pub open spec fn drawn_for(self, layer: ProjectLayer) -> RenderLayers {
        let all = layer == ProjectLayer::Composite;
        RenderLayers {
            sky: layer == ProjectLayer::Sky || (all && self.sky),
            floor: layer == ProjectLayer::PathFloor || (all && self.floor),
            walls: layer == ProjectLayer::Walls || (all && self.walls),
            atmo: layer == ProjectLayer::Atmosphere || (all && self.atmo),
            props: layer == ProjectLayer::Props || (all && self.props),
            post: false,
        }
    }

    /// What is drawn for a GIF: one layer alone, or for the composite all that show
    /// something, without the effects of the finished picture.
    pub fn layers_for(&self, layer: ProjectLayer) -> (r: RenderLayers)
        ensures
            r == self.drawn_for(layer),
            r == (match layer {
                ProjectLayer::Sky => RenderLayers {
                    sky: true,
                    floor: false,
                    walls: false,
                    atmo: false,
                    props: false,
                    post: false,
                },
                ProjectLayer::PathFloor => RenderLayers {
                    sky: false,
                    floor: true,
                    walls: false,
                    atmo: false,
                    props: false,
                    post: false,
                },
                ProjectLayer::Walls => RenderLayers {
                    sky: false,
                    floor: false,
                    walls: true,
                    atmo: false,
                    props: false,
                    post: false,
                },
                ProjectLayer::Atmosphere => RenderLayers {
                    sky: false,
                    floor: false,
                    walls: false,
                    atmo: true,
                    props: false,
                    post: false,
                },
                ProjectLayer::Props => RenderLayers {
                    sky: false,
                    floor: false,
                    walls: false,
                    atmo: false,
                    props: true,
                    post: false,
                },
                ProjectLayer::Composite => RenderLayers {
                    sky: self.sky,
                    floor: self.floor,
                    walls: self.walls,
                    atmo: self.atmo,
                    props: self.props,
                    post: false,
                },
            }),
    {
        match layer {
            ProjectLayer::Composite => RenderLayers {
                sky: self.sky,
                floor: self.floor,
                walls: self.walls,
                atmo: self.atmo,
                props: self.props,
                post: false,
            },
            _ => RenderLayers {
                sky: layer == ProjectLayer::Sky,
                floor: layer == ProjectLayer::PathFloor,
                walls: layer == ProjectLayer::Walls,
                atmo: layer == ProjectLayer::Atmosphere,
                props: layer == ProjectLayer::Props,
                post: false,
            },
        }
    }
}

/// Whether the GPU draws the frames of a GIF.
pub open spec fn is_drawn_on_gpu<N>(
    gpu_scene_enabled: bool,
    s: PathForgeSettings<N>,
    composite: bool,
    layers: RenderLayers,
) -> bool {
    &&& gpu_scene_enabled
    &&& !shows_sprite(s)
    &&& composite || layers.is_all()
}

/// Whether the GPU draws the frames of a GIF: only where it is enabled and draws the scene
/// exactly as the CPU does, and for a single layer only where that is the whole picture.
pub fn uses_gpu_scene<N>(
    gpu_scene_enabled: bool,
    settings: &PathForgeSettings<N>,
    composite: bool,
    layers: &RenderLayers,
) -> (r: bool)
    ensures
        r == is_drawn_on_gpu(gpu_scene_enabled, *settings, composite, *layers),
        r == (gpu_scene_enabled && !shows_sprite(*settings) && (composite || layers.is_all())),
{
    gpu_scene_enabled && supports_exact_scene_parity(settings) && (composite || layers.covers_everything())
}

/// What the caller has to do next.
pub enum ProjectAction {
    /// Hand on a report and ask again.
    Tell(ExportUpdate),
    /// Make a GIF, after handing on the report if there is one, and report the outcome.
    Make(ProjectLayer, Option<ExportUpdate>),
    /// Nothing is left but the conclusion.
    Conclude,
}

/// The export of a project, GIF by GIF.
pub struct ProjectExport {
    contents: Contents,
    individual: bool,
    step: u32,
    generated: Vec<String>,
    failed: Vec<String>,
    skipped: Vec<String>,
    frame_count: usize,
    completed: u32,
    total: u32,
}

impl ProjectExport {
    /// Which layers show something.
    pub closed spec fn contents(&self) -> Contents {
        self.contents
    }

    /// Whether each layer gets a GIF of its own.
    pub closed spec fn individual(&self) -> bool {
        self.individual
    }

    /// The place in the order of the GIFs; six once all are dealt with.
    pub closed spec fn step(&self) -> int {
        self.step as int
    }

    /// The GIFs that were made.
    pub closed spec fn generated(&self) -> Seq<String> {
        self.generated@
    }

    /// The GIFs that failed, with the reasons.
    pub closed spec fn failures(&self) -> Seq<String> {
        self.failed@
    }

    /// The GIFs that were passed over.
    pub closed spec fn skipped(&self) -> Seq<String> {
        self.skipped@
    }

    /// The number of frames of the first GIF that was made.
    pub closed spec fn frame_count(&self) -> nat {
        self.frame_count as nat
    }

    /// The number of GIFs that were made or failed.
    pub closed spec fn completed(&self) -> int {
        self.completed as int
    }

    /// The number of GIFs to make.
    pub closed spec fn total(&self) -> int {
        self.total as int
    }

    /// The counts are those of the lists, and every GIF up to here is in one of them.
    pub closed spec fn wf(&self) -> bool {
        &&& 0 <= self.step <= 6
        &&& self.total == (if self.individual { self.contents.count(5) } else { 0 }) + 1
        &&& self.completed == self.generated@.len() + self.failed@.len()
        &&& self.completed == (if self.individual { self.contents.count(if self.step < 5 { self.step as int } else { 5 })
        } else { 0 }) + (if self.step == 6 { 1int } else { 0 })
        &&& self.skipped@.len() + self.completed == self.step
        &&& !self.individual ==> (self.step == 0 || self.step >= 5)
    }

    /// Starts the export of a project.
    pub fn start(contents: Contents, individual: bool) -> (r: Self)
        ensures
            r.wf(),
            r.contents() == contents,
            r.individual() == individual,
            r.step() == 0,
            r.generated().len() == 0,
            r.failures().len() == 0,
            r.skipped().len() == 0,
            r.frame_count() == 0,
            r.total() == (if individual { contents.count(5) } else { 0 }) + 1,
    {
        let mut total: u32 = 1;
        if individual {
            let mut step: u32 = 0;
            while step < 5
                invariant
                    0 <= step <= 5,
                    total == contents.count(step as int) + 1,
                    total <= 1 + step,
                decreases 5 - step,
            {
                if contents.has_layer(layer_at(step)) {
                    total = total + 1;
                }
                step = step + 1;
            }
        }
        ProjectExport {
            contents,
            individual,
            step: 0,
            generated: Vec::new(),
            failed: Vec::new(),
            skipped: Vec::new(),
            frame_count: 0,
            completed: 0,
            total,
        }
    }

    /// Finds out what to do next. A layer that shows nothing is passed over with a report;
    /// without GIFs of their own, all layers are passed over at once.
    pub fn next_action(&mut self) -> (r: ProjectAction)
        requires
            old(self).wf(),
        ensures
            final(self).wf(),
            final(self).contents() == old(self).contents(),
            final(self).individual() == old(self).individual(),
            final(self).generated() == old(self).generated(),
            final(self).failures() == old(self).failures(),
            final(self).frame_count() == old(self).frame_count(),
            final(self).completed() == old(self).completed(),
            final(self).total() == old(self).total(),
            ({
                let step = old(self).step();
                let layer = layer_of(step);
                if step >= 6 {
                    &&& r is Conclude
                    &&& final(self).step() == step
                    &&& final(self).skipped() == old(self).skipped()
                } else if step == 5 {
                    &&& r matches ProjectAction::Make(l, update)
                    &&& l == ProjectLayer::Composite
                    &&& update is None
                    &&& final(self).step() == step
                    &&& final(self).skipped() == old(self).skipped()
                } else if !old(self).individual() {
                    &&& r matches ProjectAction::Tell(update)
                    &&& reports(
                        update,
                        "composite_layered"@,
                        "Fast export mode: skipping individual layer GIFs"@,
                        0,
                        old(self).total(),
                        false,
                        false,
                    )
                    &&& final(self).step() == 5
                    &&& final(self).skipped().len() == old(self).skipped().len() + 5
                    &&& forall|i: int|
                        0 <= i < 5 ==> #[trigger] final(self).skipped()[old(self).skipped().len() + i]@ == layer_of(
                            i,
                        ).title()
                    &&& forall|i: int|
                        0 <= i < old(self).skipped().len() ==> final(self).skipped()[i] == old(self).skipped()[i]
                } else if !old(self).contents().has(step) {
                    &&& r matches ProjectAction::Tell(update)
                    &&& reports(
                        update,
                        layer.title(),
                        "Skipping "@ + layer.title() + " (disabled/empty)"@,
                        old(self).completed(),
                        old(self).total(),
                        false,
                        false,
                    )
                    &&& final(self).step() == step + 1
                    &&& final(self).skipped().len() == old(self).skipped().len() + 1
                    &&& final(self).skipped().drop_last() == old(self).skipped()
                    &&& final(self).skipped().last()@ == layer.title()
                } else {
                    &&& r matches ProjectAction::Make(l, update)
                    &&& l == layer
                    &&& update matches Some(u)
                    &&& reports(u, layer.title(), "Starting "@ + layer.title(), 0, 1, false, false)
                    &&& final(self).step() == step
                    &&& final(self).skipped() == old(self).skipped()
                }
            }),
    {
        if self.step >= 6 {
            return ProjectAction::Conclude;
        }
        if self.step == 5 {
            return ProjectAction::Make(ProjectLayer::Composite, None);
        }
        if !self.individual {
            self.skipped.push("sky".to_owned());
            self.skipped.push("path_floor".to_owned());
            self.skipped.push("walls".to_owned());
            self.skipped.push("atmosphere".to_owned());
            self.skipped.push("props".to_owned());
            self.step = 5;
            return ProjectAction::Tell(
                report(
                    "composite_layered",
                    "Fast export mode: skipping individual layer GIFs".to_owned(),
                    0,
                    self.total,
                    false,
                    false,
                ),
            );
        }
        let layer: ProjectLayer = layer_at(self.step);
        if !self.contents.has_layer(layer) {
            let ghost before = self.skipped@;
            self.skipped.push(layer.name().to_owned());
            assert(self.skipped@.drop_last() == before);
            self.step = self.step + 1;
            let mut message: String = two("Skipping ", layer.name());
            message.append(" (disabled/empty)");
            ProjectAction::Tell(report(layer.name(), message, self.completed, self.total, false, false))
        } else {
            let message: String = two("Starting ", layer.name());
            ProjectAction::Make(layer, Some(report(layer.name(), message, 0, 1, false, false)))
        }
    }

    /// Whether a GIF is to be made at this point.
    pub open spec fn is_making(&self) -> bool {
        &&& self.step() <= 5
        &&& self.step() == 5 || (self.individual() && self.contents().has(self.step()))
    }

    /// Records that the GIF in progress was made, with a number of frames.
    pub fn made(&mut self, frames: usize) -> (r: ExportUpdate)
        requires
            old(self).wf(),
            old(self).is_making(),
        ensures
            final(self).wf(),
            final(self).contents() == old(self).contents(),
            final(self).individual() == old(self).individual(),
            final(self).step() == old(self).step() + 1,
            final(self).generated().len() == old(self).generated().len() + 1,
            final(self).generated().drop_last() == old(self).generated(),
            final(self).generated().last()@ == layer_of(old(self).step()).title(),
            final(self).failures() == old(self).failures(),
            final(self).skipped() == old(self).skipped(),
            final(self).frame_count() == (if old(self).frame_count() == 0 { frames as nat } else { old(
                self,
            ).frame_count() }),
            final(self).completed() == old(self).completed() + 1,
            final(self).total() == old(self).total(),
            reports(
                r,
                layer_of(old(self).step()).title(),
                "Finished "@ + layer_of(old(self).step()).title(),
                old(self).completed() + 1,
                old(self).total(),
                false,
                false,
            ),
    {
        proof {
            lemma_count_bound(self.contents, 5);
            lemma_count_bound(self.contents, self.step as int);
        }
        let layer: ProjectLayer = layer_at(self.step);
        if self.frame_count == 0 {
            self.frame_count = frames;
        }
        let ghost before = self.generated@;
        self.generated.push(layer.name().to_owned());
        assert(self.generated@.drop_last() == before);
        self.completed = self.completed + 1;
        self.step = self.step + 1;
        report(layer.name(), two("Finished ", layer.name()), self.completed, self.total, false, false)
    }

    /// Records that the GIF in progress failed, with the reason.
    pub fn failed(&mut self, reason: &str) -> (r: ExportUpdate)
        requires
            old(self).wf(),
            old(self).is_making(),
        ensures
            final(self).wf(),
            final(self).contents() == old(self).contents(),
            final(self).individual() == old(self).individual(),
            final(self).step() == old(self).step() + 1,
            final(self).generated() == old(self).generated(),
            final(self).failures().len() == old(self).failures().len() + 1,
            final(self).failures().drop_last() == old(self).failures(),
            final(self).failures().last()@ == layer_of(old(self).step()).title() + " ("@ + reason@ + ")"@,
            final(self).skipped() == old(self).skipped(),
            final(self).frame_count() == old(self).frame_count(),
            final(self).completed() == old(self).completed() + 1,
            final(self).total() == old(self).total(),
            reports(
                r,
                layer_of(old(self).step()).title(),
                "Failed "@ + layer_of(old(self).step()).title() + ": "@ + reason@,
                old(self).completed() + 1,
                old(self).total(),
                false,
                true,
            ),
    {
        proof {
            lemma_count_bound(self.contents, 5);
            lemma_count_bound(self.contents, self.step as int);
        }
        let layer: ProjectLayer = layer_at(self.step);
        let mut entry: String = two(layer.name(), " (");
        entry.append(reason);
        entry.append(")");
        let ghost before = self.failed@;
        self.failed.push(entry);
        assert(self.failed@.drop_last() == before);
        self.completed = self.completed + 1;
        self.step = self.step + 1;
        let mut message: String = two("Failed ", layer.name());
        message.append(": ");
        message.append(reason);
        report(layer.name(), message, self.completed, self.total, false, true)
    }

    /// The summary of a project in directory `dir`, if any GIF was made.
    pub open spec fn summary(&self, dir: Seq<char>) -> Seq<char> {
        let frames = if self.frame_count() < 1 { 1 } else { self.frame_count() };
        let made = "Saved "@ + digits(frames) + " frames in "@ + dir + " | Generated: "@ + joined(
            self.generated(),
            ", "@,
        );
        let passed = if self.skipped().len() == 0 {
            made
        } else {
            made + " | Skipped: "@ + joined(self.skipped(), ", "@)
        };
        if self.failures().len() == 0 {
            passed
        } else {
            passed + " | Failed: "@ + joined(self.failures(), ", "@)
        }
    }

    /// The complaint about a project in directory `dir` of which no GIF was made.
    pub open spec fn complaint(&self, dir: Seq<char>) -> Seq<char> {
        "No GIFs generated in "@ + dir + ". Failures: "@ + joined(self.failures(), "; "@)
    }

    /// Ends the export: the last report, and the summary or the complaint.
    pub fn conclude(&self, dir: &str) -> (r: (ExportUpdate, Result<String, String>))
        requires
            self.wf(),
        ensures
            self.generated().len() == 0 ==> {
                &&& reports(r.0, "export"@, self.complaint(dir@), 0, self.total(), true, true)
                &&& r.1 matches Err(text) && text@ == self.complaint(dir@)
            },
            self.generated().len() > 0 ==> {
                &&& reports(
                    r.0,
                    "export"@,
                    self.summary(dir@),
                    self.completed(),
                    self.total(),
                    true,
                    self.failures().len() > 0,
                )
                &&& r.1 matches Ok(text) && text@ == self.summary(dir@)
            },
    {
        if self.generated.len() == 0 {
            let mut text: String = two("No GIFs generated in ", dir);
            text.append(". Failures: ");
            text.append(join(&self.failed, "; ").as_str());
            let copy: String = text.clone();
            return (report("export", copy, 0, self.total, true, true), Err(text));
        }
        let frames: u64 = if self.frame_count < 1 {
            1
        } else {
            self.frame_count as u64
        };
        let mut text: String = two("Saved ", decimal(frames).as_str());
        text.append(" frames in ");
        text.append(dir);
        text.append(" | Generated: ");
        text.append(join(&self.generated, ", ").as_str());
        if self.skipped.len() > 0 {
            text.append(" | Skipped: ");
            text.append(join(&self.skipped, ", ").as_str());
        }
        if self.failed.len() > 0 {
            text.append(" | Failed: ");
            text.append(join(&self.failed, ", ").as_str());
        }
        let copy: String = text.clone();
        (report("export", copy, self.completed, self.total, true, self.failed.len() > 0), Ok(text))
    }
}

/// The report on a frame of a GIF.
pub fn frame_update(layer: ProjectLayer, frame: u32, total: u32) -> (r: ExportUpdate)
    ensures
        reports(
            r,
            layer.title(),
            layer.title() + " frame "@ + digits(frame as nat) + "/"@ + digits(total as nat),
            frame as int,
            total as int,
            false,
            false,
        ),
{
    let mut message: String = two(layer.name(), " frame ");
    message.append(decimal(frame as u64).as_str());
    message.append("/");
    message.append(decimal(total as u64).as_str());
    report(layer.name(), message, frame, total, false, false)
}

/// Whether a frame of a GIF is reported on.
pub open spec fn is_reported(composite: bool, samples: u32, on_gpu: bool) -> bool {
    !composite || samples > 1 || !on_gpu
}

/// Whether a frame of a GIF is reported on: all are, but for those of a composite without
/// smoothing that the GPU draws.
pub fn reports_frames(composite: bool, samples: u32, on_gpu: bool) -> (r: bool)
    ensures
        r == is_reported(composite, samples, on_gpu),
        r == !(composite && samples <= 1 && on_gpu),
{
    !(composite && samples <= 1 && on_gpu)
}

/// The report on an export that came to nothing.
pub fn error_update(reason: &str) -> (r: ExportUpdate)
    ensures
        reports(r, "export"@, "Export error: "@ + reason@, 0, 1, true, true),
{
    report("export", two("Export error: ", reason), 0, 1, true, true)
}

/// The error of a frame that could not be rendered.
pub fn render_panic_text(composite: bool, frame: u32, path: &str) -> (r: String)
    ensures
        r@ == "render panic while exporting "@ + (if composite { "composite "@ } else { ""@ }) + "frame "@ + digits(
            frame as nat,
        ) + " to "@ + path@,
{
    let mut text: String = two("render panic while exporting ", if composite {
        "composite "
    } else {
        ""
    });
    text.append("frame ");
    text.append(decimal(frame as u64).as_str());
    text.append(" to ");
    text.append(path);
    text
}

/// The error of a frame that the GPU could not render.
pub fn gpu_failure_text(composite: bool, frame: u32, path: &str, reason: &str) -> (r: String)
    ensures
        r@ == "gpu scene render failed "@ + (if composite { "composite "@ } else { ""@ }) + "frame "@ + digits(
            frame as nat,
        ) + " to "@ + path@ + ": "@ + reason@,
{
    let mut text: String = two("gpu scene render failed ", if composite {
        "composite "
    } else {
        ""
    });
    text.append("frame ");
    text.append(decimal(frame as u64).as_str());
    text.append(" to ");
    text.append(path);
    text.append(": ");
    text.append(reason);
    text
}

proof fn lemma_count_bound(c: Contents, step: int)
    ensures
        0 <= c.count(step) <= (if step < 0 { 0 } else { step }),
    decreases step,
{
    if step > 0 {
        lemma_count_bound(c, step - 1);
    }
}

/// Starts the export of a project in which each layer gets a GIF of its own if asked for.
pub fn export_project_gifs_with_progress<N>(settings: &PathForgeSettings<N>, export_individual_layers: bool) -> (r:
    ProjectExport)
    ensures
        r.wf(),
        r.individual() == export_individual_layers,
        r.step() == 0,
        r.contents() == (Contents {
            sky: shows_sky(*settings),
            floor: true,
            walls: settings.walls.enabled,
            atmo: shows_atmo(*settings),
            props: shows_props(*settings),
        }),
        r.total() == (if export_individual_layers { r.contents().count(5) } else { 0 }) + 1,
        r.generated().len() == 0,
        r.failures().len() == 0,
        r.skipped().len() == 0,
        r.frame_count() == 0,
{
    ProjectExport::start(Contents::of(settings), export_individual_layers)
}

/// Starts the export of a project in which each layer gets a GIF of its own.
pub fn export_project_gifs<N>(settings: &PathForgeSettings<N>) -> (r: ProjectExport)
    ensures
        r.wf(),
        r.individual(),
        r.step() == 0,
        r.contents() == (Contents {
            sky: shows_sky(*settings),
            floor: true,
            walls: settings.walls.enabled,
            atmo: shows_atmo(*settings),
            props: shows_props(*settings),
        }),
        r.total() == r.contents().count(5) + 1,
        r.generated().len() == 0,
        r.failures().len() == 0,
        r.skipped().len() == 0,
        r.frame_count() == 0,
{
    export_project_gifs_with_progress(settings, true)
}

impl ProjectExport {
    /// The number of GIFs that were made or failed never passes the number to make. Once
    /// every GIF is dealt with it reaches that number, and each of the six was made, failed
    /// or was passed over.
    pub proof fn law_progress(&self)
        requires
            self.wf(),
        ensures
            0 <= self.completed() <= self.total(),
            self.completed() == self.generated().len() + self.failures().len(),
            self.step() == 6 ==> self.completed() == self.total(),
            self.skipped().len() + self.completed() == self.step(),
            0 <= self.step() <= 6,
    {
        if self.step < 5 {
            lemma_count_monotone(self.contents, self.step as int, 5);
        }
    }
}

proof fn lemma_count_monotone(c: Contents, a: int, b: int)
    requires
        a <= b,
    ensures
        c.count(a) <= c.count(b),
    decreases b - a,
{
    if a < b {
        lemma_count_monotone(c, a, b - 1);
    }
}

/// Whether the layer at a place in the order is drawn.
pub open spec fn draws(l: RenderLayers, step: int) -> bool {
    match layer_of(step) {
        ProjectLayer::Sky => l.sky,
        ProjectLayer::PathFloor => l.floor,
        ProjectLayer::Walls => l.walls,
        ProjectLayer::Atmosphere => l.atmo,
        ProjectLayer::Props => l.props,
        ProjectLayer::Composite => l.post,
    }
}

/// The GIF of a layer draws that layer and no other, whatever the scene holds; the composite
/// draws just what shows something; none draws the effects of the finished picture.
pub proof fn law_each_gif_draws_its_layer(c: Contents, other: Contents, layer: ProjectLayer, step: int)
    requires
        0 <= step < 5,
    ensures
        layer != ProjectLayer::Composite ==> (draws(c.drawn_for(layer), step) <==> step == layer.index()),
        layer != ProjectLayer::Composite ==> c.drawn_for(layer) == other.drawn_for(layer),
        draws(c.drawn_for(ProjectLayer::Composite), step) <==> c.has(step),
        !c.drawn_for(layer).post,
{
}

/// Each layer has one place in the order, from the sky at the back to the composite of all.
pub proof fn law_layers_have_their_places(layer: ProjectLayer, other: ProjectLayer, step: int)
    requires
        0 <= step <= 5,
    ensures
        layer_of(layer.index()) == layer,
        layer_of(step).index() == step,
        0 <= layer.index() <= 5,
        layer.index() == other.index() <==> layer == other,
        ProjectLayer::Sky.index() < ProjectLayer::PathFloor.index() < ProjectLayer::Walls.index()
            < ProjectLayer::Atmosphere.index() < ProjectLayer::Props.index() < ProjectLayer::Composite.index(),
{
}

/// Every layer of the scene counts once: with all of them five GIFs are counted, each that shows
/// nothing takes one away, and the composite is always made.
pub proof fn law_layers_are_counted(c: Contents)
    ensures
        c.count(5) + (if c.sky { 0int } else { 1 }) + (if c.floor { 0int } else { 1 }) + (if c.walls { 0int } else { 1 })
            + (if c.atmo { 0int } else { 1 }) + (if c.props { 0int } else { 1 }) == 5,
        c.has(ProjectLayer::Sky.index()) == c.sky,
        c.has(ProjectLayer::PathFloor.index()) == c.floor,
        c.has(ProjectLayer::Walls.index()) == c.walls,
        c.has(ProjectLayer::Atmosphere.index()) == c.atmo,
        c.has(ProjectLayer::Props.index()) == c.props,
        c.has(ProjectLayer::Composite.index()),
{
    reveal_with_fuel(Contents::count, 6);
}

/// No two layers share a name.
#[verifier::rlimit(50)]
pub proof fn law_layer_names_differ(a: ProjectLayer, b: ProjectLayer)
    ensures
        a.title() == b.title() <==> a == b,
        a.title().len() > 0,
{
    reveal_strlit("sky");
    reveal_strlit("path_floor");
    reveal_strlit("walls");
    reveal_strlit("atmosphere");
    reveal_strlit("props");
    reveal_strlit("composite_layered");
    assert(a.title().len() != b.title().len() || a.title()[0] != b.title()[0] || a == b);
}

/// Whether a text ends in another.
pub open spec fn ends_in(text: Seq<char>, end: Seq<char>) -> bool {
    end.len() <= text.len() && text.subrange(text.len() - end.len(), text.len() as int) == end
}

/// Whether a text begins with another.
pub open spec fn begins_with(text: Seq<char>, start: Seq<char>) -> bool {
    start.len() <= text.len() && text.take(start.len() as int) == start
}

impl ProjectExport {
    /// The summary counts the frames, names the directory and every GIF that was made, and ends
    /// in those that failed, else those that were passed over, else those that were made. The
    /// complaint names the directory and every failure.
    #[verifier::rlimit(50)]
    pub proof fn law_conclusion_names_every_gif(&self, dir: Seq<char>)
        ensures
            self.frame_count() >= 1 ==> begins_with(
                self.summary(dir),
                "Saved "@ + digits(self.frame_count()) + " frames in "@ + dir,
            ),
            self.frame_count() == 0 ==> begins_with(self.summary(dir), "Saved "@ + digits(1) + " frames in "@ + dir),
            self.skipped().len() == 0 && self.failures().len() == 0 ==> ends_in(
                self.summary(dir),
                " | Generated: "@ + joined(self.generated(), ", "@),
            ),
            self.skipped().len() > 0 && self.failures().len() == 0 ==> ends_in(
                self.summary(dir),
                joined(self.generated(), ", "@) + " | Skipped: "@ + joined(self.skipped(), ", "@),
            ),
            self.failures().len() > 0 ==> ends_in(
                self.summary(dir),
                " | Failed: "@ + joined(self.failures(), ", "@),
            ),
            self.failures().len() > 0 && self.skipped().len() > 0 ==> ends_in(
                self.summary(dir),
                " | Skipped: "@ + joined(self.skipped(), ", "@) + " | Failed: "@ + joined(self.failures(), ", "@),
            ),
            self.frame_count() >= 1 ==> begins_with(
                self.summary(dir),
                "Saved "@ + digits(self.frame_count()) + " frames in "@ + dir + " | Generated: "@ + joined(
                    self.generated(),
                    ", "@,
                ),
            ),
            begins_with(self.complaint(dir), "No GIFs generated in "@ + dir),
            ends_in(self.complaint(dir), joined(self.failures(), "; "@)),
    {
        let frames = if self.frame_count() < 1 { 1 } else { self.frame_count() };
        let head = "Saved "@ + digits(frames) + " frames in "@ + dir;
        let list = " | Generated: "@ + joined(self.generated(), ", "@);
        let made = head + " | Generated: "@ + joined(self.generated(), ", "@);
        assert(made =~= head + list);
        let skips = joined(self.generated(), ", "@) + " | Skipped: "@ + joined(self.skipped(), ", "@);
        let fails = " | Failed: "@ + joined(self.failures(), ", "@);
        let s = self.summary(dir);
        let passed = if self.skipped().len() == 0 {
            made
        } else {
            made + " | Skipped: "@ + joined(self.skipped(), ", "@)
        };
        assert(self.failures().len() > 0 ==> s =~= passed + fails);
        assert(self.failures().len() == 0 ==> s == passed);
        assert(self.skipped().len() > 0 ==> passed =~= head + " | Generated: "@ + skips);
        assert(s.take(head.len() as int) =~= head);
        assert(s.take(made.len() as int) =~= made);
        let both = " | Skipped: "@ + joined(self.skipped(), ", "@) + " | Failed: "@ + joined(self.failures(), ", "@);
        if self.failures().len() > 0 && self.skipped().len() > 0 {
            assert(s =~= made + both);
            assert(s.subrange(s.len() - both.len(), s.len() as int) =~= both);
        }
        if self.failures().len() > 0 {
            assert(s.subrange(s.len() - fails.len(), s.len() as int) =~= fails);
        } else if self.skipped().len() > 0 {
            assert(s.subrange(s.len() - skips.len(), s.len() as int) =~= skips);
        } else {
            assert(s.subrange(s.len() - list.len(), s.len() as int) =~= list);
        }
        let c = self.complaint(dir);
        let front = "No GIFs generated in "@ + dir;
        assert(c.take(front.len() as int) =~= front);
        let reasons = joined(self.failures(), "; "@);
        assert(c.subrange(c.len() - reasons.len(), c.len() as int) =~= reasons);
    }
}

/// Frames of single layers, of smoothed GIFs and of those that the CPU draws are always reported on, and
/// no other frames are.
pub proof fn law_frames_are_reported_on(composite: bool, samples: u32, on_gpu: bool)
    ensures
        is_reported(false, samples, on_gpu),
        is_reported(composite, samples, false),
        samples >= 2 ==> is_reported(composite, samples, on_gpu),
        samples <= 1 ==> !is_reported(true, samples, true),
{
}

/// The GPU draws nothing where it is not enabled or where a sprite is shown; where neither holds it draws
/// every composite, and of the GIFs of single layers none.
pub proof fn law_gpu_draws_composites<N>(
    s: PathForgeSettings<N>,
    c: Contents,
    composite: bool,
    layer: ProjectLayer,
    layers: RenderLayers,
)
    ensures
        !is_drawn_on_gpu(false, s, composite, layers),
        shows_sprite(s) ==> !is_drawn_on_gpu(true, s, composite, layers),
        !shows_sprite(s) ==> is_drawn_on_gpu(true, s, true, layers),
        !is_drawn_on_gpu(true, s, false, c.drawn_for(layer)),
{
}

/// A report has one reading.
pub proof fn law_reports_are_exact(
    u: ExportUpdate,
    stage: Seq<char>,
    message: Seq<char>,
    current: int,
    total: int,
    done: bool,
    failed: bool,
)
    requires
        reports(u, stage, message, current, total, done, failed),
    ensures
        stage == u.stage@ && message == u.message@,
        current == u.current && total == u.total,
        done == u.done && failed == u.failed,
{
}

} // verus!
