//! Exporting animations as GIF files: the frames of a loop, and the files of a project.
use vstd::prelude::*;

use crate::frames::{mean, rgba_to_rgb, rgb_to_rgba, with_alpha, without_alpha, FrameMixer, MAX_SAMPLES};
use crate::gif_stream::{
    append_frame, end_stream, error_text, frame_bytes, opening, reduce_colours, reduced, repeat_block, repeat_forever,
    start_stream, stream_bytes, take_bytes, GifStream, IndexedFrame,
};
use crate::layers::RenderLayers;
use crate::rounding::{round_to_significand, rounded};
use crate::settings::PathForgeSettings;
use crate::tiles::clamped;

verus! {

/// Why an export failed.
#[derive(Clone, Debug)]
pub enum ExportError {
    /// The encoder refused a frame, for the reason given.
    Encoding(String),
}

/// Whether a text is one that an encoder error gives of itself.
pub closed spec fn is_text_of(cause: gif::EncodingError, text: String) -> bool {
    call_ensures(error_text, (cause,), text)
}

/// Whether a failure is one of the encoder's: its reason is a text of an encoder error.
pub open spec fn is_encoder_failure(e: ExportError) -> bool {
    e matches ExportError::Encoding(text) && exists|cause: gif::EncodingError| #[trigger] is_text_of(cause, text)
}

/// The failure of an export by an encoder error: its reason is a text of that error.
fn encoding_error(e: gif::EncodingError) -> (r: ExportError)
    ensures
        r matches ExportError::Encoding(text) && is_text_of(e, text),
{
    let words = error_text;
    ExportError::Encoding(words(e))
}

/// The bytes of one frame of an RGB picture.
pub open spec fn picture_bytes(width: u16, height: u16, delay: u16, rgb: Seq<u8>) -> Seq<u8> {
    let (palette, indices) = reduced(width, height, rgb);
    frame_bytes(width, height, delay, palette, indices)
}

/// The bytes of some frames, one after the other.
pub open spec fn pictures_bytes(width: u16, height: u16, delay: u16, pictures: Seq<Seq<u8>>) -> Seq<u8>
    decreases pictures.len(),
{
    if pictures.len() == 0 {
        Seq::empty()
    } else {
        pictures_bytes(width, height, delay, pictures.drop_last()) + picture_bytes(
            width,
            height,
            delay,
            pictures.last(),
        )
    }
}

/// The bytes of an animation so far: the opening, the block that repeats it, the frames.
pub open spec fn animation_bytes(width: u16, height: u16, delay: u16, pictures: Seq<Seq<u8>>) -> Seq<u8> {
    opening(width, height) + repeat_block() + pictures_bytes(width, height, delay, pictures)
}

/// The bytes of a GIF file of RGB pictures that repeats forever.
pub open spec fn gif_file(width: u16, height: u16, delay: u16, pictures: Seq<Seq<u8>>) -> Seq<u8> {
    animation_bytes(width, height, delay, pictures).push(0x3bu8)
}

/// A stream with the opening of an animation in it.
fn start_animation(width: u16, height: u16) -> (r: Result<GifStream, ExportError>)
    ensures
        r matches Ok(s) && stream_bytes(s) == animation_bytes(width, height, 0, Seq::empty()),
{
    match start_stream(width, height) {
        Ok(stream) => {
            let mut s: GifStream = stream;
            match repeat_forever(&mut s) {
                Ok(()) => {
                    assert(stream_bytes(s) =~= animation_bytes(width, height, 0, Seq::empty()));
                    Ok(s)
                },
                Err(e) => Err(encoding_error(e)),
            }
        },
        Err(e) => Err(encoding_error(e)),
    }
}

/// Appends one RGB picture to a stream.
fn append_picture(s: &mut GifStream, width: u16, height: u16, delay: u16, rgb: &[u8]) -> (r: Result<(), ExportError>)
    requires
        rgb@.len() == width * height * 3,
    ensures
        width * height < 4 ==> r is Ok,
        r is Ok ==> stream_bytes(*final(s)) == stream_bytes(*old(s)) + picture_bytes(width, height, delay, rgb@),
        r matches Err(e) ==> is_encoder_failure(e),
{
    let frame: IndexedFrame = reduce_colours(width, height, rgb);
    match append_frame(s, width, height, delay, frame.palette, frame.indices) {
        Ok(()) => Ok(()),
        Err(e) => Err(encoding_error(e)),
    }
}

/// A delay in milliseconds in the units of a GIF, hundredths of a second, halves up. The
/// field of a frame has 16 bits.
pub open spec fn hundredths(delay_ms: u32) -> u16 {
    ((delay_ms + 5) / 10 % 65536) as u16
}

/// The RGB pictures of RGBA frames.
pub open spec fn pictures_of(frames: Seq<Vec<u8>>) -> Seq<Seq<u8>> {
    frames.map_values(|f: Vec<u8>| without_alpha(f@))
}

/// Encodes RGBA frames as an animation that repeats forever. The alpha channel is dropped.
pub fn export_gif(frames: &Vec<Vec<u8>>, width: u16, height: u16, delay_ms: u32) -> (r: Result<Vec<u8>, ExportError>)
    requires
        delay_ms + 5 <= u32::MAX,
        forall|i: int| 0 <= i < frames@.len() ==> (#[trigger] frames@[i])@.len() == width * height * 4,
    ensures
        frames@.len() == 0 || width * height < 4 ==> r is Ok,
        r matches Ok(bytes) ==> bytes@ == gif_file(width, height, hundredths(delay_ms), pictures_of(frames@)),
        r matches Err(e) ==> is_encoder_failure(e),
{
    let delay: u16 = ((delay_ms + 5) / 10 % 65536) as u16;
    let mut s: GifStream = match start_animation(width, height) {
        Ok(stream) => stream,
        Err(e) => {
            return Err(e);
        },
    };
    let ghost pictures = pictures_of(frames@);
    let mut i: usize = 0;
    proof {
        assert(pictures.take(0) == Seq::<Seq<u8>>::empty());
        assert(pictures_bytes(width, height, delay, pictures.take(0)) == pictures_bytes(width, height, 0, Seq::empty()));
    }
    while i < frames.len()
        invariant
            i <= frames@.len(),
            delay == hundredths(delay_ms),
            pictures == pictures_of(frames@),
            forall|k: int| 0 <= k < frames@.len() ==> (#[trigger] frames@[k])@.len() == width * height * 4,
            stream_bytes(s) == animation_bytes(width, height, delay, pictures.take(i as int)),
        decreases frames.len() - i,
    {
        let rgb: Vec<u8> = rgba_to_rgb(frames[i].as_slice());
        proof {
            assert(frames@[i as int]@.len() == width * height * 4);
            assert(rgb@.len() == width * height * 3);
            assert(rgb@ == pictures[i as int]);
        }
        match append_picture(&mut s, width, height, delay, rgb.as_slice()) {
            Ok(()) => {},
            Err(e) => {
                return Err(e);
            },
        }
        proof {
            let now = pictures.take(i + 1);
            assert(now.drop_last() == pictures.take(i as int));
            assert(now.last() == rgb@);
            assert(stream_bytes(s) =~= animation_bytes(width, height, delay, now));
        }
        i = i + 1;
    }
    assert(pictures.take(pictures.len() as int) == pictures);
    match end_stream(s) {
        Ok(bytes) => Ok(bytes),
        Err(e) => Err(encoding_error(e)),
    }
}

/// The number of frames of an export: what is asked for, from 2 to 20000.
pub open spec fn planned_frames(total_frames: u32) -> int {
    clamped(total_frames as int, 2, 20000)
}

/// The delay between frames in hundredths of a second: 100 / fps to the nearest whole
/// number, halves up, and one at least.
pub open spec fn planned_delay(fps: u32) -> int {
    let rate = if fps < 1 { 1 } else { fps as int };
    let nearest = (200 + rate) / (2 * rate);
    if nearest < 1 {
        1
    } else {
        nearest
    }
}

/// The timing of an export.
#[derive(Clone, Copy, Debug, PartialEq, Eq, Structural)]
pub struct FramePlan {
    /// The length of the loop, in tiles.
    pub loop_tiles: u32,
    /// The number of frames.
    pub n_frames: u32,
    /// The delay between frames, in hundredths of a second.
    pub delay_hundredths: u16,
}

/// Plans the frames of one loop.
pub fn frame_plan<N>(settings: &PathForgeSettings<N>, fps: u32, total_frames: u32) -> (r: FramePlan)
    ensures
        r.loop_tiles == (if settings.anim.loop_s < 1 { 1 } else { settings.anim.loop_s }),
        r.n_frames == planned_frames(total_frames),
        r.delay_hundredths == planned_delay(fps),
{
    let rate: u64 = if fps < 1 {
        1
    } else {
        fps as u64
    };
    let nearest: u64 = (200 + rate) / (2 * rate);
    assert(nearest <= 100) by (nonlinear_arith)
        requires
            nearest == (200 + rate) / (2 * rate),
            rate >= 1,
    ;
    let loop_tiles: u32 = if settings.anim.loop_s < 1 {
        1
    } else {
        settings.anim.loop_s
    };
    let n_frames: u32 = if total_frames < 2 {
        2
    } else if total_frames > 20000 {
        20000
    } else {
        total_frames
    };
    FramePlan {
        loop_tiles,
        n_frames,
        delay_hundredths: if nearest < 1 {
            1
        } else {
            nearest as u16
        },
    }
}

/// The length in tiles of a loop of `loop_s` tiles that is played `cycles` times, one of each at
/// least: the product, computed in single precision.
pub open spec fn loop_length(loop_s: u32, cycles: u32) -> nat {
    rounded(
        rounded((if loop_s < 1 { 1 } else { loop_s as int }) as nat) * rounded(
            (if cycles < 1 { 1 } else { cycles as int }) as nat,
        ),
    )
}

/// The number of frames that a loop of `loop_s` tiles, played `cycles` times at `fps`
/// frames a second, is rendered in: the product, computed in single precision, one at
/// least and no more than 32 bits hold.
pub open spec fn loop_frame_count(loop_s: u32, fps: u32, cycles: u32) -> int {
    clamped(rounded(loop_length(loop_s, cycles) * rounded(fps as nat)) as int, 1, u32::MAX as int)
}

/// Plans the frames of a loop that is rendered in full: returns the length of the loop in tiles,
/// which is scrolled over evenly, and the number of frames.
pub fn render_loop_frames<N>(settings: &PathForgeSettings<N>, fps: u32, cycles: u32) -> (r: (u128, u32))
    ensures
        r.0 == loop_length(settings.anim.loop_s, cycles),
        r.1 == loop_frame_count(settings.anim.loop_s, fps, cycles),
{
    let tiles: u128 = if settings.anim.loop_s < 1 {
        1
    } else {
        settings.anim.loop_s as u128
    };
    let passes: u128 = if cycles < 1 {
        1
    } else {
        cycles as u128
    };
    proof {
        crate::rounding::lemma_rounded_at_most_whole(tiles as nat, 1);
        crate::rounding::lemma_rounded_at_most_whole(passes as nat, 1);
        crate::rounding::lemma_rounded_at_most_whole(fps as nat, 1);
    }
    let t: u128 = round_to_significand(tiles);
    let p: u128 = round_to_significand(passes);
    let f: u128 = round_to_significand(fps as u128);
    assert(t * p <= 0x1_0000_0000 * 0x1_0000_0000) by (nonlinear_arith)
        requires
            t <= 0x1_0000_0000,
            p <= 0x1_0000_0000,
    ;
    proof {
        crate::rounding::lemma_rounded_upper((t * p) as nat, 0x1_0000_0000_0000_0000);
    }
    let length: u128 = round_to_significand(t * p);
    assert(length * f <= 0x1_0000_0100_0000_0000 * 0x1_0000_0000) by (nonlinear_arith)
        requires
            length <= 0x1_0000_0100_0000_0000,
            f <= 0x1_0000_0000,
    ;
    let count: u128 = round_to_significand(length * f);
    let frames: u32 = if count < 1 {
        1
    } else if count > 0xffff_ffff {
        u32::MAX
    } else {
        count as u32
    };
    (length, frames)
}

/// The export of one loop, sample by sample. The caller renders the samples that are
/// wanted, hands each in, and writes out the bytes as they come.
pub struct LoopExport {
    width: u16,
    height: u16,
    plan: FramePlan,
    samples: u32,
    mixer: FrameMixer,
    stream: GifStream,
    frame: u32,
    taken: Ghost<Seq<u8>>,
    pictures: Ghost<Seq<Seq<u8>>>,
}

impl LoopExport {
    /// The width of the pictures.
    pub closed spec fn width(&self) -> u16 {
        self.width
    }

    /// The height of the pictures.
    pub closed spec fn height(&self) -> u16 {
        self.height
    }

    /// The timing of the export.
    pub closed spec fn plan(&self) -> FramePlan {
        self.plan
    }

    /// The number of samples that make up a frame.
    pub closed spec fn samples_per_frame(&self) -> nat {
        self.samples as nat
    }

    /// The RGB pictures of the samples of the frame in progress.
    pub closed spec fn samples(&self) -> Seq<Seq<u8>> {
        self.mixer.samples()
    }

    /// The pictures of the frames that are done.
    pub closed spec fn pictures(&self) -> Seq<Seq<u8>> {
        self.pictures@
    }

    /// The bytes that were taken out so far.
    pub closed spec fn taken(&self) -> Seq<u8> {
        self.taken@
    }

    /// The number of samples that were rendered so far.
    pub open spec fn passes(&self) -> nat {
        self.pictures().len() * self.samples_per_frame() + self.samples().len()
    }

    /// The bytes of the export so far: those that were taken and those that wait.
    pub closed spec fn output(&self) -> Seq<u8> {
        self.taken@ + stream_bytes(self.stream)
    }

    /// The export is in order: its bytes are those of the frames that are done.
    pub closed spec fn wf(&self) -> bool {
        &&& self.mixer.wf()
        &&& self.mixer.len() == self.width * self.height * 3
        &&& 1 <= self.samples <= MAX_SAMPLES
        &&& self.mixer.samples().len() <= self.samples
        &&& self.frame == self.pictures@.len()
        &&& self.frame <= self.plan.n_frames
        &&& self.output() == animation_bytes(self.width, self.height, self.plan.delay_hundredths, self.pictures@)
    }

    /// Starts the export of a loop.
    pub fn start<N>(settings: &PathForgeSettings<N>, fps: u32, total_frames: u32, smoothing_samples: u32) -> (r: Result<
        Self,
        ExportError,
    >)
        requires
            settings.canvas.width() <= 65535,
            settings.canvas.height() <= 65535,
            settings.canvas.width() * settings.canvas.height() * 4 <= usize::MAX,
            smoothing_samples <= MAX_SAMPLES,
        ensures
            r is Ok,
            r matches Ok(e) ==> {
                &&& e.wf()
                &&& e.width() == settings.canvas.width()
                &&& e.height() == settings.canvas.height()
                &&& e.plan().loop_tiles == (if settings.anim.loop_s < 1 { 1 } else { settings.anim.loop_s })
                &&& e.plan().n_frames == planned_frames(total_frames)
                &&& e.plan().delay_hundredths == planned_delay(fps)
                &&& e.samples_per_frame() == (if smoothing_samples < 1 { 1 } else { smoothing_samples })
                &&& e.samples() == Seq::<Seq<u8>>::empty()
                &&& e.pictures() == Seq::<Seq<u8>>::empty()
                &&& e.taken() == Seq::<u8>::empty()
            },
    {
        let plan: FramePlan = frame_plan(settings, fps, total_frames);
        let width: u16 = settings.canvas.w() as u16;
        let height: u16 = settings.canvas.h() as u16;
        assert(width * height <= 65535 * 65535) by (nonlinear_arith)
            requires
                width <= 65535,
                height <= 65535,
        ;
        let pixels: u64 = (width as u64) * (height as u64);
        let mixer: FrameMixer = FrameMixer::new(pixels as usize);
        match start_animation(width, height) {
            Ok(stream) => {
                proof {
                    assert(Seq::<u8>::empty() + stream_bytes(stream) =~= animation_bytes(
                        width,
                        height,
                        plan.delay_hundredths,
                        Seq::empty(),
                    ));
                }
                Ok(
                    LoopExport {
                        width,
                        height,
                        plan,
                        samples: if smoothing_samples < 1 {
                            1
                        } else {
                            smoothing_samples
                        },
                        mixer,
                        stream,
                        frame: 0,
                        taken: Ghost(Seq::empty()),
                        pictures: Ghost(Seq::empty()),
                    },
                )
            },
            Err(e) => Err(e),
        }
    }

    /// The sample to render next, as the numbers of its frame and of the sample in it, or
    /// nothing once the samples of a frame or all frames are in.
    pub fn wanted(&self) -> (r: Option<(u32, u32)>)
        requires
            self.wf(),
        ensures
            r == (if self.pictures().len() < self.plan().n_frames && self.samples().len() < self.samples_per_frame() {
                Some((self.pictures().len() as u32, self.samples().len() as u32))
            } else {
                None
            }),
    {
        if self.frame < self.plan.n_frames && self.mixer.count() < self.samples {
            Some((self.frame, self.mixer.count()))
        } else {
            None
        }
    }

    /// The timing of the export.
    pub fn timing(&self) -> (r: FramePlan)
        ensures
            r == self.plan(),
    {
        self.plan
    }

    /// Takes in a rendered sample.
    pub fn add_sample(&mut self, rgba: &[u8])
        requires
            old(self).wf(),
            old(self).samples().len() < old(self).samples_per_frame(),
            rgba@.len() == old(self).width() * old(self).height() * 4,
        ensures
            final(self).wf(),
            final(self).samples() == old(self).samples().push(without_alpha(rgba@)),
            final(self).passes() == old(self).passes() + 1,
            final(self).pictures() == old(self).pictures(),
            final(self).taken() == old(self).taken(),
            final(self).output() == old(self).output(),
            final(self).plan() == old(self).plan(),
            final(self).width() == old(self).width(),
            final(self).height() == old(self).height(),
            final(self).samples_per_frame() == old(self).samples_per_frame(),
    {
        assert(rgba@.len() / 4 * 3 == self.width * self.height * 3);
        self.mixer.add_sample(rgba);
    }

    /// The mean of the samples of the frame in progress, as an opaque RGBA picture that
    /// effects can be applied to.
    pub fn mean_rgba(&self) -> (r: Vec<u8>)
        requires
            self.wf(),
            self.samples().len() > 0,
        ensures
            r@ == with_alpha(mean(self.samples(), (self.width() * self.height() * 3) as nat)),
    {
        let rgb: Vec<u8> = self.mixer.mean_rgb();
        rgb_to_rgba(rgb.as_slice())
    }

    /// Ends the frame in progress: its picture is the processed one, if there is one, and
    /// the mean of its samples otherwise. Returns the number of frames done and of all. Where the
    /// encoder fails, no frame is added and the samples stay; on less than four pixels it does not.
    pub fn finish_frame(&mut self, processed: Option<Vec<u8>>) -> (r: Result<(u32, u32), ExportError>)
        requires
            old(self).wf(),
            old(self).samples().len() == old(self).samples_per_frame(),
            old(self).pictures().len() < old(self).plan().n_frames,
            processed matches Some(rgba) ==> rgba@.len() == old(self).width() * old(self).height() * 4,
        ensures
            old(self).width() * old(self).height() < 4 ==> r is Ok,
            final(self).taken() == old(self).taken(),
            final(self).plan() == old(self).plan(),
            final(self).width() == old(self).width(),
            final(self).height() == old(self).height(),
            final(self).samples_per_frame() == old(self).samples_per_frame(),
            r matches Err(e) ==> {
                &&& is_encoder_failure(e)
                &&& final(self).pictures() == old(self).pictures()
                &&& final(self).samples() == old(self).samples()
            },
            r matches Ok(progress) ==> {
                let picture = match processed {
                    Some(rgba) => without_alpha(rgba@),
                    None => mean(old(self).samples(), (old(self).width() * old(self).height() * 3) as nat),
                };
                &&& final(self).wf()
                &&& final(self).pictures() == old(self).pictures().push(picture)
                &&& final(self).samples() == Seq::<Seq<u8>>::empty()
                &&& final(self).passes() == old(self).passes()
                &&& final(self).output() == old(self).output() + picture_bytes(
                    old(self).width(),
                    old(self).height(),
                    old(self).plan().delay_hundredths,
                    picture,
                )
                &&& progress == (final(self).pictures().len() as u32, final(self).plan().n_frames)
            },
    {
        let rgb: Vec<u8> = match processed {
            Some(rgba) => {
                assert(rgba@.len() / 4 * 3 == self.width * self.height * 3);
                rgba_to_rgb(rgba.as_slice())
            },
            None => self.mixer.mean_rgb(),
        };
        let ghost pictures = self.pictures@;
        let ghost output = self.output();
        match append_picture(&mut self.stream, self.width, self.height, self.plan.delay_hundredths, rgb.as_slice()) {
            Ok(()) => {
                self.mixer.clear();
                self.frame = self.frame + 1;
                proof {
                    self.pictures@ = pictures.push(rgb@);
                    assert((pictures.len() + 1) * self.samples == pictures.len() * self.samples + self.samples)
                        by (nonlinear_arith);
                    assert(self.pictures@.drop_last() == pictures);
                    let added = picture_bytes(self.width, self.height, self.plan.delay_hundredths, rgb@);
                    assert(self.output() =~= output + added);
                    assert(output + added =~= animation_bytes(
                        self.width,
                        self.height,
                        self.plan.delay_hundredths,
                        self.pictures@,
                    ));
                }
                Ok((self.frame, self.plan.n_frames))
            },
            Err(e) => Err(e),
        }
    }

    /// Takes out the bytes that wait.
    pub fn take_output(&mut self) -> (r: Vec<u8>)
        requires
            old(self).wf(),
        ensures
            final(self).wf(),
            old(self).taken() + r@ == old(self).output(),
            final(self).taken() == old(self).output(),
            final(self).output() == old(self).output(),
            final(self).samples() == old(self).samples(),
            final(self).pictures() == old(self).pictures(),
            final(self).plan() == old(self).plan(),
            final(self).width() == old(self).width(),
            final(self).height() == old(self).height(),
            final(self).samples_per_frame() == old(self).samples_per_frame(),
    {
        let ghost output = self.output();
        let bytes: Vec<u8> = take_bytes(&mut self.stream);
        proof {
            self.taken@ = output;
            assert(self.output() =~= output);
        }
        bytes
    }

    /// Ends the export and hands out the last bytes. Together with those that were taken
    /// before, they are the file of the frames.
    pub fn finish(self) -> (r: Result<Vec<u8>, ExportError>)
        requires
            self.wf(),
        ensures
            r matches Ok(bytes) && self.taken() + bytes@ == gif_file(
                self.width(),
                self.height(),
                self.plan().delay_hundredths,
                self.pictures(),
            ),
    {
        let ghost taken = self.taken@;
        let ghost held = stream_bytes(self.stream);
        match end_stream(self.stream) {
            Ok(bytes) => {
                assert(taken + held.push(0x3bu8) =~= (taken + held).push(0x3bu8));
                Ok(bytes)
            },
            Err(e) => Err(encoding_error(e)),
        }
    }
}

impl LoopExport {
    /// Every sample is rendered once: a sample is wanted only while fewer were rendered than
    /// the frames hold together, and once all frames are done that is how many were.
    pub proof fn law_one_pass_per_sample(&self)
        requires
            self.wf(),
        ensures
            self.pictures().len() < self.plan().n_frames && self.samples().len() < self.samples_per_frame()
                ==> self.passes() < self.plan().n_frames * self.samples_per_frame(),
            self.pictures().len() == self.plan().n_frames && self.samples().len() == 0 ==> self.passes()
                == self.plan().n_frames * self.samples_per_frame(),
    {
        let done = self.pictures().len() as int;
        let all = self.plan().n_frames as int;
        let each = self.samples_per_frame() as int;
        if done < all {
            assert(done * each + each <= all * each) by (nonlinear_arith)
                requires
                    done + 1 <= all,
                    each >= 0,
            ;
        }
    }
}

/// Starts the export of a loop with every layer.
pub fn export_loop_gif<N>(settings: &PathForgeSettings<N>, fps: u32, total_frames: u32, smoothing_samples: u32) -> (r:
    Result<(LoopExport, RenderLayers), ExportError>)
    requires
        settings.canvas.width() <= 65535,
        settings.canvas.height() <= 65535,
        settings.canvas.width() * settings.canvas.height() * 4 <= usize::MAX,
        smoothing_samples <= MAX_SAMPLES,
    ensures
        r is Ok,
        r matches Ok((e, layers)) ==> {
            &&& e.wf()
            &&& e.width() == settings.canvas.width()
            &&& e.height() == settings.canvas.height()
            &&& e.plan().loop_tiles == (if settings.anim.loop_s < 1 { 1 } else { settings.anim.loop_s })
            &&& e.plan().n_frames == planned_frames(total_frames)
            &&& e.plan().delay_hundredths == planned_delay(fps)
            &&& e.samples_per_frame() == (if smoothing_samples < 1 { 1 } else { smoothing_samples })
            &&& e.samples() == Seq::<Seq<u8>>::empty()
            &&& e.pictures() == Seq::<Seq<u8>>::empty()
            &&& e.taken() == Seq::<u8>::empty()
            &&& layers.is_all()
        },
{
    match LoopExport::start(settings, fps, total_frames, smoothing_samples) {
        Ok(e) => Ok((e, RenderLayers::all())),
        Err(e) => Err(e),
    }
}

/// The frames of an export are those that were asked for as far as 2 to 20000 go, and more never
/// give fewer.
pub proof fn law_planned_frames(total: u32, more: u32)
    requires
        total <= more,
    ensures
        2 <= planned_frames(total) <= planned_frames(more) <= 20000,
        2 <= total <= 20000 ==> planned_frames(total) == total,
        total <= 2 ==> planned_frames(total) == 2,
        total >= 20000 ==> planned_frames(total) == 20000,
{
}

/// The delay is the nearest to a hundredth part of the frames a second, halves up, never below
/// one, and a higher rate never has a longer one. A rate of zero counts as one.
#[verifier::rlimit(50)]
pub proof fn law_delay_is_nearest(fps: u32, faster: u32)
    requires
        fps <= faster,
    ensures
        planned_delay(fps) >= 1,
        planned_delay(faster) <= planned_delay(fps),
        1 <= fps <= 200 ==> -fps < 2 * (planned_delay(fps) * fps - 100) <= fps,
        fps > 200 ==> planned_delay(fps) == 1,
        planned_delay(0) == planned_delay(1),
{
    let r: int = if fps < 1 { 1 } else { fps as int };
    let s: int = if faster < 1 { 1 } else { faster as int };
    let d = (200 + r) / (2 * r);
    let e = (200 + s) / (2 * s);
    vstd::arithmetic::div_mod::lemma_fundamental_div_mod(200 + r, 2 * r);
    vstd::arithmetic::div_mod::lemma_fundamental_div_mod(200 + s, 2 * s);
    vstd::arithmetic::div_mod::lemma_mod_bound(200 + r, 2 * r);
    vstd::arithmetic::div_mod::lemma_mod_bound(200 + s, 2 * s);
    let x = (200 + r) % (2 * r);
    let y = (200 + s) % (2 * s);
    assert((2 * r) * d == 2 * (d * r)) by (nonlinear_arith);
    assert((2 * s) * e == 2 * (e * s)) by (nonlinear_arith);
    assert(e <= d) by (nonlinear_arith)
        requires
            1 <= r <= s,
            200 + r == 2 * (d * r) + x,
            200 + s == 2 * (e * s) + y,
            0 <= x < 2 * r,
            0 <= y < 2 * s,
    ;
    if r <= 200 {
        assert(d >= 1) by (nonlinear_arith)
            requires
                1 <= r <= 200,
                200 + r == 2 * (d * r) + x,
                0 <= x < 2 * r,
        ;
    } else {
        assert(d <= 0) by (nonlinear_arith)
            requires
                r > 200,
                200 + r == 2 * (d * r) + x,
                0 <= x < 2 * r,
        ;
    }
}

/// A delay in hundredths of a second is the nearest to its milliseconds, halves up, as long as it
/// fits 16 bits, and longer delays are never shorter.
pub proof fn law_hundredths_are_nearest(ms: u32, longer: u32)
    requires
        ms <= longer <= 655354,
    ensures
        -5 < 10 * hundredths(ms) - ms <= 5,
        hundredths(ms) <= hundredths(longer),
{
}

/// A loop is as long as its tiles played as often as it is, one of each at least, and it has a
/// frame for each tile and frame a second, as long as these numbers have no more than 24 bits.
#[verifier::rlimit(50)]
pub proof fn law_loop_of_exact_numbers(loop_s: u32, fps: u32, cycles: u32)
    requires
        1 <= loop_s < 0x100_0000,
        1 <= cycles < 0x100_0000,
        loop_s * cycles < 0x100_0000,
        fps < 0x100_0000,
        loop_s * cycles * fps < 0x100_0000,
    ensures
        loop_length(loop_s, cycles) == loop_s * cycles,
        fps >= 1 ==> loop_frame_count(loop_s, fps, cycles) == loop_s * cycles * fps,
        fps == 0 ==> loop_frame_count(loop_s, fps, cycles) == 1,
        loop_length(0, cycles) == loop_length(1, cycles),
        loop_length(loop_s, 0) == loop_length(loop_s, 1),
{
    crate::rounding::law_small_numbers_are_exact(loop_s as nat);
    crate::rounding::law_small_numbers_are_exact(cycles as nat);
    crate::rounding::law_small_numbers_are_exact(fps as nat);
    assert(loop_s * cycles >= 1) by (nonlinear_arith)
        requires
            loop_s >= 1,
            cycles >= 1,
    ;
    crate::rounding::law_small_numbers_are_exact((loop_s * cycles) as nat);
    assert(loop_s * cycles * fps >= 0 && (fps >= 1 ==> loop_s * cycles * fps >= 1)) by (nonlinear_arith)
        requires
            loop_s * cycles >= 1,
    ;
    assert(fps == 0 ==> loop_s * cycles * fps == 0);
    crate::rounding::law_small_numbers_are_exact((loop_s * cycles * fps) as nat);
}

/// A longer loop, a higher rate or more cycles never give fewer tiles or frames.
pub proof fn law_loops_grow(loop_s: u32, fps: u32, cycles: u32, longer: u32, faster: u32, oftener: u32)
    requires
        loop_s <= longer,
        fps <= faster,
        cycles <= oftener,
    ensures
        loop_length(loop_s, cycles) <= loop_length(longer, oftener),
        1 <= loop_frame_count(loop_s, fps, cycles) <= loop_frame_count(longer, faster, oftener),
{
    let a = (if loop_s < 1 { 1 } else { loop_s as int }) as nat;
    let b = (if longer < 1 { 1 } else { longer as int }) as nat;
    let c = (if cycles < 1 { 1 } else { cycles as int }) as nat;
    let d = (if oftener < 1 { 1 } else { oftener as int }) as nat;
    crate::rounding::law_rounding_is_monotone(a, b);
    crate::rounding::law_rounding_is_monotone(c, d);
    crate::rounding::law_rounding_is_monotone(fps as nat, faster as nat);
    lemma_products_grow(rounded(a), rounded(b), rounded(c), rounded(d));
    crate::rounding::law_rounding_is_monotone(rounded(a) * rounded(c), rounded(b) * rounded(d));
    let p = loop_length(loop_s, cycles);
    let q = loop_length(longer, oftener);
    lemma_products_grow(p, q, rounded(fps as nat), rounded(faster as nat));
    crate::rounding::law_rounding_is_monotone(p * rounded(fps as nat), q * rounded(faster as nat));
}

proof fn lemma_products_grow(a: nat, b: nat, c: nat, d: nat)
    requires
        a <= b,
        c <= d,
    ensures
        a * c <= b * d,
{
    assert(a * c <= b * d) by (nonlinear_arith)
        requires
            a <= b,
            c <= d,
    ;
}

/// The frames of two runs of pictures follow each other in the order of the pictures.
pub proof fn law_frames_follow_each_other(width: u16, height: u16, delay: u16, a: Seq<Seq<u8>>, b: Seq<Seq<u8>>)
    ensures
        pictures_bytes(width, height, delay, a + b) == pictures_bytes(width, height, delay, a) + pictures_bytes(
            width,
            height,
            delay,
            b,
        ),
        a.len() == 1 ==> pictures_bytes(width, height, delay, a) == picture_bytes(width, height, delay, a[0]),
    decreases b.len(),
{
    if a.len() == 1 {
        reveal_with_fuel(pictures_bytes, 2);
        assert(pictures_bytes(width, height, delay, a) =~= picture_bytes(width, height, delay, a[0]));
    }
    if b.len() == 0 {
        assert(a + b =~= a);
        assert(pictures_bytes(width, height, delay, a) + pictures_bytes(width, height, delay, b) =~= pictures_bytes(
            width,
            height,
            delay,
            a,
        ));
    } else {
        assert((a + b).drop_last() =~= a + b.drop_last());
        assert((a + b).last() == b.last());
        law_frames_follow_each_other(width, height, delay, a, b.drop_last());
        assert(pictures_bytes(width, height, delay, a + b) =~= pictures_bytes(width, height, delay, a)
            + pictures_bytes(width, height, delay, b));
    }
}

/// A file begins with the signature and the size of the picture, low bytes first, holds the frames
/// behind the block that repeats them, and ends in the trailer.
pub proof fn law_file_holds_its_frames(width: u16, height: u16, delay: u16, pictures: Seq<Seq<u8>>)
    ensures
        ({
            let file = gif_file(width, height, delay, pictures);
            let frames = pictures_bytes(width, height, delay, pictures);
            &&& file.len() == frames.len() + 39
            &&& file.take(6) == seq![71u8, 73u8, 70u8, 56u8, 57u8, 97u8]
            &&& file[6] + 256 * file[7] == width
            &&& file[8] + 256 * file[9] == height
            &&& file.subrange(19, 38) == repeat_block()
            &&& file.subrange(38, file.len() - 1) == frames
            &&& file.last() == 0x3b
        }),
{
    let file = gif_file(width, height, delay, pictures);
    let frames = pictures_bytes(width, height, delay, pictures);
    assert(file.take(6) =~= seq![71u8, 73u8, 70u8, 56u8, 57u8, 97u8]);
    assert(file.subrange(19, 38) =~= repeat_block());
    assert(file.subrange(38, file.len() - 1) =~= frames);
}

/// The pictures of some frames are theirs in order, each without its alpha.
pub proof fn law_pictures_follow_their_frames(frames: Seq<Vec<u8>>, i: int)
    requires
        0 <= i < frames.len(),
    ensures
        pictures_of(frames).len() == frames.len(),
        pictures_of(frames)[i] == without_alpha(frames[i]@),
{
}

/// The frame of a picture is what the encoder writes for its size, its delay, and the colour table
/// and entries that the picture is reduced to.
pub proof fn law_frame_of_a_picture(width: u16, height: u16, delay: u16, rgb: Seq<u8>, palette: Seq<u8>, indices: Seq<u8>)
    requires
        reduced(width, height, rgb) == (palette, indices),
    ensures
        picture_bytes(width, height, delay, rgb) == frame_bytes(width, height, delay, palette, indices),
        gif_file(width, height, delay, seq![rgb]).subrange(
            38,
            gif_file(width, height, delay, seq![rgb]).len() - 1,
        ) == frame_bytes(width, height, delay, palette, indices),
{
    law_file_holds_its_frames(width, height, delay, seq![rgb]);
    law_frames_follow_each_other(width, height, delay, seq![rgb], Seq::empty());
}

} // verus!
