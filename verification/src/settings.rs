//! The settings of a scene.
//!
//! Measures such as sizes, strengths and angles have the type `N`, which the library
//! never computes with: presets give them as decimal numbers, and a renderer holds them
//! in the representation that it draws with.
use vstd::prelude::*;

use crate::text::{chars_of, digit_value, digits_value, number_value, parse_number, strip_start, stripped_start, CharClass};

pub use crate::kinds::{AtmoType, AttachmentSurface, FloorPattern, LightingPreset, MountSide, PropType, WallPattern};

verus! {

/// The default canvas width.
pub const CANVAS_W: usize = 480;

/// The default canvas height.
pub const CANVAS_H: usize = 854;

/// The side of a placeholder tile.
pub const TILE: usize = 32;

/// The middle of the default canvas.
pub const CX: usize = CANVAS_W / 2;

/// The size of the canvas. In landscape, width and height change places.
#[derive(Clone, Copy, Debug, PartialEq, Eq, Structural)]
pub struct CanvasSettings {
    /// The width in portrait.
    pub base_w: u32,
    /// The height in portrait.
    pub base_h: u32,
    pub landscape: bool,
}

impl CanvasSettings {
    /// The width of the canvas.
    pub open spec fn width(self) -> nat {
        if self.landscape {
            self.base_h as nat
        } else {
            self.base_w as nat
        }
    }

    /// The height of the canvas.
    pub open spec fn height(self) -> nat {
        if self.landscape {
            self.base_w as nat
        } else {
            self.base_h as nat
        }
    }

    /// The width of the canvas.
    pub fn w(&self) -> (r: usize)
        ensures
            r == self.width(),
    {
        if self.landscape {
            self.base_h as usize
        } else {
            self.base_w as usize
        }
    }

    /// The height of the canvas.
    pub fn h(&self) -> (r: usize)
        ensures
            r == self.height(),
    {
        if self.landscape {
            self.base_w as usize
        } else {
            self.base_h as usize
        }
    }
}

impl Default for CanvasSettings {
    fn default() -> (r: Self)
        ensures
            r == (CanvasSettings { base_w: 480, base_h: 854, landscape: false }),
    {
        CanvasSettings { base_w: 480, base_h: 854, landscape: false }
    }
}

/// Turning the canvas swaps its width and height and keeps its area.
pub proof fn law_turning_swaps_sides(c: CanvasSettings)
    ensures
        ({
            let turned = CanvasSettings { landscape: !c.landscape, ..c };
            &&& turned.width() == c.height()
            &&& turned.height() == c.width()
            &&& turned.width() * turned.height() == c.width() * c.height()
        }),
{
    assert(c.width() * c.height() == c.height() * c.width()) by (nonlinear_arith);
}

/// The colour of a hexadecimal code, with any number of `#` before it: the low 24 bits of the
/// number, or black where there is none.
pub open spec fn code_colour(code: Seq<char>) -> [u8; 3] {
    let v = match number_value(strip_start(code, CharClass::Hash), 16) {
        Some(n) => n as int,
        None => 0,
    };
    [(v / 65536 % 256) as u8, (v / 256 % 256) as u8, (v % 256) as u8]
}

/// Reads a hexadecimal colour code.
pub fn hex_to_rgb(hex: &str) -> (r: [u8; 3])
    ensures
        r == code_colour(hex@),
{
    let code: Vec<char> = stripped_start(&chars_of(hex), CharClass::Hash);
    let v: u32 = match parse_number(&code, 16) {
        Some(n) => n,
        None => 0,
    };
    [(v / 65536 % 256) as u8, (v / 256 % 256) as u8, (v % 256) as u8]
}

/// The camera, the path and the ground beside it.
#[derive(Clone, Debug)]
pub struct SceneSettings<N> {
    /// 80..260 (scales with 576x768 default)
    pub horizon_y: u32,
    /// -1.0..1.0 vertical lens-like world bend
    pub horizon_curve: N,
    /// 0.0..2.0 top perspective bend weight
    pub curve_top_weight: N,
    /// 0.0..2.0 bottom perspective bend weight
    pub curve_bottom_weight: N,
    /// 30..176
    pub max_hw: N,
    /// 0.5..4.0
    pub cam_h: N,
    /// 0.5..2.0
    pub focal_mult: N,
    /// 0.25..2.5
    pub path_power: N,
    pub void_color: [u8; 3],
    pub grass_enabled: bool,
    pub grass_color: [u8; 3],
    pub grass_density: N,
    pub grass_height: N,
    pub grass_upright: N,
    /// 0.0..1.0  (floor/wall base brightness scale)
    pub ambient: N,
    pub lighting_preset: LightingPreset,
    pub atmo_light_influence: N,
    pub atmo_tint_influence: N,
}

/// The floor of the path.
#[derive(Clone, Debug)]
pub struct FloorSettings<N> {
    /// 0.5..10.0
    pub depth_fade: N,
    /// 0.0..1.0
    pub edge_vignette: N,
    /// 0..30
    pub noise: u32,
    /// 0.25..8.0 (higher = denser/smaller material detail)
    pub tex_scale: N,
    /// Rotate material mapping by 90deg
    pub tex_rot_90: bool,
    /// 0.0..1.0 random cracks/chips amount
    pub damage: N,
    /// Material variation seed
    pub variation_seed: u32,
    pub pattern: FloorPattern,
    pub base: [u8; 3],
    pub mortar: [u8; 3],
}

/// The walls beside the path.
#[derive(Clone, Debug)]
pub struct WallSettings<N> {
    pub enabled: bool,
    /// 0.0..1.0 (1.0 = walls extend to top of frame)
    pub top_coverage: N,
    /// 0.3..2.5 - wall distance from centre
    pub l_wx: N,
    /// 0.4..5.0
    pub bright: N,
    /// 2..60
    pub junc_shadow: N,
    /// 4..60
    pub fade_rows: u32,
    /// 0..25
    pub noise: u32,
    /// 0.25..8.0 (higher = denser/smaller material detail)
    pub tex_scale: N,
    /// Rotate material mapping by 90deg
    pub tex_rot_90: bool,
    /// 0.0..1.0 random cracks/chips amount
    pub damage: N,
    pub variation_seed: u32,
    pub pattern: WallPattern,
    pub base: [u8; 3],
    pub mortar: [u8; 3],
}

/// The sky above the horizon.
#[derive(Clone, Debug)]
pub struct SkySettings<N> {
    pub enabled: bool,
    /// Colour at top of screen
    pub top: [u8; 3],
    /// Colour at horizon
    pub horizon: [u8; 3],
    pub sun_enabled: bool,
    pub sun_emits_light: bool,
    /// Normalized x,y in sky area
    pub sun_pos: [N; 2],
    /// -1..1 horizon depth bias (positive = longer shadows)
    pub sun_z: N,
    pub sun_radius: N,
    pub sun_color: [u8; 3],
    pub moon_enabled: bool,
    pub moon_emits_light: bool,
    pub moon_pos: [N; 2],
    /// -1..1 horizon depth bias (positive = longer shadows)
    pub moon_z: N,
    pub moon_radius: N,
    pub moon_color: [u8; 3],
    /// -1..1 (negative=waning, positive=waxing)
    pub moon_phase: N,
    /// 0..1 moon transparency
    pub moon_alpha: N,
    pub moon_texture_enabled: bool,
    pub moon_texture_scale: N,
    pub stars_enabled: bool,
    pub stars_count: u32,
    pub stars_seed: u32,
    pub stars_size: N,
    pub stars_twinkle: N,
    pub clouds_enabled: bool,
    pub cloud_count: u32,
    pub cloud_seed: u32,
    pub cloud_speed: N,
    pub cloud_scale: N,
    pub cloud_opacity: N,
    pub cloud_tint: [u8; 3],
    pub cloud_variation: N,
}

/// One layer of lights, motes and debris along the path.
#[derive(Clone, Debug)]
pub struct AtmoLayer<N> {
    pub enabled: bool,
    pub emits_light: bool,
    pub casts_shadow: bool,
    pub atmo_type: AtmoType,
    /// 0.3..5.0
    pub torch_h: N,
    /// 1..8
    pub torch_spc: u32,
    /// 0.01..0.20
    pub torch_scale: N,
    /// 0..25
    pub n_motes: u32,
    /// 0..10
    pub n_debris: u32,
    /// 0..1 side-to-side/random depth variance
    pub placement_jitter: N,
    /// 0..2 flame pulse amount
    pub flicker: N,
    /// 0.2..3.0 glow/debris/motes scale
    pub fx_scale: N,
    pub mount_surface: AttachmentSurface,
    pub mount_side: MountSide,
    pub sprite_path: String,
    pub sprite_pool_paths: String,
    pub sprite_pool_enabled: bool,
    pub sprite_scale: N,
    pub sprite_flip_x: bool,
    pub sprite_flip_y: bool,
    pub sprite_rot_deg: N,
    pub sprite_offset_x: N,
    pub sprite_offset_y: N,
    pub variation_seed: u32,
}

/// The atmosphere layers.
#[derive(Clone, Debug)]
pub struct AtmoSettings<N> {
    pub layers: Vec<AtmoLayer<N>>,
}

/// One kind of prop, repeated along the path.
#[derive(Clone, Debug)]
pub struct PropInstance<N> {
    pub enabled: bool,
    pub emits_light: bool,
    pub casts_shadow: bool,
    pub prop_type: PropType,
    pub pos_x: N,
    pub pos_y: N,
    pub pos_z: N,
    pub pixel_hitbox_enabled: bool,
    pub mount_surface: AttachmentSurface,
    pub mount_side: MountSide,
    /// World-space lateral offset (positive = right)
    pub wx: N,
    /// Also place at -wx
    pub mirror: bool,
    /// World-Z gap between instances (should divide loop_s)
    pub z_spacing: N,
    /// Nearest distance at which props start rendering
    pub start_wz: N,
    /// Farthest draw distance for props
    pub end_wz: N,
    /// Size multiplier
    pub scale: N,
    pub width_scale: N,
    pub height_scale: N,
    pub tint: [u8; 3],
    /// Random scale variation +/- this fraction (0 = uniform, 0.3 = +/-30%)
    pub scale_var: N,
    /// Lateral jitter: random x offset as fraction of focal*wx/wz
    pub x_jitter: N,
    pub x_jitter_enabled: bool,
    pub y_jitter: N,
    pub y_jitter_enabled: bool,
    pub width_var: N,
    pub height_var: N,
    /// 0..1 blend between world-space placement and path-edge screen-space following.
    pub path_follow: N,
    /// Additional screen-space gap from edge when path-follow is active.
    pub edge_gap: N,
    /// Base sink: how far into the ground the prop base extends (0=float, 1=grounded)
    pub y_sink: N,
    /// Blend strength for props emerging from ground
    pub ground_blend: N,
    /// Ground shadow size multiplier
    pub shadow_size: N,
    /// Ground shadow cast length multiplier
    pub shadow_length: N,
    /// Manual shadow cast direction (-1 left, +1 right)
    pub shadow_dir: N,
    /// Blend factor to follow sun/moon direction for cast shadows
    pub shadow_follow_light: N,
    /// Final shadow darkness/intensity multiplier
    pub shadow_opacity: N,
    /// Shadow edge softness (higher = softer penumbra)
    pub shadow_softness: N,
    pub sprite_path: String,
    pub sprite_pool_paths: String,
    pub sprite_pool_enabled: bool,
    pub sprite_scale: N,
    pub sprite_flip_x: bool,
    pub sprite_flip_y: bool,
    pub sprite_rot_deg: N,
    pub sprite_offset_x: N,
    pub sprite_offset_y: N,
    /// 0..1 mix between selected tree type and other tree silhouettes
    pub tree_style_mix: N,
    /// -1..1 tree style distribution bias (negative=dead, positive=pine)
    pub tree_style_bias: N,
    /// Number of lateral tree rows to spawn for tree-like props
    pub tree_row_count: u32,
    /// Lateral spacing between extra tree rows
    pub tree_row_spacing: N,
    /// Random per-row lateral offset
    pub tree_row_jitter: N,
    /// Instance randomization seed
    pub seed: u32,
}

/// The props.
#[derive(Clone, Debug)]
pub struct PropsSettings<N> {
    pub items: Vec<PropInstance<N>>,
}

/// The effects that the finished picture goes through.
#[derive(Clone, Debug)]
pub struct PostSettings<N> {
    pub vignette_enabled: bool,
    /// 0.0..1.0
    pub vignette: N,
    pub fog_enabled: bool,
    pub fog_color: [u8; 3],
    /// 0.0..1.0
    pub fog_density: N,
    pub bloom_enabled: bool,
    /// Bloom intensity 0=off, 1=full
    pub bloom: N,
    pub grain_enabled: bool,
    /// Film grain intensity 0=off, 1=heavy
    pub grain: N,
    pub saturation_enabled: bool,
    /// Colour saturation: 0=greyscale, 1=normal, 2=vivid
    pub saturation: N,
    pub realtime_lighting_enabled: bool,
    pub realtime_shadows_enabled: bool,
}

/// The animation loop.
#[derive(Clone, Debug)]
pub struct AnimSettings<N> {
    /// 1..8  (keep integer for seamless GIF)
    pub loop_s: u32,
    /// 0.1..5.0
    pub play_speed: N,
    /// Extra seamless loop passes for export
    pub gif_cycles: u32,
    pub seamless_lock: bool,
}

/// Everything that a scene is rendered from.
#[derive(Clone, Debug)]
pub struct PathForgeSettings<N> {
    pub canvas: CanvasSettings,
    pub scene: SceneSettings<N>,
    pub floor: FloorSettings<N>,
    pub walls: WallSettings<N>,
    pub sky: SkySettings<N>,
    pub atmo: AtmoSettings<N>,
    pub props: PropsSettings<N>,
    pub post: PostSettings<N>,
    pub anim: AnimSettings<N>,
}

/// The hexadecimal digit of a number below sixteen.
pub open spec fn hex_digit(d: u8) -> char {
    if d < 10 {
        (48 + d) as char
    } else {
        (87 + d) as char
    }
}

proof fn lemma_hex_digit_more(s: Seq<char>, v: nat, d: u8)
    requires
        d < 16,
        digits_value(s, 16) == Some(v),
    ensures
        digits_value(s.push(hex_digit(d)), 16) == Some(v * 16 + d as nat),
        '0' <= hex_digit(d) <= 'f',
{
    assert(s.push(hex_digit(d)).drop_last() =~= s);
    assert(digit_value(hex_digit(d)) == Some(d as nat));
}

/// The code that is written for a colour is read back as that colour, with or without a `#`
/// before it.
#[verifier::rlimit(50)]
pub proof fn law_colour_codes_are_read_back(c: [u8; 3])
    ensures
        ({
            let code = seq![
                hex_digit((c[0] / 16) as u8),
                hex_digit((c[0] % 16) as u8),
                hex_digit((c[1] / 16) as u8),
                hex_digit((c[1] % 16) as u8),
                hex_digit((c[2] / 16) as u8),
                hex_digit((c[2] % 16) as u8),
            ];
            code_colour(code) == c && code_colour(seq!['#'] + code) == c
        }),
{
    let r = c[0];
    let g = c[1];
    let b = c[2];
    let s0 = Seq::<char>::empty();
    let s1 = s0.push(hex_digit((r / 16) as u8));
    let s2 = s1.push(hex_digit((r % 16) as u8));
    let s3 = s2.push(hex_digit((g / 16) as u8));
    let s4 = s3.push(hex_digit((g % 16) as u8));
    let s5 = s4.push(hex_digit((b / 16) as u8));
    let code = s5.push(hex_digit((b % 16) as u8));
    assert(digits_value(s0, 16) == Some(0nat));
    lemma_hex_digit_more(s0, 0, (r / 16) as u8);
    lemma_hex_digit_more(s1, (r / 16) as nat, (r % 16) as u8);
    lemma_hex_digit_more(s2, r as nat, (g / 16) as u8);
    lemma_hex_digit_more(s3, (r * 16 + g / 16) as nat, (g % 16) as u8);
    lemma_hex_digit_more(s4, (r * 256 + g) as nat, (b / 16) as u8);
    lemma_hex_digit_more(s5, (r * 4096 + g * 16 + b / 16) as nat, (b % 16) as u8);
    let v: int = r * 65536 + g * 256 + b;
    assert(digits_value(code, 16) == Some(v as nat));
    assert(code[0] == hex_digit((r / 16) as u8));
    assert(number_value(code, 16) == Some(v as u32));
    assert(v / 65536 % 256 == r && v / 256 % 256 == g && v % 256 == b);
    assert(strip_start(code, CharClass::Hash) == code);
    let marked = seq!['#'] + code;
    assert(marked.skip(1) =~= code);
    assert(strip_start(marked, CharClass::Hash) == strip_start(code, CharClass::Hash));
    assert(code_colour(code)@ =~= c@);
    assert(code_colour(code) =~= c);
    assert(code =~= seq![
        hex_digit((c[0] / 16) as u8),
        hex_digit((c[0] % 16) as u8),
        hex_digit((c[1] / 16) as u8),
        hex_digit((c[1] % 16) as u8),
        hex_digit((c[2] / 16) as u8),
        hex_digit((c[2] % 16) as u8),
    ]);
}

/// An upright canvas is as wide and as high as its base sides, and both canvases have them between
/// them.
pub proof fn law_upright_canvas_has_its_base_sides(c: CanvasSettings)
    ensures
        !c.landscape ==> c.width() == c.base_w && c.height() == c.base_h,
        c.landscape && c.base_w <= c.base_h ==> c.width() >= c.height(),
        c.width() + c.height() == c.base_w + c.base_h,
{
}

} // verus!
