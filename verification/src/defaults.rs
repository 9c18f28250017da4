//! Decimal measures and the values that settings have when nothing is chosen.
use vstd::prelude::*;

use crate::instances::{balance, sides};
use crate::layers::{layer_has_sprite, layer_shows, prop_has_sprite};
use crate::lighting::{length_values, lighting_profile, mood_values, ShadowLook};
use crate::settings::{
    AtmoLayer, AtmoSettings, AtmoType, AttachmentSurface, LightingPreset, MountSide, PostSettings, PropInstance, PropType,
    PropsSettings,
};

verus! {

/// A decimal number, in thousandths.
#[derive(Clone, Copy, Debug, PartialEq, Eq, Structural)]
pub struct Milli(pub i32);

/// The default lighting preset.
#[verifier::allow_in_spec]
pub fn default_lighting_preset() -> LightingPreset
    returns
        LightingPreset::Balanced,
{
    LightingPreset::Balanced
}

/// The default atmo light influence.
#[verifier::allow_in_spec]
pub fn default_atmo_light_influence() -> Milli
    returns
        Milli(350),
{
    Milli(350)
}

/// The default atmo tint influence.
#[verifier::allow_in_spec]
pub fn default_atmo_tint_influence() -> Milli
    returns
        Milli(280),
{
    Milli(280)
}

/// The default grass color.
#[verifier::allow_in_spec]
pub fn default_grass_color() -> [u8; 3]
    returns
        [28u8, 90u8, 18u8],
{
    [28, 90, 18]
}

/// The default grass density.
#[verifier::allow_in_spec]
pub fn default_grass_density() -> Milli
    returns
        Milli(1000),
{
    Milli(1000)
}

/// The default grass height.
#[verifier::allow_in_spec]
pub fn default_grass_height() -> Milli
    returns
        Milli(1000),
{
    Milli(1000)
}

/// The default grass upright.
#[verifier::allow_in_spec]
pub fn default_grass_upright() -> Milli
    returns
        Milli(800),
{
    Milli(800)
}

/// The default ambient.
#[verifier::allow_in_spec]
pub fn default_ambient() -> Milli
    returns
        Milli(1000),
{
    Milli(1000)
}

/// The default horizon curve.
#[verifier::allow_in_spec]
pub fn default_horizon_curve() -> Milli
    returns
        Milli(0),
{
    Milli(0)
}

/// The default curve top weight.
#[verifier::allow_in_spec]
pub fn default_curve_top_weight() -> Milli
    returns
        Milli(1000),
{
    Milli(1000)
}

/// The default curve bottom weight.
#[verifier::allow_in_spec]
pub fn default_curve_bottom_weight() -> Milli
    returns
        Milli(1000),
{
    Milli(1000)
}

/// The default tex scale.
#[verifier::allow_in_spec]
pub fn default_tex_scale() -> Milli
    returns
        Milli(3000),
{
    Milli(3000)
}

/// The default tex rot 90.
#[verifier::allow_in_spec]
pub fn default_tex_rot_90() -> bool
    returns
        false,
{
    false
}

/// The default damage.
#[verifier::allow_in_spec]
pub fn default_damage() -> Milli
    returns
        Milli(240),
{
    Milli(240)
}

/// The switch position that most effects start in.
#[verifier::allow_in_spec]
pub fn bool_true() -> bool
    returns
        true,
{
    true
}

/// The default wall top coverage.
#[verifier::allow_in_spec]
pub fn default_wall_top_coverage() -> Milli
    returns
        Milli(180),
{
    Milli(180)
}

/// The default sun pos.
#[verifier::allow_in_spec]
pub fn default_sun_pos() -> [Milli; 2]
    returns
        [Milli(780), Milli(220)],
{
    [Milli(780), Milli(220)]
}

/// The default sun radius.
#[verifier::allow_in_spec]
pub fn default_sun_radius() -> Milli
    returns
        Milli(90),
{
    Milli(90)
}

/// The default sun color.
#[verifier::allow_in_spec]
pub fn default_sun_color() -> [u8; 3]
    returns
        [255u8, 235u8, 180u8],
{
    [255, 235, 180]
}

/// The default moon pos.
#[verifier::allow_in_spec]
pub fn default_moon_pos() -> [Milli; 2]
    returns
        [Milli(220), Milli(250)],
{
    [Milli(220), Milli(250)]
}

/// The default moon radius.
#[verifier::allow_in_spec]
pub fn default_moon_radius() -> Milli
    returns
        Milli(70),
{
    Milli(70)
}

/// The default moon color.
#[verifier::allow_in_spec]
pub fn default_moon_color() -> [u8; 3]
    returns
        [225u8, 232u8, 255u8],
{
    [225, 232, 255]
}

/// The default moon phase.
#[verifier::allow_in_spec]
pub fn default_moon_phase() -> Milli
    returns
        Milli(0),
{
    Milli(0)
}

/// The default moon alpha.
#[verifier::allow_in_spec]
pub fn default_moon_alpha() -> Milli
    returns
        Milli(880),
{
    Milli(880)
}

/// The default moon texture scale.
#[verifier::allow_in_spec]
pub fn default_moon_texture_scale() -> Milli
    returns
        Milli(1000),
{
    Milli(1000)
}

/// The default stars count.
#[verifier::allow_in_spec]
pub fn default_stars_count() -> u32
    returns
        120u32,
{
    120
}

/// The default stars size.
#[verifier::allow_in_spec]
pub fn default_stars_size() -> Milli
    returns
        Milli(1400),
{
    Milli(1400)
}

/// The default stars twinkle.
#[verifier::allow_in_spec]
pub fn default_stars_twinkle() -> Milli
    returns
        Milli(500),
{
    Milli(500)
}

/// The default cloud count.
#[verifier::allow_in_spec]
pub fn default_cloud_count() -> u32
    returns
        16u32,
{
    16
}

/// The default cloud speed.
#[verifier::allow_in_spec]
pub fn default_cloud_speed() -> Milli
    returns
        Milli(350),
{
    Milli(350)
}

/// The default cloud scale.
#[verifier::allow_in_spec]
pub fn default_cloud_scale() -> Milli
    returns
        Milli(1000),
{
    Milli(1000)
}

/// The default cloud opacity.
#[verifier::allow_in_spec]
pub fn default_cloud_opacity() -> Milli
    returns
        Milli(350),
{
    Milli(350)
}

/// The default cloud tint.
#[verifier::allow_in_spec]
pub fn default_cloud_tint() -> [u8; 3]
    returns
        [218u8, 224u8, 232u8],
{
    [218, 224, 232]
}

/// The default cloud variation.
#[verifier::allow_in_spec]
pub fn default_cloud_variation() -> Milli
    returns
        Milli(550),
{
    Milli(550)
}

/// The default surface of a light.
#[verifier::allow_in_spec]
pub fn default_attachment_wall() -> AttachmentSurface
    returns
        AttachmentSurface::Wall,
{
    AttachmentSurface::Wall
}

/// The default surface of a prop.
#[verifier::allow_in_spec]
pub fn default_attachment_floating() -> AttachmentSurface
    returns
        AttachmentSurface::Floating,
{
    AttachmentSurface::Floating
}

/// The default side of a light.
#[verifier::allow_in_spec]
pub fn default_mount_side_both() -> MountSide
    returns
        MountSide::Both,
{
    MountSide::Both
}

/// The default side of a prop.
#[verifier::allow_in_spec]
pub fn default_mount_side_center() -> MountSide
    returns
        MountSide::Center,
{
    MountSide::Center
}

/// The default atmo jitter.
#[verifier::allow_in_spec]
pub fn default_atmo_jitter() -> Milli
    returns
        Milli(180),
{
    Milli(180)
}

/// The default atmo flicker.
#[verifier::allow_in_spec]
pub fn default_atmo_flicker() -> Milli
    returns
        Milli(1000),
{
    Milli(1000)
}

/// The default atmo scale.
#[verifier::allow_in_spec]
pub fn default_atmo_scale() -> Milli
    returns
        Milli(1000),
{
    Milli(1000)
}

/// The default sprite scale.
#[verifier::allow_in_spec]
pub fn default_sprite_scale() -> Milli
    returns
        Milli(1000),
{
    Milli(1000)
}

/// The default scale var.
#[verifier::allow_in_spec]
pub fn default_scale_var() -> Milli
    returns
        Milli(220),
{
    Milli(220)
}

/// The default x jitter.
#[verifier::allow_in_spec]
pub fn default_x_jitter() -> Milli
    returns
        Milli(180),
{
    Milli(180)
}

/// The default y sink.
#[verifier::allow_in_spec]
pub fn default_y_sink() -> Milli
    returns
        Milli(550),
{
    Milli(550)
}

/// The default ground blend.
#[verifier::allow_in_spec]
pub fn default_ground_blend() -> Milli
    returns
        Milli(350),
{
    Milli(350)
}

/// The default shadow size.
#[verifier::allow_in_spec]
pub fn default_shadow_size() -> Milli
    returns
        Milli(1000),
{
    Milli(1000)
}

/// The default shadow length.
#[verifier::allow_in_spec]
pub fn default_shadow_length() -> Milli
    returns
        Milli(1000),
{
    Milli(1000)
}

/// The default shadow follow light.
#[verifier::allow_in_spec]
pub fn default_shadow_follow_light() -> Milli
    returns
        Milli(650),
{
    Milli(650)
}

/// The default shadow opacity.
#[verifier::allow_in_spec]
pub fn default_shadow_opacity() -> Milli
    returns
        Milli(820),
{
    Milli(820)
}

/// The default shadow softness.
#[verifier::allow_in_spec]
pub fn default_shadow_softness() -> Milli
    returns
        Milli(1000),
{
    Milli(1000)
}

/// The default prop start wz.
#[verifier::allow_in_spec]
pub fn default_prop_start_wz() -> Milli
    returns
        Milli(150),
{
    Milli(150)
}

/// The default prop end wz.
#[verifier::allow_in_spec]
pub fn default_prop_end_wz() -> Milli
    returns
        Milli(30000),
{
    Milli(30000)
}

/// The default axis scale.
#[verifier::allow_in_spec]
pub fn default_axis_scale() -> Milli
    returns
        Milli(1000),
{
    Milli(1000)
}

/// The default path follow.
#[verifier::allow_in_spec]
pub fn default_path_follow() -> Milli
    returns
        Milli(650),
{
    Milli(650)
}

/// The default edge gap.
#[verifier::allow_in_spec]
pub fn default_edge_gap() -> Milli
    returns
        Milli(180),
{
    Milli(180)
}

/// The default tree row count.
#[verifier::allow_in_spec]
pub fn default_tree_row_count() -> u32
    returns
        1u32,
{
    1
}

/// The default tree row spacing.
#[verifier::allow_in_spec]
pub fn default_tree_row_spacing() -> Milli
    returns
        Milli(750),
{
    Milli(750)
}

/// The default tree row jitter.
#[verifier::allow_in_spec]
pub fn default_tree_row_jitter() -> Milli
    returns
        Milli(250),
{
    Milli(250)
}

/// The default saturation.
#[verifier::allow_in_spec]
pub fn default_saturation() -> Milli
    returns
        Milli(1000),
{
    Milli(1000)
}

/// The default gif cycles.
#[verifier::allow_in_spec]
pub fn default_gif_cycles() -> u32
    returns
        1u32,
{
    1
}

/// The default seamless lock.
#[verifier::allow_in_spec]
pub fn default_seamless_lock() -> bool
    returns
        true,
{
    true
}

/// Whether a layer is as built for a kind of light, with the given measures and the
/// defaults for everything else.
pub open spec fn is_fresh_layer(
    layer: AtmoLayer<Milli>,
    t: AtmoType,
    torch_h: Milli,
    torch_spc: u32,
    torch_scale: Milli,
    n_motes: u32,
    n_debris: u32,
) -> bool {
    &&& layer.enabled
    &&& layer.emits_light
    &&& layer.casts_shadow
    &&& layer.atmo_type == t
    &&& layer.torch_h == torch_h
    &&& layer.torch_spc == torch_spc
    &&& layer.torch_scale == torch_scale
    &&& layer.n_motes == n_motes
    &&& layer.n_debris == n_debris
    &&& layer.placement_jitter == default_atmo_jitter()
    &&& layer.flicker == default_atmo_flicker()
    &&& layer.fx_scale == default_atmo_scale()
    &&& layer.mount_surface == AttachmentSurface::Wall
    &&& layer.mount_side == MountSide::Both
    &&& layer.sprite_path@ == Seq::<char>::empty()
    &&& layer.sprite_pool_paths@ == Seq::<char>::empty()
    &&& !layer.sprite_pool_enabled
    &&& layer.sprite_scale == default_sprite_scale()
    &&& !layer.sprite_flip_x
    &&& !layer.sprite_flip_y
    &&& layer.sprite_rot_deg == Milli(0)
    &&& layer.sprite_offset_x == Milli(0)
    &&& layer.sprite_offset_y == Milli(0)
    &&& layer.variation_seed == 0
}

/// Builds a layer for a kind of light.
pub fn fresh_layer(t: AtmoType, torch_h: Milli, torch_spc: u32, torch_scale: Milli, n_motes: u32, n_debris: u32) -> (r:
    AtmoLayer<Milli>)
    ensures
        is_fresh_layer(r, t, torch_h, torch_spc, torch_scale, n_motes, n_debris),
{
    AtmoLayer {
        enabled: true,
        emits_light: true,
        casts_shadow: true,
        atmo_type: t,
        torch_h,
        torch_spc,
        torch_scale,
        n_motes,
        n_debris,
        placement_jitter: default_atmo_jitter(),
        flicker: default_atmo_flicker(),
        fx_scale: default_atmo_scale(),
        mount_surface: AttachmentSurface::Wall,
        mount_side: MountSide::Both,
        sprite_path: String::new(),
        sprite_pool_paths: String::new(),
        sprite_pool_enabled: false,
        sprite_scale: default_sprite_scale(),
        sprite_flip_x: false,
        sprite_flip_y: false,
        sprite_rot_deg: Milli(0),
        sprite_offset_x: Milli(0),
        sprite_offset_y: Milli(0),
        variation_seed: 0,
    }
}

impl AtmoLayer<Milli> {
    /// A new layer for a kind of light.
    pub fn new(t: AtmoType) -> (r: Self)
        ensures
            is_fresh_layer(r, t, Milli(2400), 4, Milli(68), 8, 4),
    {
        fresh_layer(t, Milli(2400), 4, Milli(68), 8, 4)
    }
}

impl Default for AtmoSettings<Milli> {
    fn default() -> (r: Self)
        ensures
            r.layers@.len() == 1,
            is_fresh_layer(r.layers@[0], AtmoType::Torch, Milli(2400), 4, Milli(68), 8, 4),
    {
        let mut layers: Vec<AtmoLayer<Milli>> = Vec::new();
        layers.push(AtmoLayer::new(AtmoType::Torch));
        AtmoSettings { layers }
    }
}

/// Whether a prop is as built for a kind, with the given placement and the defaults for
/// everything else.
pub open spec fn is_fresh_prop(
    prop: PropInstance<Milli>,
    t: PropType,
    wx: Milli,
    mirror: bool,
    z_spacing: Milli,
    scale: Milli,
    seed: u32,
) -> bool {
    &&& prop.enabled
    &&& !prop.emits_light
    &&& prop.casts_shadow
    &&& prop.prop_type == t
    &&& prop.pos_x == Milli(0)
    &&& prop.pos_y == Milli(0)
    &&& prop.pos_z == Milli(0)
    &&& !prop.pixel_hitbox_enabled
    &&& prop.mount_surface == AttachmentSurface::Floating
    &&& prop.mount_side == MountSide::Center
    &&& prop.wx == wx
    &&& prop.mirror == mirror
    &&& prop.z_spacing == z_spacing
    &&& prop.start_wz == default_prop_start_wz()
    &&& prop.end_wz == default_prop_end_wz()
    &&& prop.scale == scale
    &&& prop.width_scale == default_axis_scale()
    &&& prop.height_scale == default_axis_scale()
    &&& prop.tint == t.native_tint()
    &&& prop.scale_var == default_scale_var()
    &&& prop.x_jitter == default_x_jitter()
    &&& prop.x_jitter_enabled
    &&& prop.y_jitter == Milli(0)
    &&& !prop.y_jitter_enabled
    &&& prop.width_var == Milli(0)
    &&& prop.height_var == Milli(0)
    &&& prop.path_follow == default_path_follow()
    &&& prop.edge_gap == default_edge_gap()
    &&& prop.y_sink == default_y_sink()
    &&& prop.ground_blend == default_ground_blend()
    &&& prop.shadow_size == default_shadow_size()
    &&& prop.shadow_length == default_shadow_length()
    &&& prop.shadow_dir == Milli(0)
    &&& prop.shadow_follow_light == default_shadow_follow_light()
    &&& prop.shadow_opacity == default_shadow_opacity()
    &&& prop.shadow_softness == default_shadow_softness()
    &&& prop.sprite_path@ == Seq::<char>::empty()
    &&& prop.sprite_pool_paths@ == Seq::<char>::empty()
    &&& !prop.sprite_pool_enabled
    &&& prop.sprite_scale == default_sprite_scale()
    &&& !prop.sprite_flip_x
    &&& !prop.sprite_flip_y
    &&& prop.sprite_rot_deg == Milli(0)
    &&& prop.sprite_offset_x == Milli(0)
    &&& prop.sprite_offset_y == Milli(0)
    &&& prop.tree_style_mix == Milli(250)
    &&& prop.tree_style_bias == Milli(0)
    &&& prop.tree_row_count == default_tree_row_count()
    &&& prop.tree_row_spacing == default_tree_row_spacing()
    &&& prop.tree_row_jitter == default_tree_row_jitter()
    &&& prop.seed == seed
}

/// Builds a prop of a kind.
pub fn fresh_prop(t: PropType, wx: Milli, mirror: bool, z_spacing: Milli, scale: Milli, seed: u32) -> (r: PropInstance<
    Milli,
>)
    ensures
        is_fresh_prop(r, t, wx, mirror, z_spacing, scale, seed),
{
    PropInstance {
        enabled: true,
        emits_light: false,
        casts_shadow: true,
        prop_type: t,
        pos_x: Milli(0),
        pos_y: Milli(0),
        pos_z: Milli(0),
        pixel_hitbox_enabled: false,
        mount_surface: AttachmentSurface::Floating,
        mount_side: MountSide::Center,
        wx,
        mirror,
        z_spacing,
        start_wz: default_prop_start_wz(),
        end_wz: default_prop_end_wz(),
        scale,
        width_scale: default_axis_scale(),
        height_scale: default_axis_scale(),
        tint: t.default_tint(),
        scale_var: default_scale_var(),
        x_jitter: default_x_jitter(),
        x_jitter_enabled: true,
        y_jitter: Milli(0),
        y_jitter_enabled: false,
        width_var: Milli(0),
        height_var: Milli(0),
        path_follow: default_path_follow(),
        edge_gap: default_edge_gap(),
        y_sink: default_y_sink(),
        ground_blend: default_ground_blend(),
        shadow_size: default_shadow_size(),
        shadow_length: default_shadow_length(),
        shadow_dir: Milli(0),
        shadow_follow_light: default_shadow_follow_light(),
        shadow_opacity: default_shadow_opacity(),
        shadow_softness: default_shadow_softness(),
        sprite_path: String::new(),
        sprite_pool_paths: String::new(),
        sprite_pool_enabled: false,
        sprite_scale: default_sprite_scale(),
        sprite_flip_x: false,
        sprite_flip_y: false,
        sprite_rot_deg: Milli(0),
        sprite_offset_x: Milli(0),
        sprite_offset_y: Milli(0),
        tree_style_mix: Milli(250),
        tree_style_bias: Milli(0),
        tree_row_count: default_tree_row_count(),
        tree_row_spacing: default_tree_row_spacing(),
        tree_row_jitter: default_tree_row_jitter(),
        seed,
    }
}

impl PropInstance<Milli> {
    /// A new prop of a kind.
    pub fn new(t: PropType) -> (r: Self)
        ensures
            is_fresh_prop(r, t, Milli(1400), true, Milli(4000), Milli(1000), 42),
    {
        fresh_prop(t, Milli(1400), true, Milli(4000), Milli(1000), 42)
    }
}

impl<N> Default for PropsSettings<N> {
    fn default() -> (r: Self)
        ensures
            r.items@.len() == 0,
    {
        PropsSettings { items: Vec::new() }
    }
}

/// The effects with a vignette and a fog, and the defaults for everything else.
#[verifier::allow_in_spec]
pub fn post(vignette: Milli, fog_enabled: bool, fog_color: [u8; 3], fog_density: Milli) -> PostSettings<Milli>
    returns
        (PostSettings {
            vignette_enabled: true,
            vignette,
            fog_enabled,
            fog_color,
            fog_density,
            bloom_enabled: true,
            bloom: Milli(0),
            grain_enabled: true,
            grain: Milli(0),
            saturation_enabled: true,
            saturation: Milli(1000),
            realtime_lighting_enabled: true,
            realtime_shadows_enabled: true,
        }),
{
    PostSettings {
        vignette_enabled: true,
        vignette,
        fog_enabled,
        fog_color,
        fog_density,
        bloom_enabled: true,
        bloom: Milli(0),
        grain_enabled: true,
        grain: Milli(0),
        saturation_enabled: true,
        saturation: default_saturation(),
        realtime_lighting_enabled: true,
        realtime_shadows_enabled: true,
    }
}

impl Default for PostSettings<Milli> {
    fn default() -> (r: Self)
        ensures
            r == post(Milli(0), false, [40u8, 35u8, 30u8], Milli(300)),
    {
        post(Milli(0), false, [40, 35, 30], Milli(300))
    }
}

/// What a new scene starts with is the balanced mood, and a new prop's shadow is the natural one.
pub proof fn law_defaults_are_balanced()
    ensures
        default_ambient() == mood_values(default_lighting_preset()).ambient,
        default_atmo_light_influence() == mood_values(default_lighting_preset()).atmo_light_influence,
        default_atmo_tint_influence() == mood_values(default_lighting_preset()).atmo_tint_influence,
        default_shadow_follow_light() == mood_values(default_lighting_preset()).shadow_follow_light,
        default_shadow_size() == ShadowLook::Natural.values().size,
        default_shadow_length() == ShadowLook::Natural.values().length,
        default_shadow_softness() == ShadowLook::Natural.values().softness,
        default_shadow_opacity() == ShadowLook::Natural.values().opacity,
        lighting_profile(default_lighting_preset()).ambient_mult == default_ambient(),
        length_values(default_lighting_preset()).least.0 <= default_shadow_length().0 <= length_values(
            default_lighting_preset(),
        ).most.0,
{
}

/// The factors that leave a thing as it is are one, and what is bent, turned or moved starts at
/// nothing.
pub proof fn law_neutral_defaults()
    ensures
        default_grass_density() == default_ambient(),
        default_grass_height() == default_ambient(),
        default_curve_top_weight() == default_curve_bottom_weight(),
        default_curve_top_weight() == default_ambient(),
        default_moon_texture_scale() == default_ambient(),
        default_cloud_scale() == default_ambient(),
        default_atmo_flicker() == default_ambient(),
        default_atmo_scale() == default_ambient(),
        default_sprite_scale() == default_ambient(),
        default_axis_scale() == default_ambient(),
        default_saturation() == default_ambient(),
        default_ambient().0 == 1000,
        default_horizon_curve().0 == 0,
        default_moon_phase().0 == 0,
        !default_tex_rot_90(),
        bool_true() && default_seamless_lock(),
        default_gif_cycles() == default_tree_row_count(),
        default_gif_cycles() == 1,
{
}

/// The sun is warm and larger than the moon, which is cool; they stand apart, in the upper part of the
/// picture. Clouds are cool and grass is green.
pub proof fn law_default_sky()
    ensures
        default_sun_color()[0] > default_sun_color()[1] > default_sun_color()[2],
        default_moon_color()[0] < default_moon_color()[1] < default_moon_color()[2],
        default_cloud_tint()[0] < default_cloud_tint()[1] < default_cloud_tint()[2],
        default_grass_color()[1] > default_grass_color()[0] > default_grass_color()[2],
        0 < default_moon_radius().0 < default_sun_radius().0 < 1000,
        0 < default_moon_pos()[0].0 < default_sun_pos()[0].0 < 1000,
        default_moon_pos()[0].0 + default_sun_pos()[0].0 == 1000,
        0 < default_sun_pos()[1].0 < default_moon_pos()[1].0 < 500,
        0 < default_cloud_count() < default_stars_count() <= 8000,
        0 < default_moon_alpha().0 < 1000,
{
}

/// What is a share of something is one: it lies between nothing and the whole. Props stand in front of
/// the camera, from near to far.
pub proof fn law_default_shares()
    ensures
        0 < default_atmo_light_influence().0 < 1000,
        0 < default_atmo_tint_influence().0 < default_atmo_light_influence().0,
        0 < default_grass_upright().0 < 1000,
        0 < default_damage().0 < 1000,
        0 < default_wall_top_coverage().0 < 1000,
        0 < default_stars_twinkle().0 < 1000,
        0 < default_cloud_speed().0 < 1000,
        default_cloud_opacity() == default_cloud_speed(),
        0 < default_cloud_variation().0 < 1000,
        default_atmo_jitter() == default_x_jitter(),
        default_edge_gap() == default_x_jitter(),
        default_wall_top_coverage() == default_x_jitter(),
        default_y_sink() == default_cloud_variation(),
        default_ground_blend() == default_atmo_light_influence(),
        default_path_follow() == default_shadow_follow_light(),
        0 < default_scale_var().0 < 1000,
        3 * default_tree_row_jitter().0 == default_tree_row_spacing().0,
        0 < default_prop_start_wz().0 < default_prop_end_wz().0,
        default_tex_scale().0 == 3 * default_axis_scale().0,
{
}

/// Lights hang on both walls and props stand in the middle.
pub proof fn law_default_mounts()
    ensures
        sides(default_mount_side_both()).len() == 2,
        sides(default_mount_side_center()).len() == 1,
        balance(sides(default_mount_side_both())) == balance(sides(default_mount_side_center())),
        default_attachment_wall() != default_attachment_floating(),
        default_attachment_wall() is Wall,
        default_attachment_floating() is Floating,
{
    crate::instances::law_both_sides_are_left_and_right();
    reveal_with_fuel(balance, 3);
    assert(sides(default_mount_side_center()).drop_last() =~= Seq::<(i8, u32)>::empty());
}

/// A new layer hangs on both walls, sheds light and shadow, has no sprite, and shows something unless it
/// is unlit and without motes and debris.
pub proof fn law_fresh_layers(
    layer: AtmoLayer<Milli>,
    t: AtmoType,
    torch_h: Milli,
    torch_spc: u32,
    torch_scale: Milli,
    n_motes: u32,
    n_debris: u32,
)
    requires
        is_fresh_layer(layer, t, torch_h, torch_spc, torch_scale, n_motes, n_debris),
    ensures
        layer_shows(layer) <==> t != AtmoType::Unlit || n_motes > 0 || n_debris > 0,
        !layer_has_sprite(layer),
        layer.mount_side == default_mount_side_both(),
        layer.mount_surface == default_attachment_wall(),
        layer.emits_light && layer.casts_shadow && layer.enabled,
        layer.torch_h == torch_h && layer.torch_spc == torch_spc && layer.torch_scale == torch_scale,
        layer.n_motes == n_motes && layer.n_debris == n_debris && layer.atmo_type == t,
        layer.flicker.0 == 1000 && layer.fx_scale.0 == 1000 && layer.sprite_scale.0 == 1000,
        layer.placement_jitter == default_x_jitter(),
        layer.variation_seed == 0,
{
}

/// A new prop stands free in the middle, has the colour of its kind, a natural shadow and no light, no
/// sprite and its own measures.
pub proof fn law_fresh_props(
    prop: PropInstance<Milli>,
    t: PropType,
    wx: Milli,
    mirror: bool,
    z_spacing: Milli,
    scale: Milli,
    seed: u32,
)
    requires
        is_fresh_prop(prop, t, wx, mirror, z_spacing, scale, seed),
    ensures
        !prop_has_sprite(prop),
        prop.enabled && prop.casts_shadow && !prop.emits_light,
        prop.prop_type == t && prop.tint == t.native_tint(),
        prop.mount_side == default_mount_side_center() && prop.mount_surface == default_attachment_floating(),
        prop.wx == wx && prop.mirror == mirror && prop.z_spacing == z_spacing && prop.scale == scale && prop.seed == seed,
        prop.width_scale == prop.height_scale && prop.width_scale.0 == 1000,
        prop.pos_x.0 == 0 && prop.pos_y.0 == 0 && prop.pos_z.0 == 0,
        prop.x_jitter_enabled && !prop.y_jitter_enabled && prop.y_jitter.0 == 0,
        prop.width_var.0 == 0 && prop.height_var.0 == 0,
        prop.shadow_size == ShadowLook::Natural.values().size,
        prop.shadow_length == ShadowLook::Natural.values().length,
        prop.shadow_softness == ShadowLook::Natural.values().softness,
        prop.shadow_opacity == ShadowLook::Natural.values().opacity,
        prop.shadow_follow_light == mood_values(default_lighting_preset()).shadow_follow_light,
        prop.start_wz.0 < prop.end_wz.0,
        prop.tree_row_count == 1,
        4 * prop.tree_style_mix.0 == 1000 && prop.tree_style_bias.0 == 0,
{
}

/// The effects of a scene have the vignette and the fog that were asked for; bloom, grain and saturation
/// are ready but change nothing.
pub proof fn law_effects_as_asked(vignette: Milli, fog: bool, color: [u8; 3], density: Milli)
    ensures
        ({
            let p = post(vignette, fog, color, density);
            &&& p.vignette == vignette && p.fog_enabled == fog && p.fog_color == color && p.fog_density == density
            &&& p.vignette_enabled && p.bloom_enabled && p.grain_enabled && p.saturation_enabled
            &&& p.bloom.0 == 0 && p.grain.0 == 0 && p.saturation == default_saturation()
            &&& p.realtime_lighting_enabled && p.realtime_shadows_enabled
        }),
{
}

} // verus!
