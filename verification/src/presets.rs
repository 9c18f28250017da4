//! The scenes that come with the program.
use vstd::prelude::*;

use crate::defaults::{
    default_ambient, default_atmo_light_influence, default_atmo_tint_influence, default_cloud_count,
    default_cloud_opacity, default_cloud_scale, default_cloud_speed, default_cloud_tint, default_cloud_variation,
    default_curve_bottom_weight, default_curve_top_weight, default_damage, default_gif_cycles, default_grass_color,
    default_grass_density, default_grass_height, default_grass_upright, default_horizon_curve,
    default_lighting_preset, default_moon_alpha, default_moon_color, default_moon_phase, default_moon_pos,
    default_moon_radius, default_moon_texture_scale, default_seamless_lock, default_stars_count, default_stars_size,
    default_stars_twinkle, default_sun_color, default_sun_pos, default_sun_radius, default_tex_rot_90,
    default_tex_scale, default_wall_top_coverage, fresh_layer, fresh_prop, is_fresh_layer, is_fresh_prop, post, Milli,
};
use crate::settings::{
    AnimSettings, AtmoLayer, AtmoSettings, AtmoType, CanvasSettings, FloorPattern, FloorSettings, PathForgeSettings,
    PropInstance, PropType, PropsSettings, SceneSettings, SkySettings, WallPattern, WallSettings,
};

verus! {

/// A sky, with sun, stars and clouds where it is on.
#[verifier::allow_in_spec]
pub fn sky(on: bool, top: [u8; 3], horizon: [u8; 3]) -> SkySettings<Milli>
    returns
        (SkySettings {
            enabled: on,
            top,
            horizon,
            sun_enabled: on,
            sun_emits_light: true,
            sun_pos: default_sun_pos(),
            sun_z: Milli(0),
            sun_radius: default_sun_radius(),
            sun_color: default_sun_color(),
            moon_enabled: false,
            moon_emits_light: true,
            moon_pos: default_moon_pos(),
            moon_z: Milli(0),
            moon_radius: default_moon_radius(),
            moon_color: default_moon_color(),
            moon_phase: default_moon_phase(),
            moon_alpha: default_moon_alpha(),
            moon_texture_enabled: false,
            moon_texture_scale: default_moon_texture_scale(),
            stars_enabled: on,
            stars_count: default_stars_count(),
            stars_seed: 0,
            stars_size: default_stars_size(),
            stars_twinkle: default_stars_twinkle(),
            clouds_enabled: on,
            cloud_count: default_cloud_count(),
            cloud_seed: 0,
            cloud_speed: default_cloud_speed(),
            cloud_scale: default_cloud_scale(),
            cloud_opacity: default_cloud_opacity(),
            cloud_tint: default_cloud_tint(),
            cloud_variation: default_cloud_variation(),
        }),
{
    SkySettings {
        enabled: on,
        top,
        horizon,
        sun_enabled: on,
        sun_emits_light: true,
        sun_pos: default_sun_pos(),
        sun_z: Milli(0),
        sun_radius: default_sun_radius(),
        sun_color: default_sun_color(),
        moon_enabled: false,
        moon_emits_light: true,
        moon_pos: default_moon_pos(),
        moon_z: Milli(0),
        moon_radius: default_moon_radius(),
        moon_color: default_moon_color(),
        moon_phase: default_moon_phase(),
        moon_alpha: default_moon_alpha(),
        moon_texture_enabled: false,
        moon_texture_scale: default_moon_texture_scale(),
        stars_enabled: on,
        stars_count: default_stars_count(),
        stars_seed: 0,
        stars_size: default_stars_size(),
        stars_twinkle: default_stars_twinkle(),
        clouds_enabled: on,
        cloud_count: default_cloud_count(),
        cloud_seed: 0,
        cloud_speed: default_cloud_speed(),
        cloud_scale: default_cloud_scale(),
        cloud_opacity: default_cloud_opacity(),
        cloud_tint: default_cloud_tint(),
        cloud_variation: default_cloud_variation(),
    }
}

/// A scene without a sky.
#[verifier::allow_in_spec]
pub fn sky_off(void: [u8; 3]) -> SkySettings<Milli>
    returns
        sky(false, void, void),
{
    sky(false, void, void)
}

/// A sky between two colours.
#[verifier::allow_in_spec]
pub fn sky_on(top: [u8; 3], horizon: [u8; 3]) -> SkySettings<Milli>
    returns
        sky(true, top, horizon),
{
    sky(true, top, horizon)
}

/// A camera and a path, with or without grass beside it.
#[verifier::allow_in_spec]
pub fn scene(
    horizon_y: u32,
    max_hw: Milli,
    cam_h: Milli,
    focal_mult: Milli,
    path_power: Milli,
    void_color: [u8; 3],
    grass_enabled: bool,
) -> SceneSettings<Milli>
    returns
        (SceneSettings {
            horizon_y,
            horizon_curve: default_horizon_curve(),
            curve_top_weight: default_curve_top_weight(),
            curve_bottom_weight: default_curve_bottom_weight(),
            max_hw,
            cam_h,
            focal_mult,
            path_power,
            void_color,
            grass_enabled,
            grass_color: default_grass_color(),
            grass_density: default_grass_density(),
            grass_height: default_grass_height(),
            grass_upright: default_grass_upright(),
            ambient: default_ambient(),
            lighting_preset: default_lighting_preset(),
            atmo_light_influence: default_atmo_light_influence(),
            atmo_tint_influence: default_atmo_tint_influence(),
        }),
{
    SceneSettings {
        horizon_y,
        horizon_curve: default_horizon_curve(),
        curve_top_weight: default_curve_top_weight(),
        curve_bottom_weight: default_curve_bottom_weight(),
        max_hw,
        cam_h,
        focal_mult,
        path_power,
        void_color,
        grass_enabled,
        grass_color: default_grass_color(),
        grass_density: default_grass_density(),
        grass_height: default_grass_height(),
        grass_upright: default_grass_upright(),
        ambient: default_ambient(),
        lighting_preset: default_lighting_preset(),
        atmo_light_influence: default_atmo_light_influence(),
        atmo_tint_influence: default_atmo_tint_influence(),
    }
}

/// A camera and a path indoors.
#[verifier::allow_in_spec]
pub fn sc_indoor(
    horizon_y: u32,
    max_hw: Milli,
    cam_h: Milli,
    focal_mult: Milli,
    path_power: Milli,
    void_color: [u8; 3],
) -> SceneSettings<Milli>
    returns
        scene(horizon_y, max_hw, cam_h, focal_mult, path_power, void_color, false),
{
    scene(horizon_y, max_hw, cam_h, focal_mult, path_power, void_color, false)
}

/// A camera and a path outdoors, with grass beside it.
#[verifier::allow_in_spec]
pub fn sc_outdoor(
    horizon_y: u32,
    max_hw: Milli,
    cam_h: Milli,
    focal_mult: Milli,
    path_power: Milli,
    void_color: [u8; 3],
) -> SceneSettings<Milli>
    returns
        scene(horizon_y, max_hw, cam_h, focal_mult, path_power, void_color, true),
{
    scene(horizon_y, max_hw, cam_h, focal_mult, path_power, void_color, true)
}

/// A floor.
#[verifier::allow_in_spec]
pub fn floor(
    depth_fade: Milli,
    edge_vignette: Milli,
    noise: u32,
    tex_scale: Milli,
    damage: Milli,
    pattern: FloorPattern,
    base: [u8; 3],
    mortar: [u8; 3],
) -> FloorSettings<Milli>
    returns
        (FloorSettings {
            depth_fade,
            edge_vignette,
            noise,
            tex_scale,
            tex_rot_90: false,
            damage,
            variation_seed: 0,
            pattern,
            base,
            mortar,
        }),
{
    FloorSettings {
        depth_fade,
        edge_vignette,
        noise,
        tex_scale,
        tex_rot_90: false,
        damage,
        variation_seed: 0,
        pattern,
        base,
        mortar,
    }
}

/// A pair of walls.
#[verifier::allow_in_spec]
pub fn wall(
    enabled: bool,
    l_wx: Milli,
    bright: Milli,
    junc_shadow: Milli,
    fade_rows: u32,
    noise: u32,
    pattern: WallPattern,
    base: [u8; 3],
    mortar: [u8; 3],
) -> WallSettings<Milli>
    returns
        (WallSettings {
            enabled,
            top_coverage: default_wall_top_coverage(),
            l_wx,
            bright,
            junc_shadow,
            fade_rows,
            noise,
            tex_scale: default_tex_scale(),
            tex_rot_90: default_tex_rot_90(),
            damage: default_damage(),
            variation_seed: 0,
            pattern,
            base,
            mortar,
        }),
{
    WallSettings {
        enabled,
        top_coverage: default_wall_top_coverage(),
        l_wx,
        bright,
        junc_shadow,
        fade_rows,
        noise,
        tex_scale: default_tex_scale(),
        tex_rot_90: default_tex_rot_90(),
        damage: default_damage(),
        variation_seed: 0,
        pattern,
        base,
        mortar,
    }
}

/// A seamless loop, exported once.
#[verifier::allow_in_spec]
pub fn anim(loop_s: u32, play_speed: Milli) -> AnimSettings<Milli>
    returns
        (AnimSettings {
            loop_s,
            play_speed,
            gif_cycles: default_gif_cycles(),
            seamless_lock: default_seamless_lock(),
        }),
{
    AnimSettings {
        loop_s,
        play_speed,
        gif_cycles: default_gif_cycles(),
        seamless_lock: default_seamless_lock(),
    }
}

/// An atmosphere of one layer.
pub fn atmo1(t: AtmoType, torch_h: Milli, torch_spc: u32, torch_scale: Milli, n_motes: u32, n_debris: u32) -> (r:
    AtmoSettings<Milli>)
    ensures
        r.layers@.len() == 1,
        is_fresh_layer(r.layers@[0], t, torch_h, torch_spc, torch_scale, n_motes, n_debris),
{
    let mut layers: Vec<AtmoLayer<Milli>> = Vec::new();
    layers.push(fresh_layer(t, torch_h, torch_spc, torch_scale, n_motes, n_debris));
    AtmoSettings { layers }
}

/// A scene without props.
pub fn no_props() -> (r: PropsSettings<Milli>)
    ensures
        r.items@.len() == 0,
{
    PropsSettings { items: Vec::new() }
}

/// One kind of prop.
pub fn prop1(t: PropType, wx: Milli, mirror: bool, z_spacing: Milli, scale: Milli) -> (r: PropsSettings<Milli>)
    ensures
        r.items@.len() == 1,
        is_fresh_prop(r.items@[0], t, wx, mirror, z_spacing, scale, 42),
{
    let mut items: Vec<PropInstance<Milli>> = Vec::new();
    items.push(fresh_prop(t, wx, mirror, z_spacing, scale, 42));
    PropsSettings { items }
}

/// Whether the props are two kinds, the first spaced by a whole loop and the second by
/// half of it, at least one.
pub open spec fn are_two_props(
    props: PropsSettings<Milli>,
    t1: PropType,
    wx1: Milli,
    mirror1: bool,
    scale1: Milli,
    t2: PropType,
    wx2: Milli,
    mirror2: bool,
    scale2: Milli,
    loop_s: u32,
) -> bool {
    let half = if loop_s / 2 < 1 { 1 } else { loop_s / 2 };
    &&& props.items@.len() == 2
    &&& is_fresh_prop(props.items@[0], t1, wx1, mirror1, Milli((loop_s * 1000) as i32), scale1, 42)
    &&& is_fresh_prop(props.items@[1], t2, wx2, mirror2, Milli((half * 1000) as i32), scale2, 99)
}

/// Two kinds of prop, the first spaced by a whole loop and the second by half of it. The loop is
/// one that thousandths of 32 bits can measure.
pub fn prop2(
    t1: PropType,
    wx1: Milli,
    mirror1: bool,
    scale1: Milli,
    t2: PropType,
    wx2: Milli,
    mirror2: bool,
    scale2: Milli,
    loop_s: u32,
) -> (r: PropsSettings<Milli>)
    requires
        loop_s * 1000 <= i32::MAX,
    ensures
        are_two_props(r, t1, wx1, mirror1, scale1, t2, wx2, mirror2, scale2, loop_s),
{
    let half: u32 = if loop_s / 2 < 1 {
        1
    } else {
        loop_s / 2
    };
    let mut items: Vec<PropInstance<Milli>> = Vec::new();
    items.push(fresh_prop(t1, wx1, mirror1, Milli((loop_s * 1000) as i32), scale1, 42));
    items.push(fresh_prop(t2, wx2, mirror2, Milli((half * 1000) as i32), scale2, 99));
    PropsSettings { items }
}

/// The preset "Stone Dungeon".
pub fn stone_dungeon() -> (r: PathForgeSettings<Milli>)
    ensures
        r.canvas == (CanvasSettings { base_w: 480, base_h: 854, landscape: false }),
        r.scene == sc_indoor(164, Milli(128000), Milli(1800), Milli(1000), Milli(500), [0u8, 0u8, 0u8]),
        r.floor == floor(Milli(3800), Milli(880), 13, Milli(3000), Milli(280), FloorPattern::Cobblestone, [0x3au8, 0x33u8, 0x2au8], [0x16u8, 0x12u8, 0x0fu8]),
        r.walls == wall(true, Milli(900), Milli(1800), Milli(22000), 22, 10, WallPattern::StoneBlock, [0x28u8, 0x22u8, 0x1cu8], [0x11u8, 0x10u8, 0x0bu8]),
        r.sky == sky_off([0u8, 0u8, 0u8]),
        r.atmo.layers@.len() == 1,
        is_fresh_layer(r.atmo.layers@[0], AtmoType::Torch, Milli(2400), 4, Milli(68), 10, 6),
        r.props.items@.len() == 0,
        r.post == post(Milli(550), false, [30u8, 25u8, 20u8], Milli(300)),
        r.anim == anim(4, Milli(1000)),
{
    PathForgeSettings {
        canvas: CanvasSettings::default(),
        scene: sc_indoor(164, Milli(128000), Milli(1800), Milli(1000), Milli(500), [0, 0, 0]),
        floor: floor(Milli(3800), Milli(880), 13, Milli(3000), Milli(280), FloorPattern::Cobblestone, [0x3a, 0x33, 0x2a], [0x16, 0x12, 0x0f]),
        walls: wall(true, Milli(900), Milli(1800), Milli(22000), 22, 10, WallPattern::StoneBlock, [0x28, 0x22, 0x1c], [0x11, 0x10, 0x0b]),
        sky: sky_off([0, 0, 0]),
        atmo: atmo1(AtmoType::Torch, Milli(2400), 4, Milli(68), 10, 6),
        props: no_props(),
        post: post(Milli(550), false, [30, 25, 20], Milli(300)),
        anim: anim(4, Milli(1000)),
    }
}

/// The preset "Stone Crypt".
pub fn stone_crypt() -> (r: PathForgeSettings<Milli>)
    ensures
        r.canvas == (CanvasSettings { base_w: 480, base_h: 854, landscape: false }),
        r.scene == sc_indoor(150, Milli(100000), Milli(1500), Milli(900), Milli(400), [2u8, 0u8, 4u8]),
        r.floor == floor(Milli(5000), Milli(950), 8, Milli(3400), Milli(300), FloorPattern::Brick, [0x2cu8, 0x28u8, 0x23u8], [0x10u8, 0x0eu8, 0x0cu8]),
        r.walls == wall(true, Milli(700), Milli(1200), Milli(14000), 15, 7, WallPattern::Brick, [0x20u8, 0x1cu8, 0x18u8], [0x0du8, 0x0cu8, 0x0au8]),
        r.sky == sky_off([2u8, 0u8, 4u8]),
        r.atmo.layers@.len() == 1,
        is_fresh_layer(r.atmo.layers@[0], AtmoType::Candle, Milli(2000), 4, Milli(50), 6, 4),
        r.props.items@.len() == 0,
        r.post == post(Milli(650), false, [20u8, 18u8, 16u8], Milli(300)),
        r.anim == anim(4, Milli(700)),
{
    PathForgeSettings {
        canvas: CanvasSettings::default(),
        scene: sc_indoor(150, Milli(100000), Milli(1500), Milli(900), Milli(400), [2, 0, 4]),
        floor: floor(Milli(5000), Milli(950), 8, Milli(3400), Milli(300), FloorPattern::Brick, [0x2c, 0x28, 0x23], [0x10, 0x0e, 0x0c]),
        walls: wall(true, Milli(700), Milli(1200), Milli(14000), 15, 7, WallPattern::Brick, [0x20, 0x1c, 0x18], [0x0d, 0x0c, 0x0a]),
        sky: sky_off([2, 0, 4]),
        atmo: atmo1(AtmoType::Candle, Milli(2000), 4, Milli(50), 6, 4),
        props: no_props(),
        post: post(Milli(650), false, [20, 18, 16], Milli(300)),
        anim: anim(4, Milli(700)),
    }
}

/// The preset "Mossy Sewer".
pub fn mossy_sewer() -> (r: PathForgeSettings<Milli>)
    ensures
        r.canvas == (CanvasSettings { base_w: 480, base_h: 854, landscape: false }),
        r.scene == sc_indoor(170, Milli(90000), Milli(1400), Milli(950), Milli(350), [0u8, 3u8, 0u8]),
        r.floor == floor(Milli(4500), Milli(920), 18, Milli(3200), Milli(240), FloorPattern::Cobblestone, [0x23u8, 0x2au8, 0x1eu8], [0x0fu8, 0x14u8, 0x0cu8]),
        r.walls == wall(true, Milli(600), Milli(1400), Milli(18000), 20, 15, WallPattern::StoneBlock, [0x1cu8, 0x26u8, 0x18u8], [0x0cu8, 0x12u8, 0x09u8]),
        r.sky == sky_off([0u8, 3u8, 0u8]),
        r.atmo.layers@.len() == 1,
        is_fresh_layer(r.atmo.layers@[0], AtmoType::Firefly, Milli(2000), 4, Milli(55), 14, 5),
        r.props.items@.len() == 0,
        r.post == post(Milli(300), true, [10u8, 18u8, 8u8], Milli(150)),
        r.anim == anim(4, Milli(800)),
{
    PathForgeSettings {
        canvas: CanvasSettings::default(),
        scene: sc_indoor(170, Milli(90000), Milli(1400), Milli(950), Milli(350), [0, 3, 0]),
        floor: floor(Milli(4500), Milli(920), 18, Milli(3200), Milli(240), FloorPattern::Cobblestone, [0x23, 0x2a, 0x1e], [0x0f, 0x14, 0x0c]),
        walls: wall(true, Milli(600), Milli(1400), Milli(18000), 20, 15, WallPattern::StoneBlock, [0x1c, 0x26, 0x18], [0x0c, 0x12, 0x09]),
        sky: sky_off([0, 3, 0]),
        atmo: atmo1(AtmoType::Firefly, Milli(2000), 4, Milli(55), 14, 5),
        props: no_props(),
        post: post(Milli(300), true, [10, 18, 8], Milli(150)),
        anim: anim(4, Milli(800)),
    }
}

/// The preset "Forest Path".
pub fn forest_path() -> (r: PathForgeSettings<Milli>)
    ensures
        r.canvas == (CanvasSettings { base_w: 480, base_h: 854, landscape: false }),
        r.scene == sc_outdoor(160, Milli(140000), Milli(2000), Milli(1100), Milli(600), [8u8, 14u8, 4u8]),
        r.floor == floor(Milli(2500), Milli(750), 20, Milli(2600), Milli(120), FloorPattern::Grass, [0x2au8, 0x34u8, 0x19u8], [0x1cu8, 0x24u8, 0x12u8]),
        r.walls == wall(true, Milli(1100), Milli(2200), Milli(28000), 30, 18, WallPattern::Hedge, [0x26u8, 0x34u8, 0x17u8], [0x16u8, 0x20u8, 0x0fu8]),
        r.sky == sky_on([25u8, 55u8, 10u8], [55u8, 85u8, 30u8]),
        r.atmo.layers@.len() == 1,
        is_fresh_layer(r.atmo.layers@[0], AtmoType::Firefly, Milli(3000), 4, Milli(40), 18, 8),
        are_two_props(r.props, PropType::Tree, Milli(1500), true, Milli(1000), PropType::Bush, Milli(1100), true, Milli(700), 4),
        r.post == post(Milli(200), true, [10u8, 18u8, 8u8], Milli(350)),
        r.anim == anim(4, Milli(1200)),
{
    PathForgeSettings {
        canvas: CanvasSettings::default(),
        scene: sc_outdoor(160, Milli(140000), Milli(2000), Milli(1100), Milli(600), [8, 14, 4]),
        floor: floor(Milli(2500), Milli(750), 20, Milli(2600), Milli(120), FloorPattern::Grass, [0x2a, 0x34, 0x19], [0x1c, 0x24, 0x12]),
        walls: wall(true, Milli(1100), Milli(2200), Milli(28000), 30, 18, WallPattern::Hedge, [0x26, 0x34, 0x17], [0x16, 0x20, 0x0f]),
        sky: sky_on([25, 55, 10], [55, 85, 30]),
        atmo: atmo1(AtmoType::Firefly, Milli(3000), 4, Milli(40), 18, 8),
        props: prop2(PropType::Tree, Milli(1500), true, Milli(1000), PropType::Bush, Milli(1100), true, Milli(700), 4),
        post: post(Milli(200), true, [10, 18, 8], Milli(350)),
        anim: anim(4, Milli(1200)),
    }
}

/// The preset "Desert Canyon".
pub fn desert_canyon() -> (r: PathForgeSettings<Milli>)
    ensures
        r.canvas == (CanvasSettings { base_w: 480, base_h: 854, landscape: false }),
        r.scene == sc_outdoor(156, Milli(136000), Milli(2200), Milli(1000), Milli(550), [40u8, 28u8, 10u8]),
        r.floor == floor(Milli(2000), Milli(700), 16, Milli(2200), Milli(80), FloorPattern::Sand, [0xa5u8, 0x82u8, 0x50u8], [0x82u8, 0x64u8, 0x37u8]),
        r.walls == wall(true, Milli(1000), Milli(2500), Milli(30000), 25, 14, WallPattern::RockFace, [0x96u8, 0x6eu8, 0x41u8], [0x73u8, 0x55u8, 0x2du8]),
        r.sky == sky_on([110u8, 140u8, 180u8], [200u8, 170u8, 100u8]),
        r.atmo.layers@.len() == 1,
        is_fresh_layer(r.atmo.layers@[0], AtmoType::Unlit, Milli(3200), 6, Milli(35), 8, 7),
        are_two_props(r.props, PropType::Cactus, Milli(1400), true, Milli(1000), PropType::Rock, Milli(1900), true, Milli(800), 6),
        r.post == post(Milli(150), true, [100u8, 80u8, 40u8], Milli(280)),
        r.anim == anim(6, Milli(1500)),
{
    PathForgeSettings {
        canvas: CanvasSettings::default(),
        scene: sc_outdoor(156, Milli(136000), Milli(2200), Milli(1000), Milli(550), [40, 28, 10]),
        floor: floor(Milli(2000), Milli(700), 16, Milli(2200), Milli(80), FloorPattern::Sand, [0xa5, 0x82, 0x50], [0x82, 0x64, 0x37]),
        walls: wall(true, Milli(1000), Milli(2500), Milli(30000), 25, 14, WallPattern::RockFace, [0x96, 0x6e, 0x41], [0x73, 0x55, 0x2d]),
        sky: sky_on([110, 140, 180], [200, 170, 100]),
        atmo: atmo1(AtmoType::Unlit, Milli(3200), 6, Milli(35), 8, 7),
        props: prop2(PropType::Cactus, Milli(1400), true, Milli(1000), PropType::Rock, Milli(1900), true, Milli(800), 6),
        post: post(Milli(150), true, [100, 80, 40], Milli(280)),
        anim: anim(6, Milli(1500)),
    }
}

/// The preset "Night Road".
pub fn night_road() -> (r: PathForgeSettings<Milli>)
    ensures
        r.canvas == (CanvasSettings { base_w: 480, base_h: 854, landscape: false }),
        r.scene == sc_outdoor(152, Milli(144000), Milli(1600), Milli(1050), Milli(500), [4u8, 4u8, 14u8]),
        r.floor == floor(Milli(3000), Milli(820), 10, Milli(3600), Milli(260), FloorPattern::Brick, [0x1eu8, 0x1eu8, 0x26u8], [0x12u8, 0x12u8, 0x19u8]),
        r.walls == wall(true, Milli(950), Milli(1500), Milli(20000), 18, 8, WallPattern::StoneBlock, [0x16u8, 0x16u8, 0x20u8], [0x0cu8, 0x0cu8, 0x14u8]),
        r.sky == sky_on([4u8, 5u8, 18u8], [14u8, 10u8, 30u8]),
        r.atmo.layers@.len() == 1,
        is_fresh_layer(r.atmo.layers@[0], AtmoType::Lantern, Milli(2800), 4, Milli(60), 12, 3),
        r.props.items@.len() == 0,
        r.post == post(Milli(600), true, [6u8, 6u8, 12u8], Milli(200)),
        r.anim == anim(4, Milli(1500)),
{
    PathForgeSettings {
        canvas: CanvasSettings::default(),
        scene: sc_outdoor(152, Milli(144000), Milli(1600), Milli(1050), Milli(500), [4, 4, 14]),
        floor: floor(Milli(3000), Milli(820), 10, Milli(3600), Milli(260), FloorPattern::Brick, [0x1e, 0x1e, 0x26], [0x12, 0x12, 0x19]),
        walls: wall(true, Milli(950), Milli(1500), Milli(20000), 18, 8, WallPattern::StoneBlock, [0x16, 0x16, 0x20], [0x0c, 0x0c, 0x14]),
        sky: sky_on([4, 5, 18], [14, 10, 30]),
        atmo: atmo1(AtmoType::Lantern, Milli(2800), 4, Milli(60), 12, 3),
        props: no_props(),
        post: post(Milli(600), true, [6, 6, 12], Milli(200)),
        anim: anim(4, Milli(1500)),
    }
}

/// The preset "Magic Cavern".
pub fn magic_cavern() -> (r: PathForgeSettings<Milli>)
    ensures
        r.canvas == (CanvasSettings { base_w: 480, base_h: 854, landscape: false }),
        r.scene == sc_indoor(160, Milli(120000), Milli(1700), Milli(1000), Milli(450), [0u8, 0u8, 8u8]),
        r.floor == floor(Milli(4000), Milli(900), 12, Milli(3200), Milli(240), FloorPattern::Cobblestone, [0x1au8, 0x0eu8, 0x2au8], [0x0eu8, 0x08u8, 0x1au8]),
        r.walls == wall(true, Milli(850), Milli(1600), Milli(20000), 20, 12, WallPattern::StoneBlock, [0x12u8, 0x08u8, 0x20u8], [0x08u8, 0x04u8, 0x1au8]),
        r.sky == sky_off([0u8, 0u8, 8u8]),
        r.atmo.layers@.len() == 1,
        is_fresh_layer(r.atmo.layers@[0], AtmoType::Magic, Milli(2300), 4, Milli(70), 16, 4),
        r.props.items@.len() == 1,
        is_fresh_prop(r.props.items@[0], PropType::Mushroom, Milli(1200), true, Milli(4000), Milli(800), 42),
        r.post == post(Milli(500), false, [0u8, 0u8, 8u8], Milli(300)),
        r.anim == anim(4, Milli(900)),
{
    PathForgeSettings {
        canvas: CanvasSettings::default(),
        scene: sc_indoor(160, Milli(120000), Milli(1700), Milli(1000), Milli(450), [0, 0, 8]),
        floor: floor(Milli(4000), Milli(900), 12, Milli(3200), Milli(240), FloorPattern::Cobblestone, [0x1a, 0x0e, 0x2a], [0x0e, 0x08, 0x1a]),
        walls: wall(true, Milli(850), Milli(1600), Milli(20000), 20, 12, WallPattern::StoneBlock, [0x12, 0x08, 0x20], [0x08, 0x04, 0x1a]),
        sky: sky_off([0, 0, 8]),
        atmo: atmo1(AtmoType::Magic, Milli(2300), 4, Milli(70), 16, 4),
        props: prop1(PropType::Mushroom, Milli(1200), true, Milli(4000), Milli(800)),
        post: post(Milli(500), false, [0, 0, 8], Milli(300)),
        anim: anim(4, Milli(900)),
    }
}

/// The preset "Ice Dungeon".
pub fn ice_dungeon() -> (r: PathForgeSettings<Milli>)
    ensures
        r.canvas == (CanvasSettings { base_w: 480, base_h: 854, landscape: false }),
        r.scene == sc_indoor(164, Milli(124000), Milli(1800), Milli(1000), Milli(480), [2u8, 8u8, 16u8]),
        r.floor == floor(Milli(4200), Milli(860), 9, Milli(2800), Milli(320), FloorPattern::StoneBlock, [0x1eu8, 0x2eu8, 0x38u8], [0x0eu8, 0x18u8, 0x20u8]),
        r.walls == wall(true, Milli(880), Milli(2000), Milli(18000), 22, 8, WallPattern::Brick, [0x1au8, 0x2au8, 0x34u8], [0x0cu8, 0x18u8, 0x20u8]),
        r.sky == sky_off([2u8, 8u8, 16u8]),
        r.atmo.layers@.len() == 1,
        is_fresh_layer(r.atmo.layers@[0], AtmoType::IceWisp, Milli(2500), 4, Milli(65), 8, 3),
        r.props.items@.len() == 0,
        r.post == post(Milli(350), true, [8u8, 12u8, 20u8], Milli(200)),
        r.anim == anim(4, Milli(850)),
{
    PathForgeSettings {
        canvas: CanvasSettings::default(),
        scene: sc_indoor(164, Milli(124000), Milli(1800), Milli(1000), Milli(480), [2, 8, 16]),
        floor: floor(Milli(4200), Milli(860), 9, Milli(2800), Milli(320), FloorPattern::StoneBlock, [0x1e, 0x2e, 0x38], [0x0e, 0x18, 0x20]),
        walls: wall(true, Milli(880), Milli(2000), Milli(18000), 22, 8, WallPattern::Brick, [0x1a, 0x2a, 0x34], [0x0c, 0x18, 0x20]),
        sky: sky_off([2, 8, 16]),
        atmo: atmo1(AtmoType::IceWisp, Milli(2500), 4, Milli(65), 8, 3),
        props: no_props(),
        post: post(Milli(350), true, [8, 12, 20], Milli(200)),
        anim: anim(4, Milli(850)),
    }
}

/// The preset "Ruins Path".
pub fn ruins_path() -> (r: PathForgeSettings<Milli>)
    ensures
        r.canvas == (CanvasSettings { base_w: 480, base_h: 854, landscape: false }),
        r.scene == sc_outdoor(176, Milli(144000), Milli(2200), Milli(1100), Milli(550), [10u8, 14u8, 18u8]),
        r.floor == floor(Milli(2200), Milli(650), 20, Milli(2800), Milli(220), FloorPattern::Cobblestone, [0x8au8, 0x75u8, 0x56u8], [0x4eu8, 0x40u8, 0x32u8]),
        r.walls == wall(true, Milli(1200), Milli(3000), Milli(32000), 35, 16, WallPattern::StoneBlock, [0x75u8, 0x62u8, 0x48u8], [0x42u8, 0x36u8, 0x2au8]),
        r.sky == sky_on([55u8, 85u8, 130u8], [140u8, 150u8, 120u8]),
        r.atmo.layers@.len() == 1,
        is_fresh_layer(r.atmo.layers@[0], AtmoType::Unlit, Milli(3000), 4, Milli(35), 6, 10),
        are_two_props(r.props, PropType::DeadTree, Milli(1500), true, Milli(1000), PropType::Rock, Milli(2200), true, Milli(700), 4),
        r.post == post(Milli(200), true, [80u8, 75u8, 65u8], Milli(220)),
        r.anim == anim(4, Milli(1300)),
{
    PathForgeSettings {
        canvas: CanvasSettings::default(),
        scene: sc_outdoor(176, Milli(144000), Milli(2200), Milli(1100), Milli(550), [10, 14, 18]),
        floor: floor(Milli(2200), Milli(650), 20, Milli(2800), Milli(220), FloorPattern::Cobblestone, [0x8a, 0x75, 0x56], [0x4e, 0x40, 0x32]),
        walls: wall(true, Milli(1200), Milli(3000), Milli(32000), 35, 16, WallPattern::StoneBlock, [0x75, 0x62, 0x48], [0x42, 0x36, 0x2a]),
        sky: sky_on([55, 85, 130], [140, 150, 120]),
        atmo: atmo1(AtmoType::Unlit, Milli(3000), 4, Milli(35), 6, 10),
        props: prop2(PropType::DeadTree, Milli(1500), true, Milli(1000), PropType::Rock, Milli(2200), true, Milli(700), 4),
        post: post(Milli(200), true, [80, 75, 65], Milli(220)),
        anim: anim(4, Milli(1300)),
    }
}

/// The preset "Dark Street".
pub fn dark_street() -> (r: PathForgeSettings<Milli>)
    ensures
        r.canvas == (CanvasSettings { base_w: 480, base_h: 854, landscape: false }),
        r.scene == sc_indoor(168, Milli(132000), Milli(1900), Milli(1050), Milli(520), [6u8, 6u8, 8u8]),
        r.floor == floor(Milli(3500), Milli(800), 8, Milli(3600), Milli(340), FloorPattern::Brick, [0x1au8, 0x1au8, 0x1eu8], [0x0cu8, 0x0cu8, 0x10u8]),
        r.walls == wall(true, Milli(1000), Milli(1800), Milli(24000), 28, 8, WallPattern::StoneBlock, [0x16u8, 0x16u8, 0x18u8], [0x0cu8, 0x0cu8, 0x0eu8]),
        r.sky == sky_on([4u8, 6u8, 16u8], [16u8, 12u8, 24u8]),
        r.atmo.layers@.len() == 1,
        is_fresh_layer(r.atmo.layers@[0], AtmoType::Lantern, Milli(2800), 4, Milli(70), 14, 4),
        r.props.items@.len() == 0,
        r.post == post(Milli(650), true, [8u8, 6u8, 8u8], Milli(180)),
        r.anim == anim(4, Milli(1200)),
{
    PathForgeSettings {
        canvas: CanvasSettings::default(),
        scene: sc_indoor(168, Milli(132000), Milli(1900), Milli(1050), Milli(520), [6, 6, 8]),
        floor: floor(Milli(3500), Milli(800), 8, Milli(3600), Milli(340), FloorPattern::Brick, [0x1a, 0x1a, 0x1e], [0x0c, 0x0c, 0x10]),
        walls: wall(true, Milli(1000), Milli(1800), Milli(24000), 28, 8, WallPattern::StoneBlock, [0x16, 0x16, 0x18], [0x0c, 0x0c, 0x0e]),
        sky: sky_on([4, 6, 16], [16, 12, 24]),
        atmo: atmo1(AtmoType::Lantern, Milli(2800), 4, Milli(70), 14, 4),
        props: no_props(),
        post: post(Milli(650), true, [8, 6, 8], Milli(180)),
        anim: anim(4, Milli(1200)),
    }
}

/// The preset "Mountain Pass".
pub fn mountain_pass() -> (r: PathForgeSettings<Milli>)
    ensures
        r.canvas == (CanvasSettings { base_w: 480, base_h: 854, landscape: false }),
        r.scene == sc_outdoor(160, Milli(130000), Milli(2500), Milli(1000), Milli(500), [50u8, 55u8, 70u8]),
        r.floor == floor(Milli(2800), Milli(720), 22, Milli(2200), Milli(100), FloorPattern::Sand, [0x78u8, 0x68u8, 0x60u8], [0x50u8, 0x45u8, 0x40u8]),
        r.walls == wall(true, Milli(1150), Milli(2200), Milli(28000), 30, 20, WallPattern::RockFace, [0x5au8, 0x50u8, 0x48u8], [0x3cu8, 0x34u8, 0x30u8]),
        r.sky == sky_on([100u8, 120u8, 165u8], [165u8, 160u8, 145u8]),
        r.atmo.layers@.len() == 1,
        is_fresh_layer(r.atmo.layers@[0], AtmoType::Unlit, Milli(3000), 6, Milli(30), 4, 8),
        are_two_props(r.props, PropType::Boulder, Milli(1800), true, Milli(1000), PropType::Rock, Milli(2300), true, Milli(650), 6),
        r.post == post(Milli(150), true, [100u8, 105u8, 115u8], Milli(250)),
        r.anim == anim(6, Milli(1400)),
{
    PathForgeSettings {
        canvas: CanvasSettings::default(),
        scene: sc_outdoor(160, Milli(130000), Milli(2500), Milli(1000), Milli(500), [50, 55, 70]),
        floor: floor(Milli(2800), Milli(720), 22, Milli(2200), Milli(100), FloorPattern::Sand, [0x78, 0x68, 0x60], [0x50, 0x45, 0x40]),
        walls: wall(true, Milli(1150), Milli(2200), Milli(28000), 30, 20, WallPattern::RockFace, [0x5a, 0x50, 0x48], [0x3c, 0x34, 0x30]),
        sky: sky_on([100, 120, 165], [165, 160, 145]),
        atmo: atmo1(AtmoType::Unlit, Milli(3000), 6, Milli(30), 4, 8),
        props: prop2(PropType::Boulder, Milli(1800), true, Milli(1000), PropType::Rock, Milli(2300), true, Milli(650), 6),
        post: post(Milli(150), true, [100, 105, 115], Milli(250)),
        anim: anim(6, Milli(1400)),
    }
}

/// The preset "Volcanic Rift".
pub fn volcanic_rift() -> (r: PathForgeSettings<Milli>)
    ensures
        r.canvas == (CanvasSettings { base_w: 480, base_h: 854, landscape: false }),
        r.scene == sc_indoor(172, Milli(116000), Milli(1800), Milli(1000), Milli(500), [20u8, 4u8, 2u8]),
        r.floor == floor(Milli(3500), Milli(880), 14, Milli(2800), Milli(360), FloorPattern::StoneBlock, [0x1eu8, 0x0cu8, 0x08u8], [0x40u8, 0x08u8, 0x08u8]),
        r.walls == wall(true, Milli(850), Milli(2000), Milli(22000), 22, 18, WallPattern::RockFace, [0x2au8, 0x10u8, 0x08u8], [0x18u8, 0x06u8, 0x04u8]),
        r.sky == sky_off([20u8, 4u8, 2u8]),
        r.atmo.layers@.len() == 1,
        is_fresh_layer(r.atmo.layers@[0], AtmoType::GreenFire, Milli(2200), 4, Milli(80), 18, 5),
        r.props.items@.len() == 1,
        is_fresh_prop(r.props.items@[0], PropType::Rock, Milli(1600), true, Milli(4000), Milli(900), 42),
        r.post == post(Milli(550), false, [30u8, 10u8, 5u8], Milli(300)),
        r.anim == anim(4, Milli(1100)),
{
    PathForgeSettings {
        canvas: CanvasSettings::default(),
        scene: sc_indoor(172, Milli(116000), Milli(1800), Milli(1000), Milli(500), [20, 4, 2]),
        floor: floor(Milli(3500), Milli(880), 14, Milli(2800), Milli(360), FloorPattern::StoneBlock, [0x1e, 0x0c, 0x08], [0x40, 0x08, 0x08]),
        walls: wall(true, Milli(850), Milli(2000), Milli(22000), 22, 18, WallPattern::RockFace, [0x2a, 0x10, 0x08], [0x18, 0x06, 0x04]),
        sky: sky_off([20, 4, 2]),
        atmo: atmo1(AtmoType::GreenFire, Milli(2200), 4, Milli(80), 18, 5),
        props: prop1(PropType::Rock, Milli(1600), true, Milli(4000), Milli(900)),
        post: post(Milli(550), false, [30, 10, 5], Milli(300)),
        anim: anim(4, Milli(1100)),
    }
}

/// The presets.
#[derive(Clone, Copy, Debug, PartialEq, Eq, Structural)]
pub enum Preset {
    StoneDungeon,
    StoneCrypt,
    MossySewer,
    ForestPath,
    DesertCanyon,
    NightRoad,
    MagicCavern,
    IceDungeon,
    RuinsPath,
    DarkStreet,
    MountainPass,
    VolcanicRift,
}

impl Preset {
    /// The display name.
    pub open spec fn title(self) -> Seq<char> {
        match self {
            Preset::StoneDungeon => "Stone Dungeon"@,
            Preset::StoneCrypt => "Stone Crypt"@,
            Preset::MossySewer => "Mossy Sewer"@,
            Preset::ForestPath => "Forest Path"@,
            Preset::DesertCanyon => "Desert Canyon"@,
            Preset::NightRoad => "Night Road"@,
            Preset::MagicCavern => "Magic Cavern"@,
            Preset::IceDungeon => "Ice Dungeon"@,
            Preset::RuinsPath => "Ruins Path"@,
            Preset::DarkStreet => "Dark Street"@,
            Preset::MountainPass => "Mountain Pass"@,
            Preset::VolcanicRift => "Volcanic Rift"@,
        }
    }

    /// The place in the list of all.
    pub open spec fn index(self) -> int {
        match self {
            Preset::StoneDungeon => 0,
            Preset::StoneCrypt => 1,
            Preset::MossySewer => 2,
            Preset::ForestPath => 3,
            Preset::DesertCanyon => 4,
            Preset::NightRoad => 5,
            Preset::MagicCavern => 6,
            Preset::IceDungeon => 7,
            Preset::RuinsPath => 8,
            Preset::DarkStreet => 9,
            Preset::MountainPass => 10,
            Preset::VolcanicRift => 11,
        }
    }

    /// All presets, in display order.
    pub open spec fn listed() -> Seq<Preset> {
        seq![
            Preset::StoneDungeon,
            Preset::StoneCrypt,
            Preset::MossySewer,
            Preset::ForestPath,
            Preset::DesertCanyon,
            Preset::NightRoad,
            Preset::MagicCavern,
            Preset::IceDungeon,
            Preset::RuinsPath,
            Preset::DarkStreet,
            Preset::MountainPass,
            Preset::VolcanicRift,
        ]
    }

    /// All presets, in display order.
    pub fn all() -> (r: &'static [Preset])
        ensures
            r@ == Preset::listed(),
    {
        &[
            Preset::StoneDungeon,
            Preset::StoneCrypt,
            Preset::MossySewer,
            Preset::ForestPath,
            Preset::DesertCanyon,
            Preset::NightRoad,
            Preset::MagicCavern,
            Preset::IceDungeon,
            Preset::RuinsPath,
            Preset::DarkStreet,
            Preset::MountainPass,
            Preset::VolcanicRift,
        ]
    }

    /// The display name.
    pub fn name(&self) -> (r: &'static str)
        ensures
            r@ == self.title(),
    {
        match self {
            Preset::StoneDungeon => "Stone Dungeon",
            Preset::StoneCrypt => "Stone Crypt",
            Preset::MossySewer => "Mossy Sewer",
            Preset::ForestPath => "Forest Path",
            Preset::DesertCanyon => "Desert Canyon",
            Preset::NightRoad => "Night Road",
            Preset::MagicCavern => "Magic Cavern",
            Preset::IceDungeon => "Ice Dungeon",
            Preset::RuinsPath => "Ruins Path",
            Preset::DarkStreet => "Dark Street",
            Preset::MountainPass => "Mountain Pass",
            Preset::VolcanicRift => "Volcanic Rift",
        }
    }

    /// The settings of the preset.
    pub fn settings(&self) -> (r: PathForgeSettings<Milli>)
        ensures
            *self == Preset::StoneDungeon ==> call_ensures(stone_dungeon, (), r),
            *self == Preset::StoneCrypt ==> call_ensures(stone_crypt, (), r),
            *self == Preset::MossySewer ==> call_ensures(mossy_sewer, (), r),
            *self == Preset::ForestPath ==> call_ensures(forest_path, (), r),
            *self == Preset::DesertCanyon ==> call_ensures(desert_canyon, (), r),
            *self == Preset::NightRoad ==> call_ensures(night_road, (), r),
            *self == Preset::MagicCavern ==> call_ensures(magic_cavern, (), r),
            *self == Preset::IceDungeon ==> call_ensures(ice_dungeon, (), r),
            *self == Preset::RuinsPath ==> call_ensures(ruins_path, (), r),
            *self == Preset::DarkStreet ==> call_ensures(dark_street, (), r),
            *self == Preset::MountainPass ==> call_ensures(mountain_pass, (), r),
            *self == Preset::VolcanicRift ==> call_ensures(volcanic_rift, (), r),
    {
        match self {
            Preset::StoneDungeon => stone_dungeon(),
            Preset::StoneCrypt => stone_crypt(),
            Preset::MossySewer => mossy_sewer(),
            Preset::ForestPath => forest_path(),
            Preset::DesertCanyon => desert_canyon(),
            Preset::NightRoad => night_road(),
            Preset::MagicCavern => magic_cavern(),
            Preset::IceDungeon => ice_dungeon(),
            Preset::RuinsPath => ruins_path(),
            Preset::DarkStreet => dark_street(),
            Preset::MountainPass => mountain_pass(),
            Preset::VolcanicRift => volcanic_rift(),
        }
    }
}

/// Every preset is listed once, at its index.
pub proof fn law_presets_listed_once(p: Preset, i: int)
    requires
        0 <= i < Preset::listed().len(),
    ensures
        0 <= p.index() < Preset::listed().len(),
        Preset::listed()[p.index()] == p,
        Preset::listed()[i].index() == i,
{
}

impl Default for PathForgeSettings<Milli> {
    fn default() -> (r: Self)
        ensures
            call_ensures(stone_dungeon, (), r),
    {
        stone_dungeon()
    }
}

/// No two presets share a name.
#[verifier::rlimit(50)]
pub proof fn law_preset_names_differ(a: Preset, b: Preset)
    ensures
        a.title() == b.title() <==> a == b,
        a.title().len() > 0,
{
    reveal_strlit("Stone Dungeon");
    reveal_strlit("Stone Crypt");
    reveal_strlit("Mossy Sewer");
    reveal_strlit("Forest Path");
    reveal_strlit("Desert Canyon");
    reveal_strlit("Night Road");
    reveal_strlit("Magic Cavern");
    reveal_strlit("Ice Dungeon");
    reveal_strlit("Ruins Path");
    reveal_strlit("Dark Street");
    reveal_strlit("Mountain Pass");
    reveal_strlit("Volcanic Rift");
    assert(a.title().len() != b.title().len() || a.title()[0] != b.title()[0] || a == b);
}

/// A sky between two colours has them, and sun, stars and clouds but no moon; a scene without a sky has
/// none of these, and its void in their place. In all else the two are the same.
pub proof fn law_skies_on_and_off(top: [u8; 3], horizon: [u8; 3], void: [u8; 3])
    ensures
        sky_on(top, horizon).enabled && sky_on(top, horizon).sun_enabled,
        sky_on(top, horizon).stars_enabled && sky_on(top, horizon).clouds_enabled,
        sky_on(top, horizon).top == top && sky_on(top, horizon).horizon == horizon,
        !sky_on(top, horizon).moon_enabled && !sky_off(void).moon_enabled,
        sky_off(void).top == void && sky_off(void).horizon == void,
        sky_off(void) == (SkySettings {
            enabled: false,
            sun_enabled: false,
            stars_enabled: false,
            clouds_enabled: false,
            top: void,
            horizon: void,
            ..sky_on(top, horizon)
        }),
        sky_on(top, horizon).sun_emits_light && sky_on(top, horizon).moon_emits_light,
        sky_on(top, horizon).sun_pos[0].0 + sky_on(top, horizon).moon_pos[0].0 == 1000,
        sky_on(top, horizon).stars_seed == 0 && sky_on(top, horizon).cloud_seed == 0,
        sky_on(top, horizon).sun_z.0 == 0 && sky_on(top, horizon).moon_z.0 == 0,
{
}

/// Outdoors there is grass beside the path, and indoors there is none; the camera and the path are as
/// they were asked for.
pub proof fn law_scenes_in_and_outdoors(
    horizon_y: u32,
    max_hw: Milli,
    cam_h: Milli,
    focal_mult: Milli,
    path_power: Milli,
    void_color: [u8; 3],
)
    ensures
        ({
            let indoors = sc_indoor(horizon_y, max_hw, cam_h, focal_mult, path_power, void_color);
            let outdoors = sc_outdoor(horizon_y, max_hw, cam_h, focal_mult, path_power, void_color);
            &&& outdoors.grass_enabled && !indoors.grass_enabled
            &&& outdoors == (SceneSettings { grass_enabled: true, ..indoors })
            &&& indoors.horizon_y == horizon_y && indoors.max_hw == max_hw && indoors.cam_h == cam_h
            &&& indoors.focal_mult == focal_mult && indoors.path_power == path_power
            &&& indoors.void_color == void_color
            &&& indoors.lighting_preset == default_lighting_preset()
        }),
{
}

/// A floor and a pair of walls have the measures and colours that were asked for, lie straight, and are
/// the first of their variations.
pub proof fn law_floors_and_walls(
    a: Milli,
    b: Milli,
    c: Milli,
    d: Milli,
    noise: u32,
    rows: u32,
    on: bool,
    floor_pattern: FloorPattern,
    wall_pattern: WallPattern,
    base: [u8; 3],
    mortar: [u8; 3],
)
    ensures
        ({
            let f = floor(a, b, noise, c, d, floor_pattern, base, mortar);
            &&& f.depth_fade == a && f.edge_vignette == b && f.tex_scale == c && f.damage == d
            &&& f.noise == noise && f.pattern == floor_pattern && f.base == base && f.mortar == mortar
            &&& !f.tex_rot_90 && f.variation_seed == 0
        }),
        ({
            let w = wall(on, a, b, c, rows, noise, wall_pattern, base, mortar);
            &&& w.l_wx == a && w.bright == b && w.junc_shadow == c && w.fade_rows == rows && w.enabled == on
            &&& w.noise == noise && w.pattern == wall_pattern && w.base == base && w.mortar == mortar
            &&& !w.tex_rot_90 && w.variation_seed == 0
            &&& w.tex_scale == default_tex_scale() && w.damage == default_damage()
        }),
        anim(rows, a).loop_s == rows && anim(rows, a).play_speed == a,
        anim(rows, a).gif_cycles == 1 && anim(rows, a).seamless_lock,
{
}

/// Of two kinds of prop the first repeats with the loop and the second twice in it, as near as whole
/// tiles come; their seeds are 42 and 99.
pub proof fn law_two_props_share_the_loop(
    props: PropsSettings<Milli>,
    t1: PropType,
    wx1: Milli,
    mirror1: bool,
    scale1: Milli,
    t2: PropType,
    wx2: Milli,
    mirror2: bool,
    scale2: Milli,
    loop_s: u32,
)
    requires
        are_two_props(props, t1, wx1, mirror1, scale1, t2, wx2, mirror2, scale2, loop_s),
        1 <= loop_s,
        loop_s * 1000 <= i32::MAX,
    ensures
        props.items@.len() == 2,
        props.items@[0].z_spacing.0 == loop_s * 1000,
        loop_s >= 2 ==> props.items@[0].z_spacing.0 - 1000 <= 2 * props.items@[1].z_spacing.0 <= props.items@[0].z_spacing.0,
        loop_s < 2 ==> props.items@[1].z_spacing.0 == 1000,
        props.items@[0].prop_type == t1 && props.items@[1].prop_type == t2,
        props.items@[0].wx == wx1 && props.items@[1].wx == wx2,
        props.items@[0].mirror == mirror1 && props.items@[1].mirror == mirror2,
        props.items@[0].scale == scale1 && props.items@[1].scale == scale2,
        props.items@[0].seed == 42 && props.items@[1].seed == 99,
{
}

} // verus!
