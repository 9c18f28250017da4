use path_forge::defaults::Milli;
use path_forge::kinds::{
    AtmoType, AttachmentSurface, FloorPattern, LightingPreset, MountSide, PropType, WallPattern,
};
use path_forge::lighting::{
    apply_lighting_preset_tuning, apply_shadow_look, length_rule, light_scale, lighting_profile, mood_numbers, LengthRule,
    ShadowLook,
};
use path_forge::presets::{forest_path, stone_dungeon, volcanic_rift, Preset};
use path_forge::settings::{
    hex_to_rgb, AtmoLayer, AtmoSettings, CanvasSettings, PathForgeSettings, PostSettings, PropInstance,
    PropsSettings, CANVAS_H, CANVAS_W, CX, TILE,
};

#[test]
fn canvas_turns_with_landscape() {
    let c = CanvasSettings::default();
    assert_eq!((c.w(), c.h()), (480, 854));
    assert_eq!((CANVAS_W, CANVAS_H, CX, TILE), (480, 854, 240, 32));
    let turned = CanvasSettings { landscape: true, ..c };
    assert_eq!((turned.w(), turned.h()), (854, 480));
}

#[test]
fn hex_codes_give_colours() {
    assert_eq!(hex_to_rgb("#3a332a"), [0x3a, 0x33, 0x2a]);
    assert_eq!(hex_to_rgb("3A332A"), [0x3a, 0x33, 0x2a]);
    assert_eq!(hex_to_rgb("###0c0c14"), [0x0c, 0x0c, 0x14]);
    assert_eq!(hex_to_rgb("#f"), [0, 0, 15]);
    assert_eq!(hex_to_rgb("#+ff00"), [0, 255, 0]);
    assert_eq!(hex_to_rgb("#12345678"), [0x34, 0x56, 0x78]);
}

#[test]
fn bad_hex_codes_are_black() {
    for code in ["", "#", "+", "-1", "#12 34", "#xyz", "#123456789", "0x10", "ff#"] {
        assert_eq!(hex_to_rgb(code), [0, 0, 0], "{:?}", code);
    }
}

#[test]
fn materials_are_listed_in_seed_order() {
    let floors: Vec<&str> = FloorPattern::all().iter().map(|p| p.name()).collect();
    assert_eq!(floors, ["Cobblestone", "Brick", "Stone Block", "Sand", "Dirt", "Grass"]);
    for (i, p) in FloorPattern::all().iter().enumerate() {
        assert_eq!(p.gen_seed_offset(), i as u32);
    }
    let walls: Vec<&str> = WallPattern::all().iter().map(|p| p.name()).collect();
    assert_eq!(walls, ["Stone Block", "Brick", "Bark", "Rock Face", "Hedge", "Cobblestone"]);
    for (i, p) in WallPattern::all().iter().enumerate() {
        assert_eq!(p.gen_seed_offset(), i as u32);
    }
}

#[test]
fn lights_have_names_and_colours() {
    let names: Vec<&str> = AtmoType::all().iter().map(|t| t.name()).collect();
    assert_eq!(
        names,
        ["None", "Torch", "Lantern", "Firefly", "Magic", "Green Fire", "Candle", "Ice Wisp"]
    );
    assert_eq!(AtmoType::Unlit.glow_color(), None);
    assert_eq!(AtmoType::Torch.glow_color(), Some([215, 100, 10]));
    assert_eq!(AtmoType::IceWisp.glow_color(), Some([80, 200, 255]));
    assert_eq!(AtmoType::Unlit.flame_colors(), None);
    assert_eq!(AtmoType::Firefly.flame_colors(), None);
    assert_eq!(
        AtmoType::GreenFire.flame_colors(),
        Some([[200, 255, 200], [80, 220, 50], [20, 160, 10], [5, 90, 5]])
    );
    for t in AtmoType::all() {
        assert!(t.flame_colors().is_none() || t.glow_color().is_some());
    }
}

#[test]
fn other_kinds_have_names() {
    let surfaces: Vec<&str> = AttachmentSurface::all().iter().map(|t| t.name()).collect();
    assert_eq!(surfaces, ["Floating", "Wall", "Floor", "Ceiling"]);
    let sides: Vec<&str> = MountSide::all().iter().map(|t| t.name()).collect();
    assert_eq!(sides, ["Both", "Left", "Right", "Center"]);
    let moods: Vec<&str> = LightingPreset::all().iter().map(|t| t.name()).collect();
    assert_eq!(moods, ["Balanced", "Golden Hour", "High Noon", "Night Neon"]);
    let props: Vec<&str> = PropType::all().iter().map(|t| t.name()).collect();
    assert_eq!(
        props,
        ["Tree", "Pine Tree", "Bush", "Rock", "Boulder", "Cactus", "Dead Tree", "Mushroom"]
    );
    assert_eq!(PropType::Mushroom.default_tint(), [185, 38, 38]);
    assert_eq!(PropType::Tree.default_tint(), [25, 90, 18]);
}

#[test]
fn decimals_are_the_single_precision_literals() {
    let f = |m: Milli| m.0 as f32 / 1000.0;
    assert_eq!(f(Milli(68)), 0.068f32);
    assert_eq!(f(Milli(880)), 0.88f32);
    assert_eq!(f(Milli(3800)), 3.8f32);
    assert_eq!(f(Milli(-250)), -0.25f32);
    assert_eq!(f(Milli(128000)), 128.0f32);
}

#[test]
fn presets_are_those_of_their_names() {
    let names: Vec<&str> = Preset::all().iter().map(|p| p.name()).collect();
    assert_eq!(
        names,
        [
            "Stone Dungeon",
            "Stone Crypt",
            "Mossy Sewer",
            "Forest Path",
            "Desert Canyon",
            "Night Road",
            "Magic Cavern",
            "Ice Dungeon",
            "Ruins Path",
            "Dark Street",
            "Mountain Pass",
            "Volcanic Rift"
        ]
    );
    assert_eq!(Preset::ForestPath.settings().scene.horizon_y, forest_path().scene.horizon_y);
    for p in Preset::all() {
        let s = p.settings();
        assert_eq!((s.canvas.w(), s.canvas.h()), (480, 854));
        assert_eq!(s.atmo.layers.len(), 1);
        assert!(s.anim.seamless_lock);
        assert_eq!(s.anim.gif_cycles, 1);
    }
}

#[test]
fn stone_dungeon_is_the_default() {
    let s: PathForgeSettings<Milli> = Default::default();
    let d = stone_dungeon();
    assert_eq!(s.scene.horizon_y, 164);
    assert_eq!(s.scene.max_hw, Milli(128000));
    assert_eq!(s.floor.pattern, FloorPattern::Cobblestone);
    assert_eq!(s.floor.base, hex_to_rgb("#3a332a"));
    assert_eq!(s.floor.mortar, hex_to_rgb("#16120f"));
    assert_eq!(s.floor.damage, Milli(280));
    assert_eq!(s.walls.base, hex_to_rgb("#28221c"));
    assert_eq!(s.walls.mortar, hex_to_rgb("#11100b"));
    assert_eq!(s.walls.fade_rows, 22);
    assert!(!s.sky.enabled && !s.sky.stars_enabled);
    assert_eq!(s.atmo.layers[0].atmo_type, AtmoType::Torch);
    assert_eq!(s.atmo.layers[0].torch_scale, Milli(68));
    assert_eq!((s.atmo.layers[0].n_motes, s.atmo.layers[0].n_debris), (10, 6));
    assert!(s.props.items.is_empty());
    assert_eq!(s.post.vignette, Milli(550));
    assert_eq!(s.anim.loop_s, 4);
    assert_eq!(d.scene.horizon_y, s.scene.horizon_y);
}

#[test]
fn forest_path_has_two_kinds_of_props() {
    let s = forest_path();
    assert!(s.scene.grass_enabled);
    assert!(s.sky.enabled && s.sky.sun_enabled && s.sky.clouds_enabled && !s.sky.moon_enabled);
    assert_eq!(s.sky.top, [25, 55, 10]);
    assert_eq!(s.props.items.len(), 2);
    assert_eq!(s.props.items[0].prop_type, PropType::Tree);
    assert_eq!(s.props.items[0].z_spacing, Milli(4000));
    assert_eq!(s.props.items[0].seed, 42);
    assert_eq!(s.props.items[1].prop_type, PropType::Bush);
    assert_eq!(s.props.items[1].z_spacing, Milli(2000));
    assert_eq!(s.props.items[1].scale, Milli(700));
    assert_eq!(s.props.items[1].seed, 99);
    assert_eq!(s.floor.mortar, hex_to_rgb("#1c2412"));
}

#[test]
fn volcanic_rift_has_rocks_and_green_fire() {
    let s = volcanic_rift();
    assert_eq!(s.atmo.layers[0].atmo_type, AtmoType::GreenFire);
    assert_eq!(s.walls.mortar, hex_to_rgb("#180604"));
    assert_eq!(s.props.items.len(), 1);
    assert_eq!(s.props.items[0].prop_type, PropType::Rock);
    assert_eq!(s.props.items[0].wx, Milli(1600));
    assert_eq!(s.post.fog_color, [30, 10, 5]);
}

#[test]
fn new_layers_and_props_have_the_defaults() {
    let l = AtmoLayer::new(AtmoType::Candle);
    assert_eq!(l.torch_h, Milli(2400));
    assert_eq!(l.torch_spc, 4);
    assert_eq!((l.n_motes, l.n_debris), (8, 4));
    assert_eq!(l.mount_surface, AttachmentSurface::Wall);
    assert!(l.sprite_path.is_empty() && !l.sprite_pool_enabled);
    let a: AtmoSettings<Milli> = Default::default();
    assert_eq!(a.layers.len(), 1);
    assert_eq!(a.layers[0].atmo_type, AtmoType::Torch);
    let p = PropInstance::new(PropType::Cactus);
    assert_eq!(p.tint, [28, 95, 24]);
    assert_eq!(p.z_spacing, Milli(4000));
    assert_eq!(p.tree_style_mix, Milli(250));
    assert_eq!(p.seed, 42);
    assert_eq!(p.mount_side, MountSide::Center);
    let none: PropsSettings<Milli> = Default::default();
    assert!(none.items.is_empty());
    let post: PostSettings<Milli> = Default::default();
    assert_eq!(post.fog_color, [40, 35, 30]);
    assert_eq!(post.saturation, Milli(1000));
}

#[test]
fn moods_tune_a_scene() {
    let mut s = forest_path();
    s.scene.lighting_preset = LightingPreset::GoldenHour;
    s.props.items[1].enabled = false;
    let scaled = |l: Milli, rule: LengthRule| {
        Milli((l.0 * rule.factor.0 / 1000).clamp(rule.least.0, rule.most.0))
    };
    let at_least = |v: Milli, least: Milli| Milli(v.0.max(least.0));
    apply_lighting_preset_tuning(&mut s, |m| m, scaled, at_least);
    assert_eq!(s.scene.ambient, Milli(880));
    assert_eq!(s.sky.sun_color, [255, 188, 122]);
    assert_eq!(s.sky.cloud_tint, [238, 194, 154]);
    assert_eq!(s.sky.sun_pos, [Milli(840), Milli(300)]);
    assert!(s.sky.sun_enabled && !s.sky.moon_enabled && !s.sky.stars_enabled);
    assert_eq!(s.sky.stars_twinkle, Milli(500));
    assert_eq!(s.props.items[0].shadow_length, Milli(1280));
    assert_eq!(s.props.items[0].shadow_follow_light, Milli(820));
    assert_eq!(s.props.items[1].shadow_length, Milli(1000));

    s.scene.lighting_preset = LightingPreset::NightNeon;
    apply_lighting_preset_tuning(&mut s, |m| m, scaled, at_least);
    assert!(!s.sky.sun_enabled && s.sky.moon_enabled && s.sky.stars_enabled);
    assert_eq!(s.sky.moon_pos, [Milli(240), Milli(180)]);
    assert_eq!(s.sky.sun_color, [255, 188, 122]);
    assert_eq!(s.sky.stars_twinkle, Milli(800));
    assert_eq!(s.sky.cloud_tint, [140, 150, 172]);
}

#[test]
fn moods_weigh_light_and_shadow() {
    assert_eq!(lighting_profile(LightingPreset::HighNoon).shadow_len_mult, Milli(700));
    assert_eq!(lighting_profile(LightingPreset::NightNeon).contrast_pow, Milli(1140));
    assert_eq!(mood_numbers(LightingPreset::HighNoon).ambient, Milli(1180));
    assert_eq!(length_rule(LightingPreset::HighNoon).factor, Milli(780));
    assert_eq!(length_rule(LightingPreset::Balanced).most, Milli(1400));
    assert_eq!(light_scale(AtmoType::Lantern), Milli(1280));
    assert_eq!(light_scale(AtmoType::Unlit), Milli(1000));
}

#[test]
fn shadow_looks_set_the_shadow_only() {
    let mut p = PropInstance::new(PropType::Tree);
    apply_shadow_look(&mut p, ShadowLook::LongCast, |m| m);
    assert_eq!((p.shadow_size, p.shadow_length, p.shadow_softness), (Milli(1080), Milli(1650), Milli(1150)));
    assert_eq!((p.shadow_opacity, p.shadow_follow_light), (Milli(880), Milli(820)));
    assert_eq!(p.shadow_dir, PropInstance::new(PropType::Tree).shadow_dir);
    let names: Vec<&str> = ShadowLook::all().iter().map(|l| l.name()).collect();
    assert_eq!(names, ["Shadow: Natural", "Shadow: Long Cast", "Shadow: Soft Overcast"]);
    assert_eq!(ShadowLook::Natural.numbers().opacity, Milli(820));
    assert_eq!(ShadowLook::SoftOvercast.numbers().softness, Milli(1750));
}
