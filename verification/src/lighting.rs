//! The lighting moods: how they weigh light and shadow, and what they set in a scene.
use vstd::prelude::*;

use crate::defaults::Milli;
use crate::kinds::{AtmoType, LightingPreset};
use crate::settings::{PathForgeSettings, PropInstance};

verus! {

/// How a mood weighs light and shadow.
#[derive(Clone, Copy, Debug, PartialEq, Eq, Structural)]
pub struct LightingProfile {
    pub ambient_mult: Milli,
    pub contrast_pow: Milli,
    pub shadow_len_mult: Milli,
    pub shadow_darken_mult: Milli,
}

/// How a mood weighs light and shadow.
#[verifier::allow_in_spec]
pub fn lighting_profile(preset: LightingPreset) -> LightingProfile
    returns
        (match preset {
            LightingPreset::Balanced => LightingProfile {
                ambient_mult: Milli(1000),
                contrast_pow: Milli(1000),
                shadow_len_mult: Milli(1000),
                shadow_darken_mult: Milli(1000),
            },
            LightingPreset::GoldenHour => LightingProfile {
                ambient_mult: Milli(920),
                contrast_pow: Milli(1080),
                shadow_len_mult: Milli(1350),
                shadow_darken_mult: Milli(1100),
            },
            LightingPreset::HighNoon => LightingProfile {
                ambient_mult: Milli(1180),
                contrast_pow: Milli(950),
                shadow_len_mult: Milli(700),
                shadow_darken_mult: Milli(840),
            },
            LightingPreset::NightNeon => LightingProfile {
                ambient_mult: Milli(720),
                contrast_pow: Milli(1140),
                shadow_len_mult: Milli(1150),
                shadow_darken_mult: Milli(1180),
            },
        }),
{
    match preset {
        LightingPreset::Balanced => LightingProfile {
            ambient_mult: Milli(1000),
            contrast_pow: Milli(1000),
            shadow_len_mult: Milli(1000),
            shadow_darken_mult: Milli(1000),
        },
        LightingPreset::GoldenHour => LightingProfile {
            ambient_mult: Milli(920),
            contrast_pow: Milli(1080),
            shadow_len_mult: Milli(1350),
            shadow_darken_mult: Milli(1100),
        },
        LightingPreset::HighNoon => LightingProfile {
            ambient_mult: Milli(1180),
            contrast_pow: Milli(950),
            shadow_len_mult: Milli(700),
            shadow_darken_mult: Milli(840),
        },
        LightingPreset::NightNeon => LightingProfile {
            ambient_mult: Milli(720),
            contrast_pow: Milli(1140),
            shadow_len_mult: Milli(1150),
            shadow_darken_mult: Milli(1180),
        },
    }
}

/// How far a light reaches over the surfaces around it.
#[verifier::allow_in_spec]
pub fn light_scale(t: AtmoType) -> Milli
    returns
        (match t {
            AtmoType::Torch | AtmoType::Lantern => Milli(1280),
            AtmoType::Candle => Milli(1020),
            AtmoType::Firefly => Milli(820),
            AtmoType::Magic | AtmoType::GreenFire | AtmoType::IceWisp => Milli(1120),
            AtmoType::Unlit => Milli(1000),
        }),
{
    match t {
        AtmoType::Torch | AtmoType::Lantern => Milli(1280),
        AtmoType::Candle => Milli(1020),
        AtmoType::Firefly => Milli(820),
        AtmoType::Magic | AtmoType::GreenFire | AtmoType::IceWisp => Milli(1120),
        AtmoType::Unlit => Milli(1000),
    }
}

/// The measures that a mood sets in a scene.
#[derive(Clone, Copy, Debug)]
pub struct MoodNumbers<N> {
    pub ambient: N,
    pub atmo_light_influence: N,
    pub atmo_tint_influence: N,
    pub cloud_opacity: N,
    /// The place of the sun, or of the moon where the mood has no sun.
    pub body_pos: [N; 2],
    pub shadow_follow_light: N,
}

/// How a mood changes the length of a shadow: times a factor, and within two limits.
#[derive(Clone, Copy, Debug)]
pub struct LengthRule {
    pub factor: Milli,
    pub least: Milli,
    pub most: Milli,
}

/// The measures that a mood sets in a scene.
pub open spec fn mood_values(preset: LightingPreset) -> MoodNumbers<Milli> {
    match preset {
        LightingPreset::Balanced => MoodNumbers {
            ambient: Milli(1000),
            atmo_light_influence: Milli(350),
            atmo_tint_influence: Milli(280),
            cloud_opacity: Milli(320),
            body_pos: [Milli(720), Milli(220)],
            shadow_follow_light: Milli(650),
        },
        LightingPreset::GoldenHour => MoodNumbers {
            ambient: Milli(880),
            atmo_light_influence: Milli(440),
            atmo_tint_influence: Milli(460),
            cloud_opacity: Milli(400),
            body_pos: [Milli(840), Milli(300)],
            shadow_follow_light: Milli(820),
        },
        LightingPreset::HighNoon => MoodNumbers {
            ambient: Milli(1180),
            atmo_light_influence: Milli(200),
            atmo_tint_influence: Milli(120),
            cloud_opacity: Milli(240),
            body_pos: [Milli(500), Milli(100)],
            shadow_follow_light: Milli(550),
        },
        LightingPreset::NightNeon => MoodNumbers {
            ambient: Milli(700),
            atmo_light_influence: Milli(860),
            atmo_tint_influence: Milli(720),
            cloud_opacity: Milli(300),
            body_pos: [Milli(240), Milli(180)],
            shadow_follow_light: Milli(720),
        },
    }
}

/// The measures that a mood sets in a scene.
pub fn mood_numbers(preset: LightingPreset) -> (r: MoodNumbers<Milli>)
    ensures
        r == mood_values(preset),
{
    match preset {
        LightingPreset::Balanced => MoodNumbers {
            ambient: Milli(1000),
            atmo_light_influence: Milli(350),
            atmo_tint_influence: Milli(280),
            cloud_opacity: Milli(320),
            body_pos: [Milli(720), Milli(220)],
            shadow_follow_light: Milli(650),
        },
        LightingPreset::GoldenHour => MoodNumbers {
            ambient: Milli(880),
            atmo_light_influence: Milli(440),
            atmo_tint_influence: Milli(460),
            cloud_opacity: Milli(400),
            body_pos: [Milli(840), Milli(300)],
            shadow_follow_light: Milli(820),
        },
        LightingPreset::HighNoon => MoodNumbers {
            ambient: Milli(1180),
            atmo_light_influence: Milli(200),
            atmo_tint_influence: Milli(120),
            cloud_opacity: Milli(240),
            body_pos: [Milli(500), Milli(100)],
            shadow_follow_light: Milli(550),
        },
        LightingPreset::NightNeon => MoodNumbers {
            ambient: Milli(700),
            atmo_light_influence: Milli(860),
            atmo_tint_influence: Milli(720),
            cloud_opacity: Milli(300),
            body_pos: [Milli(240), Milli(180)],
            shadow_follow_light: Milli(720),
        },
    }
}

/// How a mood changes the length of a shadow.
pub open spec fn length_values(preset: LightingPreset) -> LengthRule {
    match preset {
        LightingPreset::Balanced => LengthRule { factor: Milli(1000), least: Milli(600), most: Milli(1400) },
        LightingPreset::GoldenHour => LengthRule { factor: Milli(1280), least: Milli(800), most: Milli(3000) },
        LightingPreset::HighNoon => LengthRule { factor: Milli(780), least: Milli(350), most: Milli(2200) },
        LightingPreset::NightNeon => LengthRule { factor: Milli(1120), least: Milli(600), most: Milli(3200) },
    }
}

/// How a mood changes the length of a shadow.
pub fn length_rule(preset: LightingPreset) -> (r: LengthRule)
    ensures
        r == length_values(preset),
{
    match preset {
        LightingPreset::Balanced => LengthRule { factor: Milli(1000), least: Milli(600), most: Milli(1400) },
        LightingPreset::GoldenHour => LengthRule { factor: Milli(1280), least: Milli(800), most: Milli(3000) },
        LightingPreset::HighNoon => LengthRule { factor: Milli(780), least: Milli(350), most: Milli(2200) },
        LightingPreset::NightNeon => LengthRule { factor: Milli(1120), least: Milli(600), most: Milli(3200) },
    }
}

/// Whether a prop is as it was but for its shadow, which follows the light and has its length
/// changed as a mood asks.
pub open spec fn is_relit<N, F: Fn(Milli) -> N, G: Fn(N, LengthRule) -> N>(
    new: PropInstance<N>,
    old: PropInstance<N>,
    preset: LightingPreset,
    number: F,
    scaled: G,
) -> bool {
    &&& new == (PropInstance {
        shadow_follow_light: new.shadow_follow_light,
        shadow_length: new.shadow_length,
        ..old
    })
    &&& call_ensures(number, (mood_values(preset).shadow_follow_light,), new.shadow_follow_light)
    &&& call_ensures(scaled, (old.shadow_length, length_values(preset)), new.shadow_length)
}

/// Whether a place is the one that two measures give.
pub open spec fn is_place<N, F: Fn(Milli) -> N>(place: [N; 2], number: F, values: [Milli; 2]) -> bool {
    call_ensures(number, (values[0],), place[0]) && call_ensures(number, (values[1],), place[1])
}

/// Whether a scene is as it was but for what its mood sets. The mood shows the sky and
/// clouds; by day the sun, by night the moon and stars; it tints the sun and the clouds, and
/// changes the shadows of the props that are enabled.
pub open spec fn is_tuned<N, F: Fn(Milli) -> N, G: Fn(N, LengthRule) -> N, H: Fn(N, Milli) -> N>(
    new: PathForgeSettings<N>,
    old: PathForgeSettings<N>,
    number: F,
    scaled: G,
    at_least: H,
) -> bool {
    let preset = old.scene.lighting_preset;
    let m = mood_values(preset);
    let night = preset == LightingPreset::NightNeon;
    &&& new.canvas == old.canvas
    &&& new.floor == old.floor
    &&& new.walls == old.walls
    &&& new.atmo == old.atmo
    &&& new.post == old.post
    &&& new.anim == old.anim
    &&& call_ensures(number, (m.ambient,), new.scene.ambient)
    &&& call_ensures(number, (m.atmo_light_influence,), new.scene.atmo_light_influence)
    &&& call_ensures(number, (m.atmo_tint_influence,), new.scene.atmo_tint_influence)
    &&& new.scene == (crate::settings::SceneSettings {
        ambient: new.scene.ambient,
        atmo_light_influence: new.scene.atmo_light_influence,
        atmo_tint_influence: new.scene.atmo_tint_influence,
        ..old.scene
    })
    &&& new.sky.enabled
    &&& new.sky.sun_enabled == !night
    &&& new.sky.moon_enabled == night
    &&& new.sky.stars_enabled == night
    &&& new.sky.clouds_enabled
    &&& call_ensures(number, (m.cloud_opacity,), new.sky.cloud_opacity)
    &&& if night {
        &&& new.sky.sun_pos == old.sky.sun_pos
        &&& is_place(new.sky.moon_pos, number, m.body_pos)
        &&& call_ensures(at_least, (old.sky.stars_twinkle, Milli(800)), new.sky.stars_twinkle)
    } else {
        &&& is_place(new.sky.sun_pos, number, m.body_pos)
        &&& new.sky.moon_pos == old.sky.moon_pos
        &&& new.sky.stars_twinkle == old.sky.stars_twinkle
    }
    &&& new.sky.sun_color == (match preset {
        LightingPreset::Balanced => [255u8, 228u8, 170u8],
        LightingPreset::GoldenHour => [255u8, 188u8, 122u8],
        LightingPreset::HighNoon => [255u8, 244u8, 210u8],
        LightingPreset::NightNeon => old.sky.sun_color,
    })
    &&& new.sky.cloud_tint == (match preset {
        LightingPreset::Balanced => old.sky.cloud_tint,
        LightingPreset::GoldenHour => [238u8, 194u8, 154u8],
        LightingPreset::HighNoon => [224u8, 230u8, 236u8],
        LightingPreset::NightNeon => [140u8, 150u8, 172u8],
    })
    &&& new.sky == (crate::settings::SkySettings {
        enabled: new.sky.enabled,
        sun_enabled: new.sky.sun_enabled,
        moon_enabled: new.sky.moon_enabled,
        stars_enabled: new.sky.stars_enabled,
        clouds_enabled: new.sky.clouds_enabled,
        cloud_opacity: new.sky.cloud_opacity,
        sun_pos: new.sky.sun_pos,
        moon_pos: new.sky.moon_pos,
        stars_twinkle: new.sky.stars_twinkle,
        sun_color: new.sky.sun_color,
        cloud_tint: new.sky.cloud_tint,
        ..old.sky
    })
    &&& new.props.items@.len() == old.props.items@.len()
    &&& forall|i: int|
        0 <= i < new.props.items@.len() ==> if old.props.items@[i].enabled {
            is_relit(#[trigger] new.props.items@[i], old.props.items@[i], preset, number, scaled)
        } else {
            new.props.items@[i] == old.props.items@[i]
        }
}

/// Sets what the mood of a scene asks for. How a measure becomes a number, how a length is
/// changed by a rule, and how a number is raised to a least one, are handed in.
pub fn apply_lighting_preset_tuning<N: Copy, F: Fn(Milli) -> N, G: Fn(N, LengthRule) -> N, H: Fn(N, Milli) -> N>(
    settings: &mut PathForgeSettings<N>,
    number: F,
    scaled: G,
    at_least: H,
)
    requires
        forall|m: Milli| call_requires(number, (m,)),
        forall|l: N, rule: LengthRule| call_requires(scaled, (l, rule)),
        forall|l: N, m: Milli| call_requires(at_least, (l, m)),
    ensures
        is_tuned(*final(settings), *old(settings), number, scaled, at_least),
{
    let preset: LightingPreset = settings.scene.lighting_preset;
    let m: MoodNumbers<Milli> = mood_numbers(preset);
    let rule: LengthRule = length_rule(preset);
    let night: bool = preset == LightingPreset::NightNeon;
    settings.scene.ambient = number(m.ambient);
    settings.scene.atmo_light_influence = number(m.atmo_light_influence);
    settings.scene.atmo_tint_influence = number(m.atmo_tint_influence);
    settings.sky.enabled = true;
    settings.sky.sun_enabled = !night;
    settings.sky.moon_enabled = night;
    settings.sky.stars_enabled = night;
    settings.sky.clouds_enabled = true;
    settings.sky.cloud_opacity = number(m.cloud_opacity);
    let place: [N; 2] = [number(m.body_pos[0]), number(m.body_pos[1])];
    match preset {
        LightingPreset::Balanced => {
            settings.sky.sun_pos = place;
            settings.sky.sun_color = [255, 228, 170];
        },
        LightingPreset::GoldenHour => {
            settings.sky.sun_pos = place;
            settings.sky.sun_color = [255, 188, 122];
            settings.sky.cloud_tint = [238, 194, 154];
        },
        LightingPreset::HighNoon => {
            settings.sky.sun_pos = place;
            settings.sky.sun_color = [255, 244, 210];
            settings.sky.cloud_tint = [224, 230, 236];
        },
        LightingPreset::NightNeon => {
            settings.sky.moon_pos = place;
            settings.sky.stars_twinkle = at_least(settings.sky.stars_twinkle, Milli(800));
            settings.sky.cloud_tint = [140, 150, 172];
        },
    }
    let ghost sky_done = *settings;
    let ghost items = old(settings).props.items@;
    let mut i: usize = 0;
    while i < settings.props.items.len()
        invariant
            i <= settings.props.items@.len(),
            settings.props.items@.len() == items.len(),
            forall|v: Milli| call_requires(number, (v,)),
            forall|l: N, v: LengthRule| call_requires(scaled, (l, v)),
            m == mood_values(preset),
            rule == length_values(preset),
            settings.canvas == sky_done.canvas,
            settings.scene == sky_done.scene,
            settings.floor == sky_done.floor,
            settings.walls == sky_done.walls,
            settings.sky == sky_done.sky,
            settings.atmo == sky_done.atmo,
            settings.post == sky_done.post,
            settings.anim == sky_done.anim,
            forall|k: int|
                0 <= k < i ==> if items[k].enabled {
                    is_relit(#[trigger] settings.props.items@[k], items[k], preset, number, scaled)
                } else {
                    settings.props.items@[k] == items[k]
                },
            forall|k: int| i <= k < items.len() ==> #[trigger] settings.props.items@[k] == items[k],
        decreases settings.props.items.len() - i,
    {
        if settings.props.items[i].enabled {
            let follow: N = number(m.shadow_follow_light);
            let length: N = scaled(settings.props.items[i].shadow_length, rule);
            settings.props.items[i].shadow_follow_light = follow;
            settings.props.items[i].shadow_length = length;
        }
        i = i + 1;
    }
}

/// A look for the shadow of a prop that is chosen as a whole.
#[derive(Clone, Copy, Debug, PartialEq, Eq, Structural)]
pub enum ShadowLook {
    Natural,
    LongCast,
    SoftOvercast,
}

/// The measures of a prop's shadow that a look sets.
#[derive(Clone, Copy, Debug)]
pub struct ShadowNumbers<N> {
    pub size: N,
    pub length: N,
    pub softness: N,
    pub opacity: N,
    pub follow_light: N,
}

impl ShadowLook {
    /// What the interface calls the look.
    pub open spec fn title(&self) -> Seq<char> {
        match *self {
            ShadowLook::Natural => "Shadow: Natural"@,
            ShadowLook::LongCast => "Shadow: Long Cast"@,
            ShadowLook::SoftOvercast => "Shadow: Soft Overcast"@,
        }
    }

    /// All looks, in the order of the interface.
    pub fn all() -> (r: [ShadowLook; 3])
        ensures
            r@ == seq![ShadowLook::Natural, ShadowLook::LongCast, ShadowLook::SoftOvercast],
    {
        [ShadowLook::Natural, ShadowLook::LongCast, ShadowLook::SoftOvercast]
    }

    /// What the interface calls the look.
    pub fn name(&self) -> (r: &'static str)
        ensures
            r@ == self.title(),
    {
        match self {
            ShadowLook::Natural => "Shadow: Natural",
            ShadowLook::LongCast => "Shadow: Long Cast",
            ShadowLook::SoftOvercast => "Shadow: Soft Overcast",
        }
    }

    /// The measures of the look.
    pub open spec fn values(&self) -> ShadowNumbers<Milli> {
        match *self {
            ShadowLook::Natural => ShadowNumbers {
                size: Milli(1000),
                length: Milli(1000),
                softness: Milli(1000),
                opacity: Milli(820),
                follow_light: Milli(700),
            },
            ShadowLook::LongCast => ShadowNumbers {
                size: Milli(1080),
                length: Milli(1650),
                softness: Milli(1150),
                opacity: Milli(880),
                follow_light: Milli(820),
            },
            ShadowLook::SoftOvercast => ShadowNumbers {
                size: Milli(1120),
                length: Milli(860),
                softness: Milli(1750),
                opacity: Milli(620),
                follow_light: Milli(550),
            },
        }
    }

    /// The measures of the look.
    pub fn numbers(&self) -> (r: ShadowNumbers<Milli>)
        ensures
            r == self.values(),
    {
        match self {
            ShadowLook::Natural => ShadowNumbers {
                size: Milli(1000),
                length: Milli(1000),
                softness: Milli(1000),
                opacity: Milli(820),
                follow_light: Milli(700),
            },
            ShadowLook::LongCast => ShadowNumbers {
                size: Milli(1080),
                length: Milli(1650),
                softness: Milli(1150),
                opacity: Milli(880),
                follow_light: Milli(820),
            },
            ShadowLook::SoftOvercast => ShadowNumbers {
                size: Milli(1120),
                length: Milli(860),
                softness: Milli(1750),
                opacity: Milli(620),
                follow_light: Milli(550),
            },
        }
    }
}

/// Gives a prop's shadow a look; all else of the prop stays. How a measure becomes a number is
/// handed in.
pub fn apply_shadow_look<N, F: Fn(Milli) -> N>(prop: &mut PropInstance<N>, look: ShadowLook, number: F)
    requires
        forall|m: Milli| call_requires(number, (m,)),
    ensures
        *final(prop) == (PropInstance {
            shadow_size: final(prop).shadow_size,
            shadow_length: final(prop).shadow_length,
            shadow_softness: final(prop).shadow_softness,
            shadow_opacity: final(prop).shadow_opacity,
            shadow_follow_light: final(prop).shadow_follow_light,
            ..*old(prop)
        }),
        call_ensures(number, (look.values().size,), final(prop).shadow_size),
        call_ensures(number, (look.values().length,), final(prop).shadow_length),
        call_ensures(number, (look.values().softness,), final(prop).shadow_softness),
        call_ensures(number, (look.values().opacity,), final(prop).shadow_opacity),
        call_ensures(number, (look.values().follow_light,), final(prop).shadow_follow_light),
{
    let n: ShadowNumbers<Milli> = look.numbers();
    prop.shadow_size = number(n.size);
    prop.shadow_length = number(n.length);
    prop.shadow_softness = number(n.softness);
    prop.shadow_opacity = number(n.opacity);
    prop.shadow_follow_light = number(n.follow_light);
}

/// Noon is the brightest mood and night the darkest; at night lights and their tints weigh most
/// and at noon least; shadows are longest at the golden hour and shortest at noon. The limits of a
/// shadow's length leave room, and every mood puts its sun or moon within the picture, at noon the
/// highest.
pub proof fn law_moods_rank(t: LightingPreset)
    ensures
        mood_values(LightingPreset::NightNeon).ambient.0 <= mood_values(t).ambient.0 <= mood_values(
            LightingPreset::HighNoon,
        ).ambient.0,
        mood_values(LightingPreset::HighNoon).atmo_light_influence.0 <= mood_values(t).atmo_light_influence.0
            <= mood_values(LightingPreset::NightNeon).atmo_light_influence.0,
        mood_values(LightingPreset::HighNoon).atmo_tint_influence.0 <= mood_values(t).atmo_tint_influence.0
            <= mood_values(LightingPreset::NightNeon).atmo_tint_influence.0,
        length_values(LightingPreset::HighNoon).factor.0 <= length_values(t).factor.0 <= length_values(
            LightingPreset::GoldenHour,
        ).factor.0,
        length_values(t).least.0 < length_values(t).most.0,
        0 <= mood_values(t).body_pos[0].0 <= 1000,
        mood_values(LightingPreset::HighNoon).body_pos[1].0 <= mood_values(t).body_pos[1].0 <= 1000,
        mood_values(LightingPreset::HighNoon).shadow_follow_light.0 <= mood_values(t).shadow_follow_light.0
            <= mood_values(LightingPreset::GoldenHour).shadow_follow_light.0,
        mood_values(LightingPreset::HighNoon).cloud_opacity.0 <= mood_values(t).cloud_opacity.0 <= mood_values(
            LightingPreset::GoldenHour,
        ).cloud_opacity.0,
{
}

/// What a mood sets in a scene and how it weighs light and shadow go the same way: a mood that
/// darkens one darkens the other, and one that lengthens shadows does so in both. The balanced mood
/// weighs nothing.
pub proof fn law_moods_weigh_as_they_set(t: LightingPreset)
    ensures
        lighting_profile(t).ambient_mult.0 < 1000 <==> mood_values(t).ambient.0 < 1000,
        lighting_profile(t).ambient_mult.0 > 1000 <==> mood_values(t).ambient.0 > 1000,
        lighting_profile(t).shadow_len_mult.0 < 1000 <==> length_values(t).factor.0 < 1000,
        lighting_profile(t).shadow_len_mult.0 > 1000 <==> length_values(t).factor.0 > 1000,
        lighting_profile(t).shadow_darken_mult.0 > 1000 <==> lighting_profile(t).ambient_mult.0 < 1000,
        lighting_profile(t).contrast_pow.0 > 1000 <==> lighting_profile(t).ambient_mult.0 < 1000,
        t == LightingPreset::Balanced <==> lighting_profile(t).ambient_mult.0 == 1000 && lighting_profile(
            t,
        ).shadow_len_mult.0 == 1000,
{
}

/// Torches and lanterns reach farthest and fireflies least; what is not lit is left as it is.
pub proof fn law_lights_rank(t: AtmoType)
    ensures
        light_scale(AtmoType::Firefly).0 <= light_scale(t).0 <= light_scale(AtmoType::Torch).0,
        light_scale(AtmoType::Lantern) == light_scale(AtmoType::Torch),
        light_scale(AtmoType::Unlit).0 == 1000,
        t != AtmoType::Unlit && t != AtmoType::Firefly ==> light_scale(t).0 > light_scale(AtmoType::Unlit).0,
{
}

/// A tuned scene shows the sun or the moon and not both, stars with the moon alone, and clouds. The
/// sun is white or warm by day and left alone at night. The canvas, the ground, the walls, the
/// lights, the effects and the animation stay, and of the props all but the shadows of those that
/// are enabled.
#[verifier::rlimit(50)]
pub proof fn law_tuned_scenes<N, F: Fn(Milli) -> N, G: Fn(N, LengthRule) -> N, H: Fn(N, Milli) -> N>(
    new: PathForgeSettings<N>,
    old: PathForgeSettings<N>,
    number: F,
    scaled: G,
    at_least: H,
    i: int,
)
    requires
        is_tuned(new, old, number, scaled, at_least),
        0 <= i < new.props.items@.len(),
    ensures
        new.sky.sun_enabled != new.sky.moon_enabled,
        new.sky.stars_enabled == new.sky.moon_enabled,
        new.sky.moon_enabled <==> old.scene.lighting_preset == LightingPreset::NightNeon,
        new.sky.clouds_enabled && new.sky.enabled,
        new.sky.sun_enabled ==> new.sky.sun_color[0] >= new.sky.sun_color[1] >= new.sky.sun_color[2],
        !new.sky.sun_enabled ==> new.sky.sun_color == old.sky.sun_color && new.sky.sun_pos == old.sky.sun_pos,
        !new.sky.moon_enabled ==> new.sky.moon_pos == old.sky.moon_pos,
        new.scene.lighting_preset == old.scene.lighting_preset,
        new.canvas == old.canvas && new.floor == old.floor && new.walls == old.walls && new.atmo == old.atmo,
        new.post == old.post && new.anim == old.anim,
        new.props.items@.len() == old.props.items@.len(),
        !old.props.items@[i].enabled ==> new.props.items@[i] == old.props.items@[i],
        new.props.items@[i].enabled == old.props.items@[i].enabled,
        new.props.items@[i].prop_type == old.props.items@[i].prop_type,
        new.props.items@[i].casts_shadow == old.props.items@[i].casts_shadow,
        old.props.items@[i].enabled ==> call_ensures(
            scaled,
            (old.props.items@[i].shadow_length, length_values(old.scene.lighting_preset)),
            new.props.items@[i].shadow_length,
        ),
{
    let preset = old.scene.lighting_preset;
    let p = new.props.items@[i];
    assert(if old.props.items@[i].enabled {
        is_relit(p, old.props.items@[i], preset, number, scaled)
    } else {
        p == old.props.items@[i]
    });
}

/// The long look casts the longest shadow and the darkest, the soft one the shortest and faintest,
/// the softest and the largest; the natural one changes neither size, length nor softness.
pub proof fn law_looks_rank(l: ShadowLook)
    ensures
        ShadowLook::SoftOvercast.values().length.0 <= l.values().length.0 <= ShadowLook::LongCast.values().length.0,
        ShadowLook::SoftOvercast.values().opacity.0 <= l.values().opacity.0 <= ShadowLook::LongCast.values().opacity.0,
        ShadowLook::SoftOvercast.values().follow_light.0 <= l.values().follow_light.0
            <= ShadowLook::LongCast.values().follow_light.0,
        ShadowLook::Natural.values().softness.0 <= l.values().softness.0
            <= ShadowLook::SoftOvercast.values().softness.0,
        ShadowLook::Natural.values().size.0 <= l.values().size.0 <= ShadowLook::SoftOvercast.values().size.0,
        ShadowLook::Natural.values().size.0 == 1000,
        ShadowLook::Natural.values().length.0 == 1000,
        ShadowLook::Natural.values().softness.0 == 1000,
        0 < l.values().opacity.0 < 1000,
{
}

/// No two looks share a name.
pub proof fn law_look_names_differ(a: ShadowLook, b: ShadowLook)
    ensures
        a.title() == b.title() <==> a == b,
{
    reveal_strlit("Shadow: Natural");
    reveal_strlit("Shadow: Long Cast");
    reveal_strlit("Shadow: Soft Overcast");
    assert(a.title().len() != b.title().len() || a == b);
}

/// The measures that the moods set, one after the other and from mood to mood.
pub proof fn law_mood_measures(t: LightingPreset)
    ensures
        mood_values(t).ambient.0 == (match t {
            LightingPreset::Balanced => 1000int,
            LightingPreset::GoldenHour => 880int,
            LightingPreset::HighNoon => 1180int,
            LightingPreset::NightNeon => 700int,
        }),
        mood_values(t).atmo_light_influence.0 == (match t {
            LightingPreset::Balanced => 350int,
            LightingPreset::GoldenHour => 440int,
            LightingPreset::HighNoon => 200int,
            LightingPreset::NightNeon => 860int,
        }),
        mood_values(t).atmo_tint_influence.0 == (match t {
            LightingPreset::Balanced => 280int,
            LightingPreset::GoldenHour => 460int,
            LightingPreset::HighNoon => 120int,
            LightingPreset::NightNeon => 720int,
        }),
        mood_values(t).cloud_opacity.0 == (match t {
            LightingPreset::Balanced => 320int,
            LightingPreset::GoldenHour => 400int,
            LightingPreset::HighNoon => 240int,
            LightingPreset::NightNeon => 300int,
        }),
        mood_values(t).body_pos[0].0 == (match t {
            LightingPreset::Balanced => 720int,
            LightingPreset::GoldenHour => 840int,
            LightingPreset::HighNoon => 500int,
            LightingPreset::NightNeon => 240int,
        }),
        mood_values(t).body_pos[1].0 == (match t {
            LightingPreset::Balanced => 220int,
            LightingPreset::GoldenHour => 300int,
            LightingPreset::HighNoon => 100int,
            LightingPreset::NightNeon => 180int,
        }),
        mood_values(t).shadow_follow_light.0 == (match t {
            LightingPreset::Balanced => 650int,
            LightingPreset::GoldenHour => 820int,
            LightingPreset::HighNoon => 550int,
            LightingPreset::NightNeon => 720int,
        }),
        length_values(t).factor.0 == (match t {
            LightingPreset::Balanced => 1000int,
            LightingPreset::GoldenHour => 1280int,
            LightingPreset::HighNoon => 780int,
            LightingPreset::NightNeon => 1120int,
        }),
        length_values(t).least.0 == (match t {
            LightingPreset::Balanced | LightingPreset::NightNeon => 600int,
            LightingPreset::GoldenHour => 800int,
            LightingPreset::HighNoon => 350int,
        }),
        length_values(t).most.0 == (match t {
            LightingPreset::Balanced => 1400int,
            LightingPreset::GoldenHour => 3000int,
            LightingPreset::HighNoon => 2200int,
            LightingPreset::NightNeon => 3200int,
        }),
        lighting_profile(t).ambient_mult.0 == (match t {
            LightingPreset::Balanced => 1000int,
            LightingPreset::GoldenHour => 920int,
            LightingPreset::HighNoon => 1180int,
            LightingPreset::NightNeon => 720int,
        }),
        lighting_profile(t).contrast_pow.0 == (match t {
            LightingPreset::Balanced => 1000int,
            LightingPreset::GoldenHour => 1080int,
            LightingPreset::HighNoon => 950int,
            LightingPreset::NightNeon => 1140int,
        }),
        lighting_profile(t).shadow_len_mult.0 == (match t {
            LightingPreset::Balanced => 1000int,
            LightingPreset::GoldenHour => 1350int,
            LightingPreset::HighNoon => 700int,
            LightingPreset::NightNeon => 1150int,
        }),
        lighting_profile(t).shadow_darken_mult.0 == (match t {
            LightingPreset::Balanced => 1000int,
            LightingPreset::GoldenHour => 1100int,
            LightingPreset::HighNoon => 840int,
            LightingPreset::NightNeon => 1180int,
        }),
{
}

/// The measures of the looks, one after the other and from look to look.
pub proof fn law_look_measures(t: ShadowLook)
    ensures
        t.values().size.0 == (match t {
            ShadowLook::Natural => 1000int,
            ShadowLook::LongCast => 1080int,
            ShadowLook::SoftOvercast => 1120int,
        }),
        t.values().length.0 == (match t {
            ShadowLook::Natural => 1000int,
            ShadowLook::LongCast => 1650int,
            ShadowLook::SoftOvercast => 860int,
        }),
        t.values().softness.0 == (match t {
            ShadowLook::Natural => 1000int,
            ShadowLook::LongCast => 1150int,
            ShadowLook::SoftOvercast => 1750int,
        }),
        t.values().opacity.0 == (match t {
            ShadowLook::Natural => 820int,
            ShadowLook::LongCast => 880int,
            ShadowLook::SoftOvercast => 620int,
        }),
        t.values().follow_light.0 == (match t {
            ShadowLook::Natural => 700int,
            ShadowLook::LongCast => 820int,
            ShadowLook::SoftOvercast => 550int,
        }),
{
}

/// The sun and the clouds of a tuned scene have the colours of its mood; a balanced one leaves the
/// clouds alone, and a night the sun.
#[verifier::rlimit(50)]
pub proof fn law_tuned_colours<N, F: Fn(Milli) -> N, G: Fn(N, LengthRule) -> N, H: Fn(N, Milli) -> N>(
    new: PathForgeSettings<N>,
    old: PathForgeSettings<N>,
    number: F,
    scaled: G,
    at_least: H,
)
    requires
        is_tuned(new, old, number, scaled, at_least),
    ensures
        old.scene.lighting_preset != LightingPreset::NightNeon ==> new.sky.sun_color[0] == 255,
        new.sky.sun_color[1] == (match old.scene.lighting_preset {
            LightingPreset::Balanced => 228,
            LightingPreset::GoldenHour => 188,
            LightingPreset::HighNoon => 244,
            LightingPreset::NightNeon => old.sky.sun_color[1],
        }),
        new.sky.sun_color[2] == (match old.scene.lighting_preset {
            LightingPreset::Balanced => 170,
            LightingPreset::GoldenHour => 122,
            LightingPreset::HighNoon => 210,
            LightingPreset::NightNeon => old.sky.sun_color[2],
        }),
        new.sky.cloud_tint[0] == (match old.scene.lighting_preset {
            LightingPreset::Balanced => old.sky.cloud_tint[0],
            LightingPreset::GoldenHour => 238,
            LightingPreset::HighNoon => 224,
            LightingPreset::NightNeon => 140,
        }),
        new.sky.cloud_tint[1] == (match old.scene.lighting_preset {
            LightingPreset::Balanced => old.sky.cloud_tint[1],
            LightingPreset::GoldenHour => 194,
            LightingPreset::HighNoon => 230,
            LightingPreset::NightNeon => 150,
        }),
        new.sky.cloud_tint[2] == (match old.scene.lighting_preset {
            LightingPreset::Balanced => old.sky.cloud_tint[2],
            LightingPreset::GoldenHour => 154,
            LightingPreset::HighNoon => 236,
            LightingPreset::NightNeon => 172,
        }),
        call_ensures(number, (mood_values(old.scene.lighting_preset).ambient,), new.scene.ambient),
        call_ensures(number, (mood_values(old.scene.lighting_preset).cloud_opacity,), new.sky.cloud_opacity),
        new.sky.stars_enabled ==> call_ensures(at_least, (old.sky.stars_twinkle, Milli(800)), new.sky.stars_twinkle),
        !new.sky.stars_enabled ==> new.sky.stars_twinkle == old.sky.stars_twinkle,
        new.sky.sun_enabled ==> call_ensures(
            number,
            (mood_values(old.scene.lighting_preset).body_pos[0],),
            new.sky.sun_pos[0],
        ),
        new.sky.moon_enabled ==> call_ensures(
            number,
            (mood_values(old.scene.lighting_preset).body_pos[0],),
            new.sky.moon_pos[0],
        ),
{
}

} // verus!
