//! Which parts of a scene have something to show, and which of them an export draws.
use vstd::prelude::*;

use crate::settings::{AtmoLayer, AtmoType, PathForgeSettings, PropInstance};
use crate::text::{blank, is_blank, law_blank_is_empty_when_stripped, strip, CharClass};
use crate::tiles::clamped;

verus! {

/// The parts of a picture that are drawn.
#[derive(Clone, Copy, Debug, PartialEq, Eq, Structural)]
pub struct RenderLayers {
    pub sky: bool,
    pub floor: bool,
    pub walls: bool,
    pub atmo: bool,
    pub props: bool,
    pub post: bool,
}

impl RenderLayers {
    /// Every part.
    pub fn all() -> (r: Self)
        ensures
            r == (RenderLayers { sky: true, floor: true, walls: true, atmo: true, props: true, post: true }),
    {
        RenderLayers { sky: true, floor: true, walls: true, atmo: true, props: true, post: true }
    }

    /// Whether every part is drawn.
    pub open spec fn is_all(self) -> bool {
        self.sky && self.floor && self.walls && self.atmo && self.props && self.post
    }

    /// Whether every part is drawn.
    pub fn covers_everything(&self) -> (r: bool)
        ensures
            r == self.is_all(),
    {
        self.sky && self.floor && self.walls && self.atmo && self.props && self.post
    }
}

/// Whether an object has a sprite: a path of its own, or a pool that is enabled.
pub open spec fn names_sprite(path: Seq<char>, pool: Seq<char>, pool_enabled: bool) -> bool {
    !is_blank(path) || (pool_enabled && !is_blank(pool))
}

/// Whether an atmosphere layer shows anything.
pub open spec fn layer_shows<N>(l: AtmoLayer<N>) -> bool {
    l.enabled && (l.atmo_type != AtmoType::Unlit || l.n_motes > 0 || l.n_debris > 0 || names_sprite(
        l.sprite_path@,
        l.sprite_pool_paths@,
        l.sprite_pool_enabled,
    ))
}

/// Whether an atmosphere layer draws a sprite.
pub open spec fn layer_has_sprite<N>(l: AtmoLayer<N>) -> bool {
    l.enabled && names_sprite(l.sprite_path@, l.sprite_pool_paths@, l.sprite_pool_enabled)
}

/// Whether a prop draws a sprite.
pub open spec fn prop_has_sprite<N>(p: PropInstance<N>) -> bool {
    p.enabled && names_sprite(p.sprite_path@, p.sprite_pool_paths@, p.sprite_pool_enabled)
}

/// Whether the sky shows anything.
pub open spec fn shows_sky<N>(s: PathForgeSettings<N>) -> bool {
    s.sky.enabled || s.sky.sun_enabled || s.sky.moon_enabled || s.sky.stars_enabled || s.sky.clouds_enabled
}

/// Whether the atmosphere shows anything.
pub open spec fn shows_atmo<N>(s: PathForgeSettings<N>) -> bool {
    exists|i: int| 0 <= i < s.atmo.layers@.len() && layer_shows(#[trigger] s.atmo.layers@[i])
}

/// Whether any prop is shown.
pub open spec fn shows_props<N>(s: PathForgeSettings<N>) -> bool {
    exists|i: int| 0 <= i < s.props.items@.len() && (#[trigger] s.props.items@[i]).enabled
}

/// Whether any prop or atmosphere layer draws a sprite.
pub open spec fn shows_sprite<N>(s: PathForgeSettings<N>) -> bool {
    ||| exists|i: int| 0 <= i < s.props.items@.len() && prop_has_sprite(#[trigger] s.props.items@[i])
    ||| exists|i: int| 0 <= i < s.atmo.layers@.len() && layer_has_sprite(#[trigger] s.atmo.layers@[i])
}

fn has_sprite(path: &str, pool: &str, pool_enabled: bool) -> (r: bool)
    ensures
        r == names_sprite(path@, pool@, pool_enabled),
{
    !blank(path) || (pool_enabled && !blank(pool))
}

/// Whether the sky shows anything.
pub fn layer_has_sky<N>(settings: &PathForgeSettings<N>) -> (r: bool)
    ensures
        r == shows_sky(*settings),
{
    settings.sky.enabled || settings.sky.sun_enabled || settings.sky.moon_enabled || settings.sky.stars_enabled
        || settings.sky.clouds_enabled
}

/// Whether the floor shows anything: it always does.
pub fn layer_has_floor<N>(settings: &PathForgeSettings<N>) -> (r: bool)
    ensures
        r,
{
    true
}

/// Whether the walls show anything.
pub fn layer_has_walls<N>(settings: &PathForgeSettings<N>) -> (r: bool)
    ensures
        r == settings.walls.enabled,
{
    settings.walls.enabled
}

/// Whether the atmosphere shows anything.
pub fn layer_has_atmo<N>(settings: &PathForgeSettings<N>) -> (r: bool)
    ensures
        r == shows_atmo(*settings),
{
    let mut i: usize = 0;
    while i < settings.atmo.layers.len()
        invariant
            i <= settings.atmo.layers@.len(),
            forall|j: int| 0 <= j < i ==> !layer_shows(#[trigger] settings.atmo.layers@[j]),
        decreases settings.atmo.layers.len() - i,
    {
        let l: &AtmoLayer<N> = &settings.atmo.layers[i];
        if l.enabled && (l.atmo_type != AtmoType::Unlit || l.n_motes > 0 || l.n_debris > 0 || has_sprite(
            l.sprite_path.as_str(),
            l.sprite_pool_paths.as_str(),
            l.sprite_pool_enabled,
        )) {
            assert(layer_shows(settings.atmo.layers@[i as int]));
            return true;
        }
        i = i + 1;
    }
    false
}

/// Whether any prop is shown.
pub fn layer_has_props<N>(settings: &PathForgeSettings<N>) -> (r: bool)
    ensures
        r == shows_props(*settings),
{
    let mut i: usize = 0;
    while i < settings.props.items.len()
        invariant
            i <= settings.props.items@.len(),
            forall|j: int| 0 <= j < i ==> !(#[trigger] settings.props.items@[j]).enabled,
        decreases settings.props.items.len() - i,
    {
        if settings.props.items[i].enabled {
            assert(settings.props.items@[i as int].enabled);
            return true;
        }
        i = i + 1;
    }
    false
}

/// Whether any enabled prop or atmosphere layer uses a sprite image.
pub fn has_sprite_instances<N>(settings: &PathForgeSettings<N>) -> (r: bool)
    ensures
        r == shows_sprite(*settings),
{
    let mut i: usize = 0;
    while i < settings.props.items.len()
        invariant
            i <= settings.props.items@.len(),
            forall|j: int| 0 <= j < i ==> !prop_has_sprite(#[trigger] settings.props.items@[j]),
        decreases settings.props.items.len() - i,
    {
        let p: &PropInstance<N> = &settings.props.items[i];
        if p.enabled && has_sprite(p.sprite_path.as_str(), p.sprite_pool_paths.as_str(), p.sprite_pool_enabled) {
            assert(prop_has_sprite(settings.props.items@[i as int]));
            return true;
        }
        i = i + 1;
    }
    let mut k: usize = 0;
    while k < settings.atmo.layers.len()
        invariant
            k <= settings.atmo.layers@.len(),
            forall|j: int| 0 <= j < settings.props.items@.len() ==> !prop_has_sprite(
                #[trigger] settings.props.items@[j],
            ),
            forall|j: int| 0 <= j < k ==> !layer_has_sprite(#[trigger] settings.atmo.layers@[j]),
        decreases settings.atmo.layers.len() - k,
    {
        let l: &AtmoLayer<N> = &settings.atmo.layers[k];
        if l.enabled && has_sprite(l.sprite_path.as_str(), l.sprite_pool_paths.as_str(), l.sprite_pool_enabled) {
            assert(layer_has_sprite(settings.atmo.layers@[k as int]));
            return true;
        }
        k = k + 1;
    }
    false
}

/// Whether the GPU draws the scene exactly as the CPU does. It does not draw sprites.
pub fn supports_exact_scene_parity<N>(settings: &PathForgeSettings<N>) -> (r: bool)
    ensures
        r == !shows_sprite(*settings),
{
    !has_sprite_instances(settings)
}

/// Whether anything in the scene sheds light.
pub open spec fn sheds_light<N>(s: PathForgeSettings<N>) -> bool {
    ||| s.sky.sun_enabled && s.sky.sun_emits_light
    ||| s.sky.moon_enabled && s.sky.moon_emits_light
    ||| exists|i: int|
        0 <= i < s.atmo.layers@.len() && (#[trigger] s.atmo.layers@[i]).enabled && s.atmo.layers@[i].emits_light
    ||| exists|i: int|
        0 <= i < s.props.items@.len() && (#[trigger] s.props.items@[i]).enabled && s.props.items@[i].emits_light
}

/// Whether anything in the scene sheds light.
pub fn has_emitter<N>(settings: &PathForgeSettings<N>) -> (r: bool)
    ensures
        r == sheds_light(*settings),
{
    if settings.sky.sun_enabled && settings.sky.sun_emits_light {
        return true;
    }
    if settings.sky.moon_enabled && settings.sky.moon_emits_light {
        return true;
    }
    let mut i: usize = 0;
    while i < settings.atmo.layers.len()
        invariant
            i <= settings.atmo.layers@.len(),
            forall|j: int|
                0 <= j < i ==> !((#[trigger] settings.atmo.layers@[j]).enabled && settings.atmo.layers@[j].emits_light),
        decreases settings.atmo.layers.len() - i,
    {
        if settings.atmo.layers[i].enabled && settings.atmo.layers[i].emits_light {
            assert(settings.atmo.layers@[i as int].enabled);
            return true;
        }
        i = i + 1;
    }
    let mut k: usize = 0;
    while k < settings.props.items.len()
        invariant
            k <= settings.props.items@.len(),
            forall|j: int|
                0 <= j < k ==> !((#[trigger] settings.props.items@[j]).enabled && settings.props.items@[j].emits_light),
        decreases settings.props.items.len() - k,
    {
        if settings.props.items[k].enabled && settings.props.items[k].emits_light {
            assert(settings.props.items@[k as int].enabled);
            return true;
        }
        k = k + 1;
    }
    false
}

/// The number of samples that are averaged for a frame of a layer: the sky needs one, the
/// atmosphere no more than two.
pub open spec fn layer_smoothing(base: u32, layers: RenderLayers) -> int {
    let wanted = if base < 1 { 1 } else { base as int };
    if layers.sky && !layers.floor && !layers.walls && !layers.atmo && !layers.props {
        1
    } else if layers.atmo && !layers.floor && !layers.walls && !layers.sky && !layers.props {
        if wanted < 2 {
            wanted
        } else {
            2
        }
    } else {
        wanted
    }
}

/// The number of samples that are averaged for a frame of a layer.
pub fn effective_layer_smoothing(base: u32, layers: RenderLayers) -> (r: u32)
    ensures
        r == layer_smoothing(base, layers),
        r >= 1,
{
    let wanted: u32 = if base < 1 {
        1
    } else {
        base
    };
    if layers.sky && !layers.floor && !layers.walls && !layers.atmo && !layers.props {
        return 1;
    }
    if layers.atmo && !layers.floor && !layers.walls && !layers.sky && !layers.props {
        return if wanted < 2 {
            wanted
        } else {
            2
        };
    }
    wanted
}

/// A layer is never averaged over more samples than were asked for, and over one at least.
pub proof fn law_layer_smoothing_bounds(base: u32, layers: RenderLayers)
    ensures
        1 <= layer_smoothing(base, layers),
        base >= 1 ==> layer_smoothing(base, layers) <= base,
{
}

/// A layer that draws a sprite also shows something, so a scene with a sprite has props
/// or an atmosphere.
pub proof fn law_sprites_are_shown<N>(s: PathForgeSettings<N>)
    ensures
        shows_sprite(s) ==> shows_atmo(s) || shows_props(s),
{
    if exists|i: int| 0 <= i < s.props.items@.len() && prop_has_sprite(#[trigger] s.props.items@[i]) {
        let i = choose|i: int| 0 <= i < s.props.items@.len() && prop_has_sprite(#[trigger] s.props.items@[i]);
        assert(s.props.items@[i].enabled);
    }
    if exists|i: int| 0 <= i < s.atmo.layers@.len() && layer_has_sprite(#[trigger] s.atmo.layers@[i]) {
        let i = choose|i: int| 0 <= i < s.atmo.layers@.len() && layer_has_sprite(#[trigger] s.atmo.layers@[i]);
        assert(layer_shows(s.atmo.layers@[i]));
    }
}

/// The atmosphere is exported just when an enabled layer of it has something that is drawn: a
/// light that glows, motes, debris, or a sprite.
pub proof fn law_what_is_drawn_is_shown<N>(s: PathForgeSettings<N>)
    ensures
        shows_atmo(s) <==> exists|i: int|
            #![trigger s.atmo.layers@[i]]
            0 <= i < s.atmo.layers@.len() && s.atmo.layers@[i].enabled && {
                ||| s.atmo.layers@[i].atmo_type.glow() is Some
                ||| clamped(s.atmo.layers@[i].n_motes as int, 0, 25) > 0
                ||| clamped(s.atmo.layers@[i].n_debris as int, 0, 10) > 0
                ||| strip(s.atmo.layers@[i].sprite_path@, CharClass::White).len() > 0
                ||| s.atmo.layers@[i].sprite_pool_enabled && strip(
                    s.atmo.layers@[i].sprite_pool_paths@,
                    CharClass::White,
                ).len() > 0
            },
{
    assert forall|i: int|
        0 <= i < s.atmo.layers@.len() implies layer_shows(#[trigger] s.atmo.layers@[i]) == (
    s.atmo.layers@[i].enabled && {
        ||| s.atmo.layers@[i].atmo_type.glow() is Some
        ||| clamped(s.atmo.layers@[i].n_motes as int, 0, 25) > 0
        ||| clamped(s.atmo.layers@[i].n_debris as int, 0, 10) > 0
        ||| strip(s.atmo.layers@[i].sprite_path@, CharClass::White).len() > 0
        ||| s.atmo.layers@[i].sprite_pool_enabled && strip(s.atmo.layers@[i].sprite_pool_paths@, CharClass::White).len()
            > 0
    }) by {
        law_blank_is_empty_when_stripped(s.atmo.layers@[i].sprite_path@);
        law_blank_is_empty_when_stripped(s.atmo.layers@[i].sprite_pool_paths@);
    }
    if shows_atmo(s) {
        let i = choose|i: int| 0 <= i < s.atmo.layers@.len() && layer_shows(#[trigger] s.atmo.layers@[i]);
        assert(s.atmo.layers@[i].enabled);
    }
}

/// Motes, debris, a glow or a sprite of one enabled layer are enough to export the atmosphere,
/// whatever the other layers are.
pub proof fn law_one_layer_shows_the_atmosphere<N>(s: PathForgeSettings<N>, i: int)
    requires
        0 <= i < s.atmo.layers@.len(),
        s.atmo.layers@[i].enabled,
    ensures
        s.atmo.layers@[i].n_motes > 0 ==> shows_atmo(s),
        s.atmo.layers@[i].n_debris > 0 ==> shows_atmo(s),
        s.atmo.layers@[i].atmo_type.glow() is Some ==> shows_atmo(s),
        layer_has_sprite(s.atmo.layers@[i]) ==> shows_atmo(s) && shows_sprite(s),
{
    assert(s.atmo.layers@[i].n_motes > 0 ==> layer_shows(s.atmo.layers@[i]));
    assert(s.atmo.layers@[i].n_debris > 0 ==> layer_shows(s.atmo.layers@[i]));
    assert(s.atmo.layers@[i].atmo_type.glow() is Some ==> layer_shows(s.atmo.layers@[i]));
    assert(layer_has_sprite(s.atmo.layers@[i]) ==> layer_shows(s.atmo.layers@[i]));
}

/// What is disabled is not shown: a scene whose layers and props are all disabled has no
/// atmosphere, props or sprites, and sheds no light but that of sun and moon.
pub proof fn law_disabled_parts_are_not_shown<N>(s: PathForgeSettings<N>)
    requires
        forall|i: int| 0 <= i < s.atmo.layers@.len() ==> !(#[trigger] s.atmo.layers@[i]).enabled,
        forall|i: int| 0 <= i < s.props.items@.len() ==> !(#[trigger] s.props.items@[i]).enabled,
    ensures
        !shows_atmo(s),
        !shows_props(s),
        !shows_sprite(s),
        !s.sky.sun_enabled && !s.sky.moon_enabled ==> !sheds_light(s),
        !s.sky.sun_emits_light && !s.sky.moon_emits_light ==> !sheds_light(s),
{
}

/// An enabled prop is shown; it draws its sprite and sheds its light.
pub proof fn law_enabled_props_are_shown<N>(s: PathForgeSettings<N>, i: int)
    requires
        0 <= i < s.props.items@.len(),
        s.props.items@[i].enabled,
    ensures
        shows_props(s),
        s.props.items@[i].emits_light ==> sheds_light(s),
        strip(s.props.items@[i].sprite_path@, CharClass::White).len() > 0 ==> shows_sprite(s),
        s.props.items@[i].sprite_pool_enabled && strip(s.props.items@[i].sprite_pool_paths@, CharClass::White).len() > 0
            ==> shows_sprite(s),
{
    law_blank_is_empty_when_stripped(s.props.items@[i].sprite_path@);
    law_blank_is_empty_when_stripped(s.props.items@[i].sprite_pool_paths@);
    assert(strip(s.props.items@[i].sprite_path@, CharClass::White).len() > 0 ==> prop_has_sprite(s.props.items@[i]));
    assert(s.props.items@[i].sprite_pool_enabled && strip(s.props.items@[i].sprite_pool_paths@, CharClass::White).len()
        > 0 ==> prop_has_sprite(s.props.items@[i]));
}

/// Each light of a scene is enough to light it: the sun, the moon, and a layer or a prop that is
/// enabled.
pub proof fn law_each_light_counts<N>(s: PathForgeSettings<N>, i: int)
    ensures
        s.sky.sun_enabled && s.sky.sun_emits_light ==> sheds_light(s),
        s.sky.moon_enabled && s.sky.moon_emits_light ==> sheds_light(s),
        0 <= i < s.atmo.layers@.len() && s.atmo.layers@[i].enabled && s.atmo.layers@[i].emits_light ==> sheds_light(s),
{
    if 0 <= i < s.atmo.layers@.len() {
        assert(s.atmo.layers@[i] == s.atmo.layers@[i]);
    }
}

/// The sky is exported just when the number of its enabled parts is not zero.
pub proof fn law_each_part_shows_the_sky<N>(s: PathForgeSettings<N>)
    ensures
        s.sky.enabled ==> shows_sky(s),
        s.sky.sun_enabled ==> shows_sky(s),
        s.sky.moon_enabled ==> shows_sky(s),
        s.sky.stars_enabled ==> shows_sky(s),
        s.sky.clouds_enabled ==> shows_sky(s),
        !s.sky.enabled && !s.sky.sun_enabled && !s.sky.moon_enabled && !s.sky.stars_enabled && !s.sky.clouds_enabled
            ==> !shows_sky(s),
{
}

/// Smoothing leaves a layer alone that has more than one part, or whose part is not the sky or
/// the atmosphere; the sky by itself has one sample, the atmosphere by itself two at most.
pub proof fn law_only_calm_layers_save_samples(base: u32, layers: RenderLayers)
    requires
        base >= 1,
    ensures
        layers.floor || layers.walls || layers.props || (layers.sky == layers.atmo) ==> layer_smoothing(base, layers)
            == base,
        layer_smoothing(base, layers) < base ==> (layers.sky || layers.atmo) && !layers.floor && !layers.walls
            && !layers.props,
        layers.sky && !layers.atmo && !layers.floor && !layers.walls && !layers.props ==> layer_smoothing(base, layers)
            == 1,
        layers.atmo && !layers.sky && !layers.floor && !layers.walls && !layers.props ==> layer_smoothing(base, layers)
            == clamped(base as int, 1, 2),
        layer_smoothing(0, layers) == layer_smoothing(1, layers),
{
}

/// Everything is drawn only if no layer is left out, and with one left out not everything is.
pub proof fn law_everything_leaves_nothing_out(l: RenderLayers)
    ensures
        l.is_all() ==> l.sky && l.floor && l.walls && l.atmo && l.props && l.post,
        !(RenderLayers { sky: false, ..l }).is_all(),
        !(RenderLayers { floor: false, ..l }).is_all(),
        !(RenderLayers { walls: false, ..l }).is_all(),
        !(RenderLayers { atmo: false, ..l }).is_all(),
        !(RenderLayers { props: false, ..l }).is_all(),
        !(RenderLayers { post: false, ..l }).is_all(),
        (RenderLayers { sky: true, floor: true, walls: true, atmo: true, props: true, post: true }).is_all(),
{
}

/// A sprite is named by a path or by a pool that is enabled, and by nothing that is blank.
pub proof fn law_blank_paths_name_no_sprite(path: Seq<char>, pool: Seq<char>, other: Seq<char>)
    ensures
        !is_blank(path) ==> names_sprite(path, pool, true) && names_sprite(path, pool, false),
        is_blank(path) ==> !names_sprite(path, pool, false),
        is_blank(path) && !is_blank(pool) ==> names_sprite(path, pool, true),
        is_blank(path) && is_blank(pool) ==> !names_sprite(path, pool, true),
        names_sprite(path, pool, false) == names_sprite(path, other, false),
{
}

} // verus!
