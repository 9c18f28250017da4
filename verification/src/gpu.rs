//! What the GPU is handed and what comes back from it, as whole numbers: slots, flags and
//! codes of a scene, and rows of bytes with padding between them.
use vstd::prelude::*;
use vstd::string::StringExecFns;

use crate::cobble::is_floor_root;
use crate::defaults::Milli;
use crate::kinds::{AtmoType, AttachmentSurface, MountSide, PropType};
use crate::layers::prop_has_sprite;
use crate::raster::{lemma_pixel_fits, side_of_square, square_side};
use crate::settings::{AtmoLayer, PathForgeSettings, PropInstance};
use crate::text::{blank, decimal, digits};
use crate::tiles::clamped;

verus! {

/// The strengths of the effects that the GPU applies to a finished picture.
#[derive(Clone, Copy, Debug)]
pub struct GpuEffectSettings<N> {
    pub saturation: N,
    pub contrast: N,
    pub brightness: N,
    pub effect_mix: N,
}

impl Default for GpuEffectSettings<Milli> {
    /// Effects that change nothing.
    fn default() -> (r: Self)
        ensures
            r == (GpuEffectSettings {
                saturation: Milli(1000),
                contrast: Milli(1000),
                brightness: Milli(1000),
                effect_mix: Milli(0),
            }),
    {
        GpuEffectSettings {
            saturation: Milli(1000),
            contrast: Milli(1000),
            brightness: Milli(1000),
            effect_mix: Milli(0),
        }
    }
}

/// The alignment of rows in a buffer that a texture is copied to:
/// `wgpu::COPY_BYTES_PER_ROW_ALIGNMENT`, which is 256.
#[verifier::external_body]
pub(crate) fn row_alignment() -> (r: u32)
    ensures
        r == 256,
{
    wgpu::COPY_BYTES_PER_ROW_ALIGNMENT
}

/// The bytes of a row of `width` RGBA pixels, up to the next multiple of the alignment.
pub open spec fn aligned_row(width: u32) -> int {
    (width * 4 + 255) / 256 * 256
}

/// The bytes that a row of `width` RGBA pixels takes up in a buffer that a texture is
/// copied to.
pub fn aligned_bytes_per_row(width: u32) -> (r: u32)
    requires
        width * 4 + 256 <= u32::MAX,
    ensures
        r == aligned_row(width),
{
    let align: u32 = row_alignment();
    ((width * 4 + align - 1) / align) * align
}

/// An aligned row is the shortest that holds the pixels and ends at a multiple of the
/// alignment.
pub proof fn law_aligned_row_is_least(width: u32, other: int)
    requires
        other >= width * 4,
        other % 256 == 0,
    ensures
        aligned_row(width) >= width * 4,
        aligned_row(width) % 256 == 0,
        aligned_row(width) <= other,
        aligned_row(width) < width * 4 + 256,
{
}

/// The number of groups of eight that cover `n` pixels.
pub fn workgroups(n: u32) -> (r: u32)
    ensures
        r == (n + 7) / 8,
        r * 8 >= n,
        n > 0 ==> (r - 1) * 8 < n,
{
    if n % 8 == 0 {
        n / 8
    } else {
        n / 8 + 1
    }
}

/// Takes the rows of a picture out of a buffer in which each starts at a multiple of
/// `padded` bytes.
pub fn unpad_rows(mapped: &[u8], tight: usize, padded: usize, height: usize) -> (r: Vec<u8>)
    requires
        tight <= padded,
        padded * height <= mapped@.len(),
    ensures
        r@.len() == tight * height,
        forall|x: int, row: int|
            0 <= x < tight && 0 <= row < height ==> #[trigger] r@[row * tight + x] == mapped@[row * padded + x],
{
    let mut out: Vec<u8> = Vec::new();
    let mut row: usize = 0;
    let total: usize = mapped.len();
    while row < height
        invariant
            row <= height,
            tight <= padded,
            total == mapped@.len(),
            padded * height <= total,
            out@.len() == row * tight,
            forall|x: int, y: int|
                0 <= x < tight && 0 <= y < row ==> #[trigger] out@[y * tight + x] == mapped@[y * padded + x],
        decreases height - row,
    {
        let ghost before = out@;
        proof {
            assert(row * padded + padded <= padded * height) by (nonlinear_arith)
                requires
                    row + 1 <= height,
                    0 <= padded,
            ;
            assert(row * padded >= 0) by (nonlinear_arith)
                requires
                    row >= 0,
                    padded >= 0,
            ;
        }
        let start: usize = row * padded;
        let mut x: usize = 0;
        while x < tight
            invariant
                x <= tight <= padded,
                start == row * padded,
                start + padded <= mapped@.len(),
                total == mapped@.len(),
                before.len() == row * tight,
                out@.len() == row * tight + x,
                forall|p: int| 0 <= p < before.len() ==> #[trigger] out@[p] == before[p],
                forall|v: int| 0 <= v < x ==> #[trigger] out@[row * tight + v] == mapped@[row * padded + v],
            decreases tight - x,
        {
            out.push(mapped[start + x]);
            x = x + 1;
        }
        proof {
            assert((row + 1) * tight == row * tight + tight) by (nonlinear_arith);
            assert forall|v: int, y: int| 0 <= v < tight && 0 <= y < row + 1 implies #[trigger] out@[y * tight + v]
                == mapped@[y * padded + v] by {
                if y < row {
                    lemma_pixel_fits(tight as int, row as int, v, y);
                    assert(tight * row == row * tight) by (nonlinear_arith);
                    assert(out@[y * tight + v] == before[y * tight + v]);
                }
            }
        }
        row = row + 1;
    }
    proof {
        assert(height * tight == tight * height) by (nonlinear_arith);
    }
    out
}

/// Why a frame cannot be processed, if it cannot: it has no pixels, or its bytes are not
/// those of its size.
pub open spec fn frame_complaint(len: nat, width: nat, height: nat) -> Option<Seq<char>> {
    if width == 0 || height == 0 {
        Some("Invalid zero-size frame"@)
    } else if len != width * height * 4 {
        Some("Frame size mismatch: got "@ + digits(len) + ", expected "@ + digits(width * height * 4))
    } else {
        None
    }
}

/// Tests whether a scene has pixels to draw.
pub fn check_size(width: usize, height: usize) -> (r: Result<(), String>)
    ensures
        r is Ok <==> width > 0 && height > 0,
        r matches Err(text) ==> text@ == "Invalid size"@,
{
    if width == 0 || height == 0 {
        return Err("Invalid size".to_owned());
    }
    Ok(())
}

/// Tests whether a frame can be processed.
pub fn check_frame(len: usize, width: u32, height: u32) -> (r: Result<(), String>)
    requires
        width * height * 4 <= usize::MAX,
    ensures
        r is Ok <==> frame_complaint(len as nat, width as nat, height as nat) is None,
        r matches Err(text) ==> frame_complaint(len as nat, width as nat, height as nat) == Some(text@),
{
    if width == 0 || height == 0 {
        return Err("Invalid zero-size frame".to_owned());
    }
    assert(width * height * 4 <= 0xffff_ffff_ffff_ffff);
    let expected: u64 = (width as u64) * (height as u64) * 4;
    if len as u64 != expected {
        let mut text: String = "Frame size mismatch: got ".to_owned();
        text.append(decimal(len as u64).as_str());
        text.append(", expected ");
        text.append(decimal(expected).as_str());
        return Err(text);
    }
    Ok(())
}

/// The RGBA texture of an RGB tile: its side, and its texels, opaque. The tile holds a square of
/// the side that single precision finds for it, and 32 bits can count the bytes of the texture.
pub fn rgb_tile_to_rgba(tile: &[u8]) -> (r: (u32, Vec<u8>))
    requires
        3 <= tile@.len(),
        ({
            let side = square_side((tile@.len() / 3) as nat);
            side * side * 3 <= tile@.len() && side * side * 4 <= u32::MAX
        }),
    ensures
        r.0 == square_side((tile@.len() / 3) as nat),
        tile@.len() / 3 < 0x100_0000 ==> is_floor_root((tile@.len() / 3) as nat, r.0 as nat),
        r.1@.len() == r.0 * r.0 * 4,
        forall|j: int|
            0 <= j < r.1@.len() ==> #[trigger] r.1@[j] == (if j % 4 == 3 { 255u8 } else { tile@[j / 4 * 3 + j % 4] }),
{
    let texels: usize = tile.len() / 3;
    let side: usize = side_of_square(texels);
    assert(side <= side * side) by (nonlinear_arith)
        requires
            side >= 1,
    ;
    let count: usize = side * side;
    let mut rgba: Vec<u8> = Vec::new();
    let mut i: usize = 0;
    while i < count
        invariant
            i <= count,
            count * 3 <= tile@.len(),
            count * 4 <= u32::MAX,
            rgba@.len() == 4 * i,
            forall|j: int|
                0 <= j < rgba@.len() ==> #[trigger] rgba@[j] == (if j % 4 == 3 { 255u8 } else { tile@[j / 4 * 3 + j
                    % 4] }),
        decreases count - i,
    {
        rgba.push(tile[i * 3]);
        rgba.push(tile[i * 3 + 1]);
        rgba.push(tile[i * 3 + 2]);
        rgba.push(255);
        i = i + 1;
    }
    (side as u32, rgba)
}

/// The number that stands for a prop in the shader.
pub fn prop_type_code(t: &PropType) -> (r: u32)
    ensures
        r == t.index(),
{
    match t {
        PropType::Tree => 0,
        PropType::PineTree => 1,
        PropType::Bush => 2,
        PropType::Rock => 3,
        PropType::Boulder => 4,
        PropType::Cactus => 5,
        PropType::DeadTree => 6,
        PropType::Mushroom => 7,
    }
}

/// The number that stands for a light in the shader.
pub fn atmo_type_code(t: &AtmoType) -> (r: u32)
    ensures
        r == t.index(),
{
    match t {
        AtmoType::Unlit => 0,
        AtmoType::Torch => 1,
        AtmoType::Lantern => 2,
        AtmoType::Firefly => 3,
        AtmoType::Magic => 4,
        AtmoType::GreenFire => 5,
        AtmoType::Candle => 6,
        AtmoType::IceWisp => 7,
    }
}

/// The shape of a prop's shadow: eight measures, for a broad tree, a pine, a bush, a rock or
/// boulder, a cactus, a dead tree, and a mushroom.
pub open spec fn shadow_profile(t: PropType) -> ([Milli; 4], [Milli; 4]) {
    match t {
        PropType::Tree => (
            [Milli(6400), Milli(2200), Milli(2400), Milli(340)],
            [Milli(1580), Milli(200), Milli(820), Milli(0)],
        ),
        PropType::PineTree => (
            [Milli(4800), Milli(2100), Milli(2200), Milli(300)],
            [Milli(1450), Milli(180), Milli(800), Milli(0)],
        ),
        PropType::Bush => (
            [Milli(3900), Milli(2000), Milli(2000), Milli(300)],
            [Milli(1400), Milli(160), Milli(780), Milli(0)],
        ),
        PropType::Rock | PropType::Boulder => (
            [Milli(2400), Milli(1900), Milli(1800), Milli(260)],
            [Milli(1200), Milli(120), Milli(740), Milli(0)],
        ),
        PropType::Cactus => (
            [Milli(5000), Milli(1700), Milli(2100), Milli(280)],
            [Milli(1360), Milli(140), Milli(800), Milli(0)],
        ),
        PropType::DeadTree => (
            [Milli(8400), Milli(1900), Milli(2700), Milli(320)],
            [Milli(1700), Milli(220), Milli(880), Milli(0)],
        ),
        PropType::Mushroom => (
            [Milli(3100), Milli(1800), Milli(1900), Milli(260)],
            [Milli(1180), Milli(120), Milli(700), Milli(0)],
        ),
    }
}

/// The shape of a prop's shadow.
pub fn prop_shadow_profile_defaults(t: PropType) -> (r: ([Milli; 4], [Milli; 4]))
    ensures
        r == shadow_profile(t),
{
    match t {
        PropType::Tree => (
            [Milli(6400), Milli(2200), Milli(2400), Milli(340)],
            [Milli(1580), Milli(200), Milli(820), Milli(0)],
        ),
        PropType::PineTree => (
            [Milli(4800), Milli(2100), Milli(2200), Milli(300)],
            [Milli(1450), Milli(180), Milli(800), Milli(0)],
        ),
        PropType::Bush => (
            [Milli(3900), Milli(2000), Milli(2000), Milli(300)],
            [Milli(1400), Milli(160), Milli(780), Milli(0)],
        ),
        PropType::Rock | PropType::Boulder => (
            [Milli(2400), Milli(1900), Milli(1800), Milli(260)],
            [Milli(1200), Milli(120), Milli(740), Milli(0)],
        ),
        PropType::Cactus => (
            [Milli(5000), Milli(1700), Milli(2100), Milli(280)],
            [Milli(1360), Milli(140), Milli(800), Milli(0)],
        ),
        PropType::DeadTree => (
            [Milli(8400), Milli(1900), Milli(2700), Milli(320)],
            [Milli(1700), Milli(220), Milli(880), Milli(0)],
        ),
        PropType::Mushroom => (
            [Milli(3100), Milli(1800), Milli(1900), Milli(260)],
            [Milli(1180), Milli(120), Milli(700), Milli(0)],
        ),
    }
}

/// The switches of a prop as one number.
pub open spec fn packed_switches<N>(p: PropInstance<N>) -> int {
    bit(p.x_jitter_enabled) + 2 * bit(p.y_jitter_enabled) + 4 * bit(p.emits_light) + 8 * bit(p.casts_shadow)
}

/// The switches of a prop as a sum of powers of two: jitter across, jitter along, light and
/// shadow.
pub fn prop_flags<N>(p: &PropInstance<N>) -> (r: u32)
    ensures
        r == packed_switches(*p),
        r == (if p.x_jitter_enabled { 1int } else { 0 }) + (if p.y_jitter_enabled { 2int } else { 0 }) + (
        if p.emits_light { 4int } else { 0 }) + (if p.casts_shadow { 8int } else { 0 }),
{
    let across: u32 = if p.x_jitter_enabled {
        1
    } else {
        0
    };
    let along: u32 = if p.y_jitter_enabled {
        2
    } else {
        0
    };
    let light: u32 = if p.emits_light {
        4
    } else {
        0
    };
    let shadow: u32 = if p.casts_shadow {
        8
    } else {
        0
    };
    across + along + light + shadow
}

/// The mount of a light as one number: the surface, ten times the side, and 100 and 200 for
/// light and shadow.
pub open spec fn packed_mount(surface: AttachmentSurface, side: MountSide, light: bool, shadow: bool) -> int {
    surface.index() + side.index() * 10 + (if light { 100int } else { 0 }) + (if shadow { 200int } else { 0 })
}

/// The mount of a light as one number.
pub fn mount_pack<N>(l: &AtmoLayer<N>) -> (r: u32)
    ensures
        r == packed_mount(l.mount_surface, l.mount_side, l.emits_light, l.casts_shadow),
{
    let surface: u32 = match l.mount_surface {
        AttachmentSurface::Floating => 0,
        AttachmentSurface::Wall => 1,
        AttachmentSurface::Floor => 2,
        AttachmentSurface::Ceiling => 3,
    };
    let side: u32 = match l.mount_side {
        MountSide::Both => 0,
        MountSide::Left => 1,
        MountSide::Right => 2,
        MountSide::Center => 3,
    };
    let light: u32 = if l.emits_light {
        100
    } else {
        0
    };
    let shadow: u32 = if l.casts_shadow {
        200
    } else {
        0
    };
    surface + side * 10 + light + shadow
}

/// Different mounts are packed into different numbers.
pub proof fn law_mounts_are_told_apart(
    s1: AttachmentSurface,
    d1: MountSide,
    l1: bool,
    c1: bool,
    s2: AttachmentSurface,
    d2: MountSide,
    l2: bool,
    c2: bool,
)
    requires
        packed_mount(s1, d1, l1, c1) == packed_mount(s2, d2, l2, c2),
    ensures
        s1 == s2 && d1 == d2 && l1 == l2 && c1 == c2,
{
}

/// The most props that the GPU draws.
pub const PROP_SLOTS: usize = 8;

/// The most lights that the GPU draws.
pub const ATMO_SLOTS: usize = 4;

/// The places of the enabled props among the first `n`.
pub open spec fn enabled_props<N>(items: Seq<PropInstance<N>>, n: nat) -> Seq<int>
    decreases n,
{
    if n == 0 {
        Seq::empty()
    } else {
        let before = enabled_props(items, (n - 1) as nat);
        if items[n - 1].enabled {
            before.push(n - 1)
        } else {
            before
        }
    }
}

/// The places of the lit layers among the first `n`.
pub open spec fn lit_layers<N>(layers: Seq<AtmoLayer<N>>, n: nat) -> Seq<int>
    decreases n,
{
    if n == 0 {
        Seq::empty()
    } else {
        let before = lit_layers(layers, (n - 1) as nat);
        if layers[n - 1].enabled && layers[n - 1].atmo_type != AtmoType::Unlit {
            before.push(n - 1)
        } else {
            before
        }
    }
}

/// The first `n` of some numbers, or all if there are fewer.
pub open spec fn first_of(s: Seq<int>, n: int) -> Seq<int> {
    if s.len() <= n {
        s
    } else {
        s.take(n)
    }
}

/// What a slot shows: the place of a prop, or nothing where its sprite is drawn later.
#[derive(Clone, Copy, Debug, PartialEq, Eq, Structural)]
pub struct PropSlot {
    pub item: usize,
    pub drawn: bool,
}

/// Whether a slot holds a place in a list.
pub open spec fn is_place(slot: usize, at: int, len: nat) -> bool {
    0 <= at < len && slot == at
}

/// Whether a slot shows the prop at a place.
pub open spec fn slot_shows<N>(items: Seq<PropInstance<N>>, slot: PropSlot, at: int) -> bool {
    &&& 0 <= at < items.len()
    &&& slot.item == at
    &&& slot.drawn == !prop_has_sprite(items[at])
}

proof fn lemma_enabled_prefix<N>(items: Seq<PropInstance<N>>, n: nat, m: nat)
    requires
        n <= m,
    ensures
        enabled_props(items, n).len() <= enabled_props(items, m).len(),
        forall|i: int|
            0 <= i < enabled_props(items, n).len() ==> #[trigger] enabled_props(items, n)[i] == enabled_props(
                items,
                m,
            )[i],
    decreases m,
{
    if n < m {
        lemma_enabled_prefix(items, n, (m - 1) as nat);
        let before = enabled_props(items, (m - 1) as nat);
        assert forall|i: int| 0 <= i < enabled_props(items, n).len() implies #[trigger] enabled_props(items, n)[i]
            == enabled_props(items, m)[i] by {
            assert(enabled_props(items, n)[i] == before[i]);
        }
    }
}

proof fn lemma_lit_prefix<N>(layers: Seq<AtmoLayer<N>>, n: nat, m: nat)
    requires
        n <= m,
    ensures
        lit_layers(layers, n).len() <= lit_layers(layers, m).len(),
        forall|i: int|
            0 <= i < lit_layers(layers, n).len() ==> #[trigger] lit_layers(layers, n)[i] == lit_layers(layers, m)[i],
    decreases m,
{
    if n < m {
        lemma_lit_prefix(layers, n, (m - 1) as nat);
        let before = lit_layers(layers, (m - 1) as nat);
        assert forall|i: int| 0 <= i < lit_layers(layers, n).len() implies #[trigger] lit_layers(layers, n)[i]
            == lit_layers(layers, m)[i] by {
            assert(lit_layers(layers, n)[i] == before[i]);
        }
    }
}

/// The slots of the props: the first eight that are enabled, in order. One with a sprite
/// keeps its slot but is not drawn.
pub fn prop_slots<N>(settings: &PathForgeSettings<N>) -> (r: Vec<PropSlot>)
    ensures
        ({
            let items = settings.props.items@;
            let chosen = first_of(enabled_props(items, items.len()), PROP_SLOTS as int);
            &&& r@.len() == chosen.len()
            &&& forall|i: int| 0 <= i < r@.len() ==> slot_shows(items, #[trigger] r@[i], chosen[i])
        }),
{
    let ghost items = settings.props.items@;
    let mut out: Vec<PropSlot> = Vec::new();
    let mut k: usize = 0;
    while k < settings.props.items.len() && out.len() < PROP_SLOTS
        invariant
            k <= items.len(),
            items == settings.props.items@,
            out@.len() <= PROP_SLOTS,
            out@.len() == enabled_props(items, k as nat).len(),
            forall|i: int|
                0 <= i < out@.len() ==> slot_shows(items, #[trigger] out@[i], enabled_props(items, k as nat)[i]),
        decreases settings.props.items.len() - k,
    {
        let ghost before = enabled_props(items, k as nat);
        let ghost shown = out@;
        let p: &PropInstance<N> = &settings.props.items[k];
        if p.enabled {
            let sprite: bool = !blank(p.sprite_path.as_str()) || (p.sprite_pool_enabled && !blank(
                p.sprite_pool_paths.as_str(),
            ));
            out.push(PropSlot { item: k, drawn: !sprite });
        }
        proof {
            let after = enabled_props(items, (k + 1) as nat);
            assert forall|i: int| 0 <= i < out@.len() implies slot_shows(items, #[trigger] out@[i], after[i]) by {
                if i < before.len() {
                    assert(slot_shows(items, shown[i], before[i]));
                    assert(out@[i] == shown[i]);
                    assert(after[i] == before[i]);
                }
            }
        }
        k = k + 1;
    }
    proof {
        lemma_enabled_prefix(items, k as nat, items.len());
        let all = enabled_props(items, items.len());
        let some = enabled_props(items, k as nat);
        let chosen = first_of(all, PROP_SLOTS as int);
        if k == items.len() {
            assert(all == some);
        }
        assert(chosen.len() == some.len());
        assert forall|i: int| 0 <= i < out@.len() implies slot_shows(items, #[trigger] out@[i], chosen[i]) by {
            assert(some[i] == all[i]);
            assert(chosen[i] == all[i]);
        }
    }
    out
}

/// Whether any of the props in slots sheds light.
pub fn slots_shed_light<N>(settings: &PathForgeSettings<N>, slots: &Vec<PropSlot>) -> (r: bool)
    requires
        forall|i: int| 0 <= i < slots@.len() ==> (#[trigger] slots@[i]).item < settings.props.items@.len(),
    ensures
        r == exists|i: int|
            0 <= i < slots@.len() && settings.props.items@[(#[trigger] slots@[i]).item as int].emits_light,
{
    let mut i: usize = 0;
    while i < slots.len()
        invariant
            i <= slots@.len(),
            forall|j: int| 0 <= j < slots@.len() ==> (#[trigger] slots@[j]).item < settings.props.items@.len(),
            forall|j: int|
                0 <= j < i ==> !settings.props.items@[(#[trigger] slots@[j]).item as int].emits_light,
        decreases slots.len() - i,
    {
        if settings.props.items[slots[i].item].emits_light {
            return true;
        }
        i = i + 1;
    }
    false
}

/// The slots of the lights: the first four layers that are enabled and lit, in order.
pub fn atmo_slots<N>(settings: &PathForgeSettings<N>) -> (r: Vec<usize>)
    ensures
        ({
            let layers = settings.atmo.layers@;
            let chosen = first_of(lit_layers(layers, layers.len()), ATMO_SLOTS as int);
            &&& r@.len() == chosen.len()
            &&& forall|i: int| 0 <= i < r@.len() ==> is_place(#[trigger] r@[i], chosen[i], layers.len())
        }),
{
    let ghost layers = settings.atmo.layers@;
    let mut out: Vec<usize> = Vec::new();
    let mut k: usize = 0;
    while k < settings.atmo.layers.len() && out.len() < ATMO_SLOTS
        invariant
            k <= layers.len(),
            layers == settings.atmo.layers@,
            out@.len() <= ATMO_SLOTS,
            out@.len() == lit_layers(layers, k as nat).len(),
            forall|i: int|
                0 <= i < out@.len() ==> is_place(#[trigger] out@[i], lit_layers(layers, k as nat)[i], layers.len()),
        decreases settings.atmo.layers.len() - k,
    {
        let ghost before = lit_layers(layers, k as nat);
        let ghost shown = out@;
        if settings.atmo.layers[k].enabled && settings.atmo.layers[k].atmo_type != AtmoType::Unlit {
            out.push(k);
        }
        proof {
            let after = lit_layers(layers, (k + 1) as nat);
            assert forall|i: int| 0 <= i < out@.len() implies is_place(#[trigger] out@[i], after[i], layers.len()) by {
                if i < before.len() {
                    assert(is_place(shown[i], before[i], layers.len()));
                    assert(out@[i] == shown[i]);
                    assert(after[i] == before[i]);
                }
            }
        }
        k = k + 1;
    }
    proof {
        lemma_lit_prefix(layers, k as nat, layers.len());
        let all = lit_layers(layers, layers.len());
        let some = lit_layers(layers, k as nat);
        let chosen = first_of(all, ATMO_SLOTS as int);
        if k == layers.len() {
            assert(all == some);
        }
        assert(chosen.len() == some.len());
        assert forall|i: int| 0 <= i < out@.len() implies is_place(#[trigger] out@[i], chosen[i], layers.len()) by {
            assert(is_place(out@[i], some[i], layers.len()));
            assert(some[i] == all[i]);
            assert(chosen[i] == all[i]);
        }
    }
    out
}

/// A switch as a number.
pub open spec fn bit(b: bool) -> u32 {
    if b {
        1
    } else {
        0
    }
}

fn bit_of(b: bool) -> (r: u32)
    ensures
        r == bit(b),
{
    if b {
        1
    } else {
        0
    }
}

/// The whole numbers that the shader is handed.
#[derive(Clone, Copy, Debug)]
pub struct SceneFlags {
    pub dim: [u32; 4],
    pub sky_flags: [u32; 4],
    pub sky_counts: [u32; 4],
    pub tex_flags: [u32; 4],
    pub feature_counts: [u32; 4],
    pub post_flags: [u32; 4],
}

/// Packs the switches and counts of a scene. Stars and clouds are limited in number.
pub fn scene_flags<N>(settings: &PathForgeSettings<N>, props: u32, lights: u32) -> (r: SceneFlags)
    ensures
        r.dim == [
            settings.canvas.width() as u32,
            settings.canvas.height() as u32,
            bit(settings.sky.enabled),
            bit(settings.walls.enabled),
        ],
        r.sky_flags == [
            bit(settings.sky.stars_enabled),
            bit(settings.sky.clouds_enabled),
            bit(settings.sky.moon_texture_enabled),
            bit(settings.anim.seamless_lock),
        ],
        r.sky_counts == [
            clamped(settings.sky.stars_count as int, 0, 8000) as u32,
            clamped(settings.sky.cloud_count as int, 0, 220) as u32,
            settings.sky.stars_seed,
            settings.sky.cloud_seed,
        ],
        r.tex_flags == [bit(settings.floor.tex_rot_90), bit(settings.walls.tex_rot_90), 0u32, 0u32],
        r.feature_counts == [props, lights, 0u32, 0u32],
        r.post_flags == [
            bit(settings.post.fog_enabled),
            bit(settings.post.vignette_enabled),
            bit(settings.post.bloom_enabled),
            bit(settings.post.grain_enabled),
        ],
{
    let stars: u32 = if settings.sky.stars_count > 8000 {
        8000
    } else {
        settings.sky.stars_count
    };
    let clouds: u32 = if settings.sky.cloud_count > 220 {
        220
    } else {
        settings.sky.cloud_count
    };
    SceneFlags {
        dim: [
            settings.canvas.w() as u32,
            settings.canvas.h() as u32,
            bit_of(settings.sky.enabled),
            bit_of(settings.walls.enabled),
        ],
        sky_flags: [
            bit_of(settings.sky.stars_enabled),
            bit_of(settings.sky.clouds_enabled),
            bit_of(settings.sky.moon_texture_enabled),
            bit_of(settings.anim.seamless_lock),
        ],
        sky_counts: [stars, clouds, settings.sky.stars_seed, settings.sky.cloud_seed],
        tex_flags: [bit_of(settings.floor.tex_rot_90), bit_of(settings.walls.tex_rot_90), 0, 0],
        feature_counts: [props, lights, 0, 0],
        post_flags: [
            bit_of(settings.post.fog_enabled),
            bit_of(settings.post.vignette_enabled),
            bit_of(settings.post.bloom_enabled),
            bit_of(settings.post.grain_enabled),
        ],
    }
}

/// The places of the enabled props are in order, and hold every enabled prop and no other.
pub proof fn law_enabled_props_are_listed<N>(items: Seq<PropInstance<N>>, n: nat, at: int)
    requires
        n <= items.len(),
    ensures
        enabled_props(items, n).contains(at) <==> 0 <= at < n && items[at].enabled,
        forall|i: int, j: int|
            0 <= i < j < enabled_props(items, n).len() ==> #[trigger] enabled_props(items, n)[i]
                < #[trigger] enabled_props(items, n)[j],
        forall|i: int| 0 <= i < enabled_props(items, n).len() ==> 0 <= #[trigger] enabled_props(items, n)[i] < n,
    decreases n,
{
    let now = enabled_props(items, n);
    if n > 0 {
        let before = enabled_props(items, (n - 1) as nat);
        law_enabled_props_are_listed(items, (n - 1) as nat, at);
        if items[n - 1].enabled {
            assert(now[before.len() as int] == n - 1);
            if before.contains(at) {
                let i = choose|i: int| 0 <= i < before.len() && before[i] == at;
                assert(now[i] == at);
            }
        }
    }
}

/// The places of the lit layers are in order, and hold every enabled layer that is lit and no
/// other.
pub proof fn law_lit_layers_are_listed<N>(layers: Seq<AtmoLayer<N>>, n: nat, at: int)
    requires
        n <= layers.len(),
    ensures
        lit_layers(layers, n).contains(at) <==> 0 <= at < n && layers[at].enabled && layers[at].atmo_type
            != AtmoType::Unlit,
        forall|i: int, j: int|
            0 <= i < j < lit_layers(layers, n).len() ==> #[trigger] lit_layers(layers, n)[i] < #[trigger] lit_layers(
                layers,
                n,
            )[j],
        forall|i: int| 0 <= i < lit_layers(layers, n).len() ==> 0 <= #[trigger] lit_layers(layers, n)[i] < n,
    decreases n,
{
    let now = lit_layers(layers, n);
    if n > 0 {
        let before = lit_layers(layers, (n - 1) as nat);
        law_lit_layers_are_listed(layers, (n - 1) as nat, at);
        if layers[n - 1].enabled && layers[n - 1].atmo_type != AtmoType::Unlit {
            assert(now[before.len() as int] == n - 1);
            if before.contains(at) {
                let i = choose|i: int| 0 <= i < before.len() && before[i] == at;
                assert(now[i] == at);
            }
        }
    }
}

/// The first of some numbers are these, in their order, and as many as there are up to the limit.
pub proof fn law_first_are_a_beginning(s: Seq<int>, n: int, i: int)
    requires
        n >= 0,
        0 <= i < s.len(),
        i < n,
    ensures
        first_of(s, n).len() <= s.len(),
        first_of(s, n).len() <= n,
        first_of(s, n).len() == s.len() || first_of(s, n).len() == n,
        i < first_of(s, n).len(),
        first_of(s, n)[i] == s[i],
{
}

/// A slot shows one prop at most, and draws it unless a sprite stands for it.
pub proof fn law_slot_shows_one_prop<N>(items: Seq<PropInstance<N>>, slot: PropSlot, a: int, b: int)
    requires
        slot_shows(items, slot, a),
        slot_shows(items, slot, b),
    ensures
        a == b,
        slot.drawn <==> !prop_has_sprite(items[a]),
        is_place(slot.item, a, items.len()),
{
}

/// A frame is complained about unless it has pixels and four bytes for each; the complaint about
/// the bytes gives those that came first and those that were expected last.
pub proof fn law_frames_need_their_bytes(len: nat, width: nat, height: nat)
    ensures
        frame_complaint(len, width, height) is None <==> width > 0 && height > 0 && len == 4 * (width * height),
        width > 0 && height > 0 ==> (frame_complaint(len, width, height) matches Some(text) ==> ({
            let start = "Frame size mismatch: got "@ + digits(len);
            let end = digits(width * height * 4);
            &&& text.take(start.len() as int) == start
            &&& text.subrange(text.len() - end.len(), text.len() as int) == end
        })),
{
    assert(width * height * 4 == 4 * (width * height)) by (nonlinear_arith);
    if width > 0 && height > 0 {
        if let Some(text) = frame_complaint(len, width, height) {
            let start = "Frame size mismatch: got "@ + digits(len);
            let end = digits(width * height * 4);
            assert(text.take(start.len() as int) =~= start);
            assert(text.subrange(text.len() - end.len(), text.len() as int) =~= end);
        }
    }
}

/// A switch that is on counts more than one that is off, and by one.
pub proof fn law_switches_are_told_apart(a: bool, b: bool)
    ensures
        bit(a) == bit(b) <==> a == b,
        bit(a) + bit(!a) == 1,
        bit(a) <= bit(b) <==> (a ==> b),
{
}

/// Boulders shade as rocks do, which shade least; a dead tree casts the longest shadow, and a
/// broad tree the widest.
pub proof fn law_shadows_rank(t: PropType)
    ensures
        shadow_profile(PropType::Boulder) == shadow_profile(PropType::Rock),
        shadow_profile(PropType::Rock).0[0].0 <= shadow_profile(t).0[0].0 <= shadow_profile(PropType::DeadTree).0[0].0,
        shadow_profile(t).0[3].0 <= shadow_profile(PropType::Tree).0[3].0,
        shadow_profile(t).0[1].0 <= shadow_profile(PropType::Tree).0[1].0,
        shadow_profile(t).1[0].0 <= shadow_profile(PropType::DeadTree).1[0].0,
        shadow_profile(t).1[3].0 == 0,
{
}

/// A packed mount reads digit by digit: the surface in the last, the side before it, and before both
/// one for light and two for shadow.
pub proof fn law_mounts_read_by_digit(surface: AttachmentSurface, side: MountSide, light: bool, shadow: bool)
    ensures
        packed_mount(surface, side, light, shadow) % 10 == surface.index(),
        packed_mount(surface, side, light, shadow) / 10 % 10 == side.index(),
        packed_mount(surface, side, light, shadow) / 100 == bit(light) + 2 * bit(shadow),
{
}

/// The measures of the props' shadows, one after the other and from kind to kind.
pub proof fn law_shadow_measures(t: PropType)
    ensures
        shadow_profile(t).0[0].0 == (match t {
            PropType::Tree => 6400int,
            PropType::PineTree => 4800int,
            PropType::Bush => 3900int,
            PropType::Rock | PropType::Boulder => 2400int,
            PropType::Cactus => 5000int,
            PropType::DeadTree => 8400int,
            PropType::Mushroom => 3100int,
        }),
        shadow_profile(t).0[1].0 == (match t {
            PropType::Tree => 2200int,
            PropType::PineTree => 2100int,
            PropType::Bush => 2000int,
            PropType::Rock | PropType::Boulder | PropType::DeadTree => 1900int,
            PropType::Cactus => 1700int,
            PropType::Mushroom => 1800int,
        }),
        shadow_profile(t).0[2].0 == (match t {
            PropType::Tree => 2400int,
            PropType::PineTree => 2200int,
            PropType::Bush => 2000int,
            PropType::Rock | PropType::Boulder => 1800int,
            PropType::Cactus => 2100int,
            PropType::DeadTree => 2700int,
            PropType::Mushroom => 1900int,
        }),
        shadow_profile(t).0[3].0 == (match t {
            PropType::Tree => 340int,
            PropType::PineTree | PropType::Bush => 300int,
            PropType::Rock | PropType::Boulder | PropType::Mushroom => 260int,
            PropType::Cactus => 280int,
            PropType::DeadTree => 320int,
        }),
        shadow_profile(t).1[0].0 == (match t {
            PropType::Tree => 1580int,
            PropType::PineTree => 1450int,
            PropType::Bush => 1400int,
            PropType::Rock | PropType::Boulder => 1200int,
            PropType::Cactus => 1360int,
            PropType::DeadTree => 1700int,
            PropType::Mushroom => 1180int,
        }),
        shadow_profile(t).1[1].0 == (match t {
            PropType::Tree => 200int,
            PropType::PineTree => 180int,
            PropType::Bush => 160int,
            PropType::Rock | PropType::Boulder | PropType::Mushroom => 120int,
            PropType::Cactus => 140int,
            PropType::DeadTree => 220int,
        }),
        shadow_profile(t).1[2].0 == (match t {
            PropType::Tree => 820int,
            PropType::PineTree | PropType::Cactus => 800int,
            PropType::Bush => 780int,
            PropType::Rock | PropType::Boulder => 740int,
            PropType::DeadTree => 880int,
            PropType::Mushroom => 700int,
        }),
{
}

/// The switches of a prop can be read off one by one.
pub proof fn law_switches_are_read_off<N>(p: PropInstance<N>)
    ensures
        packed_switches(p) % 2 == 1 <==> p.x_jitter_enabled,
        packed_switches(p) / 2 % 2 == 1 <==> p.y_jitter_enabled,
        packed_switches(p) / 4 % 2 == 1 <==> p.emits_light,
        packed_switches(p) / 8 == 1 <==> p.casts_shadow,
        0 <= packed_switches(p) < 16,
{
}

} // verus!
