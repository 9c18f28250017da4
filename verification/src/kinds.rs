//! The materials, light sources, props and moods that a scene is put together from.
use vstd::prelude::*;

verus! {

/// The floor materials.
#[derive(Clone, Copy, Debug, PartialEq, Eq, Structural)]
pub enum FloorPattern {
    Cobblestone,
    Brick,
    StoneBlock,
    Sand,
    Dirt,
    Grass,
}

impl FloorPattern {
    /// The place in the list of all.
    pub open spec fn index(self) -> int {
        match self {
            Self::Cobblestone => 0,
            Self::Brick => 1,
            Self::StoneBlock => 2,
            Self::Sand => 3,
            Self::Dirt => 4,
            Self::Grass => 5,
        }
    }

    /// The display name.
    pub open spec fn title(self) -> Seq<char> {
        match self {
            Self::Cobblestone => "Cobblestone"@,
            Self::Brick => "Brick"@,
            Self::StoneBlock => "Stone Block"@,
            Self::Sand => "Sand"@,
            Self::Dirt => "Dirt"@,
            Self::Grass => "Grass"@,
        }
    }

    /// All of them, in display order.
    pub open spec fn listed() -> Seq<Self> {
        seq![
            Self::Cobblestone,
            Self::Brick,
            Self::StoneBlock,
            Self::Sand,
            Self::Dirt,
            Self::Grass,
        ]
    }

    /// All of them, in display order.
    pub fn all() -> (r: &'static [FloorPattern])
        ensures
            r@ == Self::listed(),
    {
        &[
            Self::Cobblestone,
            Self::Brick,
            Self::StoneBlock,
            Self::Sand,
            Self::Dirt,
            Self::Grass,
        ]
    }

    /// The display name.
    pub fn name(&self) -> (r: &'static str)
        ensures
            r@ == self.title(),
    {
        match self {
            Self::Cobblestone => "Cobblestone",
            Self::Brick => "Brick",
            Self::StoneBlock => "Stone Block",
            Self::Sand => "Sand",
            Self::Dirt => "Dirt",
            Self::Grass => "Grass",
        }
    }

    /// The offset that tells the seeds of the materials apart.
    pub fn gen_seed_offset(&self) -> (r: u32)
        ensures
            r == self.index(),
    {
        match self {
            Self::Cobblestone => 0,
            Self::Brick => 1,
            Self::StoneBlock => 2,
            Self::Sand => 3,
            Self::Dirt => 4,
            Self::Grass => 5,
        }
    }
}

/// Every floor material is listed once, at its index.
pub proof fn law_floor_pattern_listed_once(v: FloorPattern, i: int)
    requires
        0 <= i < FloorPattern::listed().len(),
    ensures
        0 <= v.index() < FloorPattern::listed().len(),
        FloorPattern::listed()[v.index()] == v,
        FloorPattern::listed()[i].index() == i,
{
}

/// The wall materials.
#[derive(Clone, Copy, Debug, PartialEq, Eq, Structural)]
pub enum WallPattern {
    StoneBlock,
    Brick,
    Bark,
    RockFace,
    Hedge,
    Cobblestone,
}

impl WallPattern {
    /// The place in the list of all.
    pub open spec fn index(self) -> int {
        match self {
            Self::StoneBlock => 0,
            Self::Brick => 1,
            Self::Bark => 2,
            Self::RockFace => 3,
            Self::Hedge => 4,
            Self::Cobblestone => 5,
        }
    }

    /// The display name.
    pub open spec fn title(self) -> Seq<char> {
        match self {
            Self::StoneBlock => "Stone Block"@,
            Self::Brick => "Brick"@,
            Self::Bark => "Bark"@,
            Self::RockFace => "Rock Face"@,
            Self::Hedge => "Hedge"@,
            Self::Cobblestone => "Cobblestone"@,
        }
    }

    /// All of them, in display order.
    pub open spec fn listed() -> Seq<Self> {
        seq![
            Self::StoneBlock,
            Self::Brick,
            Self::Bark,
            Self::RockFace,
            Self::Hedge,
            Self::Cobblestone,
        ]
    }

    /// All of them, in display order.
    pub fn all() -> (r: &'static [WallPattern])
        ensures
            r@ == Self::listed(),
    {
        &[
            Self::StoneBlock,
            Self::Brick,
            Self::Bark,
            Self::RockFace,
            Self::Hedge,
            Self::Cobblestone,
        ]
    }

    /// The display name.
    pub fn name(&self) -> (r: &'static str)
        ensures
            r@ == self.title(),
    {
        match self {
            Self::StoneBlock => "Stone Block",
            Self::Brick => "Brick",
            Self::Bark => "Bark",
            Self::RockFace => "Rock Face",
            Self::Hedge => "Hedge",
            Self::Cobblestone => "Cobblestone",
        }
    }

    /// The offset that tells the seeds of the materials apart.
    pub fn gen_seed_offset(&self) -> (r: u32)
        ensures
            r == self.index(),
    {
        match self {
            Self::StoneBlock => 0,
            Self::Brick => 1,
            Self::Bark => 2,
            Self::RockFace => 3,
            Self::Hedge => 4,
            Self::Cobblestone => 5,
        }
    }
}

/// Every wall material is listed once, at its index.
pub proof fn law_wall_pattern_listed_once(v: WallPattern, i: int)
    requires
        0 <= i < WallPattern::listed().len(),
    ensures
        0 <= v.index() < WallPattern::listed().len(),
        WallPattern::listed()[v.index()] == v,
        WallPattern::listed()[i].index() == i,
{
}

/// The light sources along the path.
#[derive(Clone, Copy, Debug, PartialEq, Eq, Structural)]
pub enum AtmoType {
    Unlit,
    Torch,
    Lantern,
    Firefly,
    Magic,
    GreenFire,
    Candle,
    IceWisp,
}

impl AtmoType {
    /// The place in the list of all.
    pub open spec fn index(self) -> int {
        match self {
            Self::Unlit => 0,
            Self::Torch => 1,
            Self::Lantern => 2,
            Self::Firefly => 3,
            Self::Magic => 4,
            Self::GreenFire => 5,
            Self::Candle => 6,
            Self::IceWisp => 7,
        }
    }

    /// The display name.
    pub open spec fn title(self) -> Seq<char> {
        match self {
            Self::Unlit => "None"@,
            Self::Torch => "Torch"@,
            Self::Lantern => "Lantern"@,
            Self::Firefly => "Firefly"@,
            Self::Magic => "Magic"@,
            Self::GreenFire => "Green Fire"@,
            Self::Candle => "Candle"@,
            Self::IceWisp => "Ice Wisp"@,
        }
    }

    /// All of them, in display order.
    pub open spec fn listed() -> Seq<Self> {
        seq![
            Self::Unlit,
            Self::Torch,
            Self::Lantern,
            Self::Firefly,
            Self::Magic,
            Self::GreenFire,
            Self::Candle,
            Self::IceWisp,
        ]
    }

    /// All of them, in display order.
    pub fn all() -> (r: &'static [AtmoType])
        ensures
            r@ == Self::listed(),
    {
        &[
            Self::Unlit,
            Self::Torch,
            Self::Lantern,
            Self::Firefly,
            Self::Magic,
            Self::GreenFire,
            Self::Candle,
            Self::IceWisp,
        ]
    }

    /// The display name.
    pub fn name(&self) -> (r: &'static str)
        ensures
            r@ == self.title(),
    {
        match self {
            Self::Unlit => "None",
            Self::Torch => "Torch",
            Self::Lantern => "Lantern",
            Self::Firefly => "Firefly",
            Self::Magic => "Magic",
            Self::GreenFire => "Green Fire",
            Self::Candle => "Candle",
            Self::IceWisp => "Ice Wisp",
        }
    }

    /// The colour of the glow around the light.
    pub open spec fn glow(self) -> Option<[u8; 3]> {
        match self {
            Self::Unlit => None,
            Self::Torch => Some([215u8, 100u8, 10u8]),
            Self::Lantern => Some([220u8, 185u8, 100u8]),
            Self::Firefly => Some([70u8, 220u8, 50u8]),
            Self::Magic => Some([100u8, 50u8, 255u8]),
            Self::GreenFire => Some([30u8, 180u8, 20u8]),
            Self::Candle => Some([255u8, 160u8, 40u8]),
            Self::IceWisp => Some([80u8, 200u8, 255u8]),
        }
    }

    /// The colours of the flame, from the core outwards.
    pub open spec fn flame(self) -> Option<[[u8; 3]; 4]> {
        match self {
            Self::Unlit => None,
            Self::Torch => Some([[255u8, 255u8, 200u8], [255u8, 200u8, 35u8], [255u8, 105u8, 10u8], [210u8, 55u8, 5u8]]),
            Self::Lantern => Some([[255u8, 255u8, 230u8], [255u8, 225u8, 150u8], [255u8, 185u8, 80u8], [215u8, 130u8, 30u8]]),
            Self::Firefly => None,
            Self::Magic => Some([[200u8, 180u8, 255u8], [130u8, 80u8, 255u8], [80u8, 40u8, 220u8], [40u8, 10u8, 180u8]]),
            Self::GreenFire => Some([[200u8, 255u8, 200u8], [80u8, 220u8, 50u8], [20u8, 160u8, 10u8], [5u8, 90u8, 5u8]]),
            Self::Candle => Some([[255u8, 240u8, 190u8], [255u8, 180u8, 60u8], [255u8, 100u8, 20u8], [200u8, 50u8, 5u8]]),
            Self::IceWisp => Some([[200u8, 240u8, 255u8], [100u8, 200u8, 255u8], [40u8, 140u8, 220u8], [10u8, 80u8, 180u8]]),
        }
    }

    /// The colour of the glow around the light.
    pub fn glow_color(&self) -> (r: Option<[u8; 3]>)
        ensures
            r == self.glow(),
    {
        match self {
            Self::Unlit => None,
            Self::Torch => Some([215, 100, 10]),
            Self::Lantern => Some([220, 185, 100]),
            Self::Firefly => Some([70, 220, 50]),
            Self::Magic => Some([100, 50, 255]),
            Self::GreenFire => Some([30, 180, 20]),
            Self::Candle => Some([255, 160, 40]),
            Self::IceWisp => Some([80, 200, 255]),
        }
    }

    /// The colours of the flame, from the core outwards.
    pub fn flame_colors(&self) -> (r: Option<[[u8; 3]; 4]>)
        ensures
            r == self.flame(),
    {
        match self {
            Self::Unlit => None,
            Self::Torch => Some([[255, 255, 200], [255, 200, 35], [255, 105, 10], [210, 55, 5]]),
            Self::Lantern => Some([[255, 255, 230], [255, 225, 150], [255, 185, 80], [215, 130, 30]]),
            Self::Firefly => None,
            Self::Magic => Some([[200, 180, 255], [130, 80, 255], [80, 40, 220], [40, 10, 180]]),
            Self::GreenFire => Some([[200, 255, 200], [80, 220, 50], [20, 160, 10], [5, 90, 5]]),
            Self::Candle => Some([[255, 240, 190], [255, 180, 60], [255, 100, 20], [200, 50, 5]]),
            Self::IceWisp => Some([[200, 240, 255], [100, 200, 255], [40, 140, 220], [10, 80, 180]]),
        }
    }
}

/// Every light source is listed once, at its index.
pub proof fn law_atmo_type_listed_once(v: AtmoType, i: int)
    requires
        0 <= i < AtmoType::listed().len(),
    ensures
        0 <= v.index() < AtmoType::listed().len(),
        AtmoType::listed()[v.index()] == v,
        AtmoType::listed()[i].index() == i,
{
}

/// The surface that an object is attached to.
#[derive(Clone, Copy, Debug, PartialEq, Eq, Structural)]
pub enum AttachmentSurface {
    Floating,
    Wall,
    Floor,
    Ceiling,
}

impl AttachmentSurface {
    /// The place in the list of all.
    pub open spec fn index(self) -> int {
        match self {
            Self::Floating => 0,
            Self::Wall => 1,
            Self::Floor => 2,
            Self::Ceiling => 3,
        }
    }

    /// The display name.
    pub open spec fn title(self) -> Seq<char> {
        match self {
            Self::Floating => "Floating"@,
            Self::Wall => "Wall"@,
            Self::Floor => "Floor"@,
            Self::Ceiling => "Ceiling"@,
        }
    }

    /// All of them, in display order.
    pub open spec fn listed() -> Seq<Self> {
        seq![
            Self::Floating,
            Self::Wall,
            Self::Floor,
            Self::Ceiling,
        ]
    }

    /// All of them, in display order.
    pub fn all() -> (r: &'static [AttachmentSurface])
        ensures
            r@ == Self::listed(),
    {
        &[
            Self::Floating,
            Self::Wall,
            Self::Floor,
            Self::Ceiling,
        ]
    }

    /// The display name.
    pub fn name(&self) -> (r: &'static str)
        ensures
            r@ == self.title(),
    {
        match self {
            Self::Floating => "Floating",
            Self::Wall => "Wall",
            Self::Floor => "Floor",
            Self::Ceiling => "Ceiling",
        }
    }
}

/// Every surface is listed once, at its index.
pub proof fn law_attachment_surface_listed_once(v: AttachmentSurface, i: int)
    requires
        0 <= i < AttachmentSurface::listed().len(),
    ensures
        0 <= v.index() < AttachmentSurface::listed().len(),
        AttachmentSurface::listed()[v.index()] == v,
        AttachmentSurface::listed()[i].index() == i,
{
}

/// The side of the path that an object stands on.
#[derive(Clone, Copy, Debug, PartialEq, Eq, Structural)]
pub enum MountSide {
    Both,
    Left,
    Right,
    Center,
}

impl MountSide {
    /// The place in the list of all.
    pub open spec fn index(self) -> int {
        match self {
            Self::Both => 0,
            Self::Left => 1,
            Self::Right => 2,
            Self::Center => 3,
        }
    }

    /// The display name.
    pub open spec fn title(self) -> Seq<char> {
        match self {
            Self::Both => "Both"@,
            Self::Left => "Left"@,
            Self::Right => "Right"@,
            Self::Center => "Center"@,
        }
    }

    /// All of them, in display order.
    pub open spec fn listed() -> Seq<Self> {
        seq![
            Self::Both,
            Self::Left,
            Self::Right,
            Self::Center,
        ]
    }

    /// All of them, in display order.
    pub fn all() -> (r: &'static [MountSide])
        ensures
            r@ == Self::listed(),
    {
        &[
            Self::Both,
            Self::Left,
            Self::Right,
            Self::Center,
        ]
    }

    /// The display name.
    pub fn name(&self) -> (r: &'static str)
        ensures
            r@ == self.title(),
    {
        match self {
            Self::Both => "Both",
            Self::Left => "Left",
            Self::Right => "Right",
            Self::Center => "Center",
        }
    }
}

/// Every side is listed once, at its index.
pub proof fn law_mount_side_listed_once(v: MountSide, i: int)
    requires
        0 <= i < MountSide::listed().len(),
    ensures
        0 <= v.index() < MountSide::listed().len(),
        MountSide::listed()[v.index()] == v,
        MountSide::listed()[i].index() == i,
{
}

/// The lighting moods.
#[derive(Clone, Copy, Debug, PartialEq, Eq, Structural)]
pub enum LightingPreset {
    Balanced,
    GoldenHour,
    HighNoon,
    NightNeon,
}

impl LightingPreset {
    /// The place in the list of all.
    pub open spec fn index(self) -> int {
        match self {
            Self::Balanced => 0,
            Self::GoldenHour => 1,
            Self::HighNoon => 2,
            Self::NightNeon => 3,
        }
    }

    /// The display name.
    pub open spec fn title(self) -> Seq<char> {
        match self {
            Self::Balanced => "Balanced"@,
            Self::GoldenHour => "Golden Hour"@,
            Self::HighNoon => "High Noon"@,
            Self::NightNeon => "Night Neon"@,
        }
    }

    /// All of them, in display order.
    pub open spec fn listed() -> Seq<Self> {
        seq![
            Self::Balanced,
            Self::GoldenHour,
            Self::HighNoon,
            Self::NightNeon,
        ]
    }

    /// All of them, in display order.
    pub fn all() -> (r: &'static [LightingPreset])
        ensures
            r@ == Self::listed(),
    {
        &[
            Self::Balanced,
            Self::GoldenHour,
            Self::HighNoon,
            Self::NightNeon,
        ]
    }

    /// The display name.
    pub fn name(&self) -> (r: &'static str)
        ensures
            r@ == self.title(),
    {
        match self {
            Self::Balanced => "Balanced",
            Self::GoldenHour => "Golden Hour",
            Self::HighNoon => "High Noon",
            Self::NightNeon => "Night Neon",
        }
    }
}

/// Every lighting mood is listed once, at its index.
pub proof fn law_lighting_preset_listed_once(v: LightingPreset, i: int)
    requires
        0 <= i < LightingPreset::listed().len(),
    ensures
        0 <= v.index() < LightingPreset::listed().len(),
        LightingPreset::listed()[v.index()] == v,
        LightingPreset::listed()[i].index() == i,
{
}

/// The props beside the path.
#[derive(Clone, Copy, Debug, PartialEq, Eq, Structural)]
pub enum PropType {
    Tree,
    PineTree,
    Bush,
    Rock,
    Boulder,
    Cactus,
    DeadTree,
    Mushroom,
}

impl PropType {
    /// The place in the list of all.
    pub open spec fn index(self) -> int {
        match self {
            Self::Tree => 0,
            Self::PineTree => 1,
            Self::Bush => 2,
            Self::Rock => 3,
            Self::Boulder => 4,
            Self::Cactus => 5,
            Self::DeadTree => 6,
            Self::Mushroom => 7,
        }
    }

    /// The display name.
    pub open spec fn title(self) -> Seq<char> {
        match self {
            Self::Tree => "Tree"@,
            Self::PineTree => "Pine Tree"@,
            Self::Bush => "Bush"@,
            Self::Rock => "Rock"@,
            Self::Boulder => "Boulder"@,
            Self::Cactus => "Cactus"@,
            Self::DeadTree => "Dead Tree"@,
            Self::Mushroom => "Mushroom"@,
        }
    }

    /// All of them, in display order.
    pub open spec fn listed() -> Seq<Self> {
        seq![
            Self::Tree,
            Self::PineTree,
            Self::Bush,
            Self::Rock,
            Self::Boulder,
            Self::Cactus,
            Self::DeadTree,
            Self::Mushroom,
        ]
    }

    /// All of them, in display order.
    pub fn all() -> (r: &'static [PropType])
        ensures
            r@ == Self::listed(),
    {
        &[
            Self::Tree,
            Self::PineTree,
            Self::Bush,
            Self::Rock,
            Self::Boulder,
            Self::Cactus,
            Self::DeadTree,
            Self::Mushroom,
        ]
    }

    /// The display name.
    pub fn name(&self) -> (r: &'static str)
        ensures
            r@ == self.title(),
    {
        match self {
            Self::Tree => "Tree",
            Self::PineTree => "Pine Tree",
            Self::Bush => "Bush",
            Self::Rock => "Rock",
            Self::Boulder => "Boulder",
            Self::Cactus => "Cactus",
            Self::DeadTree => "Dead Tree",
            Self::Mushroom => "Mushroom",
        }
    }

    /// The colour that a new prop has.
    pub open spec fn native_tint(self) -> [u8; 3] {
        match self {
            Self::Tree => [25u8, 90u8, 18u8],
            Self::PineTree => [18u8, 70u8, 22u8],
            Self::Bush => [22u8, 78u8, 16u8],
            Self::Rock => [78u8, 72u8, 64u8],
            Self::Boulder => [62u8, 58u8, 52u8],
            Self::Cactus => [28u8, 95u8, 24u8],
            Self::DeadTree => [52u8, 42u8, 28u8],
            Self::Mushroom => [185u8, 38u8, 38u8],
        }
    }

    /// The colour that a new prop has.
    pub fn default_tint(&self) -> (r: [u8; 3])
        ensures
            r == self.native_tint(),
    {
        match self {
            Self::Tree => [25, 90, 18],
            Self::PineTree => [18, 70, 22],
            Self::Bush => [22, 78, 16],
            Self::Rock => [78, 72, 64],
            Self::Boulder => [62, 58, 52],
            Self::Cactus => [28, 95, 24],
            Self::DeadTree => [52, 42, 28],
            Self::Mushroom => [185, 38, 38],
        }
    }
}

/// Every prop is listed once, at its index.
pub proof fn law_prop_type_listed_once(v: PropType, i: int)
    requires
        0 <= i < PropType::listed().len(),
    ensures
        0 <= v.index() < PropType::listed().len(),
        PropType::listed()[v.index()] == v,
        PropType::listed()[i].index() == i,
{
}

/// A light that has a flame also glows.
pub proof fn law_flames_glow(t: AtmoType)
    ensures
        t.flame() is Some ==> t.glow() is Some,
        t.glow() is None <==> t == AtmoType::Unlit,
{
}

/// No two light sources share a name.
pub proof fn law_atmo_type_names_differ(a: AtmoType, b: AtmoType)
    ensures
        a.title() == b.title() <==> a == b,
        a.title().len() > 0,
{
    reveal_strlit("None");
    reveal_strlit("Torch");
    reveal_strlit("Lantern");
    reveal_strlit("Firefly");
    reveal_strlit("Magic");
    reveal_strlit("Green Fire");
    reveal_strlit("Candle");
    reveal_strlit("Ice Wisp");
    assert(a.title().len() != b.title().len() || a.title()[0] != b.title()[0] || a == b);
}

/// No two surfaces share a name.
pub proof fn law_attachment_surface_names_differ(a: AttachmentSurface, b: AttachmentSurface)
    ensures
        a.title() == b.title() <==> a == b,
        a.title().len() > 0,
{
    reveal_strlit("Floating");
    reveal_strlit("Wall");
    reveal_strlit("Floor");
    reveal_strlit("Ceiling");
    assert(a.title().len() != b.title().len() || a == b);
}

/// No two sides share a name.
pub proof fn law_mount_side_names_differ(a: MountSide, b: MountSide)
    ensures
        a.title() == b.title() <==> a == b,
        a.title().len() > 0,
{
    reveal_strlit("Both");
    reveal_strlit("Left");
    reveal_strlit("Right");
    reveal_strlit("Center");
    assert(a.title().len() != b.title().len() || a.title()[0] != b.title()[0] || a == b);
}

/// No two lighting moods share a name.
pub proof fn law_lighting_preset_names_differ(a: LightingPreset, b: LightingPreset)
    ensures
        a.title() == b.title() <==> a == b,
        a.title().len() > 0,
{
    reveal_strlit("Balanced");
    reveal_strlit("Golden Hour");
    reveal_strlit("High Noon");
    reveal_strlit("Night Neon");
    assert(a.title().len() != b.title().len() || a == b);
}

/// No two props share a name.
pub proof fn law_prop_type_names_differ(a: PropType, b: PropType)
    ensures
        a.title() == b.title() <==> a == b,
        a.title().len() > 0,
{
    reveal_strlit("Tree");
    reveal_strlit("Pine Tree");
    reveal_strlit("Bush");
    reveal_strlit("Rock");
    reveal_strlit("Boulder");
    reveal_strlit("Cactus");
    reveal_strlit("Dead Tree");
    reveal_strlit("Mushroom");
    assert(a.title().len() != b.title().len() || a.title()[0] != b.title()[0] || a == b);
}

/// No two floor patterns share a name.
pub proof fn law_floor_pattern_names_differ(a: FloorPattern, b: FloorPattern)
    ensures
        a.title() == b.title() <==> a == b,
        a.title().len() > 0,
{
    reveal_strlit("Cobblestone");
    reveal_strlit("Brick");
    reveal_strlit("Stone Block");
    reveal_strlit("Sand");
    reveal_strlit("Dirt");
    reveal_strlit("Grass");
    assert(a.title().len() != b.title().len() || a.title()[0] != b.title()[0] || a == b);
}

/// No two wall patterns share a name.
pub proof fn law_wall_pattern_names_differ(a: WallPattern, b: WallPattern)
    ensures
        a.title() == b.title() <==> a == b,
        a.title().len() > 0,
{
    reveal_strlit("Stone Block");
    reveal_strlit("Brick");
    reveal_strlit("Bark");
    reveal_strlit("Rock Face");
    reveal_strlit("Hedge");
    reveal_strlit("Cobblestone");
    assert(a.title().len() != b.title().len() || a.title()[0] != b.title()[0] || a == b);
}

/// A flame is brightest at its core and no channel of it rises outwards. Of the lights that glow
/// only the firefly has none, and a flame and its glow agree on which channels are the stronger.
#[verifier::rlimit(50)]
pub proof fn law_flames_fade_outwards(t: AtmoType, inner: int, outer: int, c: int, d: int)
    requires
        0 <= inner <= outer < 4,
        0 <= c < 3,
        0 <= d < 3,
    ensures
        t.flame() matches Some(f) ==> f[inner][c] >= f[outer][c],
        t.flame() is None <==> t == AtmoType::Unlit || t == AtmoType::Firefly,
        t.flame() matches Some(f) ==> (t.glow() matches Some(g) ==> f[3][c] < f[3][d] ==> g[c] < g[d]),
{
}

/// Leaves are green above all, stone and dead wood are warm greys, a mushroom is red; a pine is
/// darker than a broad tree, and a boulder than a rock.
pub proof fn law_native_tints(t: PropType, c: int)
    requires
        0 <= c < 3,
    ensures
        t is Tree || t is PineTree || t is Bush || t is Cactus ==> t.native_tint()[1] > t.native_tint()[0]
            && t.native_tint()[1] > t.native_tint()[2],
        t is Rock || t is Boulder || t is DeadTree ==> t.native_tint()[0] > t.native_tint()[1] > t.native_tint()[2],
        t is Mushroom ==> t.native_tint()[0] > t.native_tint()[1] == t.native_tint()[2],
        PropType::Boulder.native_tint()[c] < PropType::Rock.native_tint()[c],
        PropType::PineTree.native_tint()[1] < PropType::Tree.native_tint()[1],
{
}

/// The red, the green and the blue of the lights, from kind to kind, at their glow and from the core
/// of their flame outwards.
#[verifier::rlimit(50)]
pub proof fn law_light_colours(t: AtmoType)
    ensures
        t.glow()->0[0] == (match t {
            AtmoType::Torch => 215,
            AtmoType::Lantern => 220,
            AtmoType::Firefly => 70,
            AtmoType::Magic => 100,
            AtmoType::GreenFire => 30,
            AtmoType::Candle => 255,
            AtmoType::IceWisp => 80,
            _ => t.glow()->0[0],
        }),
        t.glow()->0[1] == (match t {
            AtmoType::Torch => 100,
            AtmoType::Lantern => 185,
            AtmoType::Firefly => 220,
            AtmoType::Magic => 50,
            AtmoType::GreenFire => 180,
            AtmoType::Candle => 160,
            AtmoType::IceWisp => 200,
            _ => t.glow()->0[1],
        }),
        t.glow()->0[2] == (match t {
            AtmoType::Torch => 10,
            AtmoType::Lantern => 100,
            AtmoType::Firefly => 50,
            AtmoType::Magic | AtmoType::IceWisp => 255,
            AtmoType::GreenFire => 20,
            AtmoType::Candle => 40,
            _ => t.glow()->0[2],
        }),
        t.flame()->0[0][0] == (match t {
            AtmoType::Torch | AtmoType::Lantern | AtmoType::Candle => 255,
            AtmoType::Magic | AtmoType::GreenFire | AtmoType::IceWisp => 200,
            _ => t.flame()->0[0][0],
        }),
        t.flame()->0[0][1] == (match t {
            AtmoType::Torch | AtmoType::Lantern | AtmoType::GreenFire => 255,
            AtmoType::Magic => 180,
            AtmoType::Candle | AtmoType::IceWisp => 240,
            _ => t.flame()->0[0][1],
        }),
        t.flame()->0[0][2] == (match t {
            AtmoType::Torch | AtmoType::GreenFire => 200,
            AtmoType::Lantern => 230,
            AtmoType::Magic | AtmoType::IceWisp => 255,
            AtmoType::Candle => 190,
            _ => t.flame()->0[0][2],
        }),
        t.flame()->0[1][0] == (match t {
            AtmoType::Torch | AtmoType::Lantern | AtmoType::Candle => 255,
            AtmoType::Magic => 130,
            AtmoType::GreenFire => 80,
            AtmoType::IceWisp => 100,
            _ => t.flame()->0[1][0],
        }),
        t.flame()->0[1][1] == (match t {
            AtmoType::Torch | AtmoType::IceWisp => 200,
            AtmoType::Lantern => 225,
            AtmoType::Magic => 80,
            AtmoType::GreenFire => 220,
            AtmoType::Candle => 180,
            _ => t.flame()->0[1][1],
        }),
        t.flame()->0[1][2] == (match t {
            AtmoType::Torch => 35,
            AtmoType::Lantern => 150,
            AtmoType::Magic | AtmoType::IceWisp => 255,
            AtmoType::GreenFire => 50,
            AtmoType::Candle => 60,
            _ => t.flame()->0[1][2],
        }),
        t.flame()->0[2][0] == (match t {
            AtmoType::Torch | AtmoType::Lantern | AtmoType::Candle => 255,
            AtmoType::Magic => 80,
            AtmoType::GreenFire => 20,
            AtmoType::IceWisp => 40,
            _ => t.flame()->0[2][0],
        }),
        t.flame()->0[2][1] == (match t {
            AtmoType::Torch => 105,
            AtmoType::Lantern => 185,
            AtmoType::Magic => 40,
            AtmoType::GreenFire => 160,
            AtmoType::Candle => 100,
            AtmoType::IceWisp => 140,
            _ => t.flame()->0[2][1],
        }),
        t.flame()->0[2][2] == (match t {
            AtmoType::Torch | AtmoType::GreenFire => 10,
            AtmoType::Lantern => 80,
            AtmoType::Magic | AtmoType::IceWisp => 220,
            AtmoType::Candle => 20,
            _ => t.flame()->0[2][2],
        }),
        t.flame()->0[3][0] == (match t {
            AtmoType::Torch => 210,
            AtmoType::Lantern => 215,
            AtmoType::Magic => 40,
            AtmoType::GreenFire => 5,
            AtmoType::Candle => 200,
            AtmoType::IceWisp => 10,
            _ => t.flame()->0[3][0],
        }),
        t.flame()->0[3][1] == (match t {
            AtmoType::Torch => 55,
            AtmoType::Lantern => 130,
            AtmoType::Magic => 10,
            AtmoType::GreenFire => 90,
            AtmoType::Candle => 50,
            AtmoType::IceWisp => 80,
            _ => t.flame()->0[3][1],
        }),
        t.flame()->0[3][2] == (match t {
            AtmoType::Torch | AtmoType::GreenFire | AtmoType::Candle => 5,
            AtmoType::Lantern => 30,
            AtmoType::Magic | AtmoType::IceWisp => 180,
            _ => t.flame()->0[3][2],
        }),
{
}

/// The red, the green and the blue of new props, from kind to kind.
pub proof fn law_prop_colours(t: PropType)
    ensures
        t.native_tint()[0] == (match t {
            PropType::Tree => 25int,
            PropType::PineTree => 18int,
            PropType::Bush => 22int,
            PropType::Rock => 78int,
            PropType::Boulder => 62int,
            PropType::Cactus => 28int,
            PropType::DeadTree => 52int,
            PropType::Mushroom => 185int,
        }),
        t.native_tint()[1] == (match t {
            PropType::Tree => 90int,
            PropType::PineTree => 70int,
            PropType::Bush => 78int,
            PropType::Rock => 72int,
            PropType::Boulder => 58int,
            PropType::Cactus => 95int,
            PropType::DeadTree => 42int,
            PropType::Mushroom => 38int,
        }),
        t.native_tint()[2] == (match t {
            PropType::Tree => 18int,
            PropType::PineTree => 22int,
            PropType::Bush => 16int,
            PropType::Rock => 64int,
            PropType::Boulder => 52int,
            PropType::Cactus => 24int,
            PropType::DeadTree => 28int,
            PropType::Mushroom => 38int,
        }),
{
}

/// The floor patterns are numbered from zero in the order of the list.
pub proof fn law_floor_pattern_order()
    ensures
        0 == FloorPattern::Cobblestone.index(),
        FloorPattern::Cobblestone.index() + 1 == FloorPattern::Brick.index(),
        FloorPattern::Brick.index() + 1 == FloorPattern::StoneBlock.index(),
        FloorPattern::StoneBlock.index() + 1 == FloorPattern::Sand.index(),
        FloorPattern::Sand.index() + 1 == FloorPattern::Dirt.index(),
        FloorPattern::Dirt.index() + 1 == FloorPattern::Grass.index(),
        FloorPattern::Grass.index() + 1 == FloorPattern::listed().len(),
{
}

/// The wall patterns are numbered from zero in the order of the list.
pub proof fn law_wall_pattern_order()
    ensures
        0 == WallPattern::StoneBlock.index(),
        WallPattern::StoneBlock.index() + 1 == WallPattern::Brick.index(),
        WallPattern::Brick.index() + 1 == WallPattern::Bark.index(),
        WallPattern::Bark.index() + 1 == WallPattern::RockFace.index(),
        WallPattern::RockFace.index() + 1 == WallPattern::Hedge.index(),
        WallPattern::Hedge.index() + 1 == WallPattern::Cobblestone.index(),
        WallPattern::Cobblestone.index() + 1 == WallPattern::listed().len(),
{
}

/// The light sources are numbered from zero in the order of the list.
pub proof fn law_atmo_type_order()
    ensures
        0 == AtmoType::Unlit.index(),
        AtmoType::Unlit.index() + 1 == AtmoType::Torch.index(),
        AtmoType::Torch.index() + 1 == AtmoType::Lantern.index(),
        AtmoType::Lantern.index() + 1 == AtmoType::Firefly.index(),
        AtmoType::Firefly.index() + 1 == AtmoType::Magic.index(),
        AtmoType::Magic.index() + 1 == AtmoType::GreenFire.index(),
        AtmoType::GreenFire.index() + 1 == AtmoType::Candle.index(),
        AtmoType::Candle.index() + 1 == AtmoType::IceWisp.index(),
        AtmoType::IceWisp.index() + 1 == AtmoType::listed().len(),
{
}

/// The surfaces are numbered from zero in the order of the list.
pub proof fn law_attachment_surface_order()
    ensures
        0 == AttachmentSurface::Floating.index(),
        AttachmentSurface::Floating.index() + 1 == AttachmentSurface::Wall.index(),
        AttachmentSurface::Wall.index() + 1 == AttachmentSurface::Floor.index(),
        AttachmentSurface::Floor.index() + 1 == AttachmentSurface::Ceiling.index(),
        AttachmentSurface::Ceiling.index() + 1 == AttachmentSurface::listed().len(),
{
}

/// The sides are numbered from zero in the order of the list.
pub proof fn law_mount_side_order()
    ensures
        0 == MountSide::Both.index(),
        MountSide::Both.index() + 1 == MountSide::Left.index(),
        MountSide::Left.index() + 1 == MountSide::Right.index(),
        MountSide::Right.index() + 1 == MountSide::Center.index(),
        MountSide::Center.index() + 1 == MountSide::listed().len(),
{
}

/// The lighting moods are numbered from zero in the order of the list.
pub proof fn law_lighting_preset_order()
    ensures
        0 == LightingPreset::Balanced.index(),
        LightingPreset::Balanced.index() + 1 == LightingPreset::GoldenHour.index(),
        LightingPreset::GoldenHour.index() + 1 == LightingPreset::HighNoon.index(),
        LightingPreset::HighNoon.index() + 1 == LightingPreset::NightNeon.index(),
        LightingPreset::NightNeon.index() + 1 == LightingPreset::listed().len(),
{
}

/// The props are numbered from zero in the order of the list.
pub proof fn law_prop_type_order()
    ensures
        0 == PropType::Tree.index(),
        PropType::Tree.index() + 1 == PropType::PineTree.index(),
        PropType::PineTree.index() + 1 == PropType::Bush.index(),
        PropType::Bush.index() + 1 == PropType::Rock.index(),
        PropType::Rock.index() + 1 == PropType::Boulder.index(),
        PropType::Boulder.index() + 1 == PropType::Cactus.index(),
        PropType::Cactus.index() + 1 == PropType::DeadTree.index(),
        PropType::DeadTree.index() + 1 == PropType::Mushroom.index(),
        PropType::Mushroom.index() + 1 == PropType::listed().len(),
{
}

} // verus!
