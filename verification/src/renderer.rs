//! The state of the renderer: the material tiles that it draws with, and when they have to
//! be generated anew.
use vstd::prelude::*;

use crate::settings::{PathForgeSettings, TILE};
use crate::sprites::SpriteCache;
use crate::tile_gen::{gen_floor_tile, gen_wall_tile, tile_bytes, Mark, FULL_STRENGTH};

verus! {

/// What a tile was generated from.
#[derive(Clone, Debug)]
pub struct TileKey {
    pub pattern: String,
    pub base: [u8; 3],
    pub mortar: [u8; 3],
    pub noise: u32,
    pub seed: u32,
}

impl TileKey {
    /// Whether two keys are the same.
    pub open spec fn same(self, other: TileKey) -> bool {
        &&& self.pattern@ == other.pattern@
        &&& self.base == other.base
        &&& self.mortar == other.mortar
        &&& self.noise == other.noise
        &&& self.seed == other.seed
    }

    /// Whether two keys are the same.
    pub fn matches(&self, other: &TileKey) -> (r: bool)
        ensures
            r == self.same(*other),
    {
        let r: bool = self.pattern == other.pattern && same_colour(self.base, other.base) && same_colour(
            self.mortar,
            other.mortar,
        ) && self.noise == other.noise && self.seed == other.seed;
        r
    }
}

fn same_colour(a: [u8; 3], b: [u8; 3]) -> (r: bool)
    ensures
        r == (a == b),
{
    let r: bool = a[0] == b[0] && a[1] == b[1] && a[2] == b[2];
    proof {
        if r {
            assert(a@ =~= b@);
            assert(a =~= b);
        }
    }
    r
}

/// The seed of the floor tile of a scene.
pub open spec fn floor_seed<N>(s: PathForgeSettings<N>) -> u32 {
    11u32.wrapping_add(s.floor.pattern.index() as u32).wrapping_add(s.floor.variation_seed)
}

/// Whether a key is that of the floor of a scene. `wear` is the damage in twentieths.
pub open spec fn is_floor_key<N>(k: TileKey, s: PathForgeSettings<N>, wear: u32) -> bool {
    &&& k.pattern@ == s.floor.pattern.title()
    &&& k.base == s.floor.base
    &&& k.mortar == s.floor.mortar
    &&& k.noise == s.floor.noise.wrapping_add(wear)
    &&& k.seed == floor_seed(s)
}

/// The seed of the wall tile of a scene.
pub open spec fn wall_seed<N>(s: PathForgeSettings<N>) -> u32 {
    22u32.wrapping_add(s.walls.pattern.index() as u32).wrapping_add(s.walls.variation_seed)
}

/// Whether a key is that of the walls of a scene. `wear` is the damage in twentieths.
pub open spec fn is_wall_key<N>(k: TileKey, s: PathForgeSettings<N>, wear: u32) -> bool {
    &&& k.pattern@ == s.walls.pattern.title()
    &&& k.base == s.walls.base
    &&& k.mortar == s.walls.mortar
    &&& k.noise == s.walls.noise.wrapping_add(wear)
    &&& k.seed == wall_seed(s)
}

/// The key of the floor of a scene.
pub fn floor_key<N>(s: &PathForgeSettings<N>, wear: u32) -> (r: TileKey)
    ensures
        is_floor_key(r, *s, wear),
{
    TileKey {
        pattern: s.floor.pattern.name().to_owned(),
        base: s.floor.base,
        mortar: s.floor.mortar,
        noise: s.floor.noise.wrapping_add(wear),
        seed: 11u32.wrapping_add(s.floor.pattern.gen_seed_offset()).wrapping_add(s.floor.variation_seed),
    }
}

/// The key of the walls of a scene.
pub fn wall_key<N>(s: &PathForgeSettings<N>, wear: u32) -> (r: TileKey)
    ensures
        is_wall_key(r, *s, wear),
{
    TileKey {
        pattern: s.walls.pattern.name().to_owned(),
        base: s.walls.base,
        mortar: s.walls.mortar,
        noise: s.walls.noise.wrapping_add(wear),
        seed: 22u32.wrapping_add(s.walls.pattern.gen_seed_offset()).wrapping_add(s.walls.variation_seed),
    }
}

/// Whether a tile with a key has to be generated, given the key of the one that is there.
pub fn is_stale(held: &Option<TileKey>, wanted: &TileKey) -> (r: bool)
    ensures
        r == (match *held {
            Some(k) => !k.same(*wanted),
            None => true,
        }),
{
    match held {
        Some(k) => !k.matches(wanted),
        None => true,
    }
}

/// The tiles that the renderer draws with, and the sprites that it has read.
pub struct PathRenderer {
    pub floor_key: Option<TileKey>,
    pub wall_key: Option<TileKey>,
    pub floor_tile: Vec<u8>,
    pub wall_tile: Vec<u8>,
    pub sprite_cache: SpriteCache,
}

/// Bytes of one value.
fn level_bytes(level: u8, n: usize) -> (r: Vec<u8>)
    ensures
        r@ == Seq::new(n as nat, |i: int| level),
{
    let mut out: Vec<u8> = Vec::new();
    while out.len() < n
        invariant
            out@.len() <= n,
            forall|i: int| 0 <= i < out@.len() ==> out@[i] == level,
        decreases n - out.len(),
    {
        out.push(level);
    }
    out
}

impl Default for PathRenderer {
    /// A renderer without tiles: grey placeholders, the walls darker than the floor.
    fn default() -> (r: Self)
        ensures
            r.floor_key is None,
            r.wall_key is None,
            r.floor_tile@ == Seq::new(3072, |i: int| 128u8),
            r.wall_tile@ == Seq::new(3072, |i: int| 80u8),
            r.sprite_cache.paths().len() == 0,
    {
        PathRenderer {
            floor_key: None,
            wall_key: None,
            floor_tile: level_bytes(128, TILE * TILE * 3),
            wall_tile: level_bytes(80, TILE * TILE * 3),
            sprite_cache: SpriteCache::new(),
        }
    }
}

impl PathRenderer {
    /// The seed of the floor tile that is due, if the one that is there is not it.
    pub fn due_floor<N>(&self, s: &PathForgeSettings<N>, wear: u32) -> (r: Option<u32>)
        ensures
            r == (match self.floor_key {
                Some(k) => if is_floor_key(k, *s, wear) {
                    None
                } else {
                    Some(floor_seed(*s))
                },
                None => Some(floor_seed(*s)),
            }),
    {
        let wanted: TileKey = floor_key(s, wear);
        if is_stale(&self.floor_key, &wanted) {
            Some(wanted.seed)
        } else {
            None
        }
    }

    /// The seed of the wall tile that is due, if the one that is there is not it.
    pub fn due_wall<N>(&self, s: &PathForgeSettings<N>, wear: u32) -> (r: Option<u32>)
        ensures
            r == (match self.wall_key {
                Some(k) => if is_wall_key(k, *s, wear) {
                    None
                } else {
                    Some(wall_seed(*s))
                },
                None => Some(wall_seed(*s)),
            }),
    {
        let wanted: TileKey = wall_key(s, wear);
        if is_stale(&self.wall_key, &wanted) {
            Some(wanted.seed)
        } else {
            None
        }
    }

    /// Generates the floor tile, with the marks of wear that its seed gives.
    pub fn refresh_floor<N>(&mut self, s: &PathForgeSettings<N>, wear: u32, marks: &[Mark])
        requires
            forall|k: int| 0 <= k < marks@.len() ==> marks@[k].strength <= FULL_STRENGTH,
        ensures
            final(self).floor_key matches Some(k) && is_floor_key(k, *s, wear) && final(self).floor_tile@ == tile_bytes(
                s.floor.pattern.title(),
                s.floor.base,
                s.floor.mortar,
                s.floor.noise,
                marks@,
                floor_seed(*s),
            ),
            final(self).floor_tile@.len() == 3 * TILE * TILE,
            final(self).wall_key == old(self).wall_key,
            final(self).wall_tile == old(self).wall_tile,
            final(self).sprite_cache == old(self).sprite_cache,
    {
        let key: TileKey = floor_key(s, wear);
        self.floor_tile = gen_floor_tile(
            &s.floor.pattern,
            s.floor.base,
            s.floor.mortar,
            s.floor.noise,
            marks,
            key.seed,
        );
        self.floor_key = Some(key);
    }

    /// Generates the wall tile, with the marks of wear that its seed gives.
    pub fn refresh_wall<N>(&mut self, s: &PathForgeSettings<N>, wear: u32, marks: &[Mark])
        requires
            forall|k: int| 0 <= k < marks@.len() ==> marks@[k].strength <= FULL_STRENGTH,
        ensures
            final(self).wall_key matches Some(k) && is_wall_key(k, *s, wear) && final(self).wall_tile@ == tile_bytes(
                s.walls.pattern.title(),
                s.walls.base,
                s.walls.mortar,
                s.walls.noise,
                marks@,
                wall_seed(*s),
            ),
            final(self).wall_tile@.len() == 3 * TILE * TILE,
            final(self).floor_key == old(self).floor_key,
            final(self).floor_tile == old(self).floor_tile,
            final(self).sprite_cache == old(self).sprite_cache,
    {
        let key: TileKey = wall_key(s, wear);
        self.wall_tile = gen_wall_tile(
            &s.walls.pattern,
            s.walls.base,
            s.walls.mortar,
            s.walls.noise,
            marks,
            key.seed,
        );
        self.wall_key = Some(key);
    }
}

/// Two scenes with the same floor key have the same floor material and colours.
pub proof fn law_floor_key_fixes_material<N>(
    s: PathForgeSettings<N>,
    t: PathForgeSettings<N>,
    wear_s: u32,
    wear_t: u32,
    a: TileKey,
    b: TileKey,
)
    requires
        is_floor_key(a, s, wear_s),
        is_floor_key(b, t, wear_t),
        a.same(b),
    ensures
        s.floor.pattern == t.floor.pattern,
        s.floor.base == t.floor.base,
        s.floor.mortar == t.floor.mortar,
{
    reveal_strlit("Cobblestone");
    reveal_strlit("Brick");
    reveal_strlit("Stone Block");
    reveal_strlit("Sand");
    reveal_strlit("Dirt");
    reveal_strlit("Grass");
    let p = s.floor.pattern.title();
    let q = t.floor.pattern.title();
    assert(p.len() == q.len());
    assert(p[0] == q[0] && p[1] == q[1]);
}

/// Two scenes with the same wall key have the same wall material and colours.
pub proof fn law_wall_key_fixes_material<N>(
    s: PathForgeSettings<N>,
    t: PathForgeSettings<N>,
    wear_s: u32,
    wear_t: u32,
    a: TileKey,
    b: TileKey,
)
    requires
        is_wall_key(a, s, wear_s),
        is_wall_key(b, t, wear_t),
        a.same(b),
    ensures
        s.walls.pattern == t.walls.pattern,
        s.walls.base == t.walls.base,
        s.walls.mortar == t.walls.mortar,
{
    reveal_strlit("Stone Block");
    reveal_strlit("Brick");
    reveal_strlit("Bark");
    reveal_strlit("Rock Face");
    reveal_strlit("Hedge");
    reveal_strlit("Cobblestone");
    let p = s.walls.pattern.title();
    let q = t.walls.pattern.title();
    assert(p.len() == q.len());
    assert(p[0] == q[0] && p[1] == q[1]);
}

proof fn lemma_floor_titles_differ(a: crate::settings::FloorPattern, b: crate::settings::FloorPattern)
    requires
        a.title() == b.title(),
    ensures
        a == b,
{
    reveal_strlit("Cobblestone");
    reveal_strlit("Brick");
    reveal_strlit("Stone Block");
    reveal_strlit("Sand");
    reveal_strlit("Dirt");
    reveal_strlit("Grass");
    let p = a.title();
    let q = b.title();
    assert(p.len() == q.len());
    assert(p[0] == q[0] && p[1] == q[1]);
}

proof fn lemma_wall_titles_differ(a: crate::settings::WallPattern, b: crate::settings::WallPattern)
    requires
        a.title() == b.title(),
    ensures
        a == b,
{
    reveal_strlit("Stone Block");
    reveal_strlit("Brick");
    reveal_strlit("Bark");
    reveal_strlit("Rock Face");
    reveal_strlit("Hedge");
    reveal_strlit("Cobblestone");
    let p = a.title();
    let q = b.title();
    assert(p.len() == q.len());
    assert(p[0] == q[0] && p[1] == q[1]);
}

/// The floor tile that is held for a scene serves another scene of the same wear just when the
/// floors have the same pattern, colours, noise and variation. A change of any of these makes it
/// due again, and so does a change of the wear alone.
pub proof fn law_floor_tile_follows_its_material<N>(
    s: PathForgeSettings<N>,
    t: PathForgeSettings<N>,
    wear: u32,
    other_wear: u32,
    k: TileKey,
)
    requires
        is_floor_key(k, s, wear),
    ensures
        is_floor_key(k, t, wear) <==> {
            &&& s.floor.pattern == t.floor.pattern
            &&& s.floor.base == t.floor.base
            &&& s.floor.mortar == t.floor.mortar
            &&& s.floor.noise == t.floor.noise
            &&& s.floor.variation_seed == t.floor.variation_seed
        },
        is_floor_key(k, s, other_wear) <==> other_wear == wear,
{
    if is_floor_key(k, t, wear) {
        lemma_floor_titles_differ(s.floor.pattern, t.floor.pattern);
    }
}

/// The wall tile that is held for a scene serves another scene of the same wear just when the
/// walls have the same pattern, colours, noise and variation. A change of any of these makes it
/// due again, and so does a change of the wear alone.
pub proof fn law_wall_tile_follows_its_material<N>(
    s: PathForgeSettings<N>,
    t: PathForgeSettings<N>,
    wear: u32,
    other_wear: u32,
    k: TileKey,
)
    requires
        is_wall_key(k, s, wear),
    ensures
        is_wall_key(k, t, wear) <==> {
            &&& s.walls.pattern == t.walls.pattern
            &&& s.walls.base == t.walls.base
            &&& s.walls.mortar == t.walls.mortar
            &&& s.walls.noise == t.walls.noise
            &&& s.walls.variation_seed == t.walls.variation_seed
        },
        is_wall_key(k, s, other_wear) <==> other_wear == wear,
{
    if is_wall_key(k, t, wear) {
        lemma_wall_titles_differ(s.walls.pattern, t.walls.pattern);
    }
}

/// Floors of one pattern have different seeds wherever their variations differ, and floors of
/// one variation wherever their patterns do; so it is with walls.
pub proof fn law_variations_have_their_own_seeds<N>(s: PathForgeSettings<N>, t: PathForgeSettings<N>)
    ensures
        s.floor.pattern == t.floor.pattern ==> (floor_seed(s) == floor_seed(t) <==> s.floor.variation_seed
            == t.floor.variation_seed),
        s.walls.pattern == t.walls.pattern ==> (wall_seed(s) == wall_seed(t) <==> s.walls.variation_seed
            == t.walls.variation_seed),
        s.floor.variation_seed == t.floor.variation_seed ==> (floor_seed(s) == floor_seed(t) <==> s.floor.pattern
            == t.floor.pattern),
        s.walls.variation_seed == t.walls.variation_seed ==> (wall_seed(s) == wall_seed(t) <==> s.walls.pattern
            == t.walls.pattern),
{
}

/// The variation counts the seed up from that of the pattern: the first pattern of floors starts
/// at 11, that of walls at 22, and the seeds go round after 32 bits.
pub proof fn law_seeds_count_the_variations<N>(s: PathForgeSettings<N>)
    ensures
        (floor_seed(s) - s.floor.variation_seed) % 0x1_0000_0000 == 11 + s.floor.pattern.index(),
        (wall_seed(s) - s.walls.variation_seed) % 0x1_0000_0000 == 22 + s.walls.pattern.index(),
{
}

} // verus!
