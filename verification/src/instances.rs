//! What distinguishes one instance of a repeated object from the next: hashes, seeds and
//! the choice of a sprite.
use vstd::prelude::*;

use crate::kinds::{MountSide, PropType};
use crate::rng::rounded_signed;
use crate::raster::lemma_exact_in_units;
use crate::rounding::{
    law_rounding_error, law_rounding_is_monotone, law_small_numbers_are_exact, lemma_spacing_relative, power_of_two,
    round_to_significand, rounded,
};
use crate::text::{blank, chars_of, is_blank, strip, stripped, text_of, CharClass};
use crate::tiles::{clamped, lemma_factor_keeps_apart};

verus! {

/// The size of a number, as an unsigned one.
pub open spec fn magnitude(n: i32) -> u32 {
    (if n < 0 { -n } else { n as int }) as u32
}

/// The hash of instance `n` under a seed.
pub open spec fn instance_hash(seed: u32, n: i32) -> u32 {
    let a = seed.wrapping_add(magnitude(n)).wrapping_mul(2246822519).wrapping_add(1013904223);
    let b = a ^ (a >> 16u32);
    let c = b.wrapping_mul(0x45d9f3b);
    c ^ (c >> 16u32)
}

/// Hashes instance `n` under a seed.
pub fn inst_hash(seed: u32, n: i32) -> (r: u32)
    ensures
        r == instance_hash(seed, n),
{
    let size: u32 = if n < 0 {
        (-(n as i64)) as u32
    } else {
        n as u32
    };
    let a: u32 = seed.wrapping_add(size).wrapping_mul(2246822519).wrapping_add(1013904223);
    let b: u32 = a ^ (a >> 16u32);
    let c: u32 = b.wrapping_mul(0x45d9f3b);
    c ^ (c >> 16u32)
}

/// The numerator of an instance's fraction between zero and one, over 0xff_ffff.
pub fn inst_fraction(seed: u32, n: i32) -> (r: u32)
    ensures
        r == instance_hash(seed, n) >> 8u32,
        r <= 0xff_ffff,
{
    let h: u32 = inst_hash(seed, n);
    assert(h >> 8u32 <= 0xff_ffff) by (bit_vector);
    h >> 8u32
}

/// The index that seeds instance `n`. Under the seamless lock, instances a whole loop
/// apart share it; the loop holds `slots` instances, at least one.
pub open spec fn seed_index(seamless_lock: bool, slots: int, n: int) -> int {
    if seamless_lock {
        n % (if slots < 1 { 1 } else { slots })
    } else {
        n
    }
}

/// The index that seeds instance `n`.
pub fn loop_seed_index(seamless_lock: bool, slots: i32, n: i32) -> (r: i32)
    ensures
        r == seed_index(seamless_lock, slots as int, n as int),
{
    if !seamless_lock {
        return n;
    }
    let count: i64 = if slots < 1 {
        1
    } else {
        slots as i64
    };
    euclidean_rest(n as i64, count) as i32
}

/// The remainder that is never negative.
fn euclidean_rest(n: i64, m: i64) -> (r: i64)
    requires
        0 < m <= 0x7fff_ffff,
        -0x8000_0000 <= n <= 0x7fff_ffff,
    ensures
        r == n as int % m as int,
        0 <= r < m,
{
    if n >= 0 {
        n % m
    } else {
        let k: i64 = (-(n + 1)) / m + 1;
        proof {
            vstd::arithmetic::div_mod::lemma_fundamental_div_mod(-(n + 1), m as int);
            let q = (-(n + 1)) as int / m as int;
            let t = (-(n + 1)) as int % m as int;
            assert(k == q + 1);
            assert(k * m == m * q + m) by (nonlinear_arith)
                requires
                    k == q + 1,
            ;
            assert(n + k * m == m - 1 - t);
            vstd::arithmetic::div_mod::lemma_mod_multiples_vanish(k as int, n as int, m as int);
            assert(m * k == k * m) by (nonlinear_arith);
            vstd::arithmetic::div_mod::lemma_small_mod((m - 1 - t) as nat, m as nat);
        }
        n + k * m
    }
}

/// Under the seamless lock, instances that are a whole number of loops apart have the
/// same seed index, and so the same hash under every seed.
pub proof fn law_loop_wrapped_instances_match(slots: int, n: int, loops: int, seed: u32)
    requires
        slots >= 1,
    ensures
        seed_index(true, slots, n + loops * slots) == seed_index(true, slots, n),
        instance_hash(seed, seed_index(true, slots, n + loops * slots) as i32) == instance_hash(
            seed,
            seed_index(true, slots, n) as i32,
        ),
        0 <= seed_index(true, slots, n) < slots,
{
    vstd::arithmetic::div_mod::lemma_mod_multiples_vanish(loops, n, slots);
    assert(loops * slots == slots * loops) by (nonlinear_arith);
    vstd::arithmetic::div_mod::lemma_mod_bound(n, slots);
}

/// Without the lock, every instance is seeded by its own index.
pub proof fn law_unlocked_instances_keep_their_index(slots: int, n: int)
    ensures
        seed_index(false, slots, n) == n,
{
}

/// The pieces of a text between its separators.
pub open spec fn pieces(s: Seq<char>) -> Seq<Seq<char>>
    decreases s.len(),
{
    if s.len() == 0 {
        seq![Seq::empty()]
    } else {
        let before = pieces(s.drop_last());
        if CharClass::Separator.holds(s.last()) {
            before.push(Seq::empty())
        } else {
            before.drop_last().push(before.last().push(s.last()))
        }
    }
}

/// The pieces that are not blank, without the white space around them.
pub open spec fn entries_of(parts: Seq<Seq<char>>) -> Seq<Seq<char>>
    decreases parts.len(),
{
    if parts.len() == 0 {
        Seq::empty()
    } else {
        let before = entries_of(parts.drop_last());
        let entry = strip(parts.last(), CharClass::White);
        if entry.len() == 0 {
            before
        } else {
            before.push(entry)
        }
    }
}

/// The entries of a pool: separated by semicolons or line breaks, blank ones left out.
pub open spec fn pool_entries(s: Seq<char>) -> Seq<Seq<char>> {
    entries_of(pieces(s))
}

/// The texts of some character sequences.
pub open spec fn texts(v: Seq<Vec<char>>) -> Seq<Seq<char>> {
    v.map_values(|x: Vec<char>| x@)
}

proof fn lemma_pieces_nonempty(s: Seq<char>)
    ensures
        pieces(s).len() >= 1,
    decreases s.len(),
{
    if s.len() > 0 {
        lemma_pieces_nonempty(s.drop_last());
    }
}

fn push_entry(entries: &mut Vec<Vec<char>>, piece: &Vec<char>, Ghost(done): Ghost<Seq<Seq<char>>>)
    requires
        texts(old(entries)@) == entries_of(done),
    ensures
        texts(final(entries)@) == entries_of(done.push(piece@)),
{
    let entry: Vec<char> = stripped(piece, CharClass::White);
    assert(done.push(piece@).drop_last() == done);
    if entry.len() > 0 {
        let ghost before = entries@;
        entries.push(entry);
        assert(texts(entries@) == texts(before).push(entry@));
    }
}

/// The entries of a pool.
pub fn split_pool(pool: &str) -> (r: Vec<Vec<char>>)
    ensures
        texts(r@) == pool_entries(pool@),
{
    let chars: Vec<char> = chars_of(pool);
    let mut entries: Vec<Vec<char>> = Vec::new();
    let mut piece: Vec<char> = Vec::new();
    let ghost mut done: Seq<Seq<char>> = Seq::empty();
    let mut i: usize = 0;
    proof {
        assert(chars@.take(0) == Seq::<char>::empty());
        assert(pieces(chars@.take(0)) == done.push(piece@));
        assert(texts(entries@) == entries_of(done));
    }
    while i < chars.len()
        invariant
            i <= chars@.len(),
            chars@ == pool@,
            pieces(chars@.take(i as int)) == done.push(piece@),
            texts(entries@) == entries_of(done),
        decreases chars.len() - i,
    {
        let c: char = chars[i];
        proof {
            let now = chars@.take(i + 1);
            assert(now.drop_last() == chars@.take(i as int));
            assert(now.last() == c);
            assert(done.push(piece@).drop_last() == done);
            assert(done.push(piece@).last() == piece@);
        }
        if CharClass::Separator.contains(c) {
            push_entry(&mut entries, &piece, Ghost(done));
            proof {
                done = done.push(piece@);
            }
            piece = Vec::new();
            assert(pieces(chars@.take(i + 1)) == done.push(piece@));
        } else {
            piece.push(c);
        }
        i = i + 1;
    }
    assert(chars@.take(chars@.len() as int) == chars@);
    push_entry(&mut entries, &piece, Ghost(done));
    entries
}

/// The sprite of an instance: from the pool, if that is enabled and has an entry, by the
/// hash of the instance; else the single path, if that is not blank.
pub open spec fn sprite_choice(single: Seq<char>, pool: Seq<char>, pool_enabled: bool, seed: u32, key: i32) -> Option<
    Seq<char>,
> {
    let entries = pool_entries(pool);
    if pool_enabled && entries.len() > 0 {
        Some(entries[instance_hash(seed ^ 0x9e37_79b9, key) as int % entries.len() as int])
    } else if is_blank(single) {
        None
    } else {
        Some(strip(single, CharClass::White))
    }
}

/// Chooses the sprite of an instance.
pub fn pick_sprite_path(single_path: &str, pool_paths: &str, pool_enabled: bool, seed: u32, key: i32) -> (r: Option<
    String,
>)
    ensures
        r is Some <==> sprite_choice(single_path@, pool_paths@, pool_enabled, seed, key) is Some,
        r matches Some(p) ==> sprite_choice(single_path@, pool_paths@, pool_enabled, seed, key) == Some(p@),
{
    if pool_enabled {
        let entries: Vec<Vec<char>> = split_pool(pool_paths);
        if entries.len() > 0 {
            let at: usize = (inst_hash(seed ^ 0x9e37_79b9, key) as usize) % entries.len();
            assert(texts(entries@)[at as int] == entries@[at as int]@);
            return Some(text_of(&entries[at]));
        }
    }
    if blank(single_path) {
        None
    } else {
        Some(text_of(&stripped(&chars_of(single_path), CharClass::White)))
    }
}

/// A chosen sprite is never blank, and one chosen from the pool is an entry of it.
pub proof fn law_chosen_sprite_is_usable(single: Seq<char>, pool: Seq<char>, pool_enabled: bool, seed: u32, key: i32)
    ensures
        sprite_choice(single, pool, pool_enabled, seed, key) matches Some(p) ==> p.len() > 0 && (
        pool_enabled && pool_entries(pool).len() > 0 ==> pool_entries(pool).contains(p)),
{
    let entries = pool_entries(pool);
    lemma_entries_nonempty(pieces(pool));
    if pool_enabled && entries.len() > 0 {
        vstd::arithmetic::div_mod::lemma_mod_bound(
            instance_hash(seed ^ 0x9e37_79b9, key) as int,
            entries.len() as int,
        );
    } else {
        crate::text::law_blank_is_empty_when_stripped(single);
    }
}

pub proof fn lemma_entries_nonempty(parts: Seq<Seq<char>>)
    ensures
        forall|i: int| 0 <= i < entries_of(parts).len() ==> (#[trigger] entries_of(parts)[i]).len() > 0,
    decreases parts.len(),
{
    if parts.len() > 0 {
        lemma_entries_nonempty(parts.drop_last());
        let before = entries_of(parts.drop_last());
        assert forall|i: int| 0 <= i < entries_of(parts).len() implies (#[trigger] entries_of(parts)[i]).len() > 0 by {
            if i < before.len() {
                assert(before[i].len() > 0);
            }
        }
    }
}

/// The sides of the path that an object stands on: the direction and the number that
/// tells the sides apart in hashes.
pub open spec fn sides(side: MountSide) -> Seq<(i8, u32)> {
    match side {
        MountSide::Both => seq![(-1i8, 0u32), (1i8, 1u32)],
        MountSide::Left => seq![(-1i8, 0u32)],
        MountSide::Right => seq![(1i8, 1u32)],
        MountSide::Center => seq![(0i8, 2u32)],
    }
}

/// The sides of the path that an object stands on.
pub fn side_list(side: MountSide) -> (r: &'static [(i8, u32)])
    ensures
        r@ == sides(side),
{
    match side {
        MountSide::Both => &[(-1, 0), (1, 1)],
        MountSide::Left => &[(-1, 0)],
        MountSide::Right => &[(1, 1)],
        MountSide::Center => &[(0, 2)],
    }
}

/// The number of the shape of a tree's shadow.
pub open spec fn shadow_mode(t: PropType) -> int {
    if t == PropType::Tree {
        1
    } else if t == PropType::PineTree {
        2
    } else if t == PropType::DeadTree {
        3
    } else {
        0
    }
}

/// The shape of a tree's shadow: one each for trees, pines and dead trees, none for others.
pub fn tree_shadow_mode(t: PropType) -> (r: u8)
    ensures
        r == shadow_mode(t),
        r == (match t {
            PropType::Tree => 1,
            PropType::PineTree => 2,
            PropType::DeadTree => 3,
            _ => 0int,
        }),
{
    match t {
        PropType::Tree => 1,
        PropType::PineTree => 2,
        PropType::DeadTree => 3,
        _ => 0,
    }
}

/// Whether a prop is one of the trees.
pub open spec fn is_tree(t: PropType) -> bool {
    t == PropType::Tree || t == PropType::PineTree || t == PropType::DeadTree
}

/// The silhouette of an instance.
pub open spec fn drawn_type(t: PropType, mixing: bool, mixed: bool, pine: bool) -> PropType {
    if !is_tree(t) || !mixing {
        t
    } else if !mixed {
        PropType::Tree
    } else if pine {
        PropType::PineTree
    } else {
        PropType::DeadTree
    }
}

/// The silhouette of an instance. A tree whose style is mixed shows another tree where
/// `mixed` says so, a pine where `pine` does; otherwise the broad tree.
pub fn draw_type(t: PropType, mixing: bool, mixed: bool, pine: bool) -> (r: PropType)
    ensures
        r == drawn_type(t, mixing, mixed, pine),
        r == (if is_tree(t) && mixing {
            if mixed {
                if pine {
                    PropType::PineTree
                } else {
                    PropType::DeadTree
                }
            } else {
                PropType::Tree
            }
        } else {
            t
        }),
        is_tree(r) == is_tree(t),
{
    match t {
        PropType::Tree | PropType::PineTree | PropType::DeadTree => {
            if !mixing {
                t
            } else if !mixed {
                PropType::Tree
            } else if pine {
                PropType::PineTree
            } else {
                PropType::DeadTree
            }
        },
        _ => t,
    }
}

/// The number of rows that a prop is planted in: from one to 64.
pub fn row_count(rows: u32) -> (r: usize)
    ensures
        r == clamped(rows as int, 1, 64),
{
    if rows < 1 {
        1
    } else if rows > 64 {
        64
    } else {
        rows as usize
    }
}

/// The key of an instance's sprite.
pub open spec fn sprite_key_of(n_seed: i32, row: i32, right: bool) -> i32 {
    n_seed.wrapping_mul(131).wrapping_add((row * 31) as i32).wrapping_add(if right { 17 } else { 3 })
}

/// The key of an instance's sprite.
pub fn sprite_key(n_seed: i32, row: usize, right: bool) -> (r: i32)
    requires
        row < 64,
    ensures
        r == sprite_key_of(n_seed, row as i32, right),
{
    n_seed.wrapping_mul(131).wrapping_add(row as i32 * 31).wrapping_add(if right {
        17
    } else {
        3
    })
}

/// A channel moved by `shift` times `factor`, in single precision. The factor counts in
/// units of two to the power minus 25.
pub open spec fn varied_channel(c: u8, shift: int, factor: nat) -> u8 {
    let moved = rounded_signed(shift * factor);
    let sum = c * 0x200_0000 + moved;
    if sum < 0 {
        0
    } else {
        clamped((rounded(sum as nat) / 0x200_0000) as int, 0, 255) as u8
    }
}

/// The colour of an instance: brighter or darker by up to 16 steps, most in green.
pub open spec fn varied_tint(tint: [u8; 3], hash: u32) -> [u8; 3] {
    let shift = (hash & 0x1f) - 16;
    [
        varied_channel(tint[0], shift, 16777216),
        varied_channel(tint[1], shift, 26843546),
        varied_channel(tint[2], shift, 13421773),
    ]
}

fn vary_channel(c: u8, shift: i32, factor: u32) -> (r: u8)
    requires
        -16 <= shift <= 15,
        factor <= 26843546,
    ensures
        r == varied_channel(c, shift as int, factor as nat),
{
    let size: u128 = if shift < 0 {
        (-shift) as u128
    } else {
        shift as u128
    };
    assert(size * factor <= 16 * 26843546) by (nonlinear_arith)
        requires
            size <= 16,
            factor <= 26843546,
    ;
    let moved: u128 = round_to_significand(size * (factor as u128));
    let whole: u128 = (c as u128) * 0x200_0000;
    proof {
        assert((-(shift as int)) * factor == -(shift * factor)) by (nonlinear_arith);
        assert(shift < 0 ==> shift * factor <= 0) by (nonlinear_arith)
            requires
                factor >= 0,
        ;
        assert(shift >= 0 ==> shift * factor >= 0) by (nonlinear_arith)
            requires
                factor >= 0,
        ;
        if shift < 0 && shift * factor == 0 {
            assert(size * factor == 0);
        }
    }
    if shift < 0 {
        if whole < moved {
            return 0;
        }
        let v: u128 = round_to_significand(whole - moved) / 0x200_0000;
        if v > 255 {
            255
        } else {
            v as u8
        }
    } else {
        let v: u128 = round_to_significand(whole + moved) / 0x200_0000;
        if v > 255 {
            255
        } else {
            v as u8
        }
    }
}

/// The colour of an instance, from the hash of the instance.
pub fn instance_tint(tint: [u8; 3], hash: u32) -> (r: [u8; 3])
    ensures
        r == varied_tint(tint, hash),
{
    let low: u32 = hash & 0x1f;
    assert(hash & 0x1f <= 31) by (bit_vector);
    let shift: i32 = low as i32 - 16;
    [vary_channel(tint[0], shift, 16777216), vary_channel(tint[1], shift, 26843546), vary_channel(
        tint[2],
        shift,
        13421773,
    )]
}

/// The bits of the lattice noise at a whole point: the fraction over 0xff_ffff.
pub open spec fn noise_bits(seed: u32, x: i32, y: i32) -> u32 {
    let mix = seed ^ (x as u32).wrapping_mul(374761393) ^ (y as u32).wrapping_mul(668265263);
    instance_hash(mix, x.wrapping_mul(31) ^ y.wrapping_mul(17)) & 0xff_ffff
}

/// The lattice noise at a whole point, as the numerator of a fraction over 0xff_ffff.
pub fn hash_noise(seed: u32, x: i32, y: i32) -> (r: u32)
    ensures
        r == noise_bits(seed, x, y),
        r <= 0xff_ffff,
{
    let mix: u32 = seed ^ (x as u32).wrapping_mul(374761393) ^ (y as u32).wrapping_mul(668265263);
    let h: u32 = inst_hash(mix, x.wrapping_mul(31) ^ y.wrapping_mul(17));
    assert(h & 0xff_ffff <= 0xff_ffff) by (bit_vector);
    h & 0xff_ffff
}

/// The bits of the film grain at a pixel of a frame.
pub open spec fn grain_bits(x: u32, y: u32, frame_seed: u32) -> u32 {
    let h = x.wrapping_mul(2246822519).wrapping_add(y.wrapping_mul(2654435761)).wrapping_add(
        frame_seed.wrapping_mul(1013904223),
    );
    (h ^ (h >> 16u32)) & 0xffff
}

/// The film grain at a pixel of a frame, from 0 to 0xffff.
pub fn grain_noise(x: u32, y: u32, frame_seed: u32) -> (r: u32)
    ensures
        r == grain_bits(x, y, frame_seed),
        r <= 0xffff,
{
    let h: u32 = x.wrapping_mul(2246822519).wrapping_add(y.wrapping_mul(2654435761)).wrapping_add(
        frame_seed.wrapping_mul(1013904223),
    );
    let m: u32 = h ^ (h >> 16u32);
    assert(m & 0xffff <= 0xffff) by (bit_vector);
    m & 0xffff
}

/// How often a star twinkles in a loop.
pub open spec fn cycles_of_star(stars_seed: u32, i: i32) -> int {
    1 + instance_hash(3001u32.wrapping_add(stars_seed), i) % 9
}

/// How often star `i` twinkles in a loop under the seamless lock: a whole number from one to
/// nine, so that the loop closes.
pub fn star_cycles(stars_seed: u32, i: i32) -> (r: u32)
    ensures
        r == cycles_of_star(stars_seed, i),
        r == 1 + instance_hash(3001u32.wrapping_add(stars_seed), i) % 9,
        1 <= r <= 9,
{
    1 + inst_hash(3001u32.wrapping_add(stars_seed), i) % 9
}

/// The seed of the motes of a layer.
pub open spec fn seed_of_motes(layer: u32, variation_seed: u32) -> u32 {
    77u32.wrapping_add(layer.wrapping_mul(37)).wrapping_add(variation_seed.wrapping_mul(11))
}

/// The seed of the motes of layer `layer`.
pub fn mote_seed(layer: u32, variation_seed: u32) -> (r: u32)
    ensures
        r == seed_of_motes(layer, variation_seed),
        r == 77u32.wrapping_add(layer.wrapping_mul(37)).wrapping_add(variation_seed.wrapping_mul(11)),
{
    77u32.wrapping_add(layer.wrapping_mul(37)).wrapping_add(variation_seed.wrapping_mul(11))
}

/// The number of motes of a layer that are drawn: 25 at most.
pub fn mote_count(n_motes: u32) -> (r: usize)
    ensures
        r == clamped(n_motes as int, 0, 25),
{
    if n_motes > 25 {
        25
    } else {
        n_motes as usize
    }
}

/// The number of pieces of debris of a layer that are drawn: ten at most.
pub fn debris_count(n_debris: u32) -> (r: usize)
    ensures
        r == clamped(n_debris as int, 0, 10),
{
    if n_debris > 10 {
        10
    } else {
        n_debris as usize
    }
}

/// The sum of the directions of some sides.
pub open spec fn balance(list: Seq<(i8, u32)>) -> int
    decreases list.len(),
{
    if list.len() == 0 {
        0
    } else {
        balance(list.drop_last()) + list.last().0
    }
}

/// Both sides are the left one and the right one together. Left is the negative direction, right
/// its opposite, and the centre has none, so that both sides are in balance. No two sides have
/// the same number.
pub proof fn law_both_sides_are_left_and_right()
    ensures
        sides(MountSide::Both) == sides(MountSide::Left) + sides(MountSide::Right),
        sides(MountSide::Left).len() == 1,
        sides(MountSide::Right).len() == 1,
        sides(MountSide::Center).len() == 1,
        sides(MountSide::Left)[0].0 == -1,
        sides(MountSide::Right)[0].0 == -sides(MountSide::Left)[0].0,
        sides(MountSide::Center)[0].0 == 0,
        balance(sides(MountSide::Both)) == 0,
        sides(MountSide::Left)[0].1 != sides(MountSide::Right)[0].1,
        sides(MountSide::Left)[0].1 != sides(MountSide::Center)[0].1,
        sides(MountSide::Right)[0].1 != sides(MountSide::Center)[0].1,
{
    assert(sides(MountSide::Both) =~= sides(MountSide::Left) + sides(MountSide::Right));
    reveal_with_fuel(balance, 3);
    let both = sides(MountSide::Both);
    assert(both.drop_last() =~= sides(MountSide::Left));
    assert(sides(MountSide::Left).drop_last() =~= Seq::empty());
}

/// An object on one side stands there wherever the object on both sides does, and nowhere twice.
pub proof fn law_sides_of_an_object(side: MountSide, i: int, j: int)
    requires
        0 <= i < sides(side).len(),
        0 <= j < sides(side).len(),
    ensures
        sides(side)[i].0 == sides(side)[j].0 ==> i == j,
        sides(side)[i].0 < 0 <==> sides(side)[i] == sides(MountSide::Left)[0],
        sides(side)[i].0 > 0 <==> sides(side)[i] == sides(MountSide::Right)[0],
        side == MountSide::Center ==> sides(side)[i].0 == 0,
        side != MountSide::Center ==> sides(side)[i].0 != 0,
{
}

proof fn lemma_pieces_join(a: Seq<char>, sep: char, b: Seq<char>)
    requires
        CharClass::Separator.holds(sep),
    ensures
        pieces(a.push(sep) + b) == pieces(a) + pieces(b),
    decreases b.len(),
{
    let s = a.push(sep) + b;
    if b.len() == 0 {
        assert(s =~= a.push(sep));
        assert(s.drop_last() =~= a);
        assert(pieces(s) =~= pieces(a) + pieces(b));
    } else {
        lemma_pieces_join(a, sep, b.drop_last());
        lemma_pieces_nonempty(b.drop_last());
        assert(s.drop_last() =~= a.push(sep) + b.drop_last());
        assert(s.last() == b.last());
        let p = pieces(a);
        let q = pieces(b.drop_last());
        assert((p + q).last() == q.last());
        assert((p + q).drop_last() =~= p + q.drop_last());
        assert(pieces(s) =~= p + pieces(b));
    }
}

proof fn lemma_entries_join(p: Seq<Seq<char>>, q: Seq<Seq<char>>)
    ensures
        entries_of(p + q) == entries_of(p) + entries_of(q),
    decreases q.len(),
{
    if q.len() == 0 {
        assert(p + q =~= p);
    } else {
        assert((p + q).drop_last() =~= p + q.drop_last());
        assert((p + q).last() == q.last());
        lemma_entries_join(p, q.drop_last());
        assert(entries_of(p + q) =~= entries_of(p) + entries_of(q));
    }
}

proof fn lemma_one_piece(s: Seq<char>)
    requires
        forall|i: int| 0 <= i < s.len() ==> !CharClass::Separator.holds(#[trigger] s[i]),
    ensures
        pieces(s) == seq![s],
    decreases s.len(),
{
    if s.len() == 0 {
        assert(s =~= Seq::<char>::empty());
    } else {
        let t = s.drop_last();
        assert forall|i: int| 0 <= i < t.len() implies !CharClass::Separator.holds(#[trigger] t[i]) by {
            assert(t[i] == s[i]);
        }
        lemma_one_piece(t);
        assert(t.push(s.last()) =~= s);
        assert(s.last() == s[s.len() - 1]);
        assert(pieces(s) =~= seq![s]);
    }
}

/// Two pools with a semicolon or the end of a line between them have the entries of the first
/// and then those of the second.
pub proof fn law_pools_are_joined(a: Seq<char>, sep: char, b: Seq<char>)
    requires
        sep == ';' || sep == '\n' || sep == '\r',
    ensures
        pool_entries(a.push(sep) + b) == pool_entries(a) + pool_entries(b),
{
    lemma_pieces_join(a, sep, b);
    lemma_entries_join(pieces(a), pieces(b));
}

/// A text without separators is one entry of a pool, without the white space around it, or none
/// if that is all it holds.
pub proof fn law_an_entry_of_a_pool(s: Seq<char>)
    requires
        forall|i: int| 0 <= i < s.len() ==> #[trigger] s[i] != ';' && s[i] != '\n' && s[i] != '\r',
    ensures
        is_blank(s) ==> pool_entries(s) == Seq::<Seq<char>>::empty(),
        !is_blank(s) ==> pool_entries(s) == seq![strip(s, CharClass::White)],
{
    lemma_one_piece(s);
    crate::text::law_blank_is_empty_when_stripped(s);
    reveal_with_fuel(entries_of, 2);
    assert(seq![s].drop_last() =~= Seq::<Seq<char>>::empty());
    assert(seq![s].last() == s);
    assert(pool_entries(s) =~= if is_blank(s) {
        Seq::<Seq<char>>::empty()
    } else {
        seq![strip(s, CharClass::White)]
    });
}

/// A sprite comes from the pool wherever it is enabled and holds one, whatever the path of its
/// own; else it is the path of its own, whatever the pool and the instance.
pub proof fn law_pool_before_single(
    single: Seq<char>,
    other: Seq<char>,
    pool: Seq<char>,
    unused: Seq<char>,
    seed: u32,
    key: i32,
    other_seed: u32,
    other_key: i32,
)
    ensures
        pool_entries(pool).len() > 0 ==> {
            &&& sprite_choice(single, pool, true, seed, key) is Some
            &&& sprite_choice(single, pool, true, seed, key) == sprite_choice(other, pool, true, seed, key)
        },
        pool_entries(pool).len() == 0 ==> sprite_choice(single, pool, true, seed, key) == sprite_choice(
            single,
            unused,
            false,
            other_seed,
            other_key,
        ),
        sprite_choice(single, pool, false, seed, key) == sprite_choice(single, unused, false, other_seed, other_key),
        sprite_choice(single, pool, false, seed, key) is None <==> is_blank(single),
        sprite_choice(single, pool, false, seed, key) matches Some(p) ==> p == strip(single, CharClass::White),
{
}

/// The instances of one place have a sprite key each: no two rows and sides share one.
#[verifier::rlimit(50)]
pub proof fn law_sprite_keys_differ(n_seed: i32, row: i32, right: bool, other: i32, other_right: bool)
    requires
        0 <= row < 64,
        0 <= other < 64,
    ensures
        sprite_key_of(n_seed, row, right) == sprite_key_of(n_seed, other, other_right) <==> row == other && right
            == other_right,
{
}

proof fn lemma_signed_rounding_is_monotone(a: int, b: int)
    requires
        a <= b,
    ensures
        rounded_signed(a) <= rounded_signed(b),
{
    if a >= 0 {
        law_rounding_is_monotone(a as nat, b as nat);
    } else if b < 0 {
        law_rounding_is_monotone((-b) as nat, (-a) as nat);
    }
}

proof fn lemma_channel_is_kept(c: u8)
    ensures
        varied_channel(c, 0, 0) == c,
        rounded((c * 0x200_0000) as nat) == c * 0x200_0000,
{
    assert(power_of_two(25) == 0x200_0000) by {
        reveal_with_fuel(power_of_two, 26);
    }
    law_small_numbers_are_exact(0);
    lemma_exact_in_units(c as nat, 25);
}

/// A shift of zero leaves a channel as it is; a higher shift never makes it darker, a negative
/// one never brighter, and a brighter channel stays the brighter one.
pub proof fn law_shift_of_a_channel(c: u8, brighter: u8, shift: int, higher: int, factor: nat)
    requires
        c <= brighter,
        shift <= higher,
    ensures
        varied_channel(c, 0, factor) == c,
        varied_channel(c, shift, factor) <= varied_channel(c, higher, factor),
        shift >= 0 ==> varied_channel(c, shift, factor) >= c,
        shift <= 0 ==> varied_channel(c, shift, factor) <= c,
        varied_channel(c, shift, factor) <= varied_channel(brighter, shift, factor),
{
    assert(0 * factor == 0);
    lemma_channel_is_kept(c);
    assert(shift * factor <= higher * factor) by (nonlinear_arith)
        requires
            shift <= higher,
    ;
    lemma_varied_by_product(c, c, shift * factor, higher * factor);
    lemma_varied_by_product(c, brighter, shift * factor, shift * factor);
    if shift >= 0 {
        assert(shift * factor >= 0) by (nonlinear_arith)
            requires
                shift >= 0,
        ;
        lemma_varied_by_product(c, c, 0, shift * factor);
    }
    if shift <= 0 {
        assert(shift * factor <= 0) by (nonlinear_arith)
            requires
                shift <= 0,
        ;
        lemma_varied_by_product(c, c, shift * factor, 0);
    }
}

spec fn moved_channel(c: u8, product: int) -> u8 {
    let sum = c * 0x200_0000 + rounded_signed(product);
    if sum < 0 {
        0
    } else {
        clamped((rounded(sum as nat) / 0x200_0000) as int, 0, 255) as u8
    }
}

proof fn lemma_varied_by_product(c: u8, brighter: u8, low: int, high: int)
    requires
        c <= brighter,
        low <= high,
    ensures
        moved_channel(c, low) <= moved_channel(brighter, high),
{
    lemma_signed_rounding_is_monotone(low, high);
    let a = c * 0x200_0000 + rounded_signed(low);
    let b = brighter * 0x200_0000 + rounded_signed(high);
    assert(a <= b);
    if a >= 0 {
        law_rounding_is_monotone(a as nat, b as nat);
    }
}

/// The colour of an instance keeps to its tint at the middle of the sixteen steps on either
/// side, and moves its green most and its blue least.
pub proof fn law_tints_vary_around_their_colour(tint: [u8; 3], c: u8, hash: u32)
    ensures
        hash & 0x1f == 16 ==> varied_tint(tint, hash) == tint,
        hash & 0x1f >= 16 ==> varied_tint([c, c, c], hash)[2] <= varied_tint([c, c, c], hash)[0] <= varied_tint(
            [c, c, c],
            hash,
        )[1],
        hash & 0x1f <= 16 ==> varied_tint([c, c, c], hash)[2] >= varied_tint([c, c, c], hash)[0] >= varied_tint(
            [c, c, c],
            hash,
        )[1],
{
    let shift = (hash & 0x1f) - 16;
    if shift == 0 {
        law_shift_of_a_channel(tint[0], tint[0], 0, 0, 16777216);
        law_shift_of_a_channel(tint[1], tint[1], 0, 0, 26843546);
        law_shift_of_a_channel(tint[2], tint[2], 0, 0, 13421773);
        assert(varied_tint(tint, hash)@ =~= tint@);
        assert(varied_tint(tint, hash) =~= tint);
    }
    if shift >= 0 {
        lemma_varied_by_product(c, c, shift * 13421773, shift * 16777216);
        lemma_varied_by_product(c, c, shift * 16777216, shift * 26843546);
    }
    if shift <= 0 {
        lemma_varied_by_product(c, c, shift * 16777216, shift * 13421773);
        lemma_varied_by_product(c, c, shift * 26843546, shift * 16777216);
    }
}

/// The red of an instance moves by half its shift.
pub proof fn law_red_moves_by_half(tint: [u8; 3], hash: u32)
    ensures
        hash & 0x1f < 32 && ((hash & 0x1f) - 16) % 2 == 0 ==> varied_tint(tint, hash)[0] == clamped(
            tint[0] + ((hash & 0x1f) - 16) / 2,
            0,
            255,
        ),
{
    let shift = (hash & 0x1f) - 16;
    if hash & 0x1f < 32 && shift % 2 == 0 {
        let half = shift / 2;
        assert(shift * 16777216 == half * 0x200_0000);
        let size: nat = if half < 0 { (-half) as nat } else { half as nat };
        assert(power_of_two(25) == 0x200_0000) by {
            reveal_with_fuel(power_of_two, 26);
        }
        lemma_exact_in_units(size, 25);
        let sum = tint[0] + half;
        if sum >= 0 {
            lemma_exact_in_units(sum as nat, 25);
        }
    }
}

/// The hash of an instance depends on the sum of its seed and its distance from the first alone:
/// instances on either side share theirs, an instance has that of the first under a later seed, and
/// different sums have different hashes.
#[verifier::rlimit(50)]
pub proof fn law_hash_of_an_instance(seed: u32, other: u32, n: i32, m: i32)
    ensures
        n > i32::MIN ==> instance_hash(seed, (-n) as i32) == instance_hash(seed, n),
        instance_hash(seed, n) == instance_hash(seed.wrapping_add(magnitude(n)), 0),
        instance_hash(seed, n) == instance_hash(other, m) <==> seed.wrapping_add(magnitude(n)) == other.wrapping_add(
            magnitude(m),
        ),
        n >= 0 ==> magnitude(n) == n,
{
    let p = seed.wrapping_add(magnitude(n));
    let q = other.wrapping_add(magnitude(m));
    if instance_hash(seed, n) == instance_hash(other, m) {
        let s = p.wrapping_mul(2246822519);
        let a = s.wrapping_add(1013904223);
        let b = a ^ (a >> 16u32);
        let c = b.wrapping_mul(0x45d9f3b);
        let t = q.wrapping_mul(2246822519);
        let d = t.wrapping_add(1013904223);
        let e = d ^ (d >> 16u32);
        let f = e.wrapping_mul(0x45d9f3b);
        assert(c ^ (c >> 16u32) == f ^ (f >> 16u32) ==> c == f) by (bit_vector);
        lemma_factor_keeps_apart(b, e, 0x45d9f3b, 295559667, 5040344);
        assert(a ^ (a >> 16u32) == d ^ (d >> 16u32) ==> a == d) by (bit_vector);
        assert(s == t);
        lemma_factor_keeps_apart(p, q, 2246822519, 3066638151, 1604247758);
    }
}

/// The sprite of an instance of a pool follows its hash: instances on either side share it, and an
/// instance has that of the first under a later seed.
#[verifier::rlimit(50)]
pub proof fn law_pool_follows_the_hash(single: Seq<char>, pool: Seq<char>, seed: u32, key: i32)
    ensures
        key > i32::MIN ==> sprite_choice(single, pool, true, seed, (-key) as i32) == sprite_choice(
            single,
            pool,
            true,
            seed,
            key,
        ),
        sprite_choice(single, pool, true, seed, key) == sprite_choice(
            single,
            pool,
            true,
            (seed ^ 0x9e37_79b9).wrapping_add(magnitude(key)) ^ 0x9e37_79b9,
            0,
        ),
{
    let moved = (seed ^ 0x9e37_79b9).wrapping_add(magnitude(key));
    assert((moved ^ 0x9e37_79b9u32) ^ 0x9e37_79b9u32 == moved) by (bit_vector);
    if key > i32::MIN {
        law_hash_of_an_instance(seed ^ 0x9e37_79b9, seed, key, 0);
    }
    law_hash_of_an_instance(seed ^ 0x9e37_79b9, seed, key, 0);
}

/// The keys of an instance's sprite are 14 apart from side to side and 31 from row to row, whatever
/// the instance.
#[verifier::rlimit(50)]
pub proof fn law_sprite_keys_step(n_seed: i32, row: i32, right: bool)
    requires
        0 <= row < 63,
    ensures
        (sprite_key_of(n_seed, row, true) - sprite_key_of(n_seed, row, false) - 14) % 0x1_0000_0000 == 0,
        (sprite_key_of(n_seed, (row + 1) as i32, right) - sprite_key_of(n_seed, row, right) - 31) % 0x1_0000_0000 == 0,
{
}

/// A channel moves by its shift times its factor: the result is the whole part of the sum, but for
/// what single precision leaves out, as long as it meets no limit.
#[verifier::rlimit(50)]
pub proof fn law_channels_move_in_proportion(c: u8, shift: int, factor: nat)
    requires
        -16 <= shift <= 16,
        factor <= 0x200_0000,
        0 < varied_channel(c, shift, factor) < 255,
    ensures
        varied_channel(c, shift, factor) * 0x200_0000 <= c * 0x200_0000 + shift * factor + 0x1000,
        c * 0x200_0000 + shift * factor < (varied_channel(c, shift, factor) + 1) * 0x200_0000 + 0x1000,
{
    let product = shift * factor;
    assert(-16 * 0x200_0000 <= product <= 16 * 0x200_0000) by (nonlinear_arith)
        requires
            -16 <= shift <= 16,
            0 <= factor <= 0x200_0000,
            product == shift * factor,
    ;
    let m: nat = if product < 0 { (-product) as nat } else { product as nat };
    law_rounding_error(m);
    lemma_spacing_relative(m);
    let sum = c * 0x200_0000 + rounded_signed(product);
    if sum >= 0 {
        law_rounding_error(sum as nat);
        lemma_spacing_relative(sum as nat);
    }
}

/// The green of an instance moves by four fifths of its shift and the blue by two fifths, to a
/// whole number below by one at most.
#[verifier::rlimit(50)]
pub proof fn law_green_and_blue_move_in_proportion(tint: [u8; 3], hash: u32)
    ensures
        ({
            let shift = (hash & 0x1f) - 16;
            let varied = varied_tint(tint, hash);
            &&& 0 < varied[1] < 255 ==> 5 * varied[1] <= 5 * tint[1] + 4 * shift <= 5 * varied[1] + 5
            &&& 0 < varied[2] < 255 ==> 5 * varied[2] <= 5 * tint[2] + 2 * shift <= 5 * varied[2] + 5
        }),
{
    let shift = (hash & 0x1f) - 16;
    assert(hash & 0x1f <= 0x1f) by (bit_vector);
    if 0 < varied_channel(tint[1], shift, 26843546) < 255 {
        law_channels_move_in_proportion(tint[1], shift, 26843546);
    }
    if 0 < varied_channel(tint[2], shift, 13421773) < 255 {
        law_channels_move_in_proportion(tint[2], shift, 13421773);
    }
}

/// The keys of an instance's sprite are 131 apart from instance to instance.
#[verifier::rlimit(50)]
pub proof fn law_sprite_keys_step_by_instance(n_seed: i32, row: i32, right: bool)
    requires
        0 <= row < 64,
        n_seed < i32::MAX,
    ensures
        (sprite_key_of((n_seed + 1) as i32, row, right) - sprite_key_of(n_seed, row, right) - 131) % 0x1_0000_0000 == 0,
{
    let next = (n_seed + 1) as i32;
    let p = lemma_wrapped_product(n_seed, 131);
    let q = lemma_wrapped_product(next, 131);
    let a = lemma_wrapped_sum(n_seed.wrapping_mul(131), (row * 31) as i32);
    let b = lemma_wrapped_sum(next.wrapping_mul(131), (row * 31) as i32);
    let side: i32 = if right { 17 } else { 3 };
    let c = lemma_wrapped_sum(n_seed.wrapping_mul(131).wrapping_add((row * 31) as i32), side);
    let d = lemma_wrapped_sum(next.wrapping_mul(131).wrapping_add((row * 31) as i32), side);
    let turns = q + b + d - p - a - c;
    assert(sprite_key_of(next, row, right) - sprite_key_of(n_seed, row, right) - 131 == turns * 0x1_0000_0000);
}

proof fn lemma_wrapped_product(x: i32, factor: i32) -> (turns: int)
    ensures
        x.wrapping_mul(factor) == x * factor + turns * 0x1_0000_0000,
{
    let product = x * factor;
    let rest = product % 0x1_0000_0000;
    let whole = product / 0x1_0000_0000;
    if rest > i32::MAX {
        -whole - 1
    } else {
        -whole
    }
}

proof fn lemma_wrapped_sum(x: i32, y: i32) -> (turns: int)
    ensures
        x.wrapping_add(y) == x + y + turns * 0x1_0000_0000,
{
    if x + y > i32::MAX {
        -1
    } else if x + y < i32::MIN {
        1
    } else {
        0
    }
}

/// The lattice noise at a point is that of the origin under a seed of its own.
#[verifier::rlimit(50)]
pub proof fn law_noise_at_a_point(seed: u32, x: i32, y: i32)
    ensures
        noise_bits(seed, x, y) == noise_bits(
            (seed ^ (x as u32).wrapping_mul(374761393) ^ (y as u32).wrapping_mul(668265263)).wrapping_add(
                magnitude(x.wrapping_mul(31) ^ y.wrapping_mul(17)),
            ),
            0,
            0,
        ),
        noise_bits(seed, x, y) <= 0xff_ffff,
{
    let mix = seed ^ (x as u32).wrapping_mul(374761393) ^ (y as u32).wrapping_mul(668265263);
    let k = x.wrapping_mul(31) ^ y.wrapping_mul(17);
    law_hash_of_an_instance(mix, mix, k, 0);
    let m = mix.wrapping_add(magnitude(k));
    assert(m ^ 0u32 ^ 0u32 == m) by (bit_vector);
    assert(0i32 ^ 0i32 == 0i32) by (bit_vector);
    let h = instance_hash(m, 0);
    assert(h & 0xff_ffff <= 0xff_ffff) by (bit_vector);
}

/// Trees have a shadow shape each, and no other prop has one.
pub proof fn law_trees_have_a_shadow_shape(t: PropType, other: PropType)
    ensures
        shadow_mode(t) > 0 <==> is_tree(t),
        0 <= shadow_mode(t) <= 3,
        is_tree(t) && shadow_mode(t) == shadow_mode(other) ==> t == other,
        shadow_mode(PropType::Tree) < shadow_mode(PropType::PineTree) < shadow_mode(PropType::DeadTree),
{
}

/// A prop that is no tree, or whose style is not mixed, is drawn as what it is; mixed trees are drawn as
/// trees, as broad ones where nothing else was drawn, and as pines only where that was.
pub proof fn law_mixed_trees(t: PropType, other: PropType, mixing: bool, mixed: bool, pine: bool)
    ensures
        !mixing || !is_tree(t) ==> drawn_type(t, mixing, mixed, pine) == t,
        is_tree(drawn_type(t, mixing, mixed, pine)) == is_tree(t),
        mixing && is_tree(t) && is_tree(other) ==> drawn_type(t, mixing, mixed, pine) == drawn_type(
            other,
            mixing,
            mixed,
            pine,
        ),
        mixing && is_tree(t) ==> (drawn_type(t, mixing, mixed, pine) == PropType::Tree <==> !mixed),
        mixing && is_tree(t) ==> (drawn_type(t, mixing, mixed, pine) == PropType::PineTree <==> mixed && pine),
        is_tree(PropType::Tree) && is_tree(PropType::PineTree) && is_tree(PropType::DeadTree),
        is_tree(t) ==> t == PropType::Tree || t == PropType::PineTree || t == PropType::DeadTree,
{
}

/// A star twinkles a whole number of times in a loop, one to nine; it does so as the first star under a
/// later seed.
#[verifier::rlimit(50)]
pub proof fn law_stars_twinkle_in_whole_cycles(stars_seed: u32, i: i32)
    ensures
        1 <= cycles_of_star(stars_seed, i) <= 9,
        cycles_of_star(stars_seed, i) == cycles_of_star(stars_seed.wrapping_add(magnitude(i)), 0),
        (cycles_of_star(stars_seed, i) - 1 - instance_hash(3001u32.wrapping_add(stars_seed), i)) % 9 == 0,
{
    let seed = 3001u32.wrapping_add(stars_seed);
    law_hash_of_an_instance(seed, seed, i, 0);
    assert(seed.wrapping_add(magnitude(i)) == 3001u32.wrapping_add(stars_seed.wrapping_add(magnitude(i))));
    lemma_rest_of_nine(instance_hash(seed, i));
}

proof fn lemma_rest_of_nine(h: u32)
    ensures
        1 <= 1 + h % 9 <= 9,
        (1 + h % 9 - 1 - h) % 9 == 0,
{
}

/// The seeds of motes count the layers by 37 and the variations by 11, from 77 on.
#[verifier::rlimit(50)]
pub proof fn law_motes_have_their_own_seeds(layer: u32, variation_seed: u32)
    ensures
        (seed_of_motes(layer, variation_seed) - 77 - 37 * layer - 11 * variation_seed) % 0x1_0000_0000 == 0,
{
    let a = layer.wrapping_mul(37);
    let b = variation_seed.wrapping_mul(11);
    let p: int = layer * 37;
    let q: int = variation_seed * 11;
    assert(a == p % 0x1_0000_0000);
    assert(b == q % 0x1_0000_0000);
    let m = 77u32.wrapping_add(a);
    let x: int = if 77 + a > u32::MAX { 1 } else { 0 };
    let y: int = if m + b > u32::MAX { 1 } else { 0 };
    let turns = -(p / 0x1_0000_0000) - (q / 0x1_0000_0000) - x - y;
    assert(seed_of_motes(layer, variation_seed) - 77 - p - q == turns * 0x1_0000_0000);
}

} // verus!
