//! The scene: what dresses the map, what figures and bars look like, and which of them have
//! to be put up or taken down as the world changes.

use vstd::prelude::*;

use crate::game::entity::Projectile;
use crate::game::events::law_events_have_their_own_seeds;
use crate::game::world::event_seed;
use crate::procgen::grid::Cell;
use crate::procgen::tilemap::{
    cell_index, lemma_cell_index, lemma_index_cell, on_grid, Tile, TileMap,
};
use crate::rules::combat::Combatant;
use crate::rules::item::Rarity;
use crate::scalar::Scalar;
use crate::text::same_text;

verus! {

/// A color, each component in percent.
#[derive(Debug, Clone, Copy, PartialEq, Eq, Structural)]
pub struct Rgb {
    pub red: u32,
    pub green: u32,
    pub blue: u32,
}

/// The look of an enemy figure: its color, and its scale and torso width in percent.
#[derive(Debug, Clone, Copy, PartialEq, Eq, Structural)]
pub struct Shape {
    pub color: Rgb,
    pub scale: u32,
    pub width: u32,
}

/// The look of an archetype. Bigger and redder reads as tankier; unknown archetypes look
/// like the basic zombie.
pub open spec fn shape_of(id: Seq<char>) -> Shape {
    if id == "swarm_rusher"@ {
        Shape { color: Rgb { red: 80, green: 50, blue: 30 }, scale: 28, width: 85 }
    } else if id == "fast_zombie"@ {
        Shape { color: Rgb { red: 90, green: 70, blue: 20 }, scale: 30, width: 80 }
    } else if id == "spitter"@ {
        Shape { color: Rgb { red: 50, green: 80, blue: 40 }, scale: 34, width: 100 }
    } else if id == "fat_zombie"@ {
        Shape { color: Rgb { red: 55, green: 20, blue: 50 }, scale: 52, width: 170 }
    } else if id == "patient_zero"@ {
        Shape { color: Rgb { red: 95, green: 10, blue: 10 }, scale: 80, width: 140 }
    } else {
        Shape { color: Rgb { red: 75, green: 25, blue: 25 }, scale: 38, width: 100 }
    }
}

pub fn enemy_shape(id: &str) -> (s: Shape)
    ensures
        s == shape_of(id@),
{
    if same_text(id, "swarm_rusher") {
        Shape { color: Rgb { red: 80, green: 50, blue: 30 }, scale: 28, width: 85 }
    } else if same_text(id, "fast_zombie") {
        Shape { color: Rgb { red: 90, green: 70, blue: 20 }, scale: 30, width: 80 }
    } else if same_text(id, "spitter") {
        Shape { color: Rgb { red: 50, green: 80, blue: 40 }, scale: 34, width: 100 }
    } else if same_text(id, "fat_zombie") {
        Shape { color: Rgb { red: 55, green: 20, blue: 50 }, scale: 52, width: 170 }
    } else if same_text(id, "patient_zero") {
        Shape { color: Rgb { red: 95, green: 10, blue: 10 }, scale: 80, width: 140 }
    } else {
        Shape { color: Rgb { red: 75, green: 25, blue: 25 }, scale: 38, width: 100 }
    }
}

/// The color of a rarity.
pub fn rarity_color(r: Rarity) -> (c: Rgb)
    ensures
        c == match r {
            Rarity::Basic => Rgb { red: 70, green: 70, blue: 70 },
            Rarity::Common => Rgb { red: 45, green: 70, blue: 100 },
            Rarity::Rare => Rgb { red: 100, green: 85, blue: 20 },
            Rarity::Epic => Rgb { red: 70, green: 30, blue: 100 },
            Rarity::Legendary => Rgb { red: 100, green: 50, blue: 10 },
        },
{
    match r {
        Rarity::Basic => Rgb { red: 70, green: 70, blue: 70 },
        Rarity::Common => Rgb { red: 45, green: 70, blue: 100 },
        Rarity::Rare => Rgb { red: 100, green: 85, blue: 20 },
        Rarity::Epic => Rgb { red: 70, green: 30, blue: 100 },
        Rarity::Legendary => Rgb { red: 100, green: 50, blue: 10 },
    }
}

/// How high a drop's beam stands, in tenths: brighter rarities stand taller.
pub fn beam_top(r: Rarity) -> (tenths: u32)
    ensures
        tenths == 10 + 6 * r.rank(),
{
    10 + 6 * r.index() as u32
}

/// The look of a projectile: its size and color in percent. Rockets are chunkier and hotter.
pub fn projectile_look(p: &Projectile) -> (look: (u32, Rgb))
    ensures
        look == if p.is_explosive() {
            (38u32, Rgb { red: 100, green: 50, blue: 20 })
        } else {
            (22u32, Rgb { red: 100, green: 90, blue: 40 })
        },
{
    if p.aoe_radius.is_positive() {
        (38, Rgb { red: 100, green: 50, blue: 20 })
    } else {
        (22, Rgb { red: 100, green: 90, blue: 40 })
    }
}

/// Whether an enemy has a health bar above it: only once it has taken a hit, so a fresh
/// swarm stays clean.
pub open spec fn has_bar(c: Combatant) -> bool {
    &&& c.max_life.is_nan() || c.max_life.value() > 0
    &&& c.max_life.is_nan() || c.current_life.is_nan() || c.current_life.value()
        < c.max_life.value()
}

pub fn shows_health_bar(c: &Combatant) -> (r: bool)
    ensures
        r == has_bar(*c),
{
    !(c.max_life.le(&Scalar::zero()) || c.max_life.le(&c.current_life))
}

/// A tile's hash: its coordinates and the map's seed, mixed.
pub open spec fn hash_of(tx: u32, ty: u32, seed: u64) -> u64 {
    let a = seed ^ (tx as u64).wrapping_mul(0x9E37_79B9_7F4A_7C15u64) ^ (ty as u64).wrapping_mul(
        0xC2B2_AE3D_27D4_EB4Fu64,
    );
    let b = (a ^ (a >> 30u64)).wrapping_mul(0xBF58_476D_1CE4_E5B9u64);
    let c = (b ^ (b >> 27u64)).wrapping_mul(0x94D0_49BB_1331_11EBu64);
    c ^ (c >> 31u64)
}

/// Deterministic tile hash (SplitMix64-style mix of tile coords + map seed).
pub fn tile_hash(tx: u32, ty: u32, seed: u64) -> (h: u64)
    ensures
        h == hash_of(tx, ty, seed),
{
    let a: u64 = seed ^ (tx as u64).wrapping_mul(0x9E37_79B9_7F4A_7C15) ^ (
    ty as u64).wrapping_mul(0xC2B2_AE3D_27D4_EB4F);
    let b: u64 = (a ^ (a >> 30u64)).wrapping_mul(0xBF58_476D_1CE4_E5B9);
    let c: u64 = (b ^ (b >> 27u64)).wrapping_mul(0x94D0_49BB_1331_11EB);
    c ^ (c >> 31u64)
}

/// The low bits of a hash, which give a fraction in 65536ths.
pub fn low_bits(h: u64) -> (n: u64)
    ensures
        n == h % 0x1_0000,
{
    h % 0x1_0000
}

/// Decoration. None of it stands in anyone's way.
#[derive(Debug, Clone, Copy, PartialEq, Eq, Structural)]
pub enum Prop {
    Barrel,
    Crate,
    Rubble,
}

/// The prop that a hash stands for: one hash in seventeen has one.
pub open spec fn prop_of(h: u64) -> Option<Prop> {
    if h % 17 != 0 {
        None
    } else if (h >> 8u64) % 3 == 0 {
        Some(Prop::Barrel)
    } else if (h >> 8u64) % 3 == 1 {
        Some(Prop::Crate)
    } else {
        Some(Prop::Rubble)
    }
}

fn hashed_prop(h: u64) -> (p: Option<Prop>)
    ensures
        p == prop_of(h),
{
    if h % 17 != 0 {
        return None;
    }
    let k: u64 = (h >> 8u64) % 3;
    if k == 0 {
        Some(Prop::Barrel)
    } else if k == 1 {
        Some(Prop::Crate)
    } else {
        Some(Prop::Rubble)
    }
}

/// The prop on a tile: props stand on floor only, and the spawn tile is kept clear so the
/// player never starts inside one.
pub open spec fn prop_at(map: TileMap, x: u32, y: u32) -> Option<Prop> {
    if map.tile((x as int, y as int)) != Tile::Floor || (x, y) == map.player_spawn {
        None
    } else {
        prop_of(hash_of(x, y, map.seed))
    }
}

/// A prop in its place, with the hash that its details are taken from.
#[derive(Debug, Clone, Copy, PartialEq, Eq, Structural)]
pub struct PlacedProp {
    pub x: u32,
    pub y: u32,
    pub prop: Prop,
    pub hash: u64,
}

/// The props on the first `n` tiles, row by row.
pub open spec fn props_on(map: TileMap, n: int) -> Seq<PlacedProp>
    decreases n,
{
    if n <= 0 {
        Seq::empty()
    } else {
        let x = ((n - 1) % (map.width as int)) as u32;
        let y = ((n - 1) / (map.width as int)) as u32;
        match prop_at(map, x, y) {
            Some(prop) => props_on(map, n - 1).push(
                PlacedProp { x, y, prop, hash: hash_of(x, y, map.seed) },
            ),
            None => props_on(map, n - 1),
        }
    }
}

/// Scatter sparse decorative props on floor tiles, chosen deterministically from the tile
/// and the map's seed: the same map always dresses identically.
pub fn spawn_props(map: &TileMap) -> (props: Vec<PlacedProp>)
    requires
        map.wf(),
    ensures
        props@ == props_on(*map, map.width * map.height),
{
    let mut props: Vec<PlacedProp> = Vec::new();
    assert(0 * map.width == 0) by (nonlinear_arith);
    for y in 0..map.height
        invariant
            map.wf(),
            props@ == props_on(*map, y * map.width),
    {
        for x in 0..map.width
            invariant
                map.wf(),
                y < map.height,
                props@ == props_on(*map, y * map.width + x),
        {
            proof {
                lemma_cell_index(map.width as int, map.height as int, (x as int, y as int));
                assert(y * map.width + x == cell_index(map.width as int, (x as int, y as int)));
            }
            if let Tile::Floor = map.tile_at(x, y) {
                if x != map.player_spawn.0 || y != map.player_spawn.1 {
                    let hash: u64 = tile_hash(x, y, map.seed);
                    if let Some(prop) = hashed_prop(hash) {
                        props.push(PlacedProp { x, y, prop, hash });
                    }
                }
            }
        }
        assert((y + 1) * map.width == y * map.width + map.width) by (nonlinear_arith);
    }
    assert(map.height * map.width == map.width * map.height) by (nonlinear_arith);
    props
}

/// Props stand on floor, and never where the player starts.
pub proof fn law_props_keep_the_spawn_clear(map: TileMap, n: int, i: int)
    requires
        map.wf(),
        0 <= n <= map.width * map.height,
        0 <= i < props_on(map, n).len(),
    ensures
        ({
            let p = props_on(map, n)[i];
            &&& map.tile((p.x as int, p.y as int)) == Tile::Floor
            &&& (p.x, p.y) != map.player_spawn
            &&& prop_at(map, p.x, p.y) == Some(p.prop)
        }),
    decreases n,
{
    if n > 0 {
        let before = props_on(map, n - 1);
        if i < before.len() {
            law_props_keep_the_spawn_clear(map, n - 1, i);
        }
    }
}

/// Every tile that has a prop gets it.
pub proof fn law_every_prop_is_placed(map: TileMap, x: u32, y: u32, n: int)
    requires
        map.wf(),
        on_grid(map.width as int, map.height as int, (x as int, y as int)),
        cell_index(map.width as int, (x as int, y as int)) < n <= map.width * map.height,
        prop_at(map, x, y) is Some,
    ensures
        exists|i: int|
            0 <= i < props_on(map, n).len() && #[trigger] props_on(map, n)[i] == (PlacedProp {
                x,
                y,
                prop: prop_at(map, x, y)->0,
                hash: hash_of(x, y, map.seed),
            }),
    decreases n,
{
    let c: Cell = (x as int, y as int);
    let want = PlacedProp { x, y, prop: prop_at(map, x, y)->0, hash: hash_of(x, y, map.seed) };
    lemma_cell_index(map.width as int, map.height as int, c);
    if cell_index(map.width as int, c) == n - 1 {
        let last = props_on(map, n).len() - 1;
        assert(props_on(map, n)[last] == want);
    } else {
        law_every_prop_is_placed(map, x, y, n - 1);
        let i = choose|i: int|
            0 <= i < props_on(map, n - 1).len() && #[trigger] props_on(map, n - 1)[i] == want;
        assert(props_on(map, n)[i] == want);
    }
}

/// The next hash in the chain that a pile of rubble is scattered by.
pub open spec fn rehashed(h: u64) -> u64 {
    h.wrapping_mul(0x9E37_79B9_7F4A_7C15u64).wrapping_add(1u64)
}

fn rehash(h: u64) -> (r: u64)
    ensures
        r == rehashed(h),
{
    h.wrapping_mul(0x9E37_79B9_7F4A_7C15).wrapping_add(1)
}

/// The offsets of the three stones of a pile of rubble, in 65536ths. A stone's depth
/// offset also gives its size.
pub fn rubble(h: u64) -> (stones: Vec<(u64, u64)>)
    ensures
        stones@ == ({
            let h1 = rehashed(h);
            let h2 = rehashed(h1);
            let h3 = rehashed(h2);
            let h4 = rehashed(h3);
            let h5 = rehashed(h4);
            let h6 = rehashed(h5);
            seq![
                ((h1 % 0x1_0000) as u64, (h2 % 0x1_0000) as u64),
                ((h3 % 0x1_0000) as u64, (h4 % 0x1_0000) as u64),
                ((h5 % 0x1_0000) as u64, (h6 % 0x1_0000) as u64),
            ]
        }),
{
    let h1: u64 = rehash(h);
    let h2: u64 = rehash(h1);
    let h3: u64 = rehash(h2);
    let h4: u64 = rehash(h3);
    let h5: u64 = rehash(h4);
    let h6: u64 = rehash(h5);
    vec![
        (low_bits(h1), low_bits(h2)),
        (low_bits(h3), low_bits(h4)),
        (low_bits(h5), low_bits(h6)),
    ]
}

/// A pixel of the floor's grain: how bright it is, in 65536ths of the range, and whether
/// it is one of the darker specks.
#[derive(Debug, Clone, Copy, PartialEq, Eq, Structural)]
pub struct Grain {
    pub level: u64,
    pub speck: bool,
}

/// The seed of the floor's grain.
pub const GRAIN_SEED: u64 = 0xF100_0F1E;

/// The pixel in the given column and row.
pub open spec fn grain_at(x: u32, y: u32) -> Grain {
    let h = hash_of(x, y, GRAIN_SEED);
    Grain { level: (h % 0x1_0000) as u64, speck: (h >> 20u64) % 11 == 0 }
}

/// The floor's grain, sixteen rows of sixteen pixels.
pub fn floor_grain() -> (pixels: Vec<Grain>)
    ensures
        pixels.len() == 256,
        forall|x: u32, y: u32|
            x < 16 && y < 16 ==> #[trigger] pixels@[y * 16 + x] == grain_at(x, y),
{
    let mut pixels: Vec<Grain> = Vec::new();
    for y in 0..16u32
        invariant
            pixels.len() == y * 16,
            forall|a: u32, b: u32|
                a < 16 && b < y ==> #[trigger] pixels@[b * 16 + a] == grain_at(a, b),
    {
        for x in 0..16u32
            invariant
                y < 16,
                pixels.len() == y * 16 + x,
                forall|a: u32, b: u32|
                    a < 16 && (b < y || (b == y && a < x)) ==> #[trigger] pixels@[b * 16 + a]
                        == grain_at(a, b),
        {
            let h: u64 = tile_hash(x, y, GRAIN_SEED);
            pixels.push(Grain { level: low_bits(h), speck: (h >> 20u64) % 11 == 0 });
        }
    }
    pixels
}

/// Whether a tile is one of the light squares of the checkered floor.
pub fn is_light(tx: u32, ty: u32) -> (light: bool)
    ensures
        light == ((tx + ty) % 2 == 0),
{
    tx % 2 == ty % 2
}

/// The walls among the first `n` tiles, row by row.
pub open spec fn walls_on(map: TileMap, n: int) -> Seq<(u32, u32)>
    decreases n,
{
    if n <= 0 {
        Seq::empty()
    } else {
        let x = ((n - 1) % (map.width as int)) as u32;
        let y = ((n - 1) / (map.width as int)) as u32;
        if map.tile((x as int, y as int)) == Tile::Wall {
            walls_on(map, n - 1).push((x, y))
        } else {
            walls_on(map, n - 1)
        }
    }
}

/// Where walls stand.
pub fn walls(map: &TileMap) -> (tiles: Vec<(u32, u32)>)
    requires
        map.wf(),
    ensures
        tiles@ == walls_on(*map, map.width * map.height),
{
    let mut tiles: Vec<(u32, u32)> = Vec::new();
    assert(0 * map.width == 0) by (nonlinear_arith);
    for y in 0..map.height
        invariant
            map.wf(),
            tiles@ == walls_on(*map, y * map.width),
    {
        for x in 0..map.width
            invariant
                map.wf(),
                y < map.height,
                tiles@ == walls_on(*map, y * map.width + x),
        {
            proof {
                lemma_cell_index(map.width as int, map.height as int, (x as int, y as int));
                assert(y * map.width + x == cell_index(map.width as int, (x as int, y as int)));
            }
            if let Tile::Wall = map.tile_at(x, y) {
                tiles.push((x, y));
            }
        }
        assert((y + 1) * map.width == y * map.width + map.width) by (nonlinear_arith);
    }
    assert(map.height * map.width == map.width * map.height) by (nonlinear_arith);
    tiles
}

/// Which tiles have a prop: floor tiles other than the player's start whose hash is divisible
/// by seventeen. What remains of the hash without its last eight bits, divided by three,
/// says which: a barrel, a crate or rubble.
pub proof fn law_one_tile_in_seventeen(map: TileMap, x: u32, y: u32)
    ensures
        ({
            let h = hash_of(x, y, map.seed);
            let free = map.tile((x as int, y as int)) == Tile::Floor && (x, y) != map.player_spawn;
            let kind = (h >> 8u64) % 3;
            &&& prop_at(map, x, y) is Some <==> free && h % 17 == 0
            &&& prop_at(map, x, y) == Some(Prop::Barrel) ==> kind == 0
            &&& prop_at(map, x, y) == Some(Prop::Crate) ==> kind == 1
            &&& prop_at(map, x, y) == Some(Prop::Rubble) ==> kind == 2
        }),
{
}

/// The walls that are shown are the wall tiles of the map, each of them once.
pub proof fn law_every_wall_is_shown(map: TileMap, n: int, x: u32, y: u32)
    requires
        map.wf(),
        0 <= n <= map.width * map.height,
    ensures
        walls_on(map, n).no_duplicates(),
        walls_on(map, n).contains((x, y)) <==> x < map.width && y < map.height && y * map.width + x
            < n && map.tiles@[y * map.width + x] == Tile::Wall,
    decreases n,
{
    let w = map.width as int;
    let h = map.height as int;
    if n > 0 {
        law_every_wall_is_shown(map, n - 1, x, y);
        lemma_index_cell(w, h, n - 1);
        let p = (((n - 1) % w) as u32, ((n - 1) / w) as u32);
        let before = walls_on(map, n - 1);
        let after = walls_on(map, n);
        law_every_wall_is_shown(map, n - 1, p.0, p.1);
        if x < map.width && y < map.height {
            lemma_cell_index(w, h, (x as int, y as int));
        }
        if map.tile((p.0 as int, p.1 as int)) == Tile::Wall {
            assert(after == before.push(p));
            assert(!before.contains(p));
            if before.contains((x, y)) {
                let k = choose|k: int| 0 <= k < before.len() && before[k] == (x, y);
                assert(after[k] == (x, y));
            }
            if after.contains((x, y)) && !before.contains((x, y)) {
                let k = choose|k: int| 0 <= k < after.len() && after[k] == (x, y);
                if k < before.len() {
                    assert(before[k] == (x, y));
                }
                assert((x, y) == p);
            }
            if (x, y) == p {
                assert(after[before.len() as int] == p);
            }
        }
    }
}

/// A health bar is shown for whoever has lost some life of a positive maximum, and for
/// nobody else.
pub proof fn law_health_bars(c: Combatant)
    requires
        !c.max_life.is_nan(),
        !c.current_life.is_nan(),
    ensures
        has_bar(c) <==> 0 < c.max_life.value() && c.current_life.value() < c.max_life.value(),
{
}

/// The hash of a tile is made like the seed of an event: its column counts as the event, in a
/// world whose seed its row has changed. So the tiles of a row all have different hashes.
pub proof fn law_hashes_are_mixed_like_seeds(tx: u32, ty: u32, seed: u64, other: u32)
    ensures
        hash_of(tx, ty, seed) == event_seed(
            seed ^ (ty as u64).wrapping_mul(0xC2B2_AE3D_27D4_EB4Fu64),
            tx as u64,
        ),
        hash_of(tx, ty, seed) == hash_of(other, ty, seed) ==> tx == other,
{
    let p = (tx as u64).wrapping_mul(0x9E37_79B9_7F4A_7C15u64);
    let o = (other as u64).wrapping_mul(0x9E37_79B9_7F4A_7C15u64);
    let q = (ty as u64).wrapping_mul(0xC2B2_AE3D_27D4_EB4Fu64);
    assert(seed ^ p ^ q == (seed ^ q) ^ p) by (bit_vector);
    assert(seed ^ o ^ q == (seed ^ q) ^ o) by (bit_vector);
    if hash_of(tx, ty, seed) == hash_of(other, ty, seed) {
        law_events_have_their_own_seeds(seed ^ q, tx as u64, other as u64);
    }
}

} // verus!
