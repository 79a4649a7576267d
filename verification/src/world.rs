//! Chunk store: the sparse, lazily generated, conceptually infinite world.
//!
//! The world maps chunk coordinates to chunks. A chunk is generated on
//! first access from a seed derived deterministically from the world seed
//! and the chunk's coordinates, and is never regenerated or evicted, so a
//! coordinate resolves to the same content for the whole session. The
//! world also owns the monster-id counter: ids are globally unique, never
//! reused, and survive monsters crossing chunk boundaries.

use crate::generator;
use crate::item::Item;
use crate::level::{Tile, TileKind};
use crate::monster::Monster;
use crate::point::{floor_div, Point};
use crate::rng::SeededRng;
use vstd::pervasive::VecAdditionalExecFns;
use vstd::prelude::*;

verus! {

/// Largest allowed world side length: the world is huge but finite.
pub const WORLD_SIDE_MAX: i32 = 1_073_741_824;

/// Ghost model of a chunk: positions, terrain kinds and content, with
/// cosmetic colour data abstracted away.
pub struct ChunkModel {
    pub position: Point,
    pub origin: Point,
    pub tiles: Seq<TileKind>,
    pub monsters: Seq<Monster>,
    pub items: Seq<(Point, Item)>,
}

/// One chunk: a square block of tiles plus the monsters and items inside
/// it. `origin` is the world position of its local (0, 0) tile; monster
/// and item positions are stored in world coordinates.
pub struct Chunk {
    pub position: Point,
    pub origin: Point,
    pub size: i32,
    pub tiles: Vec<Tile>,
    pub monsters: Vec<Monster>,
    pub items: Vec<(Point, Item)>,
}

impl View for Chunk {
    type V = ChunkModel;

    open spec fn view(&self) -> ChunkModel {
        ChunkModel {
            position: self.position,
            origin: self.origin,
            tiles: self.tiles@.map_values(|t: Tile| t.kind),
            monsters: self.monsters@,
            items: self.items@,
        }
    }
}

/// Structural well-formedness of a chunk with side length `cs`.
pub open spec fn chunk_wf(c: ChunkModel, cs: int) -> bool {
    &&& c.origin.x == c.position.x * cs
    &&& c.origin.y == c.position.y * cs
    &&& c.tiles.len() == cs * cs
    &&& forall|j: int|
        0 <= j < c.monsters.len() ==> {
            let p = (#[trigger] c.monsters[j]).position;
            c.origin.x <= p.x < c.origin.x + cs && c.origin.y <= p.y < c.origin.y + cs
        }
}

/// The deterministic per-chunk seed: world seed combined with the
/// chunk's coordinates, injectively.
pub open spec fn spec_chunk_seed(seed: u32, cpos: Point) -> u64 {
    (seed as u64) ^ (((cpos.x as u64) & 0xFFFF_FFFF) << 32) ^ ((cpos.y as u64) & 0xFFFF_FFFF)
}

/// Executable counterpart of [`spec_chunk_seed`].
pub fn chunk_seed(seed: u32, cpos: Point) -> (s: u64)
    ensures
        s == spec_chunk_seed(seed, cpos),
{
    let x64: u64 = #[verifier::truncate] (cpos.x as u64);
    let y64: u64 = #[verifier::truncate] (cpos.y as u64);
    (seed as u64) ^ ((x64 & 0xFFFF_FFFF) << 32u64) ^ (y64 & 0xFFFF_FFFF)
}

/// The model of the chunk generated at `cpos`: a pure function of the
/// world seed, geometry, spawn point and the id counter at generation
/// time. This is the determinism anchor of the whole world store.
pub open spec fn spec_make_chunk(seed: u32, cs: int, spawn: Point, cpos: Point, base_id: u64) -> ChunkModel {
    let origin = Point { x: (cpos.x * cs) as i32, y: (cpos.y * cs) as i32 };
    let rel = Point { x: (spawn.x - origin.x) as i32, y: (spawn.y - origin.y) as i32 };
    let (m, ms, its, _) = generator::spec_generate(
        crate::rng::seeded_state(spec_chunk_seed(seed, cpos)),
        cs,
        cs,
        rel,
        base_id,
    );
    ChunkModel {
        position: cpos,
        origin,
        tiles: m.map_values(|pt: (Point, TileKind)| pt.1),
        monsters: ms.map_values(
            |mm: Monster| Monster {
                id: mm.id,
                kind: mm.kind,
                position: Point {
                    x: (mm.position.x + origin.x) as i32,
                    y: (mm.position.y + origin.y) as i32,
                },
                dead: mm.dead,
                companion_bonus: mm.companion_bonus,
            },
        ),
        items: its.map_values(
            |pi: (Point, Item)| (
                Point { x: (pi.0.x + origin.x) as i32, y: (pi.0.y + origin.y) as i32 },
                pi.1,
            ),
        ),
    }
}


/// Builds the chunk at `cpos`, translating generator output from local
/// to world coordinates. The result is exactly the chunk model that
/// [`spec_make_chunk`] describes; only tile colours (drawn from the
/// throwaway stream) are left open.
pub fn make_chunk(
    seed: u32,
    cs: i32,
    spawn: Point,
    cpos: Point,
    base_id: u64,
    trng: &mut SeededRng,
) -> (c: Chunk)
    requires
        1 <= cs <= 256,
        -536_871_168 <= cpos.x * cs <= 536_871_168,
        -536_871_168 <= cpos.y * cs <= 536_871_168,
        -536_870_912 <= spawn.x <= 536_870_912,
        -536_870_912 <= spawn.y <= 536_870_912,
        base_id + cs * cs <= u64::MAX,
    ensures
        c@ == spec_make_chunk(seed, cs as int, spawn, cpos, base_id),
        c.size == cs,
        c.monsters@.len() == spec_make_chunk(seed, cs as int, spawn, cpos, base_id).monsters.len(),
{
    let ox: i32 = ((cpos.x as i64) * (cs as i64)) as i32;
    let oy: i32 = ((cpos.y as i64) * (cs as i64)) as i32;
    let origin = Point { x: ox, y: oy };
    let rel = Point { x: spawn.x - ox, y: spawn.y - oy };
    let mut rng = SeededRng::from_seed(chunk_seed(seed, cpos));
    let size = Point { x: cs, y: cs };
    let generated = generator::generate(&mut rng, trng, size, rel, base_id);
    let (map, monsters, items) = generated;
    let ghost g = generator::spec_generate(
        crate::rng::seeded_state(spec_chunk_seed(seed, cpos)),
        cs as int,
        cs as int,
        rel,
        base_id,
    );
    proof {
        generator::lemma_gen_map_pos(
            crate::rng::seeded_state(spec_chunk_seed(seed, cpos)),
            (cs * cs) as nat,
            cs as int,
            cs as int,
            rel,
        );
        let gs1 = generator::spec_gen_map(
            crate::rng::seeded_state(spec_chunk_seed(seed, cpos)),
            (cs * cs) as nat,
            cs as int,
            rel,
        ).1;
        generator::lemma_gen_monsters_pos(g.0, g.0.len() as nat, gs1, base_id, cs as int, cs as int);
        assert(forall|k: int|
            0 <= k < g.0.len() ==> 0 <= (#[trigger] g.0[k]).0.x < cs && 0 <= g.0[k].0.y < cs);
    }
    let mut tiles: Vec<Tile> = Vec::new();
    let mut k: usize = 0;
    while k < map.len()
        invariant
            k <= map@.len(),
            tiles@ == map@.map_values(|pt: (Point, Tile)| pt.1).take(k as int),
        decreases map@.len() - k,
    {
        let (_, t) = map[k];
        tiles.push(t);
        k = k + 1;
        proof {
            assert(tiles@ =~= map@.map_values(|pt: (Point, Tile)| pt.1).take(k as int));
        }
    }
    proof {
        assert(tiles@ =~= map@.map_values(|pt: (Point, Tile)| pt.1));
    }
    let ghost trans_monsters = g.1.map_values(
        |mm: Monster| Monster {
            id: mm.id,
            kind: mm.kind,
            position: Point {
                x: (mm.position.x + origin.x) as i32,
                y: (mm.position.y + origin.y) as i32,
            },
            dead: mm.dead,
            companion_bonus: mm.companion_bonus,
        },
    );
    let mut ms: Vec<Monster> = Vec::new();
    let mut j: usize = 0;
    while j < monsters.len()
        invariant
            j <= monsters@.len(),
            monsters@ == g.1,
            ms@ == trans_monsters.take(j as int),
            trans_monsters == g.1.map_values(
                |mm: Monster| Monster {
                    id: mm.id,
                    kind: mm.kind,
                    position: Point {
                        x: (mm.position.x + origin.x) as i32,
                        y: (mm.position.y + origin.y) as i32,
                    },
                    dead: mm.dead,
                    companion_bonus: mm.companion_bonus,
                },
            ),
            forall|q: int|
                0 <= q < monsters@.len() ==> 0 <= (#[trigger] monsters@[q]).position.x < 256 && 0
                    <= monsters@[q].position.y < 256,
            -536_871_168 <= origin.x <= 536_871_168,
            -536_871_168 <= origin.y <= 536_871_168,
        decreases monsters@.len() - j,
    {
        let m = monsters[j];
        let nm = Monster {
            id: m.id,
            kind: m.kind,
            position: Point { x: m.position.x + origin.x, y: m.position.y + origin.y },
            dead: m.dead,
            companion_bonus: m.companion_bonus,
        };
        ms.push(nm);
        j = j + 1;
        proof {
            assert(ms@ =~= trans_monsters.take(j as int));
        }
    }
    proof {
        assert(ms@ =~= trans_monsters);
    }
    let ghost trans_items = g.2.map_values(
        |pi: (Point, Item)| (
            Point { x: (pi.0.x + origin.x) as i32, y: (pi.0.y + origin.y) as i32 },
            pi.1,
        ),
    );
    proof {
        let gs1 = generator::spec_gen_map(
            crate::rng::seeded_state(spec_chunk_seed(seed, cpos)),
            (cs * cs) as nat,
            cs as int,
            rel,
        ).1;
        let gs2 = generator::spec_gen_monsters(g.0, g.0.len() as nat, gs1, base_id).1;
        generator::lemma_gen_map_pos(
            crate::rng::seeded_state(spec_chunk_seed(seed, cpos)),
            (cs * cs) as nat,
            cs as int,
            cs as int,
            rel,
        );
        generator::lemma_gen_items_pos(g.0, g.1, g.0.len() as nat, gs2, cs as int, cs as int);
    }
    let mut its: Vec<(Point, Item)> = Vec::new();
    let mut q: usize = 0;
    while q < items.len()
        invariant
            q <= items@.len(),
            items@ == g.2,
            its@ == trans_items.take(q as int),
            trans_items == g.2.map_values(
                |pi: (Point, Item)| (
                    Point { x: (pi.0.x + origin.x) as i32, y: (pi.0.y + origin.y) as i32 },
                    pi.1,
                ),
            ),
            forall|r: int|
                0 <= r < items@.len() ==> 0 <= (#[trigger] items@[r]).0.x < 256 && 0
                    <= items@[r].0.y < 256,
            -536_871_168 <= origin.x <= 536_871_168,
            -536_871_168 <= origin.y <= 536_871_168,
        decreases items@.len() - q,
    {
        let (p, it) = items[q];
        its.push((Point { x: p.x + origin.x, y: p.y + origin.y }, it));
        q = q + 1;
        proof {
            assert(its@ =~= trans_items.take(q as int));
        }
    }
    proof {
        assert(its@ =~= trans_items);
    }
    let c = Chunk { position: cpos, origin, size: cs, tiles, monsters: ms, items: its };
    proof {
        let sm = spec_make_chunk(seed, cs as int, spawn, cpos, base_id);
        assert(c@.tiles =~= sm.tiles);
        assert(c@.monsters =~= sm.monsters);
        assert(c@.items =~= sm.items);
    }
    c
}


/// Index of the first element satisfying `f`, or -1 if none does.
pub open spec fn first_index<T>(s: Seq<T>, f: spec_fn(T) -> bool) -> int
    decreases s.len(),
{
    if s.len() == 0 {
        -1
    } else if f(s[0]) {
        0
    } else {
        let r = first_index(s.skip(1), f);
        if r < 0 {
            -1
        } else {
            1 + r
        }
    }
}

pub proof fn lemma_first_index<T>(s: Seq<T>, f: spec_fn(T) -> bool)
    ensures
        first_index(s, f) == -1 ==> (forall|j: int| 0 <= j < s.len() ==> !f(#[trigger] s[j])),
        first_index(s, f) >= 0 ==> 0 <= first_index(s, f) < s.len() && f(s[first_index(s, f)]) && (
        forall|j: int| 0 <= j < first_index(s, f) ==> !f(#[trigger] s[j])),
    decreases s.len(),
{
    if s.len() == 0 {
    } else if f(s[0]) {
    } else {
        lemma_first_index(s.skip(1), f);
        assert(forall|j: int| 1 <= j < s.len() ==> s.skip(1)[j - 1] == #[trigger] s[j]);
    }
}

/// The witness direction: an element that satisfies `f`, with none
/// before it, is what `first_index` returns.
pub proof fn lemma_first_index_witness<T>(s: Seq<T>, f: spec_fn(T) -> bool, i: int)
    requires
        0 <= i < s.len(),
        f(s[i]),
        forall|j: int| 0 <= j < i ==> !f(#[trigger] s[j]),
    ensures
        first_index(s, f) == i,
    decreases s.len(),
{
    if i == 0 {
    } else {
        assert(!f(s[0]));
        assert(forall|j: int| 0 <= j < s.skip(1).len() ==> #[trigger] s.skip(1)[j] == s[j + 1]);
        lemma_first_index_witness(s.skip(1), f, i - 1);
    }
}

/// Ghost model of the world: the chunk mapping, the id counter and the
/// generation parameters. The throwaway colour stream is deliberately
/// not part of the model.
pub struct WorldModel {
    pub seed: u32,
    pub chunk_size: int,
    pub size: int,
    pub spawn: Point,
    pub chunks: Seq<ChunkModel>,
    pub next_monster_id: u64,
}

/// The sparse chunked world. Chunks are generated lazily and never
/// evicted; the id counter only grows.
pub struct World {
    pub seed: u32,
    pub chunk_size: i32,
    pub size: i32,
    pub spawn: Point,
    pub chunks: Vec<Chunk>,
    pub next_monster_id: u64,
    pub throwaway_rng: SeededRng,
}

impl View for World {
    type V = WorldModel;

    open spec fn view(&self) -> WorldModel {
        WorldModel {
            seed: self.seed,
            chunk_size: self.chunk_size as int,
            size: self.size as int,
            spawn: self.spawn,
            chunks: self.chunks@.map_values(|c: Chunk| c@),
            next_monster_id: self.next_monster_id,
        }
    }
}

/// Whether `p` lies inside the finite world square.
pub open spec fn within_bounds(p: Point, size: int) -> bool {
    &&& -(size / 2) <= p.x < size / 2
    &&& -(size / 2) <= p.y < size / 2
}

/// Executable counterpart of [`within_bounds`].
pub fn point_within_bounds(p: Point, size: i32) -> (b: bool)
    requires
        2 <= size,
    ensures
        b == within_bounds(p, size as int),
{
    let half = size / 2;
    -half <= p.x && p.x < half && -half <= p.y && p.y < half
}

/// The chunk coordinate a world position belongs to (floor division).
pub open spec fn spec_chunk_pos(cs: int, p: Point) -> Point {
    Point { x: (p.x as int / cs) as i32, y: (p.y as int / cs) as i32 }
}

/// Whether a chunk with these coordinates is loaded.
pub open spec fn spec_has_chunk(chunks: Seq<ChunkModel>, cpos: Point) -> bool {
    exists|i: int| 0 <= i < chunks.len() && (#[trigger] chunks[i]).position == cpos
}

/// Well-formedness of the whole world: geometry in range, every chunk
/// structurally sound and inside the world, chunk coordinates unique,
/// and monster ids globally unique and below the counter.
pub open spec fn world_wf(w: WorldModel) -> bool {
    &&& 1 <= w.chunk_size <= 256
    &&& 2 <= w.size <= WORLD_SIDE_MAX
    &&& within_bounds(w.spawn, w.size)
    &&& forall|i: int| 0 <= i < w.chunks.len() ==> chunk_wf(#[trigger] w.chunks[i], w.chunk_size)
    &&& forall|i: int|
        0 <= i < w.chunks.len() ==> {
            let o = (#[trigger] w.chunks[i]).origin;
            -(w.size / 2 + w.chunk_size) <= o.x <= w.size / 2 && -(w.size / 2 + w.chunk_size) <= o.y
                <= w.size / 2
        }
    &&& forall|i: int, j: int|
        0 <= i < j < w.chunks.len() ==> (#[trigger] w.chunks[i]).position != (
        #[trigger] w.chunks[j]).position
    &&& forall|i: int, j: int|
        0 <= i < w.chunks.len() && 0 <= j < w.chunks[i].monsters.len() ==> (
        #[trigger] w.chunks[i].monsters[j]).id < w.next_monster_id
    &&& forall|i1: int, j1: int, i2: int, j2: int|
        #![trigger w.chunks[i1].monsters[j1], w.chunks[i2].monsters[j2]]
        0 <= i1 < w.chunks.len() && 0 <= j1 < w.chunks[i1].monsters.len() && 0 <= i2
            < w.chunks.len() && 0 <= j2 < w.chunks[i2].monsters.len() && (i1 != i2 || j1 != j2)
            ==> w.chunks[i1].monsters[j1].id != w.chunks[i2].monsters[j2].id
}

/// The model the world store starts from: no chunks, id counter at zero.
pub open spec fn spec_world_new(seed: u32, size: int, chunk_size: int, spawn: Point) -> WorldModel {
    WorldModel {
        seed,
        chunk_size,
        size,
        spawn,
        chunks: Seq::empty(),
        next_monster_id: 0,
    }
}

/// The world after resolving `cpos`: unchanged if loaded, otherwise the
/// generated chunk is appended and the id counter advanced past its
/// monsters.
pub open spec fn spec_chunk_at_model(w: WorldModel, cpos: Point) -> WorldModel {
    if spec_has_chunk(w.chunks, cpos) {
        w
    } else {
        let c = spec_make_chunk(w.seed, w.chunk_size, w.spawn, cpos, w.next_monster_id);
        WorldModel {
            seed: w.seed,
            chunk_size: w.chunk_size,
            size: w.size,
            spawn: w.spawn,
            chunks: w.chunks.push(c),
            next_monster_id: (w.next_monster_id + c.monsters.len()) as u64,
        }
    }
}

impl World {
    /// A fresh world: the seed, geometry and spawn point are fixed for
    /// the session; no chunk is loaded yet.
    pub fn new(seed: u32, size: i32, chunk_size: i32, spawn: Point, throwaway_seed: u64) -> (w:
        World)
        requires
            1 <= chunk_size <= 256,
            2 <= size <= WORLD_SIDE_MAX,
            within_bounds(spawn, size as int),
        ensures
            w@ == spec_world_new(seed, size as int, chunk_size as int, spawn),
            world_wf(w@),
    {
        let w = World {
            seed,
            chunk_size,
            size,
            spawn,
            chunks: Vec::new(),
            next_monster_id: 0,
            throwaway_rng: SeededRng::from_seed(throwaway_seed),
        };
        proof {
            assert(w@.chunks =~= Seq::<ChunkModel>::empty());
        }
        w
    }

    /// Looks a chunk coordinate up in the store.
    pub fn find_chunk(&self, cpos: Point) -> (r: Option<usize>)
        ensures
            match r {
                Some(i) => i < self@.chunks.len() && self@.chunks[i as int].position == cpos,
                None => !spec_has_chunk(self@.chunks, cpos),
            },
    {
        let mut i: usize = 0;
        while i < self.chunks.len()
            invariant
                i <= self@.chunks.len(),
                self@.chunks.len() == self.chunks@.len(),
                forall|j: int| 0 <= j < i ==> (#[trigger] self@.chunks[j]).position != cpos,
            decreases self@.chunks.len() - i,
        {
            let p = self.chunks[i].position;
            if p.x == cpos.x && p.y == cpos.y {
                return Some(i);
            }
            i = i + 1;
        }
        None
    }

    /// The chunk coordinate of a world position.
    pub fn chunk_pos_of(&self, p: Point) -> (cp: Point)
        requires
            1 <= self.chunk_size,
        ensures
            cp == spec_chunk_pos(self@.chunk_size, p),
    {
        Point { x: floor_div(p.x, self.chunk_size), y: floor_div(p.y, self.chunk_size) }
    }
}


/// A world position lies inside the chunk whose coordinate it maps to:
/// the chunk origin is at most `p` and less than a chunk length past it.
pub proof fn lemma_point_in_its_chunk(x: int, cs: int)
    requires
        1 <= cs,
    ensures
        (x / cs) * cs <= x < (x / cs) * cs + cs,
{
    vstd::arithmetic::div_mod::lemma_fundamental_div_mod(x, cs);
    vstd::arithmetic::div_mod::lemma_mod_division_less_than_divisor(x, cs);
    assert(x == cs * (x / cs) + x % cs);
    vstd::arithmetic::mul::lemma_mul_is_commutative(cs, x / cs);
}

/// The floor quotient of an `i32` value by a positive divisor stays in
/// `i32` range, so the chunk-coordinate cast never truncates.
pub proof fn lemma_floor_div_in_i32(x: int, cs: int)
    requires
        -2147483648 <= x <= 2147483647,
        1 <= cs,
    ensures
        -2147483648 <= x / cs <= 2147483647,
        ((x / cs) as i32) * cs <= x < ((x / cs) as i32) * cs + cs,
{
    let q = x / cs;
    let r = x % cs;
    vstd::arithmetic::div_mod::lemma_fundamental_div_mod(x, cs);
    vstd::arithmetic::div_mod::lemma_mod_division_less_than_divisor(x, cs);
    assert(-2147483648 <= q <= 2147483647) by (nonlinear_arith)
        requires
            x == cs * q + r,
            0 <= r < cs,
            1 <= cs,
            -2147483648 <= x <= 2147483647,
    ;
    lemma_point_in_its_chunk(x, cs);
}

/// The generated chunk is structurally sound, its monsters carry the
/// consecutive ids starting at `base_id`, and there are no more monsters
/// than tiles.
pub proof fn lemma_make_chunk_wf(seed: u32, cs: int, spawn: Point, cpos: Point, base_id: u64)
    requires
        1 <= cs <= 256,
        -536_871_168 <= cpos.x * cs <= 536_871_168,
        -536_871_168 <= cpos.y * cs <= 536_871_168,
        base_id + cs * cs <= u64::MAX,
    ensures
        ({
            let c = spec_make_chunk(seed, cs, spawn, cpos, base_id);
            chunk_wf(c, cs) && c.monsters.len() <= cs * cs && (forall|j: int|
                0 <= j < c.monsters.len() ==> (#[trigger] c.monsters[j]).id == base_id + j)
        }),
{
    let c = spec_make_chunk(seed, cs, spawn, cpos, base_id);
    let origin = Point { x: (cpos.x * cs) as i32, y: (cpos.y * cs) as i32 };
    let rel = Point { x: (spawn.x - origin.x) as i32, y: (spawn.y - origin.y) as i32 };
    let st0 = crate::rng::seeded_state(spec_chunk_seed(seed, cpos));
    let gm = generator::spec_gen_map(st0, (cs * cs) as nat, cs, rel);
    generator::lemma_gen_map_len(st0, (cs * cs) as nat, cs, rel);
    generator::lemma_gen_map_pos(st0, (cs * cs) as nat, cs, cs, rel);
    let gms = generator::spec_gen_monsters(gm.0, gm.0.len(), gm.1, base_id);
    generator::lemma_gen_monsters_len(gm.0, gm.0.len(), gm.1, base_id);
    generator::lemma_gen_monsters_pos(gm.0, gm.0.len(), gm.1, base_id, cs, cs);
    generator::lemma_gen_monsters_ids(gm.0, gm.0.len(), gm.1, base_id);
    assert forall|j: int| 0 <= j < c.monsters.len() implies {
        let p = (#[trigger] c.monsters[j]).position;
        c.origin.x <= p.x < c.origin.x + cs && c.origin.y <= p.y < c.origin.y + cs
            && c.monsters[j].id == base_id + j
    } by {
        assert(c.monsters[j] == Monster {
            id: gms.0[j].id,
            kind: gms.0[j].kind,
            position: Point {
                x: (gms.0[j].position.x + origin.x) as i32,
                y: (gms.0[j].position.y + origin.y) as i32,
            },
            dead: gms.0[j].dead,
            companion_bonus: gms.0[j].companion_bonus,
        });
    }
}

impl World {
    /// Resolves a world position to its (loaded) chunk: returns the
    /// index of the chunk containing `p`, generating it first if this is
    /// the first access. Generation is a pure function of the world seed,
    /// the chunk coordinate, the spawn point and the id counter.
    pub fn chunk_at(&mut self, p: Point) -> (idx: usize)
        requires
            world_wf(old(self)@),
            within_bounds(p, old(self)@.size),
            old(self)@.next_monster_id + old(self)@.chunk_size * old(self)@.chunk_size
                <= u64::MAX,
        ensures
            world_wf(final(self)@),
            final(self)@ == spec_chunk_at_model(old(self)@, spec_chunk_pos(old(self)@.chunk_size, p)),
            idx < final(self)@.chunks.len(),
            final(self)@.chunks[idx as int].position == spec_chunk_pos(old(self)@.chunk_size, p),
            final(self)@.chunks.len() >= old(self)@.chunks.len(),
            forall|i: int|
                0 <= i < old(self)@.chunks.len() ==> final(self)@.chunks[i] == old(self)@.chunks[i],
            final(self).chunk_size == old(self).chunk_size,
    {
        let cpos = self.chunk_pos_of(p);
        let found = self.find_chunk(cpos);
        match found {
            Some(i) => {
                proof {
                    assert(spec_has_chunk(self@.chunks, cpos));
                }
                i
            },
            None => {
                let ghost w0 = self@;
                let cs = self.chunk_size;
                proof {
                    lemma_point_in_its_chunk(p.x as int, cs as int);
                    lemma_point_in_its_chunk(p.y as int, cs as int);
                    let qx = p.x as int / cs as int;
                    let qy = p.y as int / cs as int;
                    assert(-536_871_168 <= qx <= 536_871_168) by (nonlinear_arith)
                        requires
                            1 <= cs,
                            -536_871_168 <= qx * cs <= 536_871_168,
                    ;
                    assert(-536_871_168 <= qy <= 536_871_168) by (nonlinear_arith)
                        requires
                            1 <= cs,
                            -536_871_168 <= qy * cs <= 536_871_168,
                    ;
                    assert(cpos.x == qx && cpos.y == qy);
                    lemma_make_chunk_wf(
                        self.seed,
                        cs as int,
                        self.spawn,
                        cpos,
                        self.next_monster_id,
                    );
                }
                let mut trng = self.throwaway_rng;
                let c = make_chunk(self.seed, cs, self.spawn, cpos, self.next_monster_id, &mut trng);
                self.throwaway_rng = trng;
                let spawned = c.monsters.len() as u64;
                proof {
                    assert(spawned <= cs * cs);
                }
                self.next_monster_id = self.next_monster_id + spawned;
                let idx = self.chunks.len();
                self.chunks.push(c);
                proof {
                    let wn = self@;
                    let cm = spec_make_chunk(w0.seed, w0.chunk_size, w0.spawn, cpos, w0.next_monster_id);
                    assert(wn.chunks =~= w0.chunks.push(cm));
                    assert(wn == spec_chunk_at_model(w0, cpos));
                    assert forall|i: int| 0 <= i < wn.chunks.len() implies chunk_wf(
                        #[trigger] wn.chunks[i],
                        wn.chunk_size,
                    ) by {
                        if i < w0.chunks.len() {
                            assert(chunk_wf(w0.chunks[i], w0.chunk_size));
                        }
                    }
                    assert(world_wf(wn));
                }
                idx
            },
        }
    }
}


/// The terrain kind of `p` inside chunk `c` (which must contain `p`).
pub open spec fn spec_tile_at(c: ChunkModel, cs: int, p: Point) -> TileKind {
    c.tiles[(p.y - c.origin.y) * cs + (p.x - c.origin.x)]
}

/// Index of the loaded chunk with coordinate `cpos`, or -1.
pub open spec fn spec_chunk_index(chunks: Seq<ChunkModel>, cpos: Point) -> int {
    first_index(chunks, |c: ChunkModel| c.position == cpos)
}

/// Index of the first living monster standing on `p`, or -1.
pub open spec fn spec_first_live_at(ms: Seq<Monster>, p: Point) -> int {
    first_index(ms, |m: Monster| !m.dead && m.position == p)
}

/// Index of the first item lying on `p`, or -1.
pub open spec fn spec_first_item_at(items: Seq<(Point, Item)>, p: Point) -> int
    decreases items.len(),
{
    if items.len() == 0 {
        -1
    } else if items[0].0 == p {
        0
    } else {
        let r = spec_first_item_at(items.skip(1), p);
        if r < 0 {
            -1
        } else {
            1 + r
        }
    }
}

pub proof fn lemma_first_item_at(items: Seq<(Point, Item)>, p: Point)
    ensures
        spec_first_item_at(items, p) == -1 ==> (forall|j: int|
            0 <= j < items.len() ==> (#[trigger] items[j]).0 != p),
        spec_first_item_at(items, p) >= 0 ==> 0 <= spec_first_item_at(items, p) < items.len()
            && items[spec_first_item_at(items, p)].0 == p,
    decreases items.len(),
{
    if items.len() == 0 {
    } else if items[0].0 == p {
    } else {
        lemma_first_item_at(items.skip(1), p);
        assert(forall|j: int| 1 <= j < items.len() ==> items.skip(1)[j - 1] == #[trigger] items[j]);
    }
}

pub proof fn lemma_first_item_at_witness(items: Seq<(Point, Item)>, p: Point, i: int)
    requires
        0 <= i < items.len(),
        items[i].0 == p,
        forall|j: int| 0 <= j < i ==> (#[trigger] items[j]).0 != p,
    ensures
        spec_first_item_at(items, p) == i,
    decreases items.len(),
{
    if i == 0 {
    } else {
        assert(items[0].0 != p);
        assert(forall|j: int|
            0 <= j < items.skip(1).len() ==> #[trigger] items.skip(1)[j] == items[j + 1]);
        lemma_first_item_at_witness(items.skip(1), p, i - 1);
    }
}

/// The world after the monster standing at `from` walks to `to`,
/// possibly crossing a chunk boundary; its id, kind and bonus travel
/// with it. If no living monster stands at `from`, or the target chunk
/// is not loaded, nothing changes.
pub open spec fn spec_move_monster(w: WorldModel, from: Point, to: Point) -> WorldModel {
    let fcp = spec_chunk_pos(w.chunk_size, from);
    let tcp = spec_chunk_pos(w.chunk_size, to);
    let sci = spec_chunk_index(w.chunks, fcp);
    if sci < 0 {
        w
    } else {
        let sc = w.chunks[sci];
        let smi = spec_first_live_at(sc.monsters, from);
        if smi < 0 {
            w
        } else {
            let m = sc.monsters[smi];
            let m2 = Monster {
                id: m.id,
                kind: m.kind,
                position: to,
                dead: m.dead,
                companion_bonus: m.companion_bonus,
            };
            if tcp == fcp {
                let sc2 = ChunkModel {
                    position: sc.position,
                    origin: sc.origin,
                    tiles: sc.tiles,
                    monsters: sc.monsters.update(smi, m2),
                    items: sc.items,
                };
                WorldModel {
                    seed: w.seed,
                    chunk_size: w.chunk_size,
                    size: w.size,
                    spawn: w.spawn,
                    chunks: w.chunks.update(sci, sc2),
                    next_monster_id: w.next_monster_id,
                }
            } else {
                let tci = spec_chunk_index(w.chunks, tcp);
                if tci < 0 {
                    w
                } else {
                    let sc2 = ChunkModel {
                        position: sc.position,
                        origin: sc.origin,
                        tiles: sc.tiles,
                        monsters: sc.monsters.remove(smi),
                        items: sc.items,
                    };
                    let tc = w.chunks[tci];
                    let tc2 = ChunkModel {
                        position: tc.position,
                        origin: tc.origin,
                        tiles: tc.tiles,
                        monsters: tc.monsters.push(m2),
                        items: tc.items,
                    };
                    WorldModel {
                        seed: w.seed,
                        chunk_size: w.chunk_size,
                        size: w.size,
                        spawn: w.spawn,
                        chunks: w.chunks.update(sci, sc2).update(tci, tc2),
                        next_monster_id: w.next_monster_id,
                    }
                }
            }
        }
    }
}

impl World {
    /// Coordinates of every loaded chunk, in load order.
    pub fn positions_of_all_chunks(&self) -> (r: Vec<Point>)
        ensures
            r@ == self@.chunks.map_values(|c: ChunkModel| c.position),
    {
        let mut r: Vec<Point> = Vec::new();
        let mut i: usize = 0;
        while i < self.chunks.len()
            invariant
                i <= self.chunks@.len(),
                self@.chunks.len() == self.chunks@.len(),
                r@ == self@.chunks.map_values(|c: ChunkModel| c.position).take(i as int),
            decreases self.chunks@.len() - i,
        {
            r.push(self.chunks[i].position);
            i = i + 1;
            proof {
                assert(r@ =~= self@.chunks.map_values(|c: ChunkModel| c.position).take(i as int));
            }
        }
        proof {
            assert(r@ =~= self@.chunks.map_values(|c: ChunkModel| c.position));
        }
        r
    }

    /// Hands out a fresh, never-reused monster id.
    pub fn allocate_monster_id(&mut self) -> (id: u64)
        requires
            old(self).next_monster_id < u64::MAX,
        ensures
            id == old(self).next_monster_id,
            final(self).next_monster_id == old(self).next_monster_id + 1,
            final(self)@ == (WorldModel {
                next_monster_id: (old(self)@.next_monster_id + 1) as u64,
                ..old(self)@
            }),
    {
        let id = self.next_monster_id;
        self.next_monster_id = self.next_monster_id + 1;
        id
    }

    /// The terrain kind under `p`, which must lie in the loaded chunk
    /// `ci`.
    pub fn tile_kind_at(&self, ci: usize, p: Point) -> (k: TileKind)
        requires
            world_wf(self@),
            ci < self@.chunks.len(),
            self@.chunks[ci as int].origin.x <= p.x < self@.chunks[ci as int].origin.x
                + self@.chunk_size,
            self@.chunks[ci as int].origin.y <= p.y < self@.chunks[ci as int].origin.y
                + self@.chunk_size,
        ensures
            k == spec_tile_at(self@.chunks[ci as int], self@.chunk_size, p),
    {
        let c = &self.chunks[ci];
        let lx = p.x - c.origin.x;
        let ly = p.y - c.origin.y;
        let cs = self.chunk_size;
        proof {
            assert(0 <= ly * cs + lx < cs * cs && 0 <= ly * cs <= 65536 && cs * cs
                <= 65536) by (nonlinear_arith)
                requires
                    0 <= lx < cs,
                    0 <= ly < cs,
                    cs <= 256,
            ;
        }
        let idx = (ly * cs + lx) as usize;
        c.tiles[idx].kind
    }

    /// The first living monster standing on `p` in chunk `ci`, if any.
    pub fn first_live_monster_at(&self, ci: usize, p: Point) -> (r: Option<usize>)
        requires
            ci < self@.chunks.len(),
        ensures
            ({
                let mi = spec_first_live_at(self@.chunks[ci as int].monsters, p);
                match r {
                    Some(j) => j == mi,
                    None => mi == -1,
                }
            }),
    {
        let c = &self.chunks[ci];
        let ghost f = |m: Monster| !m.dead && m.position == p;
        let mut j: usize = 0;
        while j < c.monsters.len()
            invariant
                j <= c.monsters@.len(),
                c == &self.chunks[ci as int],
                ci < self@.chunks.len(),
                self@.chunks.len() == self.chunks@.len(),
                self@.chunks[ci as int].monsters == c.monsters@,
                f == (|m: Monster| !m.dead && m.position == p),
                forall|q: int| 0 <= q < j ==> !f(#[trigger] c.monsters@[q]),
            decreases c.monsters@.len() - j,
        {
            let m = &c.monsters[j];
            if !m.dead && m.position.x == p.x && m.position.y == p.y {
                proof {
                    assert(f(c.monsters@[j as int]));
                    lemma_first_index_witness(c.monsters@, f, j as int);
                }
                return Some(j);
            }
            j = j + 1;
        }
        proof {
            lemma_first_index(c.monsters@, f);
            if first_index(c.monsters@, f) >= 0 {
                assert(f(c.monsters@[first_index(c.monsters@, f)]));
                assert(false);
            }
        }
        None
    }

    /// A copy of monster `mi` of chunk `ci`.
    pub fn monster(&self, ci: usize, mi: usize) -> (m: Monster)
        requires
            ci < self@.chunks.len(),
            mi < self@.chunks[ci as int].monsters.len(),
        ensures
            m == self@.chunks[ci as int].monsters[mi as int],
    {
        self.chunks[ci].monsters[mi]
    }

    /// Marks monster `mi` of chunk `ci` dead. Its id is never reused, so
    /// the corpse can never be mistaken for a living monster.
    pub fn kill_monster(&mut self, ci: usize, mi: usize)
        requires
            world_wf(old(self)@),
            ci < old(self)@.chunks.len(),
            mi < old(self)@.chunks[ci as int].monsters.len(),
        ensures
            world_wf(final(self)@),
            ({
                let oc = old(self)@.chunks[ci as int];
                let om = oc.monsters[mi as int];
                final(self)@ == (WorldModel {
                    chunks: old(self)@.chunks.update(
                        ci as int,
                        ChunkModel {
                            monsters: oc.monsters.update(
                                mi as int,
                                Monster {
                                    id: om.id,
                                    kind: om.kind,
                                    position: om.position,
                                    dead: true,
                                    companion_bonus: om.companion_bonus,
                                },
                            ),
                            ..oc
                        },
                    ),
                    ..old(self)@
                })
            }),
    {
        let cs = self.chunk_size;
        let mut tmp = Chunk {
            position: Point { x: 0, y: 0 },
            origin: Point { x: 0, y: 0 },
            size: cs,
            tiles: Vec::new(),
            monsters: Vec::new(),
            items: Vec::new(),
        };
        self.chunks.set_and_swap(ci, &mut tmp);
        let om = tmp.monsters[mi];
        let nm = Monster {
            id: om.id,
            kind: om.kind,
            position: om.position,
            dead: true,
            companion_bonus: om.companion_bonus,
        };
        tmp.monsters.set(mi, nm);
        self.chunks.set(ci, tmp);
        proof {
            let w0 = old(self)@;
            let wn = self@;
            let oc = w0.chunks[ci as int];
            assert(wn.chunks =~= w0.chunks.update(
                ci as int,
                ChunkModel {
                    monsters: oc.monsters.update(mi as int, nm),
                    ..oc
                },
            ));
            assert forall|i: int, j: int|
                0 <= i < wn.chunks.len() && 0 <= j < wn.chunks[i].monsters.len() implies (
            #[trigger] wn.chunks[i].monsters[j]).id == w0.chunks[i].monsters[j].id by {}
            assert(world_wf(wn));
        }
    }
}


/// Under position uniqueness, any index whose chunk sits at `cpos` is
/// the one the model lookup returns.
pub proof fn lemma_chunk_index_unique(w: WorldModel, i: int, cpos: Point)
    requires
        world_wf(w),
        0 <= i < w.chunks.len(),
        w.chunks[i].position == cpos,
    ensures
        spec_chunk_index(w.chunks, cpos) == i,
{
    let f = |c: ChunkModel| c.position == cpos;
    lemma_first_index(w.chunks, f);
    if first_index(w.chunks, f) == -1 {
        assert(!f(w.chunks[i]));
    } else {
        let r = first_index(w.chunks, f);
        assert(f(w.chunks[r]));
        if r != i {
            assert(w.chunks[r].position != w.chunks[i].position);
        }
    }
}

impl World {
    /// Relocates the living monster standing at `from` to `to`,
    /// preserving its identity: the monster keeps its id, kind and
    /// companion bonus while moving within a chunk or across a chunk
    /// boundary. If no living monster stands at `from`, or `to` falls in
    /// a chunk that is not loaded, the world is unchanged and `false`
    /// comes back.
    #[verifier::rlimit(80)]
    pub fn move_monster(&mut self, from: Point, to: Point) -> (moved: bool)
        requires
            world_wf(old(self)@),
        ensures
            world_wf(final(self)@),
            final(self)@ == spec_move_monster(old(self)@, from, to),
    {
        let ghost w0 = self@;
        let cs = self.chunk_size;
        let fcp = self.chunk_pos_of(from);
        let tcp = self.chunk_pos_of(to);
        let sci = match self.find_chunk(fcp) {
            Some(i) => i,
            None => {
                proof {
                    lemma_first_index(w0.chunks, |c: ChunkModel| c.position == fcp);
                    if spec_chunk_index(w0.chunks, fcp) >= 0 {
                        assert(spec_has_chunk(w0.chunks, fcp));
                    }
                }
                return false;
            },
        };
        proof {
            lemma_chunk_index_unique(w0, sci as int, fcp);
        }
        let smi = match self.first_live_monster_at(sci, from) {
            Some(j) => j,
            None => {
                return false;
            },
        };
        proof {
            lemma_first_index(w0.chunks[sci as int].monsters, |mm: Monster| !mm.dead
                && mm.position == from);
            lemma_floor_div_in_i32(from.x as int, cs as int);
            lemma_floor_div_in_i32(from.y as int, cs as int);
            lemma_floor_div_in_i32(to.x as int, cs as int);
            lemma_floor_div_in_i32(to.y as int, cs as int);
        }
        let m = self.chunks[sci].monsters[smi];
        let m2 = Monster {
            id: m.id,
            kind: m.kind,
            position: to,
            dead: m.dead,
            companion_bonus: m.companion_bonus,
        };
        if tcp.x == fcp.x && tcp.y == fcp.y {
            let mut tmp = Chunk {
                position: Point { x: 0, y: 0 },
                origin: Point { x: 0, y: 0 },
                size: cs,
                tiles: Vec::new(),
                monsters: Vec::new(),
                items: Vec::new(),
            };
            self.chunks.set_and_swap(sci, &mut tmp);
            tmp.monsters.set(smi, m2);
            self.chunks.set(sci, tmp);
            proof {
                let wn = self@;
                let oc = w0.chunks[sci as int];
                let sc2 = ChunkModel {
                    position: oc.position,
                    origin: oc.origin,
                    tiles: oc.tiles,
                    monsters: oc.monsters.update(smi as int, m2),
                    items: oc.items,
                };
                assert(wn.chunks =~= w0.chunks.update(sci as int, sc2));
                assert(wn =~= spec_move_monster(w0, from, to)) by {
                    assert(wn.chunks =~= spec_move_monster(w0, from, to).chunks);
                };
                assert forall|i: int, j: int|
                    0 <= i < wn.chunks.len() && 0 <= j < wn.chunks[i].monsters.len() implies (
                #[trigger] wn.chunks[i].monsters[j]).id == w0.chunks[i].monsters[j].id by {}
                assert forall|i: int| 0 <= i < wn.chunks.len() implies chunk_wf(
                    #[trigger] wn.chunks[i],
                    wn.chunk_size,
                ) by {
                    assert(chunk_wf(w0.chunks[i], w0.chunk_size));
                    if i == sci {
                        assert(oc.origin.x == oc.position.x * w0.chunk_size);
                        assert(oc.position == fcp);
                        assert(fcp == tcp);
                        assert(oc.origin.x <= to.x < oc.origin.x + w0.chunk_size);
                        assert(oc.origin.y <= to.y < oc.origin.y + w0.chunk_size);
                    }
                }
                assert(world_wf(wn));
            }
            true
        } else {
            let tci = match self.find_chunk(tcp) {
                Some(i) => i,
                None => {
                    proof {
                        lemma_first_index(w0.chunks, |c: ChunkModel| c.position == tcp);
                        if spec_chunk_index(w0.chunks, tcp) >= 0 {
                            assert(spec_has_chunk(w0.chunks, tcp));
                        }
                    }
                    return false;
                },
            };
            proof {
                lemma_chunk_index_unique(w0, tci as int, tcp);
                assert(tci != sci);
            }
            let mut tmp = Chunk {
                position: Point { x: 0, y: 0 },
                origin: Point { x: 0, y: 0 },
                size: cs,
                tiles: Vec::new(),
                monsters: Vec::new(),
                items: Vec::new(),
            };
            self.chunks.set_and_swap(sci, &mut tmp);
            tmp.monsters.remove(smi);
            self.chunks.set(sci, tmp);
            let mut tmp2 = Chunk {
                position: Point { x: 0, y: 0 },
                origin: Point { x: 0, y: 0 },
                size: cs,
                tiles: Vec::new(),
                monsters: Vec::new(),
                items: Vec::new(),
            };
            self.chunks.set_and_swap(tci, &mut tmp2);
            tmp2.monsters.push(m2);
            self.chunks.set(tci, tmp2);
            proof {
                let wn = self@;
                let oc = w0.chunks[sci as int];
                let tc = w0.chunks[tci as int];
                let sc2 = ChunkModel {
                    position: oc.position,
                    origin: oc.origin,
                    tiles: oc.tiles,
                    monsters: oc.monsters.remove(smi as int),
                    items: oc.items,
                };
                let tc2 = ChunkModel {
                    position: tc.position,
                    origin: tc.origin,
                    tiles: tc.tiles,
                    monsters: tc.monsters.push(m2),
                    items: tc.items,
                };
                assert(wn.chunks =~= w0.chunks.update(sci as int, sc2).update(tci as int, tc2));
                assert(wn =~= spec_move_monster(w0, from, to)) by {
                    assert(wn.chunks =~= spec_move_monster(w0, from, to).chunks);
                };
                let nc = wn.chunks;
                let smil = smi as int;
                assert(forall|j: int|
                    0 <= j < sc2.monsters.len() ==> #[trigger] sc2.monsters[j] == (if j < smil {
                        oc.monsters[j]
                    } else {
                        oc.monsters[j + 1]
                    }));
                assert forall|i: int| 0 <= i < nc.len() implies chunk_wf(
                    #[trigger] nc[i],
                    wn.chunk_size,
                ) by {
                    assert(chunk_wf(w0.chunks[i], w0.chunk_size));
                    if i == tci {
                        assert(tc.origin.x == tc.position.x * w0.chunk_size);
                        assert(tc.position == tcp);
                        assert(tc.origin.x <= to.x < tc.origin.x + w0.chunk_size);
                        assert(tc.origin.y <= to.y < tc.origin.y + w0.chunk_size);
                    }
                }
                assert forall|i: int, j: int|
                    0 <= i < nc.len() && 0 <= j < nc[i].monsters.len() implies (
                #[trigger] nc[i].monsters[j]).id < wn.next_monster_id by {
                    if i == sci {
                    } else if i == tci && j == nc[i].monsters.len() - 1 {
                        assert(nc[i].monsters[j] == m2);
                    }
                }
                assert forall|i1: int, j1: int, i2: int, j2: int|
                    #![trigger nc[i1].monsters[j1], nc[i2].monsters[j2]]
                    0 <= i1 < nc.len() && 0 <= j1 < nc[i1].monsters.len() && 0 <= i2 < nc.len()
                        && 0 <= j2 < nc[i2].monsters.len() && (i1 != i2 || j1 != j2) implies nc[
                    i1
                ].monsters[j1].id != nc[i2].monsters[j2].id by {
                    let a1 = if i1 == tci && j1 == nc[i1].monsters.len() - 1 {
                        sci as int
                    } else {
                        i1
                    };
                    let b1 = if i1 == tci && j1 == nc[i1].monsters.len() - 1 {
                        smil
                    } else if i1 == sci && j1 >= smil {
                        j1 + 1
                    } else {
                        j1
                    };
                    let a2 = if i2 == tci && j2 == nc[i2].monsters.len() - 1 {
                        sci as int
                    } else {
                        i2
                    };
                    let b2 = if i2 == tci && j2 == nc[i2].monsters.len() - 1 {
                        smil
                    } else if i2 == sci && j2 >= smil {
                        j2 + 1
                    } else {
                        j2
                    };
                    assert(nc[i1].monsters[j1].id == w0.chunks[a1].monsters[b1].id);
                    assert(nc[i2].monsters[j2].id == w0.chunks[a2].monsters[b2].id);
                    assert(a1 != a2 || b1 != b2);
                }
                assert(world_wf(wn));
            }
            true
        }
    }

    /// Index of the first item lying on `p` in chunk `ci`, if any.
    fn first_item_index(&self, ci: usize, p: Point) -> (r: Option<usize>)
        requires
            ci < self@.chunks.len(),
        ensures
            ({
                let ii = spec_first_item_at(self@.chunks[ci as int].items, p);
                match r {
                    Some(j) => j == ii,
                    None => ii == -1,
                }
            }),
    {
        let c = &self.chunks[ci];
        let mut j: usize = 0;
        while j < c.items.len()
            invariant
                j <= c.items@.len(),
                c == &self.chunks[ci as int],
                ci < self@.chunks.len(),
                self@.chunks.len() == self.chunks@.len(),
                self@.chunks[ci as int].items == c.items@,
                forall|q: int| 0 <= q < j ==> (#[trigger] c.items@[q]).0 != p,
            decreases c.items@.len() - j,
        {
            let (ip, _) = c.items[j];
            if ip.x == p.x && ip.y == p.y {
                proof {
                    lemma_first_item_at_witness(c.items@, p, j as int);
                }
                return Some(j);
            }
            j = j + 1;
        }
        proof {
            lemma_first_item_at(c.items@, p);
            if spec_first_item_at(c.items@, p) >= 0 {
                assert(c.items@[spec_first_item_at(c.items@, p)].0 == p);
                assert(false);
            }
        }
        None
    }

    /// Picks up the first item lying on `p` in chunk `ci`, removing it
    /// from the world.
    pub fn take_item_at(&mut self, ci: usize, p: Point) -> (r: Option<Item>)
        requires
            world_wf(old(self)@),
            ci < old(self)@.chunks.len(),
        ensures
            world_wf(final(self)@),
            ({
                let oc = old(self)@.chunks[ci as int];
                let ii = spec_first_item_at(oc.items, p);
                if ii < 0 {
                    r is None && final(self)@ == old(self)@
                } else {
                    r == Some(oc.items[ii].1) && final(self)@ == (WorldModel {
                        chunks: old(self)@.chunks.update(
                            ci as int,
                            ChunkModel { items: oc.items.remove(ii), ..oc },
                        ),
                        ..old(self)@
                    })
                }
            }),
    {
        let ghost w0 = self@;
        let found = self.first_item_index(ci, p);
        match found {
            None => None,
            Some(ii) => {
                proof {
                    lemma_first_item_at(w0.chunks[ci as int].items, p);
                }
                let cs = self.chunk_size;
                let mut tmp = Chunk {
                    position: Point { x: 0, y: 0 },
                    origin: Point { x: 0, y: 0 },
                    size: cs,
                    tiles: Vec::new(),
                    monsters: Vec::new(),
                    items: Vec::new(),
                };
                self.chunks.set_and_swap(ci, &mut tmp);
                proof {
                    assert(tmp.items@ == w0.chunks[ci as int].items);
                }
                let (_, item) = tmp.items.remove(ii);
                self.chunks.set(ci, tmp);
                proof {
                    let wn = self@;
                    let oc = w0.chunks[ci as int];
                    assert(wn.chunks =~= w0.chunks.update(
                        ci as int,
                        ChunkModel {
                            position: oc.position,
                            origin: oc.origin,
                            tiles: oc.tiles,
                            monsters: oc.monsters,
                            items: oc.items.remove(ii as int),
                        },
                    ));
                    assert forall|i: int, j2: int|
                        0 <= i < wn.chunks.len() && 0 <= j2 < wn.chunks[i].monsters.len() implies (
                    #[trigger] wn.chunks[i].monsters[j2]).id == w0.chunks[i].monsters[j2].id by {}
                    assert(world_wf(wn));
                }
                Some(item)
            },
        }
    }
}

} // verus!
