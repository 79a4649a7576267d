//! The engine's global guarantees, stated once and proved from the
//! contracts of the modules they speak about.

use crate::point::Point;
use crate::state::{spec_run_turns, spec_state_new, spec_verification, StateModel};
use crate::world::{
    spec_chunk_at_model, spec_has_chunk, spec_make_chunk, world_wf, WorldModel,
};
use vstd::prelude::*;

verus! {

/// Chunk generation is deterministic: two worlds that agree on the seed,
/// the geometry, the spawn point and the id counter generate identical
/// chunks for a coordinate, whatever else happened to them. Within one
/// session the store never regenerates a loaded chunk, so every access
/// to a coordinate sees this one content.
pub proof fn lemma_chunk_generation_deterministic(w1: WorldModel, w2: WorldModel, cpos: Point)
    requires
        w1.seed == w2.seed,
        w1.chunk_size == w2.chunk_size,
        w1.spawn == w2.spawn,
        w1.next_monster_id == w2.next_monster_id,
        !spec_has_chunk(w1.chunks, cpos),
        !spec_has_chunk(w2.chunks, cpos),
    ensures
        spec_chunk_at_model(w1, cpos).chunks.last() == spec_chunk_at_model(w2, cpos).chunks.last(),
        spec_chunk_at_model(w1, cpos).chunks.last() == spec_make_chunk(
            w1.seed,
            w1.chunk_size,
            w1.spawn,
            cpos,
            w1.next_monster_id,
        ),
{
}

/// Replay determinism: two fresh sessions built from the same seed,
/// geometry and queues produce identical verification snapshots after
/// any number of turns. Every transition of the state machine is pinned
/// to a pure function of the model, so the whole run is a function of
/// the starting state.
pub proof fn lemma_replay_deterministic(
    world_size: Point,
    map_size: i32,
    panel_width: i32,
    display_size: Point,
    commands: Seq<crate::codec::CommandModel>,
    verifications: Seq<crate::state::VerificationModel>,
    seed: u32,
    cheating: bool,
    invincible: bool,
    replay: bool,
    replay_full_speed: bool,
    exit_after: bool,
    n: nat,
)
    ensures
        ({
            let s1 = spec_state_new(
                world_size,
                map_size,
                panel_width,
                display_size,
                commands,
                verifications,
                seed,
                cheating,
                invincible,
                replay,
                replay_full_speed,
                exit_after,
            );
            let s2 = spec_state_new(
                world_size,
                map_size,
                panel_width,
                display_size,
                commands,
                verifications,
                seed,
                cheating,
                invincible,
                replay,
                replay_full_speed,
                exit_after,
            );
            spec_verification(spec_run_turns(s1, n)) == spec_verification(spec_run_turns(s2, n))
        }),
{
}

/// No two monsters, alive or dead, ever share an id: dead monsters can
/// never alias a living one's identity, and a monster that crossed a
/// chunk boundary is still the only holder of its id. This is the
/// well-formedness invariant every world operation preserves.
pub proof fn lemma_monster_ids_unique(w: WorldModel, i1: int, j1: int, i2: int, j2: int)
    requires
        world_wf(w),
        0 <= i1 < w.chunks.len(),
        0 <= j1 < w.chunks[i1].monsters.len(),
        0 <= i2 < w.chunks.len(),
        0 <= j2 < w.chunks[i2].monsters.len(),
        i1 != i2 || j1 != j2,
    ensures
        w.chunks[i1].monsters[j1].id != w.chunks[i2].monsters[j2].id,
{
}

/// The spawn tile is always empty ground, whatever the stream rolled:
/// in the chunk holding the spawn position, the tile under the spawn is
/// `Empty`.
pub proof fn lemma_spawn_tile_empty(seed: u32, cs: int, spawn: Point, cpos: Point, base_id: u64)
    requires
        1 <= cs <= 256,
        -536_871_168 <= cpos.x * cs <= 536_871_168,
        -536_871_168 <= cpos.y * cs <= 536_871_168,
        ({
            let c = spec_make_chunk(seed, cs, spawn, cpos, base_id);
            c.origin.x <= spawn.x < c.origin.x + cs && c.origin.y <= spawn.y < c.origin.y + cs
        }),
    ensures
        crate::world::spec_tile_at(
            spec_make_chunk(seed, cs, spawn, cpos, base_id),
            cs,
            spawn,
        ) == crate::level::TileKind::Empty,
{
    let c = spec_make_chunk(seed, cs, spawn, cpos, base_id);
    let origin = Point { x: (cpos.x * cs) as i32, y: (cpos.y * cs) as i32 };
    let rel = Point { x: (spawn.x - origin.x) as i32, y: (spawn.y - origin.y) as i32 };
    let st0 = crate::rng::seeded_state(crate::world::spec_chunk_seed(seed, cpos));
    let gm = crate::generator::spec_gen_map(st0, (cs * cs) as nat, cs, rel);
    crate::generator::lemma_gen_map_len(st0, (cs * cs) as nat, cs, rel);
    crate::generator::lemma_gen_map_pos(st0, (cs * cs) as nat, cs, cs, rel);
    crate::generator::lemma_player_tile_empty(st0, (cs * cs) as nat, cs, rel);
    let k = (spawn.y - c.origin.y) * cs + (spawn.x - c.origin.x);
    assert(0 <= k < cs * cs) by (nonlinear_arith)
        requires
            0 <= spawn.x - c.origin.x < cs,
            0 <= spawn.y - c.origin.y < cs,
            k == (spawn.y - c.origin.y) * cs + (spawn.x - c.origin.x),
    ;
    vstd::arithmetic::div_mod::lemma_fundamental_div_mod_converse(
        k,
        cs,
        spawn.y - c.origin.y,
        spawn.x - c.origin.x,
    );
    assert(gm.0[k].0 == (Point { x: (k % cs) as i32, y: (k / cs) as i32 }));
    assert(gm.0[k].0 == rel);
    assert(gm.0[k].1 == crate::level::TileKind::Empty);
    assert(c.tiles[k] == gm.0[k].1);
}

} // verus!
