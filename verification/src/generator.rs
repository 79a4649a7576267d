//! Forest world generator.
//!
//! Produces one chunk's terrain, monsters and items from a deterministic
//! stream. Every function's result, and the stream state it leaves behind,
//! is pinned to a spec-level mirror of the algorithm, so chunk generation
//! is provably a pure function of the chunk seed. The throwaway stream is
//! only consulted for tile colours, which no contract mentions: cosmetic
//! randomness cannot leak into simulation state.

use crate::formula;
use crate::item::{Item, Kind as ItemKind, Modifier};
use crate::level::{Tile, TileKind};
use crate::monster::{CompanionBonus, Kind, Monster};
use crate::point::Point;
use crate::rng::{choose_weighted, next_state, total_weight, weighted_pick, SeededRng};
use vstd::prelude::*;

verus! {

/// Terrain table: empty ground versus trees.
pub open spec fn tile_weights() -> Seq<u32> {
    seq![formula::EMPTY_TILE_WEIGHT, formula::TREE_TILE_WEIGHT]
}

/// Monster table: no monster, the five regular kinds, the rare NPC.
pub open spec fn monster_weights() -> Seq<u32> {
    seq![
        formula::NO_MONSTER_WEIGHT,
        formula::MONSTER_KIND_WEIGHT,
        formula::MONSTER_KIND_WEIGHT,
        formula::MONSTER_KIND_WEIGHT,
        formula::MONSTER_KIND_WEIGHT,
        formula::MONSTER_KIND_WEIGHT,
        formula::NPC_WEIGHT,
    ]
}

/// Item table: no item, the four dose kinds, food.
pub open spec fn item_weights() -> Seq<u32> {
    seq![
        formula::NO_ITEM_WEIGHT,
        formula::DOSE_WEIGHT,
        formula::STRONG_DOSE_WEIGHT,
        formula::CARDINAL_DOSE_WEIGHT,
        formula::DIAGONAL_DOSE_WEIGHT,
        formula::FOOD_WEIGHT,
    ]
}

pub proof fn lemma_tile_weights_total()
    ensures
        total_weight(tile_weights()) == 1000,
{
    reveal_with_fuel(total_weight, 4);
    let ws = tile_weights();
    assert(ws.skip(1) =~= seq![formula::TREE_TILE_WEIGHT]);
    assert(ws.skip(1).skip(1) =~= Seq::<u32>::empty());
}

pub proof fn lemma_monster_weights_total()
    ensures
        total_weight(monster_weights()) == 1002,
{
    reveal_with_fuel(total_weight, 9);
    let ws = monster_weights();
    let w = formula::MONSTER_KIND_WEIGHT;
    assert(ws.skip(1) =~= seq![w, w, w, w, w, formula::NPC_WEIGHT]);
    assert(ws.skip(1).skip(1) =~= seq![w, w, w, w, formula::NPC_WEIGHT]);
    assert(ws.skip(1).skip(1).skip(1) =~= seq![w, w, w, formula::NPC_WEIGHT]);
    assert(ws.skip(1).skip(1).skip(1).skip(1) =~= seq![w, w, formula::NPC_WEIGHT]);
    assert(ws.skip(1).skip(1).skip(1).skip(1).skip(1) =~= seq![w, formula::NPC_WEIGHT]);
    assert(ws.skip(1).skip(1).skip(1).skip(1).skip(1).skip(1) =~= seq![formula::NPC_WEIGHT]);
    assert(ws.skip(1).skip(1).skip(1).skip(1).skip(1).skip(1).skip(1) =~= Seq::<u32>::empty());
}

pub proof fn lemma_item_weights_total()
    ensures
        total_weight(item_weights()) == 1020,
{
    reveal_with_fuel(total_weight, 8);
    let ws = item_weights();
    assert(ws.skip(1) =~= seq![
        formula::DOSE_WEIGHT,
        formula::STRONG_DOSE_WEIGHT,
        formula::CARDINAL_DOSE_WEIGHT,
        formula::DIAGONAL_DOSE_WEIGHT,
        formula::FOOD_WEIGHT,
    ]);
    assert(ws.skip(1).skip(1) =~= seq![
        formula::STRONG_DOSE_WEIGHT,
        formula::CARDINAL_DOSE_WEIGHT,
        formula::DIAGONAL_DOSE_WEIGHT,
        formula::FOOD_WEIGHT,
    ]);
    assert(ws.skip(1).skip(1).skip(1) =~= seq![
        formula::CARDINAL_DOSE_WEIGHT,
        formula::DIAGONAL_DOSE_WEIGHT,
        formula::FOOD_WEIGHT,
    ]);
    assert(ws.skip(1).skip(1).skip(1).skip(1) =~= seq![
        formula::DIAGONAL_DOSE_WEIGHT,
        formula::FOOD_WEIGHT,
    ]);
    assert(ws.skip(1).skip(1).skip(1).skip(1).skip(1) =~= seq![formula::FOOD_WEIGHT]);
    assert(ws.skip(1).skip(1).skip(1).skip(1).skip(1).skip(1) =~= Seq::<u32>::empty());
}

/// One weighted draw: the selected index and the stream state after it.
pub open spec fn spec_pick(state: u64, ws: Seq<u32>) -> (int, u64) {
    (weighted_pick(next_state(state) as int % total_weight(ws), ws), next_state(state))
}

/// The map prefix of length `i` (row-major positions with their terrain
/// kinds) and the stream state after generating it. The tile the player
/// occupies is forced to empty ground and consumes no draw.
pub open spec fn spec_gen_map(state: u64, i: nat, w: int, player: Point) -> (Seq<
    (Point, TileKind),
>, u64)
    decreases i,
{
    if i == 0 {
        (Seq::empty(), state)
    } else {
        let (prefix, st) = spec_gen_map(state, (i - 1) as nat, w, player);
        let k = i - 1;
        let pos = Point { x: (k % w) as i32, y: (k / w) as i32 };
        if pos == player {
            (prefix.push((pos, TileKind::Empty)), st)
        } else {
            let (idx, st2) = spec_pick(st, tile_weights());
            let kind = if idx == 0 {
                TileKind::Empty
            } else {
                TileKind::Tree
            };
            (prefix.push((pos, kind)), st2)
        }
    }
}

/// The regular monster kind an index of the monster table stands for.
pub open spec fn spec_kind_of_index(idx: int) -> Kind {
    if idx == 1 {
        Kind::Anxiety
    } else if idx == 2 {
        Kind::Depression
    } else if idx == 3 {
        Kind::Hunger
    } else if idx == 4 {
        Kind::Shadows
    } else {
        Kind::Voices
    }
}

/// One companion-bonus draw: never `Victory`, which only the scripted
/// victory NPC carries.
pub open spec fn spec_bonus(state: u64) -> (CompanionBonus, u64) {
    let r = next_state(state) as int % 3;
    let b = if r == 0 {
        CompanionBonus::DoubleWillGrowth
    } else if r == 1 {
        CompanionBonus::HalveExhaustion
    } else {
        CompanionBonus::ExtraActionPoint
    };
    (b, next_state(state))
}

/// The monsters spawned on the first `i` map tiles, with ids allocated
/// upwards from `base_id`, and the stream state after spawning them.
pub open spec fn spec_gen_monsters(m: Seq<(Point, TileKind)>, i: nat, state: u64, base_id: u64) -> (
    Seq<Monster>,
    u64,
)
    decreases i,
{
    if i == 0 || i > m.len() {
        (Seq::empty(), state)
    } else {
        let (prev, st) = spec_gen_monsters(m, (i - 1) as nat, state, base_id);
        let (pos, kind) = m[i - 1];
        if kind != TileKind::Empty {
            (prev, st)
        } else {
            let (idx, st2) = spec_pick(st, monster_weights());
            if idx == 0 {
                (prev, st2)
            } else if idx == 6 {
                let (bonus, st3) = spec_bonus(st2);
                let monster = Monster {
                    id: (base_id + prev.len()) as u64,
                    kind: Kind::Npc,
                    position: pos,
                    dead: false,
                    companion_bonus: Some(bonus),
                };
                (prev.push(monster), st3)
            } else {
                let monster = Monster {
                    id: (base_id + prev.len()) as u64,
                    kind: spec_kind_of_index(idx),
                    position: pos,
                    dead: false,
                    companion_bonus: None,
                };
                (prev.push(monster), st2)
            }
        }
    }
}

pub proof fn lemma_gen_monsters_len(m: Seq<(Point, TileKind)>, i: nat, state: u64, base_id: u64)
    ensures
        spec_gen_monsters(m, i, state, base_id).0.len() <= i,
    decreases i,
{
    if i == 0 || i > m.len() {
    } else {
        lemma_gen_monsters_len(m, (i - 1) as nat, state, base_id);
    }
}

/// The item a kind draw produces, with its randomised payload, and the
/// stream state afterwards. Doses consume one draw for their variance;
/// food is fixed.
pub open spec fn spec_new_item(kind: ItemKind, state: u64) -> (Item, u64) {
    match kind {
        ItemKind::Dose => {
            let delta = -formula::DOSE_MIND_VARIANCE + next_state(state) as int % (2
                * formula::DOSE_MIND_VARIANCE + 1);
            (
                Item {
                    kind,
                    modifier: Modifier::Intoxication {
                        state_of_mind: (formula::DOSE_MIND + delta) as i32,
                        tolerance_increase: formula::DOSE_TOLERANCE,
                    },
                },
                next_state(state),
            )
        },
        ItemKind::StrongDose => {
            let delta = -formula::STRONG_DOSE_MIND_VARIANCE + next_state(state) as int % (2
                * formula::STRONG_DOSE_MIND_VARIANCE + 1);
            (
                Item {
                    kind,
                    modifier: Modifier::Intoxication {
                        state_of_mind: (formula::STRONG_DOSE_MIND + delta) as i32,
                        tolerance_increase: formula::STRONG_DOSE_TOLERANCE,
                    },
                },
                next_state(state),
            )
        },
        ItemKind::CardinalDose => {
            let delta = -formula::CARDINAL_DOSE_MIND_VARIANCE + next_state(state) as int % (2
                * formula::CARDINAL_DOSE_MIND_VARIANCE + 1);
            (
                Item {
                    kind,
                    modifier: Modifier::Intoxication {
                        state_of_mind: (formula::CARDINAL_DOSE_MIND + delta) as i32,
                        tolerance_increase: formula::CARDINAL_DOSE_TOLERANCE,
                    },
                },
                next_state(state),
            )
        },
        ItemKind::DiagonalDose => {
            let delta = -formula::DIAGONAL_DOSE_MIND_VARIANCE + next_state(state) as int % (2
                * formula::DIAGONAL_DOSE_MIND_VARIANCE + 1);
            (
                Item {
                    kind,
                    modifier: Modifier::Intoxication {
                        state_of_mind: (formula::DIAGONAL_DOSE_MIND + delta) as i32,
                        tolerance_increase: formula::DIAGONAL_DOSE_TOLERANCE,
                    },
                },
                next_state(state),
            )
        },
        ItemKind::Food => (
            Item {
                kind,
                modifier: Modifier::Attribute { will: 0, state_of_mind: formula::FOOD_MIND },
            },
            state,
        ),
    }
}

/// Whether some spawned monster stands on `p`.
pub open spec fn spec_has_monster_at(ms: Seq<Monster>, p: Point) -> bool {
    exists|j: int| 0 <= j < ms.len() && ms[j].position == p
}

/// The item kind an index of the item table stands for.
pub open spec fn spec_item_kind_of_index(idx: int) -> ItemKind {
    if idx == 1 {
        ItemKind::Dose
    } else if idx == 2 {
        ItemKind::StrongDose
    } else if idx == 3 {
        ItemKind::CardinalDose
    } else if idx == 4 {
        ItemKind::DiagonalDose
    } else {
        ItemKind::Food
    }
}

/// The items spawned on the first `i` map tiles (empty ground free of
/// monsters only) and the stream state after spawning them.
pub open spec fn spec_gen_items(
    m: Seq<(Point, TileKind)>,
    ms: Seq<Monster>,
    i: nat,
    state: u64,
) -> (Seq<(Point, Item)>, u64)
    decreases i,
{
    if i == 0 || i > m.len() {
        (Seq::empty(), state)
    } else {
        let (prev, st) = spec_gen_items(m, ms, (i - 1) as nat, state);
        let (pos, kind) = m[i - 1];
        if kind != TileKind::Empty || spec_has_monster_at(ms, pos) {
            (prev, st)
        } else {
            let (idx, st2) = spec_pick(st, item_weights());
            if idx == 0 {
                (prev, st2)
            } else {
                let (item, st3) = spec_new_item(spec_item_kind_of_index(idx), st2);
                (prev.push((pos, item)), st3)
            }
        }
    }
}


/// The simulation-relevant projection of a generated map: positions and
/// terrain kinds, colours dropped.
pub open spec fn map_kinds(m: Seq<(Point, Tile)>) -> Seq<(Point, TileKind)> {
    m.map_values(|pt: (Point, Tile)| (pt.0, pt.1.kind))
}

pub proof fn lemma_gen_map_len(state: u64, i: nat, w: int, player: Point)
    ensures
        spec_gen_map(state, i, w, player).0.len() == i,
    decreases i,
{
    if i == 0 {
    } else {
        lemma_gen_map_len(state, (i - 1) as nat, w, player);
    }
}

/// Whatever the stream holds, the tile at the player's position is empty
/// ground: the spawn is always safe.
pub proof fn lemma_player_tile_empty(state: u64, i: nat, w: int, player: Point)
    ensures
        forall|k: int|
            0 <= k < spec_gen_map(state, i, w, player).0.len() && spec_gen_map(
                state,
                i,
                w,
                player,
            ).0[k].0 == player ==> spec_gen_map(state, i, w, player).0[k].1 == TileKind::Empty,
    decreases i,
{
    if i == 0 {
    } else {
        lemma_player_tile_empty(state, (i - 1) as nat, w, player);
        lemma_gen_map_len(state, (i - 1) as nat, w, player);
    }
}

/// Everything one chunk request produces: the map, the monsters, the
/// items, and the stream state left behind.
pub open spec fn spec_generate(state: u64, w: int, h: int, player: Point, base_id: u64) -> (
    Seq<(Point, TileKind)>,
    Seq<Monster>,
    Seq<(Point, Item)>,
    u64,
) {
    let (m, s1) = spec_gen_map(state, (w * h) as nat, w, player);
    let (ms, s2) = spec_gen_monsters(m, m.len(), s1, base_id);
    let (its, s3) = spec_gen_items(m, ms, m.len(), s2);
    (m, ms, its, s3)
}

/// Generates the terrain grid in row-major order. The tile the player
/// occupies is forced to `Empty` without consuming a draw; tree colours
/// come from the throwaway stream and are not part of the contract.
pub fn generate_map(
    rng: &mut SeededRng,
    throwaway_rng: &mut SeededRng,
    map_size: Point,
    player_pos: Point,
) -> (map: Vec<(Point, Tile)>)
    requires
        1 <= map_size.x <= 256,
        1 <= map_size.y <= 256,
    ensures
        ({
            let (sm, st) = spec_gen_map(
                old(rng).view_state(),
                (map_size.x * map_size.y) as nat,
                map_size.x as int,
                player_pos,
            );
            map_kinds(map@) == sm && final(rng).view_state() == st && map@.len() == sm.len()
        }),
{
    let w: usize = map_size.x as usize;
    let h: usize = map_size.y as usize;
    proof {
        assert(w * h <= 65536) by (nonlinear_arith)
            requires
                1 <= w <= 256,
                1 <= h <= 256,
        ;
    }
    let count: usize = w * h;
    let mut weights: Vec<u32> = Vec::new();
    weights.push(formula::EMPTY_TILE_WEIGHT);
    weights.push(formula::TREE_TILE_WEIGHT);
    proof {
        lemma_tile_weights_total();
        assert(weights@ =~= tile_weights());
    }
    let mut map: Vec<(Point, Tile)> = Vec::new();
    let mut k: usize = 0;
    while k < count
        invariant
            w == map_size.x,
            h == map_size.y,
            1 <= w <= 256,
            1 <= h <= 256,
            count == w * h,
            k <= count,
            map@.len() == k,
            weights@ == tile_weights(),
            total_weight(tile_weights()) == 1000,
            ({
                let (sm, st) = spec_gen_map(
                    old(rng).view_state(),
                    k as nat,
                    w as int,
                    player_pos,
                );
                map_kinds(map@) == sm && rng.view_state() == st
            }),
        decreases count - k,
    {
        let x: usize = k % w;
        let y: usize = k / w;
        proof {
            assert(y < h) by (nonlinear_arith)
                requires
                    k < w * h,
                    w >= 1,
                    y == k as int / w as int,
            ;
        }
        let pos = Point::new(x as i32, y as i32);
        let kind = if pos.x == player_pos.x && pos.y == player_pos.y {
            TileKind::Empty
        } else {
            let idx = choose_weighted(rng, &weights);
            if idx == 0 {
                TileKind::Empty
            } else {
                TileKind::Tree
            }
        };
        let mut tile = Tile::new(kind);
        if kind == TileKind::Tree {
            tile.fg_color = throwaway_rng.below(3) as u8;
        }
        map.push((pos, tile));
        k = k + 1;
        proof {
            assert(map_kinds(map@) =~= map_kinds(map@.take(k - 1)).push((pos, tile.kind)));
        }
    }
    proof {
        lemma_gen_map_len(old(rng).view_state(), count as nat, w as int, player_pos);
    }
    map
}


/// Generates the monster population for a freshly generated map. Ids are
/// handed out in spawn order starting at `base_id`, so uniqueness only
/// needs the caller's counter to be fresh.
pub fn generate_monsters(rng: &mut SeededRng, map: &Vec<(Point, Tile)>, base_id: u64) -> (ms: Vec<
    Monster,
>)
    requires
        base_id + map@.len() <= u64::MAX,
    ensures
        ({
            let (sm, st) = spec_gen_monsters(
                map_kinds(map@),
                map@.len() as nat,
                old(rng).view_state(),
                base_id,
            );
            ms@ == sm && final(rng).view_state() == st
        }),
{
    let mut weights: Vec<u32> = Vec::new();
    weights.push(formula::NO_MONSTER_WEIGHT);
    weights.push(formula::MONSTER_KIND_WEIGHT);
    weights.push(formula::MONSTER_KIND_WEIGHT);
    weights.push(formula::MONSTER_KIND_WEIGHT);
    weights.push(formula::MONSTER_KIND_WEIGHT);
    weights.push(formula::MONSTER_KIND_WEIGHT);
    weights.push(formula::NPC_WEIGHT);
    proof {
        lemma_monster_weights_total();
        assert(weights@ =~= monster_weights());
    }
    let mut ms: Vec<Monster> = Vec::new();
    let mut i: usize = 0;
    while i < map.len()
        invariant
            i <= map@.len(),
            base_id + map@.len() <= u64::MAX,
            weights@ == monster_weights(),
            total_weight(monster_weights()) == 1002,
            ({
                let (sm, st) = spec_gen_monsters(
                    map_kinds(map@),
                    i as nat,
                    old(rng).view_state(),
                    base_id,
                );
                ms@ == sm && rng.view_state() == st
            }),
            ms@.len() <= i,
        decreases map@.len() - i,
    {
        let (pos, tile) = map[i];
        proof {
            assert(map_kinds(map@)[i as int] == (pos, tile.kind));
        }
        if tile.kind == TileKind::Empty {
            let idx = choose_weighted(rng, &weights);
            if idx == 6 {
                let roll = rng.below(3);
                let bonus = if roll == 0 {
                    CompanionBonus::DoubleWillGrowth
                } else if roll == 1 {
                    CompanionBonus::HalveExhaustion
                } else {
                    CompanionBonus::ExtraActionPoint
                };
                let id = base_id + ms.len() as u64;
                ms.push(
                    Monster { id, kind: Kind::Npc, position: pos, dead: false, companion_bonus: Some(bonus) },
                );
            } else if idx != 0 {
                let kind = if idx == 1 {
                    Kind::Anxiety
                } else if idx == 2 {
                    Kind::Depression
                } else if idx == 3 {
                    Kind::Hunger
                } else if idx == 4 {
                    Kind::Shadows
                } else {
                    Kind::Voices
                };
                let id = base_id + ms.len() as u64;
                ms.push(Monster { id, kind, position: pos, dead: false, companion_bonus: None });
            }
        }
        i = i + 1;
        proof {
            lemma_gen_monsters_len(map_kinds(map@), i as nat, old(rng).view_state(), base_id);
        }
    }
    ms
}

/// Whether any monster of the list stands on `p`.
pub fn contains_monster_at(ms: &Vec<Monster>, p: Point) -> (b: bool)
    ensures
        b == spec_has_monster_at(ms@, p),
{
    let mut j: usize = 0;
    while j < ms.len()
        invariant
            j <= ms@.len(),
            forall|q: int| 0 <= q < j ==> ms@[q].position != p,
        decreases ms@.len() - j,
    {
        if ms[j].position.x == p.x && ms[j].position.y == p.y {
            proof {
                assert(ms@[j as int].position == p);
            }
            return true;
        }
        j = j + 1;
    }
    false
}

/// Builds one item of the given kind, drawing its randomised payload
/// from the stream.
pub fn new_item(kind: ItemKind, rng: &mut SeededRng) -> (item: Item)
    ensures
        ({
            let (it, st) = spec_new_item(kind, old(rng).view_state());
            item == it && final(rng).view_state() == st
        }),
{
    match kind {
        ItemKind::Dose => {
            let delta = rng.range_inclusive(
                -formula::DOSE_MIND_VARIANCE,
                formula::DOSE_MIND_VARIANCE,
            );
            Item {
                kind,
                modifier: Modifier::Intoxication {
                    state_of_mind: formula::DOSE_MIND + delta,
                    tolerance_increase: formula::DOSE_TOLERANCE,
                },
            }
        },
        ItemKind::StrongDose => {
            let delta = rng.range_inclusive(
                -formula::STRONG_DOSE_MIND_VARIANCE,
                formula::STRONG_DOSE_MIND_VARIANCE,
            );
            Item {
                kind,
                modifier: Modifier::Intoxication {
                    state_of_mind: formula::STRONG_DOSE_MIND + delta,
                    tolerance_increase: formula::STRONG_DOSE_TOLERANCE,
                },
            }
        },
        ItemKind::CardinalDose => {
            let delta = rng.range_inclusive(
                -formula::CARDINAL_DOSE_MIND_VARIANCE,
                formula::CARDINAL_DOSE_MIND_VARIANCE,
            );
            Item {
                kind,
                modifier: Modifier::Intoxication {
                    state_of_mind: formula::CARDINAL_DOSE_MIND + delta,
                    tolerance_increase: formula::CARDINAL_DOSE_TOLERANCE,
                },
            }
        },
        ItemKind::DiagonalDose => {
            let delta = rng.range_inclusive(
                -formula::DIAGONAL_DOSE_MIND_VARIANCE,
                formula::DIAGONAL_DOSE_MIND_VARIANCE,
            );
            Item {
                kind,
                modifier: Modifier::Intoxication {
                    state_of_mind: formula::DIAGONAL_DOSE_MIND + delta,
                    tolerance_increase: formula::DIAGONAL_DOSE_TOLERANCE,
                },
            }
        },
        ItemKind::Food => Item {
            kind,
            modifier: Modifier::Attribute { will: 0, state_of_mind: formula::FOOD_MIND },
        },
    }
}

/// Generates the item population: one weighted draw per empty,
/// monster-free tile.
pub fn generate_items(rng: &mut SeededRng, map: &Vec<(Point, Tile)>, ms: &Vec<Monster>) -> (items:
    Vec<(Point, Item)>)
    ensures
        ({
            let (si, st) = spec_gen_items(
                map_kinds(map@),
                ms@,
                map@.len() as nat,
                old(rng).view_state(),
            );
            items@ == si && final(rng).view_state() == st
        }),
{
    let mut weights: Vec<u32> = Vec::new();
    weights.push(formula::NO_ITEM_WEIGHT);
    weights.push(formula::DOSE_WEIGHT);
    weights.push(formula::STRONG_DOSE_WEIGHT);
    weights.push(formula::CARDINAL_DOSE_WEIGHT);
    weights.push(formula::DIAGONAL_DOSE_WEIGHT);
    weights.push(formula::FOOD_WEIGHT);
    proof {
        lemma_item_weights_total();
        assert(weights@ =~= item_weights());
    }
    let mut items: Vec<(Point, Item)> = Vec::new();
    let mut i: usize = 0;
    while i < map.len()
        invariant
            i <= map@.len(),
            weights@ == item_weights(),
            total_weight(item_weights()) == 1020,
            ({
                let (si, st) = spec_gen_items(
                    map_kinds(map@),
                    ms@,
                    i as nat,
                    old(rng).view_state(),
                );
                items@ == si && rng.view_state() == st
            }),
        decreases map@.len() - i,
    {
        let (pos, tile) = map[i];
        proof {
            assert(map_kinds(map@)[i as int] == (pos, tile.kind));
        }
        if tile.kind == TileKind::Empty && !contains_monster_at(ms, pos) {
            let idx = choose_weighted(rng, &weights);
            if idx != 0 {
                let kind = if idx == 1 {
                    ItemKind::Dose
                } else if idx == 2 {
                    ItemKind::StrongDose
                } else if idx == 3 {
                    ItemKind::CardinalDose
                } else if idx == 4 {
                    ItemKind::DiagonalDose
                } else {
                    ItemKind::Food
                };
                let item = new_item(kind, rng);
                items.push((pos, item));
            }
        }
        i = i + 1;
    }
    items
}

/// Generates one chunk's full content. The result, together with the
/// stream state left in `rng`, is a pure function of the incoming stream
/// state, the size, the player position and the id counter; the tile at
/// the player's position is always empty ground.
pub fn generate(
    rng: &mut SeededRng,
    throwaway_rng: &mut SeededRng,
    size: Point,
    player: Point,
    base_id: u64,
) -> (world: (Vec<(Point, Tile)>, Vec<Monster>, Vec<(Point, Item)>))
    requires
        1 <= size.x <= 256,
        1 <= size.y <= 256,
        base_id + size.x * size.y <= u64::MAX,
    ensures
        ({
            let (m, ms, its, st) = spec_generate(
                old(rng).view_state(),
                size.x as int,
                size.y as int,
                player,
                base_id,
            );
            map_kinds(world.0@) == m && world.1@ == ms && world.2@ == its
                && final(rng).view_state() == st && world.0@.len() == m.len()
        }),
        forall|k: int|
            0 <= k < world.0@.len() && world.0@[k].0 == player ==> world.0@[k].1.kind
                == TileKind::Empty,
{
    let map = generate_map(rng, throwaway_rng, size, player);
    proof {
        lemma_gen_map_len(
            old(rng).view_state(),
            (size.x * size.y) as nat,
            size.x as int,
            player,
        );
    }
    let monsters = generate_monsters(rng, &map, base_id);
    let items = generate_items(rng, &map, &monsters);
    proof {
        lemma_player_tile_empty(
            old(rng).view_state(),
            (size.x * size.y) as nat,
            size.x as int,
            player,
        );
        let sm = spec_gen_map(
            old(rng).view_state(),
            (size.x * size.y) as nat,
            size.x as int,
            player,
        ).0;
        assert forall|k: int| 0 <= k < map@.len() && map@[k].0 == player implies map@[
            k
        ].1.kind == TileKind::Empty by {
            assert(map_kinds(map@)[k] == (map@[k].0, map@[k].1.kind));
            assert(sm[k].0 == player);
            assert(sm[k].1 == TileKind::Empty);
        }
    }
    (map, monsters, items)
}


/// Map positions are the row-major enumeration of the grid.
pub proof fn lemma_gen_map_pos(state: u64, i: nat, w: int, h: int, player: Point)
    requires
        1 <= w <= 256,
        i <= w * h,
        1 <= h <= 256,
    ensures
        forall|k: int|
            0 <= k < spec_gen_map(state, i, w, player).0.len() ==> {
                let pos = (#[trigger] spec_gen_map(state, i, w, player).0[k]).0;
                pos == (Point { x: (k % w) as i32, y: (k / w) as i32 }) && 0 <= k % w < w && 0
                    <= k / w < h
            },
    decreases i,
{
    lemma_gen_map_len(state, i, w, player);
    if i == 0 {
    } else {
        lemma_gen_map_pos(state, (i - 1) as nat, w, h, player);
        lemma_gen_map_len(state, (i - 1) as nat, w, player);
        let k = i - 1;
        vstd::arithmetic::div_mod::lemma_mod_division_less_than_divisor(k as int, w);
        vstd::arithmetic::div_mod::lemma_div_pos_is_pos(k as int, w);
        vstd::arithmetic::div_mod::lemma_multiply_divide_lt(k as int, w, h);
    }
}

/// Spawned monsters stand on map tiles: their (chunk-local) positions
/// stay inside the grid.
pub proof fn lemma_gen_monsters_pos(
    m: Seq<(Point, TileKind)>,
    i: nat,
    state: u64,
    base_id: u64,
    w: int,
    h: int,
)
    requires
        forall|k: int|
            0 <= k < m.len() ==> 0 <= (#[trigger] m[k]).0.x < w && 0 <= m[k].0.y < h,
    ensures
        forall|j: int|
            0 <= j < spec_gen_monsters(m, i, state, base_id).0.len() ==> {
                let p = (#[trigger] spec_gen_monsters(m, i, state, base_id).0[j]).position;
                0 <= p.x < w && 0 <= p.y < h
            },
    decreases i,
{
    if i == 0 || i > m.len() {
    } else {
        lemma_gen_monsters_pos(m, (i - 1) as nat, state, base_id, w, h);
    }
}

/// Monster ids are handed out consecutively from `base_id` in spawn
/// order.
pub proof fn lemma_gen_monsters_ids(m: Seq<(Point, TileKind)>, i: nat, state: u64, base_id: u64)
    requires
        base_id + m.len() <= u64::MAX,
    ensures
        forall|j: int|
            0 <= j < spec_gen_monsters(m, i, state, base_id).0.len() ==> (#[trigger] spec_gen_monsters(
                m,
                i,
                state,
                base_id,
            ).0[j]).id == base_id + j,
    decreases i,
{
    if i == 0 || i > m.len() {
    } else {
        lemma_gen_monsters_ids(m, (i - 1) as nat, state, base_id);
        lemma_gen_monsters_len(m, (i - 1) as nat, state, base_id);
    }
}


/// Spawned items lie on map tiles: their (chunk-local) positions stay
/// inside the grid.
pub proof fn lemma_gen_items_pos(
    m: Seq<(Point, TileKind)>,
    ms: Seq<Monster>,
    i: nat,
    state: u64,
    w: int,
    h: int,
)
    requires
        forall|k: int|
            0 <= k < m.len() ==> 0 <= (#[trigger] m[k]).0.x < w && 0 <= m[k].0.y < h,
    ensures
        forall|j: int|
            0 <= j < spec_gen_items(m, ms, i, state).0.len() ==> {
                let p = (#[trigger] spec_gen_items(m, ms, i, state).0[j]).0;
                0 <= p.x < w && 0 <= p.y < h
            },
    decreases i,
{
    if i == 0 || i > m.len() {
    } else {
        lemma_gen_items_pos(m, ms, (i - 1) as nat, state, w, h);
        let prev = spec_gen_items(m, ms, (i - 1) as nat, state).0;
        let cur = spec_gen_items(m, ms, i, state).0;
        let pos = m[i - 1].0;
        assert(0 <= pos.x < w && 0 <= pos.y < h);
        assert(cur == prev || (cur.len() == prev.len() + 1 && cur.last().0 == pos && forall|j: int|
            0 <= j < prev.len() ==> cur[j] == prev[j]));
    }
}

} // verus!
