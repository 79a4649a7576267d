//! Top-level simulation state and the turn-processing state machine.
//!
//! `State` aggregates the player, the chunked world, the deterministic
//! stream, the pending command queue, the verification queue for replay
//! checking, and the pending replay-log lines. Every transition is
//! pinned to a spec-level model, so a replayed command stream provably
//! reproduces the same verification snapshots.

use crate::codec::{
    dec_digits, encode_command, encode_verification, spec_encode_command,
    spec_encode_verification, CommandModel, ReplayData,
};
use crate::formula;
use crate::item::{Item, Kind as ItemKind, Modifier};
use crate::monster::{kind_rank, rank_of_kind, Kind, Monster};
use crate::player::{player_wf, spec_player_new, Player, PlayerModel};
use crate::point::Point;
use crate::rng::{seeded_state, SeededRng};
use crate::world::{
    spec_chunk_at_model, spec_chunk_index, spec_chunk_pos, spec_first_item_at, spec_first_live_at,
    spec_move_monster, spec_tile_at, within_bounds, world_wf, ChunkModel, World, WorldModel,
    WORLD_SIDE_MAX,
};
use crate::level::TileKind;
use crate::monster::CompanionBonus;
use crate::rng::next_state;
use std::collections::VecDeque;
use vstd::prelude::*;

verus! {

/// Whose move it is, or whether the game has been won.
#[derive(Clone, Copy, PartialEq, Eq, Structural, Debug)]
pub enum Side {
    Player,
    Victory,
}

/// Raw player or AI intent, abstracted from the input device. Immutable
/// once created; the unit of replay.
#[derive(Clone, PartialEq, Debug)]
pub enum Command {
    N,
    E,
    S,
    W,
    NE,
    NW,
    SE,
    SW,
    UseFood,
    UseDose,
    UseCardinalDose,
    UseDiagonalDose,
    UseStrongDose,
    /// A timed UI message; the payload is the UTF-8 text and how long to
    /// show it.
    ShowMessageBox { ttl_secs: u64, ttl_nanos: u32, message: Vec<u8> },
}

/// Ghost model of a verification snapshot.
pub struct VerificationModel {
    pub turn: int,
    pub chunk_count: int,
    pub player_pos: Point,
    pub monsters: Seq<(Point, Point, Kind)>,
}

/// A deterministic snapshot of simulation-critical state: used to detect
/// divergence between a live run and a replayed run. The monster list is
/// sorted by (x, y, kind) so two snapshots compare bit for bit.
#[derive(Clone, PartialEq, Debug)]
pub struct Verification {
    pub turn: i32,
    pub chunk_count: usize,
    pub player_pos: Point,
    pub monsters: Vec<(Point, Point, Kind)>,
}

impl View for Verification {
    type V = VerificationModel;

    open spec fn view(&self) -> VerificationModel {
        VerificationModel {
            turn: self.turn as int,
            chunk_count: self.chunk_count as int,
            player_pos: self.player_pos,
            monsters: self.monsters@,
        }
    }
}

/// The live-monster tuples (position, chunk coordinate, kind) of the
/// first `i` monsters of one chunk, in storage order.
pub open spec fn spec_chunk_ver_entries(c: ChunkModel, i: nat) -> Seq<(Point, Point, Kind)>
    decreases i,
{
    if i == 0 || i > c.monsters.len() {
        Seq::empty()
    } else {
        let prev = spec_chunk_ver_entries(c, (i - 1) as nat);
        let m = c.monsters[i - 1];
        if m.dead {
            prev
        } else {
            prev.push((m.position, c.position, m.kind))
        }
    }
}

/// The live-monster tuples of the first `i` chunks, unsorted.
pub open spec fn spec_ver_entries(chunks: Seq<ChunkModel>, i: nat) -> Seq<(Point, Point, Kind)>
    decreases i,
{
    if i == 0 || i > chunks.len() {
        Seq::empty()
    } else {
        spec_ver_entries(chunks, (i - 1) as nat) + spec_chunk_ver_entries(
            chunks[i - 1],
            chunks[i - 1].monsters.len(),
        )
    }
}

/// Strict comparison for the verification sort: by monster x, then y,
/// then kind.
pub open spec fn ver_key_lt(a: (Point, Point, Kind), b: (Point, Point, Kind)) -> bool {
    ||| a.0.x < b.0.x
    ||| (a.0.x == b.0.x && a.0.y < b.0.y)
    ||| (a.0.x == b.0.x && a.0.y == b.0.y && kind_rank(a.2) < kind_rank(b.2))
}

/// Stable insertion of `t` into an already sorted run: `t` lands after
/// every strictly smaller element.
pub open spec fn spec_insert_entry(t: (Point, Point, Kind), s: Seq<(Point, Point, Kind)>) -> Seq<
    (Point, Point, Kind),
>
    decreases s.len(),
{
    if s.len() == 0 {
        seq![t]
    } else if ver_key_lt(s[0], t) {
        seq![s[0]] + spec_insert_entry(t, s.skip(1))
    } else {
        seq![t] + s
    }
}

/// Insertion sort of the first `i` entries, in input order.
pub open spec fn spec_sort_entries_prefix(s: Seq<(Point, Point, Kind)>, i: nat) -> Seq<
    (Point, Point, Kind),
>
    decreases i,
{
    if i == 0 || i > s.len() {
        Seq::empty()
    } else {
        spec_insert_entry(s[i - 1], spec_sort_entries_prefix(s, (i - 1) as nat))
    }
}

/// The deterministic sorted order of the verification monster list.
pub open spec fn spec_sort_entries(s: Seq<(Point, Point, Kind)>) -> Seq<(Point, Point, Kind)> {
    spec_sort_entries_prefix(s, s.len())
}

/// Inserting at the first position whose element is not strictly smaller
/// is exactly what [`spec_insert_entry`] does.
pub proof fn lemma_insert_entry_at(
    t: (Point, Point, Kind),
    s: Seq<(Point, Point, Kind)>,
    j: int,
)
    requires
        0 <= j <= s.len(),
        forall|q: int| 0 <= q < j ==> ver_key_lt(#[trigger] s[q], t),
        j < s.len() ==> !ver_key_lt(s[j], t),
    ensures
        spec_insert_entry(t, s) == s.take(j) + seq![t] + s.skip(j),
    decreases s.len(),
{
    if s.len() == 0 {
        assert(spec_insert_entry(t, s) =~= s.take(j) + seq![t] + s.skip(j));
    } else if j == 0 {
        assert(spec_insert_entry(t, s) =~= s.take(0) + seq![t] + s.skip(0));
    } else {
        assert(ver_key_lt(s[0], t));
        assert(forall|q: int|
            0 <= q < j - 1 ==> s.skip(1)[q] == #[trigger] s[q + 1] && ver_key_lt(s[q + 1], t));
        lemma_insert_entry_at(t, s.skip(1), j - 1);
        assert(spec_insert_entry(t, s) =~= s.take(j) + seq![t] + s.skip(j)) by {
            assert(spec_insert_entry(t, s) == seq![s[0]] + spec_insert_entry(t, s.skip(1)));
            assert(spec_insert_entry(t, s.skip(1)) == s.skip(1).take(j - 1) + seq![t] + s.skip(
                1,
            ).skip(j - 1));
            assert(s.skip(1).take(j - 1) =~= s.take(j).skip(1));
            assert(s.skip(1).skip(j - 1) =~= s.skip(j));
        };
    }
}

/// Whether a run of entries is sorted: no later entry is strictly
/// smaller than an earlier one.
pub open spec fn ver_entries_sorted(s: Seq<(Point, Point, Kind)>) -> bool {
    forall|a: int, b: int| 0 <= a < b < s.len() ==> !ver_key_lt(#[trigger] s[b], #[trigger] s[a])
}

pub proof fn lemma_insert_entry_sorted(t: (Point, Point, Kind), s: Seq<(Point, Point, Kind)>)
    requires
        ver_entries_sorted(s),
    ensures
        ver_entries_sorted(spec_insert_entry(t, s)),
        spec_insert_entry(t, s).len() == s.len() + 1,
    decreases s.len(),
{
    if s.len() == 0 {
    } else if ver_key_lt(s[0], t) {
        assert(forall|a: int, b: int|
            0 <= a < b < s.skip(1).len() ==> !ver_key_lt(
                #[trigger] s.skip(1)[b],
                #[trigger] s.skip(1)[a],
            ));
        lemma_insert_entry_sorted(t, s.skip(1));
        let r = spec_insert_entry(t, s);
        let r1 = spec_insert_entry(t, s.skip(1));
        assert forall|a: int, b: int| 0 <= a < b < r.len() implies !ver_key_lt(
            #[trigger] r[b],
            #[trigger] r[a],
        ) by {
            if a == 0 {
                // r[0] == s[0]; r[b] is either t or an element of s
                assert(r[b] == r1[b - 1]);
                if r1[b - 1] == t {
                } else {
                    // every element of the inserted tail is from s
                    lemma_insert_entry_member(t, s.skip(1), b - 1);
                }
            } else {
                assert(r[a] == r1[a - 1] && r[b] == r1[b - 1]);
            }
        }
    } else {
        // t goes in front: nothing in s is strictly smaller than t
        assert forall|a: int, b: int|
            0 <= a < b < spec_insert_entry(t, s).len() implies !ver_key_lt(
            #[trigger] spec_insert_entry(t, s)[b],
            #[trigger] spec_insert_entry(t, s)[a],
        ) by {
            let r = spec_insert_entry(t, s);
            if a == 0 {
                assert(r[0] == t);
                assert(r[b] == s[b - 1]);
                if ver_key_lt(r[b], t) {
                    // would contradict sortedness of s with s[0]
                    if b - 1 > 0 {
                        assert(!ver_key_lt(s[b - 1], s[0]));
                    }
                }
            } else {
                assert(r[a] == s[a - 1] && r[b] == s[b - 1]);
            }
        }
    }
}

pub proof fn lemma_insert_entry_len(t: (Point, Point, Kind), s: Seq<(Point, Point, Kind)>)
    ensures
        spec_insert_entry(t, s).len() == s.len() + 1,
    decreases s.len(),
{
    if s.len() == 0 {
    } else if ver_key_lt(s[0], t) {
        lemma_insert_entry_len(t, s.skip(1));
    } else {
    }
}

/// Every element of an insertion result is the inserted entry or an
/// element of the original run.
pub proof fn lemma_insert_entry_member(
    t: (Point, Point, Kind),
    s: Seq<(Point, Point, Kind)>,
    i: int,
)
    requires
        0 <= i < spec_insert_entry(t, s).len(),
    ensures
        spec_insert_entry(t, s).len() == s.len() + 1,
        spec_insert_entry(t, s)[i] == t || exists|q: int|
            0 <= q < s.len() && #[trigger] s[q] == spec_insert_entry(t, s)[i],
    decreases s.len(),
{
    lemma_insert_entry_len(t, s);
    if s.len() == 0 {
    } else if ver_key_lt(s[0], t) {
        lemma_insert_entry_len(t, s.skip(1));
        if i == 0 {
            assert(s[0] == spec_insert_entry(t, s)[0]);
        } else {
            lemma_insert_entry_member(t, s.skip(1), i - 1);
            if spec_insert_entry(t, s)[i] == t {
            } else {
                let q = choose|q: int|
                    0 <= q < s.skip(1).len() && #[trigger] s.skip(1)[q] == spec_insert_entry(
                        t,
                        s.skip(1),
                    )[i - 1];
                assert(s[q + 1] == spec_insert_entry(t, s)[i]);
            }
        }
    } else {
        if i == 0 {
        } else {
            assert(s[i - 1] == spec_insert_entry(t, s)[i]);
        }
    }
}


/// Ghost model of the whole simulation state.
pub struct StateModel {
    pub player: PlayerModel,
    pub world: WorldModel,
    pub world_size: Point,
    pub map_size: Point,
    pub panel_width: int,
    pub display_size: Point,
    pub screen_position_in_world: Point,
    pub seed: u32,
    pub rng: u64,
    pub commands: Seq<crate::codec::CommandModel>,
    pub verifications: Seq<VerificationModel>,
    pub log: Seq<Seq<u8>>,
    pub side: Side,
    pub turn: i32,
    pub cheating: bool,
    pub replay: bool,
    pub replay_full_speed: bool,
    pub exit_after: bool,
    pub game_ended: bool,
    pub diverged: bool,
    pub victory_npc_id: Option<u64>,
}

/// The top-level aggregate the turn machine mutates once per turn.
///
/// `log` holds replay-log lines the embedding is expected to drain and
/// write out; `verifications` holds the snapshots a replay still has to
/// check against. The throwaway colour stream lives inside the world and
/// is absent from the model.
pub struct State {
    pub player: Player,
    pub world_size: Point,
    pub chunk_size: i32,
    pub world: World,
    pub map_size: Point,
    pub panel_width: i32,
    pub display_size: Point,
    pub screen_position_in_world: Point,
    pub seed: u32,
    pub rng: SeededRng,
    pub commands: VecDeque<Command>,
    pub verifications: VecDeque<Verification>,
    pub log: Vec<Vec<u8>>,
    pub side: Side,
    pub turn: i32,
    pub cheating: bool,
    pub replay: bool,
    pub replay_full_speed: bool,
    pub exit_after: bool,
    pub game_ended: bool,
    pub diverged: bool,
    pub victory_npc_id: Option<u64>,
}

impl View for State {
    type V = StateModel;

    open spec fn view(&self) -> StateModel {
        StateModel {
            player: self.player@,
            world: self.world@,
            world_size: self.world_size,
            map_size: self.map_size,
            panel_width: self.panel_width as int,
            display_size: self.display_size,
            screen_position_in_world: self.screen_position_in_world,
            seed: self.seed,
            rng: self.rng.view_state(),
            commands: self.commands@.map_values(|c: Command| c@),
            verifications: self.verifications@.map_values(|v: Verification| v@),
            log: self.log@.map_values(|l: Vec<u8>| l@),
            side: self.side,
            turn: self.turn,
            cheating: self.cheating,
            replay: self.replay,
            replay_full_speed: self.replay_full_speed,
            exit_after: self.exit_after,
            game_ended: self.game_ended,
            diverged: self.diverged,
            victory_npc_id: self.victory_npc_id,
        }
    }
}

/// Well-formedness of the aggregate: a sound world, a sound player
/// inside the world bounds, and consistent geometry.
pub open spec fn state_wf(s: StateModel) -> bool {
    &&& world_wf(s.world)
    &&& player_wf(s.player)
    &&& within_bounds(s.player.pos, s.world.size)
    &&& s.world.size == s.world_size.x
    &&& s.world_size.x == s.world_size.y
    &&& 0 <= s.turn < i32::MAX
}

/// The chunk side length every session uses.
pub const CHUNK_SIZE: i32 = 32;

/// The model a fresh session starts from: the player spawns at the world
/// centre, the stream is seeded from the session seed, and the queues
/// hold whatever a replay loaded (empty for a new game).
pub open spec fn spec_state_new(
    world_size: Point,
    map_size: i32,
    panel_width: i32,
    display_size: Point,
    commands: Seq<crate::codec::CommandModel>,
    verifications: Seq<VerificationModel>,
    seed: u32,
    cheating: bool,
    invincible: bool,
    replay: bool,
    replay_full_speed: bool,
    exit_after: bool,
) -> StateModel {
    let centre = Point { x: 0, y: 0 };
    StateModel {
        player: spec_player_new(centre, invincible),
        world: crate::world::spec_world_new(seed, world_size.x as int, CHUNK_SIZE as int, centre),
        world_size,
        map_size: Point { x: map_size, y: map_size },
        panel_width: panel_width as int,
        display_size,
        screen_position_in_world: centre,
        seed,
        rng: seeded_state(seed as u64),
        commands,
        verifications,
        log: Seq::empty(),
        side: Side::Player,
        turn: 0,
        cheating,
        replay,
        replay_full_speed,
        exit_after,
        game_ended: false,
        diverged: false,
        victory_npc_id: None,
    }
}

impl State {
    /// A fresh session over the given geometry, command queue and
    /// verification queue. The world is centred on the player's spawn at
    /// the origin; nothing is logged yet.
    pub fn new(
        world_size: Point,
        map_size: i32,
        panel_width: i32,
        display_size: Point,
        commands: VecDeque<Command>,
        verifications: VecDeque<Verification>,
        seed: u32,
        cheating: bool,
        invincible: bool,
        replay: bool,
        replay_full_speed: bool,
        exit_after: bool,
        throwaway_seed: u64,
    ) -> (s: State)
        requires
            world_size.x == world_size.y,
            64 <= world_size.x <= WORLD_SIDE_MAX,
            map_size >= 1,
            panel_width >= 0,
            map_size + panel_width <= i32::MAX,
            display_size.x == map_size + panel_width,
            display_size.y == map_size,
        ensures
            s@ == spec_state_new(
                world_size,
                map_size,
                panel_width,
                display_size,
                commands@.map_values(|c: Command| c@),
                verifications@.map_values(|v: Verification| v@),
                seed,
                cheating,
                invincible,
                replay,
                replay_full_speed,
                exit_after,
            ),
            state_wf(s@),
    {
        let centre = Point::zero();
        let player = Player::new(centre, invincible);
        let rng = SeededRng::from_seed(seed as u64);
        let world = World::new(seed, world_size.x, CHUNK_SIZE, centre, throwaway_seed);
        let s = State {
            player,
            world_size,
            chunk_size: CHUNK_SIZE,
            world,
            map_size: Point { x: map_size, y: map_size },
            panel_width,
            display_size,
            screen_position_in_world: centre,
            seed,
            rng,
            commands,
            verifications,
            log: Vec::new(),
            side: Side::Player,
            turn: 0,
            cheating,
            replay,
            replay_full_speed,
            exit_after,
            game_ended: false,
            diverged: false,
            victory_npc_id: None,
        };
        proof {
            assert(s@.log =~= Seq::<Seq<u8>>::empty());
        }
        s
    }

    /// The deterministic snapshot of simulation-critical state: turn,
    /// loaded chunk count, player position, and every living monster as
    /// a (position, chunk coordinate, kind) tuple sorted by
    /// (x, y, kind).
    pub fn verification(&self) -> (v: Verification)
        ensures
            v@ == spec_verification(self@),
            ver_entries_sorted(v@.monsters),
    {
        proof {
            reveal(spec_verification);
        }
        let mut unsorted: Vec<(Point, Point, Kind)> = Vec::new();
        let mut ci: usize = 0;
        while ci < self.world.chunks.len()
            invariant
                ci <= self.world.chunks@.len(),
                self@.world.chunks.len() == self.world.chunks@.len(),
                unsorted@ == spec_ver_entries(self@.world.chunks, ci as nat),
            decreases self.world.chunks@.len() - ci,
        {
            let c = &self.world.chunks[ci];
            let mut mi: usize = 0;
            while mi < c.monsters.len()
                invariant
                    mi <= c.monsters@.len(),
                    ci < self.world.chunks@.len(),
                    self@.world.chunks.len() == self.world.chunks@.len(),
                    c == &self.world.chunks[ci as int],
                    self@.world.chunks[ci as int] == c@,
                    unsorted@ == spec_ver_entries(self@.world.chunks, ci as nat)
                        + spec_chunk_ver_entries(c@, mi as nat),
                decreases c.monsters@.len() - mi,
            {
                let m = &c.monsters[mi];
                if !m.dead {
                    unsorted.push((m.position, c.position, m.kind));
                }
                mi = mi + 1;
                proof {
                    assert(unsorted@ =~= spec_ver_entries(self@.world.chunks, ci as nat)
                        + spec_chunk_ver_entries(c@, mi as nat));
                }
            }
            ci = ci + 1;
            proof {
                assert(unsorted@ =~= spec_ver_entries(self@.world.chunks, ci as nat));
            }
        }
        let mut sorted: Vec<(Point, Point, Kind)> = Vec::new();
        let mut i: usize = 0;
        while i < unsorted.len()
            invariant
                i <= unsorted@.len(),
                sorted@ == spec_sort_entries_prefix(unsorted@, i as nat),
                ver_entries_sorted(sorted@),
            decreases unsorted@.len() - i,
        {
            let t = unsorted[i];
            let mut j: usize = 0;
            while j < sorted.len()
                invariant_except_break
                    j <= sorted@.len(),
                    forall|q: int| 0 <= q < j ==> ver_key_lt(#[trigger] sorted@[q], t),
                ensures
                    j <= sorted@.len(),
                    forall|q: int| 0 <= q < j ==> ver_key_lt(#[trigger] sorted@[q], t),
                    j < sorted@.len() ==> !ver_key_lt(sorted@[j as int], t),
                decreases sorted@.len() - j,
            {
                let e = sorted[j];
                let lt = e.0.x < t.0.x || (e.0.x == t.0.x && (e.0.y < t.0.y || (e.0.y == t.0.y
                    && rank_of_kind(e.2) < rank_of_kind(t.2))));
                if !lt {
                    break;
                }
                j = j + 1;
            }
            proof {
                lemma_insert_entry_at(t, sorted@, j as int);
                lemma_insert_entry_sorted(t, sorted@);
            }
            sorted.insert(j, t);
            i = i + 1;
            proof {
                assert(sorted@ =~= spec_sort_entries_prefix(unsorted@, i as nat)) by {
                    assert(sorted@ =~= spec_insert_entry(
                        t,
                        spec_sort_entries_prefix(unsorted@, (i - 1) as nat),
                    ));
                };
            }
        }
        Verification {
            turn: self.turn,
            chunk_count: self.world.chunks.len(),
            player_pos: self.player.pos,
            monsters: sorted,
        }
    }
}

/// The verification snapshot a state model determines.
#[verifier::opaque]
pub open spec fn spec_verification(s: StateModel) -> VerificationModel {
    VerificationModel {
        turn: s.turn as int,
        chunk_count: s.world.chunks.len() as int,
        player_pos: s.player.pos,
        monsters: spec_sort_entries(spec_ver_entries(s.world.chunks, s.world.chunks.len())),
    }
}

/// The movement delta a command stands for, if it is a movement.
pub open spec fn spec_dir_delta(c: CommandModel) -> Option<(int, int)> {
    match c {
        CommandModel::N => Some((0int, -1int)),
        CommandModel::S => Some((0int, 1int)),
        CommandModel::E => Some((1int, 0int)),
        CommandModel::W => Some((-1int, 0int)),
        CommandModel::NE => Some((1int, -1int)),
        CommandModel::NW => Some((-1int, -1int)),
        CommandModel::SE => Some((1int, 1int)),
        CommandModel::SW => Some((-1int, 1int)),
        _ => None,
    }
}

/// The item kind a use command consumes, if it is a use command.
pub open spec fn spec_use_kind(c: CommandModel) -> Option<ItemKind> {
    match c {
        CommandModel::UseFood => Some(ItemKind::Food),
        CommandModel::UseDose => Some(ItemKind::Dose),
        CommandModel::UseCardinalDose => Some(ItemKind::CardinalDose),
        CommandModel::UseDiagonalDose => Some(ItemKind::DiagonalDose),
        CommandModel::UseStrongDose => Some(ItemKind::StrongDose),
        _ => None,
    }
}

/// Mind state clamped into the tunable limit.
pub open spec fn clamp_mind(v: int) -> i32 {
    if v > formula::STAT_LIMIT {
        formula::STAT_LIMIT
    } else if v < -formula::STAT_LIMIT {
        (-formula::STAT_LIMIT) as i32
    } else {
        v as i32
    }
}

/// Willpower clamped between zero and the tunable limit.
pub open spec fn clamp_will(v: int) -> i32 {
    if v > formula::STAT_LIMIT {
        formula::STAT_LIMIT
    } else if v < 0 {
        0
    } else {
        v as i32
    }
}

/// Index of the first inventory item of this kind, or -1.
pub open spec fn spec_first_inv_kind(inv: Seq<Item>, k: ItemKind) -> int
    decreases inv.len(),
{
    if inv.len() == 0 {
        -1
    } else if inv[0].kind == k {
        0
    } else {
        let r = spec_first_inv_kind(inv.skip(1), k);
        if r < 0 {
            -1
        } else {
            1 + r
        }
    }
}

pub proof fn lemma_first_inv_kind(inv: Seq<Item>, k: ItemKind)
    ensures
        spec_first_inv_kind(inv, k) == -1 ==> (forall|j: int|
            0 <= j < inv.len() ==> (#[trigger] inv[j]).kind != k),
        spec_first_inv_kind(inv, k) >= 0 ==> 0 <= spec_first_inv_kind(inv, k) < inv.len() && inv[
            spec_first_inv_kind(inv, k)
        ].kind == k,
    decreases inv.len(),
{
    if inv.len() == 0 {
    } else if inv[0].kind == k {
    } else {
        lemma_first_inv_kind(inv.skip(1), k);
        assert(forall|j: int| 1 <= j < inv.len() ==> inv.skip(1)[j - 1] == #[trigger] inv[j]);
    }
}

pub proof fn lemma_first_inv_kind_witness(inv: Seq<Item>, k: ItemKind, i: int)
    requires
        0 <= i < inv.len(),
        inv[i].kind == k,
        forall|j: int| 0 <= j < i ==> (#[trigger] inv[j]).kind != k,
    ensures
        spec_first_inv_kind(inv, k) == i,
    decreases inv.len(),
{
    if i == 0 {
    } else {
        assert(forall|j: int|
            0 <= j < inv.skip(1).len() ==> #[trigger] inv.skip(1)[j] == inv[j + 1]);
        lemma_first_inv_kind_witness(inv.skip(1), k, i - 1);
    }
}

/// The state after the player consumes the first held item of `k`:
/// the item leaves the inventory and its modifier is applied, clamped.
/// Using an item that is not held is a silent no-op.
#[verifier::opaque]
pub open spec fn spec_use_item(s: StateModel, k: ItemKind) -> StateModel {
    let idx = spec_first_inv_kind(s.player.inventory, k);
    if idx < 0 {
        s
    } else {
        let item = s.player.inventory[idx];
        let inv2 = s.player.inventory.remove(idx);
        let p2 = match item.modifier {
            Modifier::Intoxication { state_of_mind, tolerance_increase } => PlayerModel {
                mind: clamp_mind(s.player.mind + state_of_mind),
                inventory: inv2,
                ..s.player
            },
            Modifier::Attribute { will, state_of_mind } => PlayerModel {
                will: clamp_will(s.player.will + will),
                mind: clamp_mind(s.player.mind + state_of_mind),
                inventory: inv2,
                ..s.player
            },
        };
        StateModel { player: p2, ..s }
    }
}

/// The world after the monster at (`ci`, `mi`) dies.
pub open spec fn spec_kill_at(w: WorldModel, ci: int, mi: int) -> WorldModel {
    let oc = w.chunks[ci];
    let om = oc.monsters[mi];
    WorldModel {
        chunks: w.chunks.update(
            ci,
            ChunkModel {
                monsters: oc.monsters.update(
                    mi,
                    Monster {
                        id: om.id,
                        kind: om.kind,
                        position: om.position,
                        dead: true,
                        companion_bonus: om.companion_bonus,
                    },
                ),
                ..oc
            },
        ),
        ..w
    }
}

/// The state after one command is applied: movement with collision,
/// combat and pickup against the destination chunk (generated on first
/// touch), item use, or nothing. A semantically invalid command is a
/// silent no-op. Nothing here reads the clock, the platform or any
/// unseeded randomness: the result is a function of the state and the
/// command.
#[verifier::opaque]
pub open spec fn spec_process_command(s: StateModel, c: CommandModel) -> StateModel {
    match spec_dir_delta(c) {
        Some((dx, dy)) => spec_move_player(s, dx, dy),
        None => match spec_use_kind(c) {
            Some(k) => spec_use_item(s, k),
            None => s,
        },
    }
}

/// The state after the player tries to step by (`dx`, `dy`): blocked by
/// the world edge and by trees, combat against a monster on the target
/// tile (meeting the NPC instead of killing it), otherwise a move with
/// item pickup. Touching an unloaded chunk generates it first.
#[verifier::opaque]
pub open spec fn spec_move_player(s: StateModel, dx: int, dy: int) -> StateModel {
    {
        {
            let dxi = s.player.pos.x + dx;
            let dyi = s.player.pos.y + dy;
            if !(-(s.world.size / 2) <= dxi < s.world.size / 2) || !(-(s.world.size / 2) <= dyi
                < s.world.size / 2) {
                s
            } else if s.world.next_monster_id + s.world.chunk_size * s.world.chunk_size
                > u64::MAX {
                s
            } else {
                let dest = Point { x: dxi as i32, y: dyi as i32 };
                let cpos = spec_chunk_pos(s.world.chunk_size, dest);
                let w2 = spec_chunk_at_model(s.world, cpos);
                let ci = spec_chunk_index(w2.chunks, cpos);
                let s2 = StateModel { world: w2, ..s };
                if spec_tile_at(w2.chunks[ci], w2.chunk_size, dest) == TileKind::Tree {
                    s2
                } else {
                    let mi = spec_first_live_at(w2.chunks[ci].monsters, dest);
                    if mi >= 0 {
                        let m = w2.chunks[ci].monsters[mi];
                        if m.kind == Kind::Npc {
                            StateModel { victory_npc_id: Some(m.id), ..s2 }
                        } else {
                            StateModel { world: spec_kill_at(w2, ci, mi), ..s2 }
                        }
                    } else {
                        let ii = spec_first_item_at(w2.chunks[ci].items, dest);
                        let p2 = PlayerModel { pos: dest, ..s.player };
                        if ii >= 0 {
                            let item = w2.chunks[ci].items[ii].1;
                            let oc = w2.chunks[ci];
                            let w3 = WorldModel {
                                chunks: w2.chunks.update(
                                    ci,
                                    ChunkModel { items: oc.items.remove(ii), ..oc },
                                ),
                                ..w2
                            };
                            StateModel {
                                player: PlayerModel {
                                    inventory: p2.inventory.push(item),
                                    ..p2
                                },
                                world: w3,
                                ..s2
                            }
                        } else {
                            StateModel { player: p2, ..s2 }
                        }
                    }
                }
            }
        }
    }
}

impl State {
    /// Index of the first held item of this kind.
    fn first_inventory_kind(&self, k: ItemKind) -> (r: Option<usize>)
        ensures
            ({
                let idx = spec_first_inv_kind(self@.player.inventory, k);
                match r {
                    Some(j) => j == idx,
                    None => idx == -1,
                }
            }),
    {
        let mut j: usize = 0;
        while j < self.player.inventory.len()
            invariant
                j <= self.player.inventory@.len(),
                forall|q: int|
                    0 <= q < j ==> (#[trigger] self.player.inventory@[q]).kind != k,
            decreases self.player.inventory@.len() - j,
        {
            if kind_matches(self.player.inventory[j].kind, k) {
                proof {
                    lemma_first_inv_kind_witness(self.player.inventory@, k, j as int);
                }
                return Some(j);
            }
            j = j + 1;
        }
        proof {
            lemma_first_inv_kind(self.player.inventory@, k);
            if spec_first_inv_kind(self.player.inventory@, k) >= 0 {
                assert(self.player.inventory@[spec_first_inv_kind(
                    self.player.inventory@,
                    k,
                )].kind == k);
                assert(false);
            }
        }
        None
    }

    /// Consumes the first held item of this kind, applying its modifier.
    fn use_item(&mut self, k: ItemKind)
        requires
            state_wf(old(self)@),
        ensures
            final(self)@ == spec_use_item(old(self)@, k),
            state_wf(final(self)@),
            final(self)@.commands == old(self)@.commands,
            final(self)@.verifications == old(self)@.verifications,
            final(self)@.log == old(self)@.log,
            final(self)@.turn == old(self)@.turn,
            final(self)@.rng == old(self)@.rng,
            final(self)@.replay == old(self)@.replay,
            final(self)@.game_ended == old(self)@.game_ended,
            final(self)@.diverged == old(self)@.diverged,
            final(self)@.world_size == old(self)@.world_size,
    {
        proof {
            reveal(spec_use_item);
        }
        match self.first_inventory_kind(k) {
            None => {
            },
            Some(idx) => {
                proof {
                    lemma_first_inv_kind(old(self)@.player.inventory, k);
                }
                let item = self.player.inventory.remove(idx);
                match item.modifier {
                    Modifier::Intoxication { state_of_mind, tolerance_increase: _ } => {
                        let m = (self.player.mind as i64) + (state_of_mind as i64);
                        self.player.mind = clamp_mind_exec(m);
                    },
                    Modifier::Attribute { will, state_of_mind } => {
                        let w = (self.player.will as i64) + (will as i64);
                        self.player.will = clamp_will_exec(w);
                        let m = (self.player.mind as i64) + (state_of_mind as i64);
                        self.player.mind = clamp_mind_exec(m);
                    },
                }
                proof {
                    assert(final(self)@ =~~= spec_use_item(old(self)@, k));
                }
            },
        }
        proof {
            if spec_first_inv_kind(old(self)@.player.inventory, k) < 0 {
                assert(final(self)@ =~~= spec_use_item(old(self)@, k));
            }
        }
    }

    /// Applies one command: movement (with lazy chunk generation,
    /// collision, combat, pickup and the NPC meeting), item use, or a
    /// no-op. The new state is exactly the model transition.
    #[verifier::rlimit(100)]
    pub fn process_command(&mut self, c: &Command)
        requires
            state_wf(old(self)@),
        ensures
            final(self)@ == spec_process_command(old(self)@, c@),
            state_wf(final(self)@),
            final(self)@.commands == old(self)@.commands,
            final(self)@.verifications == old(self)@.verifications,
            final(self)@.log == old(self)@.log,
            final(self)@.turn == old(self)@.turn,
            final(self)@.rng == old(self)@.rng,
            final(self)@.replay == old(self)@.replay,
            final(self)@.game_ended == old(self)@.game_ended,
            final(self)@.diverged == old(self)@.diverged,
            final(self)@.world_size == old(self)@.world_size,
    {
        proof {
            reveal(spec_process_command);
        }
        let delta: Option<(i32, i32)> = match c {
            Command::N => Some((0, -1)),
            Command::S => Some((0, 1)),
            Command::E => Some((1, 0)),
            Command::W => Some((-1, 0)),
            Command::NE => Some((1, -1)),
            Command::NW => Some((-1, -1)),
            Command::SE => Some((1, 1)),
            Command::SW => Some((-1, 1)),
            _ => None,
        };
        match delta {
            Some((dx, dy)) => {
                self.move_player(dx, dy);
            },
            None => {
                let use_kind: Option<ItemKind> = match c {
                    Command::UseFood => Some(ItemKind::Food),
                    Command::UseDose => Some(ItemKind::Dose),
                    Command::UseCardinalDose => Some(ItemKind::CardinalDose),
                    Command::UseDiagonalDose => Some(ItemKind::DiagonalDose),
                    Command::UseStrongDose => Some(ItemKind::StrongDose),
                    _ => None,
                };
                match use_kind {
                    Some(k) => {
                        self.use_item(k);
                    },
                    None => {
                        proof {
                            assert(final(self)@ =~~= spec_process_command(old(self)@, c@));
                        }
                    },
                }
            },
        }
    }

    /// One attempted player step; exactly the movement transition.
    #[verifier::rlimit(100)]
    pub fn move_player(&mut self, dx: i32, dy: i32)
        requires
            state_wf(old(self)@),
            -1 <= dx <= 1,
            -1 <= dy <= 1,
        ensures
            final(self)@ == spec_move_player(old(self)@, dx as int, dy as int),
            state_wf(final(self)@),
            final(self)@.commands == old(self)@.commands,
            final(self)@.verifications == old(self)@.verifications,
            final(self)@.log == old(self)@.log,
            final(self)@.turn == old(self)@.turn,
            final(self)@.rng == old(self)@.rng,
            final(self)@.replay == old(self)@.replay,
            final(self)@.game_ended == old(self)@.game_ended,
            final(self)@.diverged == old(self)@.diverged,
            final(self)@.world_size == old(self)@.world_size,
    {
        proof {
            reveal(spec_move_player);
        }
        {
            {
                let dxi = (self.player.pos.x as i64) + (dx as i64);
                let dyi = (self.player.pos.y as i64) + (dy as i64);
                let half = (self.world.size / 2) as i64;
                if !(-half <= dxi && dxi < half && -half <= dyi && dyi < half) {
                    proof {
                        assert(final(self)@ =~~= spec_move_player(old(self)@, dx as int, dy as int));
                    }
                    return;
                }
                proof {
                    let csg = old(self)@.world.chunk_size;
                    assert(csg * csg <= 65536) by (nonlinear_arith)
                        requires
                            1 <= csg <= 256,
                    ;
                }
                let cs64 = (self.world.chunk_size as u64) * (self.world.chunk_size as u64);
                if self.world.next_monster_id > u64::MAX - cs64 {
                    proof {
                        assert(old(self)@.world.next_monster_id + old(self)@.world.chunk_size
                            * old(self)@.world.chunk_size > u64::MAX);
                        assert(final(self)@ =~~= spec_move_player(old(self)@, dx as int, dy as int));
                    }
                    return;
                }
                let dest = Point { x: dxi as i32, y: dyi as i32 };
                let ghost cpos = spec_chunk_pos(old(self)@.world.chunk_size, dest);
                let ci = self.world.chunk_at(dest);
                proof {
                    crate::world::lemma_chunk_index_unique(self@.world, ci as int, cpos);
                    crate::world::lemma_floor_div_in_i32(dest.x as int, self@.world.chunk_size);
                    crate::world::lemma_floor_div_in_i32(dest.y as int, self@.world.chunk_size);
                }
                let tile = self.world.tile_kind_at(ci, dest);
                if tile == TileKind::Tree {
                    proof {
                        assert(final(self)@ =~~= spec_move_player(old(self)@, dx as int, dy as int));
                    }
                    return;
                }
                match self.world.first_live_monster_at(ci, dest) {
                    Some(mi) => {
                        proof {
                            crate::world::lemma_first_index(
                                self@.world.chunks[ci as int].monsters,
                                |mm: Monster| !mm.dead && mm.position == dest,
                            );
                        }
                        let m = self.world.monster(ci, mi);
                        if kind_is_npc(m.kind) {
                            self.victory_npc_id = Some(m.id);
                            proof {
                                assert(final(self)@ =~~= spec_move_player(old(self)@, dx as int, dy as int));
                            }
                        } else {
                            self.world.kill_monster(ci, mi);
                            proof {
                                assert(final(self)@ =~~= spec_move_player(old(self)@, dx as int, dy as int));
                            }
                        }
                    },
                    None => {
                        self.player.pos = dest;
                        match self.world.take_item_at(ci, dest) {
                            Some(item) => {
                                self.player.inventory.push(item);
                                proof {
                                    assert(final(self)@ =~~= spec_move_player(
                                        old(self)@,
                                        dx as int,
                                        dy as int,
                                    ));
                                }
                            },
                            None => {
                                proof {
                                    assert(final(self)@ =~~= spec_move_player(
                                        old(self)@,
                                        dx as int,
                                        dy as int,
                                    ));
                                }
                            },
                        }
                    },
                }
            }
        }
    }
}

/// Executable counterpart of [`clamp_mind`].
fn clamp_mind_exec(v: i64) -> (r: i32)
    requires
        -4294967296 <= v <= 4294967296,
    ensures
        r == clamp_mind(v as int),
{
    if v > formula::STAT_LIMIT as i64 {
        formula::STAT_LIMIT
    } else if v < -(formula::STAT_LIMIT as i64) {
        -formula::STAT_LIMIT
    } else {
        v as i32
    }
}

/// Executable counterpart of [`clamp_will`].
fn clamp_will_exec(v: i64) -> (r: i32)
    requires
        -4294967296 <= v <= 4294967296,
    ensures
        r == clamp_will(v as int),
{
    if v > formula::STAT_LIMIT as i64 {
        formula::STAT_LIMIT
    } else if v < 0 {
        0
    } else {
        v as i32
    }
}

/// Whether two item kinds are the same.
fn kind_matches(a: ItemKind, b: ItemKind) -> (r: bool)
    ensures
        r == (a == b),
{
    match (a, b) {
        (ItemKind::Dose, ItemKind::Dose) => true,
        (ItemKind::StrongDose, ItemKind::StrongDose) => true,
        (ItemKind::CardinalDose, ItemKind::CardinalDose) => true,
        (ItemKind::DiagonalDose, ItemKind::DiagonalDose) => true,
        (ItemKind::Food, ItemKind::Food) => true,
        _ => false,
    }
}

/// Whether the kind is the companion NPC.
fn kind_is_npc(k: Kind) -> (r: bool)
    ensures
        r == (k == Kind::Npc),
{
    match k {
        Kind::Npc => true,
        _ => false,
    }
}

/// Positions of the living monsters among the first `i` of a chunk.
pub open spec fn spec_live_pos_chunk(ms: Seq<Monster>, i: nat) -> Seq<Point>
    decreases i,
{
    if i == 0 || i > ms.len() {
        Seq::empty()
    } else {
        let prev = spec_live_pos_chunk(ms, (i - 1) as nat);
        if ms[i - 1].dead {
            prev
        } else {
            prev.push(ms[i - 1].position)
        }
    }
}

/// Positions of all living monsters of the first `i` chunks, in storage
/// order: the AI acts on this snapshot.
pub open spec fn spec_live_positions(chunks: Seq<ChunkModel>, i: nat) -> Seq<Point>
    decreases i,
{
    if i == 0 || i > chunks.len() {
        Seq::empty()
    } else {
        spec_live_positions(chunks, (i - 1) as nat) + spec_live_pos_chunk(
            chunks[i - 1].monsters,
            chunks[i - 1].monsters.len(),
        )
    }
}

/// Whether two tiles touch (including diagonally or being equal).
pub open spec fn spec_adjacent(a: Point, b: Point) -> bool {
    -1 <= a.x - b.x <= 1 && -1 <= a.y - b.y <= 1
}

/// The walk delta the AI roll selects: the eight directions.
pub open spec fn spec_dir8(roll: int) -> (int, int) {
    if roll == 0 {
        (0int, -1int)
    } else if roll == 1 {
        (1int, -1int)
    } else if roll == 2 {
        (1int, 0int)
    } else if roll == 3 {
        (1int, 1int)
    } else if roll == 4 {
        (0int, 1int)
    } else if roll == 5 {
        (-1int, 1int)
    } else if roll == 6 {
        (-1int, 0int)
    } else {
        (-1int, -1int)
    }
}

/// One monster's turn, for the monster standing at `from`: the NPC
/// stands still; a monster next to the player attacks, draining will and
/// killing a non-invincible player whose will reaches zero; otherwise
/// the monster draws a direction from the stream and walks if the target
/// tile is in bounds, loaded, empty ground, monster-free and not the
/// player's tile. A walk across a chunk boundary goes through the
/// id-preserving relocation.
#[verifier::opaque]
pub open spec fn spec_monster_act(w: WorldModel, player: PlayerModel, rng: u64, from: Point) -> (
    WorldModel,
    PlayerModel,
    u64,
) {
    let cpos = spec_chunk_pos(w.chunk_size, from);
    let ci = spec_chunk_index(w.chunks, cpos);
    if ci < 0 {
        (w, player, rng)
    } else {
        let mi = spec_first_live_at(w.chunks[ci].monsters, from);
        if mi < 0 {
            (w, player, rng)
        } else {
            let m = w.chunks[ci].monsters[mi];
            if m.kind == Kind::Npc {
                (w, player, rng)
            } else if spec_adjacent(from, player.pos) {
                let will2: i32 = if player.will > 0 {
                    (player.will - 1) as i32
                } else {
                    0
                };
                let dead2 = player.dead || (!player.invincible && will2 == 0);
                (w, PlayerModel { will: will2, dead: dead2, ..player }, rng)
            } else {
                spec_monster_walk(w, player, rng, from)
            }
        }
    }
}

/// The random-walk step of one monster's turn: one stream draw picks a
/// direction; the walk happens only onto in-bounds, loaded, empty,
/// monster-free ground away from the player.
#[verifier::opaque]
pub open spec fn spec_monster_walk(w: WorldModel, player: PlayerModel, rng: u64, from: Point) -> (
    WorldModel,
    PlayerModel,
    u64,
) {
    let roll = next_state(rng) as int % 8;
    let rng2 = next_state(rng);
    let (dx, dy) = spec_dir8(roll);
    let dxi = from.x + dx;
    let dyi = from.y + dy;
    if !(-(w.size / 2) <= dxi < w.size / 2) || !(-(w.size / 2) <= dyi < w.size / 2) {
        (w, player, rng2)
    } else {
        let dest = Point { x: dxi as i32, y: dyi as i32 };
        let tci = spec_chunk_index(w.chunks, spec_chunk_pos(w.chunk_size, dest));
        if tci < 0 {
            (w, player, rng2)
        } else if spec_tile_at(w.chunks[tci], w.chunk_size, dest) != TileKind::Empty {
            (w, player, rng2)
        } else if spec_first_live_at(w.chunks[tci].monsters, dest) >= 0 {
            (w, player, rng2)
        } else if dest == player.pos {
            (w, player, rng2)
        } else {
            (spec_move_monster(w, from, dest), player, rng2)
        }
    }
}

/// All snapshot monsters act, in snapshot order.
pub open spec fn spec_monsters_act(
    w: WorldModel,
    player: PlayerModel,
    rng: u64,
    snapshot: Seq<Point>,
    i: nat,
) -> (WorldModel, PlayerModel, u64)
    decreases i,
{
    if i == 0 || i > snapshot.len() {
        (w, player, rng)
    } else {
        let (w1, p1, r1) = spec_monsters_act(w, player, rng, snapshot, (i - 1) as nat);
        spec_monster_act(w1, p1, r1, snapshot[i - 1])
    }
}

impl State {
    /// The positions of every living monster, in storage order.
    fn collect_live_positions(&self) -> (r: Vec<Point>)
        ensures
            r@ == spec_live_positions(self@.world.chunks, self@.world.chunks.len()),
    {
        let mut r: Vec<Point> = Vec::new();
        let mut ci: usize = 0;
        while ci < self.world.chunks.len()
            invariant
                ci <= self.world.chunks@.len(),
                self@.world.chunks.len() == self.world.chunks@.len(),
                r@ == spec_live_positions(self@.world.chunks, ci as nat),
            decreases self.world.chunks@.len() - ci,
        {
            let c = &self.world.chunks[ci];
            let mut mi: usize = 0;
            while mi < c.monsters.len()
                invariant
                    mi <= c.monsters@.len(),
                    ci < self.world.chunks@.len(),
                    self@.world.chunks.len() == self.world.chunks@.len(),
                    c == &self.world.chunks[ci as int],
                    self@.world.chunks[ci as int] == c@,
                    r@ == spec_live_positions(self@.world.chunks, ci as nat)
                        + spec_live_pos_chunk(c@.monsters, mi as nat),
                decreases c.monsters@.len() - mi,
            {
                let m = &c.monsters[mi];
                if !m.dead {
                    r.push(m.position);
                }
                mi = mi + 1;
                proof {
                    assert(r@ =~= spec_live_positions(self@.world.chunks, ci as nat)
                        + spec_live_pos_chunk(c@.monsters, mi as nat));
                }
            }
            ci = ci + 1;
            proof {
                assert(r@ =~= spec_live_positions(self@.world.chunks, ci as nat));
            }
        }
        r
    }

    /// One monster acts; exactly the model transition, with everything
    /// but the world, player and stream untouched.
    #[verifier::rlimit(100)]
    #[verifier::spinoff_prover]
    fn monster_act(&mut self, from: Point)
        requires
            state_wf(old(self)@),
        ensures
            ({
                let (w2, p2, r2) = spec_monster_act(
                    old(self)@.world,
                    old(self)@.player,
                    old(self)@.rng,
                    from,
                );
                final(self)@ == (StateModel { world: w2, player: p2, rng: r2, ..old(self)@ })
            }),
            state_wf(final(self)@),
    {
        proof {
            reveal(spec_monster_act);
        }
        let ghost w0 = self@.world;
        let ghost tgt = spec_monster_act(w0, self@.player, self@.rng, from);
        let cpos = self.world.chunk_pos_of(from);
        let ci = match self.world.find_chunk(cpos) {
            Some(i) => i,
            None => {
                proof {
                    crate::world::lemma_first_index(
                        w0.chunks,
                        |c: ChunkModel| c.position == cpos,
                    );
                    if spec_chunk_index(w0.chunks, cpos) >= 0 {
                        assert(crate::world::spec_has_chunk(w0.chunks, cpos));
                    }
                    assert(final(self)@ =~~= (StateModel {
                        world: tgt.0,
                        player: tgt.1,
                        rng: tgt.2,
                        ..old(self)@
                    }));
                }
                return;
            },
        };
        proof {
            crate::world::lemma_chunk_index_unique(w0, ci as int, cpos);
        }
        let mi = match self.world.first_live_monster_at(ci, from) {
            Some(j) => j,
            None => {
                proof {
                    assert(final(self)@ =~~= (StateModel {
                        world: tgt.0,
                        player: tgt.1,
                        rng: tgt.2,
                        ..old(self)@
                    }));
                }
                return;
            },
        };
        proof {
            crate::world::lemma_first_index(
                w0.chunks[ci as int].monsters,
                |mm: Monster| !mm.dead && mm.position == from,
            );
        }
        let m = self.world.monster(ci, mi);
        if kind_is_npc(m.kind) {
            proof {
                assert(final(self)@ =~~= (StateModel {
                    world: tgt.0,
                    player: tgt.1,
                    rng: tgt.2,
                    ..old(self)@
                }));
            }
            return;
        }
        let px = self.player.pos.x;
        let py = self.player.pos.y;
        let adx = (from.x as i64) - (px as i64);
        let ady = (from.y as i64) - (py as i64);
        if -1 <= adx && adx <= 1 && -1 <= ady && ady <= 1 {
            if self.player.will > 0 {
                self.player.will = self.player.will - 1;
            }
            if !self.player.invincible && self.player.will == 0 {
                self.player.dead = true;
            }
            proof {
                assert(final(self)@ =~~= (StateModel {
                    world: tgt.0,
                    player: tgt.1,
                    rng: tgt.2,
                    ..old(self)@
                }));
            }
            return;
        }
        self.monster_walk(from);
        proof {
            assert(final(self)@ =~~= (StateModel {
                world: tgt.0,
                player: tgt.1,
                rng: tgt.2,
                ..old(self)@
            }));
        }
    }

    /// The walk step of one monster's turn; exactly the walk
    /// transition.
    #[verifier::rlimit(100)]
    #[verifier::spinoff_prover]
    fn monster_walk(&mut self, from: Point)
        requires
            state_wf(old(self)@),
        ensures
            ({
                let (w2, p2, r2) = spec_monster_walk(
                    old(self)@.world,
                    old(self)@.player,
                    old(self)@.rng,
                    from,
                );
                final(self)@ == (StateModel { world: w2, player: p2, rng: r2, ..old(self)@ })
            }),
            state_wf(final(self)@),
    {
        proof {
            reveal(spec_monster_walk);
        }
        let ghost w0 = self@.world;
        let ghost tgt = spec_monster_walk(w0, self@.player, self@.rng, from);
        let px = self.player.pos.x;
        let py = self.player.pos.y;
        let roll = self.rng.below(8);
        let (dx, dy): (i32, i32) = if roll == 0 {
            (0, -1)
        } else if roll == 1 {
            (1, -1)
        } else if roll == 2 {
            (1, 0)
        } else if roll == 3 {
            (1, 1)
        } else if roll == 4 {
            (0, 1)
        } else if roll == 5 {
            (-1, 1)
        } else if roll == 6 {
            (-1, 0)
        } else {
            (-1, -1)
        };
        let dxi = (from.x as i64) + (dx as i64);
        let dyi = (from.y as i64) + (dy as i64);
        let half = (self.world.size / 2) as i64;
        if !(-half <= dxi && dxi < half && -half <= dyi && dyi < half) {
            proof {
                assert(final(self)@ =~~= (StateModel {
                    world: tgt.0,
                    player: tgt.1,
                    rng: tgt.2,
                    ..old(self)@
                }));
            }
            return;
        }
        let dest = Point { x: dxi as i32, y: dyi as i32 };
        let tcpos = self.world.chunk_pos_of(dest);
        let tci = match self.world.find_chunk(tcpos) {
            Some(i) => i,
            None => {
                proof {
                    crate::world::lemma_first_index(
                        w0.chunks,
                        |c: ChunkModel| c.position == tcpos,
                    );
                    if spec_chunk_index(w0.chunks, tcpos) >= 0 {
                        assert(crate::world::spec_has_chunk(w0.chunks, tcpos));
                    }
                    assert(final(self)@ =~~= (StateModel {
                        world: tgt.0,
                        player: tgt.1,
                        rng: tgt.2,
                        ..old(self)@
                    }));
                }
                return;
            },
        };
        proof {
            crate::world::lemma_chunk_index_unique(w0, tci as int, tcpos);
            crate::world::lemma_floor_div_in_i32(dest.x as int, w0.chunk_size);
            crate::world::lemma_floor_div_in_i32(dest.y as int, w0.chunk_size);
        }
        let tile = self.world.tile_kind_at(tci, dest);
        if !(tile == TileKind::Empty) {
            proof {
                assert(final(self)@ =~~= (StateModel {
                    world: tgt.0,
                    player: tgt.1,
                    rng: tgt.2,
                    ..old(self)@
                }));
            }
            return;
        }
        match self.world.first_live_monster_at(tci, dest) {
            Some(_) => {
                proof {
                    assert(final(self)@ =~~= (StateModel {
                        world: tgt.0,
                        player: tgt.1,
                        rng: tgt.2,
                        ..old(self)@
                    }));
                }
                return;
            },
            None => {
            },
        }
        if dest.x == px && dest.y == py {
            proof {
                assert(final(self)@ =~~= (StateModel {
                    world: tgt.0,
                    player: tgt.1,
                    rng: tgt.2,
                    ..old(self)@
                }));
            }
            return;
        }
        self.world.move_monster(from, dest);
        proof {
            assert(final(self)@ =~~= (StateModel {
                world: tgt.0,
                player: tgt.1,
                rng: tgt.2,
                ..old(self)@
            }));
        }
    }

    /// Every living monster acts once, on a snapshot of positions taken
    /// before the first move; exactly the fold of the model transition.
    pub fn monsters_turn(&mut self)
        requires
            state_wf(old(self)@),
        ensures
            ({
                let snap = spec_live_positions(
                    old(self)@.world.chunks,
                    old(self)@.world.chunks.len(),
                );
                let (w2, p2, r2) = spec_monsters_act(
                    old(self)@.world,
                    old(self)@.player,
                    old(self)@.rng,
                    snap,
                    snap.len(),
                );
                final(self)@ == (StateModel { world: w2, player: p2, rng: r2, ..old(self)@ })
            }),
            state_wf(final(self)@),
    {
        let snapshot = self.collect_live_positions();
        let ghost snap = snapshot@;
        let mut i: usize = 0;
        while i < snapshot.len()
            invariant
                i <= snap.len(),
                snapshot@ == snap,
                state_wf(self@),
                ({
                    let (w2, p2, r2) = spec_monsters_act(
                        old(self)@.world,
                        old(self)@.player,
                        old(self)@.rng,
                        snap,
                        i as nat,
                    );
                    self@ == (StateModel { world: w2, player: p2, rng: r2, ..old(self)@ })
                }),
            decreases snap.len() - i,
        {
            self.monster_act(snapshot[i]);
            i = i + 1;
            proof {
                assert(self@ =~~= (StateModel {
                    world: spec_monsters_act(
                        old(self)@.world,
                        old(self)@.player,
                        old(self)@.rng,
                        snap,
                        i as nat,
                    ).0,
                    player: spec_monsters_act(
                        old(self)@.world,
                        old(self)@.player,
                        old(self)@.rng,
                        snap,
                        i as nat,
                    ).1,
                    rng: spec_monsters_act(
                        old(self)@.world,
                        old(self)@.player,
                        old(self)@.rng,
                        snap,
                        i as nat,
                    ).2,
                    ..old(self)@
                }));
            }
        }
    }
}

/// Whether two snapshots are identical.
pub fn verifications_equal(a: &Verification, b: &Verification) -> (r: bool)
    ensures
        r == (a@ == b@),
{
    if a.turn != b.turn || a.chunk_count != b.chunk_count || a.player_pos.x != b.player_pos.x
        || a.player_pos.y != b.player_pos.y || a.monsters.len() != b.monsters.len() {
        return false;
    }
    let mut i: usize = 0;
    while i < a.monsters.len()
        invariant
            i <= a.monsters@.len(),
            a.monsters@.len() == b.monsters@.len(),
            a@.turn == b@.turn,
            a@.chunk_count == b@.chunk_count,
            a@.player_pos == b@.player_pos,
            forall|q: int| 0 <= q < i ==> a.monsters@[q] == b.monsters@[q],
        decreases a.monsters@.len() - i,
    {
        let (ap, ac, ak) = a.monsters[i];
        let (bp, bc, bk) = b.monsters[i];
        if ap.x != bp.x || ap.y != bp.y || ac.x != bc.x || ac.y != bc.y || rank_of_kind(ak)
            != rank_of_kind(bk) {
            proof {
                assert(a.monsters@[i as int] != b.monsters@[i as int]);
            }
            return false;
        }
        i = i + 1;
    }
    proof {
        assert(a.monsters@ =~= b.monsters@);
    }
    true
}

/// The state one full turn later: the front command is consumed (and
/// logged when recording), applied, every monster acts, the turn counter
/// advances, and the fresh verification snapshot is either logged
/// (recording) or checked against the expected snapshot for this turn
/// (replay). A divergence is loud: it raises the `diverged` flag and
/// ends the game. With no command queued, nothing happens.
pub open spec fn spec_process_turn(s: StateModel) -> StateModel {
    if s.commands.len() == 0 {
        s
    } else {
        let c = s.commands[0];
        let s1 = StateModel { commands: s.commands.skip(1), ..s };
        if s.game_ended {
            s1
        } else if s.turn >= i32::MAX - 1 {
            StateModel { game_ended: true, ..s1 }
        } else {
            let s2 = if !s1.replay {
                StateModel { log: s1.log.push(spec_encode_command(c)), ..s1 }
            } else {
                s1
            };
            let s3 = spec_process_command(s2, c);
            let snap = spec_live_positions(s3.world.chunks, s3.world.chunks.len());
            let acted = spec_monsters_act(s3.world, s3.player, s3.rng, snap, snap.len());
            let s4 = StateModel { world: acted.0, player: acted.1, rng: acted.2, ..s3 };
            let s5 = StateModel {
                turn: (s4.turn + 1) as i32,
                game_ended: s4.game_ended || s4.player.dead,
                ..s4
            };
            spec_finish_turn(s5, spec_verification(s5))
        }
    }
}

/// The bookkeeping end of a turn: in replay mode the fresh snapshot is
/// checked against the expected one for this turn (divergence is loud
/// and fatal); in record mode it is appended to the pending log.
#[verifier::opaque]
pub open spec fn spec_finish_turn(s5: StateModel, v: VerificationModel) -> StateModel {
    if s5.replay {
        if s5.verifications.len() > 0 && s5.verifications[0].turn == v.turn {
            let expected = s5.verifications[0];
            let s6 = StateModel { verifications: s5.verifications.skip(1), ..s5 };
            if expected == v {
                s6
            } else {
                StateModel { diverged: true, game_ended: true, ..s6 }
            }
        } else {
            s5
        }
    } else {
        StateModel { log: s5.log.push(spec_encode_verification(v)), ..s5 }
    }
}

/// `n` turns of [`spec_process_turn`].
pub open spec fn spec_run_turns(s: StateModel, n: nat) -> StateModel
    decreases n,
{
    if n == 0 {
        s
    } else {
        spec_run_turns(spec_process_turn(s), (n - 1) as nat)
    }
}

impl State {
    /// Advances the simulation by one turn; exactly the model
    /// transition. Consumes exactly one queued command.
    #[verifier::rlimit(100)]
    #[verifier::spinoff_prover]
    pub fn process_turn(&mut self)
        requires
            state_wf(old(self)@),
        ensures
            final(self)@ == spec_process_turn(old(self)@),
            state_wf(final(self)@),
            old(self)@.commands.len() > 0 ==> final(self)@.commands.len() == old(
                self,
            )@.commands.len() - 1,
            old(self)@.commands.len() == 0 ==> final(self)@ == old(self)@,
    {
        let ghost s0 = self@;
        let c = match self.commands.pop_front() {
            None => {
                proof {
                    assert(final(self)@ =~~= s0);
                    assert(final(self)@ == spec_process_turn(s0));
                }
                return;
            },
            Some(c) => c,
        };
        proof {
            assert(self@.commands =~= s0.commands.skip(1));
            assert(c@ == s0.commands[0]);
        }
        let ghost s1 = StateModel { commands: s0.commands.skip(1), ..s0 };
        if self.game_ended {
            proof {
                assert(final(self)@ == spec_process_turn(s0)) by {
                    assert(final(self)@ =~~= s1);
                };
            }
            return;
        }
        if self.turn >= i32::MAX - 1 {
            self.game_ended = true;
            proof {
                assert(final(self)@ == spec_process_turn(s0)) by {
                    assert(final(self)@ =~~= (StateModel { game_ended: true, ..s1 }));
                };
            }
            return;
        }
        if !self.replay {
            let line = encode_command(&c);
            self.log.push(line);
            proof {
                assert(self@.log =~= s1.log.push(spec_encode_command(c@)));
            }
        }
        let ghost s2 = self@;
        proof {
            if !s0.replay {
                assert(s2 =~~= (StateModel {
                    log: s1.log.push(spec_encode_command(c@)),
                    ..s1
                }));
            } else {
                assert(s2 =~~= s1);
            }
        }
        self.process_command(&c);
        let ghost s3 = self@;
        self.monsters_turn();
        self.turn = self.turn + 1;
        if self.player.dead {
            self.game_ended = true;
        }
        let ghost s5 = self@;
        proof {
            let snap = spec_live_positions(s3.world.chunks, s3.world.chunks.len());
            let acted = spec_monsters_act(s3.world, s3.player, s3.rng, snap, snap.len());
            let s4 = StateModel { world: acted.0, player: acted.1, rng: acted.2, ..s3 };
            assert(s5 =~~= (StateModel {
                turn: (s4.turn + 1) as i32,
                game_ended: s4.game_ended || s4.player.dead,
                ..s4
            }));
        }
        let v = self.verification();
        self.finish_turn(&v);
        proof {
            assert(final(self)@ == spec_process_turn(s0));
        }
    }

    /// The bookkeeping end of a turn; exactly the finishing transition.
    #[verifier::rlimit(100)]
    #[verifier::spinoff_prover]
    fn finish_turn(&mut self, v: &Verification)
        ensures
            final(self)@ == spec_finish_turn(old(self)@, v@),
            final(self)@.world == old(self)@.world,
            final(self)@.player == old(self)@.player,
            final(self)@.turn == old(self)@.turn,
            final(self)@.commands == old(self)@.commands,
            final(self)@.world_size == old(self)@.world_size,
    {
        proof {
            reveal(spec_finish_turn);
        }
        let ghost s5 = self@;
        if self.replay {
            if self.verifications.len() > 0 {
                let same_turn = self.verifications[0].turn == v.turn;
                if same_turn {
                    let expected = match self.verifications.pop_front() {
                        Some(e) => e,
                        None => {
                            proof {
                                assert(false);
                            }
                            return;
                        },
                    };
                    proof {
                        assert(self@.verifications =~= s5.verifications.skip(1));
                        assert(expected@ == s5.verifications[0]);
                    }
                    if !verifications_equal(&expected, &v) {
                        self.diverged = true;
                        self.game_ended = true;
                        proof {
                            assert(final(self)@ == spec_finish_turn(s5, v@));
                        }
                    } else {
                        proof {
                            assert(final(self)@ == spec_finish_turn(s5, v@));
                        }
                    }
                } else {
                    proof {
                        assert(final(self)@ == spec_finish_turn(s5, v@));
                    }
                }
            } else {
                proof {
                    assert(final(self)@ == spec_finish_turn(s5, v@));
                }
            }
        } else {
            self.log.push(encode_verification(v));
            proof {
                assert(self@.log =~= s5.log.push(spec_encode_verification(v@)));
                assert(final(self)@ == spec_finish_turn(s5, v@));
            }
        }
    }

    /// Feeds a batch of commands into the queue and advances the
    /// simulation until the queue is drained: the pure
    /// state-plus-commands to state contract of the core.
    #[verifier::rlimit(100)]
    #[verifier::spinoff_prover]
    pub fn advance_turn(&mut self, commands: Vec<Command>)
        requires
            state_wf(old(self)@),
        ensures
            ({
                let appended = StateModel {
                    commands: old(self)@.commands + commands@.map_values(|c: Command| c@),
                    ..old(self)@
                };
                final(self)@ == spec_run_turns(
                    appended,
                    (old(self)@.commands.len() + commands@.len()) as nat,
                )
            }),
            state_wf(final(self)@),
            final(self)@.commands.len() == 0,
    {
        let mut incoming = commands;
        let ghost inseq = incoming@;
        proof {
            assert(incoming.len() <= usize::MAX);
            assert(incoming.len() == inseq.len());
        }
        let mut j: usize = 0;
        while incoming.len() > 0
            invariant
                state_wf(self@),
                incoming@ == inseq.skip(j as int),
                j <= inseq.len(),
                inseq.len() <= usize::MAX,
                self@ == (StateModel {
                    commands: old(self)@.commands + inseq.take(j as int).map_values(
                        |c: Command| c@,
                    ),
                    ..old(self)@
                }),
            decreases incoming@.len(),
        {
            let ghost jpre = j as int;
            let ghost prevq = self.commands@;
            let c = incoming.remove(0);
            proof {
                assert(c@ == inseq[jpre]@);
            }
            self.commands.push_back(c);
            j = j + 1;
            proof {
                assert(incoming@ =~= inseq.skip(j as int));
                assert(self.commands@ == prevq.push(c));
                assert(self@.commands =~= prevq.map_values(|c2: Command| c2@).push(c@));
                assert(inseq.take(j as int).map_values(|c2: Command| c2@) =~= inseq.take(
                    jpre,
                ).map_values(|c2: Command| c2@).push(inseq[jpre]@));
                assert(self@.commands =~= old(self)@.commands + inseq.take(j as int).map_values(
                    |c2: Command| c2@,
                ));
                assert(self@ == (StateModel {
                    commands: old(self)@.commands + inseq.take(j as int).map_values(
                        |c2: Command| c2@,
                    ),
                    ..old(self)@
                }));
            }
        }
        proof {
            assert(inseq.take(inseq.len() as int) =~= inseq);
            assert(inseq.map_values(|c2: Command| c2@) =~= inseq.take(
                inseq.len() as int,
            ).map_values(|c2: Command| c2@));
        }
        let ghost appended = StateModel {
            commands: old(self)@.commands + inseq.map_values(|c2: Command| c2@),
            ..old(self)@
        };
        let ghost total = appended.commands.len();
        proof {
            assert(self@ == appended) by {
                assert(self@.commands =~= appended.commands);
            };
            assert(spec_run_turns(appended, total) == spec_run_turns(
                self@,
                self@.commands.len(),
            ));
        }
        while self.commands.len() > 0
            invariant
                state_wf(self@),
                spec_run_turns(appended, total) == spec_run_turns(
                    self@,
                    self@.commands.len(),
                ),
            decreases self@.commands.len(),
        {
            self.process_turn();
        }
        proof {
            assert(spec_run_turns(self@, 0) == self@);
        }
    }
}

/// Appends the three replay-log header lines: the decimal seed, the
/// build version, the build commit.
pub fn log_header(log: &mut Vec<Vec<u8>>, seed: u32, version: &Vec<u8>, commit: &Vec<u8>)
    ensures
        final(log)@.map_values(|l: Vec<u8>| l@) == old(log)@.map_values(|l: Vec<u8>| l@) + seq![
            dec_digits(seed as nat),
            version@,
            commit@,
        ],
{
    let mut line: Vec<u8> = Vec::new();
    crate::codec::encode_u64_into(&mut line, seed as u64);
    log.push(line);
    log.push(version.clone());
    log.push(commit.clone());
    proof {
        assert(final(log)@.map_values(|l: Vec<u8>| l@) =~= old(log)@.map_values(|l: Vec<u8>| l@)
            + seq![dec_digits(seed as nat), version@, commit@]);
    }
}

/// Appends one command line to the pending log.
pub fn log_command(log: &mut Vec<Vec<u8>>, command: &Command)
    ensures
        final(log)@.map_values(|l: Vec<u8>| l@) == old(log)@.map_values(|l: Vec<u8>| l@).push(
            spec_encode_command(command@),
        ),
{
    let line = encode_command(command);
    log.push(line);
    proof {
        assert(final(log)@.map_values(|l: Vec<u8>| l@) =~= old(log)@.map_values(
            |l: Vec<u8>| l@,
        ).push(spec_encode_command(command@)));
    }
}

/// Appends one verification line to the pending log.
pub fn log_verification(log: &mut Vec<Vec<u8>>, verification: &Verification)
    ensures
        final(log)@.map_values(|l: Vec<u8>| l@) == old(log)@.map_values(|l: Vec<u8>| l@).push(
            spec_encode_verification(verification@),
        ),
{
    let line = encode_verification(verification);
    log.push(line);
    proof {
        assert(final(log)@.map_values(|l: Vec<u8>| l@) =~= old(log)@.map_values(
            |l: Vec<u8>| l@,
        ).push(spec_encode_verification(verification@)));
    }
}

/// The replay path used when the embedding supplies none: the core
/// itself never touches the clock or the file system, so by default
/// nothing is recorded to disk and the log only accumulates in memory.
pub fn generate_replay_path() -> (r: Option<String>)
    ensures
        r is None,
{
    None
}

impl State {
    /// Starts a brand-new game: a fresh seed is drawn from the
    /// platform's entropy, the replay-log header is queued, and the
    /// session is otherwise exactly the fresh state for that seed.
    pub fn new_game(
        world_size: Point,
        map_size: i32,
        panel_width: i32,
        display_size: Point,
        exit_after: bool,
        invincible: bool,
        version: &Vec<u8>,
        commit: &Vec<u8>,
    ) -> (s: State)
        requires
            world_size.x == world_size.y,
            64 <= world_size.x <= WORLD_SIDE_MAX,
            map_size >= 1,
            panel_width >= 0,
            map_size + panel_width <= i32::MAX,
            display_size.x == map_size + panel_width,
            display_size.y == map_size,
        ensures
            state_wf(s@),
            s@ == (StateModel {
                log: seq![dec_digits(s@.seed as nat), version@, commit@],
                ..spec_state_new(
                    world_size,
                    map_size,
                    panel_width,
                    display_size,
                    Seq::empty(),
                    Seq::empty(),
                    s@.seed,
                    false,
                    invincible,
                    false,
                    false,
                    exit_after,
                )
            }),
    {
        let seed: u32 = rand::random::<u32>();
        let throwaway_seed: u64 = rand::random::<u64>();
        let mut s = State::new(
            world_size,
            map_size,
            panel_width,
            display_size,
            VecDeque::new(),
            VecDeque::new(),
            seed,
            false,
            invincible,
            false,
            false,
            exit_after,
            throwaway_seed,
        );
        log_header(&mut s.log, seed, version, commit);
        proof {
            assert(s@.log =~= seq![dec_digits(seed as nat), version@, commit@]) by {
                assert(Seq::<Seq<u8>>::empty() + seq![
                    dec_digits(seed as nat),
                    version@,
                    commit@,
                ] =~= seq![dec_digits(seed as nat), version@, commit@]);
            };
            let base = spec_state_new(
                world_size,
                map_size,
                panel_width,
                display_size,
                Seq::empty(),
                Seq::empty(),
                seed,
                false,
                invincible,
                false,
                false,
                exit_after,
            );
            assert(s@.player == base.player);
            assert(s@.world == base.world);
            assert(s@.commands =~= base.commands);
            assert(s@.verifications =~= base.verifications);
            assert(s@.rng == base.rng);
            assert(s@ == (StateModel {
                log: seq![dec_digits(seed as nat), version@, commit@],
                ..base
            }));
        }
        s
    }

    /// Reconstructs a session from a decoded replay file: the state is
    /// the fresh state for the recorded seed, with the recorded commands
    /// and verification snapshots queued. The two booleans flag a
    /// version and a commit mismatch against the running build; both are
    /// warnings, never failures.
    pub fn replay_game(
        world_size: Point,
        map_size: i32,
        panel_width: i32,
        display_size: Point,
        data: ReplayData,
        cheating: bool,
        invincible: bool,
        replay_full_speed: bool,
        exit_after: bool,
        version: &Vec<u8>,
        commit: &Vec<u8>,
        throwaway_seed: u64,
    ) -> (r: (State, bool, bool))
        requires
            world_size.x == world_size.y,
            64 <= world_size.x <= WORLD_SIDE_MAX,
            map_size >= 1,
            panel_width >= 0,
            map_size + panel_width <= i32::MAX,
            display_size.x == map_size + panel_width,
            display_size.y == map_size,
        ensures
            state_wf(r.0@),
            r.0@ == spec_state_new(
                world_size,
                map_size,
                panel_width,
                display_size,
                data@.commands,
                data@.verifications,
                data@.seed,
                cheating,
                invincible,
                true,
                replay_full_speed,
                exit_after,
            ),
            r.1 == (data@.version != version@),
            r.2 == (data@.commit != commit@),
    {
        let version_warn = !crate::codec::line_equals(&data.version, version);
        let commit_warn = !crate::codec::line_equals(&data.commit, commit);
        let ghost cseq = data.commands@;
        let ghost vseq = data.verifications@;
        let mut cmds = data.commands;
        let mut commands: VecDeque<Command> = VecDeque::new();
        while cmds.len() > 0
            invariant
                cmds@.len() <= cseq.len(),
                commands@ =~= cseq.skip(cmds@.len() as int),
                cmds@ =~= cseq.take(cmds@.len() as int),
            decreases cmds@.len(),
        {
            let ghost npre = cmds@.len() as int;
            let c = match cmds.pop() {
                Some(c) => c,
                None => {
                    proof {
                        assert(false);
                    }
                    return (State::new(
                        world_size,
                        map_size,
                        panel_width,
                        display_size,
                        VecDeque::new(),
                        VecDeque::new(),
                        data.seed,
                        cheating,
                        invincible,
                        true,
                        replay_full_speed,
                        exit_after,
                        throwaway_seed,
                    ), version_warn, commit_warn);
                },
            };
            commands.push_front(c);
            proof {
                assert(cmds@ =~= cseq.take(npre).drop_last());
                assert(cmds@ =~= cseq.take(npre - 1));
                assert(c == cseq.take(npre)[npre - 1]);
                assert(c == cseq[npre - 1]);
                assert(commands@ =~= seq![c] + cseq.skip(npre));
                assert(commands@ =~= cseq.skip(cmds@.len() as int));
                assert(cmds@ =~= cseq.take(cmds@.len() as int));
            }
        }
        proof {
            assert(commands@ =~= cseq);
        }
        let mut vers = data.verifications;
        let mut verifications: VecDeque<Verification> = VecDeque::new();
        while vers.len() > 0
            invariant
                vers@.len() <= vseq.len(),
                verifications@ =~= vseq.skip(vers@.len() as int),
                vers@ =~= vseq.take(vers@.len() as int),
            decreases vers@.len(),
        {
            let ghost mpre = vers@.len() as int;
            let v = match vers.pop() {
                Some(v) => v,
                None => {
                    proof {
                        assert(false);
                    }
                    Verification {
                        turn: 0,
                        chunk_count: 0,
                        player_pos: Point { x: 0, y: 0 },
                        monsters: Vec::new(),
                    }
                },
            };
            verifications.push_front(v);
            proof {
                assert(vers@ =~= vseq.take(mpre).drop_last());
                assert(vers@ =~= vseq.take(mpre - 1));
                assert(v == vseq.take(mpre)[mpre - 1]);
                assert(v == vseq[mpre - 1]);
                assert(verifications@ =~= seq![v] + vseq.skip(mpre));
                assert(verifications@ =~= vseq.skip(vers@.len() as int));
                assert(vers@ =~= vseq.take(vers@.len() as int));
            }
        }
        proof {
            assert(verifications@ =~= vseq);
        }
        let s = State::new(
            world_size,
            map_size,
            panel_width,
            display_size,
            commands,
            verifications,
            data.seed,
            cheating,
            invincible,
            true,
            replay_full_speed,
            exit_after,
            throwaway_seed,
        );
        (s, version_warn, commit_warn)
    }
}

/// The drawable view of the simulation a renderer needs each frame:
/// where the player is, whether the run is over, and every living
/// monster with its chunk and kind, in the deterministic sorted order.
/// Tiles and items of any loaded chunk are read through the world's
/// accessors.
pub struct RenderSnapshot {
    pub player_pos: Point,
    pub player_dead: bool,
    pub turn: i32,
    pub chunk_count: usize,
    pub monsters: Vec<(Point, Point, Kind)>,
}

impl State {
    /// The render view of the current state; pure read.
    pub fn snapshot_for_render(&self) -> (r: RenderSnapshot)
        ensures
            r.player_pos == self@.player.pos,
            r.player_dead == self@.player.dead,
            r.turn == self@.turn,
            r.chunk_count == self@.world.chunks.len(),
            r.monsters@ == spec_verification(self@).monsters,
    {
        proof {
            reveal(spec_verification);
        }
        let v = self.verification();
        RenderSnapshot {
            player_pos: self.player.pos,
            player_dead: self.player.dead,
            turn: self.turn,
            chunk_count: v.chunk_count,
            monsters: v.monsters,
        }
    }
}

} // verus!
