//! End-to-end tests of the simulation core: determinism, identity,
//! spawn policy, weighted choice and the replay codec.

use dose_core::codec::{
    encode_command, encode_verification, parse_command, parse_replay, parse_verification,
    ReplayError,
};
use dose_core::monster::Kind;
use dose_core::point::{floor_div, Point};
use dose_core::rng::{choose_weighted, SeededRng};
use dose_core::state::{Command, State, Verification};
use dose_core::world::World;
use std::collections::VecDeque;

fn fresh_state(seed: u32, replay: bool) -> State {
    State::new(
        Point::new(1_073_741_824, 1_073_741_824),
        30,
        17,
        Point::new(47, 30),
        VecDeque::new(),
        VecDeque::new(),
        seed,
        false,
        false,
        replay,
        false,
        false,
        7,
    )
}

#[test]
fn floor_div_matches_mathematical_floor() {
    assert_eq!(floor_div(0, 32), 0);
    assert_eq!(floor_div(31, 32), 0);
    assert_eq!(floor_div(32, 32), 1);
    assert_eq!(floor_div(-1, 32), -1);
    assert_eq!(floor_div(-32, 32), -1);
    assert_eq!(floor_div(-33, 32), -2);
    assert_eq!(floor_div(-1_073_741_824, 32), -33_554_432);
}

#[test]
fn seeded_rng_is_reproducible() {
    let mut a = SeededRng::from_seed(123456789);
    let mut b = SeededRng::from_seed(123456789);
    for _ in 0..1000 {
        assert_eq!(a.next_u64(), b.next_u64());
    }
}

#[test]
fn seeded_rng_zero_seed_still_advances() {
    let mut a = SeededRng::from_seed(0);
    let first = a.next_u64();
    let second = a.next_u64();
    assert_ne!(first, second);
}

#[test]
fn zero_weight_option_never_selected() {
    // The statistical boundary check: across 10,000 trials the
    // zero-weight entry must never come out.
    let weights: Vec<u32> = vec![5, 0, 7];
    let mut rng = SeededRng::from_seed(42);
    for _ in 0..10_000 {
        let i = choose_weighted(&mut rng, &weights);
        assert_ne!(i, 1);
        assert!(i < 3);
    }
}

#[test]
fn chunk_generation_is_deterministic() {
    // Generating the same chunk coordinate from two identically seeded
    // worlds yields identical tile, monster and item content.
    for seed in [0u32, 1, 12345, u32::MAX] {
        let mut w1 = World::new(seed, 1_073_741_824, 32, Point::new(0, 0), 1);
        let mut w2 = World::new(seed, 1_073_741_824, 32, Point::new(0, 0), 999);
        for pos in [Point::new(0, 0), Point::new(-5, -7), Point::new(40, 33)] {
            let i1 = w1.chunk_at(pos);
            let i2 = w2.chunk_at(pos);
            let c1 = &w1.chunks[i1];
            let c2 = &w2.chunks[i2];
            assert_eq!(c1.position, c2.position);
            assert_eq!(c1.origin, c2.origin);
            let k1: Vec<_> = c1.tiles.iter().map(|t| t.kind).collect();
            let k2: Vec<_> = c2.tiles.iter().map(|t| t.kind).collect();
            assert_eq!(k1, k2);
            assert_eq!(c1.monsters, c2.monsters);
            assert_eq!(c1.items, c2.items);
        }
    }
}

#[test]
fn spawn_tile_is_always_empty() {
    // Whatever the seed rolled, the tile under the spawn is empty.
    for seed in [0u32, 7, 99, 123456, u32::MAX] {
        let mut w = World::new(seed, 1_073_741_824, 32, Point::new(0, 0), 1);
        let ci = w.chunk_at(Point::new(0, 0));
        let kind = w.tile_kind_at(ci, Point::new(0, 0));
        assert_eq!(kind, dose_core::level::TileKind::Empty);
    }
}

#[test]
fn monster_ids_are_globally_unique() {
    let mut w = World::new(77, 1_073_741_824, 32, Point::new(0, 0), 1);
    for x in -3..3 {
        for y in -3..3 {
            w.chunk_at(Point::new(x * 32, y * 32));
        }
    }
    let mut ids = vec![];
    for c in &w.chunks {
        for m in &c.monsters {
            ids.push(m.id);
        }
    }
    assert!(!ids.is_empty());
    let mut sorted = ids.clone();
    sorted.sort();
    sorted.dedup();
    assert_eq!(sorted.len(), ids.len());
}

#[test]
fn move_monster_preserves_identity() {
    // Find a seed whose spawn chunk holds a monster, then walk it to a
    // free neighbouring tile and check its id survives.
    let mut moved_one = false;
    for seed in 0..200u32 {
        let mut w = World::new(seed, 1_073_741_824, 32, Point::new(0, 0), 1);
        let ci = w.chunk_at(Point::new(0, 0));
        let candidates: Vec<_> = w.chunks[ci]
            .monsters
            .iter()
            .map(|m| (m.id, m.kind, m.position))
            .collect();
        for (id, kind, pos) in candidates {
            // try stepping one tile east, possibly into the next chunk
            let dest = Point::new(pos.x + 1, pos.y);
            let dest_ci = w.chunk_at(dest);
            let tile = w.tile_kind_at(dest_ci, dest);
            if tile != dose_core::level::TileKind::Empty {
                continue;
            }
            if w.first_live_monster_at(dest_ci, dest).is_some() {
                continue;
            }
            let before: usize = w.chunks.iter().map(|c| c.monsters.len()).sum();
            assert!(w.move_monster(pos, dest));
            let after: usize = w.chunks.iter().map(|c| c.monsters.len()).sum();
            assert_eq!(before, after);
            // the monster is now at dest with the same id and kind
            let nci = w.chunk_at(dest);
            let mi = w.first_live_monster_at(nci, dest).unwrap();
            let m = w.monster(nci, mi);
            assert_eq!(m.id, id);
            assert_eq!(m.kind, kind);
            assert_eq!(m.position, dest);
            moved_one = true;
            break;
        }
        if moved_one {
            break;
        }
    }
    assert!(moved_one);
}

#[test]
fn replay_determinism_round_trip() {
    // The same command sequence against two identically seeded fresh
    // states yields identical verification snapshots at every turn.
    let cmds = vec![
        Command::N,
        Command::E,
        Command::E,
        Command::S,
        Command::UseFood,
        Command::W,
        Command::NW,
        Command::SE,
    ];
    let mut a = fresh_state(987654, false);
    let mut b = fresh_state(987654, false);
    a.advance_turn(cmds.clone());
    b.advance_turn(cmds);
    assert_eq!(a.verification(), b.verification());
    assert_eq!(a.turn, 8);
    assert_eq!(a.log, b.log);
}

#[test]
fn command_lines_round_trip() {
    let commands = vec![
        Command::N,
        Command::E,
        Command::S,
        Command::W,
        Command::NE,
        Command::NW,
        Command::SE,
        Command::SW,
        Command::UseFood,
        Command::UseDose,
        Command::UseCardinalDose,
        Command::UseDiagonalDose,
        Command::UseStrongDose,
        Command::ShowMessageBox {
            ttl_secs: 5,
            ttl_nanos: 999_999_999,
            message: b"hello back\\slash and\nnewline".to_vec(),
        },
    ];
    for c in commands {
        let line = encode_command(&c);
        let parsed = parse_command(&line);
        assert_eq!(parsed, Some(c));
    }
}

#[test]
fn verification_lines_round_trip() {
    let v = Verification {
        turn: 42,
        chunk_count: 9,
        player_pos: Point::new(-3, 17),
        monsters: vec![
            (Point::new(-5, 2), Point::new(-1, 0), Kind::Anxiety),
            (Point::new(0, 0), Point::new(0, 0), Kind::Npc),
            (Point::new(31, -31), Point::new(0, -1), Kind::Voices),
        ],
    };
    let line = encode_verification(&v);
    assert_eq!(parse_verification(&line), Some(v));
}

#[test]
fn verification_line_is_not_a_command() {
    let v = Verification {
        turn: 0,
        chunk_count: 1,
        player_pos: Point::new(0, 0),
        monsters: vec![],
    };
    let line = encode_verification(&v);
    assert_eq!(parse_command(&line), None);
    let cmd_line = encode_command(&Command::N);
    assert_eq!(parse_verification(&cmd_line), None);
}

#[test]
fn malformed_replay_line_is_fatal() {
    // A body line that decodes as neither a command nor a verification
    // fails the whole load with that line's index; nothing is skipped.
    let lines: Vec<Vec<u8>> = vec![
        b"12345".to_vec(),
        b"X".to_vec(),
        b"Y".to_vec(),
        b"N".to_vec(),
        b"this is not a record".to_vec(),
        b"E".to_vec(),
    ];
    assert_eq!(parse_replay(&lines), Err(ReplayError::MalformedLine(4)));
}

#[test]
fn replay_header_errors() {
    assert_eq!(parse_replay(&vec![]), Err(ReplayError::Empty));
    assert_eq!(
        parse_replay(&vec![b"not a number".to_vec()]),
        Err(ReplayError::BadSeed)
    );
    assert_eq!(
        parse_replay(&vec![b"12345".to_vec()]),
        Err(ReplayError::MissingVersion)
    );
    assert_eq!(
        parse_replay(&vec![b"12345".to_vec(), b"X".to_vec()]),
        Err(ReplayError::MissingCommit)
    );
}

#[test]
fn recorded_game_replays_without_divergence() {
    // Record a short session, then replay its log against the same
    // build: every logged verification matches, no divergence, and the
    // verification queue is fully consumed.
    let version = b"X".to_vec();
    let commit = b"Y".to_vec();
    let mut recording = fresh_state(12345, false);
    recording.advance_turn(vec![Command::N, Command::E, Command::SW]);
    let mut lines: Vec<Vec<u8>> = vec![b"12345".to_vec(), version.clone(), commit.clone()];
    lines.extend(recording.log.iter().cloned());
    let data = parse_replay(&lines).expect("recorded log must parse");
    assert_eq!(data.seed, 12345);
    assert_eq!(data.commands.len(), 3);
    assert_eq!(data.verifications.len(), 3);
    let (mut replaying, version_warn, commit_warn) = State::replay_game(
        Point::new(1_073_741_824, 1_073_741_824),
        30,
        17,
        Point::new(47, 30),
        data,
        false,
        false,
        false,
        false,
        &version,
        &commit,
        7,
    );
    assert!(!version_warn);
    assert!(!commit_warn);
    let n = replaying.commands.len();
    for _ in 0..n {
        replaying.process_turn();
    }
    assert!(!replaying.diverged);
    assert!(replaying.verifications.is_empty());
    assert_eq!(replaying.verification(), recording.verification());
}

#[test]
fn version_mismatch_warns_but_replays() {
    let version = b"X".to_vec();
    let commit = b"Y".to_vec();
    let mut recording = fresh_state(12345, false);
    recording.advance_turn(vec![Command::N]);
    let mut lines: Vec<Vec<u8>> = vec![b"12345".to_vec(), version.clone(), commit.clone()];
    lines.extend(recording.log.iter().cloned());
    let data = parse_replay(&lines).expect("recorded log must parse");
    let other_version = b"Z".to_vec();
    let (mut replaying, version_warn, commit_warn) = State::replay_game(
        Point::new(1_073_741_824, 1_073_741_824),
        30,
        17,
        Point::new(47, 30),
        data,
        false,
        false,
        false,
        false,
        &other_version,
        &commit,
        7,
    );
    // mismatch is a warning, never a failure: the replay still runs
    assert!(version_warn);
    assert!(!commit_warn);
    replaying.process_turn();
    assert!(!replaying.diverged);
    assert_eq!(replaying.turn, 1);
}

#[test]
fn turn_advances_and_player_stays_in_bounds() {
    let mut s = fresh_state(5, false);
    s.advance_turn(vec![Command::N, Command::N, Command::N]);
    assert_eq!(s.turn, 3);
    let p = s.player.pos;
    assert!(p.x.abs() <= 3 && p.y.abs() <= 3);
    let v = s.verification();
    assert_eq!(v.turn, 3);
    assert_eq!(v.player_pos, p);
}

#[test]
fn verification_monsters_are_sorted() {
    let mut s = fresh_state(31337, false);
    s.advance_turn(vec![Command::N, Command::E, Command::S, Command::W]);
    let v = s.verification();
    for w in v.monsters.windows(2) {
        let (a, b) = (&w[0], &w[1]);
        assert!((a.0.x, a.0.y) <= (b.0.x, b.0.y));
    }
    assert!(v.chunk_count >= 1);
}

#[test]
fn generate_replay_path_defaults_to_none() {
    assert!(dose_core::state::generate_replay_path().is_none());
}

#[test]
fn metrics_report_tile_width() {
    let m = dose_core::engine::Metrics { tile_width_px: 16 };
    assert_eq!(m.tile_width_px(), 16);
}

#[test]
fn new_game_starts_at_origin_with_header_logged() {
    let version = b"X".to_vec();
    let commit = b"Y".to_vec();
    let s = State::new_game(
        Point::new(1_073_741_824, 1_073_741_824),
        30,
        17,
        Point::new(47, 30),
        false,
        false,
        &version,
        &commit,
    );
    assert_eq!(s.player.pos, Point::new(0, 0));
    assert_eq!(s.turn, 0);
    assert!(!s.game_ended);
    // header: seed line, version line, commit line
    assert_eq!(s.log.len(), 3);
    assert_eq!(s.log[1], version);
    assert_eq!(s.log[2], commit);
    let seed_line = String::from_utf8(s.log[0].clone()).unwrap();
    assert_eq!(seed_line.parse::<u32>().unwrap(), s.seed);
}

#[test]
fn render_snapshot_mirrors_verification() {
    let mut s = fresh_state(2024, false);
    s.advance_turn(vec![Command::E, Command::SE]);
    let v = s.verification();
    let snap = s.snapshot_for_render();
    assert_eq!(snap.player_pos, s.player.pos);
    assert_eq!(snap.turn, 2);
    assert_eq!(snap.chunk_count, v.chunk_count);
    assert_eq!(snap.monsters, v.monsters);
    assert!(!snap.player_dead);
}
