//! Tests of layout validation, wave seeding, the mission state machine and
//! whole simulation ticks.

use invaders_core::entities::{
    AlienKind, Cannon, Direction, LayoutError, MissionResult, Projectile, ProjectileKind, Signal,
};
use invaders_core::layout::validate_levels;
use invaders_core::mission::{apply_mission_result, check_wave_clear, Mission};
use invaders_core::sim::{Input, Sim};
use invaders_core::store::Store;

const W: i32 = 1000;
const H: i32 = 900;

fn no_input() -> Input {
    Input { move_left: false, move_right: false, fire: false }
}

fn one_squid_levels() -> Vec<Vec<Vec<char>>> {
    vec![vec![vec!['S']]]
}

fn two_levels() -> Vec<Vec<Vec<char>>> {
    vec![vec![vec!['S']], vec![vec!['C', 'C']]]
}

#[test]
fn validate_accepts_well_formed_levels() {
    assert_eq!(validate_levels(&two_levels()), Ok(()));
}

#[test]
fn validate_rejects_empty_level_list_as_index_error() {
    let empty: Vec<Vec<Vec<char>>> = vec![];
    assert_eq!(validate_levels(&empty), Err(LayoutError::IndexOutOfRange));
}

#[test]
fn validate_rejects_unrecognized_symbol() {
    let bad = vec![vec![vec!['S', 'X']]];
    assert_eq!(validate_levels(&bad), Err(LayoutError::LoadError));
}

#[test]
fn validate_rejects_oversized_grid() {
    let tall: Vec<Vec<Vec<char>>> = vec![vec![vec!['S']; 101]];
    assert_eq!(validate_levels(&tall), Err(LayoutError::LoadError));
}

#[test]
fn new_seeds_wave_one_from_the_grid() {
    // Width 1000 gives a pad of 100; height 900 puts row zero at y=420 and
    // the cannon at y=-420.
    let levels = vec![vec![vec!['S', 'C'], vec!['.', 'U']]];
    let sim = Sim::new(levels, W, H).unwrap();
    let c = sim.store.cannon.unwrap();
    assert_eq!((c.x, c.y, c.lives, c.score), (0, -420, 3, 0));
    let aliens = &sim.store.aliens;
    assert_eq!(aliens.len(), 3);
    assert_eq!((aliens[0].kind, aliens[0].x, aliens[0].y), (AlienKind::Squid, -100, 420));
    assert_eq!((aliens[1].kind, aliens[1].x, aliens[1].y), (AlienKind::Crab, 0, 420));
    assert_eq!((aliens[2].kind, aliens[2].x, aliens[2].y), (AlienKind::Ufo, 0, 320));
    assert!(sim.store.projectiles.is_empty());
    assert_eq!(sim.mission.difficulty, 1);
    assert_eq!(sim.direction, Direction::Right);
}

#[test]
fn new_rejects_what_validation_rejects() {
    assert_eq!(
        Sim::new(vec![], W, H).err(),
        Some(LayoutError::IndexOutOfRange)
    );
    assert_eq!(
        Sim::new(vec![vec![vec!['?']]], W, H).err(),
        Some(LayoutError::LoadError)
    );
}

#[test]
fn wave_clear_fires_once_per_clearing() {
    let mut mission = Mission::new();
    assert!(!mission.wave_armed);
    // Aliens exist: no signal, the detector arms.
    assert!(!check_wave_clear(&mut mission, false));
    assert!(mission.wave_armed);
    // The set becomes empty: the signal fires exactly once.
    assert!(check_wave_clear(&mut mission, true));
    assert!(!mission.wave_armed);
    // Still empty on later ticks: no further signal.
    assert!(!check_wave_clear(&mut mission, true));
    assert!(!check_wave_clear(&mut mission, true));
    // Aliens exist again: the detector re-arms.
    assert!(!check_wave_clear(&mut mission, false));
    assert!(mission.wave_armed);
}

#[test]
fn restart_resets_difficulty_lives_score_and_wave() {
    let levels = two_levels();
    let mut mission = Mission { difficulty: 2, phase: invaders_core::entities::MissionPhase::Playing, wave_armed: true };
    let mut store = Store {
        next_id: 40,
        cannon: Some(Cannon { x: 77, y: -420, lives: 0, score: 990 }),
        aliens: vec![],
        projectiles: vec![Projectile { id: 9, kind: ProjectileKind::AlienBall, x: 0, y: 0 }],
    };
    let r = apply_mission_result(&mut mission, &mut store, MissionResult::Restart, &levels, W, H);
    assert_eq!(r, Ok(()));
    assert_eq!(mission.difficulty, 1);
    let c = store.cannon.unwrap();
    assert_eq!((c.x, c.y, c.lives, c.score), (0, -420, 3, 0));
    // The store exactly matches the level-one layout: one squid.
    assert_eq!(store.aliens.len(), 1);
    assert_eq!(store.aliens[0].kind, AlienKind::Squid);
    assert_eq!((store.aliens[0].x, store.aliens[0].y), (0, 420));
    assert!(store.projectiles.is_empty());
}

#[test]
fn advance_keeps_lives_and_score() {
    let levels = two_levels();
    let mut mission = Mission { difficulty: 1, phase: invaders_core::entities::MissionPhase::Playing, wave_armed: false };
    let mut store = Store {
        next_id: 40,
        cannon: Some(Cannon { x: 77, y: -420, lives: 2, score: 990 }),
        aliens: vec![],
        projectiles: vec![],
    };
    let r = apply_mission_result(&mut mission, &mut store, MissionResult::Advance, &levels, W, H);
    assert_eq!(r, Ok(()));
    assert_eq!(mission.difficulty, 2);
    let c = store.cannon.unwrap();
    assert_eq!((c.x, c.y, c.lives, c.score), (0, -420, 2, 990));
    assert_eq!(store.aliens.len(), 2);
    assert!(store.aliens.iter().all(|a| a.kind == AlienKind::Crab));
}

#[test]
fn advance_past_last_wave_is_fatal() {
    let levels = two_levels();
    let mut mission = Mission { difficulty: 2, phase: invaders_core::entities::MissionPhase::Playing, wave_armed: false };
    let mut store = Store {
        next_id: 40,
        cannon: Some(Cannon { x: 0, y: -420, lives: 3, score: 10 }),
        aliens: vec![],
        projectiles: vec![],
    };
    let r = apply_mission_result(&mut mission, &mut store, MissionResult::Advance, &levels, W, H);
    assert_eq!(r, Err(LayoutError::IndexOutOfRange));
    assert_eq!(mission.difficulty, 2);
    assert_eq!(store.cannon.unwrap().score, 10);
}

#[test]
fn tick_fire_press_spawns_one_cannon_ball() {
    let mut sim = Sim::new(one_squid_levels(), W, H).unwrap();
    let mut signals: Vec<Signal> = Vec::new();
    let input = Input { move_left: false, move_right: false, fire: true };
    let r = sim.tick(input, 0, &mut signals);
    assert_eq!(r, Ok(()));
    // The ball spawned at (0, -400) over the cannon and advanced to -395.
    assert_eq!(sim.store.projectiles.len(), 1);
    let p = &sim.store.projectiles[0];
    assert_eq!(p.kind, ProjectileKind::CannonBall);
    assert_eq!((p.x, p.y), (0, -395));
    // The formation moved right by its step.
    assert_eq!(sim.store.aliens[0].x, 2);
    assert!(signals.is_empty());
}

#[test]
fn tick_moves_cannon_with_clamped_input() {
    let mut sim = Sim::new(one_squid_levels(), W, H).unwrap();
    let mut signals: Vec<Signal> = Vec::new();
    let left = Input { move_left: true, move_right: false, fire: false };
    sim.tick(left, 0, &mut signals).unwrap();
    assert_eq!(sim.store.cannon.unwrap().x, -10);
    // Park the cannon at the edge of the clamp: no further movement.
    sim.store.cannon = Some(Cannon { x: -495, y: -420, lives: 3, score: 0 });
    sim.tick(left, 0, &mut signals).unwrap();
    assert_eq!(sim.store.cannon.unwrap().x, -495);
}

#[test]
fn tick_alien_fire_waits_for_the_timer() {
    let mut sim = Sim::new(one_squid_levels(), W, H).unwrap();
    let mut signals: Vec<Signal> = Vec::new();
    sim.tick(no_input(), 1500, &mut signals).unwrap();
    assert!(sim.store.projectiles.is_empty());
    sim.tick(no_input(), 1500, &mut signals).unwrap();
    // The accumulated interval was reached: the one living alien fired. The
    // formation had moved right twice by then, and the fresh ball advanced
    // one step down.
    assert_eq!(sim.store.projectiles.len(), 1);
    let p = &sim.store.projectiles[0];
    assert_eq!(p.kind, ProjectileKind::AlienBall);
    assert_eq!((p.x, p.y), (4, 390));
    assert_eq!(sim.fire_acc_ms, 0);
}

#[test]
fn tick_clearing_the_wave_advances_and_keeps_score() {
    let mut sim = Sim::new(two_levels(), W, H).unwrap();
    let mut signals: Vec<Signal> = Vec::new();
    // Drop a cannon ball right where the squid will stand after this tick's
    // formation move (x: 0 -> 2) and ball advance (y: 415 -> 420).
    sim.store.projectiles.push(Projectile {
        id: 90,
        kind: ProjectileKind::CannonBall,
        x: 2,
        y: 415,
    });
    let r = sim.tick(no_input(), 0, &mut signals);
    assert_eq!(r, Ok(()));
    assert_eq!(signals, vec![Signal::ScoreChanged(10)]);
    // The wave cleared, so the mission advanced to level two, keeping the
    // score just earned.
    assert_eq!(sim.mission.difficulty, 2);
    assert_eq!(sim.store.aliens.len(), 2);
    assert!(sim.store.aliens.iter().all(|a| a.kind == AlienKind::Crab));
    let c = sim.store.cannon.unwrap();
    assert_eq!((c.lives, c.score), (3, 10));
    assert!(sim.store.projectiles.is_empty());
}

#[test]
fn tick_clearing_the_last_wave_is_fatal() {
    let mut sim = Sim::new(one_squid_levels(), W, H).unwrap();
    let mut signals: Vec<Signal> = Vec::new();
    sim.store.projectiles.push(Projectile {
        id: 90,
        kind: ProjectileKind::CannonBall,
        x: 2,
        y: 415,
    });
    let r = sim.tick(no_input(), 0, &mut signals);
    assert_eq!(r, Err(LayoutError::IndexOutOfRange));
    assert_eq!(sim.mission.difficulty, 1);
    assert!(sim.store.aliens.is_empty());
}

#[test]
fn long_run_keeps_score_and_lives_rules() {
    // Drive the whole engine, alien fire included, for many ticks: the
    // score only rises and the lives only fall, except across a restart,
    // which lands exactly on the reset values.
    let levels = vec![vec![vec!['S', 'C', 'O', 'U']], vec![vec!['C'; 6]]];
    let mut sim = Sim::new(levels, W, H).unwrap();
    let mut signals: Vec<Signal> = Vec::new();
    let mut prev = sim.store.cannon.unwrap();
    for step in 0u64..5000 {
        let input = Input {
            move_left: step % 11 < 5,
            move_right: step % 7 < 3,
            fire: step % 4 == 0,
        };
        match sim.tick(input, 40, &mut signals) {
            Ok(()) => {}
            Err(LayoutError::IndexOutOfRange) => break,
            Err(e) => panic!("unexpected tick error: {:?}", e),
        }
        let c = sim.store.cannon.unwrap();
        let reset = c.score == 0 && c.lives == 3 && sim.mission.difficulty == 1;
        assert!(c.score >= prev.score || reset);
        assert!(c.lives <= prev.lives || reset);
        signals.clear();
        prev = c;
    }
}

#[test]
fn tick_exhausted_lives_restart_round_trip() {
    let mut sim = Sim::new(two_levels(), W, H).unwrap();
    let mut signals: Vec<Signal> = Vec::new();
    // A worn-down cannon with no lives left, about to be hit.
    sim.store.cannon = Some(Cannon { x: 0, y: -420, lives: 0, score: 55 });
    sim.store.projectiles.push(Projectile {
        id: 91,
        kind: ProjectileKind::AlienBall,
        x: 0,
        y: -415,
    });
    let r = sim.tick(no_input(), 0, &mut signals);
    assert_eq!(r, Ok(()));
    assert!(signals.is_empty());
    // The restart reset difficulty, lives and score, and reseeded wave one
    // exactly: one squid back at its cell.
    assert_eq!(sim.mission.difficulty, 1);
    let c = sim.store.cannon.unwrap();
    assert_eq!((c.x, c.y, c.lives, c.score), (0, -420, 3, 0));
    assert_eq!(sim.store.aliens.len(), 1);
    assert_eq!(sim.store.aliens[0].kind, AlienKind::Squid);
    assert_eq!((sim.store.aliens[0].x, sim.store.aliens[0].y), (0, 420));
    assert!(sim.store.projectiles.is_empty());
}
