//! Tests of formation movement, the projectile system and the collision
//! resolver.

use invaders_core::collision::check_collisions;
use invaders_core::entities::{
    Alien, AlienKind, Cannon, Direction, Projectile, ProjectileKind, Signal,
};
use invaders_core::formation::refresh_aliens;
use invaders_core::projectiles::refresh_projectiles;
use invaders_core::store::Store;

fn alien(id: u64, kind: AlienKind, x: i32, y: i32) -> Alien {
    Alien { id, kind, x, y }
}

fn ball(id: u64, kind: ProjectileKind, x: i32, y: i32) -> Projectile {
    Projectile { id, kind, x, y }
}

#[test]
fn formation_flips_at_edge_and_nobody_moves() {
    // Screen width 200: right edge at 100. An alien at x=80 touches it
    // (80 + 20 >= 100), so the whole formation stands still and the shared
    // direction flips.
    let mut aliens = vec![
        alien(0, AlienKind::Squid, 0, 50),
        alien(1, AlienKind::Crab, 80, 50),
    ];
    let mut dir = Direction::Right;
    refresh_aliens(&mut aliens, &mut dir, 200);
    assert_eq!(dir, Direction::Left);
    assert_eq!(aliens[0].x, 0);
    assert_eq!(aliens[1].x, 80);
    // On the next tick the whole formation moves together the other way.
    refresh_aliens(&mut aliens, &mut dir, 200);
    assert_eq!(dir, Direction::Left);
    assert_eq!(aliens[0].x, -2);
    assert_eq!(aliens[1].x, 78);
    assert_eq!(aliens[0].y, 50);
    assert_eq!(aliens[1].y, 50);
}

#[test]
fn formation_moves_right_when_clear() {
    let mut aliens = vec![alien(0, AlienKind::Octopus, -10, 0)];
    let mut dir = Direction::Right;
    refresh_aliens(&mut aliens, &mut dir, 200);
    assert_eq!(dir, Direction::Right);
    assert_eq!(aliens[0].x, -8);
}

#[test]
fn formation_flips_at_left_edge() {
    let mut aliens = vec![alien(0, AlienKind::Squid, -80, 0)];
    let mut dir = Direction::Left;
    refresh_aliens(&mut aliens, &mut dir, 200);
    assert_eq!(dir, Direction::Right);
    assert_eq!(aliens[0].x, -80);
}

#[test]
fn projectiles_advance_by_kind() {
    // Screen height 100: vertical bounds at -50 and 50.
    let mut ps = vec![
        ball(0, ProjectileKind::CannonBall, 1, 0),
        ball(1, ProjectileKind::AlienBall, 2, 0),
    ];
    refresh_projectiles(&mut ps, 100);
    assert_eq!(ps.len(), 2);
    assert_eq!((ps[0].x, ps[0].y), (1, 5));
    assert_eq!((ps[1].x, ps[1].y), (2, -5));
}

#[test]
fn projectiles_despawn_off_screen() {
    let mut ps = vec![
        ball(0, ProjectileKind::CannonBall, 0, 46), // moves to 51 > 50: gone
        ball(1, ProjectileKind::CannonBall, 0, 45), // moves to 50: stays
        ball(2, ProjectileKind::AlienBall, 0, -46), // moves to -51: gone
        ball(3, ProjectileKind::AlienBall, 0, -45), // moves to -50: stays
    ];
    refresh_projectiles(&mut ps, 100);
    let ids: Vec<u64> = ps.iter().map(|p| p.id).collect();
    assert_eq!(ids, vec![1, 3]);
}

fn store_with(cannon: Cannon, aliens: Vec<Alien>, projectiles: Vec<Projectile>) -> Store {
    Store { next_id: 100, cannon: Some(cannon), aliens, projectiles }
}

#[test]
fn cannon_ball_consumes_one_alien_and_scores_once() {
    // Two aliens both overlap the ball; only the first in iteration order is
    // consumed, and the ball is consumed exactly once.
    let cannon = Cannon { x: 0, y: -400, lives: 3, score: 0 };
    let aliens = vec![
        alien(0, AlienKind::Crab, 0, 0),
        alien(1, AlienKind::Squid, 10, 0),
    ];
    let ps = vec![ball(50, ProjectileKind::CannonBall, 0, 0)];
    let mut store = store_with(cannon, aliens, ps);
    let mut huds: Vec<Signal> = Vec::new();
    let restarts = check_collisions(&mut store, &mut huds);
    assert_eq!(restarts, 0);
    assert_eq!(store.all_aliens().len(), 1);
    assert_eq!(store.all_aliens()[0].id, 1);
    assert!(store.all_projectiles().is_empty());
    let c = store.cannon().unwrap();
    assert_eq!(c.score, 20);
    assert_eq!(c.lives, 3);
    assert_eq!(huds, vec![Signal::ScoreChanged(20)]);
}

#[test]
fn second_ball_cannot_hit_consumed_alien() {
    let cannon = Cannon { x: 0, y: -400, lives: 3, score: 0 };
    let aliens = vec![alien(0, AlienKind::Ufo, 0, 0)];
    let ps = vec![
        ball(50, ProjectileKind::CannonBall, 0, 0),
        ball(51, ProjectileKind::CannonBall, 0, 0),
    ];
    let mut store = store_with(cannon, aliens, ps);
    let mut huds: Vec<Signal> = Vec::new();
    check_collisions(&mut store, &mut huds);
    // The alien was scored once; the second ball found nothing and survived.
    assert_eq!(store.cannon().unwrap().score, 50);
    assert_eq!(huds, vec![Signal::ScoreChanged(50)]);
    assert!(store.all_aliens().is_empty());
    assert_eq!(store.all_projectiles().len(), 1);
    assert_eq!(store.all_projectiles()[0].id, 51);
}

#[test]
fn missing_ball_survives() {
    let cannon = Cannon { x: 0, y: -400, lives: 3, score: 7 };
    let aliens = vec![alien(0, AlienKind::Squid, 500, 500)];
    let ps = vec![ball(50, ProjectileKind::CannonBall, 0, 0)];
    let mut store = store_with(cannon, aliens, ps);
    let mut huds: Vec<Signal> = Vec::new();
    let restarts = check_collisions(&mut store, &mut huds);
    assert_eq!(restarts, 0);
    assert_eq!(store.all_aliens().len(), 1);
    assert_eq!(store.all_projectiles().len(), 1);
    assert_eq!(store.cannon().unwrap().score, 7);
    assert!(huds.is_empty());
}

#[test]
fn alien_ball_costs_a_life_once() {
    let cannon = Cannon { x: 0, y: -400, lives: 2, score: 0 };
    let ps = vec![ball(50, ProjectileKind::AlienBall, 0, -400)];
    let mut store = store_with(cannon, vec![], ps);
    let mut huds: Vec<Signal> = Vec::new();
    let restarts = check_collisions(&mut store, &mut huds);
    assert_eq!(restarts, 0);
    assert_eq!(store.cannon().unwrap().lives, 1);
    assert!(store.all_projectiles().is_empty());
    assert_eq!(huds, vec![Signal::LivesChanged(1)]);
}

#[test]
fn hit_with_no_lives_requests_restart_not_a_decrement() {
    let cannon = Cannon { x: 0, y: -400, lives: 0, score: 30 };
    let ps = vec![ball(50, ProjectileKind::AlienBall, 0, -400)];
    let mut store = store_with(cannon, vec![], ps);
    let mut huds: Vec<Signal> = Vec::new();
    let restarts = check_collisions(&mut store, &mut huds);
    assert_eq!(restarts, 1);
    assert_eq!(store.cannon().unwrap().lives, 0);
    assert!(huds.is_empty());
    assert!(store.all_projectiles().is_empty());
}

#[test]
fn each_alien_ball_damages_at_most_once() {
    // Two alien balls both overlap the cannon: each costs one life, each
    // with its own signal, in resolution order.
    let cannon = Cannon { x: 0, y: -400, lives: 3, score: 0 };
    let ps = vec![
        ball(50, ProjectileKind::AlienBall, 0, -400),
        ball(51, ProjectileKind::AlienBall, 5, -400),
    ];
    let mut store = store_with(cannon, vec![], ps);
    let mut huds: Vec<Signal> = Vec::new();
    let restarts = check_collisions(&mut store, &mut huds);
    assert_eq!(restarts, 0);
    assert_eq!(store.cannon().unwrap().lives, 1);
    assert_eq!(huds, vec![Signal::LivesChanged(2), Signal::LivesChanged(1)]);
    assert!(store.all_projectiles().is_empty());
}

#[test]
fn mixed_hits_emit_signals_in_resolution_order() {
    let cannon = Cannon { x: 0, y: -400, lives: 3, score: 0 };
    let aliens = vec![alien(0, AlienKind::Octopus, 100, 100)];
    let ps = vec![
        ball(50, ProjectileKind::AlienBall, 0, -400),
        ball(51, ProjectileKind::CannonBall, 100, 100),
    ];
    let mut store = store_with(cannon, aliens, ps);
    let mut huds: Vec<Signal> = Vec::new();
    check_collisions(&mut store, &mut huds);
    assert_eq!(huds, vec![Signal::LivesChanged(2), Signal::ScoreChanged(30)]);
    let c = store.cannon().unwrap();
    assert_eq!((c.lives, c.score), (2, 30));
}

#[test]
fn touching_alien_ball_passes_the_cannon() {
    // Cannon at y=-400 spans [-415, -385]; the ball at y=-380 spans
    // [-385, -375]: shared edge, no hit.
    let cannon = Cannon { x: 0, y: -400, lives: 3, score: 0 };
    let ps = vec![ball(50, ProjectileKind::AlienBall, 0, -380)];
    let mut store = store_with(cannon, vec![], ps);
    let mut huds: Vec<Signal> = Vec::new();
    let restarts = check_collisions(&mut store, &mut huds);
    assert_eq!(restarts, 0);
    assert_eq!(store.cannon().unwrap().lives, 3);
    assert_eq!(store.all_projectiles().len(), 1);
    assert!(huds.is_empty());
}
