//! Tests of the data model, the geometry and the entity store.

use invaders_core::entities::{
    alien_from_symbol, alien_value, Alien, AlienKind, Cannon, LayoutError, Projectile,
    ProjectileKind,
};
use invaders_core::geometry::{
    aabb_collision, boxes_overlap_at, get_alien_bounding_box, get_cannon_bounding_box,
    get_projectile_bounding_box,
};
use invaders_core::store::Store;

#[test]
fn alien_boxes_by_kind() {
    for kind in [AlienKind::Squid, AlienKind::Crab, AlienKind::Octopus] {
        let bb = get_alien_bounding_box(kind);
        assert_eq!((bb.width, bb.height), (40, 32));
    }
    let ufo = get_alien_bounding_box(AlienKind::Ufo);
    assert_eq!((ufo.width, ufo.height), (40, 20));
}

#[test]
fn projectile_and_cannon_boxes() {
    for kind in [ProjectileKind::CannonBall, ProjectileKind::AlienBall] {
        let bb = get_projectile_bounding_box(kind);
        assert_eq!((bb.width, bb.height), (4, 10));
    }
    let cb = get_cannon_bounding_box();
    assert_eq!((cb.width, cb.height), (60, 30));
}

#[test]
fn alien_values_are_kind_weighted() {
    assert_eq!(alien_value(AlienKind::Squid), 10);
    assert_eq!(alien_value(AlienKind::Crab), 20);
    assert_eq!(alien_value(AlienKind::Octopus), 30);
    assert_eq!(alien_value(AlienKind::Ufo), 50);
}

#[test]
fn symbols_decode_to_kinds() {
    assert_eq!(alien_from_symbol('S'), Ok(Some(AlienKind::Squid)));
    assert_eq!(alien_from_symbol('C'), Ok(Some(AlienKind::Crab)));
    assert_eq!(alien_from_symbol('O'), Ok(Some(AlienKind::Octopus)));
    assert_eq!(alien_from_symbol('U'), Ok(Some(AlienKind::Ufo)));
    assert_eq!(alien_from_symbol('.'), Ok(None));
    assert_eq!(alien_from_symbol('X'), Err(LayoutError::LoadError));
    assert_eq!(alien_from_symbol('s'), Err(LayoutError::LoadError));
}

#[test]
fn touching_edges_do_not_collide() {
    // The ball's span ends exactly where the alien's begins on x: no overlap.
    assert!(!aabb_collision(0, 4, 0, 10, 4, 44, 0, 32));
    // One unit of intrusion on x makes it an overlap.
    assert!(aabb_collision(0, 4, 0, 10, 3, 43, 0, 32));
    // Same on y.
    assert!(!aabb_collision(0, 4, 0, 10, 0, 4, 10, 42));
    assert!(aabb_collision(0, 4, 0, 10, 0, 4, 9, 41));
}

#[test]
fn centered_boxes_touching_do_not_collide() {
    let ball = get_projectile_bounding_box(ProjectileKind::CannonBall);
    let alien = get_alien_bounding_box(AlienKind::Squid);
    // Ball at x=0 spans [-2, 2]; alien at x=22 spans [2, 42]: touching.
    assert!(!boxes_overlap_at(0, 0, ball, 22, 0, alien));
    assert!(boxes_overlap_at(0, 0, ball, 21, 0, alien));
}

#[test]
fn spawn_assigns_fresh_ids() {
    let mut store = Store::new();
    let a = store.spawn_alien(AlienKind::Squid, 1, 2);
    let b = store.spawn_alien(AlienKind::Crab, 3, 4);
    let p = store.spawn_projectile(ProjectileKind::CannonBall, 5, 6);
    assert_eq!((a, b, p), (0, 1, 2));
    assert_eq!(store.all_aliens().len(), 2);
    assert_eq!(store.all_projectiles().len(), 1);
    assert_eq!(store.all_aliens()[0], Alien { id: 0, kind: AlienKind::Squid, x: 1, y: 2 });
    assert_eq!(
        store.all_projectiles()[0],
        Projectile { id: 2, kind: ProjectileKind::CannonBall, x: 5, y: 6 }
    );
}

#[test]
fn despawn_is_idempotent() {
    let mut store = Store::new();
    let a = store.spawn_alien(AlienKind::Squid, 0, 0);
    let b = store.spawn_alien(AlienKind::Crab, 10, 0);
    store.despawn(a);
    assert_eq!(store.all_aliens().len(), 1);
    assert_eq!(store.all_aliens()[0].id, b);
    // Removing an id that is already gone changes nothing.
    store.despawn(a);
    assert_eq!(store.all_aliens().len(), 1);
    // Removing an id that never existed changes nothing either.
    store.despawn(999);
    assert_eq!(store.all_aliens().len(), 1);
}

#[test]
fn despawn_covers_projectiles() {
    let mut store = Store::new();
    let p = store.spawn_projectile(ProjectileKind::AlienBall, 0, 0);
    let q = store.spawn_projectile(ProjectileKind::CannonBall, 1, 1);
    store.despawn(p);
    assert_eq!(store.all_projectiles().len(), 1);
    assert_eq!(store.all_projectiles()[0].id, q);
}

#[test]
fn despawn_all_clears_everything() {
    let mut store = Store::new();
    store.place_cannon(Cannon { x: 0, y: -100, lives: 3, score: 0 });
    store.spawn_alien(AlienKind::Ufo, 0, 0);
    store.spawn_projectile(ProjectileKind::AlienBall, 0, 0);
    store.despawn_all();
    assert!(store.cannon().is_none());
    assert!(store.all_aliens().is_empty());
    assert!(store.all_projectiles().is_empty());
}
