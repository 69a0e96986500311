//! The projectile system: spawning from fire events, vertical advance, and
//! removal of projectiles that leave the vertical screen bounds.

use vstd::prelude::*;
use crate::entities::{Cannon, Projectile, ProjectileKind};
use crate::formation::{alien_pos_bounded, aliens_bounded};
use crate::store::{next_id_after, Store};
use crate::{
    ALIEN_FIRE_OFFSET, CANNON_FIRE_OFFSET, MAX_SCREEN_DIM, POS_LIMIT, PROJECTILE_POS_LIMIT,
    PROJECTILE_SPEED,
};

verus! {

/// A projectile's coordinates stay within the projectile coordinate range,
/// which leaves room for the fixed spawn offsets from a bounded entity.
pub open spec fn projectile_pos_bounded(p: Projectile) -> bool {
    &&& -PROJECTILE_POS_LIMIT <= p.x <= PROJECTILE_POS_LIMIT
    &&& -PROJECTILE_POS_LIMIT <= p.y <= PROJECTILE_POS_LIMIT
}

/// Every projectile's coordinates stay within the core's coordinate range.
pub open spec fn projectiles_bounded(s: Seq<Projectile>) -> bool {
    forall|i: int| 0 <= i < s.len() ==> projectile_pos_bounded(#[trigger] s[i])
}

/// The cannon's coordinates stay within the core's coordinate range.
pub open spec fn cannon_pos_bounded(c: Cannon) -> bool {
    &&& -POS_LIMIT <= c.x <= POS_LIMIT
    &&& -POS_LIMIT <= c.y <= POS_LIMIT
}

/// Signed vertical speed of a projectile kind, per tick: cannon balls rise,
/// alien balls fall.
pub open spec fn speed_of(kind: ProjectileKind) -> int {
    match kind {
        ProjectileKind::CannonBall => PROJECTILE_SPEED as int,
        ProjectileKind::AlienBall => -PROJECTILE_SPEED as int,
    }
}

/// One projectile advanced by one tick; only `y` changes.
pub open spec fn moved_projectile(p: Projectile) -> Projectile {
    Projectile { y: (p.y + speed_of(p.kind)) as i32, ..p }
}

/// A vertical position within half the screen height of the center; a
/// projectile beyond it despawns.
pub open spec fn within_vertical_bounds(y: int, screen_h: int) -> bool {
    -(screen_h / 2) <= y <= screen_h / 2
}

/// One tick of the projectile system on the live projectiles: each advances
/// by its kind's speed, and those leaving the vertical screen bounds
/// disappear, the rest keeping their order.
pub open spec fn advance_projectiles(s: Seq<Projectile>, screen_h: int) -> Seq<Projectile>
    decreases s.len(),
{
    if s.len() == 0 {
        Seq::empty()
    } else {
        let m = moved_projectile(s[0]);
        let rest = advance_projectiles(s.drop_first(), screen_h);
        if within_vertical_bounds(m.y as int, screen_h) {
            seq![m] + rest
        } else {
            rest
        }
    }
}

/// Advances every live projectile one tick, per `advance_projectiles`.
pub fn refresh_projectiles(projectiles: &mut Vec<Projectile>, screen_h: i32)
    requires
        0 < screen_h <= MAX_SCREEN_DIM,
        projectiles_bounded(old(projectiles)@),
    ensures
        final(projectiles)@ == advance_projectiles(old(projectiles)@, screen_h as int),
        projectiles_bounded(final(projectiles)@),
{
    let ghost s0 = projectiles@;
    let mut out: Vec<Projectile> = Vec::new();
    let n = projectiles.len();
    let mut i: usize = 0;
    proof {
        assert(s0.skip(0) =~= s0);
        assert(out@ + advance_projectiles(s0, screen_h as int) =~= advance_projectiles(
            s0,
            screen_h as int,
        ));
    }
    while i < n
        invariant
            projectiles@ == s0,
            n == s0.len(),
            i <= n,
            projectiles_bounded(s0),
            projectiles_bounded(out@),
            0 < screen_h <= MAX_SCREEN_DIM,
            out@ + advance_projectiles(s0.skip(i as int), screen_h as int) == advance_projectiles(
                s0,
                screen_h as int,
            ),
        decreases n - i,
    {
        let p = projectiles[i];
        let ghost m = moved_projectile(s0[i as int]);
        proof {
            assert(s0.skip(i as int)[0] == s0[i as int]);
            assert(s0.skip(i as int).drop_first() =~= s0.skip(i as int + 1));
            assert(advance_projectiles(s0.skip(i as int), screen_h as int) == (
            if within_vertical_bounds(m.y as int, screen_h as int) {
                seq![m] + advance_projectiles(s0.skip(i as int + 1), screen_h as int)
            } else {
                advance_projectiles(s0.skip(i as int + 1), screen_h as int)
            }));
        }
        let moved_y = p.y + (match p.kind {
            ProjectileKind::CannonBall => PROJECTILE_SPEED,
            ProjectileKind::AlienBall => -PROJECTILE_SPEED,
        });
        let half_h = screen_h / 2;
        let ghost out_before = out@;
        if -half_h <= moved_y && moved_y <= half_h {
            out.push(Projectile { y: moved_y, ..p });
            proof {
                assert(out@ =~= out_before + seq![m]);
                assert(out@ + advance_projectiles(s0.skip(i as int + 1), screen_h as int)
                    =~= out_before + (seq![m] + advance_projectiles(
                    s0.skip(i as int + 1),
                    screen_h as int,
                )));
            }
        }
        i += 1;
    }
    proof {
        assert(s0.skip(n as int) =~= Seq::<Projectile>::empty());
        assert(out@ + advance_projectiles(s0.skip(n as int), screen_h as int) =~= out@);
    }
    *projectiles = out;
}

/// Spawns one cannon ball at the cannon's position, offset upward; the
/// edge-triggered fire intent calls this once per press.
pub fn spawn_cannon_ball(store: &mut Store, cannon: Cannon) -> (id: u64)
    requires
        cannon_pos_bounded(cannon),
    ensures
        id == old(store).next_id,
        final(store).next_id == next_id_after(old(store).next_id),
        final(store).projectiles@ == old(store).projectiles@.push(
            Projectile {
                id,
                kind: ProjectileKind::CannonBall,
                x: cannon.x,
                y: (cannon.y + CANNON_FIRE_OFFSET as int) as i32,
            },
        ),
        final(store).aliens == old(store).aliens,
        final(store).cannon == old(store).cannon,
        projectile_pos_bounded(final(store).projectiles@.last()),
{
    store.spawn_projectile(ProjectileKind::CannonBall, cannon.x, cannon.y + CANNON_FIRE_OFFSET)
}

/// Spawns one alien ball at the chosen living alien's position, offset
/// downward; the caller picks the alien among the living ones.
pub fn spawn_alien_ball(store: &mut Store, chosen: usize) -> (id: u64)
    requires
        chosen < old(store).aliens@.len(),
        aliens_bounded(old(store).aliens@),
    ensures
        id == old(store).next_id,
        final(store).next_id == next_id_after(old(store).next_id),
        final(store).projectiles@ == old(store).projectiles@.push(
            Projectile {
                id,
                kind: ProjectileKind::AlienBall,
                x: old(store).aliens@[chosen as int].x,
                y: (old(store).aliens@[chosen as int].y - ALIEN_FIRE_OFFSET as int) as i32,
            },
        ),
        final(store).aliens == old(store).aliens,
        final(store).cannon == old(store).cannon,
        projectile_pos_bounded(final(store).projectiles@.last()),
{
    let a = store.aliens[chosen];
    proof {
        assert(alien_pos_bounded(old(store).aliens@[chosen as int]));
    }
    store.spawn_projectile(ProjectileKind::AlienBall, a.x, a.y - ALIEN_FIRE_OFFSET)
}

} // verus!
