//! Formation movement: the alien swarm advances horizontally as one rigid
//! body, and flips its shared direction when any member reaches a screen
//! edge, moving nobody that tick.

use vstd::prelude::*;
use crate::entities::{Alien, Direction};
use crate::{ALIEN_STEP, EDGE_MARGIN, MAX_SCREEN_DIM, POS_LIMIT};

verus! {

/// An alien's coordinates stay within the core's coordinate range.
pub open spec fn alien_pos_bounded(a: Alien) -> bool {
    &&& -POS_LIMIT <= a.x <= POS_LIMIT
    &&& -POS_LIMIT <= a.y <= POS_LIMIT
}

/// Every alien's coordinates stay within the core's coordinate range.
pub open spec fn aliens_bounded(s: Seq<Alien>) -> bool {
    forall|i: int| 0 <= i < s.len() ==> alien_pos_bounded(#[trigger] s[i])
}

/// The opposite horizontal direction.
pub open spec fn flip(dir: Direction) -> Direction {
    match dir {
        Direction::Left => Direction::Right,
        Direction::Right => Direction::Left,
    }
}

/// Signed horizontal step of one formation move.
pub open spec fn step_of(dir: Direction) -> int {
    match dir {
        Direction::Left => -ALIEN_STEP as int,
        Direction::Right => ALIEN_STEP as int,
    }
}

/// The alien touches the screen edge it is moving towards: its position plus
/// the half-width margin reaches the bound.
pub open spec fn at_edge(a: Alien, dir: Direction, screen_w: int) -> bool {
    match dir {
        Direction::Right => a.x + EDGE_MARGIN as int >= screen_w / 2,
        Direction::Left => a.x - EDGE_MARGIN as int <= -(screen_w / 2),
    }
}

/// Some formation member touches the edge the formation is moving towards.
pub open spec fn formation_blocked(aliens: Seq<Alien>, dir: Direction, screen_w: int) -> bool {
    exists|i: int| 0 <= i < aliens.len() && at_edge(#[trigger] aliens[i], dir, screen_w)
}

/// One alien translated by one formation step; only `x` changes.
pub open spec fn moved_alien(a: Alien, dir: Direction) -> Alien {
    Alien { x: (a.x + step_of(dir)) as i32, ..a }
}

/// One tick of formation movement: when blocked, the shared direction flips
/// and nobody moves; otherwise every alien translates by the same step.
pub open spec fn formation_step(aliens: Seq<Alien>, dir: Direction, screen_w: int) -> (
    Seq<Alien>,
    Direction,
) {
    if formation_blocked(aliens, dir, screen_w) {
        (aliens, flip(dir))
    } else {
        (aliens.map_values(|a: Alien| moved_alien(a, dir)), dir)
    }
}

/// Advances the alien formation one tick, per `formation_step`.
pub fn refresh_aliens(aliens: &mut Vec<Alien>, dir: &mut Direction, screen_w: i32)
    requires
        0 < screen_w <= MAX_SCREEN_DIM,
        aliens_bounded(old(aliens)@),
    ensures
        final(aliens)@ == formation_step(old(aliens)@, *old(dir), screen_w as int).0,
        *final(dir) == formation_step(old(aliens)@, *old(dir), screen_w as int).1,
        aliens_bounded(final(aliens)@),
{
    let ghost aliens0 = aliens@;
    let ghost dir0 = *dir;
    let w_half = screen_w / 2;
    let n = aliens.len();
    let mut blocked = false;
    let mut i: usize = 0;
    while i < n
        invariant
            aliens@ == aliens0,
            n == aliens0.len(),
            i <= n,
            aliens_bounded(aliens0),
            w_half == screen_w as int / 2,
            0 < screen_w <= MAX_SCREEN_DIM,
            blocked == exists|k: int|
                0 <= k < i && at_edge(#[trigger] aliens0[k], dir0, screen_w as int),
            *dir == dir0,
        decreases n - i,
    {
        let a = aliens[i];
        let touches = match *dir {
            Direction::Right => a.x + EDGE_MARGIN >= w_half,
            Direction::Left => a.x - EDGE_MARGIN <= -w_half,
        };
        if touches {
            blocked = true;
        }
        i += 1;
    }
    if blocked {
        *dir = match *dir {
            Direction::Right => Direction::Left,
            Direction::Left => Direction::Right,
        };
        return;
    }
    let mut j: usize = 0;
    while j < n
        invariant
            !formation_blocked(aliens0, dir0, screen_w as int),
            *dir == dir0,
            n == aliens0.len(),
            j <= n,
            aliens@.len() == n,
            aliens_bounded(aliens0),
            w_half == screen_w as int / 2,
            0 < screen_w <= MAX_SCREEN_DIM,
            forall|k: int| 0 <= k < j ==> aliens@[k] == moved_alien(aliens0[k], dir0),
            forall|k: int| j <= k < n ==> aliens@[k] == aliens0[k],
        decreases n - j,
    {
        let a = aliens[j];
        proof {
            assert(!at_edge(aliens0[j as int], dir0, screen_w as int));
        }
        let step = match *dir {
            Direction::Right => ALIEN_STEP,
            Direction::Left => -ALIEN_STEP,
        };
        aliens[j] = Alien { x: a.x + step, ..a };
        j += 1;
    }
    proof {
        assert(aliens@ =~= aliens0.map_values(|a: Alien| moved_alien(a, dir0)));
    }
}

/// Formation rigidity: on a tick where some alien touches the edge ahead, the
/// shared direction flips and no alien moves; on the immediately following
/// tick, provided the formation is not already touching the opposite edge,
/// every alien translates together by one step in the new direction.
pub proof fn lemma_formation_rigidity(aliens: Seq<Alien>, dir: Direction, screen_w: int)
    requires
        aliens_bounded(aliens),
        formation_blocked(aliens, dir, screen_w),
        !formation_blocked(aliens, flip(dir), screen_w),
    ensures
        formation_step(aliens, dir, screen_w) == (aliens, flip(dir)),
        formation_step(aliens, flip(dir), screen_w).1 == flip(dir),
        formation_step(aliens, flip(dir), screen_w).0 == aliens.map_values(
            |a: Alien| moved_alien(a, flip(dir)),
        ),
        forall|i: int|
            0 <= i < aliens.len() ==> formation_step(aliens, flip(dir), screen_w).0[i].x == aliens[i].x
                + step_of(flip(dir)),
{
    let d = flip(dir);
    let moved = aliens.map_values(|a: Alien| moved_alien(a, d));
    assert forall|i: int| 0 <= i < aliens.len() implies moved[i].x == aliens[i].x + step_of(d) by {
        assert(alien_pos_bounded(aliens[i]));
    }
}

} // verus!
