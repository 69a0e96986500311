//! The simulation context and its per-tick step: input, formation movement,
//! projectile spawning and advance, collision resolution and the mission
//! state machine, in that fixed order.

use vstd::prelude::*;
use rand::Rng;
use crate::collision::{
    check_collisions, init_resolve_state, lemma_resolve_score_conservation,
    lemma_resolve_score_monotone, lemma_value_sum_same_kinds, resolve_seq, value_sum,
};
use crate::entities::{
    Cannon, Direction, LayoutError, MissionResult, Projectile, ProjectileKind, Signal,
};
use crate::formation::{aliens_bounded, formation_step, refresh_aliens};
use crate::layout::{
    aliens_match_placements, cannon_start_y, grids_of, grid_of, grid_ok, levels_ok,
    lemma_value_sum_bound, lemma_wave_placements_bound, seed_wave, wave_placements, MAX_LEVELS,
};
use crate::mission::{apply_mission_result, check_wave_clear, wave_clear_step, Mission};
use crate::projectiles::{
    advance_projectiles, cannon_pos_bounded, projectiles_bounded, refresh_projectiles,
    spawn_alien_ball, spawn_cannon_ball,
};
use crate::store::{next_id_after, Store};
use crate::{
    ALIEN_FIRE_OFFSET, CANNON_FIRE_OFFSET, CANNON_STEP, DEFAULT_LIVES, FIRE_INTERVAL_MS,
    MAX_SCREEN_DIM,
};

verus! {

/// The discrete intent of one tick: level-triggered horizontal movement and
/// an edge-triggered fire press.
#[derive(Clone, Copy, PartialEq, Eq, Structural, Debug)]
pub struct Input {
    pub move_left: bool,
    pub move_right: bool,
    pub fire: bool,
}

/// The whole simulation state: screen bounds, the entity store, the shared
/// formation direction, the mission machine, the wave layouts and the
/// alien-fire timer accumulator.
pub struct Sim {
    pub screen_w: i32,
    pub screen_h: i32,
    pub store: Store,
    pub direction: Direction,
    pub mission: Mission,
    pub levels: Vec<Vec<Vec<char>>>,
    pub fire_acc_ms: u64,
}

/// The cannon's horizontal position after one tick of input: each pressed
/// direction moves one step, only when the result stays strictly inside the
/// horizontal screen bounds.
pub open spec fn cannon_x_after(x: int, input: Input, w: int) -> int {
    let x1 = if input.move_left && -(w / 2) < x - (CANNON_STEP as int) {
        x - (CANNON_STEP as int)
    } else {
        x
    };
    if input.move_right && x1 + (CANNON_STEP as int) < w / 2 {
        x1 + (CANNON_STEP as int)
    } else {
        x1
    }
}

/// The input clamp holds the cannon on screen: started anywhere within the
/// horizontal bounds, it stays within them, whatever was pressed.
pub proof fn lemma_cannon_stays_on_screen(x: int, input: Input, w: int)
    requires
        0 < w,
        -(w / 2) <= x <= w / 2,
    ensures
        -(w / 2) <= cannon_x_after(x, input, w) <= w / 2,
{
}

/// Relies on rand::Rng::random_range over `0..n`: the sample is uniform
/// within the range, and the range is nonempty.
#[verifier::external_body]
fn random_below(n: usize) -> (r: usize)
    requires
        n > 0,
    ensures
        r < n,
{
    rand::rng().random_range(0..n)
}

impl Sim {
    /// The simulation's invariant: sane screen bounds, well-formed layouts,
    /// a difficulty with a defined wave, a live bounded cannon, bounded
    /// entities, a timer accumulator inside its interval, and enough score
    /// headroom that scoring every remaining alien cannot overflow.
    pub open spec fn wf(self) -> bool {
        &&& 0 < self.screen_w <= MAX_SCREEN_DIM
        &&& 0 < self.screen_h <= MAX_SCREEN_DIM
        &&& levels_ok(grids_of(self.levels@))
        &&& 1 <= self.mission.difficulty <= self.levels@.len()
        &&& self.store.cannon is Some
        &&& cannon_pos_bounded(self.store.cannon.unwrap())
        &&& aliens_bounded(self.store.aliens@)
        &&& projectiles_bounded(self.store.projectiles@)
        &&& self.fire_acc_ms < FIRE_INTERVAL_MS
        &&& self.store.cannon.unwrap().score + value_sum(self.store.aliens@)
            <= self.mission.difficulty as int * 500_000
    }

    /// Builds the simulation from the wave layouts and the screen bounds
    /// supplied by the windowing collaborator: validates the layouts, then
    /// seeds wave one with the default lives and a zero score.
    pub fn new(levels: Vec<Vec<Vec<char>>>, screen_w: i32, screen_h: i32) -> (r: Result<
        Sim,
        LayoutError,
    >)
        requires
            0 < screen_w <= MAX_SCREEN_DIM,
            0 < screen_h <= MAX_SCREEN_DIM,
        ensures
            r is Ok <==> levels_ok(grids_of(levels@)),
            r == Err::<Sim, LayoutError>(LayoutError::IndexOutOfRange) <==> levels@.len() == 0,
            r is Ok ==> {
                let sim = r.unwrap();
                &&& sim.wf()
                &&& sim.levels@ == levels@
                &&& sim.screen_w == screen_w
                &&& sim.screen_h == screen_h
                &&& sim.direction == Direction::Right
                &&& sim.fire_acc_ms == 0
                &&& sim.mission.difficulty == 1
                &&& sim.mission.phase == crate::entities::MissionPhase::Playing
                &&& sim.mission.wave_armed == (sim.store.aliens@.len() > 0)
                &&& sim.store.cannon == Some(
                    Cannon {
                        x: 0,
                        y: (cannon_start_y(screen_h as int) as i32),
                        lives: DEFAULT_LIVES,
                        score: 0,
                    },
                )
                &&& aliens_match_placements(
                    sim.store.aliens@,
                    wave_placements(grids_of(levels@)[0], screen_w as int, screen_h as int),
                )
                &&& sim.store.projectiles@ =~= Seq::<Projectile>::empty()
            },
    {
        match crate::layout::validate_levels(&levels) {
            Err(e) => {
                return Err(e);
            },
            Ok(()) => {},
        }
        let mut store = Store::new();
        proof {
            assert(grids_of(levels@)[0] == grid_of(levels@[0]@));
            assert(grid_ok(grids_of(levels@)[0]));
        }
        seed_wave(&mut store, &levels[0], screen_w, screen_h, DEFAULT_LIVES, 0);
        let mut mission = Mission::new();
        mission.wave_armed = store.all_aliens().len() > 0;
        let sim = Sim {
            screen_w,
            screen_h,
            store,
            direction: Direction::Right,
            mission,
            levels,
            fire_acc_ms: 0,
        };
        proof {
            let g = grids_of(sim.levels@)[0];
            lemma_wave_placements_bound(g, screen_w as int, screen_h as int);
            lemma_value_sum_bound(sim.store.aliens@);
        }
        Ok(sim)
    }

    /// Applies one tick of input intent: moves the cannon, clamped so it
    /// never leaves the horizontal screen bounds, and an edge-triggered fire
    /// press spawns one cannon ball just above the moved cannon.
    pub fn handle_input(&mut self, input: Input)
        requires
            old(self).wf(),
        ensures
            ({
                let c0 = old(self).store.cannon.unwrap();
                let cx = cannon_x_after(c0.x as int, input, old(self).screen_w as int);
                &&& final(self).store.cannon == Some(Cannon { x: (cx as i32), ..c0 })
                &&& cannon_pos_bounded(final(self).store.cannon.unwrap())
                &&& final(self).store.aliens == old(self).store.aliens
                &&& (if input.fire {
                    final(self).store.projectiles@ == old(self).store.projectiles@.push(
                        Projectile {
                            id: old(self).store.next_id,
                            kind: ProjectileKind::CannonBall,
                            x: (cx as i32),
                            y: ((c0.y + CANNON_FIRE_OFFSET as int) as i32),
                        },
                    ) && final(self).store.next_id == next_id_after(old(self).store.next_id)
                } else {
                    &&& final(self).store.projectiles == old(self).store.projectiles
                    &&& final(self).store.next_id == old(self).store.next_id
                })
            }),
            final(self).screen_w == old(self).screen_w,
            final(self).screen_h == old(self).screen_h,
            final(self).direction == old(self).direction,
            final(self).mission == old(self).mission,
            final(self).levels == old(self).levels,
            final(self).fire_acc_ms == old(self).fire_acc_ms,
            final(self).wf(),
    {
        let c = match self.store.cannon {
            Some(c) => c,
            None => unreached(),
        };
        let half_w = self.screen_w / 2;
        let mut x = c.x;
        if input.move_left && -half_w < x - CANNON_STEP {
            x = x - CANNON_STEP;
        }
        if input.move_right && x + CANNON_STEP < half_w {
            x = x + CANNON_STEP;
        }
        let moved = Cannon { x, ..c };
        self.store.place_cannon(moved);
        if input.fire {
            spawn_cannon_ball(&mut self.store, moved);
        }
    }

    /// Advances the alien-fire timer by the elapsed real time; on expiry,
    /// one alien ball spawns just under a living alien chosen at random, or
    /// nothing spawns when no aliens remain. Returns which alien was chosen,
    /// as ghost information for the tick relation.
    pub fn update_alien_fire(&mut self, elapsed_ms: u64) -> (shot: Ghost<Option<int>>)
        requires
            old(self).wf(),
            elapsed_ms <= u64::MAX - FIRE_INTERVAL_MS,
        ensures
            final(self).fire_acc_ms as int == (old(self).fire_acc_ms + elapsed_ms) as int % (
            FIRE_INTERVAL_MS as int),
            ({
                let fires = old(self).fire_acc_ms + elapsed_ms >= FIRE_INTERVAL_MS;
                let aliens = old(self).store.aliens@;
                match shot@ {
                    Some(k) => {
                        &&& fires
                        &&& aliens.len() > 0
                        &&& 0 <= k < aliens.len()
                        &&& final(self).store.projectiles@ == old(self).store.projectiles@.push(
                            Projectile {
                                id: old(self).store.next_id,
                                kind: ProjectileKind::AlienBall,
                                x: aliens[k].x,
                                y: ((aliens[k].y - ALIEN_FIRE_OFFSET as int) as i32),
                            },
                        )
                        &&& final(self).store.next_id == next_id_after(old(self).store.next_id)
                    },
                    None => {
                        &&& !(fires && aliens.len() > 0)
                        &&& final(self).store.projectiles == old(self).store.projectiles
                        &&& final(self).store.next_id == old(self).store.next_id
                    },
                }
            }),
            final(self).store.aliens == old(self).store.aliens,
            final(self).store.cannon == old(self).store.cannon,
            final(self).screen_w == old(self).screen_w,
            final(self).screen_h == old(self).screen_h,
            final(self).direction == old(self).direction,
            final(self).mission == old(self).mission,
            final(self).levels == old(self).levels,
            final(self).wf(),
    {
        let acc = self.fire_acc_ms + elapsed_ms;
        if acc >= FIRE_INTERVAL_MS {
            self.fire_acc_ms = acc % FIRE_INTERVAL_MS;
            let n = self.store.aliens.len();
            if n > 0 {
                let k = random_below(n);
                spawn_alien_ball(&mut self.store, k);
                Ghost(Some(k as int))
            } else {
                Ghost(None)
            }
        } else {
            self.fire_acc_ms = acc;
            Ghost(None)
        }
    }
}
/// The projectiles in flight after this tick's spawns, before they advance:
/// the old ones, then the cannon ball of a fire press, then the alien ball
/// of the chosen alien.
pub open spec fn tick_spawned_projectiles(s0: Sim, input: Input, shot: Option<int>) -> Seq<
    Projectile,
> {
    let w = s0.screen_w as int;
    let c0 = s0.store.cannon.unwrap();
    let cx = cannon_x_after(c0.x as int, input, w);
    let id0 = s0.store.next_id;
    let ps1 = if input.fire {
        s0.store.projectiles@.push(
            Projectile {
                id: id0,
                kind: ProjectileKind::CannonBall,
                x: (cx as i32),
                y: ((c0.y + CANNON_FIRE_OFFSET as int) as i32),
            },
        )
    } else {
        s0.store.projectiles@
    };
    let nid1 = if input.fire {
        next_id_after(id0)
    } else {
        id0
    };
    let aliens1 = formation_step(s0.store.aliens@, s0.direction, w).0;
    match shot {
        Some(k) => ps1.push(
            Projectile {
                id: nid1,
                kind: ProjectileKind::AlienBall,
                x: aliens1[k].x,
                y: ((aliens1[k].y - ALIEN_FIRE_OFFSET as int) as i32),
            },
        ),
        None => ps1,
    }
}

/// The resolver state one tick hands to the mission machine: this tick's
/// spawned and advanced projectiles, resolved against the moved formation
/// and the moved cannon.
pub open spec fn tick_resolution(s0: Sim, input: Input, shot: Option<int>)
    -> crate::collision::ResolveState {
    let w = s0.screen_w as int;
    let h = s0.screen_h as int;
    let c0 = s0.store.cannon.unwrap();
    let cx = cannon_x_after(c0.x as int, input, w);
    let aliens1 = formation_step(s0.store.aliens@, s0.direction, w).0;
    let ps3 = advance_projectiles(tick_spawned_projectiles(s0, input, shot), h);
    resolve_seq(init_resolve_state(aliens1, c0.lives as nat, c0.score as nat), ps3, cx, c0.y as int)
}

/// What one tick does, given which alien the random draw chose (`shot`): the
/// cannon moves and may fire, the formation advances or flips, the timer may
/// spawn one alien ball, every projectile advances and off-screen ones
/// despawn, the collision resolver consumes overlaps, and the mission
/// machine restarts on exhausted lives or advances on a cleared wave;
/// `added` is what this tick appended to the HUD signals.
pub open spec fn tick_rel(
    s0: Sim,
    input: Input,
    elapsed_ms: u64,
    shot: Option<int>,
    s1: Sim,
    added: Seq<Signal>,
    r: Result<(), LayoutError>,
) -> bool {
    let w = s0.screen_w as int;
    let h = s0.screen_h as int;
    let c0 = s0.store.cannon.unwrap();
    let cx = cannon_x_after(c0.x as int, input, w);
    let fm = formation_step(s0.store.aliens@, s0.direction, w);
    let aliens1 = fm.0;
    let fires = s0.fire_acc_ms + elapsed_ms >= FIRE_INTERVAL_MS;
    let rs = tick_resolution(s0, input, shot);
    let restarted = rs.restarts > 0;
    let advance = wave_clear_step(s0.mission.wave_armed, rs.aliens.len() == 0).0;
    &&& (if fires && aliens1.len() > 0 {
        shot is Some && 0 <= shot.unwrap() < aliens1.len()
    } else {
        shot is None
    })
    &&& s1.screen_w == s0.screen_w
    &&& s1.screen_h == s0.screen_h
    &&& s1.levels@ == s0.levels@
    &&& s1.direction == fm.1
    &&& s1.fire_acc_ms as int == (s0.fire_acc_ms + elapsed_ms) as int % (FIRE_INTERVAL_MS as int)
    &&& s1.mission.phase == s0.mission.phase
    &&& added == rs.huds
    &&& (if restarted {
        &&& r is Ok
        &&& s1.mission.difficulty == 1
        &&& s1.mission.wave_armed == s0.mission.wave_armed
        &&& s1.store.cannon == Some(
            Cannon { x: 0, y: (cannon_start_y(h) as i32), lives: DEFAULT_LIVES, score: 0 },
        )
        &&& aliens_match_placements(
            s1.store.aliens@,
            wave_placements(grids_of(s0.levels@)[0], w, h),
        )
        &&& s1.store.projectiles@ == Seq::<Projectile>::empty()
    } else if advance {
        &&& s1.mission.wave_armed == false
        &&& (if s0.mission.difficulty == s0.levels@.len() {
            &&& r == Err::<(), LayoutError>(LayoutError::IndexOutOfRange)
            &&& s1.mission.difficulty == s0.mission.difficulty
            &&& s1.store.aliens@ == rs.aliens
            &&& s1.store.projectiles@ == rs.kept
            &&& s1.store.cannon == Some(
                Cannon {
                    x: (cx as i32),
                    y: c0.y,
                    lives: (rs.lives as u32),
                    score: (rs.score as u64),
                },
            )
        } else {
            &&& r is Ok
            &&& s1.mission.difficulty == s0.mission.difficulty + 1
            &&& s1.store.cannon == Some(
                Cannon {
                    x: 0,
                    y: (cannon_start_y(h) as i32),
                    lives: (rs.lives as u32),
                    score: (rs.score as u64),
                },
            )
            &&& aliens_match_placements(
                s1.store.aliens@,
                wave_placements(grids_of(s0.levels@)[s0.mission.difficulty as int], w, h),
            )
            &&& s1.store.projectiles@ == Seq::<Projectile>::empty()
        })
    } else {
        &&& r is Ok
        &&& s1.mission.difficulty == s0.mission.difficulty
        &&& s1.mission.wave_armed == (rs.aliens.len() > 0)
        &&& s1.store.aliens@ == rs.aliens
        &&& s1.store.projectiles@ == rs.kept
        &&& s1.store.cannon == Some(
            Cannon { x: (cx as i32), y: c0.y, lives: (rs.lives as u32), score: (rs.score as u64) },
        )
    })
}

impl Sim {
    /// Runs one simulation tick in the fixed order: input, formation
    /// movement, alien fire, projectile advance, collision resolution,
    /// mission transitions. Appends this tick's HUD signals and fails only
    /// on a wave-clear past the last defined wave, which is fatal.
    pub fn tick(&mut self, input: Input, elapsed_ms: u64, signals: &mut Vec<Signal>) -> (r: Result<
        (),
        LayoutError,
    >)
        requires
            old(self).wf(),
            elapsed_ms <= u64::MAX - FIRE_INTERVAL_MS,
        ensures
            final(self).wf(),
            final(signals)@.len() >= old(signals)@.len(),
            final(signals)@.take(old(signals)@.len() as int) == old(signals)@,
            exists|shot: Option<int>|
                tick_rel(
                    *old(self),
                    input,
                    elapsed_ms,
                    shot,
                    *final(self),
                    final(signals)@.skip(old(signals)@.len() as int),
                    r,
                ),
    {
        let ghost s0 = *self;
        let ghost sig0 = signals@;
        let ghost w = s0.screen_w as int;
        let ghost h = s0.screen_h as int;
        let ghost c0 = s0.store.cannon.unwrap();

        self.handle_input(input);
        let ghost cx = cannon_x_after(c0.x as int, input, w);
        let ghost ps1 = self.store.projectiles@;

        refresh_aliens(&mut self.store.aliens, &mut self.direction, self.screen_w);
        let ghost aliens1 = self.store.aliens@;
        proof {
            lemma_value_sum_same_kinds(aliens1, s0.store.aliens@);
        }

        let shot = self.update_alien_fire(elapsed_ms);
        let ghost ps2 = self.store.projectiles@;

        refresh_projectiles(&mut self.store.projectiles, self.screen_h);
        let ghost ps3 = self.store.projectiles@;

        proof {
            assert(self.mission.difficulty as int * 500_000 <= MAX_LEVELS as int * 500_000)
                by (nonlinear_arith)
                requires
                    1 <= self.mission.difficulty as int <= MAX_LEVELS as int,
            ;
        }
        let restarts = check_collisions(&mut self.store, signals);
        let ghost rs = resolve_seq(
            init_resolve_state(aliens1, c0.lives as nat, c0.score as nat),
            ps3,
            cx,
            c0.y as int,
        );
        proof {
            lemma_resolve_score_conservation(
                init_resolve_state(aliens1, c0.lives as nat, c0.score as nat),
                ps3,
                cx,
                c0.y as int,
            );
        }

        let mut result: Result<(), LayoutError> = Ok(());
        if restarts > 0 {
            match apply_mission_result(
                &mut self.mission,
                &mut self.store,
                MissionResult::Restart,
                &self.levels,
                self.screen_w,
                self.screen_h,
            ) {
                Ok(()) => {},
                Err(_) => {
                    unreached()
                },
            }
            proof {
                let g = grids_of(self.levels@)[0];
                lemma_wave_placements_bound(g, w, h);
                lemma_value_sum_bound(self.store.aliens@);
            }
        } else {
            let empty = self.store.aliens.len() == 0;
            let advance = check_wave_clear(&mut self.mission, empty);
            if advance {
                result = apply_mission_result(
                    &mut self.mission,
                    &mut self.store,
                    MissionResult::Advance,
                    &self.levels,
                    self.screen_w,
                    self.screen_h,
                );
                proof {
                    if result is Ok {
                        let g = grids_of(self.levels@)[(self.mission.difficulty - 1) as int];
                        lemma_wave_placements_bound(g, w, h);
                        lemma_value_sum_bound(self.store.aliens@);
                        assert((self.mission.difficulty - 1) as int * 500_000 + 500_000
                            == self.mission.difficulty as int * 500_000);
                    }
                }
            }
        }
        proof {
            let added = signals@.skip(sig0.len() as int);
            assert(signals@ == sig0 + rs.huds);
            assert(added =~= rs.huds);
            assert(tick_rel(s0, input, elapsed_ms, shot@, *self, added, result));
        }
        result
    }
}

/// Formation movement reorders nothing and changes no kind.
pub proof fn lemma_formation_keeps_kinds(
    aliens: Seq<crate::entities::Alien>,
    dir: Direction,
    w: int,
)
    ensures
        formation_step(aliens, dir, w).0.len() == aliens.len(),
        forall|i: int|
            0 <= i < aliens.len() ==> (#[trigger] formation_step(aliens, dir, w).0[i]).kind
                == aliens[i].kind,
{
}

/// Score monotonicity over a whole tick: the score never goes down, except
/// that a lives-exhausted restart resets it to zero along with the default
/// lives and wave one.
pub proof fn lemma_tick_score_monotone(
    s0: Sim,
    input: Input,
    elapsed_ms: u64,
    shot: Option<int>,
    s1: Sim,
    added: Seq<Signal>,
    r: Result<(), LayoutError>,
)
    requires
        s0.wf(),
        tick_rel(s0, input, elapsed_ms, shot, s1, added, r),
    ensures
        s1.store.cannon.unwrap().score >= s0.store.cannon.unwrap().score || (
        s1.store.cannon.unwrap().score == 0 && s1.store.cannon.unwrap().lives == DEFAULT_LIVES
            && s1.mission.difficulty == 1),
{
    let w = s0.screen_w as int;
    let c0 = s0.store.cannon.unwrap();
    let cx = cannon_x_after(c0.x as int, input, w);
    let aliens1 = formation_step(s0.store.aliens@, s0.direction, w).0;
    let st0 = init_resolve_state(aliens1, c0.lives as nat, c0.score as nat);
    let ps3 = advance_projectiles(tick_spawned_projectiles(s0, input, shot), s0.screen_h as int);
    let rs = tick_resolution(s0, input, shot);
    lemma_formation_keeps_kinds(s0.store.aliens@, s0.direction, w);
    lemma_value_sum_same_kinds(aliens1, s0.store.aliens@);
    lemma_resolve_score_monotone(st0, ps3, cx, c0.y as int);
    lemma_resolve_score_conservation(st0, ps3, cx, c0.y as int);
    assert(s0.mission.difficulty as int * 500_000 <= MAX_LEVELS as int * 500_000)
        by (nonlinear_arith)
        requires
            1 <= s0.mission.difficulty as int <= MAX_LEVELS as int,
    ;
    assert(rs.score <= u64::MAX);
}

/// Lives floor over a whole tick: lives never go up, except that a
/// lives-exhausted restart resets them to the default along with a zero
/// score and wave one; counted in a natural range, they can never go below
/// zero either.
pub proof fn lemma_tick_lives_floor(
    s0: Sim,
    input: Input,
    elapsed_ms: u64,
    shot: Option<int>,
    s1: Sim,
    added: Seq<Signal>,
    r: Result<(), LayoutError>,
)
    requires
        s0.wf(),
        tick_rel(s0, input, elapsed_ms, shot, s1, added, r),
    ensures
        s1.store.cannon.unwrap().lives <= s0.store.cannon.unwrap().lives || (
        s1.store.cannon.unwrap().lives == DEFAULT_LIVES && s1.store.cannon.unwrap().score == 0
            && s1.mission.difficulty == 1),
{
    let w = s0.screen_w as int;
    let c0 = s0.store.cannon.unwrap();
    let aliens1 = formation_step(s0.store.aliens@, s0.direction, w).0;
    let st0 = init_resolve_state(aliens1, c0.lives as nat, c0.score as nat);
    let ps3 = advance_projectiles(tick_spawned_projectiles(s0, input, shot), s0.screen_h as int);
    crate::collision::lemma_resolve_lives(
        st0,
        ps3,
        cannon_x_after(c0.x as int, input, w),
        c0.y as int,
    );
}

} // verus!
