//! The mission state machine: difficulty, lifecycle phase and the wave-clear
//! arming flag; reacts to wave-cleared and lives-exhausted by reseeding the
//! entity store from the wave layout.

use vstd::prelude::*;
use crate::entities::{Alien, Cannon, LayoutError, MissionPhase, MissionResult};
use crate::layout::{
    aliens_match_placements, cannon_start_y, grid_kinds_from, grid_live_cells_from, grid_of,
    grids_of, grid_ok, levels_ok, lemma_wave_placements_count, lemma_wave_placements_kinds,
    seed_wave, wave_placements,
};
use crate::store::Store;
use crate::{DEFAULT_LIVES, MAX_SCREEN_DIM};

verus! {

/// Mission progression state: the 1-based wave index, the lifecycle phase,
/// and whether the wave-clear detector is armed.
pub struct Mission {
    /// Current wave index, 1-based; reset to 1 on a restart.
    pub difficulty: usize,
    /// Lifecycle phase; both mission transitions return to `Playing`.
    pub phase: MissionPhase,
    /// Armed while aliens exist; the advance signal fires only on the tick
    /// the alien set first becomes empty, then stays disarmed until aliens
    /// exist again.
    pub wave_armed: bool,
}

impl Mission {
    /// The initial mission state: wave one, playing, detector disarmed until
    /// aliens exist.
    pub fn new() -> (m: Mission)
        ensures
            m.difficulty == 1,
            m.phase == MissionPhase::Playing,
            m.wave_armed == false,
    {
        Mission { difficulty: 1, phase: MissionPhase::Playing, wave_armed: false }
    }
}

/// One step of the wave-clear detector: fires exactly when the alien set is
/// empty while armed; stays armed exactly while aliens exist.
pub open spec fn wave_clear_step(armed: bool, aliens_empty: bool) -> (bool, bool) {
    (aliens_empty && armed, !aliens_empty)
}

/// Runs the wave-clear detector for one tick and says whether the advance
/// signal fires.
pub fn check_wave_clear(mission: &mut Mission, aliens_empty: bool) -> (advance: bool)
    ensures
        advance == wave_clear_step(old(mission).wave_armed, aliens_empty).0,
        final(mission).wave_armed == wave_clear_step(old(mission).wave_armed, aliens_empty).1,
        final(mission).difficulty == old(mission).difficulty,
        final(mission).phase == old(mission).phase,
{
    let fire = aliens_empty && mission.wave_armed;
    mission.wave_armed = !aliens_empty;
    fire
}

/// How often the detector fires over a run of ticks, given the emptiness of
/// the alien set at each tick.
pub open spec fn wave_clear_fire_count(armed: bool, empties: Seq<bool>) -> nat
    decreases empties.len(),
{
    if empties.len() == 0 {
        0
    } else {
        let step = wave_clear_step(armed, empties[0]);
        (if step.0 {
            1nat
        } else {
            0nat
        }) + wave_clear_fire_count(step.1, empties.drop_first())
    }
}

/// The wave-clear signal fires exactly once per clearing: over any run of
/// ticks on which the alien set stays empty, an armed detector fires on the
/// first tick only, and a disarmed one never.
pub proof fn lemma_wave_clear_fires_once(armed: bool, empties: Seq<bool>)
    requires
        forall|i: int| 0 <= i < empties.len() ==> empties[i],
    ensures
        wave_clear_fire_count(armed, empties) == if armed && empties.len() > 0 {
            1nat
        } else {
            0nat
        },
    decreases empties.len(),
{
    if empties.len() > 0 {
        assert(empties[0]);
        assert(forall|i: int|
            0 <= i < empties.drop_first().len() ==> #[trigger] empties.drop_first()[i]);
        lemma_wave_clear_fires_once(false, empties.drop_first());
    }
}

/// Applies one mission result. A restart resets the difficulty to one and
/// the cannon to its defaults and reseeds from the first wave layout; an
/// advance moves to the next wave layout keeping lives and score, and is a
/// fatal level-index error when no further wave is defined, changing
/// nothing. Either transition clears every existing entity before
/// respawning.
pub fn apply_mission_result(
    mission: &mut Mission,
    store: &mut Store,
    result: MissionResult,
    levels: &Vec<Vec<Vec<char>>>,
    screen_w: i32,
    screen_h: i32,
) -> (r: Result<(), LayoutError>)
    requires
        levels_ok(grids_of(levels@)),
        0 < screen_w <= MAX_SCREEN_DIM,
        0 < screen_h <= MAX_SCREEN_DIM,
        old(store).cannon is Some,
        crate::formation::aliens_bounded(old(store).aliens@),
        1 <= old(mission).difficulty <= levels@.len(),
    ensures
        final(mission).phase == old(mission).phase,
        final(mission).wave_armed == old(mission).wave_armed,
        result == MissionResult::Restart ==> {
            &&& r is Ok
            &&& final(mission).difficulty == 1
            &&& final(store).cannon == Some(
                Cannon {
                    x: 0,
                    y: (cannon_start_y(screen_h as int) as i32),
                    lives: DEFAULT_LIVES,
                    score: 0,
                },
            )
            &&& aliens_match_placements(
                final(store).aliens@,
                wave_placements(grids_of(levels@)[0], screen_w as int, screen_h as int),
            )
            &&& final(store).projectiles@ =~= Seq::<crate::entities::Projectile>::empty()
        },
        result == MissionResult::Advance && old(mission).difficulty == levels@.len() ==> {
            &&& r == Err::<(), LayoutError>(LayoutError::IndexOutOfRange)
            &&& final(mission).difficulty == old(mission).difficulty
            &&& *final(store) == *old(store)
        },
        result == MissionResult::Advance && old(mission).difficulty < levels@.len() ==> {
            &&& r is Ok
            &&& final(mission).difficulty == old(mission).difficulty + 1
            &&& final(store).cannon == Some(
                Cannon {
                    x: 0,
                    y: (cannon_start_y(screen_h as int) as i32),
                    lives: old(store).cannon.unwrap().lives,
                    score: old(store).cannon.unwrap().score,
                },
            )
            &&& aliens_match_placements(
                final(store).aliens@,
                wave_placements(
                    grids_of(levels@)[old(mission).difficulty as int],
                    screen_w as int,
                    screen_h as int,
                ),
            )
            &&& final(store).projectiles@ =~= Seq::<crate::entities::Projectile>::empty()
        },
        1 <= final(mission).difficulty <= levels@.len(),
        crate::formation::aliens_bounded(final(store).aliens@),
        r is Err <==> (result == MissionResult::Advance && old(mission).difficulty
            == levels@.len()),
{
    let ghost ls = grids_of(levels@);
    match result {
        MissionResult::Restart => {
            mission.difficulty = 1;
            proof {
                assert(ls[0] == grid_of(levels@[0]@));
                assert(grid_ok(ls[0]));
            }
            seed_wave(store, &levels[0], screen_w, screen_h, DEFAULT_LIVES, 0);
            Ok(())
        },
        MissionResult::Advance => {
            if mission.difficulty == levels.len() {
                return Err(LayoutError::IndexOutOfRange);
            }
            let idx = mission.difficulty;
            mission.difficulty = mission.difficulty + 1;
            let c = match store.cannon {
                Some(c) => c,
                None => unreached(),
            };
            proof {
                assert(ls[idx as int] == grid_of(levels@[idx as int]@));
                assert(grid_ok(ls[idx as int]));
            }
            seed_wave(store, &levels[idx], screen_w, screen_h, c.lives, c.score);
            Ok(())
        },
    }
}

/// After a reseed, the entity store exactly matches the wave layout: one
/// alien per cell of the grid holding an alien symbol, with exactly the
/// kinds those symbols denote, row-major.
pub proof fn lemma_seeded_wave_matches_grid(aliens: Seq<Alien>, g: Seq<Seq<char>>, w: int, h: int)
    requires
        aliens_match_placements(aliens, wave_placements(g, w, h)),
    ensures
        aliens.len() == grid_live_cells_from(g, 0),
        aliens.map_values(|a: Alien| a.kind) == grid_kinds_from(g, 0),
{
    lemma_wave_placements_count(g, w, h);
    lemma_wave_placements_kinds(g, w, h);
    assert(aliens.map_values(|a: Alien| a.kind) =~= wave_placements(g, w, h).map_values(
        |p: crate::layout::Placement| p.kind,
    ));
}

} // verus!
