//! The entity data model: kinds, live entity records, signals and errors.

use vstd::prelude::*;
use crate::BASE_ALIEN_SCORE;

verus! {

/// The closed set of alien kinds; a kind fixes the alien's bounding box and
/// its point value.
#[derive(Clone, Copy, PartialEq, Eq, Structural, Debug)]
pub enum AlienKind {
    Squid,
    Crab,
    Octopus,
    Ufo,
}

/// The closed set of projectile kinds; a kind fixes the projectile's bounding
/// box and the sign of its vertical velocity.
#[derive(Clone, Copy, PartialEq, Eq, Structural, Debug)]
pub enum ProjectileKind {
    CannonBall,
    AlienBall,
}

/// Shared horizontal direction of the whole alien formation.
#[derive(Clone, Copy, PartialEq, Eq, Structural, Debug)]
pub enum Direction {
    Left,
    Right,
}

/// Mission lifecycle phase; `Playing` is initial, and the wave-clear and
/// restart transitions both return to it.
#[derive(Clone, Copy, PartialEq, Eq, Structural, Debug)]
pub enum MissionPhase {
    Playing,
    GameOver,
    Victory,
}

/// Outcome the collision resolver or the wave-clear check asks of the mission
/// state machine.
#[derive(Clone, Copy, PartialEq, Eq, Structural, Debug)]
pub enum MissionResult {
    Restart,
    Advance,
}

/// A signal for the HUD consumer, emitted once per relevant mutation.
#[derive(Clone, Copy, PartialEq, Eq, Structural, Debug)]
pub enum Signal {
    LivesChanged(u32),
    ScoreChanged(u64),
}

/// Errors of the one-time wave-layout load; per-tick operations are total and
/// never fail.
#[derive(Clone, Copy, PartialEq, Eq, Structural, Debug)]
pub enum LayoutError {
    /// Malformed level data: an unrecognized symbol, or a grid too large to
    /// place on screen coordinates.
    LoadError,
    /// The difficulty level exceeds the available wave definitions.
    IndexOutOfRange,
}

/// A live formation member.
#[derive(Clone, Copy, PartialEq, Eq, Structural, Debug)]
pub struct Alien {
    pub id: u64,
    pub kind: AlienKind,
    pub x: i32,
    pub y: i32,
}

/// A live projectile.
#[derive(Clone, Copy, PartialEq, Eq, Structural, Debug)]
pub struct Projectile {
    pub id: u64,
    pub kind: ProjectileKind,
    pub x: i32,
    pub y: i32,
}

/// The singleton player entity.
#[derive(Clone, Copy, PartialEq, Eq, Structural, Debug)]
pub struct Cannon {
    pub x: i32,
    pub y: i32,
    pub lives: u32,
    pub score: u64,
}

/// Point value of an alien kind: a fixed multiplier times the base score.
pub open spec fn alien_value_spec(kind: AlienKind) -> nat {
    match kind {
        AlienKind::Squid => 1 * BASE_ALIEN_SCORE as nat,
        AlienKind::Crab => 2 * BASE_ALIEN_SCORE as nat,
        AlienKind::Octopus => 3 * BASE_ALIEN_SCORE as nat,
        AlienKind::Ufo => 5 * BASE_ALIEN_SCORE as nat,
    }
}

/// Point value of an alien kind.
pub fn alien_value(kind: AlienKind) -> (v: u64)
    ensures
        v == alien_value_spec(kind),
        0 < v <= 50,
{
    match kind {
        AlienKind::Squid => 1 * BASE_ALIEN_SCORE,
        AlienKind::Crab => 2 * BASE_ALIEN_SCORE,
        AlienKind::Octopus => 3 * BASE_ALIEN_SCORE,
        AlienKind::Ufo => 5 * BASE_ALIEN_SCORE,
    }
}

/// The alien kind a wave-layout symbol denotes, `None` for the empty cell,
/// and `LoadError` for an unrecognized symbol.
pub open spec fn kind_of_symbol(sym: char) -> Result<Option<AlienKind>, LayoutError> {
    if sym == 'S' {
        Ok(Some(AlienKind::Squid))
    } else if sym == 'C' {
        Ok(Some(AlienKind::Crab))
    } else if sym == 'O' {
        Ok(Some(AlienKind::Octopus))
    } else if sym == 'U' {
        Ok(Some(AlienKind::Ufo))
    } else if sym == '.' {
        Ok(None)
    } else {
        Err(LayoutError::LoadError)
    }
}

/// Decodes one wave-layout symbol.
pub fn alien_from_symbol(sym: char) -> (r: Result<Option<AlienKind>, LayoutError>)
    ensures
        r == kind_of_symbol(sym),
{
    match sym {
        'S' => Ok(Some(AlienKind::Squid)),
        'C' => Ok(Some(AlienKind::Crab)),
        'O' => Ok(Some(AlienKind::Octopus)),
        'U' => Ok(Some(AlienKind::Ufo)),
        '.' => Ok(None),
        _ => Err(LayoutError::LoadError),
    }
}

} // verus!
