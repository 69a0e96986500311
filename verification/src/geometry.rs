//! Axis-aligned bounding boxes per entity kind and the strict overlap test.

use vstd::prelude::*;
use crate::entities::{AlienKind, ProjectileKind};

verus! {

/// Collision extent of an entity, width by height, centered on its position;
/// looked up by entity kind, not stored per instance.
#[derive(Clone, Copy, PartialEq, Eq, Structural, Debug)]
pub struct BoundingBox {
    pub width: u32,
    pub height: u32,
}

/// Bounding box of an alien kind.
pub open spec fn alien_box_spec(kind: AlienKind) -> BoundingBox {
    match kind {
        AlienKind::Squid => (BoundingBox { width: 40, height: 32 }),
        AlienKind::Crab => (BoundingBox { width: 40, height: 32 }),
        AlienKind::Octopus => (BoundingBox { width: 40, height: 32 }),
        AlienKind::Ufo => (BoundingBox { width: 40, height: 20 }),
    }
}

/// Bounding box of a projectile kind.
pub open spec fn projectile_box_spec(kind: ProjectileKind) -> BoundingBox {
    BoundingBox { width: 4, height: 10 }
}

/// Bounding box of the cannon.
pub open spec fn cannon_box_spec() -> BoundingBox {
    BoundingBox { width: 60, height: 30 }
}

/// Looks up the collision extent of an alien kind.
pub fn get_alien_bounding_box(kind: AlienKind) -> (bb: BoundingBox)
    ensures
        bb == alien_box_spec(kind),
{
    match kind {
        AlienKind::Squid => BoundingBox { width: 40, height: 32 },
        AlienKind::Crab => BoundingBox { width: 40, height: 32 },
        AlienKind::Octopus => BoundingBox { width: 40, height: 32 },
        AlienKind::Ufo => BoundingBox { width: 40, height: 20 },
    }
}

/// Looks up the collision extent of a projectile kind.
pub fn get_projectile_bounding_box(kind: ProjectileKind) -> (bb: BoundingBox)
    ensures
        bb == projectile_box_spec(kind),
{
    match kind {
        ProjectileKind::CannonBall | ProjectileKind::AlienBall => BoundingBox {
            width: 4,
            height: 10,
        },
    }
}

/// Looks up the collision extent of the cannon.
pub fn get_cannon_bounding_box() -> (bb: BoundingBox)
    ensures
        bb == cannon_box_spec(),
{
    BoundingBox { width: 60, height: 30 }
}

/// Two one-dimensional spans intersect, with strict inequality on the
/// endpoints: touching spans do not overlap.
pub open spec fn spans_overlap(min_a: int, max_a: int, min_b: int, max_b: int) -> bool {
    min_a < max_b && max_a > min_b
}

/// Two axis-aligned rectangles, centered at the given points and sized by the
/// given boxes, intersect on both axes.
pub open spec fn boxes_overlap(
    ax: int,
    ay: int,
    a: BoundingBox,
    bx: int,
    by: int,
    b: BoundingBox,
) -> bool {
    &&& spans_overlap(
        ax - a.width as int / 2,
        ax + a.width as int / 2,
        bx - b.width as int / 2,
        bx + b.width as int / 2,
    )
    &&& spans_overlap(
        ay - a.height as int / 2,
        ay + a.height as int / 2,
        by - b.height as int / 2,
        by + b.height as int / 2,
    )
}

/// Tests two axis-aligned rectangles, given by their span endpoints, for
/// strict overlap on both axes.
pub fn aabb_collision(
    a_min_x: i32,
    a_max_x: i32,
    a_min_y: i32,
    a_max_y: i32,
    b_min_x: i32,
    b_max_x: i32,
    b_min_y: i32,
    b_max_y: i32,
) -> (r: bool)
    ensures
        r == (spans_overlap(a_min_x as int, a_max_x as int, b_min_x as int, b_max_x as int)
            && spans_overlap(a_min_y as int, a_max_y as int, b_min_y as int, b_max_y as int)),
{
    a_min_x < b_max_x && a_max_x > b_min_x && a_min_y < b_max_y && a_max_y > b_min_y
}

/// Tests two axis-aligned rectangles, centered at the given points, for
/// strict overlap.
pub fn boxes_overlap_at(ax: i32, ay: i32, a: BoundingBox, bx: i32, by: i32, b: BoundingBox) -> (r:
    bool)
    requires
        -1_000_000_000 <= ax <= 1_000_000_000,
        -1_000_000_000 <= ay <= 1_000_000_000,
        -1_000_000_000 <= bx <= 1_000_000_000,
        -1_000_000_000 <= by <= 1_000_000_000,
        a.width <= 1_000_000,
        a.height <= 1_000_000,
        b.width <= 1_000_000,
        b.height <= 1_000_000,
    ensures
        r == boxes_overlap(ax as int, ay as int, a, bx as int, by as int, b),
{
    let a_half_w = (a.width / 2) as i32;
    let a_half_h = (a.height / 2) as i32;
    let b_half_w = (b.width / 2) as i32;
    let b_half_h = (b.height / 2) as i32;
    aabb_collision(
        ax - a_half_w,
        ax + a_half_w,
        ay - a_half_h,
        ay + a_half_h,
        bx - b_half_w,
        bx + b_half_w,
        by - b_half_h,
        by + b_half_h,
    )
}

/// Rectangles that share an edge exactly do not overlap: the span test uses
/// strict inequality, so equal bounds on either axis never register as a
/// collision.
pub proof fn lemma_touching_edges_do_not_overlap(
    ax: int,
    ay: int,
    a: BoundingBox,
    bx: int,
    by: int,
    b: BoundingBox,
)
    requires
        ax + a.width as int / 2 == bx - b.width as int / 2 || ax - a.width as int / 2 == bx
            + b.width as int / 2 || ay + a.height as int / 2 == by - b.height as int / 2 || ay
            - a.height as int / 2 == by + b.height as int / 2,
    ensures
        !boxes_overlap(ax, ay, a, bx, by, b),
{
}

} // verus!
