//! Entity-layer rules that the game objects share: the screen-bounds tests,
//! the position clamp used by the player's physics step, weapon cycling,
//! collision dispatch over optional hitbox trees, and the sprite frame each
//! bullet kind is drawn with.
//!
//! The entities themselves (player, enemies, bullets, stars, explosions) are
//! bookkeeping around these rules and around the shape trees; they live with
//! the game shell, which calls into this module every tick.

use vstd::prelude::*;

verus! {

use crate::hitbox::Vec2;
use crate::hitbox_tree::{HitboxTree, trees_collide};

/// Playfield extent the gameplay logic works in.
pub const INTERNAL_RESOLUTION_X: i64 = 920;

pub const INTERNAL_RESOLUTION_Y: i64 = 690;

/// Window extent; the background stars wrap at these bounds.
pub const DISPLAY_RESOLUTION_X: i64 = 920;

pub const DISPLAY_RESOLUTION_Y: i64 = 690;

/// The kinds of projectile the guns fire.
#[derive(Clone, Copy, Debug, PartialEq, Eq, Structural)]
pub enum BulletType {
    Minigun,
    Laser,
    Proton,
}

/// An object is off screen once it has fully left the `width x height`
/// playfield on some side: its anchor is more than its own extent left or
/// above the origin, or past the far edge.
pub open spec fn spec_off_screen(pos: Vec2, size: Vec2, width: i64, height: i64) -> bool {
    ||| pos.x < -size.x
    ||| pos.x > width
    ||| pos.y < -size.y
    ||| pos.y > height
}

/// Screen-bounds test shared by every game object.
pub fn is_off_screen(pos: Vec2, size: Vec2, width: i64, height: i64) -> (r: bool)
    ensures
        r == spec_off_screen(pos, size, width, height),
{
    (pos.x as i64) < -(size.x as i64) || pos.x as i64 > width || (pos.y as i64) < -(size.y as i64)
        || pos.y as i64 > height
}

/// Clamp an anchor position so that a `size`-sized object stays inside the
/// `width x height` playfield: each coordinate is raised to at least zero
/// and then lowered to at most the far edge minus the object's extent.
pub fn clamp_position(pos: Vec2, size: Vec2, width: i64, height: i64) -> (p: Vec2)
    requires
        0 <= width <= i32::MAX,
        0 <= height <= i32::MAX,
    ensures
        p.x == vstd::math::min(vstd::math::max(pos.x as int, 0), width - size.x),
        p.y == vstd::math::min(vstd::math::max(pos.y as int, 0), height - size.y),
{
    let max_x: i64 = width - size.x as i64;
    let max_y: i64 = height - size.y as i64;
    let mut x: i64 = pos.x as i64;
    let mut y: i64 = pos.y as i64;
    if x < 0 {
        x = 0;
    }
    if x > max_x {
        x = max_x;
    }
    if y < 0 {
        y = 0;
    }
    if y > max_y {
        y = max_y;
    }
    Vec2 { x: x as i32, y: y as i32 }
}

/// The index of the weapon after the current one, wrapping to the first.
pub fn next_weapon_index(current: usize, count: usize) -> (idx: usize)
    requires
        current < count,
    ensures
        idx == if current + 1 < count {
            current + 1
        } else {
            0
        },
        idx < count,
{
    if current + 1 < count {
        current + 1
    } else {
        0
    }
}

/// Collision dispatch for game objects: objects collide exactly when both
/// actually carry a hitbox tree and those trees collide.
pub fn collides_opt(a: Option<&HitboxTree>, b: Option<&HitboxTree>) -> (r: bool)
    requires
        a matches Some(t) ==> t.wf(),
        b matches Some(t) ==> t.wf(),
    ensures
        r == match (a, b) {
            (Some(x), Some(y)) => trees_collide(x@, y@),
            _ => false,
        },
{
    if let (Some(x), Some(y)) = (a, b) {
        x.collides_with(y)
    } else {
        false
    }
}

/// The sprite-sheet frame each bullet kind is drawn with.
pub fn bullet_frame_name(t: &BulletType) -> (r: &'static str)
    ensures
        *t == BulletType::Minigun ==> r@ == "Minigun_Small"@,
        *t == BulletType::Laser ==> r@ == "Laser_Small"@,
        *t == BulletType::Proton ==> r@ == "Proton_Medium"@,
{
    match t {
        BulletType::Minigun => "Minigun_Small",
        BulletType::Laser => "Laser_Small",
        BulletType::Proton => "Proton_Medium",
    }
}

} // verus!
