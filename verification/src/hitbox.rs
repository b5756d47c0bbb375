//! The axis-aligned box primitive and the playfield grid.
//!
//! A `Hitbox` is one rectangle: an anchor point (top-left corner) plus a
//! width/height pair. Overlap is the standard half-open interval test with
//! strict inequalities, so boxes that merely touch along an edge do not
//! count as overlapping, and a box that is degenerate along an axis never
//! overlaps a copy of itself.
//!
//! The playfield is also divided into a coarse grid of
//! `GRID_RESOLUTION_X x GRID_RESOLUTION_Y` cells; mapping an anchor point to
//! its cell is the cheap broad-phase filter used by the shape trees.

use vstd::prelude::*;

verus! {

use vstd::arithmetic::div_mod::{
    lemma_div_nonincreasing,
    lemma_fundamental_div_mod,
    lemma_fundamental_div_mod_converse,
};

/// A two-component integer vector: a point on the playfield or a displacement.
#[derive(Clone, Copy, Debug, PartialEq, Eq, Structural)]
pub struct Vec2 {
    pub x: i32,
    pub y: i32,
}

impl Vec2 {
    pub fn new(x: i32, y: i32) -> (v: Vec2)
        ensures
            v.x == x,
            v.y == y,
    {
        Vec2 { x, y }
    }
}

/// One axis-aligned rectangle: anchor at the top-left corner plus a size.
#[derive(Clone, Copy, Debug, PartialEq, Eq, Structural)]
pub struct Hitbox {
    pub point: Vec2,
    pub size: Vec2,
}

/// The box invariant: both size components are non-negative. Constructors
/// demand it and translation preserves it; valid callers never produce a
/// negative extent.
pub open spec fn box_wf(h: Hitbox) -> bool {
    &&& h.size.x >= 0
    &&& h.size.y >= 0
}

/// Half-open rectangle intersection on both axes, with strict inequalities:
/// touching edges do not overlap, and a box with a zero extent along an axis
/// never overlaps a copy of itself.
pub open spec fn boxes_overlap(a: Hitbox, b: Hitbox) -> bool {
    &&& a.point.x < b.point.x + b.size.x
    &&& a.point.x + a.size.x > b.point.x
    &&& a.point.y < b.point.y + b.size.y
    &&& a.point.y + a.size.y > b.point.y
}

impl Hitbox {
    pub fn new(point: Vec2, size: Vec2) -> (h: Hitbox)
        requires
            size.x >= 0,
            size.y >= 0,
        ensures
            h.point == point,
            h.size == size,
            box_wf(h),
    {
        Hitbox { point, size }
    }

    pub fn new_square(point: Vec2, size: i32) -> (h: Hitbox)
        requires
            size >= 0,
        ensures
            h.point == point,
            h.size == (Vec2 { x: size, y: size }),
            box_wf(h),
    {
        Hitbox::new(point, Vec2::new(size, size))
    }

    /// Shift the box by `delta`, leaving its size untouched.
    pub fn move_delta(&mut self, delta: Vec2)
        requires
            i32::MIN <= old(self).point.x + delta.x <= i32::MAX,
            i32::MIN <= old(self).point.y + delta.y <= i32::MAX,
        ensures
            final(self).point.x == old(self).point.x + delta.x,
            final(self).point.y == old(self).point.y + delta.y,
            final(self).size == old(self).size,
            box_wf(*old(self)) ==> box_wf(*final(self)),
    {
        self.point.x = self.point.x + delta.x;
        self.point.y = self.point.y + delta.y;
    }

    /// Standard bounding-box collision test.
    pub fn collides_with(&self, other: &Hitbox) -> (r: bool)
        ensures
            r == boxes_overlap(*self, *other),
    {
        (self.point.x as i64) < other.point.x as i64 + other.size.x as i64
            && self.point.x as i64 + self.size.x as i64 > other.point.x as i64
            && (self.point.y as i64) < other.point.y as i64 + other.size.y as i64
            && self.point.y as i64 + self.size.y as i64 > other.point.y as i64
    }
}

/// Box overlap is symmetric.
pub proof fn lemma_overlap_symmetric(a: Hitbox, b: Hitbox)
    ensures
        boxes_overlap(a, b) == boxes_overlap(b, a),
{
}

/// A non-degenerate box overlaps a copy of itself at the same position.
pub proof fn lemma_self_overlap(a: Hitbox)
    requires
        a.size.x > 0,
        a.size.y > 0,
    ensures
        boxes_overlap(a, a),
{
}

/// Translating one of two identically sized boxes by at least the two boxes'
/// combined extent along some axis leaves them non-overlapping.
pub proof fn lemma_separation_by_translation(a: Hitbox, b: Hitbox, d: Vec2)
    requires
        a.size.x >= 0,
        a.size.y >= 0,
        b.size == a.size,
        b.point.x == a.point.x + d.x,
        b.point.y == a.point.y + d.y,
        d.x >= a.size.x + b.size.x || d.x <= -(a.size.x + b.size.x) || d.y >= a.size.y
            + b.size.y || d.y <= -(a.size.y + b.size.y),
    ensures
        !boxes_overlap(a, b),
{
}

/// Number of grid cells along each playfield axis.
pub const GRID_RESOLUTION_X: i64 = 10;

pub const GRID_RESOLUTION_Y: i64 = 10;

/// Playfield extent in game units along each axis.
pub const RESOLUTION_X: i64 = 920;

pub const RESOLUTION_Y: i64 = 690;

/// The grid column that an x coordinate falls in. The quotient is the
/// mathematical floor, since the divisor is positive.
pub open spec fn grid_cell_x(x: int) -> int {
    (x * GRID_RESOLUTION_X) / (RESOLUTION_X as int)
}

/// The grid row that a y coordinate falls in.
pub open spec fn grid_cell_y(y: int) -> int {
    (y * GRID_RESOLUTION_Y) / (RESOLUTION_Y as int)
}

/// Two anchor points pass the broad phase when their grid cells are at most
/// one apart on both axes.
pub open spec fn same_grid_region(a: Vec2, b: Vec2) -> bool {
    &&& -1 <= grid_cell_x(a.x as int) - grid_cell_x(b.x as int) <= 1
    &&& -1 <= grid_cell_y(a.y as int) - grid_cell_y(b.y as int) <= 1
}

/// Floor division for a positive divisor, computed through unsigned division
/// so that the executable quotient matches the mathematical one even for a
/// negative dividend.
fn floor_div(a: i64, b: i64) -> (q: i64)
    requires
        b > 0,
        a > i64::MIN,
    ensures
        q == a as int / b as int,
{
    if a >= 0 {
        let qu: u64 = (a as u64) / (b as u64);
        proof {
            lemma_div_nonincreasing(a as int, b as int);
        }
        qu as i64
    } else {
        // For a < 0 and b > 0: floor(a / b) == -((-a - 1) / b + 1).
        let n: u64 = (-a) as u64;
        let qu: u64 = (n - 1) / (b as u64);
        proof {
            lemma_div_nonincreasing((n - 1) as int, b as int);
            lemma_fundamental_div_mod((n - 1) as int, b as int);
            let quo = (n - 1) as int / b as int;
            let rem = (n - 1) as int % b as int;
            assert(a as int == (-(quo + 1)) * (b as int) + (b - 1 - rem)) by {
                assert((-(quo + 1)) * (b as int) == -(quo * b) - b) by (nonlinear_arith);
            }
            lemma_fundamental_div_mod_converse(a as int, b as int, -(quo + 1), b - 1 - rem);
        }
        -((qu + 1) as i64)
    }
}

/// Map a point to its discrete grid cell; both components are floored.
pub fn get_grid_square(p: Vec2) -> (cell: (i64, i64))
    ensures
        cell.0 == grid_cell_x(p.x as int),
        cell.1 == grid_cell_y(p.y as int),
{
    (
        floor_div(p.x as i64 * GRID_RESOLUTION_X, RESOLUTION_X),
        floor_div(p.y as i64 * GRID_RESOLUTION_Y, RESOLUTION_Y),
    )
}

} // verus!
