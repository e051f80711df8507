//! Detecting overlaps and pushing the player back out of what it ran into.
use vstd::prelude::*;
use crate::rect::{Rect, RectModel, MAX_INT_VALUE, MIN_INT_VALUE};
use crate::velocity::{Velocity, VelocityModel};

verus! {

pub open spec fn fits_i32(v: int) -> bool {
    i32::MIN <= v <= i32::MAX
}

pub open spec fn abs(v: int) -> int {
    if v < 0 {
        -v
    } else {
        v
    }
}

/// `v / 1.414213` (a step along one axis of a diagonal move, 1.414213
/// standing for the square root of two), rounded to the nearest integer
/// with halves rounded away from zero.
pub open spec fn scaled_diagonal(v: int) -> int {
    if v >= 0 {
        (2000000 * v + 1414213) / 2828426
    } else {
        -((2000000 * (-v) + 1414213) / 2828426)
    }
}

/// How far a collision pushes the player back along each axis: the velocity
/// itself, or for a diagonal move each component scaled by `1 / 1.414213`.
pub open spec fn push_speed(v: VelocityModel) -> (int, int) {
    if v.x != 0 && v.y != 0 {
        (scaled_diagonal(v.x), scaled_diagonal(v.y))
    } else {
        (v.x, v.y)
    }
}

/// The inputs on which the push-back neither takes the absolute value of
/// `i32::MIN` nor steps outside the `i32` range.
pub open spec fn replace_collide_defined(
    collision: RectModel,
    dst: RectModel,
    velocity: VelocityModel,
) -> bool {
    let s = push_speed(velocity);
    &&& s.0 != i32::MIN
    &&& if collision.w <= abs(s.0) {
        if collision.x == dst.x {
            fits_i32(dst.x - s.0)
        } else {
            fits_i32(dst.right() - s.0)
        }
    } else {
        &&& s.1 != i32::MIN
        &&& collision.h <= abs(s.1) ==> if collision.y == dst.y {
            fits_i32(dst.y - s.1)
        } else {
            fits_i32(dst.bottom() - s.1)
        }
    }
}

/// The player's rectangle after the push-back. A collision no wider than the
/// horizontal push is undone horizontally: the side of the player that the
/// collision touches moves back by the push. Otherwise a collision no taller
/// than the vertical push is undone vertically in the same way. Otherwise the
/// player stays where it is.
pub open spec fn replaced(collision: RectModel, dst: RectModel, velocity: VelocityModel) -> RectModel {
    let s = push_speed(velocity);
    if collision.w <= abs(s.0) {
        if collision.x == dst.x {
            dst.with_x(dst.x - s.0)
        } else {
            dst.with_right(dst.right() - s.0)
        }
    } else if collision.h <= abs(s.1) {
        if collision.y == dst.y {
            dst.with_y(dst.y - s.1)
        } else {
            dst.with_bottom(dst.bottom() - s.1)
        }
    } else {
        dst
    }
}

/// The overlap of `src` and `dst`, if they overlap with a positive area.
pub fn is_collide(src: Rect, dst: Rect) -> (r: Option<Rect>)
    ensures
        match r {
            Some(c) => src@.intersect(dst@) == Some(c@),
            None => src@.intersect(dst@) is None,
        },
        src@.valid(),
        dst@.valid(),
{
    src.intersection(dst)
}

/// `v / 1.414213` rounded to the nearest integer, halves away from zero.
pub fn diagonal_speed(v: i32) -> (r: i32)
    ensures
        r == scaled_diagonal(v as int),
{
    let m: i64 = if v >= 0 { v as i64 } else { -(v as i64) };
    let n: i64 = 2000000 * m + 1414213;
    let q: i64 = n / 2828426;
    proof {
        vstd::arithmetic::div_mod::lemma_div_is_ordered(n as int, 4294967297414213, 2828426);
        assert(4294967297414213int / 2828426 == 1518500854);
    }
    if v >= 0 {
        q as i32
    } else {
        -(q as i32)
    }
}

/// The push-back speed along each axis for a move at `velocity`.
pub fn replace_speed(velocity: Velocity) -> (r: (i32, i32))
    ensures
        (r.0 as int, r.1 as int) == push_speed(velocity@),
{
    if velocity.x() != 0 && velocity.y() != 0 {
        (diagonal_speed(velocity.x()), diagonal_speed(velocity.y()))
    } else {
        (velocity.x(), velocity.y())
    }
}

/// Pushes the player's rectangle back out of `collision_rect`, the overlap of
/// the player with something solid, against the direction of `player_velocity`.
pub fn replace_collide(collision_rect: Rect, player_dst_rect: Rect, player_velocity: Velocity) -> (r:
    Rect)
    requires
        replace_collide_defined(collision_rect@, player_dst_rect@, player_velocity@),
    ensures
        r@ == replaced(collision_rect@, player_dst_rect@, player_velocity@),
{
    let mut dst = player_dst_rect;
    let speed = replace_speed(player_velocity);
    let sx: i32 = if speed.0 < 0 { -speed.0 } else { speed.0 };
    if collision_rect.width() <= sx as u32 {
        if collision_rect.x() == dst.x() {
            let left = dst.left();
            dst.set_x(left - speed.0);
        } else {
            let right = dst.right();
            dst.set_right(right - speed.0);
        }
    } else {
        let sy: i32 = if speed.1 < 0 { -speed.1 } else { speed.1 };
        if collision_rect.height() <= sy as u32 {
            if collision_rect.y() == dst.y() {
                let top = dst.top();
                dst.set_y(top - speed.1);
            } else {
                let bottom = dst.bottom();
                dst.set_bottom(bottom - speed.1);
            }
        }
    }
    dst
}

/// Overlap does not depend on the order of the two rectangles; an
/// overlap lies inside both rectangles and has a positive area; a rectangle
/// overlaps itself entirely; rectangles that only share an edge do not overlap.
pub proof fn lemma_intersect_properties(a: RectModel, b: RectModel)
    requires
        a.valid(),
        b.valid(),
    ensures
        a.intersect(b) == b.intersect(a),
        a.intersect(a) == Some(a),
        a.intersect(b) matches Some(c) ==> {
            &&& c.valid()
            &&& a.x <= c.x && c.right() <= a.right() && a.y <= c.y && c.bottom() <= a.bottom()
            &&& b.x <= c.x && c.right() <= b.right() && b.y <= c.y && c.bottom() <= b.bottom()
        },
        a.right() <= b.x || b.right() <= a.x || a.bottom() <= b.y || b.bottom() <= a.y
            ==> a.intersect(b) is None,
        a.intersect(b) is None ==> a.right() <= b.x || b.right() <= a.x || a.bottom() <= b.y
            || b.bottom() <= a.y,
{
}

/// The push-back keeps the player's size, moves it along at most one axis,
/// and leaves a player at rest where it is.
pub proof fn lemma_replaced_shape(collision: RectModel, dst: RectModel, velocity: VelocityModel)
    requires
        collision.valid(),
        dst.valid(),
    ensures
        replaced(collision, dst, velocity).w == dst.w,
        replaced(collision, dst, velocity).h == dst.h,
        replaced(collision, dst, velocity).valid(),
        replaced(collision, dst, velocity).x == dst.x || replaced(collision, dst, velocity).y
            == dst.y,
        velocity.x == 0 && velocity.y == 0 ==> replaced(collision, dst, velocity) == dst,
{
}

/// `dst` runs into `obstacle` with its leading edge while moving along one
/// axis at `velocity`: the side of `dst` that faces the motion lies inside the
/// obstacle and its back side does not, and the overlap is no deeper than one step.
pub open spec fn runs_into(dst: RectModel, obstacle: RectModel, velocity: VelocityModel) -> bool {
    &&& dst.intersect(obstacle) is Some
    &&& if velocity.y == 0 {
        &&& velocity.x > 0 ==> dst.x < obstacle.x && dst.right() <= obstacle.right()
        &&& velocity.x < 0 ==> obstacle.x <= dst.x && obstacle.right() < dst.right()
        &&& velocity.x != 0 && dst.intersect(obstacle)->0.w <= abs(velocity.x)
    } else {
        &&& velocity.x == 0
        &&& velocity.y > 0 ==> dst.y < obstacle.y && dst.bottom() <= obstacle.bottom()
        &&& velocity.y < 0 ==> obstacle.y <= dst.y && obstacle.bottom() < dst.bottom()
        &&& dst.intersect(obstacle)->0.h <= abs(velocity.y)
    }
}

/// A player moving along one axis that runs into an obstacle with its
/// leading edge is pushed back out of it: after the push-back the two no
/// longer overlap (away from the edges of the coordinate range).
pub proof fn lemma_push_back_separates(dst: RectModel, obstacle: RectModel, velocity: VelocityModel)
    requires
        dst.valid(),
        obstacle.valid(),
        runs_into(dst, obstacle, velocity),
        MIN_INT_VALUE <= dst.x - abs(velocity.x),
        dst.x + abs(velocity.x) <= MAX_INT_VALUE,
        MIN_INT_VALUE <= dst.y - abs(velocity.y),
        dst.y + abs(velocity.y) <= MAX_INT_VALUE,
    ensures
        replaced(dst.intersect(obstacle)->0, dst, velocity).intersect(obstacle) is None,
{
    let c = dst.intersect(obstacle)->0;
    let r = replaced(c, dst, velocity);
    if velocity.y == 0 {
        assert(c.w <= abs(push_speed(velocity).0));
    } else {
        assert(c.w > abs(push_speed(velocity).0));
        assert(c.h <= abs(push_speed(velocity).1));
    }
}

/// The diagonal step is the integer nearest to `v / 1.414213`:
/// `|1.414213 * s - v| <= 1.414213 / 2`, with the sign of `v`.
pub proof fn lemma_scaled_diagonal_nearest(v: int)
    ensures
        -1414213 <= 2828426 * scaled_diagonal(v) - 2000000 * v <= 1414213,
        v >= 0 ==> scaled_diagonal(v) >= 0,
        v <= 0 ==> scaled_diagonal(v) <= 0,
{
}

/// The push-back speed is the velocity itself for a move along one axis (or
/// none), and each component's diagonal step for a diagonal move.
pub proof fn lemma_push_speed(v: VelocityModel)
    ensures
        v.x == 0 || v.y == 0 ==> push_speed(v) == (v.x, v.y),
        v.x != 0 && v.y != 0 ==> push_speed(v) == (scaled_diagonal(v.x), scaled_diagonal(v.y)),
{
}

/// A player whose overlap with an obstacle is no wider than the horizontal
/// push, and whose leading side (the right side for a positive push, the left
/// side for a negative one; straight or diagonal moves alike) lies inside the
/// obstacle, is pushed back horizontally by the push speed and no longer
/// overlaps the obstacle; it keeps its row and size.
pub proof fn lemma_push_back_horizontal(dst: RectModel, obstacle: RectModel, velocity: VelocityModel)
    requires
        dst.valid(),
        obstacle.valid(),
        dst.intersect(obstacle) is Some,
        dst.intersect(obstacle)->0.w <= abs(push_speed(velocity).0),
        push_speed(velocity).0 > 0 ==> dst.x < obstacle.x && dst.right() <= obstacle.right(),
        push_speed(velocity).0 < 0 ==> obstacle.x <= dst.x && obstacle.right() < dst.right(),
        MIN_INT_VALUE <= dst.x - abs(push_speed(velocity).0),
        dst.x + abs(push_speed(velocity).0) <= MAX_INT_VALUE,
    ensures
        ({
            let r = replaced(dst.intersect(obstacle)->0, dst, velocity);
            &&& r.intersect(obstacle) is None
            &&& r.y == dst.y && r.w == dst.w && r.h == dst.h
            &&& dst.right() + abs(push_speed(velocity).0) <= MAX_INT_VALUE ==> r.x == dst.x
                - push_speed(velocity).0
        }),
{
}

/// A player whose overlap with an obstacle is wider than the horizontal push
/// but no taller than the vertical push, with its leading edge (top or
/// bottom) inside the obstacle, is pushed back vertically by the push speed
/// and no longer overlaps the obstacle; this covers diagonal moves, where the
/// push is the scaled diagonal step. It keeps its column and size.
pub proof fn lemma_push_back_vertical(dst: RectModel, obstacle: RectModel, velocity: VelocityModel)
    requires
        dst.valid(),
        obstacle.valid(),
        dst.intersect(obstacle) is Some,
        dst.intersect(obstacle)->0.w > abs(push_speed(velocity).0),
        dst.intersect(obstacle)->0.h <= abs(push_speed(velocity).1),
        push_speed(velocity).1 > 0 ==> dst.y < obstacle.y && dst.bottom() <= obstacle.bottom(),
        push_speed(velocity).1 < 0 ==> obstacle.y <= dst.y && obstacle.bottom() < dst.bottom(),
        MIN_INT_VALUE <= dst.y - abs(push_speed(velocity).1),
        dst.y + abs(push_speed(velocity).1) <= MAX_INT_VALUE,
    ensures
        ({
            let r = replaced(dst.intersect(obstacle)->0, dst, velocity);
            &&& r.intersect(obstacle) is None
            &&& r.x == dst.x && r.w == dst.w && r.h == dst.h
            &&& dst.bottom() + abs(push_speed(velocity).1) <= MAX_INT_VALUE ==> r.y == dst.y
                - push_speed(velocity).1
        }),
{
}

/// An overlap deeper than the push along both axes leaves the player where it is.
pub proof fn lemma_deep_overlap_stays(collision: RectModel, dst: RectModel, velocity: VelocityModel)
    requires
        collision.w > abs(push_speed(velocity).0),
        collision.h > abs(push_speed(velocity).1),
    ensures
        replaced(collision, dst, velocity) == dst,
{
}

} // verus!
