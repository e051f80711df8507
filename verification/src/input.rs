//! Steering the player with the arrow keys: a key going down starts a
//! walk in its direction, a key going up stops the walk along its axis.
use vstd::prelude::*;
use crate::velocity::{Velocity, VelocityModel};

verus! {

/// The walking speed, in pixels per frame.
pub const WALK_SPEED: i32 = 4;

/// An arrow key.
#[derive(Clone, Copy, Debug, PartialEq, Eq, Structural)]
pub enum Key {
    Up,
    Down,
    Left,
    Right,
}

/// The velocity after `key` went down.
pub open spec fn pressed(v: VelocityModel, key: Key) -> VelocityModel {
    match key {
        Key::Down => VelocityModel { y: WALK_SPEED as int, ..v },
        Key::Left => VelocityModel { x: -WALK_SPEED, ..v },
        Key::Right => VelocityModel { x: WALK_SPEED as int, ..v },
        Key::Up => VelocityModel { y: -WALK_SPEED, ..v },
    }
}

/// The velocity after `key` went up.
pub open spec fn released(v: VelocityModel, key: Key) -> VelocityModel {
    match key {
        Key::Down | Key::Up => VelocityModel { y: 0, ..v },
        Key::Left | Key::Right => VelocityModel { x: 0, ..v },
    }
}

/// The velocity after each key held now and not held before went down, in
/// the order in which `now` lists them.
pub open spec fn apply_presses(v: VelocityModel, now: Seq<Key>, before: Seq<Key>) -> VelocityModel
    decreases now.len(),
{
    if now.len() == 0 {
        v
    } else {
        let w = apply_presses(v, now.drop_last(), before);
        if before.contains(now.last()) {
            w
        } else {
            pressed(w, now.last())
        }
    }
}

/// The velocity after each key held before and not held now went up, in
/// the order in which `before` lists them.
pub open spec fn apply_releases(v: VelocityModel, before: Seq<Key>, now: Seq<Key>) -> VelocityModel
    decreases before.len(),
{
    if before.len() == 0 {
        v
    } else {
        let w = apply_releases(v, before.drop_last(), now);
        if now.contains(before.last()) {
            w
        } else {
            released(w, before.last())
        }
    }
}

/// The velocity after the keys held changed from `before` to `now`: first
/// the new keys go down, then the keys let go go up.
pub open spec fn steered(v: VelocityModel, before: Seq<Key>, now: Seq<Key>) -> VelocityModel {
    apply_releases(apply_presses(v, now, before), before, now)
}

/// Each component is a walking step in one direction or none.
pub open spec fn is_walk(v: VelocityModel) -> bool {
    &&& (v.x == 0 || v.x == WALK_SPEED || v.x == -WALK_SPEED)
    &&& (v.y == 0 || v.y == WALK_SPEED || v.y == -WALK_SPEED)
}

fn holds(keys: &Vec<Key>, key: Key) -> (r: bool)
    ensures
        r == keys@.contains(key),
{
    let mut i: usize = 0;
    while i < keys.len()
        invariant
            i <= keys.len(),
            forall|j: int| 0 <= j < i ==> keys@[j] != key,
        decreases keys.len() - i,
    {
        if keys[i] == key {
            assert(keys@[i as int] == key);
            return true;
        }
        i = i + 1;
    }
    false
}

/// Starts a walk in the direction of `key`.
pub fn press(velocity: &mut Velocity, key: Key)
    ensures
        final(velocity)@ == pressed(old(velocity)@, key),
{
    match key {
        Key::Down => velocity.set_y(WALK_SPEED),
        Key::Left => velocity.set_x(-WALK_SPEED),
        Key::Right => velocity.set_x(WALK_SPEED),
        Key::Up => velocity.set_y(-WALK_SPEED),
    }
}

/// Stops the walk along the axis of `key`.
pub fn release(velocity: &mut Velocity, key: Key)
    ensures
        final(velocity)@ == released(old(velocity)@, key),
{
    match key {
        Key::Down | Key::Up => velocity.set_y(0),
        Key::Left | Key::Right => velocity.set_x(0),
    }
}

/// Updates the velocity for the arrow keys held in the previous frame
/// (`before`) and in this one (`now`).
pub fn steer(velocity: &mut Velocity, before: &Vec<Key>, now: &Vec<Key>)
    ensures
        final(velocity)@ == steered(old(velocity)@, before@, now@),
{
    let ghost start = velocity@;
    let mut i: usize = 0;
    while i < now.len()
        invariant
            i <= now.len(),
            velocity@ == apply_presses(start, now@.take(i as int), before@),
        decreases now.len() - i,
    {
        assert(now@.take(i + 1).drop_last() =~= now@.take(i as int));
        let k = now[i];
        if !holds(before, k) {
            press(velocity, k);
        }
        i = i + 1;
    }
    assert(now@.take(now.len() as int) =~= now@);
    let ghost mid = velocity@;
    let mut i: usize = 0;
    while i < before.len()
        invariant
            i <= before.len(),
            velocity@ == apply_releases(mid, before@.take(i as int), now@),
        decreases before.len() - i,
    {
        assert(before@.take(i + 1).drop_last() =~= before@.take(i as int));
        let k = before[i];
        if !holds(now, k) {
            release(velocity, k);
        }
        i = i + 1;
    }
    assert(before@.take(before.len() as int) =~= before@);
}

proof fn lemma_presses_walk(v: VelocityModel, now: Seq<Key>, before: Seq<Key>)
    requires
        is_walk(v),
    ensures
        is_walk(apply_presses(v, now, before)),
        apply_presses(v, now, before).mass == v.mass,
    decreases now.len(),
{
    if now.len() > 0 {
        lemma_presses_walk(v, now.drop_last(), before);
    }
}

proof fn lemma_releases_walk(v: VelocityModel, before: Seq<Key>, now: Seq<Key>)
    requires
        is_walk(v),
    ensures
        is_walk(apply_releases(v, before, now)),
        apply_releases(v, before, now).mass == v.mass,
    decreases before.len(),
{
    if before.len() > 0 {
        lemma_releases_walk(v, before.drop_last(), now);
    }
}

/// Steering keeps each component a walking step in one direction or none,
/// and never touches the mass.
pub proof fn lemma_steer_keeps_walk(v: VelocityModel, before: Seq<Key>, now: Seq<Key>)
    requires
        is_walk(v),
    ensures
        is_walk(steered(v, before, now)),
        steered(v, before, now).mass == v.mass,
{
    lemma_presses_walk(v, now, before);
    lemma_releases_walk(apply_presses(v, now, before), before, now);
}

/// With no change in the keys held, the velocity stays as it is.
pub proof fn lemma_steer_unchanged(v: VelocityModel, keys: Seq<Key>)
    ensures
        steered(v, keys, keys) == v,
{
    lemma_presses_none(v, keys, keys);
    lemma_releases_none(v, keys, keys);
}

proof fn lemma_presses_none(v: VelocityModel, now: Seq<Key>, before: Seq<Key>)
    requires
        forall|i: int| 0 <= i < now.len() ==> before.contains(#[trigger] now[i]),
    ensures
        apply_presses(v, now, before) == v,
    decreases now.len(),
{
    if now.len() > 0 {
        assert(before.contains(now[now.len() - 1]));
        lemma_presses_none(v, now.drop_last(), before);
    }
}

proof fn lemma_releases_none(v: VelocityModel, before: Seq<Key>, now: Seq<Key>)
    requires
        forall|i: int| 0 <= i < before.len() ==> now.contains(#[trigger] before[i]),
    ensures
        apply_releases(v, before, now) == v,
    decreases before.len(),
{
    if before.len() > 0 {
        assert(now.contains(before[before.len() - 1]));
        lemma_releases_none(v, before.drop_last(), now);
    }
}

/// Pressing an arrow key alone starts a walk in its direction; letting it go
/// in a later frame stops the walk along that axis, the other axis untouched.
pub proof fn lemma_press_then_release(v: VelocityModel, key: Key)
    ensures
        steered(v, seq![], seq![key]) == pressed(v, key),
        steered(steered(v, seq![], seq![key]), seq![key], seq![]) == released(pressed(v, key), key),
        released(pressed(v, key), key).x == (if key == Key::Up || key == Key::Down {
            v.x
        } else {
            0
        }),
        released(pressed(v, key), key).y == (if key == Key::Left || key == Key::Right {
            v.y
        } else {
            0
        }),
{
    let s1: Seq<Key> = seq![key];
    let s0: Seq<Key> = seq![];
    assert(s1.drop_last() =~= s0);
    assert(!s0.contains(key));
    assert(!s0.contains(s1.last()));
    reveal_with_fuel(apply_presses, 2);
    reveal_with_fuel(apply_releases, 2);
}

/// Pressing an arrow key alone walks in its direction at the walking speed:
/// right and down are positive, left and up negative; the other axis and the
/// mass are untouched.
pub proof fn lemma_key_directions(v: VelocityModel, key: Key)
    ensures
        ({
            let w = steered(v, seq![], seq![key]);
            &&& w.mass == v.mass
            &&& key == Key::Right ==> w.x == 4 && w.y == v.y
            &&& key == Key::Left ==> w.x == -4 && w.y == v.y
            &&& key == Key::Down ==> w.y == 4 && w.x == v.x
            &&& key == Key::Up ==> w.y == -4 && w.x == v.x
        }),
{
    lemma_press_then_release(v, key);
}

} // verus!
