//! The velocity of a moving body: a step per frame along each axis, and a mass.
use vstd::prelude::*;

verus! {

/// The mathematical content of a velocity.
pub struct VelocityModel {
    pub x: int,
    pub y: int,
    pub mass: int,
}

/// A velocity: the distance moved per frame along each axis, and a mass.
#[derive(Clone, Copy, Debug)]
pub struct Velocity {
    x: i32,
    y: i32,
    mass: i32,
}

impl View for Velocity {
    type V = VelocityModel;

    closed spec fn view(&self) -> VelocityModel {
        VelocityModel { x: self.x as int, y: self.y as int, mass: self.mass as int }
    }
}

impl Velocity {
    pub fn new(x: i32, y: i32, mass: i32) -> (r: Velocity)
        ensures
            r@ == (VelocityModel { x: x as int, y: y as int, mass: mass as int }),
    {
        Velocity { x, y, mass }
    }

    pub fn x(&self) -> (r: i32)
        ensures
            r == self@.x,
    {
        self.x
    }

    pub fn y(&self) -> (r: i32)
        ensures
            r == self@.y,
    {
        self.y
    }

    pub fn mass(&self) -> (r: i32)
        ensures
            r == self@.mass,
    {
        self.mass
    }

    pub fn set_x(&mut self, x: i32)
        ensures
            final(self)@ == (VelocityModel { x: x as int, ..old(self)@ }),
    {
        self.x = x;
    }

    pub fn set_y(&mut self, y: i32)
        ensures
            final(self)@ == (VelocityModel { y: y as int, ..old(self)@ }),
    {
        self.y = y;
    }

    pub fn set_mass(&mut self, mass: i32)
        ensures
            final(self)@ == (VelocityModel { mass: mass as int, ..old(self)@ }),
    {
        self.mass = mass;
    }
}

/// What a setter writes is what the matching getter reads back, and a setter
/// leaves the other two components as they were.
pub proof fn lemma_set_then_get(v: VelocityModel, a: int)
    ensures
        (VelocityModel { x: a, ..v }).x == a,
        (VelocityModel { x: a, ..v }).y == v.y,
        (VelocityModel { x: a, ..v }).mass == v.mass,
        (VelocityModel { y: a, ..v }).y == a,
        (VelocityModel { y: a, ..v }).x == v.x,
        (VelocityModel { y: a, ..v }).mass == v.mass,
        (VelocityModel { mass: a, ..v }).mass == a,
        (VelocityModel { mass: a, ..v }).x == v.x,
        (VelocityModel { mass: a, ..v }).y == v.y,
{
}

} // verus!
