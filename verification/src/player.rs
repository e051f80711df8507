//! The player: the sprite frame it shows, where it stands, and how it moves.
use vstd::prelude::*;
use crate::rect::{Rect, RectModel};
use crate::velocity::{Velocity, VelocityModel};
use crate::camera::aligned;

verus! {

/// The walking speed every new player starts with.
pub const PLAYER_SPEED: u32 = 4;

/// The mathematical content of a player.
pub struct PlayerModel {
    pub src_rect: RectModel,
    pub dst_rect: RectModel,
    pub velocity: VelocityModel,
    pub speed: int,
}

/// A player: `src_rect` picks the frame out of the sprite sheet, `dst_rect`
/// is where the player stands in the world.
#[derive(Clone, Copy)]
pub struct Player {
    src_rect: Rect,
    dst_rect: Rect,
    velocity: Velocity,
    speed: u32,
}

impl View for Player {
    type V = PlayerModel;

    closed spec fn view(&self) -> PlayerModel {
        PlayerModel {
            src_rect: self.src_rect@,
            dst_rect: self.dst_rect@,
            velocity: self.velocity@,
            speed: self.speed as int,
        }
    }
}

impl Player {
    /// Every player walks at `PLAYER_SPEED`: no operation changes the speed.
    #[verifier::type_invariant]
    spec fn inv(self) -> bool {
        self.speed == PLAYER_SPEED
    }

    pub fn new(src: Rect, dst: Rect, velocity: Velocity) -> (r: Player)
        ensures
            r@ == (PlayerModel {
                src_rect: src@,
                dst_rect: dst@,
                velocity: velocity@,
                speed: PLAYER_SPEED as int,
            }),
    {
        Player { src_rect: src, dst_rect: dst, velocity: velocity, speed: PLAYER_SPEED }
    }

    pub fn speed(&self) -> (r: u32)
        ensures
            r == self@.speed,
            r == PLAYER_SPEED,
    {
        proof {
            use_type_invariant(self);
        }
        self.speed
    }

    pub fn src_rect(&self) -> (r: Rect)
        ensures
            r@ == self@.src_rect,
    {
        self.src_rect
    }

    pub fn dst_rect(&self) -> (r: Rect)
        ensures
            r@ == self@.dst_rect,
    {
        self.dst_rect
    }

    pub fn velocity(&self) -> (r: Velocity)
        ensures
            r@ == self@.velocity,
    {
        self.velocity
    }

    /// Where the player appears on screen through `camera`.
    pub fn render_rect(&self, camera: &Rect) -> (r: Rect)
        ensures
            r@ == aligned(camera@, self@.dst_rect),
    {
        Rect::new(
            self.dst_rect().x() - camera.x(),
            self.dst_rect().y() - camera.y(),
            self.dst_rect().width(),
            self.dst_rect().height(),
        )
    }

    pub fn set_velocity(&mut self, x: i32, y: i32, mass: i32)
        ensures
            final(self)@ == (PlayerModel {
                velocity: VelocityModel { x: x as int, y: y as int, mass: mass as int },
                ..old(self)@
            }),
    {
        proof {
            use_type_invariant(&*self);
        }
        let mut velocity = self.velocity;
        velocity.set_x(x);
        velocity.set_y(y);
        velocity.set_mass(mass);
        self.velocity = velocity;
    }

    pub fn set_velocity_x(&mut self, x: i32)
        ensures
            final(self)@ == (PlayerModel {
                velocity: VelocityModel { x: x as int, ..old(self)@.velocity },
                ..old(self)@
            }),
    {
        proof {
            use_type_invariant(&*self);
        }
        let mut velocity = self.velocity;
        velocity.set_x(x);
        self.velocity = velocity;
    }

    pub fn set_velocity_y(&mut self, y: i32)
        ensures
            final(self)@ == (PlayerModel {
                velocity: VelocityModel { y: y as int, ..old(self)@.velocity },
                ..old(self)@
            }),
    {
        proof {
            use_type_invariant(&*self);
        }
        let mut velocity = self.velocity;
        velocity.set_y(y);
        self.velocity = velocity;
    }
}

} // verus!
