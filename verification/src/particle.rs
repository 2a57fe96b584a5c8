//! Particles, the spray source that emits them, and the draws that decide
//! how each one starts.

use vstd::prelude::*;
use crate::angle::HALF_TURN;
use crate::angle::cos;
use crate::angle::cosine;
use crate::angle::lemma_sine_bounds;
use crate::angle::sin;
use crate::angle::sine;
use crate::fixed::fits;
use crate::fixed::lemma_scaled_bounds;
use crate::fixed::magnitude;
use crate::fixed::scale;
use crate::fixed::scaled;
use crate::fixed::within;
use crate::surface::Point;

verus! {

/// A particle: where it is, how far it moves per tick, and how many ticks
/// it has left.
#[derive(Clone, Copy, Debug, PartialEq, Eq, Structural)]
pub struct Particle {
    pub x: i64,
    pub y: i64,
    pub vx: i64,
    pub vy: i64,
    pub life: i64,
}

/// The two random choices behind one particle.
#[derive(Clone, Copy, Debug, PartialEq, Eq, Structural)]
pub struct Draw {
    pub angle: i64,
    pub speed: i64,
}

/// The configuration of a spray.
#[derive(Clone, Copy, Debug, PartialEq, Eq, Structural)]
pub struct SpraySource {
    pub origin: Point,
    pub facing: i64,
    pub half_spread: i64,
    pub spawn_rate: usize,
    pub min_speed: i64,
    pub max_speed: i64,
    pub initial_life: u32,
}

/// What is wrong with a configuration.
#[derive(Clone, Copy, Debug, PartialEq, Eq, Structural)]
pub enum SourceError {
    /// The half spread is below zero or above a half turn.
    Spread,
    /// The edges of the cone are too large to be angles.
    Facing,
    /// The speeds are below zero or out of order.
    Speed,
    /// A particle at full speed would, within its life, fly further from
    /// the origin than the machine can count.
    Reach,
}

/// The horizontal part of the velocity that `draw` gives.
pub open spec fn velocity_x(draw: Draw) -> int {
    scaled(draw.speed as int, cosine(draw.angle as int))
}

/// The vertical part of the velocity that `draw` gives.
pub open spec fn velocity_y(draw: Draw) -> int {
    scaled(draw.speed as int, sine(draw.angle as int))
}

/// Neither part of a velocity exceeds the speed drawn.
pub proof fn lemma_velocity_bounds(draw: Draw)
    ensures
        within(velocity_x(draw), magnitude(draw.speed as int)),
        within(velocity_y(draw), magnitude(draw.speed as int)),
{
    lemma_sine_bounds(draw.angle as int);
    lemma_scaled_bounds(draw.speed as int, cosine(draw.angle as int));
    lemma_scaled_bounds(draw.speed as int, sine(draw.angle as int));
}

impl Particle {
    /// The particle one tick later: moved by its velocity, one tick older.
    pub open spec fn advanced(self) -> Particle {
        Particle {
            x: (self.x + self.vx) as i64,
            y: (self.y + self.vy) as i64,
            vx: self.vx,
            vy: self.vy,
            life: (self.life - 1) as i64,
        }
    }

    /// The next tick keeps the particle within the numbers of the machine.
    pub open spec fn movable(self) -> bool {
        &&& i64::MIN <= self.x + self.vx <= i64::MAX
        &&& i64::MIN <= self.y + self.vy <= i64::MAX
        &&& i64::MIN <= self.life - 1
    }

    /// A particle is drawn, and kept, while it has life left.
    pub open spec fn alive(self) -> bool {
        self.life > 0
    }

    /// Moves the particle by its velocity and takes one tick off its life.
    pub fn advance(&mut self)
        requires
            old(self).movable(),
        ensures
            *final(self) == old(self).advanced(),
    {
        self.x = self.x + self.vx;
        self.y = self.y + self.vy;
        self.life = self.life - 1;
    }

    /// Says whether the particle has life left.
    pub fn is_alive(&self) -> (alive: bool)
        ensures
            alive == self.alive(),
    {
        self.life > 0
    }
}

impl SpraySource {
    /// How far from the origin a particle can get on either axis: the
    /// fastest speed for every tick of its life, and for the tick in which
    /// it is removed.
    pub open spec fn reach(self) -> int {
        (self.initial_life + 1) * self.max_speed
    }

    /// The whole reach around the origin lies within what the machine can
    /// count.
    pub open spec fn in_reach(self) -> bool {
        &&& fits(self.origin.x - self.reach())
        &&& fits(self.origin.x + self.reach())
        &&& fits(self.origin.y - self.reach())
        &&& fits(self.origin.y + self.reach())
    }

    /// The first thing wrong with the configuration, if anything is.
    pub open spec fn defect(self) -> Option<SourceError> {
        if !(0 <= self.half_spread <= HALF_TURN) {
            Some(SourceError::Spread)
        } else if !(fits(self.facing - self.half_spread) && fits(self.facing + self.half_spread)) {
            Some(SourceError::Facing)
        } else if !(0 <= self.min_speed <= self.max_speed) {
            Some(SourceError::Speed)
        } else if !self.in_reach() {
            Some(SourceError::Reach)
        } else {
            None
        }
    }

    /// The cone is at most a half turn to either side of a facing that
    /// leaves room for it, the speeds are in order and not below zero, and
    /// no particle can fly out of what the machine can count.
    pub open spec fn wf(self) -> bool {
        &&& 0 <= self.half_spread <= HALF_TURN
        &&& fits(self.facing - self.half_spread)
        &&& fits(self.facing + self.half_spread)
        &&& 0 <= self.min_speed <= self.max_speed
        &&& self.in_reach()
    }

    /// The draw lies in the cone and in the speed range, ends included.
    pub open spec fn admits(self, draw: Draw) -> bool {
        &&& self.facing - self.half_spread <= draw.angle <= self.facing + self.half_spread
        &&& self.min_speed <= draw.speed <= self.max_speed
    }

    /// The particle that `draw` starts: at the origin, with the velocity
    /// of the draw and the full life.
    pub open spec fn spawned(self, draw: Draw) -> Particle {
        Particle {
            x: self.origin.x,
            y: self.origin.y,
            vx: velocity_x(draw) as i64,
            vy: velocity_y(draw) as i64,
            life: self.initial_life as i64,
        }
    }

    /// Says whether the configuration is well formed, and if not, why.
    pub fn validate(&self) -> (outcome: Result<(), SourceError>)
        ensures
            outcome is Ok <==> self.wf(),
            outcome == match self.defect() {
                Some(error) => Err::<(), SourceError>(error),
                None => Ok(()),
            },
    {
        if self.half_spread < 0 || self.half_spread > HALF_TURN {
            return Err(SourceError::Spread);
        }
        if self.facing < i64::MIN + self.half_spread || self.facing > i64::MAX - self.half_spread {
            return Err(SourceError::Facing);
        }
        if self.min_speed < 0 || self.min_speed > self.max_speed {
            return Err(SourceError::Speed);
        }
        assert(0 <= (self.initial_life + 1) * self.max_speed <= 0x1_0000_0000
            * 0x8000_0000_0000_0000) by (nonlinear_arith)
            requires
                0 <= self.initial_life + 1 <= 0x1_0000_0000,
                0 <= self.max_speed <= 0x8000_0000_0000_0000,
        ;
        let reach: i128 = (self.initial_life as i128 + 1) * self.max_speed as i128;
        let least = i64::MIN as i128 + reach;
        let most = i64::MAX as i128 - reach;
        let x = self.origin.x as i128;
        let y = self.origin.y as i128;
        if x < least || x > most || y < least || y > most {
            return Err(SourceError::Reach);
        }
        Ok(())
    }

    /// Says whether `draw` lies in the cone and in the speed range.
    pub fn accepts(&self, draw: &Draw) -> (accepted: bool)
        ensures
            accepted == self.admits(*draw),
    {
        let angle = draw.angle as i128;
        let facing = self.facing as i128;
        let half_spread = self.half_spread as i128;
        facing - half_spread <= angle && angle <= facing + half_spread && self.min_speed
            <= draw.speed && draw.speed <= self.max_speed
    }

    /// Starts the particle of a draw.
    pub fn spawn(&self, draw: &Draw) -> (particle: Particle)
        requires
            draw.speed > i64::MIN,
        ensures
            particle == self.spawned(*draw),
            within(particle.vx as int, magnitude(draw.speed as int)),
            within(particle.vy as int, magnitude(draw.speed as int)),
    {
        proof {
            lemma_velocity_bounds(*draw);
            lemma_sine_bounds(draw.angle as int);
        }
        Particle {
            x: self.origin.x,
            y: self.origin.y,
            vx: scale(draw.speed, cos(draw.angle)),
            vy: scale(draw.speed, sin(draw.angle)),
            life: self.initial_life as i64,
        }
    }
}

} // verus!
