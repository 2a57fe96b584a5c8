//! The random draws of a spray, taken from the thread's generator.

use vstd::prelude::*;
use rand::Rng;
use rand::rngs::ThreadRng;
use crate::particle::Draw;
use crate::particle::SpraySource;

verus! {

/// `rand::rngs::ThreadRng`, the handle to the generator of the thread.
#[verifier::external_type_specification]
#[verifier::external_body]
pub struct ExThreadRng(rand::rngs::ThreadRng);

/// `rand::thread_rng` hands out the handle. Nothing is claimed of it.
pub assume_specification[ rand::thread_rng ]() -> (rng: ThreadRng);

/// `Rng::gen_range` over `low..=high`: the number drawn lies in the range,
/// ends included. The call panics on an empty range, so the bounds must be
/// in order. Which number comes is not said.
#[verifier::external_body]
fn uniform(rng: &mut ThreadRng, low: i64, high: i64) -> (drawn: i64)
    requires
        low <= high,
    ensures
        low <= drawn <= high,
{
    rng.gen_range(low..=high)
}

impl SpraySource {
    /// Draws an angle from the cone and a speed from the speed range.
    pub fn draw(&self, rng: &mut ThreadRng) -> (draw: Draw)
        requires
            self.wf(),
        ensures
            self.admits(draw),
    {
        let angle = uniform(rng, self.facing - self.half_spread, self.facing + self.half_spread);
        let speed = uniform(rng, self.min_speed, self.max_speed);
        Draw { angle, speed }
    }

    /// Draws for one tick: as many draws as the spawn rate asks for.
    pub fn draw_batch(&self, rng: &mut ThreadRng) -> (draws: Vec<Draw>)
        requires
            self.wf(),
        ensures
            draws.len() == self.spawn_rate,
            forall|i: int| 0 <= i < draws.len() ==> self.admits(#[trigger] draws[i]),
    {
        let mut draws: Vec<Draw> = Vec::new();
        let mut count: usize = 0;
        while count < self.spawn_rate
            invariant
                self.wf(),
                count <= self.spawn_rate,
                draws.len() == count,
                forall|i: int| 0 <= i < draws.len() ==> self.admits(#[trigger] draws[i]),
            decreases self.spawn_rate - count,
        {
            let draw = self.draw(rng);
            draws.push(draw);
            count = count + 1;
        }
        draws
    }
}

} // verus!
