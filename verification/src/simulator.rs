//! The particle spray simulator: the steps of a tick, and the state machine
//! that owns the live particles.

use vstd::prelude::*;
use crate::angle::FULL_TURN;
use crate::fixed::fraction;
use crate::fixed::ratio;
use crate::fixed::within;
use crate::particle::Draw;
use crate::particle::Particle;
use crate::particle::SourceError;
use crate::particle::SpraySource;
use crate::particle::lemma_velocity_bounds;
use crate::surface::Color;
use crate::surface::Shape;
use crate::surface::Surface;

verus! {

/// The test that compaction applies: a particle stays while it is alive.
pub open spec fn alive() -> spec_fn(Particle) -> bool {
    |particle: Particle| particle.alive()
}

/// The particles that a batch of draws starts, in the order of the draws.
pub open spec fn births(source: SpraySource, draws: Seq<Draw>) -> Seq<Particle> {
    Seq::new(draws.len(), |i: int| source.spawned(draws[i]))
}

/// Every particle one tick later.
pub open spec fn advanced_all(particles: Seq<Particle>) -> Seq<Particle> {
    Seq::new(particles.len(), |i: int| particles[i].advanced())
}

/// The particles that compaction keeps, in their order.
pub open spec fn survivors(particles: Seq<Particle>) -> Seq<Particle> {
    particles.filter(alive())
}

/// The live set after one tick: the batch is spawned, every particle is
/// advanced, and the dead are removed.
pub open spec fn stepped(
    source: SpraySource,
    particles: Seq<Particle>,
    draws: Seq<Draw>,
) -> Seq<Particle> {
    survivors(advanced_all(particles + births(source, draws)))
}

/// How much of its look a particle has left: its life as a fraction of the
/// life it started with.
pub open spec fn fade(particle: Particle, initial_life: u32) -> int {
    ratio(particle.life as int, initial_life as int)
}

/// The disc that shows a live particle: red, at the particle's position,
/// two pixels in radius at full life, shrinking and fading with the life.
pub open spec fn sprite(particle: Particle, initial_life: u32) -> Shape {
    Shape::FillArc {
        cx: particle.x,
        cy: particle.y,
        radius: (2 * fade(particle, initial_life)) as i64,
        start_angle: 0,
        end_angle: FULL_TURN,
        color: Color { red: 255, green: 0, blue: 0, alpha: fade(particle, initial_life) as i64 },
    }
}

/// The discs of the particles that are alive, in their order.
pub open spec fn sprites(particles: Seq<Particle>, initial_life: u32) -> Seq<Shape> {
    Seq::new(
        survivors(particles).len(),
        |i: int| sprite(survivors(particles)[i], initial_life),
    )
}

/// Compacting what is already compact changes nothing.
pub proof fn lemma_survivors_idempotent(particles: Seq<Particle>)
    ensures
        survivors(survivors(particles)) == survivors(particles),
    decreases particles.len(),
{
    reveal(Seq::filter);
    if particles.len() > 0 {
        let rest = particles.drop_last();
        let last = particles.last();
        lemma_survivors_idempotent(rest);
        if last.alive() {
            survivors(rest).lemma_filter_push(last, alive());
        }
    }
}

/// The test for outlasting one more tick: more than one tick of life left.
pub open spec fn lasting() -> spec_fn(Particle) -> bool {
    |particle: Particle| particle.life > 1
}

/// Advancing takes exactly one tick of life from every particle, so the
/// particles that a tick keeps are those that had more than one tick left,
/// each advanced once; and all that it keeps are alive.
pub proof fn lemma_tick_takes_one(particles: Seq<Particle>)
    requires
        forall|i: int| 0 <= i < particles.len() ==> (#[trigger] particles[i]).life > i64::MIN,
    ensures
        forall|i: int|
            0 <= i < particles.len() ==> (#[trigger] advanced_all(particles)[i]).life
                == particles[i].life - 1,
        survivors(advanced_all(particles)) == advanced_all(particles.filter(lasting())),
        forall|i: int|
            0 <= i < survivors(advanced_all(particles)).len() ==> (#[trigger] survivors(
                advanced_all(particles),
            )[i]).alive(),
    decreases particles.len(),
{
    reveal(Seq::filter);
    if particles.len() > 0 {
        let rest = particles.drop_last();
        let last = particles.last();
        lemma_tick_takes_one(rest);
        assert(advanced_all(particles).drop_last() =~= advanced_all(rest));
        assert(advanced_all(particles).last() == last.advanced());
        if last.life > 1 {
            assert(advanced_all(rest.filter(lasting()).push(last)) =~= advanced_all(
                rest.filter(lasting()),
            ).push(last.advanced()));
        }
    } else {
        assert(advanced_all(particles) =~= particles);
    }
    assert forall|i: int| 0 <= i < survivors(advanced_all(particles)).len() implies (
    #[trigger] survivors(advanced_all(particles))[i]).alive() by {
        advanced_all(particles).lemma_filter_pred(alive(), i);
    }
}

/// Spawn step: appends the particle of each draw.
pub fn spawn_all(source: &SpraySource, particles: &mut Vec<Particle>, draws: &Vec<Draw>)
    requires
        forall|i: int| 0 <= i < draws.len() ==> (#[trigger] draws[i]).speed > i64::MIN,
    ensures
        final(particles)@ == old(particles)@ + births(*source, draws@),
{
    let ghost before = particles@;
    let mut count: usize = 0;
    while count < draws.len()
        invariant
            count <= draws.len(),
            forall|i: int| 0 <= i < draws.len() ==> (#[trigger] draws[i]).speed > i64::MIN,
            particles@ == before + births(*source, draws@).take(count as int),
        decreases draws.len() - count,
    {
        let particle = source.spawn(&draws[count]);
        particles.push(particle);
        count = count + 1;
        assert(particles@ =~= before + births(*source, draws@).take(count as int));
    }
    assert(births(*source, draws@).take(count as int) =~= births(*source, draws@));
}

/// Advance step: moves every particle by its velocity and takes one tick
/// off its life.
pub fn advance_all(particles: &mut Vec<Particle>)
    requires
        forall|i: int| 0 <= i < old(particles).len() ==> (#[trigger] old(particles)[i]).movable(),
    ensures
        final(particles)@ == advanced_all(old(particles)@),
{
    let ghost before = particles@;
    let mut index: usize = 0;
    while index < particles.len()
        invariant
            index <= particles.len(),
            particles.len() == before.len(),
            forall|i: int| 0 <= i < before.len() ==> (#[trigger] before[i]).movable(),
            forall|i: int| 0 <= i < index ==> particles[i] == (#[trigger] before[i]).advanced(),
            forall|i: int| index <= i < before.len() ==> particles[i] == before[i],
        decreases particles.len() - index,
    {
        let mut particle = particles[index];
        assert(particle == before[index as int]);
        particle.advance();
        particles.set(index, particle);
        index = index + 1;
    }
    assert(particles@ =~= advanced_all(before));
}

/// Render step: draws the disc of every particle that is alive.
pub fn render(particles: &Vec<Particle>, initial_life: u32, surface: &mut Surface)
    requires
        forall|i: int| 0 <= i < particles.len() ==> (#[trigger] particles[i]).life <= initial_life,
    ensures
        final(surface)@ == old(surface)@.drawn_all(sprites(particles@, initial_life)),
{
    let ghost blank = surface@;
    let mut index: usize = 0;
    assert(particles@.take(0) =~= Seq::empty());
    assert(survivors(particles@.take(0)) =~= Seq::empty()) by {
        reveal(Seq::filter);
    }
    assert(surface@.shapes =~= blank.shapes + sprites(particles@.take(0), initial_life));
    while index < particles.len()
        invariant
            index <= particles.len(),
            forall|i: int|
                0 <= i < particles.len() ==> (#[trigger] particles[i]).life <= initial_life,
            surface@ == blank.drawn_all(sprites(particles@.take(index as int), initial_life)),
        decreases particles.len() - index,
    {
        let particle = particles[index];
        let ghost seen = particles@.take(index as int);
        proof {
            particles@.lemma_take_succ_push(index as int);
            seen.lemma_filter_push(particle, alive());
        }
        if particle.is_alive() {
            let fade = fraction(particle.life, initial_life);
            surface.fill_arc(
                particle.x,
                particle.y,
                2 * fade,
                0,
                FULL_TURN,
                Color { red: 255, green: 0, blue: 0, alpha: fade },
            );
            assert(sprites(seen.push(particle), initial_life) =~= sprites(seen, initial_life).push(
                sprite(particle, initial_life),
            ));
            assert(surface@.shapes =~= blank.shapes + sprites(seen.push(particle), initial_life));
        }
        index = index + 1;
    }
    assert(particles@.take(index as int) =~= particles@);
}

/// Compaction step: removes every particle that has no life left and keeps
/// the others in their order.
pub fn compact(particles: &mut Vec<Particle>)
    ensures
        final(particles)@ == survivors(old(particles)@),
        forall|i: int| 0 <= i < final(particles).len() ==> (#[trigger] final(particles)[i]).alive(),
{
    let mut kept: Vec<Particle> = Vec::new();
    let mut index: usize = 0;
    assert(particles@.take(0) =~= Seq::empty());
    assert(survivors(particles@.take(0)) =~= Seq::empty()) by {
        reveal(Seq::filter);
    }
    while index < particles.len()
        invariant
            index <= particles.len(),
            kept@ == survivors(particles@.take(index as int)),
            forall|i: int| 0 <= i < kept.len() ==> (#[trigger] kept[i]).alive(),
        decreases particles.len() - index,
    {
        let particle = particles[index];
        proof {
            particles@.lemma_take_succ_push(index as int);
            particles@.take(index as int).lemma_filter_push(particle, alive());
        }
        if particle.is_alive() {
            kept.push(particle);
        }
        index = index + 1;
    }
    assert(particles@.take(index as int) =~= particles@);
    *particles = kept;
}

/// Whether the simulator has been started.
#[derive(Clone, Copy, Debug, PartialEq, Eq, Structural)]
pub enum Phase {
    /// Not started: there are no particles.
    Idle,
    /// Spawning, advancing and rendering on every tick.
    Running,
}

/// Why a tick was refused.
#[derive(Clone, Copy, Debug, PartialEq, Eq, Structural)]
pub enum StepError {
    /// The simulator has not been started.
    NotRunning,
    /// The number of draws differs from the spawn rate.
    DrawCount,
    /// The draw at `index` is the first outside the cone or the speed range.
    DrawRejected { index: usize },
}

/// Every draw lies in the cone and in the speed range of the source.
pub open spec fn all_admitted(source: SpraySource, draws: Seq<Draw>) -> bool {
    forall|i: int| 0 <= i < draws.len() ==> source.admits(#[trigger] draws[i])
}

/// The draw at `index` is the first that the source does not admit.
pub open spec fn first_rejected(source: SpraySource, draws: Seq<Draw>, index: int) -> bool {
    &&& 0 <= index < draws.len()
    &&& !source.admits(draws[index])
    &&& all_admitted(source, draws.take(index))
}

/// A particle of the source on its straight course: it has flown for the
/// life it has used up, at a velocity within the speed range.
pub open spec fn on_course(source: SpraySource, particle: Particle) -> bool {
    &&& -1 <= particle.life <= source.initial_life
    &&& within(particle.vx as int, source.max_speed as int)
    &&& within(particle.vy as int, source.max_speed as int)
    &&& particle.x == source.origin.x + (source.initial_life - particle.life) * particle.vx
    &&& particle.y == source.origin.y + (source.initial_life - particle.life) * particle.vy
}

/// The simulator as a value.
pub struct SimulatorView {
    pub source: SpraySource,
    pub phase: Phase,
    pub particles: Seq<Particle>,
}

impl SimulatorView {
    /// The source is well formed, an idle simulator has no particles, and
    /// every live particle is alive and on its course.
    pub open spec fn wf(self) -> bool {
        &&& self.source.wf()
        &&& self.phase is Idle ==> self.particles.len() == 0
        &&& forall|i: int|
            0 <= i < self.particles.len() ==> (#[trigger] self.particles[i]).alive() && on_course(
                self.source,
                self.particles[i],
            )
    }

    /// What stands in the way of a tick with these draws, if anything does.
    pub open spec fn refusal(self, draws: Seq<Draw>, error: StepError) -> bool {
        match error {
            StepError::NotRunning => self.phase is Idle,
            StepError::DrawCount => self.phase is Running && draws.len() != self.source.spawn_rate,
            StepError::DrawRejected { index } => {
                &&& self.phase is Running
                &&& draws.len() == self.source.spawn_rate
                &&& first_rejected(self.source, draws, index as int)
            },
        }
    }

    /// A tick with these draws goes ahead.
    pub open spec fn accepts(self, draws: Seq<Draw>) -> bool {
        &&& self.phase is Running
        &&& draws.len() == self.source.spawn_rate
        &&& all_admitted(self.source, draws)
    }

    /// The simulator after a tick with these draws.
    pub open spec fn stepped(self, draws: Seq<Draw>) -> SimulatorView {
        SimulatorView {
            source: self.source,
            phase: self.phase,
            particles: stepped(self.source, self.particles, draws),
        }
    }
}

/// A tick goes ahead or is refused, never both.
pub proof fn lemma_accepted_not_refused(simulator: SimulatorView, draws: Seq<Draw>, error: StepError)
    requires
        simulator.accepts(draws),
    ensures
        !simulator.refusal(draws, error),
{
    if let StepError::DrawRejected { index } = error {
        if first_rejected(simulator.source, draws, index as int) {
            assert(simulator.source.admits(draws[index as int]));
        }
    }
}

/// The particle spray simulator. It owns the live particles.
pub struct Simulator {
    source: SpraySource,
    phase: Phase,
    particles: Vec<Particle>,
}

impl View for Simulator {
    type V = SimulatorView;

    closed spec fn view(&self) -> SimulatorView {
        SimulatorView { source: self.source, phase: self.phase, particles: self.particles@ }
    }
}

/// A tick keeps a well-formed simulator well formed, and on the way every
/// particle can be advanced and none has more life than it started with.
pub proof fn lemma_stepped_wf(simulator: SimulatorView, draws: Seq<Draw>)
    requires
        simulator.wf(),
        simulator.accepts(draws),
    ensures
        simulator.stepped(draws).wf(),
        forall|i: int|
            0 <= i < (simulator.particles + births(simulator.source, draws)).len() ==> (
            #[trigger] (simulator.particles + births(simulator.source, draws))[i]).movable(),
        forall|i: int|
            0 <= i < advanced_all(simulator.particles + births(simulator.source, draws)).len()
                ==> (#[trigger] advanced_all(
                simulator.particles + births(simulator.source, draws),
            )[i]).life <= simulator.source.initial_life,
{
    let source = simulator.source;
    let crowd = simulator.particles + births(source, draws);
    let moved = advanced_all(crowd);
    assert forall|i: int| 0 <= i < crowd.len() implies (#[trigger] crowd[i]).movable() && on_course(
        source,
        crowd[i].advanced(),
    ) by {
        let particle = crowd[i];
        if i < simulator.particles.len() {
            assert(particle == simulator.particles[i]);
        } else {
            let draw = draws[i - simulator.particles.len()];
            assert(particle == source.spawned(draw));
            assert(source.admits(draw));
            lemma_velocity_bounds(draw);
            assert((source.initial_life - particle.life) * particle.vx == 0) by (nonlinear_arith)
                requires
                    source.initial_life - particle.life == 0,
            ;
            assert((source.initial_life - particle.life) * particle.vy == 0) by (nonlinear_arith)
                requires
                    source.initial_life - particle.life == 0,
            ;
        }
        assert(0 <= particle.life <= source.initial_life);
        assert(on_course(source, particle));
        lemma_course_advances(source, particle);
    }
    assert forall|i: int| 0 <= i < simulator.stepped(draws).particles.len() implies (
    #[trigger] simulator.stepped(draws).particles[i]).alive() && on_course(
        source,
        simulator.stepped(draws).particles[i],
    ) by {
        let particle = simulator.stepped(draws).particles[i];
        moved.lemma_filter_pred(alive(), i);
        assert(survivors(moved).contains(particle));
        moved.lemma_filter_contains_rev(alive(), particle);
        let j = choose|j: int| 0 <= j < moved.len() && moved[j] == particle;
        assert(particle == crowd[j].advanced());
    }
}

/// A particle on its course with life left can take one more tick, and is
/// on its course after it.
pub proof fn lemma_course_advances(source: SpraySource, particle: Particle)
    requires
        source.wf(),
        on_course(source, particle),
        particle.life >= 0,
    ensures
        particle.movable(),
        on_course(source, particle.advanced()),
{
    let age = source.initial_life - particle.life;
    let top = source.max_speed as int;
    let reach = source.reach();
    assert(within((age + 1) * particle.vx, reach) && (age + 1) * particle.vx == age * particle.vx
        + particle.vx) by (nonlinear_arith)
        requires
            0 <= age <= source.initial_life,
            -top <= particle.vx <= top,
            reach == (source.initial_life + 1) * top,
    ;
    assert(within((age + 1) * particle.vy, reach) && (age + 1) * particle.vy == age * particle.vy
        + particle.vy) by (nonlinear_arith)
        requires
            0 <= age <= source.initial_life,
            -top <= particle.vy <= top,
            reach == (source.initial_life + 1) * top,
    ;
}

impl Simulator {
    /// An idle simulator for a well-formed source.
    pub fn new(source: SpraySource) -> (simulator: Simulator)
        requires
            source.wf(),
        ensures
            simulator.wf(),
            simulator@ == (SimulatorView { source, phase: Phase::Idle, particles: Seq::empty() }),
    {
        Simulator { source, phase: Phase::Idle, particles: Vec::new() }
    }

    /// An idle simulator for `source`, or what is wrong with `source`.
    pub fn try_new(source: SpraySource) -> (outcome: Result<Simulator, SourceError>)
        ensures
            match outcome {
                Ok(simulator) => {
                    &&& source.wf()
                    &&& simulator.wf()
                    &&& simulator@ == (SimulatorView {
                        source,
                        phase: Phase::Idle,
                        particles: Seq::empty(),
                    })
                },
                Err(error) => source.defect() == Some(error),
            },
    {
        match source.validate() {
            Ok(()) => Ok(Simulator::new(source)),
            Err(error) => Err(error),
        }
    }

    /// The invariant of the simulator.
    pub open spec fn wf(&self) -> bool {
        self@.wf()
    }

    /// The configuration of the spray.
    pub fn source(&self) -> (source: SpraySource)
        ensures
            source == self@.source,
    {
        self.source
    }

    /// Whether the simulator has been started.
    pub fn phase(&self) -> (phase: Phase)
        ensures
            phase == self@.phase,
    {
        self.phase
    }

    /// The live particles.
    pub fn particles(&self) -> (particles: &Vec<Particle>)
        ensures
            particles@ == self@.particles,
    {
        &self.particles
    }

    /// Starts an idle simulator, and says whether it was idle.
    pub fn start(&mut self) -> (started: bool)
        requires
            old(self).wf(),
        ensures
            final(self).wf(),
            started == (old(self)@.phase is Idle),
            final(self)@ == (SimulatorView { phase: Phase::Running, ..old(self)@ }),
    {
        let started = match self.phase {
            Phase::Idle => true,
            Phase::Running => false,
        };
        self.phase = Phase::Running;
        started
    }

    /// Says whether a tick with these draws would go ahead, and if not, why.
    pub fn check(&self, draws: &Vec<Draw>) -> (outcome: Result<(), StepError>)
        ensures
            match outcome {
                Ok(()) => self@.accepts(draws@),
                Err(error) => self@.refusal(draws@, error),
            },
    {
        match self.phase {
            Phase::Idle => {
                return Err(StepError::NotRunning);
            },
            Phase::Running => {},
        }
        if draws.len() != self.source.spawn_rate {
            return Err(StepError::DrawCount);
        }
        let mut index: usize = 0;
        while index < draws.len()
            invariant
                index <= draws.len(),
                self.phase is Running,
                draws.len() == self.source.spawn_rate,
                all_admitted(self.source, draws@.take(index as int)),
            decreases draws.len() - index,
        {
            if !self.source.accepts(&draws[index]) {
                return Err(StepError::DrawRejected { index });
            }
            index = index + 1;
            assert forall|i: int| 0 <= i < index implies self.source.admits(
                #[trigger] draws@.take(index as int)[i],
            ) by {
                if i < index - 1 {
                    assert(draws@.take(index as int)[i] == draws@.take(index - 1)[i]);
                }
            }
        }
        assert(draws@.take(index as int) =~= draws@);
        Ok(())
    }

    /// One tick with the given draws: spawns their particles, advances
    /// every particle, draws the live ones on `surface` and removes the
    /// dead. A tick that is refused changes nothing.
    pub fn step(&mut self, surface: &mut Surface, draws: &Vec<Draw>) -> (outcome: Result<(), StepError>)
        requires
            old(self).wf(),
        ensures
            final(self).wf(),
            match outcome {
                Ok(()) => {
                    &&& old(self)@.accepts(draws@)
                    &&& final(self)@ == old(self)@.stepped(draws@)
                    &&& final(surface)@ == old(surface)@.drawn_all(
                        sprites(final(self)@.particles, final(self)@.source.initial_life),
                    )
                },
                Err(error) => {
                    &&& old(self)@.refusal(draws@, error)
                    &&& final(self)@ == old(self)@
                    &&& final(surface)@ == old(surface)@
                },
            },
    {
        match self.check(draws) {
            Ok(()) => {},
            Err(error) => {
                return Err(error);
            },
        }
        proof {
            lemma_stepped_wf(self@, draws@);
            lemma_survivors_idempotent(
                advanced_all(self@.particles + births(self@.source, draws@)),
            );
        }
        spawn_all(&self.source, &mut self.particles, draws);
        advance_all(&mut self.particles);
        render(&self.particles, self.source.initial_life, surface);
        compact(&mut self.particles);
        Ok(())
    }
}

} // verus!
