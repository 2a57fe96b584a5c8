//! What a record of draws determines: the live set after any number of
//! ticks, in closed form.

use vstd::prelude::*;
use crate::particle::Draw;
use crate::particle::Particle;
use crate::particle::SpraySource;
use crate::particle::lemma_velocity_bounds;
use crate::particle::velocity_x;
use crate::particle::velocity_y;
use crate::simulator::advanced_all;
use crate::simulator::alive;
use crate::simulator::all_admitted;
use crate::simulator::births;
use crate::simulator::stepped;
use crate::simulator::survivors;

verus! {

/// The live set after one tick for each batch of draws in `record`, from
/// an empty start.
pub open spec fn run(source: SpraySource, record: Seq<Seq<Draw>>) -> Seq<Particle>
    decreases record.len(),
{
    if record.len() == 0 {
        Seq::empty()
    } else {
        stepped(source, run(source, record.drop_last()), record.last())
    }
}

/// The particle of `draw` after `age` ticks of straight flight: displaced
/// from the origin by `age` times its velocity, with `age` ticks of its
/// life used up.
pub open spec fn flight(source: SpraySource, draw: Draw, age: int) -> Particle {
    Particle {
        x: (source.origin.x + age * velocity_x(draw)) as i64,
        y: (source.origin.y + age * velocity_y(draw)) as i64,
        vx: velocity_x(draw) as i64,
        vy: velocity_y(draw) as i64,
        life: (source.initial_life - age) as i64,
    }
}

/// The particles of one batch of draws, `age` ticks after it was spawned:
/// all of them in flight while life is left, none after.
pub open spec fn batch_at(source: SpraySource, draws: Seq<Draw>, age: int) -> Seq<Particle> {
    if age < source.initial_life {
        Seq::new(draws.len(), |i: int| flight(source, draws[i], age))
    } else {
        Seq::empty()
    }
}

/// The batches of `record` at tick `now`, oldest first, where the batch
/// spawned in the tick after `t` others is `now - t` ticks old.
pub open spec fn fleet(source: SpraySource, record: Seq<Seq<Draw>>, now: int) -> Seq<Particle>
    decreases record.len(),
{
    if record.len() == 0 {
        Seq::empty()
    } else {
        fleet(source, record.drop_last(), now) + batch_at(
            source,
            record.last(),
            now - (record.len() - 1),
        )
    }
}

/// Every batch of the record lies in the cone and in the speed range.
pub open spec fn record_admitted(source: SpraySource, record: Seq<Seq<Draw>>) -> bool {
    forall|t: int| 0 <= t < record.len() ==> all_admitted(source, #[trigger] record[t])
}

/// Every batch of the record has as many draws as the spawn rate asks for.
pub open spec fn record_at_rate(source: SpraySource, record: Seq<Seq<Draw>>) -> bool {
    forall|t: int| 0 <= t < record.len() ==> (#[trigger] record[t]).len() == source.spawn_rate
}

/// Compaction keeps a set in which every particle is alive as it is.
proof fn lemma_survivors_all(particles: Seq<Particle>)
    requires
        forall|i: int| 0 <= i < particles.len() ==> (#[trigger] particles[i]).alive(),
    ensures
        survivors(particles) == particles,
    decreases particles.len(),
{
    reveal(Seq::filter);
    if particles.len() > 0 {
        lemma_survivors_all(particles.drop_last());
        assert(particles.drop_last().push(particles.last()) =~= particles);
    }
}

/// Compaction empties a set in which no particle is alive.
proof fn lemma_survivors_none(particles: Seq<Particle>)
    requires
        forall|i: int| 0 <= i < particles.len() ==> !(#[trigger] particles[i]).alive(),
    ensures
        survivors(particles) == Seq::<Particle>::empty(),
    decreases particles.len(),
{
    reveal(Seq::filter);
    if particles.len() > 0 {
        lemma_survivors_none(particles.drop_last());
    }
}

/// Advancing two sets one after the other advances them joined.
proof fn lemma_advanced_all_add(front: Seq<Particle>, back: Seq<Particle>)
    ensures
        advanced_all(front + back) == advanced_all(front) + advanced_all(back),
{
    assert(advanced_all(front + back) =~= advanced_all(front) + advanced_all(back));
}

/// One more tick of straight flight is one tick of the simulator.
proof fn lemma_flight_advances(source: SpraySource, draw: Draw, age: int)
    requires
        source.wf(),
        source.admits(draw),
        0 <= age <= source.initial_life,
    ensures
        flight(source, draw, age).advanced() == flight(source, draw, age + 1),
        age == 0 ==> flight(source, draw, age) == source.spawned(draw),
{
    lemma_velocity_bounds(draw);
    let top = source.max_speed as int;
    let reach = source.reach();
    let vx = velocity_x(draw);
    let vy = velocity_y(draw);
    assert(-top <= vx <= top && -top <= vy <= top);
    assert(-reach <= age * vx <= reach && -reach <= (age + 1) * vx <= reach && (age + 1) * vx
        == age * vx + vx) by (nonlinear_arith)
        requires
            0 <= age <= source.initial_life,
            -top <= vx <= top,
            reach == (source.initial_life + 1) * top,
    ;
    assert(-reach <= age * vy <= reach && -reach <= (age + 1) * vy <= reach && (age + 1) * vy
        == age * vy + vy) by (nonlinear_arith)
        requires
            0 <= age <= source.initial_life,
            -top <= vy <= top,
            reach == (source.initial_life + 1) * top,
    ;
    if age == 0 {
        assert(age * vx == 0 && age * vy == 0) by (nonlinear_arith)
            requires
                age == 0,
        ;
    }
}

/// A tick turns a batch of a given age into the batch one tick older.
proof fn lemma_batch_ages(source: SpraySource, draws: Seq<Draw>, age: int)
    requires
        source.wf(),
        all_admitted(source, draws),
        0 <= age,
    ensures
        survivors(advanced_all(batch_at(source, draws, age))) == batch_at(source, draws, age + 1),
        survivors(advanced_all(births(source, draws))) == batch_at(source, draws, 1),
{
    let older = Seq::new(draws.len(), |i: int| flight(source, draws[i], age + 1));
    if age < source.initial_life {
        let moved = advanced_all(batch_at(source, draws, age));
        assert forall|i: int| 0 <= i < draws.len() implies moved[i] == older[i] by {
            lemma_flight_advances(source, draws[i], age);
        }
        assert(moved =~= older);
        if age + 1 < source.initial_life {
            lemma_survivors_all(older);
        } else {
            lemma_survivors_none(older);
        }
    } else {
        assert(advanced_all(batch_at(source, draws, age)) =~= Seq::<Particle>::empty());
        lemma_survivors_none(Seq::<Particle>::empty());
    }
    let first = Seq::new(draws.len(), |i: int| flight(source, draws[i], 1));
    let moved = advanced_all(births(source, draws));
    assert forall|i: int| 0 <= i < draws.len() implies moved[i] == first[i] by {
        lemma_flight_advances(source, draws[i], 0);
    }
    assert(moved =~= first);
    if 1 < source.initial_life {
        lemma_survivors_all(first);
    } else {
        lemma_survivors_none(first);
    }
}

/// A tick turns the fleet at one time into the fleet one tick later.
proof fn lemma_fleet_ages(source: SpraySource, record: Seq<Seq<Draw>>, now: int)
    requires
        source.wf(),
        record_admitted(source, record),
        record.len() <= now,
    ensures
        survivors(advanced_all(fleet(source, record, now))) == fleet(source, record, now + 1),
    decreases record.len(),
{
    if record.len() == 0 {
        assert(advanced_all(Seq::<Particle>::empty()) =~= Seq::<Particle>::empty());
        lemma_survivors_none(Seq::<Particle>::empty());
    } else {
        let rest = record.drop_last();
        let age = now - (record.len() - 1);
        assert forall|t: int| 0 <= t < rest.len() implies all_admitted(
            source,
            #[trigger] rest[t],
        ) by {
            assert(rest[t] == record[t]);
        }
        lemma_fleet_ages(source, rest, now);
        lemma_batch_ages(source, record.last(), age);
        lemma_advanced_all_add(fleet(source, rest, now), batch_at(source, record.last(), age));
        Seq::filter_distributes_over_add(
            advanced_all(fleet(source, rest, now)),
            advanced_all(batch_at(source, record.last(), age)),
            alive(),
        );
    }
}

/// Replaying a record of draws reproduces the live set exactly: after the
/// ticks of the record it is the fleet of the record, in which every
/// particle that has life left stands where its draw and its age put it.
pub proof fn lemma_run_is_fleet(source: SpraySource, record: Seq<Seq<Draw>>)
    requires
        source.wf(),
        record_admitted(source, record),
    ensures
        run(source, record) == fleet(source, record, record.len() as int),
    decreases record.len(),
{
    if record.len() > 0 {
        let rest = record.drop_last();
        let flown = fleet(source, rest, rest.len() as int);
        assert forall|t: int| 0 <= t < rest.len() implies all_admitted(
            source,
            #[trigger] rest[t],
        ) by {
            assert(rest[t] == record[t]);
        }
        lemma_run_is_fleet(source, rest);
        lemma_fleet_ages(source, rest, rest.len() as int);
        lemma_batch_ages(source, record.last(), 0);
        lemma_advanced_all_add(flown, births(source, record.last()));
        Seq::filter_distributes_over_add(
            advanced_all(flown),
            advanced_all(births(source, record.last())),
            alive(),
        );
    }
}

/// How many of the first `count` batches still fly at tick `now`: those
/// spawned less than the initial life ago.
pub open spec fn batches_aloft(source: SpraySource, count: int, now: int) -> int {
    let expired = now - source.initial_life + 1;
    if expired <= 0 {
        count
    } else if expired >= count {
        0
    } else {
        count - expired
    }
}

/// The fleet holds one particle for each draw of each batch that still flies.
pub proof fn lemma_fleet_len(source: SpraySource, record: Seq<Seq<Draw>>, now: int)
    requires
        record_at_rate(source, record),
    ensures
        fleet(source, record, now).len() == batches_aloft(source, record.len() as int, now)
            * source.spawn_rate,
    decreases record.len(),
{
    let rate = source.spawn_rate as int;
    if record.len() == 0 {
        assert(0 * rate == 0);
    } else {
        let rest = record.drop_last();
        assert forall|t: int| 0 <= t < rest.len() implies (#[trigger] rest[t]).len() == rate by {
            assert(rest[t] == record[t]);
        }
        lemma_fleet_len(source, rest, now);
        let before = batches_aloft(source, rest.len() as int, now);
        let after = batches_aloft(source, record.len() as int, now);
        assert(record.last() == record[record.len() - 1]);
        if now - (record.len() - 1) < source.initial_life {
            assert(after == before + 1);
            assert((before + 1) * rate == before * rate + rate) by (nonlinear_arith);
        } else {
            assert(after == before);
        }
    }
}

/// While no particle has used up its life, the live set grows by the spawn
/// rate with every tick: after `n` ticks, with `n` less than the initial
/// life, it holds `n` times the spawn rate.
pub proof fn lemma_spawn_count(source: SpraySource, record: Seq<Seq<Draw>>)
    requires
        source.wf(),
        record_admitted(source, record),
        record_at_rate(source, record),
        record.len() < source.initial_life,
    ensures
        run(source, record).len() == record.len() * source.spawn_rate,
{
    lemma_run_is_fleet(source, record);
    lemma_fleet_len(source, record, record.len() as int);
}

/// Once spawning and expiry balance, the live set between ticks holds one
/// batch for each tick of a life but the last.
pub proof fn lemma_steady_count(source: SpraySource, record: Seq<Seq<Draw>>)
    requires
        source.wf(),
        record_admitted(source, record),
        record_at_rate(source, record),
        1 <= source.initial_life <= record.len() + 1,
    ensures
        run(source, record).len() == (source.initial_life - 1) * source.spawn_rate,
{
    lemma_run_is_fleet(source, record);
    lemma_fleet_len(source, record, record.len() as int);
}

} // verus!
