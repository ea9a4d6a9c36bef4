//! What holds of every step of every display, whatever was drawn for it.

use vstd::prelude::*;
use crate::burst::{bursts_of, lemma_bursts_are_particles, lemma_bursts_of, particle, ring_point};
use crate::config::Config;
use crate::draws::DrawsView;
use crate::engine::EngineView;
use crate::fixed::{Vec2, Vec3, UNIT};
use crate::launch::launched;
use crate::ring::{is_unit, lemma_stretched_length, radius_slack};
use crate::store::{lemma_advanced, lemma_spawned_all, lemma_spawned_all_found, lemma_swept};

verus! {

/// The time that a rocket has left never grows from one step to the next,
/// and a rocket is gone from the store at the end of the step in which it
/// expires: a rocket that was in the store before a step is found after it
/// under the same id, one step older, unless it has expired, and then
/// nothing is found under its id. An id that led nowhere before the step
/// leads nowhere after it.
pub proof fn law_rockets_run_down_and_leave(
    engine: EngineView,
    raw: u64,
    draws: DrawsView,
    id: u64,
)
    requires
        engine.wf(),
        engine.refusal(raw, draws) is None,
        id < engine.store.next_id,
    ensures
        match engine.store.lookup(id) {
            Some(before) => {
                let after = before.pushed(engine.config.gravity).advanced(
                    engine.dt(raw),
                    engine.config.flight_duration,
                );
                &&& after.time_left(engine.config.flight_duration) <= before.time_left(
                    engine.config.flight_duration,
                )
                &&& engine.stepped(raw, draws).store.lookup(id) == if after.spent(
                    engine.config.flight_duration,
                ) {
                    None
                } else {
                    Some(after)
                }
            },
            None => engine.stepped(raw, draws).store.lookup(id) is None,
        },
{
    let duration = engine.config.flight_duration;
    let moved = engine.moved(raw);
    lemma_advanced(engine.store, engine.config.gravity, engine.dt(raw), duration, id);
    lemma_swept(moved, duration, id);
    lemma_fresh_count(engine, raw, draws);
    lemma_spawned_all_found(moved.swept(duration), engine.fresh(raw, draws), id);
}

/// After a step, no rocket in the store has expired.
pub proof fn law_no_spent_rocket_stays(engine: EngineView, raw: u64, draws: DrawsView, i: int)
    requires
        engine.wf(),
        engine.refusal(raw, draws) is None,
        0 <= i < engine.stepped(raw, draws).store.slots.len(),
    ensures
        !engine.stepped(raw, draws).store.slots[i].rocket.spent(engine.config.flight_duration),
{
    let duration = engine.config.flight_duration;
    let kept = engine.moved(raw).swept(duration);
    lemma_advanced(engine.store, engine.config.gravity, engine.dt(raw), duration, 0);
    lemma_swept(engine.moved(raw), duration, 0);
    if i >= kept.slots.len() {
        let j = i - kept.slots.len();
        let particles = bursts_of(engine.config, engine.ring, engine.bursting(raw), draws.bursts);
        if j < particles.len() {
            lemma_bursts_are_particles(
                engine.config,
                engine.ring,
                engine.bursting(raw),
                draws.bursts,
                j,
            );
        }
    }
}

/// The rockets that a step adds are `burst_count` particles for each shell
/// that expires in it, and one shell more where the launch timer fires.
pub proof fn lemma_fresh_count(engine: EngineView, raw: u64, draws: DrawsView)
    requires
        engine.wf(),
        engine.refusal(raw, draws) is None,
    ensures
        engine.fresh(raw, draws).len() == engine.fresh_count(raw),
        engine.moved(raw).swept(engine.config.flight_duration).wf(),
        engine.stepped(raw, draws).store.wf(),
        engine.stepped(raw, draws).store.next_id == engine.store.next_id + engine.fresh_count(raw),
{
    let duration = engine.config.flight_duration;
    lemma_bursts_of(engine.config, engine.ring, engine.bursting(raw), draws.bursts, 0, 0);
    lemma_advanced(engine.store, engine.config.gravity, engine.dt(raw), duration, 0);
    lemma_swept(engine.moved(raw), duration, 0);
    lemma_spawned_all(engine.moved(raw).swept(duration), engine.fresh(raw, draws));
}

/// A shell that expires leaves exactly `burst_count` particles, each where
/// the shell was when it expired: particle `i` of the burst of the `k`-th
/// expiring shell is found in the store after the step, under the id that
/// lies `k * burst_count + i` above the first id that the step gave out.
pub proof fn law_shell_leaves_its_burst(
    engine: EngineView,
    raw: u64,
    draws: DrawsView,
    k: int,
    i: int,
)
    requires
        engine.wf(),
        engine.refusal(raw, draws) is None,
        0 <= k < engine.bursting(raw).len(),
        0 <= i < engine.config.burst_count,
    ensures
        engine.store.next_id + k * engine.config.burst_count + i < engine.store.next_id
            + engine.fresh_count(raw) <= u64::MAX,
        engine.stepped(raw, draws).store.lookup(
            (engine.store.next_id + k * engine.config.burst_count + i) as u64,
        ) == Some(
            particle(
                engine.config,
                engine.ring,
                engine.bursting(raw)[k].rocket.position,
                draws.bursts[k],
                i,
            ),
        ),
        particle(
            engine.config,
            engine.ring,
            engine.bursting(raw)[k].rocket.position,
            draws.bursts[k],
            i,
        ).position == engine.bursting(raw)[k].rocket.position,
        !particle(
            engine.config,
            engine.ring,
            engine.bursting(raw)[k].rocket.position,
            draws.bursts[k],
            i,
        ).is_shell,
{
    let duration = engine.config.flight_duration;
    let id = (engine.store.next_id + k * engine.config.burst_count + i) as u64;
    lemma_fresh_count(engine, raw, draws);
    lemma_bursts_of(engine.config, engine.ring, engine.bursting(raw), draws.bursts, k, i);
    lemma_spawned_all_found(engine.moved(raw).swept(duration), engine.fresh(raw, draws), id);
}

/// A rocket that expires and is no shell leaves nothing: where no shell
/// expires in a step, the step adds no particle.
pub proof fn law_dud_leaves_nothing(engine: EngineView, raw: u64, draws: DrawsView)
    requires
        engine.wf(),
        engine.refusal(raw, draws) is None,
        forall|j: int|
            0 <= j < engine.expiring(raw).len() ==> !(#[trigger] engine.expiring(raw)[j]).rocket.is_shell,
    ensures
        engine.bursting(raw).len() == 0,
        engine.fresh(raw, draws).len() == if engine.fires(raw) {
            1int
        } else {
            0int
        },
        forall|j: int|
            0 <= j < engine.fresh(raw, draws).len() ==> (#[trigger] engine.fresh(raw, draws)[j]).is_shell,
{
    engine.expiring(raw).lemma_all_neg_filter_empty(|s: crate::store::Slot| s.rocket.is_shell);
    lemma_fresh_count(engine, raw, draws);
    assert(engine.bursting(raw).len() * engine.config.burst_count == 0) by (nonlinear_arith)
        requires
            engine.bursting(raw).len() == 0,
    ;
}

/// A step launches one shell at most, however much time has passed. Where
/// the launch timer fires, the last rocket that the step adds is the shell
/// of the launch, and the timer counts down again from an interval of the
/// configured ones; where it does not, the step adds no shell and the timer
/// has lost the length of the step. Every other rocket that a step adds is
/// a particle.
pub proof fn law_one_launch_at_most(engine: EngineView, raw: u64, draws: DrawsView)
    requires
        engine.wf(),
        engine.refusal(raw, draws) is None,
    ensures
        engine.dt(raw) <= engine.config.max_delta,
        forall|j: int|
            0 <= j < engine.bursting(raw).len() * engine.config.burst_count ==> !(
            #[trigger] engine.fresh(raw, draws)[j]).is_shell,
        engine.fires(raw) ==> {
            &&& draws.launch is Some
            &&& engine.fresh(raw, draws).len() == engine.bursting(raw).len()
                * engine.config.burst_count + 1
            &&& engine.fresh(raw, draws).last() == launched(engine.config, draws.launch->0)
            &&& engine.fresh(raw, draws).last().is_shell
            &&& engine.stepped(raw, draws).timer.interval == (draws.launch->0).interval
            &&& engine.config.rearm.contains(engine.stepped(raw, draws).timer.interval)
        },
        !engine.fires(raw) ==> {
            &&& engine.fresh(raw, draws).len() == engine.bursting(raw).len()
                * engine.config.burst_count
            &&& engine.stepped(raw, draws).timer.interval == engine.timer.interval - engine.dt(raw)
            &&& engine.stepped(raw, draws).timer.interval > 0
        },
{
    lemma_fresh_count(engine, raw, draws);
    lemma_bursts_of(engine.config, engine.ring, engine.bursting(raw), draws.bursts, 0, 0);
    assert forall|j: int|
        0 <= j < engine.bursting(raw).len() * engine.config.burst_count implies !(
    #[trigger] engine.fresh(raw, draws)[j]).is_shell by {
        lemma_bursts_are_particles(
            engine.config,
            engine.ring,
            engine.bursting(raw),
            draws.bursts,
            j,
        );
    }
}

/// Every point of a ring lies at the radius of the ring from its center, as
/// nearly as rounding allows, and in the plane of the center: the square of
/// its distance misses the square of the radius by no more than
/// `radius_slack` allows. This holds of every point that is not cut off at
/// the ends of the range of coordinates.
pub proof fn law_ring_points_lie_at_the_radius(config: Config, center: Vec3, towards: Vec2)
    requires
        config.burst_radius >= 0,
        is_unit(towards),
        ring_point(config, center, towards).x == center.x + towards.x * config.burst_radius / (
        UNIT as int),
        ring_point(config, center, towards).y == center.y + towards.y * config.burst_radius / (
        UNIT as int),
    ensures
        ({
            let point = ring_point(config, center, towards);
            let dx = point.x - center.x;
            let dy = point.y - center.y;
            let r = config.burst_radius as int;
            &&& point.z == center.z
            &&& -radius_slack(r) <= UNIT * UNIT * (dx * dx + dy * dy) - UNIT * UNIT * (r * r)
                <= radius_slack(r)
        }),
{
    lemma_stretched_length(towards.x as int, towards.y as int, config.burst_radius as int);
}

} // verus!
