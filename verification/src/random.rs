//! The one source of randomness of a display: every random choice of a step
//! is drawn here, each from the interval that the configuration gives it.

use rand::Rng;
use vstd::prelude::*;
use crate::burst::{within_spread, BurstDraw};
use crate::config::{Config, FlightModel, Span};
use crate::draws::{Demand, Draws};
use crate::fixed::Vec2;
use crate::launch::{Heading, LaunchDraw};

verus! {

/// A number between `low` and `high`, both included.
///
/// Calls `gen_range` of the `rand` crate, on its thread-local generator and
/// with the closed interval from `low` to `high`. Not proved, and taken
/// from the source of `rand`: the call panics on an empty interval and on no
/// other, and what it returns lies in the interval. Which number it returns
/// is left open.
#[verifier::external_body]
fn uniform(low: i64, high: i64) -> (value: i64)
    requires
        low <= high,
    ensures
        low <= value <= high,
{
    rand::thread_rng().gen_range(low..=high)
}

/// A number drawn from `span`.
pub fn draw_from(span: &Span) -> (value: i64)
    requires
        span.inhabited(),
    ensures
        span.contains(value),
{
    uniform(span.low, span.high)
}

/// The random choices of one burst: a material of the material set and, for
/// a scattered burst, a velocity for each particle that exceeds the spread
/// along neither axis.
pub fn draw_burst(config: &Config) -> (draw: BurstDraw)
    requires
        config.valid(),
    ensures
        draw@.shaped(*config),
        draw@.in_range(*config),
{
    let material = uniform(0, (config.materials - 1) as i64) as u32;
    let mut scatter: Vec<Vec2> = Vec::new();
    match config.model {
        FlightModel::Kinematic => {
            let low = -config.burst_spread;
            let high = config.burst_spread;
            let mut i: usize = 0;
            while i < config.burst_count
                invariant
                    i <= config.burst_count,
                    scatter.len() == i,
                    0 <= high,
                    low == -config.burst_spread,
                    high == config.burst_spread,
                    forall|j: int| 0 <= j < i ==> within_spread(*config, #[trigger] scatter[j]),
                decreases config.burst_count - i,
            {
                let x = uniform(low, high);
                let y = uniform(low, high);
                scatter.push(Vec2 { x, y });
                i += 1;
            }
        },
        FlightModel::Directed => {},
    }
    BurstDraw { material, scatter }
}

/// The random choices of one launch: a launch offset, a heading of the kind
/// that the flight model asks for, and the time to the next launch.
pub fn draw_launch(config: &Config) -> (draw: LaunchDraw)
    requires
        config.valid(),
    ensures
        draw.shaped(*config),
        draw.in_range(*config),
{
    let offset = draw_from(&config.launch_offset);
    let heading = match config.model {
        FlightModel::Kinematic => {
            let x = draw_from(&config.launch_velocity_x);
            let y = draw_from(&config.launch_velocity_y);
            Heading::Velocity { x, y }
        },
        FlightModel::Directed => Heading::Height { y: draw_from(&config.target_height) },
    };
    let interval = draw_from(&config.rearm);
    LaunchDraw { offset, heading, interval }
}

/// The random choices of one step: what `demand` asks for, each choice in
/// its interval.
pub fn draw_for(config: &Config, demand: &Demand) -> (draws: Draws)
    requires
        config.valid(),
    ensures
        draws@.shaped(*config, demand.bursts as nat, demand.launch),
        draws@.in_range(*config),
{
    let mut bursts: Vec<BurstDraw> = Vec::new();
    let mut k: usize = 0;
    while k < demand.bursts
        invariant
            config.valid(),
            k <= demand.bursts,
            bursts.len() == k,
            forall|j: int| 0 <= j < k ==> (#[trigger] bursts[j])@.shaped(*config),
            forall|j: int| 0 <= j < k ==> (#[trigger] bursts[j])@.in_range(*config),
        decreases demand.bursts - k,
    {
        let one = draw_burst(config);
        bursts.push(one);
        k += 1;
    }
    let launch = if demand.launch {
        Some(draw_launch(config))
    } else {
        None
    };
    Draws { bursts, launch }
}

} // verus!
