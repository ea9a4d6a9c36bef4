//! The launch scheduler: a countdown that arms itself again each time it
//! fires, and the rocket that a firing sends up.

use vstd::prelude::*;
use crate::config::{Config, FlightModel};
use crate::fixed::{add_sat, sat64, sub_elapsed, Vec3};
use crate::rocket::{Motion, Rocket};

verus! {

/// The countdown to the next launch.
#[derive(Clone, Copy, PartialEq, Eq, Debug, Structural)]
pub struct LaunchTimer {
    /// The time that is left until the timer fires.
    pub interval: i64,
}

impl LaunchTimer {
    /// Whether the timer fires in a step of length `dt`: the countdown
    /// reaches zero or passes it.
    pub open spec fn fires(self, dt: u64) -> bool {
        self.interval - dt <= 0
    }

    /// The timer after a step of length `dt`. Where it fires, the countdown
    /// starts again from `next`, whatever the step overshot by; otherwise it
    /// has lost `dt`.
    pub open spec fn stepped(self, dt: u64, next: i64) -> LaunchTimer {
        if self.fires(dt) {
            LaunchTimer { interval: next }
        } else {
            LaunchTimer { interval: sat64(self.interval - dt) }
        }
    }

    pub fn new(interval: i64) -> (t: LaunchTimer)
        ensures
            t.interval == interval,
    {
        LaunchTimer { interval }
    }

    /// Whether the timer fires in a step of length `dt`.
    pub fn is_due(&self, dt: u64) -> (due: bool)
        ensures
            due == self.fires(dt),
    {
        sub_elapsed(self.interval, dt) <= 0
    }

    /// Takes the timer through one step of length `dt` and says whether it
    /// fired. It fires once at most, however long the step: a timer that
    /// fired counts down from `next`, and nothing of the time by which the
    /// step overshot is carried over.
    pub fn tick(&mut self, dt: u64, next: i64) -> (fired: bool)
        ensures
            fired == old(self).fires(dt),
            *final(self) == old(self).stepped(dt, next),
            fired ==> final(self).interval == next,
            !fired ==> final(self).interval == old(self).interval - dt,
    {
        let left = sub_elapsed(self.interval, dt);
        if left <= 0 {
            self.interval = next;
            true
        } else {
            self.interval = left;
            false
        }
    }
}

/// Where a launched rocket is headed.
#[derive(Clone, Copy, PartialEq, Eq, Debug, Structural)]
pub enum Heading {
    /// The velocity of a rocket in free flight.
    Velocity { x: i64, y: i64 },
    /// The height that a rocket in directed flight climbs to.
    Height { y: i64 },
}

/// The random choices of one launch.
#[derive(Clone, Copy, PartialEq, Eq, Debug, Structural)]
pub struct LaunchDraw {
    /// How far to the side of the launch origin the rocket starts.
    pub offset: i64,
    pub heading: Heading,
    /// The time from this launch to the next.
    pub interval: i64,
}

impl LaunchDraw {
    /// Whether the heading is of the kind that the flight model asks for.
    pub open spec fn shaped(self, config: Config) -> bool {
        match config.model {
            FlightModel::Kinematic => self.heading is Velocity,
            FlightModel::Directed => self.heading is Height,
        }
    }

    /// Whether each choice lies in the interval that the configuration
    /// gives it.
    pub open spec fn in_range(self, config: Config) -> bool {
        &&& config.launch_offset.contains(self.offset)
        &&& config.rearm.contains(self.interval)
        &&& match self.heading {
            Heading::Velocity { x, y } => {
                &&& config.launch_velocity_x.contains(x)
                &&& config.launch_velocity_y.contains(y)
            },
            Heading::Height { y } => config.target_height.contains(y),
        }
    }

    pub fn is_shaped(&self, config: &Config) -> (b: bool)
        ensures
            b == self.shaped(*config),
    {
        match config.model {
            FlightModel::Kinematic => match self.heading {
                Heading::Velocity { .. } => true,
                Heading::Height { .. } => false,
            },
            FlightModel::Directed => match self.heading {
                Heading::Velocity { .. } => false,
                Heading::Height { .. } => true,
            },
        }
    }

    pub fn is_in_range(&self, config: &Config) -> (b: bool)
        ensures
            b == self.in_range(*config),
    {
        config.launch_offset.holds(self.offset) && config.rearm.holds(self.interval)
            && match self.heading {
            Heading::Velocity { x, y } => {
                config.launch_velocity_x.holds(x) && config.launch_velocity_y.holds(y)
            },
            Heading::Height { y } => config.target_height.holds(y),
        }
    }
}

/// The point at which a rocket with the launch offset `offset` starts.
pub open spec fn launch_point(config: Config, offset: i64) -> Vec3 {
    Vec3 {
        x: sat64(config.launch_origin.x + offset),
        y: config.launch_origin.y,
        z: config.launch_origin.z,
    }
}

/// The rocket that a launch with the choices `draw` sends up: a shell of
/// the launch material, which starts beside the launch origin and either
/// flies freely with the drawn velocity or climbs straight to the drawn
/// height.
pub open spec fn launched(config: Config, draw: LaunchDraw) -> Rocket {
    let from = launch_point(config, draw.offset);
    Rocket {
        position: from,
        motion: match draw.heading {
            Heading::Velocity { x, y } => Motion::Kinematic {
                velocity: Vec3 { x, y, z: 0 },
                acceleration: Vec3::origin(),
                remaining_time: config.shell_fuse,
            },
            Heading::Height { y } => Motion::Directed {
                start: from,
                target: Vec3 { x: from.x, y, z: from.z },
                time_in_flight: 0,
            },
        },
        is_shell: true,
        material: config.launch_material,
        size: config.rocket_size,
    }
}

/// Builds the rocket of one launch.
pub fn launch(config: &Config, draw: &LaunchDraw) -> (rocket: Rocket)
    ensures
        rocket == launched(*config, *draw),
        rocket.is_shell,
        config.valid() && draw.shaped(*config) ==> !rocket.spent(config.flight_duration),
{
    let from = Vec3 {
        x: add_sat(config.launch_origin.x, draw.offset),
        y: config.launch_origin.y,
        z: config.launch_origin.z,
    };
    let motion = match draw.heading {
        Heading::Velocity { x, y } => Motion::Kinematic {
            velocity: Vec3 { x, y, z: 0 },
            acceleration: Vec3::zero(),
            remaining_time: config.shell_fuse,
        },
        Heading::Height { y } => Motion::Directed {
            start: from,
            target: Vec3 { x: from.x, y, z: from.z },
            time_in_flight: 0,
        },
    };
    Rocket {
        position: from,
        motion,
        is_shell: true,
        material: config.launch_material,
        size: config.rocket_size,
    }
}

} // verus!
