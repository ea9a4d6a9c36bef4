//! Rockets and the two ways in which they move.

use vstd::prelude::*;
use crate::fixed::{add_elapsed, sat64, sub_elapsed, Vec3};

verus! {

/// How a rocket moves, with the state that its way of moving needs.
#[derive(Clone, Copy, PartialEq, Eq, Debug, Structural)]
pub enum Motion {
    /// Free flight under the forces gathered in `acceleration`, until the
    /// countdown `remaining_time` has run down to zero.
    Kinematic { velocity: Vec3, acceleration: Vec3, remaining_time: i64 },
    /// Flight along the segment from `start` to `target`, which the rocket
    /// leaves once `time_in_flight` has passed the flight duration.
    Directed { start: Vec3, target: Vec3, time_in_flight: i64 },
}

/// An entity in flight: a shell on its ascent, or a fragment of a burst.
#[derive(Clone, Copy, PartialEq, Eq, Debug, Structural)]
pub struct Rocket {
    pub position: Vec3,
    pub motion: Motion,
    /// Whether the rocket bursts into particles when it expires.
    pub is_shell: bool,
    /// The slot of the material set that the rocket is drawn with.
    pub material: u32,
    /// The side of the square that the rocket is drawn as.
    pub size: i64,
}

impl Rocket {
    /// The rocket after `force` has been added to what accelerates it. A
    /// rocket in directed flight yields to no force.
    pub open spec fn pushed(self, force: Vec3) -> Rocket {
        match self.motion {
            Motion::Kinematic { velocity, acceleration, remaining_time } => Rocket {
                motion: Motion::Kinematic {
                    velocity,
                    acceleration: acceleration.sum(force),
                    remaining_time,
                },
                ..self
            },
            Motion::Directed { .. } => self,
        }
    }

    /// The rocket one step of length `dt` later.
    ///
    /// In free flight the acceleration acts on the velocity for the time
    /// `dt`, the new velocity is the displacement of the step whatever its
    /// length, the countdown loses `dt`, and the acceleration starts again
    /// from zero. In directed flight the time in flight gains `dt` and the
    /// position is the point of the segment that belongs to it.
    pub open spec fn advanced(self, dt: u64, flight_duration: i64) -> Rocket {
        match self.motion {
            Motion::Kinematic { velocity, acceleration, remaining_time } => {
                let moved = velocity.sum(acceleration.over(dt));
                Rocket {
                    position: self.position.sum(moved),
                    motion: Motion::Kinematic {
                        velocity: moved,
                        acceleration: Vec3::origin(),
                        remaining_time: sat64(remaining_time - dt),
                    },
                    ..self
                }
            },
            Motion::Directed { start, target, time_in_flight } => {
                let flown = sat64(time_in_flight + dt);
                Rocket {
                    position: start.towards(target, flown, flight_duration),
                    motion: Motion::Directed { start, target, time_in_flight: flown },
                    ..self
                }
            },
        }
    }

    /// The time that the rocket has left before it expires.
    pub open spec fn time_left(self, flight_duration: i64) -> int {
        match self.motion {
            Motion::Kinematic { remaining_time, .. } => remaining_time as int,
            Motion::Directed { time_in_flight, .. } => flight_duration - time_in_flight,
        }
    }

    /// Whether the rocket has expired: its countdown has reached zero, or
    /// its time in flight has passed the flight duration.
    pub open spec fn spent(self, flight_duration: i64) -> bool {
        match self.motion {
            Motion::Kinematic { remaining_time, .. } => remaining_time <= 0,
            Motion::Directed { time_in_flight, .. } => time_in_flight > flight_duration,
        }
    }

    /// Adds `force` to what accelerates the rocket in its next step.
    pub fn add_force(&mut self, force: Vec3)
        ensures
            *final(self) == old(self).pushed(force),
    {
        match self.motion {
            Motion::Kinematic { velocity, acceleration, remaining_time } => {
                self.motion = Motion::Kinematic {
                    velocity,
                    acceleration: acceleration.plus(force),
                    remaining_time,
                };
            },
            Motion::Directed { .. } => {},
        }
    }

    /// Moves the rocket through one step of length `dt`. The time that it
    /// has left never grows.
    pub fn update(&mut self, dt: u64, flight_duration: i64)
        requires
            flight_duration > 0,
        ensures
            *final(self) == old(self).advanced(dt, flight_duration),
            final(self).time_left(flight_duration) <= old(self).time_left(flight_duration),
    {
        match self.motion {
            Motion::Kinematic { velocity, acceleration, remaining_time } => {
                let moved = velocity.plus(acceleration.scaled_by_elapsed(dt));
                self.position = self.position.plus(moved);
                self.motion = Motion::Kinematic {
                    velocity: moved,
                    acceleration: Vec3::zero(),
                    remaining_time: sub_elapsed(remaining_time, dt),
                };
            },
            Motion::Directed { start, target, time_in_flight } => {
                let flown = add_elapsed(time_in_flight, dt);
                self.position = start.lerp(target, flown, flight_duration);
                self.motion = Motion::Directed { start, target, time_in_flight: flown };
            },
        }
    }

    /// Whether the rocket has expired.
    pub fn is_spent(&self, flight_duration: i64) -> (spent: bool)
        ensures
            spent == self.spent(flight_duration),
    {
        match self.motion {
            Motion::Kinematic { remaining_time, .. } => remaining_time <= 0,
            Motion::Directed { time_in_flight, .. } => time_in_flight > flight_duration,
        }
    }
}

} // verus!
