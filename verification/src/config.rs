//! The adjustable parameters of a display, and the rules that a set of them
//! has to meet before an engine is built on it.

use vstd::prelude::*;
use crate::fixed::Vec3;

verus! {

/// The height of the launch origin of the standard display.
pub const STANDARD_ORIGIN_Y: i64 = -200_000_000;

/// The pull of gravity in the standard display.
pub const STANDARD_GRAVITY_Y: i64 = -50_000;

/// The leftmost launch offset of the standard display.
pub const STANDARD_OFFSET_LOW: i64 = -50_000_000;

/// The lowest horizontal launch velocity of the standard display.
pub const STANDARD_VELOCITY_LOW: i64 = -150_000;

/// The way in which the rockets of a display move, and with it the shape of
/// its bursts.
#[derive(Clone, Copy, PartialEq, Eq, Debug, Structural)]
pub enum FlightModel {
    /// Rockets are launched with a velocity and fall under gravity; a burst
    /// scatters its particles with random velocities.
    Kinematic,
    /// Rockets fly straight to a target; a burst sends its particles to the
    /// points of a ring around it.
    Directed,
}

/// The closed interval from `low` to `high`.
#[derive(Clone, Copy, PartialEq, Eq, Debug, Structural)]
pub struct Span {
    pub low: i64,
    pub high: i64,
}

impl Span {
    /// Whether the interval holds at least one value.
    pub open spec fn inhabited(self) -> bool {
        self.low <= self.high
    }

    /// Whether `v` lies in the interval.
    pub open spec fn contains(self, v: i64) -> bool {
        self.low <= v <= self.high
    }

    pub fn new(low: i64, high: i64) -> (s: Span)
        ensures
            s == (Span { low, high }),
    {
        Span { low, high }
    }

    pub fn is_inhabited(&self) -> (b: bool)
        ensures
            b == self.inhabited(),
    {
        self.low <= self.high
    }

    pub fn holds(&self, v: i64) -> (b: bool)
        ensures
            b == self.contains(v),
    {
        self.low <= v && v <= self.high
    }
}

/// The parameters of a display. Lengths, speeds and times are fixed-point
/// numbers.
#[derive(Clone, Copy, PartialEq, Eq, Debug, Structural)]
pub struct Config {
    pub model: FlightModel,
    /// The number of materials in the material set.
    pub materials: u32,
    /// The slot of the material set that every launched rocket is drawn with.
    pub launch_material: u32,
    /// The point from which rockets are launched.
    pub launch_origin: Vec3,
    /// The force that acts on every rocket in free flight, in every step.
    pub gravity: Vec3,
    /// How far to the side of the launch origin a rocket may start.
    pub launch_offset: Span,
    /// The horizontal velocity of a launched rocket in free flight.
    pub launch_velocity_x: Span,
    /// The vertical velocity of a launched rocket in free flight.
    pub launch_velocity_y: Span,
    /// The height that a launched rocket in directed flight climbs to.
    pub target_height: Span,
    /// The countdown that a launched rocket in free flight starts with.
    pub shell_fuse: i64,
    /// The time that a directed flight takes.
    pub flight_duration: i64,
    /// The time from the start of the display to the first launch.
    pub first_launch: i64,
    /// The time from one launch to the next.
    pub rearm: Span,
    /// The number of particles of a burst.
    pub burst_count: usize,
    /// The largest speed, along either axis, of a particle of a scattered
    /// burst.
    pub burst_spread: i64,
    /// The radius of the ring of a burst in directed flight.
    pub burst_radius: i64,
    /// The countdown that a particle in free flight starts with.
    pub particle_lifetime: i64,
    /// The longest time that a single step may cover.
    pub max_delta: u64,
    /// The side of the square that a launched rocket is drawn as.
    pub rocket_size: i64,
    /// The side of the square that a particle is drawn as.
    pub particle_size: i64,
}

/// What is wrong with a configuration.
#[derive(Clone, Copy, PartialEq, Eq, Debug, Structural)]
pub enum ConfigError {
    /// The material set is empty.
    NoMaterials,
    /// The material of launched rockets is no slot of the material set.
    LaunchMaterial,
    /// The launch offsets form an empty interval.
    LaunchOffset,
    /// The launch velocities, along either axis, form an empty interval.
    LaunchVelocity,
    /// The target heights form an empty interval.
    TargetHeight,
    /// The countdown of a launched rocket is zero or negative.
    ShellFuse,
    /// The duration of a directed flight is zero or negative.
    FlightDuration,
    /// The intervals from launch to launch form an empty interval, hold a
    /// negative duration, or hold no positive one.
    Rearm,
    /// A burst has no particles.
    BurstCount,
    /// The spread of a scattered burst is negative.
    BurstSpread,
    /// The radius of a ring is negative.
    BurstRadius,
    /// The countdown of a particle is zero or negative.
    ParticleLifetime,
    /// The longest step is zero.
    MaxDelta,
    /// The ring of a display in directed flight does not have one direction
    /// for each particle of a burst.
    RingSize,
    /// A direction of the ring is not of length one.
    RingDirection,
}

impl Config {
    /// Whether an engine can be built on the configuration.
    pub open spec fn valid(self) -> bool {
        &&& self.materials > 0
        &&& self.launch_material < self.materials
        &&& self.launch_offset.inhabited()
        &&& self.launch_velocity_x.inhabited()
        &&& self.launch_velocity_y.inhabited()
        &&& self.target_height.inhabited()
        &&& self.shell_fuse > 0
        &&& self.flight_duration > 0
        &&& 0 <= self.rearm.low <= self.rearm.high
        &&& self.rearm.high > 0
        &&& self.burst_count > 0
        &&& self.burst_spread >= 0
        &&& self.burst_radius >= 0
        &&& self.particle_lifetime > 0
        &&& self.max_delta > 0
    }

    /// The first rule that the configuration breaks, in the order in which
    /// `ConfigError` lists them.
    pub open spec fn fault(self) -> Option<ConfigError> {
        if self.materials == 0 {
            Some(ConfigError::NoMaterials)
        } else if self.launch_material >= self.materials {
            Some(ConfigError::LaunchMaterial)
        } else if !self.launch_offset.inhabited() {
            Some(ConfigError::LaunchOffset)
        } else if !self.launch_velocity_x.inhabited() || !self.launch_velocity_y.inhabited() {
            Some(ConfigError::LaunchVelocity)
        } else if !self.target_height.inhabited() {
            Some(ConfigError::TargetHeight)
        } else if self.shell_fuse <= 0 {
            Some(ConfigError::ShellFuse)
        } else if self.flight_duration <= 0 {
            Some(ConfigError::FlightDuration)
        } else if self.rearm.low < 0 || self.rearm.high <= 0 || !self.rearm.inhabited() {
            Some(ConfigError::Rearm)
        } else if self.burst_count == 0 {
            Some(ConfigError::BurstCount)
        } else if self.burst_spread < 0 {
            Some(ConfigError::BurstSpread)
        } else if self.burst_radius < 0 {
            Some(ConfigError::BurstRadius)
        } else if self.particle_lifetime <= 0 {
            Some(ConfigError::ParticleLifetime)
        } else if self.max_delta == 0 {
            Some(ConfigError::MaxDelta)
        } else {
            None
        }
    }

    /// The length of the step that the engine makes of the elapsed time
    /// `raw`.
    pub open spec fn clamped(self, raw: u64) -> u64 {
        if raw <= self.max_delta {
            raw
        } else {
            self.max_delta
        }
    }

    /// A display of rockets in free flight, launched from below the middle
    /// of the view, that burst into fifty scattered particles.
    pub open spec fn standard_spec() -> Config {
        Config {
            model: FlightModel::Kinematic,
            materials: 4,
            launch_material: 1,
            launch_origin: Vec3 { x: 0, y: STANDARD_ORIGIN_Y, z: 0 },
            gravity: Vec3 { x: 0, y: STANDARD_GRAVITY_Y, z: 0 },
            launch_offset: Span { low: STANDARD_OFFSET_LOW, high: 50_000_000 },
            launch_velocity_x: Span { low: STANDARD_VELOCITY_LOW, high: 150_000 },
            launch_velocity_y: Span { low: 150_000, high: 200_000 },
            target_height: Span { low: 100_000_000, high: 200_000_000 },
            shell_fuse: 2_000_000,
            flight_duration: 3_000_000,
            first_launch: 1_000_000,
            rearm: Span { low: 0, high: 500_000 },
            burst_count: 50,
            burst_spread: 100_000,
            burst_radius: 100_000_000,
            particle_lifetime: 1_500_000,
            max_delta: 200_000,
            rocket_size: 5_000_000,
            particle_size: 4_000_000,
        }
    }

    /// The configuration `standard_spec()`, which is valid.
    pub fn standard() -> (c: Config)
        ensures
            c == Config::standard_spec(),
            c.valid(),
    {
        Config {
            model: FlightModel::Kinematic,
            materials: 4,
            launch_material: 1,
            launch_origin: Vec3 { x: 0, y: STANDARD_ORIGIN_Y, z: 0 },
            gravity: Vec3 { x: 0, y: STANDARD_GRAVITY_Y, z: 0 },
            launch_offset: Span { low: STANDARD_OFFSET_LOW, high: 50_000_000 },
            launch_velocity_x: Span { low: STANDARD_VELOCITY_LOW, high: 150_000 },
            launch_velocity_y: Span { low: 150_000, high: 200_000 },
            target_height: Span { low: 100_000_000, high: 200_000_000 },
            shell_fuse: 2_000_000,
            flight_duration: 3_000_000,
            first_launch: 1_000_000,
            rearm: Span { low: 0, high: 500_000 },
            burst_count: 50,
            burst_spread: 100_000,
            burst_radius: 100_000_000,
            particle_lifetime: 1_500_000,
            max_delta: 200_000,
            rocket_size: 5_000_000,
            particle_size: 4_000_000,
        }
    }

    /// Checks the configuration: `Ok` if and only if it is valid, and
    /// otherwise the first rule that it breaks.
    pub fn validate(&self) -> (r: Result<(), ConfigError>)
        ensures
            r is Ok <==> self.valid(),
            match r {
                Ok(_) => self.fault() is None,
                Err(e) => self.fault() == Some(e),
            },
    {
        if self.materials == 0 {
            Err(ConfigError::NoMaterials)
        } else if self.launch_material >= self.materials {
            Err(ConfigError::LaunchMaterial)
        } else if !self.launch_offset.is_inhabited() {
            Err(ConfigError::LaunchOffset)
        } else if !self.launch_velocity_x.is_inhabited() || !self.launch_velocity_y.is_inhabited() {
            Err(ConfigError::LaunchVelocity)
        } else if !self.target_height.is_inhabited() {
            Err(ConfigError::TargetHeight)
        } else if self.shell_fuse <= 0 {
            Err(ConfigError::ShellFuse)
        } else if self.flight_duration <= 0 {
            Err(ConfigError::FlightDuration)
        } else if self.rearm.low < 0 || self.rearm.high <= 0 || !self.rearm.is_inhabited() {
            Err(ConfigError::Rearm)
        } else if self.burst_count == 0 {
            Err(ConfigError::BurstCount)
        } else if self.burst_spread < 0 {
            Err(ConfigError::BurstSpread)
        } else if self.burst_radius < 0 {
            Err(ConfigError::BurstRadius)
        } else if self.particle_lifetime <= 0 {
            Err(ConfigError::ParticleLifetime)
        } else if self.max_delta == 0 {
            Err(ConfigError::MaxDelta)
        } else {
            Ok(())
        }
    }

    /// The elapsed time `raw`, cut down to the longest step. The result
    /// never exceeds `max_delta`, however long the clock was stalled.
    pub fn clamp_delta(&self, raw: u64) -> (dt: u64)
        ensures
            dt == self.clamped(raw),
            dt <= self.max_delta,
            dt <= raw,
    {
        if raw <= self.max_delta {
            raw
        } else {
            self.max_delta
        }
    }
}

} // verus!
