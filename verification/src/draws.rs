//! The random choices that one step of a display consumes, as plain values:
//! a step is a function of the engine, the elapsed time and these.

use vstd::prelude::*;
use crate::burst::{within_spread, BurstDraw, BurstDrawView};
use crate::config::{Config, FlightModel};
use crate::launch::LaunchDraw;

verus! {

/// What a step needs drawn: one burst for each shell that expires in it,
/// and a launch where the launch timer fires.
#[derive(Clone, Copy, PartialEq, Eq, Debug, Structural)]
pub struct Demand {
    pub bursts: usize,
    pub launch: bool,
}

/// The random choices of one step. Burst `k` belongs to the `k`-th shell
/// that expires in the step, in the order of the ids.
#[derive(Clone, PartialEq, Eq, Debug)]
pub struct Draws {
    pub bursts: Vec<BurstDraw>,
    pub launch: Option<LaunchDraw>,
}

/// `Draws` as a value.
pub struct DrawsView {
    pub bursts: Seq<BurstDrawView>,
    pub launch: Option<LaunchDraw>,
}

impl View for Draws {
    type V = DrawsView;

    open spec fn view(&self) -> DrawsView {
        DrawsView {
            bursts: Seq::new(self.bursts@.len(), |i: int| self.bursts@[i]@),
            launch: self.launch,
        }
    }
}

impl DrawsView {
    /// Whether the draws hold `bursts` bursts and, if and only if `launch`
    /// says so, a launch, each in the shape that the flight model gives it.
    pub open spec fn shaped(self, config: Config, bursts: nat, launch: bool) -> bool {
        &&& self.bursts.len() == bursts
        &&& forall|k: int| 0 <= k < self.bursts.len() ==> (#[trigger] self.bursts[k]).shaped(config)
        &&& self.launch is Some <==> launch
        &&& self.launch matches Some(drawn) ==> drawn.shaped(config)
    }

    /// Whether every choice lies in the interval that the configuration
    /// gives it.
    pub open spec fn in_range(self, config: Config) -> bool {
        &&& forall|k: int|
            0 <= k < self.bursts.len() ==> (#[trigger] self.bursts[k]).in_range(config)
        &&& self.launch matches Some(launch) ==> launch.in_range(config)
    }
}

impl BurstDraw {
    /// Whether the draw has the shape that the flight model asks for.
    pub fn is_shaped(&self, config: &Config) -> (b: bool)
        ensures
            b == self@.shaped(*config),
    {
        match config.model {
            FlightModel::Kinematic => self.scatter.len() == config.burst_count,
            FlightModel::Directed => self.scatter.len() == 0,
        }
    }

    /// Whether every choice of the draw lies in its interval.
    pub fn is_in_range(&self, config: &Config) -> (b: bool)
        ensures
            b == self@.in_range(*config),
    {
        if self.material >= config.materials {
            return false;
        }
        if config.burst_spread < 0 {
            assert(self.scatter.len() > 0 ==> !within_spread(*config, self@.scatter[0]));
            return self.scatter.len() == 0;
        }
        let low = -config.burst_spread;
        let high = config.burst_spread;
        let mut i: usize = 0;
        while i < self.scatter.len()
            invariant
                i <= self.scatter.len(),
                low == -config.burst_spread,
                high == config.burst_spread,
                forall|j: int| 0 <= j < i ==> within_spread(*config, #[trigger] self.scatter[j]),
            decreases self.scatter.len() - i,
        {
            let v = self.scatter[i];
            if v.x < low || v.x > high || v.y < low || v.y > high {
                assert(!within_spread(*config, self@.scatter[i as int]));
                return false;
            }
            i += 1;
        }
        true
    }
}

impl Draws {
    /// Draws that hold nothing: what a step asks for in which no shell
    /// expires and the launch timer does not fire.
    pub fn none() -> (draws: Draws)
        ensures
            draws@.bursts.len() == 0,
            draws@.launch is None,
    {
        Draws { bursts: Vec::new(), launch: None }
    }

    /// Whether the draws hold what `demand` asks for.
    pub fn is_shaped(&self, config: &Config, demand: &Demand) -> (b: bool)
        ensures
            b == self@.shaped(*config, demand.bursts as nat, demand.launch),
    {
        if self.bursts.len() != demand.bursts {
            return false;
        }
        match &self.launch {
            Some(launch) => {
                if !demand.launch || !launch.is_shaped(config) {
                    return false;
                }
            },
            None => {
                if demand.launch {
                    return false;
                }
            },
        }
        let mut k: usize = 0;
        while k < self.bursts.len()
            invariant
                k <= self.bursts.len(),
                forall|j: int| 0 <= j < k ==> (#[trigger] self@.bursts[j]).shaped(*config),
            decreases self.bursts.len() - k,
        {
            if !self.bursts[k].is_shaped(config) {
                assert(!self@.bursts[k as int].shaped(*config));
                return false;
            }
            k += 1;
        }
        true
    }

    /// Whether every choice lies in its interval.
    pub fn is_in_range(&self, config: &Config) -> (b: bool)
        ensures
            b == self@.in_range(*config),
    {
        match &self.launch {
            Some(launch) => {
                if !launch.is_in_range(config) {
                    return false;
                }
            },
            None => {},
        }
        let mut k: usize = 0;
        while k < self.bursts.len()
            invariant
                k <= self.bursts.len(),
                forall|j: int| 0 <= j < k ==> (#[trigger] self@.bursts[j]).in_range(*config),
            decreases self.bursts.len() - k,
        {
            if !self.bursts[k].is_in_range(config) {
                assert(!self@.bursts[k as int].in_range(*config));
                return false;
            }
            k += 1;
        }
        true
    }
}

} // verus!
