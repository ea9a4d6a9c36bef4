//! The engine of a display: the store, the launch timer and the last known
//! pointer position, and the step that takes them from one frame to the next.
//!
//! A step moves every rocket, removes the rockets that have expired, puts a
//! burst in the place of each expired shell, and launches a new shell where
//! the launch timer fires. What is random in it is drawn beforehand, so that
//! the step itself is a function of the engine, the elapsed time and the
//! draws.

use vstd::prelude::*;
use crate::burst::{bursts_of, fragment, lemma_bursts_of};
use crate::config::{Config, ConfigError};
use crate::draws::{Demand, Draws, DrawsView};
use crate::fixed::{sat64, Vec2};
use crate::input::{center_cursor, centered};
use crate::launch::{launch, launched, LaunchTimer};
use crate::random::draw_for;
use crate::ring::{check_ring, ring_fault, ring_ok};
use crate::rocket::Rocket;
use crate::store::{lemma_filter_push, lemma_spawned_all, shells, spent_slots, Slot, Store, StoreView};

verus! {

/// Why a step was not taken.
#[derive(Clone, Copy, PartialEq, Eq, Debug, Structural)]
pub enum StepError {
    /// The store has not ids enough left for the rockets of the step.
    OutOfIds,
    /// The draws do not hold what the step asks for.
    Shape,
    /// A choice of the draws lies outside its interval.
    Range,
}

/// What a step did to the store.
#[derive(Clone, PartialEq, Eq, Debug)]
pub struct StepReport {
    /// The length of the step: the elapsed time, cut down to the longest
    /// step.
    pub dt: u64,
    /// The rockets that expired in the step and left the store, as they
    /// were when they expired.
    pub gone: Vec<Slot>,
    /// The id of the first rocket that the step added. The others follow it
    /// one by one: first the particles, burst by burst, then the shell of
    /// the launch.
    pub first_fresh: u64,
    /// The number of rockets that the step added.
    pub fresh: usize,
    /// Whether the step launched a shell.
    pub launched: bool,
}

/// An engine as a value.
#[verifier::ext_equal]
pub struct EngineView {
    pub config: Config,
    pub ring: Seq<Vec2>,
    pub store: StoreView,
    pub timer: LaunchTimer,
    pub cursor: Vec2,
}

impl EngineView {
    /// The configuration is valid, the ring fits it and the store is in
    /// order.
    pub open spec fn wf(self) -> bool {
        &&& self.config.valid()
        &&& ring_ok(self.config, self.ring)
        &&& self.store.wf()
    }

    /// The length of the step that the engine makes of the elapsed time
    /// `raw`.
    pub open spec fn dt(self, raw: u64) -> u64 {
        self.config.clamped(raw)
    }

    /// The store after every rocket has moved, and before any has left.
    pub open spec fn moved(self, raw: u64) -> StoreView {
        self.store.advanced(self.config.gravity, self.dt(raw), self.config.flight_duration)
    }

    /// The rockets that expire in the step, as they are when they expire.
    pub open spec fn expiring(self, raw: u64) -> Seq<Slot> {
        spent_slots(self.moved(raw).slots, self.config.flight_duration)
    }

    /// The shells that expire in the step.
    pub open spec fn bursting(self, raw: u64) -> Seq<Slot> {
        shells(self.expiring(raw))
    }

    /// Whether the launch timer fires in the step.
    pub open spec fn fires(self, raw: u64) -> bool {
        self.timer.fires(self.dt(raw))
    }

    /// The number of rockets that the step adds.
    pub open spec fn fresh_count(self, raw: u64) -> int {
        self.bursting(raw).len() * self.config.burst_count + if self.fires(raw) {
            1int
        } else {
            0int
        }
    }

    /// Whether the store has ids enough left for the rockets of the step.
    pub open spec fn has_room(self, raw: u64) -> bool {
        self.store.next_id + self.fresh_count(raw) <= u64::MAX
    }

    /// Why the step with the draws `draws` is not taken, if it is not.
    pub open spec fn refusal(self, raw: u64, draws: DrawsView) -> Option<StepError> {
        if !self.has_room(raw) {
            Some(StepError::OutOfIds)
        } else if !draws.shaped(self.config, self.bursting(raw).len(), self.fires(raw)) {
            Some(StepError::Shape)
        } else if !draws.in_range(self.config) {
            Some(StepError::Range)
        } else {
            None
        }
    }

    /// The rockets that the step adds: the burst of each expiring shell, in
    /// the order of the ids of the shells, and then the shell of the launch.
    pub open spec fn fresh(self, raw: u64, draws: DrawsView) -> Seq<Rocket> {
        bursts_of(self.config, self.ring, self.bursting(raw), draws.bursts) + match draws.launch {
            Some(launch) => seq![launched(self.config, launch)],
            None => Seq::empty(),
        }
    }

    /// The engine after the step.
    pub open spec fn stepped(self, raw: u64, draws: DrawsView) -> EngineView {
        EngineView {
            store: self.moved(raw).swept(self.config.flight_duration).spawned_all(
                self.fresh(raw, draws),
            ),
            timer: match draws.launch {
                Some(launch) => LaunchTimer { interval: launch.interval },
                None => LaunchTimer { interval: sat64(self.timer.interval - self.dt(raw)) },
            },
            ..self
        }
    }
}

/// A display in progress.
pub struct Engine {
    config: Config,
    ring: Vec<Vec2>,
    store: Store,
    timer: LaunchTimer,
    cursor: Vec2,
}

impl View for Engine {
    type V = EngineView;

    closed spec fn view(&self) -> EngineView {
        EngineView {
            config: self.config,
            ring: self.ring@,
            store: self.store@,
            timer: self.timer,
            cursor: self.cursor,
        }
    }
}

/// What is wrong with a configuration and the ring that comes with it, if
/// anything is: the first fault of the configuration, or else that of the
/// ring.
pub open spec fn setup_fault(config: Config, ring: Seq<Vec2>) -> Option<ConfigError> {
    if config.fault() is Some {
        config.fault()
    } else {
        ring_fault(config, ring)
    }
}

impl Engine {
    /// Whether the engine is in order, as every engine is that this module
    /// hands out.
    pub open spec fn wf(&self) -> bool {
        self@.wf()
    }

    /// Sets a display up: an empty store, the launch timer at the time of
    /// the first launch, the pointer in the middle of the view.
    ///
    /// Fails, with the first fault found, where the configuration is not
    /// valid or the ring does not fit it, and on no other input.
    pub fn new(config: Config, ring: Vec<Vec2>) -> (r: Result<Engine, ConfigError>)
        ensures
            r is Ok <==> config.valid() && ring_ok(config, ring@),
            match r {
                Ok(engine) => {
                    &&& engine.wf()
                    &&& engine@.config == config
                    &&& engine@.ring == ring@
                    &&& engine@.store.slots.len() == 0
                    &&& engine@.store.next_id == 0
                    &&& engine@.timer.interval == config.first_launch
                    &&& engine@.cursor == (Vec2 { x: 0, y: 0 })
                },
                Err(e) => setup_fault(config, ring@) == Some(e),
            },
    {
        Engine::with_store(config, ring, Store::new())
    }

    /// Sets a display up around the rockets of `store`, with the launch
    /// timer at the time of the first launch and the pointer in the middle
    /// of the view.
    ///
    /// Fails as `new` does.
    pub fn with_store(config: Config, ring: Vec<Vec2>, store: Store) -> (r: Result<
        Engine,
        ConfigError,
    >)
        requires
            store.wf(),
        ensures
            r is Ok <==> config.valid() && ring_ok(config, ring@),
            match r {
                Ok(engine) => {
                    &&& engine.wf()
                    &&& engine@.config == config
                    &&& engine@.ring == ring@
                    &&& engine@.store == store@
                    &&& engine@.timer.interval == config.first_launch
                    &&& engine@.cursor == (Vec2 { x: 0, y: 0 })
                },
                Err(e) => setup_fault(config, ring@) == Some(e),
            },
    {
        match config.validate() {
            Ok(_) => {},
            Err(e) => {
                return Err(e);
            },
        }
        match check_ring(&config, &ring) {
            Ok(_) => {},
            Err(e) => {
                return Err(e);
            },
        }
        Ok(
            Engine {
                config,
                ring,
                store,
                timer: LaunchTimer::new(config.first_launch),
                cursor: Vec2 { x: 0, y: 0 },
            },
        )
    }

    /// The configuration of the display.
    pub fn config(&self) -> (config: &Config)
        ensures
            *config == self@.config,
    {
        &self.config
    }

    /// The live rockets.
    pub fn store(&self) -> (store: &Store)
        ensures
            store@ == self@.store,
    {
        &self.store
    }

    /// The launch timer.
    pub fn timer(&self) -> (timer: LaunchTimer)
        ensures
            timer == self@.timer,
    {
        self.timer
    }

    /// The last known position of the pointer, in the coordinates of the
    /// simulation.
    pub fn cursor(&self) -> (cursor: Vec2)
        ensures
            cursor == self@.cursor,
    {
        self.cursor
    }

    /// Records that the pointer has moved to `raw`, measured from a corner
    /// of a view of the given width and height. Nothing else changes.
    pub fn pointer_moved(&mut self, raw: Vec2, width: i64, height: i64)
        ensures
            final(self)@ == (EngineView { cursor: centered(raw, width, height), ..old(self)@ }),
    {
        self.cursor = center_cursor(raw, width, height);
    }

    /// Adds `rocket` to the store and returns its id: the one way in which a
    /// rocket comes to be. The rocket is found under the id at once. Returns
    /// `None`, and adds nothing, once every id has been given out.
    pub fn spawn(&mut self, rocket: Rocket) -> (id: Option<u64>)
        requires
            old(self).wf(),
        ensures
            final(self).wf(),
            match id {
                Some(id) => {
                    &&& old(self)@.store.next_id < u64::MAX
                    &&& id == old(self)@.store.next_id
                    &&& final(self)@ == (EngineView {
                        store: old(self)@.store.spawned(rocket),
                        ..old(self)@
                    })
                    &&& final(self)@.store.lookup(id) == Some(rocket)
                },
                None => old(self)@.store.next_id == u64::MAX && final(self)@ == old(self)@,
            },
    {
        self.store.spawn(rocket)
    }

    /// Removes the rocket that is stored under `id`, and says whether there
    /// was one. An id whose rocket is gone already changes nothing.
    pub fn despawn(&mut self, id: u64) -> (found: bool)
        requires
            old(self).wf(),
        ensures
            final(self).wf(),
            found == old(self)@.store.contains(id),
            final(self)@ == (EngineView { store: old(self)@.store.without(id), ..old(self)@ }),
            final(self)@.store.lookup(id) is None,
    {
        self.store.despawn(id)
    }

    /// What the step over the elapsed time `raw` needs drawn: a burst for
    /// each shell that expires in it, and a launch where the launch timer
    /// fires.
    pub fn demand(&self, raw: u64) -> (demand: Demand)
        requires
            self.wf(),
        ensures
            demand.bursts == self@.bursting(raw).len(),
            demand.launch == self@.fires(raw),
    {
        let dt = self.config.clamp_delta(raw);
        let duration = self.config.flight_duration;
        let slots = self.store.slots();
        let ghost moved = self@.moved(raw).slots;
        let n = slots.len();
        let mut count: usize = 0;
        let mut i: usize = 0;
        proof {
            reveal(Seq::filter);
            assert(moved.take(0) =~= Seq::<Slot>::empty());
            assert(spent_slots(moved.take(0), duration) =~= Seq::<Slot>::empty());
        }
        while i < n
            invariant
                i <= n,
                n == slots.len(),
                slots@ == self@.store.slots,
                duration == self.config.flight_duration,
                duration > 0,
                dt == self@.dt(raw),
                moved == self@.moved(raw).slots,
                moved.len() == n,
                count <= i,
                count == shells(spent_slots(moved.take(i as int), duration)).len(),
            decreases n - i,
        {
            let mut rocket = slots[i].rocket;
            rocket.add_force(self.config.gravity);
            rocket.update(dt, duration);
            proof {
                let here = moved[i as int];
                assert(here.rocket == rocket);
                assert(moved.take(i + 1) =~= moved.take(i as int).push(here));
                lemma_filter_push(
                    moved.take(i as int),
                    |s: Slot| s.rocket.spent(duration),
                    here,
                );
                lemma_filter_push(
                    spent_slots(moved.take(i as int), duration),
                    |s: Slot| s.rocket.is_shell,
                    here,
                );
            }
            if rocket.is_spent(duration) && rocket.is_shell {
                count += 1;
            }
            i += 1;
        }
        assert(moved.take(n as int) =~= moved);
        Demand { bursts: count, launch: self.timer.is_due(dt) }
    }

    fn has_room(&self, demand: &Demand) -> (room: bool)
        ensures
            room == (self@.store.next_id + demand.bursts * self@.config.burst_count + if demand.launch {
                1int
            } else {
                0int
            } <= u64::MAX),
    {
        let extra: u64 = if demand.launch {
            1
        } else {
            0
        };
        match (demand.bursts as u64).checked_mul(self.config.burst_count as u64) {
            Some(particles) => match particles.checked_add(extra) {
                Some(all) => all <= u64::MAX - self.store.next_id(),
                None => false,
            },
            None => false,
        }
    }

    fn collect_fresh(&self, gone: &Vec<Slot>, draws: &Draws) -> (fresh: Vec<Rocket>)
        requires
            self.wf(),
            shells(gone@).len() == draws@.bursts.len(),
            forall|k: int|
                0 <= k < draws@.bursts.len() ==> (#[trigger] draws@.bursts[k]).shaped(self@.config),
            draws@.launch matches Some(l) ==> l.shaped(self@.config),
        ensures
            fresh@ == bursts_of(self@.config, self@.ring, shells(gone@), draws@.bursts)
                + match draws@.launch {
                Some(launch) => seq![launched(self@.config, launch)],
                None => Seq::empty(),
            },
            forall|i: int|
                0 <= i < fresh.len() ==> !(#[trigger] fresh[i]).spent(self@.config.flight_duration),
    {
        let ghost config = self@.config;
        let ghost ring = self@.ring;
        let mut fresh: Vec<Rocket> = Vec::new();
        let mut used: usize = 0;
        let mut i: usize = 0;
        proof {
            reveal(Seq::filter);
            assert(gone@.take(0) =~= Seq::<Slot>::empty());
            assert(gone@.take(0) + gone@.skip(0) =~= gone@);
            assert(draws@.bursts.take(0) =~= Seq::empty());
        }
        while i < gone.len()
            invariant
                self.wf(),
                config == self@.config,
                ring == self@.ring,
                i <= gone.len(),
                shells(gone@).len() == draws@.bursts.len(),
                draws@.bursts.len() == draws.bursts.len(),
                forall|k: int|
                    0 <= k < draws@.bursts.len() ==> (#[trigger] draws@.bursts[k]).shaped(config),
                used == shells(gone@.take(i as int)).len(),
                used + shells(gone@.skip(i as int)).len() == shells(gone@).len(),
                fresh@ == bursts_of(
                    config,
                    ring,
                    shells(gone@.take(i as int)),
                    draws@.bursts.take(used as int),
                ),
                forall|j: int|
                    0 <= j < fresh.len() ==> !(#[trigger] fresh[j]).spent(config.flight_duration),
            decreases gone.len() - i,
        {
            let slot = gone[i];
            proof {
                let ghost shell = |s: Slot| s.rocket.is_shell;
                assert(gone@.take(i + 1) =~= gone@.take(i as int).push(slot));
                lemma_filter_push(gone@.take(i as int), shell, slot);
                assert(gone@.skip(i as int) =~= seq![slot] + gone@.skip(i + 1));
                Seq::filter_distributes_over_add(seq![slot], gone@.skip(i + 1), shell);
                lemma_filter_push(Seq::<Slot>::empty(), shell, slot);
                assert(Seq::<Slot>::empty().push(slot) =~= seq![slot]);
            }
            if slot.rocket.is_shell {
                assert(used < draws.bursts.len());
                assert(draws@.bursts[used as int] == draws.bursts@[used as int]@);
                let mut particles = fragment(
                    &self.config,
                    &self.ring,
                    slot.rocket.position,
                    &draws.bursts[used],
                );
                proof {
                    let before = shells(gone@.take(i as int));
                    let after = shells(gone@.take(i + 1));
                    assert(after.drop_last() =~= before);
                    assert(draws@.bursts.take(used + 1).drop_last() =~= draws@.bursts.take(
                        used as int,
                    ));
                }
                fresh.append(&mut particles);
                used += 1;
            }
            i += 1;
        }
        proof {
            assert(gone@.take(gone.len() as int) =~= gone@);
            assert(draws@.bursts.take(used as int) =~= draws@.bursts);
        }
        match draws.launch {
            Some(l) => {
                fresh.push(launch(&self.config, &l));
            },
            None => {
                assert(fresh@ + Seq::<Rocket>::empty() =~= fresh@);
            },
        }
        fresh
    }

    /// Takes the step over the elapsed time `raw` with the draws `draws`.
    ///
    /// The step is taken, and the engine is then `stepped(raw, draws)`, if
    /// the store has ids enough left and the draws hold what the step
    /// demands, each choice in its interval. Otherwise the engine is left
    /// as it is and the error says which of the three failed first.
    ///
    /// After a step, no rocket in the store has expired. Every rocket that
    /// was there before and has not expired is there still. Each shell that
    /// expired has left `burst_count` particles where it expired; a rocket
    /// that expired and was no shell has left nothing. At most one shell
    /// was launched, and where one was, the launch timer is set to an
    /// interval from the configured ones.
    pub fn step_with(&mut self, raw: u64, draws: &Draws) -> (r: Result<StepReport, StepError>)
        requires
            old(self).wf(),
        ensures
            final(self).wf(),
            match r {
                Ok(report) => {
                    &&& old(self)@.refusal(raw, draws@) is None
                    &&& final(self)@ == old(self)@.stepped(raw, draws@)
                    &&& report.dt == old(self)@.dt(raw)
                    &&& report.dt <= old(self)@.config.max_delta
                    &&& report.gone@ == old(self)@.expiring(raw)
                    &&& report.first_fresh == old(self)@.store.next_id
                    &&& report.fresh == old(self)@.fresh_count(raw)
                    &&& report.launched == old(self)@.fires(raw)
                    &&& final(self)@.store.next_id == old(self)@.store.next_id + report.fresh
                    &&& forall|i: int|
                        0 <= i < final(self)@.store.slots.len() ==> !(
                        #[trigger] final(self)@.store.slots[i]).rocket.spent(
                            old(self)@.config.flight_duration,
                        )
                    &&& report.launched ==> old(self)@.config.rearm.contains(
                        final(self)@.timer.interval,
                    )
                },
                Err(e) => {
                    &&& old(self)@.refusal(raw, draws@) == Some(e)
                    &&& final(self)@ == old(self)@
                },
            },
    {
        let demand = self.demand(raw);
        if !self.has_room(&demand) {
            return Err(StepError::OutOfIds);
        }
        if !draws.is_shaped(&self.config, &demand) {
            return Err(StepError::Shape);
        }
        if !draws.is_in_range(&self.config) {
            return Err(StepError::Range);
        }
        let dt = self.config.clamp_delta(raw);
        let duration = self.config.flight_duration;
        self.store.advance_all(self.config.gravity, dt, duration);
        let gone = self.store.sweep(duration);
        let fresh = self.collect_fresh(&gone, draws);
        proof {
            lemma_bursts_of(
                self@.config,
                self@.ring,
                old(self)@.bursting(raw),
                draws@.bursts,
                0,
                0,
            );
            lemma_spawned_all(self@.store, fresh@);
        }
        let first = self.store.spawn_all(&fresh).unwrap();
        let fired = match draws.launch {
            Some(l) => self.timer.tick(dt, l.interval),
            None => self.timer.tick(dt, 0),
        };
        Ok(StepReport { dt, gone, first_fresh: first, fresh: fresh.len(), launched: fired })
    }

    /// Takes the step over the elapsed time `raw`, with draws from the
    /// random source of the display, and returns them with the report.
    ///
    /// Whatever was drawn, the draws hold what the step asked for, each
    /// choice in its interval, and the engine is then `stepped(raw, draws)`.
    /// The step fails, and leaves the engine as it is, only where the store
    /// has not ids enough left.
    pub fn step(&mut self, raw: u64) -> (r: Result<(StepReport, Draws), StepError>)
        requires
            old(self).wf(),
        ensures
            final(self).wf(),
            match r {
                Ok((report, draws)) => {
                    &&& old(self)@.refusal(raw, draws@) is None
                    &&& final(self)@ == old(self)@.stepped(raw, draws@)
                    &&& report.dt == old(self)@.dt(raw)
                    &&& report.dt <= old(self)@.config.max_delta
                    &&& report.gone@ == old(self)@.expiring(raw)
                    &&& report.first_fresh == old(self)@.store.next_id
                    &&& report.fresh == old(self)@.fresh_count(raw)
                    &&& report.launched == old(self)@.fires(raw)
                    &&& final(self)@.store.next_id == old(self)@.store.next_id + report.fresh
                    &&& forall|i: int|
                        0 <= i < final(self)@.store.slots.len() ==> !(
                        #[trigger] final(self)@.store.slots[i]).rocket.spent(
                            old(self)@.config.flight_duration,
                        )
                    &&& report.launched ==> old(self)@.config.rearm.contains(
                        final(self)@.timer.interval,
                    )
                },
                Err(e) => {
                    &&& e == StepError::OutOfIds
                    &&& !old(self)@.has_room(raw)
                    &&& final(self)@ == old(self)@
                },
            },
    {
        let demand = self.demand(raw);
        let draws = draw_for(&self.config, &demand);
        match self.step_with(raw, &draws) {
            Ok(report) => Ok((report, draws)),
            Err(e) => Err(e),
        }
    }
}

} // verus!
