use fireworks::burst::BurstDraw;
use fireworks::config::{Config, FlightModel, Span};
use fireworks::draws::{Demand, Draws};
use fireworks::engine::{Engine, StepError};
use fireworks::fixed::{Vec2, Vec3, UNIT};
use fireworks::launch::{Heading, LaunchDraw};
use fireworks::rocket::{Motion, Rocket};
use fireworks::store::{Slot, Store};

const TENTH: u64 = 100_000;

/// The standard display with its first launch far away.
fn quiet() -> Config {
    Config { first_launch: 1000 * UNIT, ..Config::standard() }
}

fn kinematic(remaining_time: i64, is_shell: bool) -> Rocket {
    Rocket {
        position: Vec3::new(0, -200 * UNIT, 0),
        motion: Motion::Kinematic {
            velocity: Vec3::new(0, 150_000, 0),
            acceleration: Vec3::new(0, 0, 0),
            remaining_time,
        },
        is_shell,
        material: 1,
        size: 5 * UNIT,
    }
}

fn remaining(rocket: &Rocket) -> i64 {
    match rocket.motion {
        Motion::Kinematic { remaining_time, .. } => remaining_time,
        Motion::Directed { .. } => panic!("a rocket in free flight was expected"),
    }
}

#[test]
fn a_shell_bursts_in_the_step_in_which_its_time_runs_out() {
    let mut engine = Engine::new(quiet(), Vec::new()).unwrap();
    let id = engine.spawn(kinematic(3 * UNIT, true)).unwrap();
    let mut last = 3 * UNIT;
    for step in 1..=29 {
        let (report, draws) = engine.step(TENTH).unwrap();
        assert_eq!(report.dt, TENTH);
        assert!(report.gone.is_empty());
        assert_eq!(report.fresh, 0);
        assert!(!report.launched);
        assert!(draws.bursts.is_empty());
        assert_eq!(engine.store().len(), 1);
        let rocket = engine.store().get(id).unwrap();
        assert!(remaining(&rocket) <= last);
        assert_eq!(remaining(&rocket), 3 * UNIT - step * TENTH as i64);
        last = remaining(&rocket);
    }
    assert_eq!(engine.demand(TENTH), Demand { bursts: 1, launch: false });
    let (report, draws) = engine.step(TENTH).unwrap();
    assert_eq!(report.gone.len(), 1);
    assert_eq!(report.gone[0].id, id);
    assert_eq!(remaining(&report.gone[0].rocket), 0);
    assert_eq!(report.fresh, 50);
    assert_eq!(report.first_fresh, 1);
    assert!(!report.launched);
    assert_eq!(draws.bursts.len(), 1);
    assert_eq!(engine.store().get(id), None);
    assert_eq!(engine.store().len(), 50);
    let center = report.gone[0].rocket.position;
    for (i, slot) in engine.store().slots().iter().enumerate() {
        assert_eq!(slot.id, 1 + i as u64);
        assert_eq!(slot.rocket.position, center);
        assert!(!slot.rocket.is_shell);
        assert_eq!(slot.rocket.material, draws.bursts[0].material);
        assert_eq!(remaining(&slot.rocket), 1_500_000);
    }
}

#[test]
fn a_rocket_that_is_no_shell_leaves_nothing() {
    let mut engine = Engine::new(quiet(), Vec::new()).unwrap();
    let dud = engine.spawn(kinematic(TENTH as i64, false)).unwrap();
    let shell = engine.spawn(kinematic(UNIT, true)).unwrap();
    assert_eq!(engine.demand(TENTH), Demand { bursts: 0, launch: false });
    let report = engine.step_with(TENTH, &Draws::none()).unwrap();
    assert_eq!(report.gone.len(), 1);
    assert_eq!(report.gone[0].id, dud);
    assert_eq!(report.fresh, 0);
    assert_eq!(engine.store().len(), 1);
    assert_eq!(engine.store().get(dud), None);
    assert!(engine.store().get(shell).is_some());
    assert_eq!(engine.store().next_id(), 2);
}

#[test]
fn particles_leave_the_store_when_their_lifetime_is_over() {
    let mut engine = Engine::new(quiet(), Vec::new()).unwrap();
    engine.spawn(kinematic(TENTH as i64, true)).unwrap();
    let (report, _) = engine.step(TENTH).unwrap();
    assert_eq!(report.fresh, 50);
    for _ in 0..14 {
        let (report, _) = engine.step(TENTH).unwrap();
        assert!(report.gone.is_empty());
        assert_eq!(engine.store().len(), 50);
    }
    let (report, draws) = engine.step(TENTH).unwrap();
    assert_eq!(report.gone.len(), 50);
    assert_eq!(report.fresh, 0);
    assert!(draws.bursts.is_empty());
    assert_eq!(engine.store().len(), 0);
    assert_eq!(engine.store().next_id(), 51);
}

#[test]
fn a_step_does_exactly_what_its_draws_say() {
    let config = Config { burst_count: 2, first_launch: 2 * TENTH as i64, ..Config::standard() };
    let mut engine = Engine::new(config, Vec::new()).unwrap();
    engine.spawn(kinematic(2 * TENTH as i64, true)).unwrap();
    engine.spawn(kinematic(UNIT, true)).unwrap();
    assert_eq!(engine.demand(2 * TENTH), Demand { bursts: 1, launch: true });
    let draws = Draws {
        bursts: vec![BurstDraw {
            material: 3,
            scatter: vec![Vec2 { x: 100_000, y: -100_000 }, Vec2 { x: -5, y: 7 }],
        }],
        launch: Some(LaunchDraw {
            offset: 10 * UNIT,
            heading: Heading::Velocity { x: -150_000, y: 200_000 },
            interval: 300_000,
        }),
    };
    let report = engine.step_with(2 * TENTH, &draws).unwrap();
    // Gravity of -0.05 over 0.2 takes 0.01 off the velocity of 0.15.
    let center = Vec3::new(0, -200 * UNIT + 140_000, 0);
    let moved = |remaining_time: i64| Rocket {
        position: center,
        motion: Motion::Kinematic {
            velocity: Vec3::new(0, 140_000, 0),
            acceleration: Vec3::new(0, 0, 0),
            remaining_time,
        },
        is_shell: true,
        material: 1,
        size: 5 * UNIT,
    };
    let particle = |x: i64, y: i64| Rocket {
        position: center,
        motion: Motion::Kinematic {
            velocity: Vec3::new(x, y, 0),
            acceleration: Vec3::new(0, 0, 0),
            remaining_time: 1_500_000,
        },
        is_shell: false,
        material: 3,
        size: 4 * UNIT,
    };
    let launched = Rocket {
        position: Vec3::new(10 * UNIT, -200 * UNIT, 0),
        motion: Motion::Kinematic {
            velocity: Vec3::new(-150_000, 200_000, 0),
            acceleration: Vec3::new(0, 0, 0),
            remaining_time: 2 * UNIT,
        },
        is_shell: true,
        material: 1,
        size: 5 * UNIT,
    };
    assert_eq!(report.dt, 2 * TENTH);
    assert_eq!(report.gone, vec![Slot { id: 0, rocket: moved(0) }]);
    assert_eq!(report.first_fresh, 2);
    assert_eq!(report.fresh, 3);
    assert!(report.launched);
    assert_eq!(
        *engine.store().slots(),
        vec![
            Slot { id: 1, rocket: moved(800_000) },
            Slot { id: 2, rocket: particle(100_000, -100_000) },
            Slot { id: 3, rocket: particle(-5, 7) },
            Slot { id: 4, rocket: launched },
        ]
    );
    assert_eq!(engine.store().next_id(), 5);
    assert_eq!(engine.timer().interval, 300_000);
}

#[test]
fn bursts_follow_the_order_of_the_shells() {
    let config = Config { burst_count: 1, ..quiet() };
    let mut engine = Engine::new(config, Vec::new()).unwrap();
    let at = |x: i64, is_shell: bool| Rocket {
        position: Vec3::new(x, 0, 0),
        motion: Motion::Kinematic {
            velocity: Vec3::new(0, 0, 0),
            acceleration: Vec3::new(0, 0, 0),
            remaining_time: 1,
        },
        is_shell,
        material: 0,
        size: UNIT,
    };
    engine.spawn(at(10, true)).unwrap();
    engine.spawn(at(20, false)).unwrap();
    engine.spawn(at(30, true)).unwrap();
    assert_eq!(engine.demand(TENTH), Demand { bursts: 2, launch: false });
    let draws = Draws {
        bursts: vec![
            BurstDraw { material: 1, scatter: vec![Vec2 { x: 1, y: 1 }] },
            BurstDraw { material: 2, scatter: vec![Vec2 { x: 2, y: 2 }] },
        ],
        launch: None,
    };
    let report = engine.step_with(TENTH, &draws).unwrap();
    assert_eq!(report.gone.len(), 3);
    assert_eq!(report.fresh, 2);
    let slots = engine.store().slots();
    assert_eq!(slots.len(), 2);
    assert_eq!((slots[0].id, slots[0].rocket.material), (3, 1));
    assert_eq!((slots[1].id, slots[1].rocket.material), (4, 2));
    assert_eq!(slots[0].rocket.position.x, 10);
    assert_eq!(slots[1].rocket.position.x, 30);
}

#[test]
fn a_fixed_interval_fires_again_after_exactly_that_time() {
    let config = Config { rearm: Span::new(UNIT, UNIT), ..Config::standard() };
    let mut engine = Engine::new(config, Vec::new()).unwrap();
    let mut fired_at = Vec::new();
    for step in 1..=45 {
        let (report, _) = engine.step(TENTH).unwrap();
        if report.launched {
            fired_at.push(step);
            assert_eq!(engine.timer().interval, UNIT);
        }
    }
    assert_eq!(fired_at, vec![10, 20, 30, 40]);
}

#[test]
fn a_stalled_clock_launches_one_rocket_and_no_more() {
    let config = Config { first_launch: TENTH as i64, ..Config::standard() };
    let mut engine = Engine::new(config, Vec::new()).unwrap();
    let (report, draws) = engine.step(3600 * UNIT as u64).unwrap();
    assert_eq!(report.dt, 200_000);
    assert!(report.launched);
    assert_eq!(report.fresh, 1);
    assert_eq!(engine.store().len(), 1);
    assert!(engine.store().get(0).unwrap().is_shell);
    assert!(config.rearm.holds(engine.timer().interval));
    assert_eq!(engine.timer().interval, draws.launch.unwrap().interval);
    for _ in 0..200 {
        let shells_before = engine.store().slots().iter().filter(|s| s.rocket.is_shell).count();
        let (report, _) = engine.step(u64::MAX).unwrap();
        assert!(report.dt <= config.max_delta);
        let shells_gone = report.gone.iter().filter(|s| s.rocket.is_shell).count();
        let shells_after = engine.store().slots().iter().filter(|s| s.rocket.is_shell).count();
        assert_eq!(report.fresh, 50 * shells_gone + if report.launched { 1 } else { 0 });
        assert_eq!(shells_after + shells_gone, shells_before + if report.launched { 1 } else { 0 });
        if report.launched {
            assert!(config.rearm.holds(engine.timer().interval));
        }
        assert!(engine.store().slots().iter().all(|s| !s.rocket.is_spent(config.flight_duration)));
    }
}

#[test]
fn no_step_is_longer_than_the_longest_step() {
    let mut engine = Engine::new(quiet(), Vec::new()).unwrap();
    let id = engine.spawn(kinematic(UNIT, true)).unwrap();
    for (raw, dt) in [(0u64, 0u64), (1, 1), (199_999, 199_999), (200_000, 200_000), (200_001, 200_000), (u64::MAX, 200_000)] {
        let before = remaining(&engine.store().get(id).unwrap());
        let (report, _) = engine.step(raw).unwrap();
        assert_eq!(report.dt, dt);
        match engine.store().get(id) {
            Some(rocket) => assert_eq!(remaining(&rocket), before - dt as i64),
            None => assert!(before - dt as i64 <= 0),
        }
    }
}

#[test]
fn draws_of_the_wrong_shape_are_refused() {
    let config = Config { first_launch: TENTH as i64, burst_count: 2, ..Config::standard() };
    let mut engine = Engine::new(config, Vec::new()).unwrap();
    engine.spawn(kinematic(TENTH as i64, true)).unwrap();
    assert_eq!(engine.demand(TENTH), Demand { bursts: 1, launch: true });
    let burst = BurstDraw { material: 0, scatter: vec![Vec2 { x: 0, y: 0 }; 2] };
    let launch = LaunchDraw {
        offset: 0,
        heading: Heading::Velocity { x: 0, y: 150_000 },
        interval: 100_000,
    };
    let wrong = [
        Draws::none(),
        Draws { bursts: vec![burst.clone()], launch: None },
        Draws { bursts: Vec::new(), launch: Some(launch) },
        Draws { bursts: vec![burst.clone(), burst.clone()], launch: Some(launch) },
        Draws {
            bursts: vec![BurstDraw { material: 0, scatter: vec![Vec2 { x: 0, y: 0 }; 3] }],
            launch: Some(launch),
        },
        Draws {
            bursts: vec![burst.clone()],
            launch: Some(LaunchDraw { heading: Heading::Height { y: 150 * UNIT }, ..launch }),
        },
    ];
    for draws in wrong.iter() {
        assert_eq!(engine.step_with(TENTH, draws), Err(StepError::Shape));
        assert_eq!(engine.store().len(), 1);
        assert_eq!(engine.store().get(0), Some(kinematic(TENTH as i64, true)));
        assert_eq!(engine.store().next_id(), 1);
        assert_eq!(engine.timer().interval, TENTH as i64);
    }
    let right = Draws { bursts: vec![burst], launch: Some(launch) };
    assert!(engine.step_with(TENTH, &right).is_ok());
    assert_eq!(engine.store().len(), 3);
}

#[test]
fn draws_outside_their_spans_are_refused() {
    let config = Config { first_launch: TENTH as i64, burst_count: 1, ..Config::standard() };
    let mut engine = Engine::new(config, Vec::new()).unwrap();
    engine.spawn(kinematic(TENTH as i64, true)).unwrap();
    let burst = BurstDraw { material: 3, scatter: vec![Vec2 { x: 100_000, y: -100_000 }] };
    let launch = LaunchDraw {
        offset: -50 * UNIT,
        heading: Heading::Velocity { x: 150_000, y: 150_000 },
        interval: 500_000,
    };
    let wrong = [
        Draws {
            bursts: vec![BurstDraw { material: 4, ..burst.clone() }],
            launch: Some(launch),
        },
        Draws {
            bursts: vec![BurstDraw { material: 3, scatter: vec![Vec2 { x: 100_001, y: 0 }] }],
            launch: Some(launch),
        },
        Draws {
            bursts: vec![BurstDraw { material: 3, scatter: vec![Vec2 { x: 0, y: -100_001 }] }],
            launch: Some(launch),
        },
        Draws { bursts: vec![burst.clone()], launch: Some(LaunchDraw { offset: 51 * UNIT, ..launch }) },
        Draws { bursts: vec![burst.clone()], launch: Some(LaunchDraw { interval: 500_001, ..launch }) },
        Draws { bursts: vec![burst.clone()], launch: Some(LaunchDraw { interval: -1, ..launch }) },
        Draws {
            bursts: vec![burst.clone()],
            launch: Some(LaunchDraw { heading: Heading::Velocity { x: 0, y: 0 }, ..launch }),
        },
    ];
    for draws in wrong.iter() {
        assert_eq!(engine.step_with(TENTH, draws), Err(StepError::Range));
        assert_eq!(engine.store().len(), 1);
        assert_eq!(engine.store().get(0), Some(kinematic(TENTH as i64, true)));
        assert_eq!(engine.timer().interval, TENTH as i64);
    }
    let right = Draws { bursts: vec![burst], launch: Some(launch) };
    assert!(engine.step_with(TENTH, &right).is_ok());
}

#[test]
fn a_step_that_would_run_out_of_ids_is_not_taken() {
    let store = Store::starting_at(u64::MAX - 50);
    let mut engine = Engine::with_store(quiet(), Vec::new(), store).unwrap();
    let id = engine.spawn(kinematic(TENTH as i64, true)).unwrap();
    assert_eq!(id, u64::MAX - 50);
    assert_eq!(engine.demand(TENTH), Demand { bursts: 1, launch: false });
    assert_eq!(engine.step(TENTH).err(), Some(StepError::OutOfIds));
    assert_eq!(engine.step_with(TENTH, &Draws::none()), Err(StepError::OutOfIds));
    assert_eq!(engine.store().len(), 1);
    assert_eq!(engine.store().get(id), Some(kinematic(TENTH as i64, true)));
    assert_eq!(engine.store().next_id(), u64::MAX - 49);
    assert_eq!(engine.timer().interval, 1000 * UNIT);
}

#[test]
fn a_step_that_uses_the_last_ids_is_taken() {
    let store = Store::starting_at(u64::MAX - 51);
    let mut engine = Engine::with_store(quiet(), Vec::new(), store).unwrap();
    engine.spawn(kinematic(TENTH as i64, true)).unwrap();
    let (report, _) = engine.step(TENTH).unwrap();
    assert_eq!(report.fresh, 50);
    assert_eq!(engine.store().next_id(), u64::MAX);
    assert_eq!(engine.spawn(kinematic(UNIT, true)), None);
}

#[test]
fn despawning_through_the_engine_takes_a_stale_id_in_its_stride() {
    let mut engine = Engine::new(quiet(), Vec::new()).unwrap();
    let id = engine.spawn(kinematic(UNIT, true)).unwrap();
    assert_eq!(engine.store().get(id), Some(kinematic(UNIT, true)));
    assert!(engine.despawn(id));
    assert!(!engine.despawn(id));
    assert_eq!(engine.store().get(id), None);
    assert_eq!(engine.store().len(), 0);
    let (report, _) = engine.step(TENTH).unwrap();
    assert!(report.gone.is_empty());
    assert_eq!(engine.store().get(id), None);
}

#[test]
fn a_directed_display_climbs_bursts_into_a_ring_and_goes_dark() {
    let config = Config {
        model: FlightModel::Directed,
        burst_count: 4,
        burst_radius: 100 * UNIT,
        first_launch: TENTH as i64,
        rearm: Span::new(1000 * UNIT, 1000 * UNIT),
        ..Config::standard()
    };
    let ring = vec![
        Vec2 { x: UNIT, y: 0 },
        Vec2 { x: 0, y: UNIT },
        Vec2 { x: -UNIT, y: 0 },
        Vec2 { x: 0, y: -UNIT },
    ];
    let mut engine = Engine::new(config, ring).unwrap();
    let draws = Draws {
        bursts: Vec::new(),
        launch: Some(LaunchDraw {
            offset: 20 * UNIT,
            heading: Heading::Height { y: 100 * UNIT },
            interval: 1000 * UNIT,
        }),
    };
    let report = engine.step_with(TENTH, &draws).unwrap();
    assert!(report.launched);
    let start = Vec3::new(20 * UNIT, -200 * UNIT, 0);
    let target = Vec3::new(20 * UNIT, 100 * UNIT, 0);
    assert_eq!(
        engine.store().get(0),
        Some(Rocket {
            position: start,
            motion: Motion::Directed { start, target, time_in_flight: 0 },
            is_shell: true,
            material: 1,
            size: 5 * UNIT,
        })
    );
    for step in 1..=30 {
        let report = engine.step_with(TENTH, &Draws::none()).unwrap();
        assert!(report.gone.is_empty());
        let rocket = engine.store().get(0).unwrap();
        assert_eq!(rocket.position, Vec3::new(20 * UNIT, -200 * UNIT + step * 10 * UNIT, 0));
    }
    assert_eq!(engine.store().get(0).unwrap().position, target);
    assert_eq!(engine.demand(TENTH), Demand { bursts: 1, launch: false });
    let burst = Draws { bursts: vec![BurstDraw { material: 2, scatter: Vec::new() }], launch: None };
    let report = engine.step_with(TENTH, &burst).unwrap();
    assert_eq!(report.gone.len(), 1);
    assert_eq!(report.fresh, 4);
    let center = report.gone[0].rocket.position;
    assert_eq!(center, Vec3::new(20 * UNIT, 110 * UNIT, 0));
    let targets = [
        Vec3::new(120 * UNIT, 110 * UNIT, 0),
        Vec3::new(20 * UNIT, 210 * UNIT, 0),
        Vec3::new(-80 * UNIT, 110 * UNIT, 0),
        Vec3::new(20 * UNIT, 10 * UNIT, 0),
    ];
    for (i, slot) in engine.store().slots().iter().enumerate() {
        assert_eq!(slot.id, 1 + i as u64);
        assert_eq!(
            slot.rocket,
            Rocket {
                position: center,
                motion: Motion::Directed { start: center, target: targets[i], time_in_flight: 0 },
                is_shell: false,
                material: 2,
                size: 4 * UNIT,
            }
        );
    }
    for _ in 0..30 {
        let report = engine.step_with(TENTH, &Draws::none()).unwrap();
        assert!(report.gone.is_empty());
    }
    for (i, slot) in engine.store().slots().iter().enumerate() {
        assert_eq!(slot.rocket.position, targets[i]);
    }
    let report = engine.step_with(TENTH, &Draws::none()).unwrap();
    assert_eq!(report.gone.len(), 4);
    assert_eq!(report.fresh, 0);
    assert_eq!(engine.store().len(), 0);
}
