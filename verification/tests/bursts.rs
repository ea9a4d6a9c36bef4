use fireworks::burst::{fragment, BurstDraw};
use fireworks::config::{Config, FlightModel};
use fireworks::fixed::{Vec2, Vec3, UNIT};
use fireworks::ring::{check_ring, check_unit, ring_angle, FULL_TURN};
use fireworks::rocket::{Motion, Rocket};

fn compass() -> Vec<Vec2> {
    vec![
        Vec2 { x: UNIT, y: 0 },
        Vec2 { x: 0, y: UNIT },
        Vec2 { x: -UNIT, y: 0 },
        Vec2 { x: 0, y: -UNIT },
    ]
}

#[test]
fn a_scattered_burst_holds_one_particle_for_each_velocity() {
    let config = Config { burst_count: 3, ..Config::standard() };
    let center = Vec3::new(12 * UNIT, 34 * UNIT, 0);
    let draw = BurstDraw {
        material: 2,
        scatter: vec![
            Vec2 { x: -100_000, y: 100_000 },
            Vec2 { x: 0, y: 0 },
            Vec2 { x: 25_000, y: -75_000 },
        ],
    };
    let particles = fragment(&config, &Vec::new(), center, &draw);
    assert_eq!(particles.len(), 3);
    for (i, particle) in particles.iter().enumerate() {
        assert_eq!(
            *particle,
            Rocket {
                position: center,
                motion: Motion::Kinematic {
                    velocity: Vec3::new(draw.scatter[i].x, draw.scatter[i].y, 0),
                    acceleration: Vec3::new(0, 0, 0),
                    remaining_time: 1_500_000,
                },
                is_shell: false,
                material: 2,
                size: 4 * UNIT,
            }
        );
    }
}

#[test]
fn a_burst_of_the_standard_display_has_fifty_particles_at_its_center() {
    let config = Config::standard();
    let center = Vec3::new(-7 * UNIT, 93 * UNIT, 0);
    let draw = BurstDraw { material: 0, scatter: vec![Vec2 { x: 1, y: -1 }; 50] };
    let particles = fragment(&config, &Vec::new(), center, &draw);
    assert_eq!(particles.len(), 50);
    assert!(particles.iter().all(|p| p.position == center));
    assert!(particles.iter().all(|p| !p.is_shell));
    assert!(particles.iter().all(|p| p.material == 0));
    assert!(particles.iter().all(|p| !p.is_spent(config.flight_duration)));
}

#[test]
fn a_ring_sends_its_particles_to_the_points_of_the_ring() {
    let config = Config {
        model: FlightModel::Directed,
        burst_count: 4,
        burst_radius: 100 * UNIT,
        ..Config::standard()
    };
    let center = Vec3::new(10 * UNIT, 20 * UNIT, 5);
    let draw = BurstDraw { material: 3, scatter: Vec::new() };
    let particles = fragment(&config, &compass(), center, &draw);
    let targets = [
        Vec3::new(110 * UNIT, 20 * UNIT, 5),
        Vec3::new(10 * UNIT, 120 * UNIT, 5),
        Vec3::new(-90 * UNIT, 20 * UNIT, 5),
        Vec3::new(10 * UNIT, -80 * UNIT, 5),
    ];
    assert_eq!(particles.len(), 4);
    for (i, particle) in particles.iter().enumerate() {
        assert_eq!(
            *particle,
            Rocket {
                position: center,
                motion: Motion::Directed { start: center, target: targets[i], time_in_flight: 0 },
                is_shell: false,
                material: 3,
                size: 4 * UNIT,
            }
        );
    }
}

#[test]
fn the_points_of_a_ring_lie_at_its_radius() {
    let config = Config {
        model: FlightModel::Directed,
        burst_count: 3,
        burst_radius: 50 * UNIT,
        ..Config::standard()
    };
    let ring = vec![
        Vec2 { x: 707_107, y: 707_107 },
        Vec2 { x: -600_000, y: 800_000 },
        Vec2 { x: 0, y: -UNIT },
    ];
    assert_eq!(check_ring(&config, &ring), Ok(()));
    let center = Vec3::new(0, 0, 0);
    let draw = BurstDraw { material: 0, scatter: Vec::new() };
    let particles = fragment(&config, &ring, center, &draw);
    let expected = [
        Vec3::new(35_355_350, 35_355_350, 0),
        Vec3::new(-30 * UNIT, 40 * UNIT, 0),
        Vec3::new(0, -50 * UNIT, 0),
    ];
    for (i, particle) in particles.iter().enumerate() {
        match particle.motion {
            Motion::Directed { target, .. } => {
                assert_eq!(target, expected[i]);
                let square = (target.x as i128) * (target.x as i128)
                    + (target.y as i128) * (target.y as i128);
                let radius = 50 * UNIT as i128;
                let slack = radius * radius * 4 / UNIT as i128 + radius * 5;
                assert!((square - radius * radius).abs() <= slack);
            }
            Motion::Kinematic { .. } => unreachable!(),
        }
    }
}

#[test]
fn the_angles_of_a_ring_of_four_are_a_quarter_turn_apart() {
    assert_eq!(ring_angle(0, 4), Some(0));
    assert_eq!(ring_angle(1, 4), Some(90_000_000));
    assert_eq!(ring_angle(2, 4), Some(180_000_000));
    assert_eq!(ring_angle(3, 4), Some(270_000_000));
    assert_eq!(ring_angle(4, 4), None);
    assert_eq!(ring_angle(0, 0), None);
}

#[test]
fn the_angles_of_a_ring_of_eleven_are_an_eleventh_of_a_turn_apart() {
    let step = FULL_TURN / 11;
    assert_eq!(step, 32_727_272);
    let mut last = ring_angle(0, 11).unwrap();
    assert_eq!(last, 0);
    for i in 1..11 {
        let here = ring_angle(i, 11).unwrap();
        assert!(here - last == step || here - last == step + 1);
        last = here;
    }
    assert_eq!(ring_angle(1, 11), Some(32_727_272));
    assert_eq!(ring_angle(10, 11), Some(327_272_727));
    assert!(FULL_TURN - last == step || FULL_TURN - last == step + 1);
}

#[test]
fn the_angles_of_a_ring_that_divides_the_turn_are_spaced_exactly() {
    for count in [1usize, 2, 3, 5, 8, 9, 12, 50, 360] {
        let step = FULL_TURN / count as u64;
        assert_eq!(step * count as u64, FULL_TURN);
        for i in 0..count {
            assert_eq!(ring_angle(i, count), Some(i as u64 * step));
        }
    }
}

#[test]
fn the_angle_of_a_very_late_particle_does_not_overflow() {
    assert_eq!(ring_angle(usize::MAX - 1, usize::MAX), Some(FULL_TURN - 1));
}

#[test]
fn directions_of_length_one_are_told_from_others() {
    assert!(check_unit(Vec2 { x: UNIT, y: 0 }));
    assert!(check_unit(Vec2 { x: 0, y: -UNIT }));
    assert!(check_unit(Vec2 { x: 600_000, y: -800_000 }));
    assert!(check_unit(Vec2 { x: 707_107, y: 707_107 }));
    assert!(check_unit(Vec2 { x: 707_106, y: 707_106 }));
    assert!(check_unit(Vec2 { x: UNIT + 1, y: 0 }));
    assert!(check_unit(Vec2 { x: UNIT - 2, y: 0 }));
    assert!(!check_unit(Vec2 { x: UNIT + 2, y: 0 }));
    assert!(!check_unit(Vec2 { x: UNIT - 3, y: 0 }));
    assert!(!check_unit(Vec2 { x: 0, y: 0 }));
    assert!(!check_unit(Vec2 { x: UNIT, y: UNIT }));
    assert!(!check_unit(Vec2 { x: 2 * UNIT + 1, y: 0 }));
    assert!(!check_unit(Vec2 { x: i64::MAX, y: i64::MIN }));
    assert!(!check_unit(Vec2 { x: i64::MIN, y: i64::MIN }));
}
