//! Fragmentation: the particles that a spent shell bursts into.

use vstd::prelude::*;
use crate::config::{Config, FlightModel};
use crate::fixed::{mul_fixed, product, Vec2, Vec3};
use crate::rocket::{Motion, Rocket};
use crate::store::Slot;

verus! {

/// The random choices of one burst.
#[derive(Clone, PartialEq, Eq, Debug)]
pub struct BurstDraw {
    /// The slot of the material set that every particle of the burst is
    /// drawn with.
    pub material: u32,
    /// The velocity of each particle of a scattered burst, in the plane. A
    /// ring has none.
    pub scatter: Vec<Vec2>,
}

/// A `BurstDraw` as a value.
pub struct BurstDrawView {
    pub material: u32,
    pub scatter: Seq<Vec2>,
}

impl View for BurstDraw {
    type V = BurstDrawView;

    open spec fn view(&self) -> BurstDrawView {
        BurstDrawView { material: self.material, scatter: self.scatter@ }
    }
}

/// Whether the velocity `v` exceeds the spread of a burst along neither axis.
pub open spec fn within_spread(config: Config, v: Vec2) -> bool {
    &&& -config.burst_spread <= v.x <= config.burst_spread
    &&& -config.burst_spread <= v.y <= config.burst_spread
}

impl BurstDrawView {
    /// Whether the draw holds as many velocities as the flight model asks
    /// for: one for each particle of a scattered burst, none for a ring.
    pub open spec fn shaped(self, config: Config) -> bool {
        match config.model {
            FlightModel::Kinematic => self.scatter.len() == config.burst_count,
            FlightModel::Directed => self.scatter.len() == 0,
        }
    }

    /// Whether the material is a slot of the material set and no velocity
    /// exceeds the spread of a burst along either axis.
    pub open spec fn in_range(self, config: Config) -> bool {
        &&& self.material < config.materials
        &&& forall|i: int|
            0 <= i < self.scatter.len() ==> within_spread(config, #[trigger] self.scatter[i])
    }
}

/// The point of the ring around `center` that lies in the direction `towards`.
pub open spec fn ring_point(config: Config, center: Vec3, towards: Vec2) -> Vec3 {
    center.sum(
        Vec3 {
            x: product(towards.x as int, config.burst_radius as int),
            y: product(towards.y as int, config.burst_radius as int),
            z: 0,
        },
    )
}

/// Particle `i` of the burst at `center`. It starts at `center`, bursts no
/// further, and is drawn with the material of the burst. In free flight it
/// leaves with velocity `i` of the draw; in directed flight it heads for
/// point `i` of the ring.
pub open spec fn particle(
    config: Config,
    ring: Seq<Vec2>,
    center: Vec3,
    draw: BurstDrawView,
    i: int,
) -> Rocket {
    Rocket {
        position: center,
        motion: match config.model {
            FlightModel::Kinematic => Motion::Kinematic {
                velocity: Vec3 { x: draw.scatter[i].x, y: draw.scatter[i].y, z: 0 },
                acceleration: Vec3::origin(),
                remaining_time: config.particle_lifetime,
            },
            FlightModel::Directed => Motion::Directed {
                start: center,
                target: ring_point(config, center, ring[i]),
                time_in_flight: 0,
            },
        },
        is_shell: false,
        material: draw.material,
        size: config.particle_size,
    }
}

/// The burst at `center`: `burst_count` particles.
pub open spec fn burst(config: Config, ring: Seq<Vec2>, center: Vec3, draw: BurstDrawView) -> Seq<
    Rocket,
> {
    Seq::new(config.burst_count as nat, |i: int| particle(config, ring, center, draw, i))
}

/// The bursts of the spent shells `spent`, one after the other: burst `k`
/// lies where shell `k` expired and is made of draw `k`.
pub open spec fn bursts_of(
    config: Config,
    ring: Seq<Vec2>,
    spent: Seq<Slot>,
    draws: Seq<BurstDrawView>,
) -> Seq<Rocket>
    decreases spent.len(),
{
    if spent.len() == 0 {
        Seq::empty()
    } else {
        bursts_of(config, ring, spent.drop_last(), draws.drop_last()) + burst(
            config,
            ring,
            spent.last().rocket.position,
            draws.last(),
        )
    }
}

/// The bursts of `spent` hold `burst_count` particles for each shell, and
/// particle `i` of burst `k` is particle `k * burst_count + i` of them all.
pub proof fn lemma_bursts_of(
    config: Config,
    ring: Seq<Vec2>,
    spent: Seq<Slot>,
    draws: Seq<BurstDrawView>,
    k: int,
    i: int,
)
    requires
        spent.len() == draws.len(),
    ensures
        bursts_of(config, ring, spent, draws).len() == spent.len() * config.burst_count,
        0 <= k < spent.len() && 0 <= i < config.burst_count ==> {
            &&& 0 <= k * config.burst_count + i < spent.len() * config.burst_count
            &&& bursts_of(config, ring, spent, draws)[k * config.burst_count + i] == particle(
                config,
                ring,
                spent[k].rocket.position,
                draws[k],
                i,
            )
        },
    decreases spent.len(),
{
    let n = config.burst_count as int;
    if spent.len() == 0 {
        assert(spent.len() * config.burst_count == 0) by (nonlinear_arith)
            requires
                spent.len() == 0,
        ;
    } else {
        let m = spent.len() - 1;
        lemma_bursts_of(config, ring, spent.drop_last(), draws.drop_last(), k, i);
        assert(spent.drop_last().len() == m);
        assert(spent.len() * config.burst_count == m * n + n) by (nonlinear_arith)
            requires
                spent.len() == m + 1,
                config.burst_count == n,
        ;
        if 0 <= k < spent.len() && 0 <= i < n {
            assert(0 <= k * n && k * n + n <= (m + 1) * n) by (nonlinear_arith)
                requires
                    0 <= k <= m,
                    0 <= n,
            ;
            if k < m {
                assert(k * n + n <= m * n) by (nonlinear_arith)
                    requires
                        0 <= k < m,
                        0 <= n,
                ;
            } else {
                assert(k * n + i - m * n == i);
            }
        }
    }
}

/// Every rocket of a burst is a particle: it is no shell, and under a valid
/// configuration it has not expired.
pub proof fn lemma_bursts_are_particles(
    config: Config,
    ring: Seq<Vec2>,
    spent: Seq<Slot>,
    draws: Seq<BurstDrawView>,
    j: int,
)
    requires
        0 <= j < bursts_of(config, ring, spent, draws).len(),
    ensures
        !bursts_of(config, ring, spent, draws)[j].is_shell,
        config.valid() ==> !bursts_of(config, ring, spent, draws)[j].spent(config.flight_duration),
    decreases spent.len(),
{
    if spent.len() > 0 {
        let before = bursts_of(config, ring, spent.drop_last(), draws.drop_last());
        if j < before.len() {
            lemma_bursts_are_particles(config, ring, spent.drop_last(), draws.drop_last(), j);
        }
    }
}

/// Whether an engine in the flight model of `config` can use `ring`: a
/// display in directed flight needs one direction for each particle.
pub open spec fn ring_fits(config: Config, ring: Seq<Vec2>) -> bool {
    config.model is Directed ==> ring.len() == config.burst_count
}

/// Builds the particles of the burst of a shell that expired at `center`.
///
/// There are exactly `burst_count` of them, each at `center`, none of them
/// a shell, all of the one material that was drawn for the burst.
pub fn fragment(config: &Config, ring: &Vec<Vec2>, center: Vec3, draw: &BurstDraw) -> (particles:
    Vec<Rocket>)
    requires
        draw@.shaped(*config),
        ring_fits(*config, ring@),
    ensures
        particles@ == burst(*config, ring@, center, draw@),
        particles.len() == config.burst_count,
        forall|i: int|
            0 <= i < particles.len() ==> {
                &&& (#[trigger] particles[i]).position == center
                &&& !particles[i].is_shell
                &&& particles[i].material == draw.material
            },
        config.valid() ==> forall|i: int|
            0 <= i < particles.len() ==> !(#[trigger] particles[i]).spent(config.flight_duration),
{
    let mut particles: Vec<Rocket> = Vec::new();
    let mut i: usize = 0;
    while i < config.burst_count
        invariant
            i <= config.burst_count,
            draw@.shaped(*config),
            ring_fits(*config, ring@),
            particles.len() == i,
            forall|j: int|
                0 <= j < i ==> #[trigger] particles[j] == particle(
                    *config,
                    ring@,
                    center,
                    draw@,
                    j,
                ),
        decreases config.burst_count - i,
    {
        let motion = match config.model {
            FlightModel::Kinematic => Motion::Kinematic {
                velocity: Vec3 { x: draw.scatter[i].x, y: draw.scatter[i].y, z: 0 },
                acceleration: Vec3::zero(),
                remaining_time: config.particle_lifetime,
            },
            FlightModel::Directed => Motion::Directed {
                start: center,
                target: center.plus(
                    Vec3 {
                        x: mul_fixed(ring[i].x, config.burst_radius),
                        y: mul_fixed(ring[i].y, config.burst_radius),
                        z: 0,
                    },
                ),
                time_in_flight: 0,
            },
        };
        particles.push(
            Rocket {
                position: center,
                motion,
                is_shell: false,
                material: draw.material,
                size: config.particle_size,
            },
        );
        i += 1;
    }
    assert(particles@ =~= burst(*config, ring@, center, draw@));
    particles
}

} // verus!
