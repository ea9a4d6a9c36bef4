//! The ring of a burst in directed flight: the angles at which its
//! particles leave, and the directions that stand for them.
//!
//! The engine takes the directions as they are given to it: it has no sine
//! and no cosine. What it does check is that each of them is of length one.

use vstd::prelude::*;
use vstd::arithmetic::div_mod::{lemma_fundamental_div_mod, lemma_fundamental_div_mod_converse};
use crate::burst::ring_fits;
use crate::config::{Config, ConfigError, FlightModel};
use crate::fixed::{lemma_product_bound, Vec2, UNIT};

verus! {

/// A full turn, in millionths of a degree.
pub const FULL_TURN: u64 = 360_000_000;

/// By how much the square of the length of a direction may miss the square
/// of `UNIT`: what rounding each component to a millionth can cost.
pub const UNIT_SLACK: i64 = 4_000_000;

/// The angle at which particle `i` of a ring of `count` particles leaves,
/// in millionths of a degree, rounded down.
pub open spec fn angle_of(i: int, count: int) -> int {
    i * FULL_TURN / count
}

/// From each particle of a ring to the next, the angle grows by the
/// `count`-th part of a full turn: by exactly that where `count` divides the
/// full turn, and else by that rounded down or up.
pub proof fn lemma_ring_spacing(i: int, count: int)
    requires
        count > 0,
        0 <= i,
    ensures
        (FULL_TURN as int) / count <= angle_of(i + 1, count) - angle_of(i, count) <= (FULL_TURN
            as int) / count + 1,
        (FULL_TURN as int) % count == 0 ==> angle_of(i + 1, count) - angle_of(i, count) == (
        FULL_TURN as int) / count,
        angle_of(0, count) == 0,
        angle_of(count, count) == FULL_TURN,
{
    let turn = FULL_TURN as int;
    let q = turn / count;
    let r = turn % count;
    let a = (i * turn) / count;
    let s = (i * turn) % count;
    lemma_fundamental_div_mod(turn, count);
    lemma_fundamental_div_mod(i * turn, count);
    assert((i + 1) * turn == i * turn + turn) by (nonlinear_arith);
    assert(count * a + count * q == count * (a + q)) by (nonlinear_arith);
    if s + r < count {
        lemma_fundamental_div_mod_converse((i + 1) * turn, count, a + q, s + r);
    } else {
        assert(count * (a + q + 1) == count * (a + q) + count) by (nonlinear_arith);
        lemma_fundamental_div_mod_converse((i + 1) * turn, count, a + q + 1, s + r - count);
    }
    assert(0 * turn == 0) by (nonlinear_arith);
    lemma_fundamental_div_mod_converse(0, count, 0, 0);
    assert(count * turn == turn * count) by (nonlinear_arith);
    lemma_fundamental_div_mod_converse(count * turn, count, turn, 0);
}

/// The angle at which particle `i` of a ring of `count` particles leaves.
/// `None` where the ring has no such particle.
pub fn ring_angle(i: usize, count: usize) -> (angle: Option<u64>)
    ensures
        angle is Some <==> i < count,
        angle matches Some(a) ==> a == angle_of(i as int, count as int) && a < FULL_TURN,
{
    if i >= count {
        return None;
    }
    proof {
        lemma_product_bound(
            i as int,
            FULL_TURN as int,
            0xFFFF_FFFF_FFFF_FFFF,
            0xFFFF_FFFF_FFFF_FFFF,
        );
    }
    let whole: u128 = i as u128 * FULL_TURN as u128;
    let a: u128 = whole / (count as u128);
    proof {
        let turn = FULL_TURN as int;
        lemma_fundamental_div_mod(i * turn, count as int);
        assert(i * turn < count * turn) by (nonlinear_arith)
            requires
                0 <= i < count,
                turn > 0,
        ;
        assert(count * a < count * turn ==> a < turn) by (nonlinear_arith)
            requires
                count > 0,
        ;
    }
    Some(a as u64)
}

/// Whether `v` is of length one, as nearly as its components can say.
pub open spec fn is_unit(v: Vec2) -> bool {
    UNIT * UNIT - UNIT_SLACK <= v.x * v.x + v.y * v.y <= UNIT * UNIT + UNIT_SLACK
}

/// Whether `v` is of length one.
pub fn check_unit(v: Vec2) -> (unit: bool)
    ensures
        unit == is_unit(v),
{
    let bound: i64 = 2 * UNIT;
    if v.x < -bound || v.x > bound || v.y < -bound || v.y > bound {
        proof {
            assert(v.x * v.x >= 0 && v.y * v.y >= 0) by (nonlinear_arith);
            if v.x < -bound || v.x > bound {
                assert(v.x * v.x >= 4_000_000_000_000) by (nonlinear_arith)
                    requires
                        v.x < -2_000_000 || v.x > 2_000_000,
                ;
            } else {
                assert(v.y * v.y >= 4_000_000_000_000) by (nonlinear_arith)
                    requires
                        v.y < -2_000_000 || v.y > 2_000_000,
                ;
            }
        }
        return false;
    }
    proof {
        assert(0 <= v.x * v.x <= 4_000_000_000_000) by (nonlinear_arith)
            requires
                -2_000_000 <= v.x <= 2_000_000,
        ;
        assert(0 <= v.y * v.y <= 4_000_000_000_000) by (nonlinear_arith)
            requires
                -2_000_000 <= v.y <= 2_000_000,
        ;
    }
    let square: i64 = v.x * v.x + v.y * v.y;
    UNIT * UNIT - UNIT_SLACK <= square && square <= UNIT * UNIT + UNIT_SLACK
}

/// How far the square of the distance of a ring point from the center of
/// its ring may miss the square of the radius `r`, times the square of
/// `UNIT`: what the slack of the direction and the rounding of the two
/// products can cost.
pub open spec fn radius_slack(r: int) -> int {
    UNIT_SLACK * (r * r) + 4 * (UNIT + 2) * UNIT * r + 2 * UNIT * UNIT
}

/// A direction of length one, stretched by the radius `r`, is of length
/// `r`, as nearly as rounding allows.
pub proof fn lemma_stretched_length(x: int, y: int, r: int)
    requires
        r >= 0,
        UNIT * UNIT - UNIT_SLACK <= x * x + y * y <= UNIT * UNIT + UNIT_SLACK,
    ensures
        ({
            let ox = x * r / (UNIT as int);
            let oy = y * r / (UNIT as int);
            -radius_slack(r) <= UNIT * UNIT * (ox * ox + oy * oy) - UNIT * UNIT * (r * r)
                <= radius_slack(r)
        }),
{
    let u = UNIT as int;
    let a = x * r;
    let b = y * r;
    let ox = a / u;
    let oy = b / u;
    let ex = a % u;
    let ey = b % u;
    let s = x * x + y * y - u * u;
    lemma_fundamental_div_mod(a, u);
    lemma_fundamental_div_mod(b, u);
    assert(0 <= ex < u && 0 <= ey < u);
    assert(x * x >= 0 && y * y >= 0) by (nonlinear_arith);
    assert(-(u + 2) <= x <= u + 2) by (nonlinear_arith)
        requires
            x * x <= u * u + 4 * u,
            u == 1_000_000,
    ;
    assert(-(u + 2) <= y <= u + 2) by (nonlinear_arith)
        requires
            y * y <= u * u + 4 * u,
            u == 1_000_000,
    ;
    lemma_product_bound(x, r, u + 2, r);
    lemma_product_bound(y, r, u + 2, r);
    lemma_product_bound(a, ex, (u + 2) * r, u);
    lemma_product_bound(b, ey, (u + 2) * r, u);
    lemma_product_bound(ex, ex, u, u);
    lemma_product_bound(ey, ey, u, u);
    assert(ex * ex >= 0 && ey * ey >= 0 && r * r >= 0) by (nonlinear_arith);
    assert((u * ox) * (u * ox) == a * a - 2 * (a * ex) + ex * ex) by (nonlinear_arith)
        requires
            u * ox == a - ex,
    ;
    assert((u * oy) * (u * oy) == b * b - 2 * (b * ey) + ey * ey) by (nonlinear_arith)
        requires
            u * oy == b - ey,
    ;
    assert((u * ox) * (u * ox) == u * u * (ox * ox)) by (nonlinear_arith);
    assert((u * oy) * (u * oy) == u * u * (oy * oy)) by (nonlinear_arith);
    assert(a * a == (x * x) * (r * r)) by (nonlinear_arith)
        requires
            a == x * r,
    ;
    assert(b * b == (y * y) * (r * r)) by (nonlinear_arith)
        requires
            b == y * r,
    ;
    assert((x * x) * (r * r) + (y * y) * (r * r) == u * u * (r * r) + s * (r * r))
        by (nonlinear_arith)
        requires
            s == x * x + y * y - u * u,
    ;
    lemma_product_bound(s, r * r, UNIT_SLACK as int, r * r);
    assert(u * u * (ox * ox + oy * oy) == u * u * (ox * ox) + u * u * (oy * oy))
        by (nonlinear_arith);
    assert(((u + 2) * r) * u == (u + 2) * u * r) by (nonlinear_arith);
    let total = u * u * (ox * ox) + u * u * (oy * oy);
    assert(total == a * a + b * b - 2 * (a * ex) - 2 * (b * ey) + ex * ex + ey * ey);
    assert(a * a + b * b == u * u * (r * r) + s * (r * r));
    let miss = total - u * u * (r * r);
    assert(miss == s * (r * r) - 2 * (a * ex) - 2 * (b * ey) + ex * ex + ey * ey);
    assert(-(UNIT_SLACK * (r * r)) <= s * (r * r) <= UNIT_SLACK * (r * r));
    assert(-((u + 2) * u * r) <= a * ex <= (u + 2) * u * r);
    assert(-((u + 2) * u * r) <= b * ey <= (u + 2) * u * r);
    assert(0 <= ex * ex <= u * u);
    assert(0 <= ey * ey <= u * u);
    assert(radius_slack(r) == UNIT_SLACK * (r * r) + 4 * ((u + 2) * u * r) + 2 * (u * u)) by {
        assert(4 * (UNIT + 2) * UNIT * r == 4 * ((u + 2) * u * r)) by (nonlinear_arith)
            requires
                u == UNIT,
        ;
    }
    assert(-radius_slack(r) <= miss <= radius_slack(r));
    assert(UNIT * UNIT * (ox * ox + oy * oy) - UNIT * UNIT * (r * r) == miss);
}

/// Whether an engine with the configuration `config` can use `ring`. A
/// display in free flight has no use for a ring and takes any. A display
/// in directed flight needs one direction of length one for each particle
/// of a burst.
pub open spec fn ring_ok(config: Config, ring: Seq<Vec2>) -> bool {
    config.model is Directed ==> {
        &&& ring.len() == config.burst_count
        &&& forall|i: int| 0 <= i < ring.len() ==> is_unit(#[trigger] ring[i])
    }
}

/// What is wrong with `ring`, if anything is.
pub open spec fn ring_fault(config: Config, ring: Seq<Vec2>) -> Option<ConfigError> {
    if config.model is Kinematic {
        None
    } else if ring.len() != config.burst_count {
        Some(ConfigError::RingSize)
    } else if exists|i: int| 0 <= i < ring.len() && !is_unit(#[trigger] ring[i]) {
        Some(ConfigError::RingDirection)
    } else {
        None
    }
}

/// Checks `ring` against `config`.
pub fn check_ring(config: &Config, ring: &Vec<Vec2>) -> (r: Result<(), ConfigError>)
    ensures
        r is Ok <==> ring_ok(*config, ring@),
        match r {
            Ok(_) => ring_fault(*config, ring@) is None,
            Err(e) => ring_fault(*config, ring@) == Some(e),
        },
        r is Ok ==> ring_fits(*config, ring@),
{
    match config.model {
        FlightModel::Kinematic => Ok(()),
        FlightModel::Directed => {
            if ring.len() != config.burst_count {
                return Err(ConfigError::RingSize);
            }
            let mut i: usize = 0;
            while i < ring.len()
                invariant
                    i <= ring.len(),
                    config.model is Directed,
                    ring.len() == config.burst_count,
                    forall|j: int| 0 <= j < i ==> is_unit(#[trigger] ring[j]),
                decreases ring.len() - i,
            {
                if !check_unit(ring[i]) {
                    assert(!is_unit(ring@[i as int]));
                    return Err(ConfigError::RingDirection);
                }
                i += 1;
            }
            Ok(())
        },
    }
}

} // verus!
