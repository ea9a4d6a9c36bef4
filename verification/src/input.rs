//! The pointer, in the coordinates of the simulation.

use vstd::prelude::*;
use crate::fixed::{half, sat64, sub_sat, Vec2};

verus! {

/// The point of the simulation that lies under the pointer at `raw`, in a
/// view of the given width and height. The pointer is measured from a
/// corner of the view, the simulation from its middle.
pub open spec fn centered(raw: Vec2, width: i64, height: i64) -> Vec2 {
    Vec2 { x: sat64(raw.x - width / 2), y: sat64(raw.y - height / 2) }
}

/// Moves the pointer position `raw` into the coordinates of the simulation.
pub fn center_cursor(raw: Vec2, width: i64, height: i64) -> (at: Vec2)
    ensures
        at == centered(raw, width, height),
{
    Vec2 { x: sub_sat(raw.x, half(width)), y: sub_sat(raw.y, half(height)) }
}

} // verus!
