//! The simulated entities the renderer draws.

use vstd::prelude::*;
use crate::ease::SCALE;
use crate::vecmat::{Vec3, COORD_MAX};

verus! {

/// A point-like simulated entity: a position in scene space, an RGB color
/// with channels in `[0, 1]` (fixed-point), and a sprite radius.
#[derive(Clone, Copy, PartialEq, Eq, Structural)]
pub struct Body {
    pub position: Vec3,
    pub color: Vec3,
    pub radius: i64,
}

impl Body {
    /// The position is within the coordinate range, the color channels are
    /// normalized, and the radius is non-negative and bounded.
    pub open spec fn wf(self) -> bool {
        &&& self.position.bounded()
        &&& 0 <= self.color.x <= SCALE
        &&& 0 <= self.color.y <= SCALE
        &&& 0 <= self.color.z <= SCALE
        &&& 0 <= self.radius <= COORD_MAX
    }

    pub fn radius(&self) -> (r: i64)
        ensures
            r == self.radius,
    {
        self.radius
    }
}

} // verus!
