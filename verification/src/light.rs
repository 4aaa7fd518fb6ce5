//! Stimulus sources ("lights"): point emitters with a positive intensity and
//! an opaque visual tag, relocated but never destroyed during a run.

use vstd::prelude::*;

verus! {

use crate::geom::{LIGHT_POS_LIMIT, Point};

/// Largest admitted intensity, in micro-units (one hundred units).
pub const INTENSITY_MAX: i64 = 100_000_000;

/// A stimulus source: a position, a positive intensity in micro-units, and a
/// visual tag the simulation core never interprets.
#[derive(Clone, Copy, PartialEq, Eq, Structural, Debug)]
pub struct Light {
    pub position: Point,
    pub tag: u32,
    pub intensity: i64,
}

impl Light {
    /// A well-formed light: positive bounded intensity, in-range position.
    pub open spec fn wf(self) -> bool {
        &&& 0 < self.intensity <= INTENSITY_MAX
        &&& -LIGHT_POS_LIMIT <= self.position.x <= LIGHT_POS_LIMIT
        &&& -LIGHT_POS_LIMIT <= self.position.y <= LIGHT_POS_LIMIT
    }

    /// A new light at `position` with the given tag and intensity.
    pub fn new(position: Point, tag: u32, intensity: i64) -> (l: Light)
        requires
            0 < intensity <= INTENSITY_MAX,
            -LIGHT_POS_LIMIT <= position.x <= LIGHT_POS_LIMIT,
            -LIGHT_POS_LIMIT <= position.y <= LIGHT_POS_LIMIT,
        ensures
            l == (Light { position, tag, intensity }),
            l.wf(),
    {
        Light { position, tag, intensity }
    }
}

/// Every light of the sequence is well-formed.
pub open spec fn lights_wf(s: Seq<Light>) -> bool {
    forall|i: int| 0 <= i < s.len() ==> #[trigger] s[i].wf()
}

} // verus!
