//! One recorded point of a track.

use vstd::prelude::*;

verus! {

/// A geo-tagged point, with what was measured between it and the points
/// recorded before it.
///
/// Units: `lat` and `lon` in billionths of a degree, `elevation` in
/// millimetres, `time` in whole seconds since the Unix epoch, `leg` in
/// millimetres, `turn` in millionths of a degree.
#[derive(Clone, Copy, Debug, PartialEq, Eq)]
pub struct Sample {
    /// Latitude.
    pub lat: i64,
    /// Longitude.
    pub lon: i64,
    /// Height above sea level, where the recorder knew it.
    pub elevation: Option<i64>,
    /// Instant of the recording, where the recorder knew it.
    pub time: Option<i64>,
    /// Great-circle distance from the sample recorded just before this one.
    /// Carries no meaning on the first sample of a track.
    pub leg: u64,
    /// Absolute angle between the two vectors that end at this sample and
    /// start at the sample two places back and at the sample just before.
    /// Carries no meaning on the first two samples of a track.
    pub turn: u32,
}

/// Two samples lie on the same coordinates.
pub open spec fn same_place(a: Sample, b: Sample) -> bool {
    a.lat == b.lat && a.lon == b.lon
}

impl Sample {
    /// Whether `self` and `other` lie on the same coordinates.
    pub fn at_same_place(&self, other: &Sample) -> (same: bool)
        ensures
            same == same_place(*self, *other),
    {
        self.lat == other.lat && self.lon == other.lon
    }
}

} // verus!
