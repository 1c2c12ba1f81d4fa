//! What a renderer of a track asks for before it draws: the frame that
//! holds the way, and a duration as a clock shows it.

use vstd::prelude::*;
use crate::sample::Sample;

verus! {

/// Seconds in a minute, and minutes in an hour.
pub const SIXTY: i64 = 60;

/// `x` by `d`, rounded towards zero. Meant for a positive `d`.
pub open spec fn toward_zero(x: int, d: int) -> int {
    if x >= 0 {
        x / d
    } else {
        -((-x) / d)
    }
}

/// The hours, minutes and seconds that make `dur` seconds up: as many
/// whole hours as there are, then whole minutes, then seconds, each with the
/// sign of `dur`.
pub open spec fn clock_fields(dur: int) -> (int, int, int) {
    let hours = toward_zero(dur, SIXTY * SIXTY);
    let minutes = toward_zero(dur, SIXTY as int);
    (hours, minutes - hours * SIXTY, dur - minutes * SIXTY)
}

/// The three fields of a clock add up to the duration, minutes and seconds
/// stay under sixty, and no field goes against the sign of the duration.
pub proof fn lemma_clock_fields(dur: int)
    ensures
        ({
            let (hours, minutes, seconds) = clock_fields(dur);
            &&& hours * 3600 + minutes * 60 + seconds == dur
            &&& -60 < minutes < 60
            &&& -60 < seconds < 60
            &&& dur >= 0 ==> hours >= 0 && minutes >= 0 && seconds >= 0
            &&& dur <= 0 ==> hours <= 0 && minutes <= 0 && seconds <= 0
        }),
{
}

/// Splits a duration in seconds into hours, minutes and seconds.
pub fn clock(dur: i64) -> (fields: (i64, i64, i64))
    ensures
        (fields.0 as int, fields.1 as int, fields.2 as int) == clock_fields(dur as int),
{
    let hours: i64 = dur / (SIXTY * SIXTY);
    let minutes: i64 = dur / SIXTY;
    (hours, minutes - hours * SIXTY, dur - minutes * SIXTY)
}

/// The smallest frame along the meridians and parallels that holds every
/// sample of the way: `east` and `west` bound the longitudes, `north` and
/// `south` the latitudes, and each bound is reached by a sample.
pub open spec fn frames(way: Seq<Sample>, east: i64, west: i64, north: i64, south: i64) -> bool {
    &&& forall|i: int|
        0 <= i < way.len() ==> west <= (#[trigger] way[i]).lon <= east && south <= way[i].lat
            <= north
    &&& exists|i: int| 0 <= i < way.len() && (#[trigger] way[i]).lon == east
    &&& exists|i: int| 0 <= i < way.len() && (#[trigger] way[i]).lon == west
    &&& exists|i: int| 0 <= i < way.len() && (#[trigger] way[i]).lat == north
    &&& exists|i: int| 0 <= i < way.len() && (#[trigger] way[i]).lat == south
}

/// The frame of the way as its largest and smallest longitude and its
/// largest and smallest latitude, in this order. An empty way has none.
pub fn border_rect(way: &Vec<Sample>) -> (rect: Option<(i64, i64, i64, i64)>)
    ensures
        rect is Some <==> way.len() > 0,
        rect matches Some((east, west, north, south)) ==> frames(way@, east, west, north, south),
{
    let n: usize = way.len();
    if n == 0 {
        return None;
    }
    let mut east: i64 = way[0].lon;
    let mut west: i64 = way[0].lon;
    let mut north: i64 = way[0].lat;
    let mut south: i64 = way[0].lat;
    let mut i: usize = 1;
    while i < n
        invariant
            n == way.len(),
            1 <= i <= n,
            forall|j: int|
                0 <= j < i ==> west <= (#[trigger] way[j]).lon <= east && south <= way[j].lat
                    <= north,
            exists|j: int| 0 <= j < i && (#[trigger] way[j]).lon == east,
            exists|j: int| 0 <= j < i && (#[trigger] way[j]).lon == west,
            exists|j: int| 0 <= j < i && (#[trigger] way[j]).lat == north,
            exists|j: int| 0 <= j < i && (#[trigger] way[j]).lat == south,
        decreases n - i,
    {
        let s: Sample = way[i];
        if s.lon > east {
            east = s.lon;
        }
        if s.lon < west {
            west = s.lon;
        }
        if s.lat > north {
            north = s.lat;
        }
        if s.lat < south {
            south = s.lat;
        }
        i = i + 1;
    }
    Some((east, west, north, south))
}

} // verus!
