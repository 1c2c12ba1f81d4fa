//! The summary of a track: a header that is always there, and three blocks
//! that are there only where the whole way gives them.

use vstd::prelude::*;
use crate::sample::Sample;
use crate::stat::distance::{capped, total_distance, way_distance};
use crate::stat::elevation::{elevation_gains, way_elevations};
use crate::stat::pause::PausePolicy;
use crate::stat::speed::{average_speed, avg_speed, max_speed, top_speed};
use crate::stat::timing::{durations, way_durations};

verus! {

/// What kind of outing a track records.
#[derive(Clone, Copy, Debug, PartialEq, Eq, Structural)]
pub enum Activity {
    Cycling,
    Running,
}

impl Activity {
    /// The activity's name.
    pub fn label(&self) -> (name: String)
        ensures
            name@ == (match *self {
                Activity::Cycling => "Cycling"@,
                Activity::Running => "Running"@,
            }),
    {
        match self {
            Activity::Cycling => "Cycling".to_owned(),
            Activity::Running => "Running".to_owned(),
        }
    }
}

/// A recorded track: what its file says of it, and its samples in the
/// order of recording.
#[derive(Clone, Debug, PartialEq, Eq)]
pub struct Track {
    /// The track's name.
    pub name: Option<String>,
    /// The device or program that recorded it.
    pub creator: Option<String>,
    /// The kind of outing.
    pub activity: Activity,
    /// The samples.
    pub way: Vec<Sample>,
}

/// Millimetres in a metre, metres in a kilometre.
pub const KILO: u64 = 1000;

/// The whole thousands in `x`: metres in millimetres, metres per hour in
/// millimetres per hour.
pub open spec fn thousandth(x: int) -> int {
    x / (KILO as int)
}

/// `x`, or the largest `usize` where `x` is beyond it. Meant for an `x`
/// that is not negative.
pub open spec fn to_usize(x: int) -> usize {
    if x > usize::MAX {
        usize::MAX
    } else {
        x as usize
    }
}

/// Computes [`to_usize`].
fn usize_of(x: u64) -> (y: usize)
    ensures
        y == to_usize(x as int),
{
    if x > usize::MAX as u64 {
        usize::MAX
    } else {
        x as usize
    }
}

/// Samples per kilometre of a way of `n` samples and `length` whole metres,
/// rounded down. A way without length has no density.
pub open spec fn density(n: int, length: int) -> Option<usize> {
    if length == 0 {
        None
    } else {
        Some(to_usize(n * KILO / length))
    }
}

/// What is known of a track as a whole.
#[derive(Clone, Debug, PartialEq, Eq)]
pub struct Header {
    /// The track's name.
    pub track: Option<String>,
    /// The instant of the first sample, in seconds since the Unix epoch.
    pub date: Option<i64>,
    /// The kind of outing.
    pub activity: Activity,
    /// The length of the way in whole metres.
    pub length: usize,
    /// The device or program that recorded the track.
    pub device: Option<String>,
    /// Samples per kilometre of the way.
    pub gps_density: Option<usize>,
}

impl Header {
    /// The length of the way in whole metres.
    pub open spec fn length_of(way: Seq<Sample>) -> usize {
        to_usize(thousandth(capped(total_distance(way))))
    }

    /// The header of `track`. Meant for a track with one sample at least.
    pub open spec fn of(track: Track) -> Header {
        Header {
            track: track.name,
            date: track.way@.first().time,
            activity: track.activity,
            length: Header::length_of(track.way@),
            device: track.creator,
            gps_density: density(track.way@.len() as int, Header::length_of(track.way@) as int),
        }
    }

    /// Builds the header of a track that has one sample at least.
    pub fn from(track: &Track) -> (header: Header)
        requires
            track.way.len() >= 1,
        ensures
            header == Header::of(*track),
    {
        let length: usize = usize_of(way_distance(&track.way) / KILO);
        let n: usize = track.way.len();
        let gps_density: Option<usize> = if length == 0 {
            None
        } else {
            let per_km: u128 = n as u128 * (KILO as u128) / (length as u128);
            if per_km > usize::MAX as u128 {
                Some(usize::MAX)
            } else {
                Some(per_km as usize)
            }
        };
        let name: Option<String> = match &track.name {
            Some(s) => Some(s.clone()),
            None => None,
        };
        let device: Option<String> = match &track.creator {
            Some(s) => Some(s.clone()),
            None => None,
        };
        Header {
            track: name,
            date: track.way[0].time,
            activity: track.activity,
            length,
            device,
            gps_density,
        }
    }
}

/// How long the outing took, in seconds.
#[derive(Clone, Copy, Debug, PartialEq, Eq)]
pub struct Timing {
    /// From the first sample to the last.
    pub total: i64,
    /// The same without the stops.
    pub pure: i64,
}

/// What [`Timing::try_from`] answers where the way gives no durations.
pub const NO_TIMING: &'static str = "Not correct timing data!";

/// What [`Velocity::try_from`] answers where the way gives no speeds.
pub const NO_VELOCITY: &'static str = "Not correct velocity data!";

/// What [`Elevation::try_from`] answers where the way gives no ascents.
pub const NO_ELEVATION: &'static str = "Not correct elevation data!";

impl Timing {
    /// The timing of the way, where it has one: see [`durations`].
    pub open spec fn of(way: Seq<Sample>, policy: PausePolicy, activity: Activity) -> Option<
        Timing,
    > {
        match durations(way, policy.gaps(activity)) {
            Some((total, pure)) => Some(Timing { total, pure }),
            None => None,
        }
    }

    /// The timing of the way, or [`NO_TIMING`] where it has none.
    pub fn try_from(way: &Vec<Sample>, policy: &PausePolicy, activity: Activity) -> (timing: Result<
        Timing,
        &'static str,
    >)
        ensures
            timing is Ok <==> Timing::of(way@, *policy, activity) is Some,
            timing matches Ok(t) ==> Timing::of(way@, *policy, activity) == Some(t),
            timing matches Err(e) ==> e@ == NO_TIMING@,
    {
        match way_durations(way, policy, activity) {
            Some((total, pure)) => Ok(Timing { total, pure }),
            None => Err(NO_TIMING),
        }
    }
}

/// How fast the outing went, in whole metres per hour.
#[derive(Clone, Copy, Debug, PartialEq, Eq)]
pub struct Velocity {
    /// Over the whole way, stops left out.
    pub average: usize,
    /// The highest between two consecutive samples.
    pub maximum: usize,
}

impl Velocity {
    /// The velocity of the way, where it has both an average and a highest
    /// speed: see [`average_speed`] and [`top_speed`].
    pub open spec fn of(way: Seq<Sample>, policy: PausePolicy, activity: Activity) -> Option<
        Velocity,
    > {
        match (average_speed(way, policy.gaps(activity)), top_speed(way)) {
            (Some(average), Some(maximum)) => Some(
                Velocity {
                    average: to_usize(thousandth(average as int)),
                    maximum: to_usize(thousandth(maximum as int)),
                },
            ),
            _ => None,
        }
    }

    /// The velocity of the way, or [`NO_VELOCITY`] where it has none.
    pub fn try_from(way: &Vec<Sample>, policy: &PausePolicy, activity: Activity) -> (velocity:
        Result<Velocity, &'static str>)
        ensures
            velocity is Ok <==> Velocity::of(way@, *policy, activity) is Some,
            velocity matches Ok(v) ==> Velocity::of(way@, *policy, activity) == Some(v),
            velocity matches Err(e) ==> e@ == NO_VELOCITY@,
    {
        let average: Option<u64> = avg_speed(way, policy, activity);
        let maximum: Option<u64> = max_speed(way);
        match (average, maximum) {
            (Some(avg), Some(max)) => Ok(
                Velocity { average: usize_of(avg / KILO), maximum: usize_of(max / KILO) },
            ),
            _ => Err(NO_VELOCITY),
        }
    }
}

/// How much the outing climbed, in whole metres.
#[derive(Clone, Copy, Debug, PartialEq, Eq)]
pub struct Elevation {
    /// Every ascent, added up.
    pub total: usize,
    /// The largest ascent without a break.
    pub maximum: usize,
}

impl Elevation {
    /// The elevation of the way, where it has one: see
    /// [`elevation_gains`].
    pub open spec fn of(way: Seq<Sample>) -> Option<Elevation> {
        match elevation_gains(way) {
            Some((total, maximum)) => Some(
                Elevation {
                    total: to_usize(thousandth(total as int)),
                    maximum: to_usize(thousandth(maximum as int)),
                },
            ),
            None => None,
        }
    }

    /// The elevation of the way, or [`NO_ELEVATION`] where it has none.
    pub fn try_from(way: &Vec<Sample>) -> (elevation: Result<Elevation, &'static str>)
        ensures
            elevation is Ok <==> Elevation::of(way@) is Some,
            elevation matches Ok(v) ==> Elevation::of(way@) == Some(v),
            elevation matches Err(e) ==> e@ == NO_ELEVATION@,
    {
        match way_elevations(way) {
            Some((total, maximum)) => Ok(
                Elevation { total: usize_of(total / KILO), maximum: usize_of(maximum / KILO) },
            ),
            None => Err(NO_ELEVATION),
        }
    }
}

/// The summary of a track.
#[derive(Clone, Debug, PartialEq, Eq)]
pub struct Stamp {
    pub header: Header,
    pub timing: Option<Timing>,
    pub velocity: Option<Velocity>,
    pub elevation: Option<Elevation>,
}

impl Stamp {
    /// The summary of `track` under `policy`. Each block is there exactly
    /// where the whole way gives it; none is ever there in part. Meant for
    /// a track with one sample at least.
    pub open spec fn of(track: Track, policy: PausePolicy) -> Stamp {
        Stamp {
            header: Header::of(track),
            timing: Timing::of(track.way@, policy, track.activity),
            velocity: Velocity::of(track.way@, policy, track.activity),
            elevation: Elevation::of(track.way@),
        }
    }

    /// Builds the summary of a track that has one sample at least.
    pub fn from(track: &Track, policy: &PausePolicy) -> (stamp: Stamp)
        requires
            track.way.len() >= 1,
        ensures
            stamp == Stamp::of(*track, *policy),
    {
        let timing: Option<Timing> = match Timing::try_from(&track.way, policy, track.activity) {
            Ok(t) => Some(t),
            Err(_) => None,
        };
        let velocity: Option<Velocity> = match Velocity::try_from(
            &track.way,
            policy,
            track.activity,
        ) {
            Ok(v) => Some(v),
            Err(_) => None,
        };
        let elevation: Option<Elevation> = match Elevation::try_from(&track.way) {
            Ok(e) => Some(e),
            Err(_) => None,
        };
        Stamp { header: Header::from(track), timing, velocity, elevation }
    }
}

/// Each block of the summary is there exactly where the way gives what
/// the block holds: the timing with the durations, the velocity with both
/// speeds, the elevation with the gains.
pub proof fn lemma_block_with_its_numbers(track: Track, policy: PausePolicy)
    ensures
        Stamp::of(track, policy).timing is Some <==> durations(
            track.way@,
            policy.gaps(track.activity),
        ) is Some,
        Stamp::of(track, policy).velocity is Some <==> average_speed(
            track.way@,
            policy.gaps(track.activity),
        ) is Some && top_speed(track.way@) is Some,
        Stamp::of(track, policy).elevation is Some <==> elevation_gains(track.way@) is Some,
{
}

/// One sample without a height takes the whole elevation block out of the
/// summary, and one without a time the whole velocity block.
pub proof fn lemma_blocks_whole_or_absent(track: Track, policy: PausePolicy, i: int)
    requires
        0 <= i < track.way@.len(),
    ensures
        track.way@[i].elevation is None ==> Stamp::of(track, policy).elevation is None,
        track.way@[i].time is None ==> Stamp::of(track, policy).velocity is None,
{
}

/// An activity for which the policy holds no thresholds has neither a
/// timing nor a velocity block.
pub proof fn lemma_no_thresholds_no_blocks(track: Track, policy: PausePolicy)
    requires
        policy.gaps(track.activity) is None,
    ensures
        Stamp::of(track, policy).timing is None,
        Stamp::of(track, policy).velocity is None,
{
}

/// A track of a single sample has a header and nothing else.
pub proof fn lemma_single_sample_header_only(track: Track, policy: PausePolicy)
    requires
        track.way@.len() == 1,
    ensures
        Stamp::of(track, policy).timing is None,
        Stamp::of(track, policy).velocity is None,
        Stamp::of(track, policy).elevation is None,
        Stamp::of(track, policy).header.length == 0,
        Stamp::of(track, policy).header.gps_density is None,
{
    crate::stat::distance::lemma_distance_of_few(track.way@);
}

} // verus!
