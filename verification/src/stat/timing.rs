//! How long an outing took, with and without its stops.

use vstd::prelude::*;
use crate::sample::Sample;
use crate::stamp::Activity;
use crate::stat::pause::{
    find_pauses, lemma_paused_within_way, pause_totals, paused_time, pauses, PauseGaps,
    PauseInterval, PausePolicy,
};

verus! {

/// The way has two samples at least, and its first and its last carry a
/// time.
pub open spec fn timed_ends(way: Seq<Sample>) -> bool {
    &&& way.len() >= 2
    &&& way.first().time is Some
    &&& way.last().time is Some
}

/// Seconds from the first sample to the last; negative where the last was
/// recorded before the first.
pub open spec fn total_duration(way: Seq<Sample>) -> int {
    way.last().time.unwrap() - way.first().time.unwrap()
}

/// Seconds from the first sample to the last without the stops.
pub open spec fn pure_duration(way: Seq<Sample>, gaps: PauseGaps) -> int {
    total_duration(way) - paused_time(pauses(way, gaps.duration, gaps.distance))
}

/// `x` is a value of `i64`.
pub open spec fn fits_i64(x: int) -> bool {
    i64::MIN <= x <= i64::MAX
}

/// The total and the pure duration of the way under the thresholds `gaps`.
/// There is none where the way has fewer than two samples, where its first
/// or last sample carries no time, where the activity has no thresholds, or
/// where a duration is no `i64`.
pub open spec fn durations(way: Seq<Sample>, gaps: Option<PauseGaps>) -> Option<(i64, i64)> {
    if timed_ends(way) && gaps is Some && fits_i64(total_duration(way)) && fits_i64(
        pure_duration(way, gaps.unwrap()),
    ) {
        Some((total_duration(way) as i64, pure_duration(way, gaps.unwrap()) as i64))
    } else {
        None
    }
}

/// Stops take time off the outing and never add any: the pure duration is
/// at most the total.
pub proof fn lemma_pure_within_total(way: Seq<Sample>, gaps: PauseGaps)
    ensures
        pure_duration(way, gaps) <= total_duration(way),
{
    lemma_paused_within_way(way, way.len() as int, gaps.duration, gaps.distance);
}

/// `total - paused`, unless that lies below every `i64`.
pub(crate) fn seconds_left(total: i128, paused: u128) -> (left: Option<i128>)
    requires
        -0x1_0000_0000_0000_0000 < total < 0x1_0000_0000_0000_0000,
    ensures
        left matches Some(l) ==> l == total - paused,
        left is None ==> total - paused < i64::MIN,
{
    if paused > 0x2_0000_0000_0000_0000 {
        None
    } else {
        Some(total - paused as i128)
    }
}

/// The total and the pure duration of the way, in seconds: from the first
/// sample to the last, and the same without the stops that the thresholds
/// of `activity` find.
pub fn way_durations(way: &Vec<Sample>, policy: &PausePolicy, activity: Activity) -> (both: Option<
    (i64, i64),
>)
    ensures
        both == durations(way@, policy.gaps(activity)),
{
    let n: usize = way.len();
    if n < 2 {
        return None;
    }
    match (way[0].time, way[n - 1].time, policy.lookup(activity)) {
        (Some(start), Some(finish), Some(gaps)) => {
            let total: i128 = finish as i128 - start as i128;
            let stops: Vec<PauseInterval> = find_pauses(way, gaps.duration, gaps.distance);
            let (paused, _) = pause_totals(&stops);
            match seconds_left(total, paused) {
                Some(left) => {
                    if total < i64::MIN as i128 || total > i64::MAX as i128 || left
                        < i64::MIN as i128 || left > i64::MAX as i128 {
                        None
                    } else {
                        Some((total as i64, left as i64))
                    }
                },
                None => None,
            }
        },
        _ => None,
    }
}

} // verus!
