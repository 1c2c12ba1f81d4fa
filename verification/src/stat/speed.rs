//! How fast an outing went: between two samples at most, and on the whole.

use vstd::prelude::*;
use vstd::arithmetic::div_mod::{lemma_fundamental_div_mod, lemma_hoist_over_denominator};
use crate::sample::Sample;
use crate::stamp::Activity;
use crate::stat::distance::{cap, capped, distance_exact, total_distance};
use crate::stat::pause::{
    elapsed, find_pauses, lemma_paused_within_way, pause_totals, paused_distance, pauses,
    seconds_between, PauseGaps, PauseInterval, PausePolicy,
};
use crate::stat::timing::{pure_duration, seconds_left, timed_ends};

verus! {

/// Seconds in an hour.
pub const HOUR: u64 = 3600;

/// Millimetres per hour of a carrier that covers `dist` millimetres in
/// `secs` seconds, rounded down. Meant for a positive `secs`.
pub open spec fn hourly_rate(dist: int, secs: int) -> int {
    dist * HOUR / secs
}

/// Millimetres from the first sample to the last without what was covered
/// during the stops.
pub open spec fn moving_distance(way: Seq<Sample>, gaps: PauseGaps) -> int {
    total_distance(way) - paused_distance(pauses(way, gaps.duration, gaps.distance))
}

/// The average speed of the way under the thresholds `gaps`, in
/// millimetres per hour: what was covered outside the stops by the time
/// spent outside them. There is none where the way has fewer than two
/// samples, where its first or last sample carries no time, where the
/// activity has no thresholds, or where no time is left outside the stops.
pub open spec fn average_speed(way: Seq<Sample>, gaps: Option<PauseGaps>) -> Option<u64> {
    if timed_ends(way) && gaps is Some && pure_duration(way, gaps.unwrap()) > 0 {
        Some(
            capped(
                hourly_rate(moving_distance(way, gaps.unwrap()), pure_duration(way, gaps.unwrap())),
            ) as u64,
        )
    } else {
        None
    }
}

/// What was covered outside the stops is part of the way: at most its
/// length, and not negative.
pub proof fn lemma_moving_within_way(way: Seq<Sample>, gaps: PauseGaps)
    ensures
        0 <= moving_distance(way, gaps) <= total_distance(way),
{
    lemma_paused_within_way(way, way.len() as int, gaps.duration, gaps.distance);
}

/// Computes [`hourly_rate`], capped.
pub(crate) fn hourly(dist: u128, secs: u64) -> (rate: u64)
    requires
        secs > 0,
    ensures
        rate == capped(hourly_rate(dist as int, secs as int)),
{
    let d: u128 = secs as u128;
    let q: u128 = dist / d;
    let r: u128 = dist % d;
    proof {
        lemma_fundamental_div_mod(dist as int, d as int);
        assert(dist * HOUR == r * HOUR + (q * HOUR) * d) by (nonlinear_arith)
            requires
                dist == d * q + r,
        ;
        lemma_hoist_over_denominator(r * HOUR, q * HOUR, d as nat);
        assert(0 <= (r * HOUR) / (d as int)) by (nonlinear_arith)
            requires
                0 <= r,
                0 < d,
        ;
    }
    if q > u64::MAX as u128 {
        return u64::MAX;
    }
    let whole: u128 = q * (HOUR as u128);
    let part: u128 = r * (HOUR as u128) / d;
    proof {
        assert((r * HOUR) / (d as int) <= r * HOUR) by (nonlinear_arith)
            requires
                0 <= r,
                0 < d,
        ;
    }
    cap(whole + part)
}

/// The average speed over the way, in millimetres per hour, stops left
/// out: see [`average_speed`].
pub fn avg_speed(way: &Vec<Sample>, policy: &PausePolicy, activity: Activity) -> (speed: Option<
    u64,
>)
    ensures
        speed == average_speed(way@, policy.gaps(activity)),
{
    let n: usize = way.len();
    if n < 2 {
        return None;
    }
    match (way[0].time, way[n - 1].time, policy.lookup(activity)) {
        (Some(start), Some(finish), Some(gaps)) => {
            let total: i128 = finish as i128 - start as i128;
            let stops: Vec<PauseInterval> = find_pauses(way, gaps.duration, gaps.distance);
            let (paused, idle) = pause_totals(&stops);
            let distance: u128 = distance_exact(way);
            proof {
                lemma_paused_within_way(way@, n as int, gaps.duration, gaps.distance);
            }
            match seconds_left(total, paused) {
                Some(left) => {
                    if left <= 0 {
                        None
                    } else {
                        Some(hourly(distance - idle, left as u64))
                    }
                },
                None => None,
            }
        },
        _ => None,
    }
}

/// Every sample of the way carries a time.
pub open spec fn all_timed(way: Seq<Sample>) -> bool {
    forall|i: int| 0 <= i < way.len() ==> (#[trigger] way[i]).time is Some
}

/// Millimetres per hour between two consecutive samples `leg` millimetres
/// and `secs` seconds apart. Movement in no time counts as the largest
/// speed there is, no movement in no time as none.
pub open spec fn pace(leg: int, secs: int) -> int {
    if secs > 0 {
        hourly_rate(leg, secs)
    } else if leg > 0 {
        u64::MAX as int
    } else {
        0
    }
}

/// The pace at which the sample at index `i` was reached from the one
/// before it.
pub open spec fn pace_at(way: Seq<Sample>, i: int) -> int {
    pace(way[i].leg as int, elapsed(way[i - 1], way[i]))
}

/// The highest pace between consecutive samples among the first `k`.
pub open spec fn top_pace_upto(way: Seq<Sample>, k: int) -> int
    decreases k,
{
    if k <= 1 {
        0
    } else {
        let before = top_pace_upto(way, k - 1);
        if pace_at(way, k - 1) > before {
            pace_at(way, k - 1)
        } else {
            before
        }
    }
}

/// The highest pace between consecutive samples of the way.
pub open spec fn top_pace(way: Seq<Sample>) -> int {
    top_pace_upto(way, way.len() as int)
}

/// The highest speed between two consecutive samples of the way, in
/// millimetres per hour, capped. There is none where the way has fewer than
/// two samples or where any sample carries no time.
pub open spec fn top_speed(way: Seq<Sample>) -> Option<u64> {
    if way.len() >= 2 && all_timed(way) {
        Some(capped(top_pace(way)) as u64)
    } else {
        None
    }
}

/// The highest pace among the first `k` samples is that of some pair of
/// consecutive samples among them, and no such pair has a higher one.
proof fn lemma_top_pace_upto(way: Seq<Sample>, k: int)
    requires
        0 <= k <= way.len(),
    ensures
        0 <= top_pace_upto(way, k),
        forall|i: int| 1 <= i < k ==> #[trigger] pace_at(way, i) <= top_pace_upto(way, k),
        k >= 2 ==> exists|i: int| 1 <= i < k && #[trigger] pace_at(way, i) == top_pace_upto(way, k),
    decreases k,
{
    if k >= 2 {
        lemma_top_pace_upto(way, k - 1);
        assert(0 <= pace_at(way, k - 1)) by {
            let leg = way[k - 1].leg as int;
            let secs = elapsed(way[k - 2], way[k - 1]);
            if secs > 0 {
                assert(0 <= leg * HOUR / secs) by (nonlinear_arith)
                    requires
                        0 <= leg,
                        0 < secs,
                ;
            }
        }
    }
}

/// The highest pace of a way is that of its fastest pair of consecutive
/// samples: no pair has a higher one, and in a way of two samples or more
/// some pair has it.
pub proof fn lemma_top_pace_is_fastest_pair(way: Seq<Sample>)
    ensures
        0 <= top_pace(way),
        forall|i: int| 1 <= i < way.len() ==> #[trigger] pace_at(way, i) <= top_pace(way),
        way.len() >= 2 ==> exists|i: int|
            1 <= i < way.len() && #[trigger] pace_at(way, i) == top_pace(way),
{
    lemma_top_pace_upto(way, way.len() as int);
}

/// One sample without a time withholds the highest speed of the whole
/// way.
pub proof fn lemma_missing_time_withholds(way: Seq<Sample>, i: int)
    requires
        0 <= i < way.len(),
        way[i].time is None,
    ensures
        top_speed(way) is None,
{
}

/// Computes [`pace`], capped.
fn pace_of(leg: u64, secs: u64) -> (rate: u64)
    ensures
        rate == capped(pace(leg as int, secs as int)),
{
    if secs > 0 {
        hourly(leg as u128, secs)
    } else if leg > 0 {
        u64::MAX
    } else {
        0
    }
}

/// The highest speed between two consecutive samples, in millimetres per
/// hour, capped at the largest `u64`. There is none where the way has fewer
/// than two samples or where any sample carries no time.
pub fn max_speed(way: &Vec<Sample>) -> (speed: Option<u64>)
    ensures
        speed == top_speed(way@),
{
    let n: usize = way.len();
    if n < 2 {
        return None;
    }
    let mut top: u64 = 0;
    let mut i: usize = 1;
    while i < n
        invariant
            n == way.len(),
            1 <= i <= n,
            i > 1 ==> forall|j: int| 0 <= j < i ==> (#[trigger] way[j]).time is Some,
            top == capped(top_pace_upto(way@, i as int)),
        decreases n - i,
    {
        match (way[i - 1].time, way[i].time) {
            (Some(t1), Some(t2)) => {
                let here: u64 = pace_of(way[i].leg, seconds_between(t1, t2));
                if here > top {
                    top = here;
                }
            },
            _ => {
                return None;
            },
        }
        i = i + 1;
    }
    Some(top)
}

} // verus!
