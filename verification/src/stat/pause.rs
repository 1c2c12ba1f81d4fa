//! Stops on a way: where the carrier stood still while the recorder ran on.

use vstd::prelude::*;
use crate::sample::Sample;
use crate::stamp::Activity;
use crate::stat::distance::leg_sum;

verus! {

/// A stop: two consecutive samples far apart in time and close in space.
#[derive(Clone, Copy, Debug, PartialEq, Eq)]
pub struct PauseInterval {
    /// Seconds between the two samples.
    pub duration: u64,
    /// The sample at which the stop begins.
    pub start: Sample,
    /// The sample at which the stop ends.
    pub end: Sample,
}

/// The thresholds that tell a stop from movement and from a gap in the
/// recording.
#[derive(Clone, Copy, Debug, PartialEq, Eq)]
pub struct PauseGaps {
    /// The fewest seconds between two samples that count as a stop.
    pub duration: u64,
    /// The most millimetres between two samples that count as a stop.
    pub distance: u64,
}

/// The thresholds of each activity. An activity without thresholds has no
/// statistic that depends on stops.
#[derive(Clone, Copy, Debug, PartialEq, Eq)]
pub struct PausePolicy {
    pub cycling: Option<PauseGaps>,
    pub running: Option<PauseGaps>,
}

/// Seconds after which a cyclist who has not moved on is taken to have
/// stopped: two minutes.
pub const CYCLING_DURATION_GAP: u64 = 120;

/// Millimetres a cyclist may drift during a stop: what two minutes at
/// five kilometres an hour cover.
pub const CYCLING_DISTANCE_GAP: u64 = 166_667;

impl PausePolicy {
    /// The thresholds of `activity`, where the policy has any.
    pub open spec fn gaps(self, activity: Activity) -> Option<PauseGaps> {
        match activity {
            Activity::Cycling => self.cycling,
            Activity::Running => self.running,
        }
    }

    /// The policy in use where none is configured: thresholds for cycling
    /// alone.
    pub open spec fn standard_spec() -> PausePolicy {
        PausePolicy {
            cycling: Some(
                PauseGaps { duration: CYCLING_DURATION_GAP, distance: CYCLING_DISTANCE_GAP },
            ),
            running: None,
        }
    }

    /// Builds [`PausePolicy::standard_spec`].
    pub fn standard() -> (policy: PausePolicy)
        ensures
            policy == PausePolicy::standard_spec(),
    {
        PausePolicy {
            cycling: Some(
                PauseGaps { duration: CYCLING_DURATION_GAP, distance: CYCLING_DISTANCE_GAP },
            ),
            running: None,
        }
    }

    /// Looks the thresholds of `activity` up.
    pub fn lookup(&self, activity: Activity) -> (gaps: Option<PauseGaps>)
        ensures
            gaps == self.gaps(activity),
    {
        match activity {
            Activity::Cycling => self.cycling,
            Activity::Running => self.running,
        }
    }
}

/// Seconds between two instants, whichever comes first.
pub open spec fn span(t1: int, t2: int) -> int {
    if t2 >= t1 {
        t2 - t1
    } else {
        t1 - t2
    }
}

/// Seconds between the recording of `a` and that of `b`. Meant for samples
/// that both carry a time.
pub open spec fn elapsed(a: Sample, b: Sample) -> int {
    span(a.time.unwrap() as int, b.time.unwrap() as int)
}

/// The carrier stopped between the consecutive samples `a` and `b`: both
/// carry a time, at least `dur_gap` seconds lie between them and at most
/// `dist_gap` millimetres.
pub open spec fn is_pause(a: Sample, b: Sample, dur_gap: u64, dist_gap: u64) -> bool {
    &&& a.time is Some
    &&& b.time is Some
    &&& elapsed(a, b) >= dur_gap
    &&& b.leg <= dist_gap
}

/// The stop between the consecutive samples `a` and `b`.
pub open spec fn pause_between(a: Sample, b: Sample) -> PauseInterval {
    PauseInterval { duration: elapsed(a, b) as u64, start: a, end: b }
}

/// The stops among the first `k` samples of the way, in the way's order.
pub open spec fn pauses_upto(way: Seq<Sample>, k: int, dur_gap: u64, dist_gap: u64) -> Seq<
    PauseInterval,
>
    decreases k,
{
    if k <= 1 {
        Seq::empty()
    } else {
        let before = pauses_upto(way, k - 1, dur_gap, dist_gap);
        if is_pause(way[k - 2], way[k - 1], dur_gap, dist_gap) {
            before.push(pause_between(way[k - 2], way[k - 1]))
        } else {
            before
        }
    }
}

/// The stops of the way, in the way's order. A pair of samples of which
/// one carries no time is no stop.
pub open spec fn pauses(way: Seq<Sample>, dur_gap: u64, dist_gap: u64) -> Seq<PauseInterval> {
    pauses_upto(way, way.len() as int, dur_gap, dist_gap)
}

/// The seconds that the stops `stops` took, added up.
pub open spec fn paused_time(stops: Seq<PauseInterval>) -> int
    decreases stops.len(),
{
    if stops.len() == 0 {
        0
    } else {
        paused_time(stops.drop_last()) + stops.last().duration
    }
}

/// The millimetres covered during the stops `stops`, added up.
pub open spec fn paused_distance(stops: Seq<PauseInterval>) -> int
    decreases stops.len(),
{
    if stops.len() == 0 {
        0
    } else {
        paused_distance(stops.drop_last()) + stops.last().end.leg
    }
}

/// The stops among the first `k` samples are exactly the consecutive pairs
/// among them that [`is_pause`] accepts, and there are fewer of them than
/// samples.
proof fn lemma_pauses_upto(way: Seq<Sample>, k: int, dur_gap: u64, dist_gap: u64)
    requires
        0 <= k <= way.len(),
    ensures
        forall|p: PauseInterval| #[trigger]
            pauses_upto(way, k, dur_gap, dist_gap).contains(p) <==> exists|i: int|
                1 <= i < k && is_pause(way[i - 1], way[i], dur_gap, dist_gap) && p
                    == pause_between(way[i - 1], #[trigger] way[i]),
        k >= 1 ==> pauses_upto(way, k, dur_gap, dist_gap).len() <= k - 1,
        k == 0 ==> pauses_upto(way, k, dur_gap, dist_gap).len() == 0,
    decreases k,
{
    let now = pauses_upto(way, k, dur_gap, dist_gap);
    if k >= 2 {
        let before = pauses_upto(way, k - 1, dur_gap, dist_gap);
        lemma_pauses_upto(way, k - 1, dur_gap, dist_gap);
        assert forall|p: PauseInterval| #[trigger] now.contains(p) implies exists|i: int|
            1 <= i < k && is_pause(way[i - 1], way[i], dur_gap, dist_gap) && p == pause_between(
                way[i - 1],
                #[trigger] way[i],
            ) by {
            let at = choose|j: int| 0 <= j < now.len() && now[j] == p;
            if at < before.len() {
                assert(before.contains(p));
            }
        }
        assert forall|p: PauseInterval|
            (exists|i: int|
                1 <= i < k && is_pause(way[i - 1], way[i], dur_gap, dist_gap) && p
                    == pause_between(way[i - 1], #[trigger] way[i])) implies #[trigger] now.contains(
            p,
        ) by {
            let i = choose|i: int|
                1 <= i < k && is_pause(way[i - 1], way[i], dur_gap, dist_gap) && p
                    == pause_between(way[i - 1], #[trigger] way[i]);
            if i == k - 1 {
                assert(now[before.len() as int] == p);
            } else {
                assert(before.contains(p));
                let at = choose|j: int| 0 <= j < before.len() && before[j] == p;
                assert(now[at] == p);
            }
        }
    }
}

/// The stops of a way are exactly its consecutive pairs that [`is_pause`]
/// accepts: each stop is such a pair, and each such pair is a stop. There
/// are fewer stops than samples.
pub proof fn lemma_pauses_are_the_stops(way: Seq<Sample>, dur_gap: u64, dist_gap: u64)
    ensures
        forall|p: PauseInterval| #[trigger]
            pauses(way, dur_gap, dist_gap).contains(p) <==> exists|i: int|
                1 <= i < way.len() && is_pause(way[i - 1], way[i], dur_gap, dist_gap) && p
                    == pause_between(way[i - 1], #[trigger] way[i]),
        pauses(way, dur_gap, dist_gap).len() < way.len() || way.len() == 0,
{
    lemma_pauses_upto(way, way.len() as int, dur_gap, dist_gap);
}

/// What is covered during the stops among the first `k` samples is part of
/// what is covered between those samples; neither sum is negative.
pub(crate) proof fn lemma_paused_within_way(way: Seq<Sample>, k: int, dur_gap: u64, dist_gap: u64)
    requires
        0 <= k <= way.len(),
    ensures
        0 <= paused_distance(pauses_upto(way, k, dur_gap, dist_gap)) <= leg_sum(way, 1, k),
        0 <= paused_time(pauses_upto(way, k, dur_gap, dist_gap)),
    decreases k,
{
    if k >= 2 {
        lemma_paused_within_way(way, k - 1, dur_gap, dist_gap);
        let before = pauses_upto(way, k - 1, dur_gap, dist_gap);
        if is_pause(way[k - 2], way[k - 1], dur_gap, dist_gap) {
            let now = before.push(pause_between(way[k - 2], way[k - 1]));
            assert(now.drop_last() =~= before);
        }
    }
}

/// Seconds between two instants.
pub(crate) fn seconds_between(t1: i64, t2: i64) -> (d: u64)
    ensures
        d == span(t1 as int, t2 as int),
{
    if t2 >= t1 {
        (t2 as i128 - t1 as i128) as u64
    } else {
        (t1 as i128 - t2 as i128) as u64
    }
}

/// Finds the stops of the way: each consecutive pair of samples that both
/// carry a time, lie at least `dur_gap` seconds apart and at most
/// `dist_gap` millimetres. A pair of which one sample carries no time is
/// passed over.
pub fn find_pauses(way: &Vec<Sample>, dur_gap: u64, dist_gap: u64) -> (stops: Vec<PauseInterval>)
    ensures
        stops@ == pauses(way@, dur_gap, dist_gap),
        stops.len() < way.len() || way.len() == 0,
        forall|p: PauseInterval| #[trigger]
            stops@.contains(p) <==> exists|i: int|
                1 <= i < way.len() && is_pause(way[i - 1], way[i], dur_gap, dist_gap) && p
                    == pause_between(way[i - 1], #[trigger] way[i]),
{
    let n: usize = way.len();
    let mut stops: Vec<PauseInterval> = Vec::new();
    proof {
        lemma_pauses_are_the_stops(way@, dur_gap, dist_gap);
    }
    if n == 0 {
        return stops;
    }
    let mut i: usize = 1;
    while i < n
        invariant
            n == way.len(),
            1 <= i <= n,
            stops@ == pauses_upto(way@, i as int, dur_gap, dist_gap),
        decreases n - i,
    {
        let a: Sample = way[i - 1];
        let b: Sample = way[i];
        match (a.time, b.time) {
            (Some(t1), Some(t2)) => {
                let duration: u64 = seconds_between(t1, t2);
                if duration >= dur_gap && b.leg <= dist_gap {
                    stops.push(PauseInterval { duration, start: a, end: b });
                }
            },
            _ => {},
        }
        i = i + 1;
    }
    stops
}

/// The seconds and the millimetres of the stops, added up exactly.
pub(crate) fn pause_totals(stops: &Vec<PauseInterval>) -> (sums: (u128, u128))
    ensures
        sums.0 == paused_time(stops@),
        sums.1 == paused_distance(stops@),
{
    let n: usize = stops.len();
    let mut time: u128 = 0;
    let mut dist: u128 = 0;
    let mut i: usize = 0;
    while i < n
        invariant
            n == stops.len(),
            i <= n,
            time == paused_time(stops@.take(i as int)),
            dist == paused_distance(stops@.take(i as int)),
            time <= i * u64::MAX,
            dist <= i * u64::MAX,
        decreases n - i,
    {
        proof {
            assert(stops@.take(i + 1).drop_last() =~= stops@.take(i as int));
        }
        time = time + stops[i].duration as u128;
        dist = dist + stops[i].end.leg as u128;
        i = i + 1;
    }
    proof {
        assert(stops@.take(n as int) =~= stops@);
    }
    (time, dist)
}

} // verus!
