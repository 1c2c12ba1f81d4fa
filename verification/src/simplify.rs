//! Thinning of a track by a budget of turning angle.

use vstd::prelude::*;
use crate::sample::{same_place, Sample};

verus! {

/// A right angle, in the unit of [`Sample::turn`].
pub const RIGHT_ANGLE: u64 = 90_000_000;

/// The budget fraction that stands for one: fractions are given in
/// millionths.
pub const WHOLE: u64 = 1_000_000;

/// The angular limit that the fraction `angle_mul` (in millionths) of a
/// right angle amounts to.
pub open spec fn angle_limit(angle_mul: u32) -> int {
    RIGHT_ANGLE * angle_mul / (WHOLE as int)
}

/// One of the two vectors that reach `c`, from `a` or from `b`, has no
/// length.
pub open spec fn degenerate(a: Sample, b: Sample, c: Sample) -> bool {
    same_place(c, a) || same_place(c, b)
}

/// What the scan has decided so far: the indices it keeps, in order, and
/// the turning angle it may still spend before it keeps the next one.
pub struct Scan {
    pub kept: Seq<int>,
    pub budget: int,
}

/// The scan after it has looked at the triple that ends at index `i`.
pub open spec fn scan_step(before: Scan, way: Seq<Sample>, limit: int, i: int) -> Scan {
    if degenerate(way[i - 2], way[i - 1], way[i]) {
        before
    } else {
        let left = before.budget - way[i].turn;
        if left <= 0 {
            Scan { kept: before.kept.push(i), budget: limit }
        } else {
            Scan { kept: before.kept, budget: left }
        }
    }
}

/// The scan after it has looked at every triple that ends before index `k`.
/// The first two samples are kept from the start.
pub open spec fn scan(way: Seq<Sample>, limit: int, k: int) -> Scan
    decreases k,
{
    if k <= 2 {
        Scan { kept: seq![0int, 1int], budget: limit }
    } else {
        scan_step(scan(way, limit, k - 1), way, limit, k - 1)
    }
}

/// The indices of the samples that the simplified path holds, in order.
///
/// A way of fewer than six samples is kept whole. Of a longer one the scan
/// looks at the triples that end at the indices from 2 up to the third from
/// the end, and the last sample is added after it.
pub open spec fn kept_indices(way: Seq<Sample>, limit: int) -> Seq<int> {
    if way.len() < 6 {
        Seq::new(way.len(), |i: int| i)
    } else {
        scan(way, limit, way.len() - 2).kept.push(way.len() - 1)
    }
}

/// The samples found at the indices `at`.
pub open spec fn pick(way: Seq<Sample>, at: Seq<int>) -> Seq<Sample> {
    Seq::new(at.len(), |j: int| way[at[j]])
}

/// The simplified path of `way` under the angular limit `limit`.
pub open spec fn simplified(way: Seq<Sample>, limit: int) -> Seq<Sample> {
    pick(way, kept_indices(way, limit))
}

/// The indices in `at` rise strictly and stay below `bound`.
pub open spec fn rising_below(at: Seq<int>, bound: int) -> bool {
    &&& forall|j: int| 0 <= j < at.len() ==> 0 <= #[trigger] at[j] < bound
    &&& forall|j: int, k: int| 0 <= j < k < at.len() ==> at[j] < at[k]
}

/// While scanning, the kept indices rise strictly, start with 0 and 1, end
/// below `k`, and number at most `k`; the budget stays between nothing and
/// the limit.
proof fn lemma_scan_shape(way: Seq<Sample>, limit: int, k: int)
    requires
        2 <= k <= way.len(),
        0 <= limit,
    ensures
        rising_below(scan(way, limit, k).kept, k),
        2 <= scan(way, limit, k).kept.len() <= k,
        scan(way, limit, k).kept[0] == 0,
        scan(way, limit, k).kept[1] == 1,
        0 <= scan(way, limit, k).budget <= limit,
    decreases k,
{
    if k > 2 {
        lemma_scan_shape(way, limit, k - 1);
    }
}

/// A way of fewer than six samples comes back as it is.
pub proof fn lemma_short_way_unchanged(way: Seq<Sample>, limit: int)
    requires
        way.len() < 6,
    ensures
        simplified(way, limit) == way,
{
}

/// The kept indices rise strictly and lie inside the way: the simplified
/// path is the way with some samples left out, the rest in their order.
pub proof fn lemma_kept_rising(way: Seq<Sample>, limit: int)
    requires
        0 <= limit,
    ensures
        rising_below(kept_indices(way, limit), way.len() as int),
{
    if way.len() >= 6 {
        lemma_scan_shape(way, limit, way.len() - 2);
    }
}

/// The simplified path of a way that is not empty starts with the way's
/// first sample and ends with its last.
pub proof fn lemma_ends_kept(way: Seq<Sample>, limit: int)
    requires
        way.len() > 0,
        0 <= limit,
    ensures
        simplified(way, limit).len() > 0,
        simplified(way, limit).first() == way.first(),
        simplified(way, limit).last() == way.last(),
{
    if way.len() >= 6 {
        lemma_scan_shape(way, limit, way.len() - 2);
    }
}

/// The simplified path is never longer than the way, and shorter as soon
/// as the way has six samples or more.
pub proof fn lemma_never_longer(way: Seq<Sample>, limit: int)
    requires
        0 <= limit,
    ensures
        simplified(way, limit).len() <= way.len(),
        way.len() >= 6 ==> simplified(way, limit).len() < way.len(),
        way.len() < 6 ==> simplified(way, limit).len() == way.len(),
{
    if way.len() >= 6 {
        lemma_scan_shape(way, limit, way.len() - 2);
    }
}

/// The second sample of a way stays second in the simplified path.
pub proof fn lemma_second_kept(way: Seq<Sample>, limit: int)
    requires
        way.len() >= 2,
        0 <= limit,
    ensures
        simplified(way, limit).len() >= 2,
        simplified(way, limit)[1] == way[1],
{
    if way.len() >= 6 {
        lemma_scan_shape(way, limit, way.len() - 2);
    }
}

/// No triple among those that end before index `k` turns: each has a
/// vector without length or an angle of nothing.
pub open spec fn straight_upto(way: Seq<Sample>, k: int) -> bool {
    forall|i: int|
        2 <= i < k ==> (#[trigger] way[i]).turn == 0 || degenerate(way[i - 2], way[i - 1], way[i])
}

/// Every triple among those that end before index `k` has two vectors of
/// some length and turns by `limit` at least.
pub open spec fn sharp_upto(way: Seq<Sample>, limit: int, k: int) -> bool {
    forall|i: int|
        2 <= i < k ==> (#[trigger] way[i]).turn >= limit && !degenerate(
            way[i - 2],
            way[i - 1],
            way[i],
        )
}

/// On a stretch that never turns the scan keeps nothing and spends
/// nothing.
proof fn lemma_scan_straight(way: Seq<Sample>, limit: int, k: int)
    requires
        2 <= k <= way.len(),
        0 < limit,
        straight_upto(way, k),
    ensures
        scan(way, limit, k).kept == seq![0int, 1int],
        scan(way, limit, k).budget == limit,
    decreases k,
{
    if k > 2 {
        lemma_scan_straight(way, limit, k - 1);
    }
}

/// On a stretch that turns sharply at every triple the scan keeps every
/// sample.
proof fn lemma_scan_sharp(way: Seq<Sample>, limit: int, k: int)
    requires
        2 <= k <= way.len(),
        0 <= limit,
        sharp_upto(way, limit, k),
    ensures
        scan(way, limit, k).kept == Seq::new(k as nat, |i: int| i),
        scan(way, limit, k).budget == limit,
    decreases k,
{
    if k > 2 {
        lemma_scan_sharp(way, limit, k - 1);
    }
}

/// Of a way of six samples or more that never turns, the first, the second
/// and the last sample are all that stays, whatever the budget, so long as
/// there is one.
pub proof fn lemma_straight_way_thinned(way: Seq<Sample>, limit: int)
    requires
        way.len() >= 6,
        0 < limit,
        straight_upto(way, way.len() - 2),
    ensures
        kept_indices(way, limit) == seq![0int, 1int, way.len() - 1],
{
    lemma_scan_straight(way, limit, way.len() - 2);
}

/// Of a way of six samples or more that turns by the whole budget at every
/// triple, every sample stays but the one before the last.
pub proof fn lemma_sharp_way_kept(way: Seq<Sample>, limit: int)
    requires
        way.len() >= 6,
        0 <= limit,
        sharp_upto(way, limit, way.len() - 2),
    ensures
        kept_indices(way, limit) == Seq::new((way.len() - 2) as nat, |i: int| i).push(
            way.len() - 1,
        ),
{
    lemma_scan_sharp(way, limit, way.len() - 2);
}

/// Computes [`angle_limit`].
pub fn limit_of(angle_mul: u32) -> (limit: u64)
    ensures
        limit == angle_limit(angle_mul),
        limit == 90 * angle_mul,
{
    RIGHT_ANGLE * (angle_mul as u64) / WHOLE
}

/// Thins `way` out: on straight stretches few samples stay, on bends many.
///
/// `angle_mul` is the fraction of a right angle, in millionths, that the
/// path may turn before the next sample is kept. The first, the second and
/// the last sample always stay; a way of fewer than six samples is returned
/// whole.
pub fn minimize_way(way: &Vec<Sample>, angle_mul: u32) -> (path: Vec<Sample>)
    ensures
        path@ == simplified(way@, angle_limit(angle_mul)),
        way.len() < 6 ==> path@ == way@,
        path.len() <= way.len(),
        way.len() >= 6 ==> path.len() < way.len(),
        way.len() > 0 ==> path.len() > 0 && path@.first() == way@.first() && path@.last()
            == way@.last(),
        way.len() >= 2 ==> path.len() >= 2 && path@[1] == way@[1],
{
    let n: usize = way.len();
    let limit: u64 = limit_of(angle_mul);
    proof {
        lemma_never_longer(way@, limit as int);
        if n > 0 {
            lemma_ends_kept(way@, limit as int);
        }
        if n < 6 {
            lemma_short_way_unchanged(way@, limit as int);
        }
        if n >= 2 {
            lemma_second_kept(way@, limit as int);
        }
    }
    let mut path: Vec<Sample> = Vec::new();
    if n < 6 {
        let mut c: usize = 0;
        while c < n
            invariant
                n == way.len(),
                c <= n,
                path@ == way@.take(c as int),
            decreases n - c,
        {
            path.push(way[c]);
            c = c + 1;
        }
        return path;
    }
    path.push(way[0]);
    path.push(way[1]);
    let mut budget: u64 = limit;
    let mut i: usize = 2;
    while i < n - 2
        invariant
            n == way.len(),
            n >= 6,
            2 <= i <= n - 2,
            budget == scan(way@, limit as int, i as int).budget,
            path@ == pick(way@, scan(way@, limit as int, i as int).kept),
        decreases n - i,
    {
        let third: Sample = way[i];
        if !(third.at_same_place(&way[i - 2]) || third.at_same_place(&way[i - 1])) {
            if third.turn as u64 >= budget {
                path.push(third);
                budget = limit;
            } else {
                budget = budget - third.turn as u64;
            }
        }
        i = i + 1;
    }
    path.push(way[n - 1]);
    path
}

} // verus!
