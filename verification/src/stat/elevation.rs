//! How much an outing climbed.

use vstd::prelude::*;
use crate::sample::Sample;
use crate::stat::distance::capped;

verus! {

/// Every sample of the way carries a height.
pub open spec fn all_elevated(way: Seq<Sample>) -> bool {
    forall|i: int| 0 <= i < way.len() ==> (#[trigger] way[i]).elevation is Some
}

/// The height of a sample that carries one.
pub open spec fn height(s: Sample) -> int {
    s.elevation.unwrap() as int
}

/// Millimetres gained from `a` to `b`: their difference in height where
/// `b` lies higher, nothing where it does not.
pub open spec fn gain(a: Sample, b: Sample) -> int {
    if height(b) > height(a) {
        height(b) - height(a)
    } else {
        0
    }
}

/// The height gained over the first `k` samples: every ascent between
/// consecutive samples, added up.
pub open spec fn total_gain_upto(way: Seq<Sample>, k: int) -> int
    decreases k,
{
    if k <= 1 {
        0
    } else {
        total_gain_upto(way, k - 1) + gain(way[k - 2], way[k - 1])
    }
}

/// The height gained without a break on the way up to the sample at index
/// `k - 1`: a step that does not ascend, level or down, sets it back to
/// nothing.
pub open spec fn run_upto(way: Seq<Sample>, k: int) -> int
    decreases k,
{
    if k <= 1 {
        0
    } else if height(way[k - 1]) > height(way[k - 2]) {
        run_upto(way, k - 1) + gain(way[k - 2], way[k - 1])
    } else {
        0
    }
}

/// The most height gained without a break anywhere among the first `k`
/// samples.
pub open spec fn max_gain_upto(way: Seq<Sample>, k: int) -> int
    decreases k,
{
    if k <= 1 {
        0
    } else {
        let before = max_gain_upto(way, k - 1);
        if run_upto(way, k) > before {
            run_upto(way, k)
        } else {
            before
        }
    }
}

/// The height gained over the whole way.
pub open spec fn total_gain(way: Seq<Sample>) -> int {
    total_gain_upto(way, way.len() as int)
}

/// The most height gained without a break anywhere on the way.
pub open spec fn max_gain(way: Seq<Sample>) -> int {
    max_gain_upto(way, way.len() as int)
}

/// The total ascent of the way and its largest unbroken ascent, each
/// capped. There is none where the way has fewer than two samples or where
/// any sample carries no height.
pub open spec fn elevation_gains(way: Seq<Sample>) -> Option<(u64, u64)> {
    if way.len() >= 2 && all_elevated(way) {
        Some((capped(total_gain(way)) as u64, capped(max_gain(way)) as u64))
    } else {
        None
    }
}

/// Among the first `k` samples no gain is negative; the unbroken gain at
/// the last of them is at most the largest one, and that at most the total.
proof fn lemma_gain_order(way: Seq<Sample>, k: int)
    requires
        0 <= k <= way.len(),
    ensures
        0 <= run_upto(way, k) <= max_gain_upto(way, k) <= total_gain_upto(way, k),
        run_upto(way, k) <= total_gain_upto(way, k),
    decreases k,
{
    if k >= 2 {
        lemma_gain_order(way, k - 1);
    }
}

/// The largest unbroken ascent of a way is not negative and at most its
/// total ascent.
pub proof fn lemma_max_gain_within_total(way: Seq<Sample>)
    ensures
        0 <= max_gain(way) <= total_gain(way),
{
    lemma_gain_order(way, way.len() as int);
}

/// The heights rise at every step from the sample at index `i` to the one
/// at index `j`.
pub open spec fn ascending(way: Seq<Sample>, i: int, j: int) -> bool {
    forall|m: int| i <= m < j ==> height(#[trigger] way[m]) < height(way[m + 1])
}

/// The index at which the unbroken ascent that reaches the sample at index
/// `k - 1` begins.
pub open spec fn run_start(way: Seq<Sample>, k: int) -> int
    decreases k,
{
    if k <= 1 {
        0
    } else if height(way[k - 1]) > height(way[k - 2]) {
        run_start(way, k - 1)
    } else {
        k - 1
    }
}

/// Over an ascending stretch the later sample is the higher.
proof fn lemma_ascending_heights(way: Seq<Sample>, i: int, j: int)
    requires
        0 <= i <= j < way.len(),
        ascending(way, i, j),
    ensures
        height(way[i]) <= height(way[j]),
        i < j ==> height(way[i]) < height(way[j]),
    decreases j - i,
{
    if i < j {
        lemma_ascending_heights(way, i, j - 1);
    }
}

/// The unbroken gain at the sample at index `j` is the height won since
/// the longest ascending stretch that ends there began.
proof fn lemma_run_is_last_stretch(way: Seq<Sample>, j: int)
    requires
        0 <= j < way.len(),
    ensures
        0 <= run_start(way, j + 1) <= j,
        ascending(way, run_start(way, j + 1), j),
        run_upto(way, j + 1) == height(way[j]) - height(way[run_start(way, j + 1)]),
        forall|i: int| 0 <= i <= j && #[trigger] ascending(way, i, j) ==> run_start(way, j + 1) <= i,
    decreases j,
{
    if j >= 1 {
        lemma_run_is_last_stretch(way, j - 1);
        if height(way[j]) > height(way[j - 1]) {
            assert forall|i: int| 0 <= i <= j && #[trigger] ascending(way, i, j) implies run_start(
                way,
                j,
            ) <= i by {
                if i <= j - 1 {
                    assert(ascending(way, i, j - 1));
                }
            }
        }
    }
}

/// The largest unbroken gain does not shrink as the way goes on.
proof fn lemma_max_gain_grows(way: Seq<Sample>, j: int, k: int)
    requires
        0 <= j <= k <= way.len(),
    ensures
        max_gain_upto(way, j) <= max_gain_upto(way, k),
        run_upto(way, k) <= max_gain_upto(way, k),
    decreases k - j,
{
    lemma_gain_order(way, k);
    if j < k {
        lemma_max_gain_grows(way, j, k - 1);
    }
}

/// Some ascending stretch among the first `k` samples wins the largest
/// unbroken gain.
proof fn lemma_max_gain_attained(way: Seq<Sample>, k: int)
    requires
        1 <= k <= way.len(),
    ensures
        exists|i: int, j: int|
            0 <= i <= j < k && #[trigger] ascending(way, i, j) && height(way[j]) - height(way[i])
                == max_gain_upto(way, k),
    decreases k,
{
    if k == 1 {
        assert(ascending(way, 0, 0));
    } else if run_upto(way, k) > max_gain_upto(way, k - 1) {
        lemma_run_is_last_stretch(way, k - 1);
    } else {
        lemma_max_gain_attained(way, k - 1);
    }
}

/// The largest unbroken gain is the most height won over any ascending
/// stretch of the way: no such stretch wins more, and one wins as much.
pub proof fn lemma_max_gain_is_steepest_stretch(way: Seq<Sample>)
    requires
        way.len() >= 1,
    ensures
        forall|i: int, j: int|
            0 <= i <= j < way.len() && #[trigger] ascending(way, i, j) ==> height(way[j]) - height(
                way[i],
            ) <= max_gain(way),
        exists|i: int, j: int|
            0 <= i <= j < way.len() && #[trigger] ascending(way, i, j) && height(way[j]) - height(
                way[i],
            ) == max_gain(way),
{
    let n = way.len() as int;
    assert forall|i: int, j: int|
        0 <= i <= j < way.len() && #[trigger] ascending(way, i, j) implies height(way[j]) - height(
        way[i],
    ) <= max_gain(way) by {
        lemma_run_is_last_stretch(way, j);
        lemma_max_gain_grows(way, j + 1, n);
        lemma_ascending_heights(way, run_start(way, j + 1), i);
    }
    lemma_max_gain_attained(way, n);
}

/// One sample without a height withholds the gains of the whole way,
/// however many other samples carry theirs.
pub proof fn lemma_missing_height_withholds(way: Seq<Sample>, i: int)
    requires
        0 <= i < way.len(),
        way[i].elevation is None,
    ensures
        elevation_gains(way) is None,
{
}

/// Millimetres gained between two heights.
fn gain_of(from: i64, to: i64) -> (up: u64)
    ensures
        to > from ==> up == to - from,
        to <= from ==> up == 0,
{
    if to > from {
        (to as i128 - from as i128) as u64
    } else {
        0
    }
}

/// The total ascent of the way and its largest unbroken ascent, in
/// millimetres, each capped at the largest `u64`. There is none where the
/// way has fewer than two samples or where any sample carries no height:
/// one missing height anywhere withholds both numbers.
pub fn way_elevations(way: &Vec<Sample>) -> (gains: Option<(u64, u64)>)
    ensures
        gains == elevation_gains(way@),
{
    let n: usize = way.len();
    if n < 2 {
        return None;
    }
    let mut total: u64 = 0;
    let mut run: u64 = 0;
    let mut best: u64 = 0;
    let mut i: usize = 1;
    while i < n
        invariant
            n == way.len(),
            1 <= i <= n,
            i > 1 ==> forall|j: int| 0 <= j < i ==> (#[trigger] way[j]).elevation is Some,
            total == capped(total_gain_upto(way@, i as int)),
            run == capped(run_upto(way@, i as int)),
            best == capped(max_gain_upto(way@, i as int)),
        decreases n - i,
    {
        proof {
            lemma_gain_order(way@, i as int);
        }
        match (way[i - 1].elevation, way[i].elevation) {
            (Some(from), Some(to)) => {
                let up: u64 = gain_of(from, to);
                total = total.saturating_add(up);
                if to > from {
                    run = run.saturating_add(up);
                } else {
                    run = 0;
                }
                if run > best {
                    best = run;
                }
            },
            _ => {
                return None;
            },
        }
        i = i + 1;
    }
    Some((total, best))
}

} // verus!
