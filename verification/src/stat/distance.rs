//! The length of a way.

use vstd::prelude::*;
use crate::sample::Sample;

verus! {

/// `x`, or the largest `u64` where `x` is beyond it: what stands for a
/// result that does not fit.
pub open spec fn capped(x: int) -> int {
    if x > u64::MAX {
        u64::MAX as int
    } else {
        x
    }
}

/// The legs of the samples from index `lo` up to, not including, `hi`,
/// added up.
pub open spec fn leg_sum(way: Seq<Sample>, lo: int, hi: int) -> int
    decreases hi - lo,
{
    if hi <= lo {
        0
    } else {
        leg_sum(way, lo, hi - 1) + way[hi - 1].leg
    }
}

/// The length of the way: the legs between consecutive samples, added up.
/// The first sample's leg leads to no sample of the way and is left out.
pub open spec fn total_distance(way: Seq<Sample>) -> int {
    leg_sum(way, 1, way.len() as int)
}

/// `back` is `way` walked from its end to its start: the same places,
/// heights and instants in opposite order, and between each two neighbours
/// the leg that `way` has between them.
pub open spec fn walked_back(back: Seq<Sample>, way: Seq<Sample>) -> bool {
    &&& back.len() == way.len()
    &&& forall|j: int|
        0 <= j < back.len() ==> {
            let twin = way[way.len() - 1 - j];
            &&& (#[trigger] back[j]).lat == twin.lat
            &&& back[j].lon == twin.lon
            &&& back[j].elevation == twin.elevation
            &&& back[j].time == twin.time
        }
    &&& forall|j: int| 1 <= j < back.len() ==> (#[trigger] back[j]).leg == way[way.len() - j].leg
}

/// A sum of legs may be cut in two at any index.
pub proof fn lemma_leg_sum_split(way: Seq<Sample>, lo: int, mid: int, hi: int)
    requires
        lo <= mid <= hi,
    ensures
        leg_sum(way, lo, hi) == leg_sum(way, lo, mid) + leg_sum(way, mid, hi),
    decreases hi - mid,
{
    if mid < hi {
        lemma_leg_sum_split(way, lo, mid, hi - 1);
    }
}

/// The legs of `back` up to index `k` are the last legs of `way`.
proof fn lemma_walked_back_prefix(back: Seq<Sample>, way: Seq<Sample>, k: int)
    requires
        walked_back(back, way),
        1 <= k <= way.len(),
    ensures
        leg_sum(back, 1, k) == leg_sum(way, way.len() - k + 1, way.len() as int),
    decreases k,
{
    let n = way.len() as int;
    if k > 1 {
        lemma_walked_back_prefix(back, way, k - 1);
        lemma_leg_sum_split(way, n - k + 1, n - k + 2, n);
        assert(leg_sum(way, n - k + 1, n - k + 2) == way[n - k + 1].leg) by {
            assert(leg_sum(way, n - k + 1, n - k + 1) == 0);
        }
    }
}

/// A way has no length unless it has two samples.
pub proof fn lemma_distance_of_few(way: Seq<Sample>)
    requires
        way.len() <= 1,
    ensures
        total_distance(way) == 0,
{
}

/// A way walked back is as long as the way.
pub proof fn lemma_distance_walked_back(back: Seq<Sample>, way: Seq<Sample>)
    requires
        walked_back(back, way),
    ensures
        total_distance(back) == total_distance(way),
{
    if way.len() >= 1 {
        lemma_walked_back_prefix(back, way, way.len() as int);
    }
}

/// The length of the way, exactly.
pub(crate) fn distance_exact(way: &Vec<Sample>) -> (d: u128)
    ensures
        d == total_distance(way@),
{
    let n: usize = way.len();
    let mut d: u128 = 0;
    let mut i: usize = 1;
    while i < n
        invariant
            n == way.len(),
            1 <= i <= n || (n == 0 && i == 1),
            d == leg_sum(way@, 1, i as int),
            d <= (i - 1) * u64::MAX,
        decreases n - i,
    {
        d = d + way[i].leg as u128;
        i = i + 1;
    }
    d
}

/// `x` brought down to a `u64`.
pub(crate) fn cap(x: u128) -> (c: u64)
    ensures
        c == capped(x as int),
{
    if x > u64::MAX as u128 {
        u64::MAX
    } else {
        x as u64
    }
}

/// The length of the way in millimetres: the great-circle distances between
/// consecutive samples, added up. Heights play no part in it. A way of one
/// sample or none has length 0.
pub fn way_distance(way: &Vec<Sample>) -> (d: u64)
    ensures
        d == capped(total_distance(way@)),
        way.len() <= 1 ==> d == 0,
{
    cap(distance_exact(way))
}

} // verus!
