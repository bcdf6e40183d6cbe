//! Summary statistics of thickness samples, in whole numbers.
//!
//! Quotients are rounded down and roots are the integer part of the real
//! root. Every statistic of no samples is zero.

use vstd::prelude::*;
use vstd::seq_lib::{lemma_multiset_commutative, to_multiset_build};
use crate::vector::lemma_product_bound;

verus! {

/// One estimate of the local wall thickness, with the area of the triangle
/// it was taken from as its weight.
#[derive(Clone, Copy, Debug, PartialEq, Eq, Structural)]
pub struct ThicknessSample {
    pub thickness: u32,
    pub area: u32,
}

/// The summary of a set of thickness samples.
#[derive(Debug)]
pub struct Statistics {
    /// The average thickness, each sample weighted by its area.
    pub avg: u32,
    /// The middle thickness; of an even number of samples, the upper of the two in the middle.
    pub median: u32,
    /// The standard deviation of the thicknesses around their plain mean.
    pub std_dev: u32,
    /// The thicknesses of all samples, in ascending order.
    pub thicknesses: Vec<u32>,
}

/// No element is greater than a later one.
pub open spec fn ascending(s: Seq<u32>) -> bool {
    forall|i: int, j: int| 0 <= i < j < s.len() ==> s[i] <= s[j]
}

/// `sorted` holds the elements of `values`, each as often, in ascending order.
pub open spec fn sorted_form(sorted: Seq<u32>, values: Seq<u32>) -> bool {
    ascending(sorted) && sorted.to_multiset() == values.to_multiset()
}

/// The element in the middle of `sorted`; the upper of the two in the
/// middle when the length is even, and zero when there is none.
pub open spec fn middle(sorted: Seq<u32>) -> int {
    if sorted.len() == 0 {
        0
    } else {
        sorted[(sorted.len() / 2) as int] as int
    }
}

/// The sum of `values`.
pub open spec fn sum_of(values: Seq<u32>) -> nat
    decreases values.len(),
{
    if values.len() == 0 {
        0
    } else {
        sum_of(values.drop_last()) + values.last() as nat
    }
}

/// The mean of `values`, rounded down; zero when there are none.
pub open spec fn mean(values: Seq<u32>) -> nat {
    if values.len() == 0 {
        0
    } else {
        sum_of(values) / values.len()
    }
}

/// The sum of the squared distances of `values` from `center`.
pub open spec fn squared_deviations(values: Seq<u32>, center: int) -> nat
    decreases values.len(),
{
    if values.len() == 0 {
        0
    } else {
        squared_deviations(values.drop_last(), center) + ((values.last() - center) * (values.last()
            - center)) as nat
    }
}

/// The mean squared distance of `values` from `center`, rounded down; zero
/// when there are none.
pub open spec fn spread(values: Seq<u32>, center: int) -> nat {
    if values.len() == 0 {
        0
    } else {
        squared_deviations(values, center) / values.len()
    }
}

/// `r` is the integer part of the square root of `x`.
pub open spec fn is_root(r: int, x: int) -> bool {
    0 <= r && r * r <= x < (r + 1) * (r + 1)
}

/// The distances of `values` from `center`.
pub open spec fn distances(values: Seq<u32>, center: int) -> Seq<u32> {
    Seq::new(values.len(), |i: int| vstd::math::abs(values[i] - center) as u32)
}

/// The thicknesses of `samples`, in their order.
pub open spec fn thickness_values(samples: Seq<ThicknessSample>) -> Seq<u32> {
    Seq::new(samples.len(), |i: int| samples[i].thickness)
}

/// The sum of the areas of `samples`.
pub open spec fn total_area(samples: Seq<ThicknessSample>) -> nat
    decreases samples.len(),
{
    if samples.len() == 0 {
        0
    } else {
        total_area(samples.drop_last()) + samples.last().area as nat
    }
}

/// The sum over `samples` of thickness times area.
pub open spec fn weighted_total(samples: Seq<ThicknessSample>) -> nat
    decreases samples.len(),
{
    if samples.len() == 0 {
        0
    } else {
        weighted_total(samples.drop_last()) + (samples.last().thickness as nat)
            * (samples.last().area as nat)
    }
}

/// The average thickness of `samples` weighted by area, rounded down; zero
/// when the areas sum to nothing.
pub open spec fn weighted_average(samples: Seq<ThicknessSample>) -> nat {
    if total_area(samples) == 0 {
        0
    } else {
        weighted_total(samples) / total_area(samples)
    }
}

/// What the summary of `samples` holds.
pub open spec fn summary_of(samples: Seq<ThicknessSample>, stats: Statistics) -> bool {
    &&& sorted_form(stats.thicknesses@, thickness_values(samples))
    &&& stats.avg == weighted_average(samples)
    &&& stats.median == middle(stats.thicknesses@)
    &&& is_root(
        stats.std_dev as int,
        spread(stats.thicknesses@, mean(stats.thicknesses@) as int) as int,
    )
}

/// A number has one integer root only.
pub proof fn lemma_root_unique(r: int, s: int, x: int)
    by (nonlinear_arith)
    requires
        is_root(r, x),
        is_root(s, x),
    ensures
        r == s,
{
    if r < s {
        assert((r + 1) * (r + 1) <= s * s);
    } else if s < r {
        assert((s + 1) * (s + 1) <= r * r);
    }
}

/// A quotient is at most `m` when the dividend is at most `m` times the divisor.
proof fn lemma_quotient_bound(total: int, count: int, m: int)
    by (nonlinear_arith)
    requires
        0 <= total <= m * count,
        count > 0,
    ensures
        0 <= total / count <= m,
{
}

/// Every statistic of no samples is zero.
pub proof fn lemma_summary_of_nothing(stats: Statistics)
    requires
        summary_of(Seq::<ThicknessSample>::empty(), stats),
    ensures
        stats.avg == 0,
        stats.median == 0,
        stats.std_dev == 0,
        stats.thicknesses@.len() == 0,
{
    let none = thickness_values(Seq::<ThicknessSample>::empty());
    assert(none =~= Seq::<u32>::empty());
    vstd::seq_lib::to_multiset_len(none);
    vstd::seq_lib::to_multiset_len(stats.thicknesses@);
    assert(stats.std_dev == 0) by (nonlinear_arith)
        requires
            is_root(stats.std_dev as int, 0),
    ;
}

/// The integer part of the square root.
pub fn isqrt(x: u64) -> (r: u32)
    ensures
        is_root(r as int, x as int),
{
    let mut lo: u64 = 0;
    let mut hi: u64 = 0x1_0000_0000;
    while hi - lo > 1
        invariant
            lo < hi <= 0x1_0000_0000,
            lo * lo <= x,
            x < hi * hi,
        decreases hi - lo,
    {
        let mid = lo + (hi - lo) / 2;
        proof {
            lemma_product_bound(mid as int, mid as int, 0xFFFF_FFFF, 0xFFFF_FFFF);
        }
        if mid * mid <= x {
            lo = mid;
        } else {
            hi = mid;
        }
    }
    lo as u32
}

/// The integer part of the square root of a wide number.
pub fn isqrt_wide(x: u128) -> (r: u64)
    ensures
        is_root(r as int, x as int),
{
    let mut lo: u128 = 0;
    let mut hi: u128 = 0x1_0000_0000_0000_0000;
    while hi - lo > 1
        invariant
            lo < hi <= 0x1_0000_0000_0000_0000,
            lo * lo <= x,
            x < hi * hi,
        decreases hi - lo,
    {
        let mid = lo + (hi - lo) / 2;
        proof {
            lemma_product_bound(
                mid as int,
                mid as int,
                0xFFFF_FFFF_FFFF_FFFF,
                0xFFFF_FFFF_FFFF_FFFF,
            );
        }
        if mid * mid <= x {
            lo = mid;
        } else {
            hi = mid;
        }
    }
    lo as u64
}

/// Merges two ascending lists into one.
fn merge(a: &Vec<u32>, b: &Vec<u32>) -> (r: Vec<u32>)
    requires
        ascending(a@),
        ascending(b@),
    ensures
        ascending(r@),
        r@.to_multiset() == a@.to_multiset().add(b@.to_multiset()),
{
    let mut r: Vec<u32> = Vec::new();
    let mut i: usize = 0;
    let mut j: usize = 0;
    proof {
        assert(a@.take(0) =~= Seq::<u32>::empty());
        assert(b@.take(0) =~= Seq::<u32>::empty());
        assert(r@.to_multiset() =~= a@.take(0).to_multiset().add(b@.take(0).to_multiset())) by {
            lemma_multiset_commutative(a@.take(0), b@.take(0));
            assert(a@.take(0) + b@.take(0) =~= r@);
        }
    }
    while i < a.len() || j < b.len()
        invariant
            i <= a@.len(),
            j <= b@.len(),
            ascending(a@),
            ascending(b@),
            ascending(r@),
            r@.to_multiset() == a@.take(i as int).to_multiset().add(b@.take(j as int).to_multiset()),
            forall|k: int| 0 <= k < r@.len() && i < a@.len() ==> r@[k] <= a@[i as int],
            forall|k: int| 0 <= k < r@.len() && j < b@.len() ==> r@[k] <= b@[j as int],
        decreases a@.len() - i + b@.len() - j,
    {
        let from_a = if i < a.len() {
            if j < b.len() {
                a[i] <= b[j]
            } else {
                true
            }
        } else {
            false
        };
        let ghost before = r@;
        if from_a {
            let x = a[i];
            r.push(x);
            proof {
                to_multiset_build(before, x);
                to_multiset_build(a@.take(i as int), x);
                assert(a@.take(i as int).push(x) =~= a@.take(i + 1));
                assert(r@.to_multiset() =~= a@.take(i + 1).to_multiset().add(
                    b@.take(j as int).to_multiset(),
                ));
            }
            i += 1;
        } else {
            let x = b[j];
            r.push(x);
            proof {
                to_multiset_build(before, x);
                to_multiset_build(b@.take(j as int), x);
                assert(b@.take(j as int).push(x) =~= b@.take(j + 1));
                assert(r@.to_multiset() =~= a@.take(i as int).to_multiset().add(
                    b@.take(j + 1).to_multiset(),
                ));
            }
            j += 1;
        }
    }
    proof {
        assert(a@.take(i as int) =~= a@);
        assert(b@.take(j as int) =~= b@);
    }
    r
}

/// Sorts the part of `v` from `lo` up to `hi`.
fn sort_range(v: &Vec<u32>, lo: usize, hi: usize) -> (r: Vec<u32>)
    requires
        lo <= hi <= v@.len(),
    ensures
        sorted_form(r@, v@.subrange(lo as int, hi as int)),
    decreases hi - lo,
{
    if hi - lo <= 1 {
        let mut r: Vec<u32> = Vec::new();
        if hi > lo {
            r.push(v[lo]);
        }
        assert(r@ =~= v@.subrange(lo as int, hi as int));
        r
    } else {
        let mid = lo + (hi - lo) / 2;
        let left = sort_range(v, lo, mid);
        let right = sort_range(v, mid, hi);
        proof {
            let l = v@.subrange(lo as int, mid as int);
            let u = v@.subrange(mid as int, hi as int);
            assert(l + u =~= v@.subrange(lo as int, hi as int));
            lemma_multiset_commutative(l, u);
        }
        merge(&left, &right)
    }
}

/// Sorts `vals` and returns the element in the middle; of an even number,
/// the upper of the two in the middle, and zero when there is none.
pub fn median(vals: &mut Vec<u32>) -> (m: u32)
    ensures
        sorted_form(final(vals)@, old(vals)@),
        m == middle(final(vals)@),
{
    let sorted = sort_range(vals, 0, vals.len());
    assert(vals@.subrange(0, vals@.len() as int) =~= vals@);
    *vals = sorted;
    if vals.len() == 0 {
        0
    } else {
        vals[vals.len() / 2]
    }
}

/// The mean, rounded down; zero when there are no values.
pub fn average(it: &[u32]) -> (m: u32)
    ensures
        m == mean(it@),
{
    let n = it.len();
    if n == 0 {
        return 0;
    }
    let mut sum: u128 = 0;
    let mut i: usize = 0;
    while i < n
        invariant
            i <= n,
            n == it@.len(),
            sum == sum_of(it@.take(i as int)),
            sum <= i * 0xFFFF_FFFF,
        decreases n - i,
    {
        proof {
            assert(it@.take(i + 1).drop_last() =~= it@.take(i as int));
        }
        sum = sum + it[i] as u128;
        i += 1;
    }
    proof {
        assert(it@.take(n as int) =~= it@);
        lemma_quotient_bound(sum as int, n as int, 0xFFFF_FFFF);
    }
    (sum / (n as u128)) as u32
}

/// The standard deviation around `center`: the integer part of the root of
/// the mean squared distance from it. Zero when there are no values.
pub fn std_dev(it: &[u32], center: u32) -> (s: u32)
    ensures
        is_root(s as int, spread(it@, center as int) as int),
{
    let n = it.len();
    if n == 0 {
        return 0;
    }
    let mut sum: u128 = 0;
    let mut i: usize = 0;
    while i < n
        invariant
            i <= n,
            n == it@.len(),
            sum == squared_deviations(it@.take(i as int), center as int),
            sum <= i * 0xFFFF_FFFE_0000_0001,
        decreases n - i,
    {
        let t = it[i];
        let d: u64 = if t >= center {
            (t - center) as u64
        } else {
            (center - t) as u64
        };
        proof {
            assert(it@.take(i + 1).drop_last() =~= it@.take(i as int));
            lemma_product_bound(d as int, d as int, 0xFFFF_FFFF, 0xFFFF_FFFF);
            assert(d * d == (t - center) * (t - center)) by (nonlinear_arith)
                requires
                    d == t - center || d == center - t,
            ;
        }
        sum = sum + (d * d) as u128;
        i += 1;
    }
    proof {
        assert(it@.take(n as int) =~= it@);
        lemma_quotient_bound(sum as int, n as int, 0xFFFF_FFFE_0000_0001);
    }
    isqrt((sum / (n as u128)) as u64)
}

/// The median distance from `m`, scaled by 1.4826 and rounded down: for
/// normally distributed values an estimate of their standard deviation that
/// outliers hardly move. Zero when there are no values.
pub fn mad(it: &[u32], m: u32) -> (d: u64)
    ensures
        exists|sorted: Seq<u32>|
            sorted_form(sorted, distances(it@, m as int)) && d == middle(sorted) * 14826 / 10000,
{
    let mut dev: Vec<u32> = Vec::new();
    let mut i: usize = 0;
    while i < it.len()
        invariant
            i <= it@.len(),
            dev@.len() == i,
            forall|k: int| 0 <= k < i ==> dev@[k] == vstd::math::abs(it@[k] - m) as u32,
        decreases it@.len() - i,
    {
        let t = it[i];
        dev.push(
            if t >= m {
                t - m
            } else {
                m - t
            },
        );
        i += 1;
    }
    assert(dev@ =~= distances(it@, m as int));
    let mid = median(&mut dev);
    (mid as u64) * 14826 / 10000
}

impl Statistics {
    /// The value that stands for the whole set of samples: the median.
    pub fn representative(&self) -> (t: u32)
        ensures
            t == self.median,
    {
        self.median
    }

    /// Summarises `samples`.
    pub fn from_samples(samples: &Vec<ThicknessSample>) -> (stats: Statistics)
        ensures
            summary_of(samples@, stats),
    {
        let n = samples.len();
        let mut thicknesses: Vec<u32> = Vec::new();
        let mut area: u128 = 0;
        let mut weighted: u128 = 0;
        let mut i: usize = 0;
        while i < n
            invariant
                i <= n,
                n == samples@.len(),
                thicknesses@.len() == i,
                forall|k: int| 0 <= k < i ==> thicknesses@[k] == samples@[k].thickness,
                area == total_area(samples@.take(i as int)),
                weighted == weighted_total(samples@.take(i as int)),
                area <= i * 0xFFFF_FFFF,
                weighted <= 0xFFFF_FFFF * area,
            decreases n - i,
        {
            let s = samples[i];
            proof {
                assert(samples@.take(i + 1).drop_last() =~= samples@.take(i as int));
                lemma_product_bound(s.thickness as int, s.area as int, 0xFFFF_FFFF, s.area as int);
            }
            thicknesses.push(s.thickness);
            area = area + s.area as u128;
            weighted = weighted + (s.thickness as u128) * (s.area as u128);
            i += 1;
        }
        proof {
            assert(samples@.take(n as int) =~= samples@);
            assert(thicknesses@ =~= thickness_values(samples@));
        }
        let avg: u32 = if area == 0 {
            0
        } else {
            proof {
                lemma_quotient_bound(weighted as int, area as int, 0xFFFF_FFFF);
            }
            (weighted / area) as u32
        };
        let median = median(&mut thicknesses);
        let center = average(thicknesses.as_slice());
        let std_dev = std_dev(thicknesses.as_slice(), center);
        Statistics { avg, median, std_dev, thicknesses }
    }
}

} // verus!
