//! Ensemble-implied YES probability for a bracket.
//!
//! Three routes, in priority order: exact counting over raw ensemble
//! member highs, linear interpolation over a bucket-probability table,
//! and a point-estimate proxy for Above-shaped contracts.  All
//! probabilities are in basis points.

use vstd::prelude::*;
use vstd::arithmetic::div_mod::{
    lemma_div_is_ordered, lemma_div_by_multiple, lemma_div_pos_is_pos, lemma_div_of0,
};
use crate::types::{MarketType, TempBucketProbability, MEMBER_BOUND, sum_bucket_bps, buckets_wf};

verus! {

/// Whether one ensemble member high satisfies the bracket's shape.
///
/// Above is strict, Below is strict, Between is half-open.
pub open spec fn member_matches(h: i64, mt: MarketType) -> bool {
    match mt {
        MarketType::Above(t) => h > t,
        MarketType::Below(t) => h < t,
        MarketType::Between(lo, hi) => lo <= h < hi,
    }
}

/// Number of members satisfying the shape.
pub open spec fn count_matching(ms: Seq<i64>, mt: MarketType) -> int
    decreases ms.len(),
{
    if ms.len() == 0 {
        0
    } else {
        count_matching(ms.drop_last(), mt) + if member_matches(ms.last(), mt) {
            1int
        } else {
            0int
        }
    }
}

pub proof fn lemma_count_matching_bounds(ms: Seq<i64>, mt: MarketType)
    ensures
        0 <= count_matching(ms, mt) <= ms.len(),
    decreases ms.len(),
{
    if ms.len() > 0 {
        lemma_count_matching_bounds(ms.drop_last(), mt);
    }
}

/// Counting respects implication between shapes: if every member that
/// satisfies `mt1` also satisfies `mt2`, the count for `mt1` is no larger.
pub proof fn lemma_count_matching_implies(ms: Seq<i64>, mt1: MarketType, mt2: MarketType)
    requires
        forall|h: i64| member_matches(h, mt1) ==> member_matches(h, mt2),
    ensures
        count_matching(ms, mt1) <= count_matching(ms, mt2),
    decreases ms.len(),
{
    if ms.len() > 0 {
        lemma_count_matching_implies(ms.drop_last(), mt1, mt2);
    }
}

/// Exact member-counting probability, in basis points: the fraction of
/// members satisfying the shape, rounded down; zero when there are no
/// members.
pub open spec fn spec_members_yes_bps(ms: Seq<i64>, mt: MarketType) -> int {
    if ms.len() == 0 {
        0
    } else {
        count_matching(ms, mt) * 10000 / (ms.len() as int)
    }
}

pub proof fn lemma_members_yes_bps_bounds(ms: Seq<i64>, mt: MarketType)
    ensures
        0 <= spec_members_yes_bps(ms, mt) <= 10000,
{
    if ms.len() > 0 {
        let n = ms.len() as int;
        lemma_count_matching_bounds(ms, mt);
        let c = count_matching(ms, mt);
        lemma_div_pos_is_pos(c * 10000, n);
        assert(c * 10000 <= n * 10000) by (nonlinear_arith)
            requires 0 <= c <= n;
        lemma_div_is_ordered(c * 10000, n * 10000, n);
        lemma_div_by_multiple(10000, n);
    }
}

/// Raising an Above threshold never increases the exact member-counting
/// probability.
pub proof fn lemma_members_monotone_above(ms: Seq<i64>, t1: i64, t2: i64)
    requires
        t1 <= t2,
    ensures
        spec_members_yes_bps(ms, MarketType::Above(t2))
            <= spec_members_yes_bps(ms, MarketType::Above(t1)),
{
    if ms.len() > 0 {
        let n = ms.len() as int;
        lemma_count_matching_implies(ms, MarketType::Above(t2), MarketType::Above(t1));
        let c1 = count_matching(ms, MarketType::Above(t1));
        let c2 = count_matching(ms, MarketType::Above(t2));
        lemma_count_matching_bounds(ms, MarketType::Above(t2));
        assert(c2 * 10000 <= c1 * 10000) by (nonlinear_arith)
            requires c2 <= c1;
        lemma_div_is_ordered(c2 * 10000, c1 * 10000, n);
    }
}

/// Raising a Below threshold never decreases the exact member-counting
/// probability.
pub proof fn lemma_members_monotone_below(ms: Seq<i64>, t1: i64, t2: i64)
    requires
        t1 <= t2,
    ensures
        spec_members_yes_bps(ms, MarketType::Below(t1))
            <= spec_members_yes_bps(ms, MarketType::Below(t2)),
{
    if ms.len() > 0 {
        let n = ms.len() as int;
        lemma_count_matching_implies(ms, MarketType::Below(t1), MarketType::Below(t2));
        let c1 = count_matching(ms, MarketType::Below(t1));
        let c2 = count_matching(ms, MarketType::Below(t2));
        lemma_count_matching_bounds(ms, MarketType::Below(t1));
        assert(c1 * 10000 <= c2 * 10000) by (nonlinear_arith)
            requires c1 <= c2;
        lemma_div_is_ordered(c1 * 10000, c2 * 10000, n);
    }
}

/// Widening a Between shape on either end never decreases the exact
/// member-counting probability.
pub proof fn lemma_members_monotone_between(ms: Seq<i64>, lo1: i64, hi1: i64, lo2: i64, hi2: i64)
    requires
        lo2 <= lo1,
        hi1 <= hi2,
    ensures
        spec_members_yes_bps(ms, MarketType::Between(lo1, hi1))
            <= spec_members_yes_bps(ms, MarketType::Between(lo2, hi2)),
{
    if ms.len() > 0 {
        let n = ms.len() as int;
        let m1 = MarketType::Between(lo1, hi1);
        let m2 = MarketType::Between(lo2, hi2);
        lemma_count_matching_implies(ms, m1, m2);
        let c1 = count_matching(ms, m1);
        let c2 = count_matching(ms, m2);
        lemma_count_matching_bounds(ms, m1);
        assert(c1 * 10000 <= c2 * 10000) by (nonlinear_arith)
            requires c1 <= c2;
        lemma_div_is_ordered(c1 * 10000, c2 * 10000, n);
    }
}

/// Exact YES probability from raw ensemble member highs.
pub fn ensemble_yes_from_members(member_highs: &Vec<i64>, mt: &MarketType) -> (p: i64)
    requires
        member_highs@.len() <= MEMBER_BOUND,
    ensures
        p == spec_members_yes_bps(member_highs@, *mt),
        0 <= p <= 10000,
{
    let ghost ms = member_highs@;
    let n = member_highs.len();
    if n == 0 {
        return 0;
    }
    let mut count: u64 = 0;
    let mut i: usize = 0;
    while i < n
        invariant
            0 <= i <= n,
            n == ms.len(),
            n <= MEMBER_BOUND,
            member_highs@ == ms,
            count == count_matching(ms.take(i as int), *mt),
            count <= i,
        decreases n - i,
    {
        let h = member_highs[i];
        let hit = match mt {
            MarketType::Above(t) => h > *t,
            MarketType::Below(t) => h < *t,
            MarketType::Between(lo, hi) => *lo <= h && h < *hi,
        };
        proof {
            assert(ms.take(i + 1).drop_last() =~= ms.take(i as int));
            assert(ms.take(i + 1).last() == ms[i as int]);
        }
        if hit {
            count = count + 1;
        }
        i = i + 1;
    }
    proof {
        assert(ms.take(n as int) =~= ms);
        lemma_members_yes_bps_bounds(ms, *mt);
        assert(count * 10000 <= n * 10000) by (nonlinear_arith)
            requires count <= n;
    }
    let p = count * 10000 / (n as u64);
    p as i64
}

/// Contribution of one bucket to the interpolated YES probability:
/// full mass when the bucket lies inside the shape, mass scaled by the
/// overlap fraction of the bucket's width when it straddles a boundary.
pub open spec fn bucket_term(b: TempBucketProbability, mt: MarketType) -> int {
    let w = b.upper - b.lower;
    match mt {
        MarketType::Above(t) => if b.lower >= t {
            b.probability_bps as int
        } else if b.upper > t {
            b.probability_bps * (b.upper - t) / w
        } else {
            0
        },
        MarketType::Below(t) => if b.upper <= t {
            b.probability_bps as int
        } else if b.lower < t {
            b.probability_bps * (t - b.lower) / w
        } else {
            0
        },
        MarketType::Between(lo, hi) => if b.lower >= hi || b.upper <= lo {
            0
        } else {
            let ov_lo = if b.lower >= lo { b.lower as int } else { lo as int };
            let ov_hi = if b.upper <= hi { b.upper as int } else { hi as int };
            if ov_hi <= ov_lo {
                0
            } else {
                b.probability_bps * (ov_hi - ov_lo) / w
            }
        },
    }
}

/// Interpolated YES probability of a bucket table, in basis points.
pub open spec fn spec_buckets_yes_bps(bs: Seq<TempBucketProbability>, mt: MarketType) -> int
    decreases bs.len(),
{
    if bs.len() == 0 {
        0
    } else {
        spec_buckets_yes_bps(bs.drop_last(), mt) + bucket_term(bs.last(), mt)
    }
}

pub proof fn lemma_bucket_term_bounds(b: TempBucketProbability, mt: MarketType)
    requires
        b.wf(),
    ensures
        0 <= bucket_term(b, mt) <= b.probability_bps,
{
    let w = b.upper - b.lower;
    let p = b.probability_bps as int;
    match mt {
        MarketType::Above(t) => {
            if b.lower < t && b.upper > t {
                lemma_partial_term_bounds(p, b.upper - t, w);
            }
        },
        MarketType::Below(t) => {
            if b.upper > t && b.lower < t {
                lemma_partial_term_bounds(p, t - b.lower, w);
            }
        },
        MarketType::Between(lo, hi) => {
            if !(b.lower >= hi || b.upper <= lo) {
                let ov_lo = if b.lower >= lo { b.lower as int } else { lo as int };
                let ov_hi = if b.upper <= hi { b.upper as int } else { hi as int };
                if ov_hi > ov_lo {
                    lemma_partial_term_bounds(p, ov_hi - ov_lo, w);
                }
            }
        },
    }
}

/// A mass scaled by a positive fraction of at most one.
fn partial_term(p: i64, num: i64, w: i64) -> (r: i64)
    requires
        0 <= p <= 10000,
        0 < num <= w,
        w <= 1_000_000,
    ensures
        r == (p as int) * (num as int) / (w as int),
        0 <= r <= p,
{
    proof {
        assert(0 <= p * num <= 10000 * 1_000_000) by (nonlinear_arith)
            requires 0 <= p <= 10000, 0 < num <= 1_000_000;
        lemma_partial_term_bounds(p as int, num as int, w as int);
    }
    p * num / w
}

/// A mass scaled by a positive fraction of at most one stays within `[0, p]`.
proof fn lemma_partial_term_bounds(p: int, num: int, w: int)
    requires
        0 <= p,
        0 < num <= w,
    ensures
        0 <= p * num / w <= p,
{
    assert(0 <= p * num) by (nonlinear_arith)
        requires 0 <= p, 0 < num;
    lemma_div_pos_is_pos(p * num, w);
    assert(p * num <= p * w) by (nonlinear_arith)
        requires 0 <= p, num <= w;
    lemma_div_is_ordered(p * num, p * w, w);
    lemma_div_by_multiple(p, w);
}

pub proof fn lemma_buckets_yes_bounds(bs: Seq<TempBucketProbability>, mt: MarketType)
    requires
        forall|i: int| 0 <= i < bs.len() ==> (#[trigger] bs[i]).wf(),
    ensures
        0 <= spec_buckets_yes_bps(bs, mt) <= sum_bucket_bps(bs),
    decreases bs.len(),
{
    if bs.len() > 0 {
        lemma_buckets_yes_bounds(bs.drop_last(), mt);
        lemma_bucket_term_bounds(bs.last(), mt);
    }
}

/// Interpolated YES probability from a bucket-probability table.
///
/// Sums full-bucket masses inside the shape and linearly interpolates
/// the mass of any bucket straddling a boundary, proportional to the
/// overlap fraction of the bucket's width.
pub fn ensemble_yes_from_buckets(buckets: &Vec<TempBucketProbability>, mt: &MarketType) -> (p: i64)
    requires
        buckets_wf(buckets@),
        mt.wf(),
    ensures
        p == spec_buckets_yes_bps(buckets@, *mt),
        0 <= p <= 10000,
{
    let ghost bs = buckets@;
    let n = buckets.len();
    let mut acc: i64 = 0;
    let mut i: usize = 0;
    proof {
        lemma_sum_bucket_prefix(bs, 0);
    }
    while i < n
        invariant
            0 <= i <= n,
            n == bs.len(),
            buckets@ == bs,
            buckets_wf(bs),
            acc == spec_buckets_yes_bps(bs.take(i as int), *mt),
            0 <= acc <= sum_bucket_bps(bs.take(i as int)),
            sum_bucket_bps(bs.take(i as int)) <= 10000,
            mt.wf(),
        decreases n - i,
    {
        proof {
            assert(bs[i as int].wf());
        }
        let b = &buckets[i];
        let w = b.upper - b.lower;
        let term: i64 = match mt {
            MarketType::Above(t) => {
                if b.lower >= *t {
                    b.probability_bps
                } else if b.upper > *t {
                    partial_term(b.probability_bps, b.upper - *t, w)
                } else {
                    0
                }
            },
            MarketType::Below(t) => {
                if b.upper <= *t {
                    b.probability_bps
                } else if b.lower < *t {
                    partial_term(b.probability_bps, *t - b.lower, w)
                } else {
                    0
                }
            },
            MarketType::Between(lo, hi) => {
                if b.lower >= *hi || b.upper <= *lo {
                    0
                } else {
                    let ov_lo = if b.lower >= *lo { b.lower } else { *lo };
                    let ov_hi = if b.upper <= *hi { b.upper } else { *hi };
                    if ov_hi <= ov_lo {
                        0
                    } else {
                        partial_term(b.probability_bps, ov_hi - ov_lo, w)
                    }
                }
            },
        };
        proof {
            assert(bs[i as int].wf());
            lemma_bucket_term_bounds(bs[i as int], *mt);
            assert(term == bucket_term(bs[i as int], *mt));
            assert(bs.take(i + 1).drop_last() =~= bs.take(i as int));
            assert(bs.take(i + 1).last() == bs[i as int]);
            lemma_sum_bucket_prefix(bs, i + 1);
        }
        acc = acc + term;
        i = i + 1;
    }
    proof {
        assert(bs.take(n as int) =~= bs);
    }
    acc
}

/// A prefix of a well-formed bucket table carries at most the table's mass.
proof fn lemma_sum_bucket_prefix(bs: Seq<TempBucketProbability>, i: int)
    requires
        0 <= i <= bs.len(),
        forall|j: int| 0 <= j < bs.len() ==> (#[trigger] bs[j]).wf(),
    ensures
        sum_bucket_bps(bs.take(i)) <= sum_bucket_bps(bs),
        sum_bucket_bps(bs.take(i)) >= 0,
    decreases bs.len() - i,
{
    let pre = bs.take(i);
    assert(forall|j: int| 0 <= j < pre.len() ==> (#[trigger] pre[j]).wf());
    lemma_sum_bucket_nonneg(pre);
    if i == bs.len() {
        assert(bs.take(i) =~= bs);
    } else {
        lemma_sum_bucket_prefix(bs, i + 1);
        assert(bs.take(i + 1).drop_last() =~= bs.take(i));
        assert(bs.take(i + 1).last() == bs[i]);
        assert(bs[i].wf());
    }
}

proof fn lemma_sum_bucket_nonneg(bs: Seq<TempBucketProbability>)
    requires
        forall|j: int| 0 <= j < bs.len() ==> (#[trigger] bs[j]).wf(),
    ensures
        sum_bucket_bps(bs) >= 0,
    decreases bs.len(),
{
    if bs.len() > 0 {
        lemma_sum_bucket_nonneg(bs.drop_last());
    }
}

/// Point-estimate probability proxy for Above-shaped contracts: a
/// rational sigmoid of the gap between the forecast high and the
/// threshold, in tenths of °F.
///
/// This is deliberately not the logistic curve itself (whose
/// exponential has no exact integer form): it is the rational
/// S-curve `1/2 + (d/4)/(2(2 + |d/4|))` with `d` in °F, chosen so
/// that its value (5000) and slope (12.5 points per °F) at a zero gap
/// match a logistic with a 2 °F temperature scale.  Away from the
/// midpoint it is flatter: at a +2 °F gap it yields 66.7 % where the
/// logistic gives about 73.1 %.  It rises strictly with the gap, is
/// symmetric about the midpoint, and stays strictly inside
/// (0, 10000).
pub open spec fn spec_sigmoid_bps(diff_tenths: int) -> int {
    if diff_tenths >= 0 {
        5000 + 5000 * diff_tenths / (40 + diff_tenths)
    } else {
        5000 - 5000 * (-diff_tenths) / (40 + (-diff_tenths))
    }
}

pub fn sigmoid_bps(diff_tenths: i64) -> (p: i64)
    requires
        -400_000 <= diff_tenths <= 400_000,
    ensures
        p == spec_sigmoid_bps(diff_tenths as int),
        0 < p < 10000,
{
    let mag: i64 = if diff_tenths >= 0 { diff_tenths } else { -diff_tenths };
    let half: i64 = if mag == 0 {
        proof {
            lemma_div_of0(40);
        }
        0
    } else {
        partial_term(5000, mag, 40 + mag)
    };
    proof {
        lemma_sigmoid_half_strict(mag as int);
    }
    if diff_tenths >= 0 {
        5000 + half
    } else {
        5000 - half
    }
}

/// Scaled contribution of one two-degree grid cell `[l, l+20)` to the
/// interpolated count for an Above threshold: the full cell membership
/// (scaled by the cell width of 20) when the cell lies above the
/// threshold, the membership scaled by the overlap when it straddles
/// it, nothing when it lies below.
pub open spec fn grid_cell_term(ms: Seq<i64>, l: int, t: int) -> int {
    let c = crate::weather::count_in(ms, l, l + 20);
    if l >= t {
        20 * c
    } else if l + 20 > t {
        c * (l + 20 - t)
    } else {
        0
    }
}

/// Scaled interpolated count over the grid of `k` cells starting at `l`.
pub open spec fn grid_interp_scaled(ms: Seq<i64>, l: int, k: int, t: int) -> int
    decreases k,
{
    if k <= 0 {
        0
    } else {
        grid_cell_term(ms, l, t) + grid_interp_scaled(ms, l + 20, k - 1, t)
    }
}

proof fn lemma_count_in_empty(ms: Seq<i64>, lo: int, hi: int)
    requires
        lo >= hi,
    ensures
        crate::weather::count_in(ms, lo, hi) == 0,
    decreases ms.len(),
{
    if ms.len() > 0 {
        lemma_count_in_empty(ms.drop_last(), lo, hi);
    }
}

proof fn lemma_count_in_split(ms: Seq<i64>, lo: int, mid: int, hi: int)
    requires
        lo <= mid <= hi,
    ensures
        crate::weather::count_in(ms, lo, hi) == crate::weather::count_in(ms, lo, mid)
            + crate::weather::count_in(ms, mid, hi),
    decreases ms.len(),
{
    if ms.len() > 0 {
        lemma_count_in_split(ms.drop_last(), lo, mid, hi);
    }
}

/// Strict counting above a threshold equals interval counting from the
/// next integer, once every member lies below the interval's end.
proof fn lemma_count_above_as_interval(ms: Seq<i64>, t: i64, hi: int)
    requires
        forall|i: int| 0 <= i < ms.len() ==> #[trigger] ms[i] < hi,
    ensures
        count_matching(ms, MarketType::Above(t)) == crate::weather::count_in(
            ms,
            t as int + 1,
            hi,
        ),
    decreases ms.len(),
{
    if ms.len() > 0 {
        assert(forall|i: int| 0 <= i < ms.drop_last().len() ==>
            #[trigger] ms.drop_last()[i] == ms[i]);
        lemma_count_above_as_interval(ms.drop_last(), t, hi);
    }
}

/// Bucket interpolation and exact member counting agree within one
/// bucket's mass.  Over a two-degree grid of `k` cells from `l` that
/// covers every member, the interpolated count for Above `t` (each
/// cell's membership scaled by its overlap with the shape, in units
/// of a twentieth of a cell) differs from twenty times the exact
/// strict count by at most twenty times the membership of the single
/// cell containing the threshold — and not at all when the threshold
/// lies off the grid.
pub proof fn lemma_interp_within_one_bucket(ms: Seq<i64>, l: int, k: int, t: i64)
    requires
        k >= 0,
        forall|i: int| 0 <= i < ms.len() ==> l <= #[trigger] ms[i] < l + 20 * k,
    ensures
        ({
            let interp = grid_interp_scaled(ms, l, k, t as int);
            let exact = 20 * count_matching(ms, MarketType::Above(t));
            if l <= t < l + 20 * k {
                let cell = l + 20 * ((t - l) / 20);
                let mass = 20 * crate::weather::count_in(ms, cell, cell + 20);
                interp - exact <= mass && exact - interp <= mass
            } else {
                interp == exact
            }
        }),
{
    lemma_count_above_as_interval(ms, t, l + 20 * k);
    lemma_grid_above(ms, l, k, t);
    if (t as int) < l {
        lemma_count_in_split(ms, t as int + 1, l, l + 20 * k);
        lemma_count_in_outside(ms, t as int + 1, l);
    } else if t as int >= l + 20 * k {
        lemma_count_in_empty(ms, t as int + 1, l + 20 * k);
    }
}

/// An interval below every member counts nothing.
proof fn lemma_count_in_outside(ms: Seq<i64>, lo: int, hi: int)
    requires
        forall|i: int| 0 <= i < ms.len() ==> hi <= #[trigger] ms[i],
    ensures
        crate::weather::count_in(ms, lo, hi) == 0,
    decreases ms.len(),
{
    if ms.len() > 0 {
        assert(forall|i: int| 0 <= i < ms.drop_last().len() ==>
            #[trigger] ms.drop_last()[i] == ms[i]);
        lemma_count_in_outside(ms.drop_last(), lo, hi);
    }
}

/// The grid induction behind `lemma_interp_within_one_bucket`, stated
/// over interval counts.
proof fn lemma_grid_above(ms: Seq<i64>, l: int, k: int, t: i64)
    requires
        k >= 0,
    ensures
        ({
            let interp = grid_interp_scaled(ms, l, k, t as int);
            let lo = if t as int + 1 >= l {
                t as int + 1
            } else {
                l
            };
            let exact = 20 * crate::weather::count_in(ms, lo, l + 20 * k);
            if l <= t < l + 20 * k {
                let cell = l + 20 * ((t - l) / 20);
                let mass = 20 * crate::weather::count_in(ms, cell, cell + 20);
                interp - exact <= mass && exact - interp <= mass
            } else {
                interp == exact
            }
        }),
    decreases k,
{
    let lo = if t as int + 1 >= l {
        t as int + 1
    } else {
        l
    };
    if k <= 0 {
        lemma_count_in_empty(ms, lo, l + 20 * k);
    } else {
        lemma_grid_above(ms, l + 20, k - 1, t);
        let c = crate::weather::count_in(ms, l, l + 20);
        crate::weather::lemma_count_in_bounds(ms, l, l + 20);
        if t < l {
            // the first cell lies fully above the threshold
            lemma_count_in_split(ms, lo, l + 20, l + 20 * k);
            lemma_count_in_split(ms, lo, l, l + 20);
            lemma_count_in_empty(ms, lo, l);
        } else if t as int >= l + 20 {
            // the first cell lies fully below the threshold, and the
            // exact range already starts past it
            if l + 20 <= t < l + 20 * k {
                // the straddled cell is the same one seen from l + 20
                vstd::arithmetic::div_mod::lemma_div_plus_one(t - l - 20, 20);
                assert(l + 20 * ((t - l) / 20) == l + 20 + 20 * ((t - l - 20) / 20));
            }
        } else {
            // l <= t < l + 20: the first cell straddles the threshold
            assert((t - l) / 20 == 0) by {
                vstd::arithmetic::div_mod::lemma_basic_div(t - l, 20);
            }
            let cell = l + 20 * ((t - l) / 20);
            assert(cell == l);
            lemma_count_in_split(ms, t as int + 1, l + 20, l + 20 * k);
            // the first cell's term stays within 20 c of its exact part
            let cin = crate::weather::count_in(ms, t as int + 1, l + 20);
            crate::weather::lemma_count_in_bounds(ms, t as int + 1, l + 20);
            lemma_count_in_split(ms, l, t as int + 1, l + 20);
            crate::weather::lemma_count_in_bounds(ms, l, t as int + 1);
            if l >= t {
                // l == t: full cell term versus the strict count inside it
            } else {
                assert(0 <= c * (l + 20 - t) <= 20 * c) by (nonlinear_arith)
                    requires 0 <= c, 0 < l + 20 - t <= 20;
            }
        }
    }
}

/// Scaled contribution of one two-degree grid cell `[l, l+20)` to the
/// interpolated count for a Below threshold.
pub open spec fn grid_cell_term_below(ms: Seq<i64>, l: int, t: int) -> int {
    let c = crate::weather::count_in(ms, l, l + 20);
    if l + 20 <= t {
        20 * c
    } else if l < t {
        c * (t - l)
    } else {
        0
    }
}

/// Scaled interpolated count for a Below threshold over the grid of
/// `k` cells starting at `l`.
pub open spec fn grid_interp_below(ms: Seq<i64>, l: int, k: int, t: int) -> int
    decreases k,
{
    if k <= 0 {
        0
    } else {
        grid_cell_term_below(ms, l, t) + grid_interp_below(ms, l + 20, k - 1, t)
    }
}

/// Strict counting below a threshold equals interval counting up to
/// it, once every member lies at or above the interval's start.
proof fn lemma_count_below_as_interval(ms: Seq<i64>, t: i64, lo: int)
    requires
        forall|i: int| 0 <= i < ms.len() ==> lo <= #[trigger] ms[i],
    ensures
        count_matching(ms, MarketType::Below(t)) == crate::weather::count_in(
            ms,
            lo,
            t as int,
        ),
    decreases ms.len(),
{
    if ms.len() > 0 {
        assert(forall|i: int| 0 <= i < ms.drop_last().len() ==>
            #[trigger] ms.drop_last()[i] == ms[i]);
        lemma_count_below_as_interval(ms.drop_last(), t, lo);
    }
}

/// The Below-shaped counterpart of `lemma_interp_within_one_bucket`:
/// over a two-degree grid covering every member, the interpolated
/// count for Below `t` differs from twenty times the exact strict
/// count by at most twenty times the membership of the single cell
/// containing the threshold, and not at all when the threshold lies
/// off the grid.
pub proof fn lemma_interp_below_within_one_bucket(ms: Seq<i64>, l: int, k: int, t: i64)
    requires
        k >= 0,
        forall|i: int| 0 <= i < ms.len() ==> l <= #[trigger] ms[i] < l + 20 * k,
    ensures
        ({
            let interp = grid_interp_below(ms, l, k, t as int);
            let exact = 20 * count_matching(ms, MarketType::Below(t));
            if l <= t < l + 20 * k {
                let cell = l + 20 * ((t - l) / 20);
                let mass = 20 * crate::weather::count_in(ms, cell, cell + 20);
                interp - exact <= mass && exact - interp <= mass
            } else {
                interp == exact
            }
        }),
{
    lemma_count_below_as_interval(ms, t, l);
    lemma_grid_below(ms, l, k, t);
    if (t as int) < l {
        lemma_count_in_empty(ms, l, t as int);
    } else if t as int >= l + 20 * k {
        lemma_count_in_split(ms, l, l + 20 * k, t as int);
        lemma_count_in_outside_above(ms, l + 20 * k, t as int);
    }
}

/// An interval above every member counts nothing.
proof fn lemma_count_in_outside_above(ms: Seq<i64>, lo: int, hi: int)
    requires
        forall|i: int| 0 <= i < ms.len() ==> #[trigger] ms[i] < lo,
    ensures
        crate::weather::count_in(ms, lo, hi) == 0,
    decreases ms.len(),
{
    if ms.len() > 0 {
        assert(forall|i: int| 0 <= i < ms.drop_last().len() ==>
            #[trigger] ms.drop_last()[i] == ms[i]);
        lemma_count_in_outside_above(ms.drop_last(), lo, hi);
    }
}

/// The grid induction behind the Below agreement, over interval counts.
proof fn lemma_grid_below(ms: Seq<i64>, l: int, k: int, t: i64)
    requires
        k >= 0,
    ensures
        ({
            let interp = grid_interp_below(ms, l, k, t as int);
            let hi = if t as int <= l + 20 * k {
                t as int
            } else {
                l + 20 * k
            };
            let exact = 20 * crate::weather::count_in(ms, l, hi);
            if l <= t < l + 20 * k {
                let cell = l + 20 * ((t - l) / 20);
                let mass = 20 * crate::weather::count_in(ms, cell, cell + 20);
                interp - exact <= mass && exact - interp <= mass
            } else {
                interp == exact
            }
        }),
    decreases k,
{
    let hi = if t as int <= l + 20 * k {
        t as int
    } else {
        l + 20 * k
    };
    if k <= 0 {
        lemma_count_in_empty(ms, l, hi);
    } else {
        lemma_grid_below(ms, l + 20, k - 1, t);
        let c = crate::weather::count_in(ms, l, l + 20);
        crate::weather::lemma_count_in_bounds(ms, l, l + 20);
        if t as int >= l + 20 {
            // the first cell lies fully below the threshold
            let hi2 = if t as int <= l + 20 * k {
                t as int
            } else {
                l + 20 * k
            };
            lemma_count_in_split(ms, l, l + 20, hi2);
            if l + 20 <= t < l + 20 * k {
                vstd::arithmetic::div_mod::lemma_div_plus_one(t - l - 20, 20);
                assert(l + 20 * ((t - l) / 20) == l + 20 + 20 * ((t - l - 20) / 20));
            }
        } else if (t as int) <= l {
            // everything on the grid is at or above the threshold
            lemma_count_in_empty(ms, l, hi);
            lemma_count_in_empty(ms, l + 20, t as int);
        } else {
            // l < t < l + 20: the first cell straddles the threshold
            assert((t - l) / 20 == 0) by {
                vstd::arithmetic::div_mod::lemma_basic_div(t - l, 20);
            }
            let cin = crate::weather::count_in(ms, l, t as int);
            crate::weather::lemma_count_in_bounds(ms, l, t as int);
            crate::weather::lemma_count_in_bounds(ms, t as int, l + 20);
            lemma_count_in_split(ms, l, t as int, l + 20);
            lemma_count_in_empty(ms, l + 20, t as int);
            assert(0 <= c * (t - l) <= 20 * c) by (nonlinear_arith)
                requires 0 <= c, 0 < t - l <= 20;
        }
    }
}

/// Whether some bucket of a table contains the value.
pub open spec fn in_some_bucket(bs: Seq<TempBucketProbability>, h: i64) -> bool {
    exists|k: int| 0 <= k < bs.len() && (#[trigger] bs[k]).lower <= h < bs[k].upper
}

/// Every table bucket is one two-degree grid cell.
pub open spec fn table_aligned(bs: Seq<TempBucketProbability>) -> bool {
    forall|k: int| 0 <= k < bs.len() ==> (#[trigger] bs[k]).upper == bs[k].lower + 20
        && bs[k].lower % 20 == 0
}

/// Bucket lowers strictly ascend, so the cells are pairwise disjoint.
pub open spec fn table_ascending(bs: Seq<TempBucketProbability>) -> bool {
    forall|k1: int, k2: int| 0 <= k1 < k2 < bs.len() ==> (#[trigger] bs[k1]).lower
        < (#[trigger] bs[k2]).lower
}

/// Every member lies in some bucket of the table.
pub open spec fn table_covers(ms: Seq<i64>, bs: Seq<TempBucketProbability>) -> bool {
    forall|i: int| 0 <= i < ms.len() ==> in_some_bucket(bs, #[trigger] ms[i])
}

/// Scaled interpolated count over a table's cells for an Above
/// threshold, on exact per-cell membership.
pub open spec fn table_interp_scaled(ms: Seq<i64>, bs: Seq<TempBucketProbability>, t: int) -> int
    decreases bs.len(),
{
    if bs.len() == 0 {
        0
    } else {
        table_interp_scaled(ms, bs.drop_last(), t) + grid_cell_term(
            ms,
            bs.last().lower as int,
            t,
        )
    }
}

/// Exact strict count above `t` inside one cell.
pub open spec fn cell_above(ms: Seq<i64>, lo: int, t: int) -> int {
    crate::weather::count_in(
        ms,
        if t + 1 >= lo {
            t + 1
        } else {
            lo
        },
        lo + 20,
    )
}

/// Exact strict count above `t`, summed over a table's cells.
pub open spec fn sum_above_cells(ms: Seq<i64>, bs: Seq<TempBucketProbability>, t: int) -> int
    decreases bs.len(),
{
    if bs.len() == 0 {
        0
    } else {
        sum_above_cells(ms, bs.drop_last(), t) + cell_above(ms, bs.last().lower as int, t)
    }
}

/// Two aligned cells containing the same value are the same cell.
proof fn lemma_aligned_cell_unique(lo1: int, lo2: int, h: int)
    requires
        lo1 % 20 == 0,
        lo2 % 20 == 0,
        lo1 <= h < lo1 + 20,
        lo2 <= h < lo2 + 20,
    ensures
        lo1 == lo2,
{
    vstd::arithmetic::div_mod::lemma_fundamental_div_mod(lo1, 20);
    vstd::arithmetic::div_mod::lemma_fundamental_div_mod(lo2, 20);
    let q1 = lo1 / 20;
    let q2 = lo2 / 20;
    assert(q1 == q2) by (nonlinear_arith)
        requires
            lo1 == 20 * q1,
            lo2 == 20 * q2,
            lo1 - lo2 < 20,
            lo2 - lo1 < 20;
}

proof fn lemma_sum_above_cells_empty(bs: Seq<TempBucketProbability>, t: int)
    ensures
        sum_above_cells(Seq::<i64>::empty(), bs, t) == 0,
        table_interp_scaled(Seq::<i64>::empty(), bs, t) == 0,
    decreases bs.len(),
{
    if bs.len() > 0 {
        lemma_sum_above_cells_empty(bs.drop_last(), t);
    }
}

/// Dropping the last member changes the summed cell counts by one
/// exactly when that member lies above the threshold and inside some
/// cell of the table.
proof fn lemma_sum_above_cells_drop(ms: Seq<i64>, bs: Seq<TempBucketProbability>, t: i64)
    requires
        ms.len() > 0,
        table_aligned(bs),
        table_ascending(bs),
    ensures
        sum_above_cells(ms, bs, t as int) == sum_above_cells(ms.drop_last(), bs, t as int) + (
        if ms.last() > t && in_some_bucket(bs, ms.last()) {
            1int
        } else {
            0int
        }),
    decreases bs.len(),
{
    let h = ms.last();
    if bs.len() == 0 {
        assert(!in_some_bucket(bs, h)) by {
            if in_some_bucket(bs, h) {
                let k = choose|k: int| 0 <= k < bs.len() && (#[trigger] bs[k]).lower <= h
                    < bs[k].upper;
            }
        }
    } else {
        let front_bs = bs.drop_last();
        assert(forall|k: int| 0 <= k < front_bs.len() ==> #[trigger] front_bs[k] == bs[k]);
        lemma_sum_above_cells_drop(ms, front_bs, t);
        let b = bs.last();
        let lo = b.lower as int;
        assert(b == bs[bs.len() - 1]);
        assert(b.upper == b.lower + 20 && b.lower % 20 == 0);
        // unfolding the cell count over the last member
        let start = if t as int + 1 >= lo {
            t as int + 1
        } else {
            lo
        };
        assert(cell_above(ms, lo, t as int) == cell_above(ms.drop_last(), lo, t as int) + (
        if start <= h < lo + 20 {
            1int
        } else {
            0int
        }));
        let hit_b = h > t && lo <= h < lo + 20;
        assert((start <= h < lo + 20) == hit_b);
        if h > t && hit_b {
            // the last bucket holds the member, so no earlier one does
            assert(!in_some_bucket(front_bs, h)) by {
                if in_some_bucket(front_bs, h) {
                    let k = choose|k: int| 0 <= k < front_bs.len() && (#[trigger] front_bs[k]).lower
                        <= h < front_bs[k].upper;
                    assert(bs[k].upper == bs[k].lower + 20 && bs[k].lower % 20 == 0);
                    lemma_aligned_cell_unique(bs[k].lower as int, lo, h as int);
                    assert(bs[k].lower < b.lower);
                }
            }
            assert(in_some_bucket(bs, h)) by {
                assert(bs[bs.len() - 1].lower <= h < bs[bs.len() - 1].upper);
            }
        } else if h > t {
            // the last bucket misses the member: earlier buckets decide
            assert(in_some_bucket(bs, h) == in_some_bucket(front_bs, h)) by {
                if in_some_bucket(bs, h) {
                    let k = choose|k: int| 0 <= k < bs.len() && (#[trigger] bs[k]).lower <= h
                        < bs[k].upper;
                    if k == bs.len() - 1 {
                        assert(hit_b);
                    } else {
                        assert(front_bs[k].lower <= h < front_bs[k].upper);
                    }
                }
                if in_some_bucket(front_bs, h) {
                    let k = choose|k: int| 0 <= k < front_bs.len() && (#[trigger] front_bs[k]).lower
                        <= h < front_bs[k].upper;
                    assert(bs[k].lower <= h < bs[k].upper);
                }
            }
        }
    }
}

/// Over a complete, disjoint table, the per-cell strict counts sum to
/// the exact strict count.
proof fn lemma_partition_count(ms: Seq<i64>, bs: Seq<TempBucketProbability>, t: i64)
    requires
        table_aligned(bs),
        table_ascending(bs),
        table_covers(ms, bs),
    ensures
        sum_above_cells(ms, bs, t as int) == count_matching(ms, MarketType::Above(t)),
    decreases ms.len(),
{
    if ms.len() == 0 {
        assert(ms =~= Seq::<i64>::empty());
        lemma_sum_above_cells_empty(bs, t as int);
    } else {
        let front = ms.drop_last();
        assert(forall|i: int| 0 <= i < front.len() ==> #[trigger] front[i] == ms[i]);
        lemma_partition_count(front, bs, t);
        lemma_sum_above_cells_drop(ms, bs, t);
        assert(in_some_bucket(bs, ms.last())) by {
            assert(in_some_bucket(bs, ms[ms.len() - 1]));
        }
    }
}

/// Cell by cell, the interpolated count differs from the exact strict
/// count only at the single cell containing the threshold.
proof fn lemma_table_vs_exact_cells(ms: Seq<i64>, bs: Seq<TempBucketProbability>, t: i64)
    requires
        table_aligned(bs),
        table_ascending(bs),
    ensures
        ({
            let diff = table_interp_scaled(ms, bs, t as int) - 20 * sum_above_cells(
                ms,
                bs,
                t as int,
            );
            let cell = crate::weather::spec_grid_floor(t as int);
            let mass = 20 * crate::weather::count_in(ms, cell, cell + 20);
            &&& diff <= mass
            &&& -mass <= diff
            &&& ((forall|k: int| 0 <= k < bs.len() ==> (#[trigger] bs[k]).lower != cell) ==> diff
                == 0)
        }),
    decreases bs.len(),
{
    let cell = crate::weather::spec_grid_floor(t as int);
    vstd::arithmetic::div_mod::lemma_fundamental_div_mod(t as int, 20);
    vstd::arithmetic::div_mod::lemma_mod_bound(t as int, 20);
    vstd::arithmetic::div_mod::lemma_mod_multiples_vanish((t as int) / 20, 0, 20);
    assert(cell % 20 == 0 && cell <= t < cell + 20);
    crate::weather::lemma_count_in_bounds(ms, cell, cell + 20);
    if bs.len() > 0 {
        let front_bs = bs.drop_last();
        assert(forall|k: int| 0 <= k < front_bs.len() ==> #[trigger] front_bs[k] == bs[k]);
        lemma_table_vs_exact_cells(ms, front_bs, t);
        let b = bs.last();
        let lo = b.lower as int;
        assert(b == bs[bs.len() - 1]);
        assert(b.upper == b.lower + 20 && b.lower % 20 == 0);
        let c = crate::weather::count_in(ms, lo, lo + 20);
        crate::weather::lemma_count_in_bounds(ms, lo, lo + 20);
        if lo > t {
            // fully above: the cell term and the strict count agree
            assert(grid_cell_term(ms, lo, t as int) == 20 * c);
            assert(cell_above(ms, lo, t as int) == c);
            assert(lo != cell);
        } else if lo + 20 <= t {
            // fully below: both zero
            assert(grid_cell_term(ms, lo, t as int) == 0);
            lemma_count_in_empty(ms, t as int + 1, lo + 20);
            assert(cell_above(ms, lo, t as int) == 0);
            assert(lo != cell);
        } else {
            // this is the one cell containing the threshold
            lemma_aligned_cell_unique(lo, cell, t as int);
            assert(lo == cell);
            let term = grid_cell_term(ms, lo, t as int);
            assert(0 <= term <= 20 * c) by {
                if lo < t {
                    assert(0 <= c * (lo + 20 - t) <= 20 * c) by (nonlinear_arith)
                        requires 0 <= c, 0 < lo + 20 - t <= 20;
                }
            }
            let above = cell_above(ms, lo, t as int);
            lemma_count_in_split(ms, lo, t as int + 1, lo + 20);
            crate::weather::lemma_count_in_bounds(ms, lo, t as int + 1);
            crate::weather::lemma_count_in_bounds(ms, t as int + 1, lo + 20);
            assert(0 <= above <= c);
            // every earlier cell lies strictly below this one, so the
            // rest of the table contributes no difference
            assert(forall|k: int| 0 <= k < front_bs.len() ==> (#[trigger] front_bs[k]).lower
                != cell);
        }
    }
}

/// Bucket interpolation over a well-formed, complete table — the shape
/// `build_buckets` produces — agrees with exact member counting within
/// the membership of the single cell containing the threshold.  The
/// statement is at the scaled-count level: each bucket weighted by its
/// exact member count and overlap (in twentieths of a cell), before
/// the per-bucket rounding to basis points.
pub proof fn lemma_table_interp_within_one_bucket(
    ms: Seq<i64>,
    bs: Seq<TempBucketProbability>,
    t: i64,
)
    requires
        table_aligned(bs),
        table_ascending(bs),
        table_covers(ms, bs),
    ensures
        ({
            let interp = table_interp_scaled(ms, bs, t as int);
            let exact = 20 * count_matching(ms, MarketType::Above(t));
            let cell = crate::weather::spec_grid_floor(t as int);
            let mass = 20 * crate::weather::count_in(ms, cell, cell + 20);
            interp - exact <= mass && exact - interp <= mass
        }),
{
    lemma_partition_count(ms, bs, t);
    lemma_table_vs_exact_cells(ms, bs, t);
}

/// Every bucket of the table carries exactly its member fraction,
/// rounded down to basis points — the mass `build_buckets` assigns.
pub open spec fn table_mass_exact(ms: Seq<i64>, bs: Seq<TempBucketProbability>, n: int) -> bool {
    forall|k: int| 0 <= k < bs.len() ==> (#[trigger] bs[k]).probability_bps
        == crate::weather::count_in(ms, bs[k].lower as int, bs[k].lower as int + 20) * 10000 / n
}

/// The rounded interpolation stays within two basis points per listed
/// bucket of the exact scaled interpolation (each bucket's rounding
/// loses less than one basis point, and the straddling division less
/// than another).
proof fn lemma_bps_vs_scaled(ms: Seq<i64>, bs: Seq<TempBucketProbability>, t: i64, n: int)
    requires
        n == ms.len(),
        n > 0,
        table_aligned(bs),
        table_mass_exact(ms, bs, n),
    ensures
        20 * n * spec_buckets_yes_bps(bs, MarketType::Above(t)) <= 10000 * table_interp_scaled(
            ms,
            bs,
            t as int,
        ),
        20 * n * spec_buckets_yes_bps(bs, MarketType::Above(t)) >= 10000 * table_interp_scaled(
            ms,
            bs,
            t as int,
        ) - 40 * n * bs.len(),
    decreases bs.len(),
{
    if bs.len() > 0 {
        let front = bs.drop_last();
        assert(forall|k: int| 0 <= k < front.len() ==> #[trigger] front[k] == bs[k]);
        lemma_bps_vs_scaled(ms, front, t, n);
        let b = bs.last();
        assert(b == bs[bs.len() - 1]);
        let lo = b.lower as int;
        let c = crate::weather::count_in(ms, lo, lo + 20);
        crate::weather::lemma_count_in_bounds(ms, lo, lo + 20);
        let p = b.probability_bps as int;
        assert(p == c * 10000 / n);
        assert(0 <= c * 10000) by (nonlinear_arith)
            requires 0 <= c;
        lemma_div_pos_is_pos(c * 10000, n);
        vstd::arithmetic::div_mod::lemma_fundamental_div_mod(c * 10000, n);
        vstd::arithmetic::div_mod::lemma_mod_bound(c * 10000, n);
        assert(n * p <= c * 10000 && c * 10000 < n * p + n);
        let big = spec_buckets_yes_bps(bs, MarketType::Above(t)) - spec_buckets_yes_bps(
            front,
            MarketType::Above(t),
        );
        assert(big == bucket_term(b, MarketType::Above(t)));
        let small = table_interp_scaled(ms, bs, t as int) - table_interp_scaled(
            ms,
            front,
            t as int,
        );
        assert(small == grid_cell_term(ms, lo, t as int));
        if lo >= t {
            // full cell: only the mass rounding separates the two
            assert(big == p && small == 20 * c);
            assert(20 * (n * p) <= 20 * (c * 10000));
            assert(20 * n * big <= 10000 * small) by (nonlinear_arith)
                requires big == p, small == 20 * c, 20 * (n * p) <= 20 * (c * 10000);
            assert(20 * n * big > 10000 * small - 40 * n) by (nonlinear_arith)
                requires big == p, small == 20 * c, c * 10000 < n * p + n, n > 0;
        } else if lo + 20 > t {
            // straddling cell: the overlap division rounds once more
            let ov = lo + 20 - t;
            assert(0 < ov < 20);
            assert(big == p * ov / 20 && small == c * ov);
            assert(0 <= p * ov) by (nonlinear_arith)
                requires 0 <= p, 0 < ov;
            vstd::arithmetic::div_mod::lemma_fundamental_div_mod(p * ov, 20);
            vstd::arithmetic::div_mod::lemma_mod_bound(p * ov, 20);
            assert(20 * big <= p * ov && p * ov < 20 * big + 20);
            assert(20 * n * big <= 10000 * small) by (nonlinear_arith)
                requires
                    20 * big <= p * ov,
                    n * p <= c * 10000,
                    small == c * ov,
                    n > 0,
                    0 < ov;
            assert(20 * n * big > 10000 * small - 40 * n) by (nonlinear_arith)
                requires
                    p * ov < 20 * big + 20,
                    c * 10000 < n * p + n,
                    small == c * ov,
                    n > 0,
                    0 < ov < 20;
        } else {
            assert(big == 0 && small == 0);
        }
        let bsum = spec_buckets_yes_bps(bs, MarketType::Above(t));
        let fsum = spec_buckets_yes_bps(front, MarketType::Above(t));
        let isum = table_interp_scaled(ms, bs, t as int);
        let ifsum = table_interp_scaled(ms, front, t as int);
        let kk = bs.len() as int;
        assert(20 * n * bsum <= 10000 * isum) by (nonlinear_arith)
            requires
                bsum == fsum + big,
                isum == ifsum + small,
                20 * n * fsum <= 10000 * ifsum,
                20 * n * big <= 10000 * small;
        assert(20 * n * bsum >= 10000 * isum - 40 * n * kk) by (nonlinear_arith)
            requires
                bsum == fsum + big,
                isum == ifsum + small,
                kk == front.len() + 1,
                20 * n * fsum >= 10000 * ifsum - 40 * n * (front.len() as int),
                20 * n * big > 10000 * small - 40 * n;
    }
}

/// Item-level agreement for the bucket route the engine evaluates:
/// over a well-formed, complete table with exact rounded masses — the
/// shape `build_buckets` produces — the interpolated probability in
/// basis points differs from the exact member-counting probability by
/// at most the (rounded) mass of the single cell containing the
/// threshold, plus two basis points per listed bucket and two more
/// for the roundings at the ends.
pub proof fn lemma_bps_interp_within_one_bucket(
    ms: Seq<i64>,
    bs: Seq<TempBucketProbability>,
    t: i64,
)
    requires
        ms.len() > 0,
        table_aligned(bs),
        table_ascending(bs),
        table_covers(ms, bs),
        table_mass_exact(ms, bs, ms.len() as int),
    ensures
        ({
            let interp = spec_buckets_yes_bps(bs, MarketType::Above(t));
            let exact = spec_members_yes_bps(ms, MarketType::Above(t));
            let cell = crate::weather::spec_grid_floor(t as int);
            let mass = crate::weather::count_in(ms, cell, cell + 20) * 10000 / (
            ms.len() as int);
            let slack = 2 * bs.len() + 2;
            interp - exact <= mass + slack && exact - interp <= mass + slack
        }),
{
    let n = ms.len() as int;
    let cell = crate::weather::spec_grid_floor(t as int);
    let cm = crate::weather::count_in(ms, cell, cell + 20);
    crate::weather::lemma_count_in_bounds(ms, cell, cell + 20);
    let cc = count_matching(ms, MarketType::Above(t));
    lemma_count_matching_bounds(ms, MarketType::Above(t));
    lemma_partition_count(ms, bs, t);
    lemma_table_vs_exact_cells(ms, bs, t);
    lemma_bps_vs_scaled(ms, bs, t, n);
    let interp = spec_buckets_yes_bps(bs, MarketType::Above(t));
    let scaled = table_interp_scaled(ms, bs, t as int);
    let exact = spec_members_yes_bps(ms, MarketType::Above(t));
    let mass = cm * 10000 / n;
    // floor bounds for the exact probability and the cell mass
    assert(0 <= cc * 10000) by (nonlinear_arith)
        requires 0 <= cc;
    vstd::arithmetic::div_mod::lemma_fundamental_div_mod(cc * 10000, n);
    vstd::arithmetic::div_mod::lemma_mod_bound(cc * 10000, n);
    assert(n * exact <= cc * 10000 && cc * 10000 < n * exact + n);
    assert(0 <= cm * 10000) by (nonlinear_arith)
        requires 0 <= cm;
    vstd::arithmetic::div_mod::lemma_fundamental_div_mod(cm * 10000, n);
    vstd::arithmetic::div_mod::lemma_mod_bound(cm * 10000, n);
    assert(n * mass <= cm * 10000 && cm * 10000 < n * mass + n);
    // the scaled interpolation sits within one cell of the exact count
    assert(scaled - 20 * cc <= 20 * cm && 20 * cc - scaled <= 20 * cm);
    let kk = bs.len() as int;
    // upper direction
    assert(20 * n * interp <= 10000 * scaled);
    assert(10000 * scaled <= 10000 * (20 * cc) + 10000 * (20 * cm)) by (nonlinear_arith)
        requires scaled - 20 * cc <= 20 * cm;
    assert(interp - exact <= mass + 2 * kk + 2) by (nonlinear_arith)
        requires
            20 * n * interp <= 10000 * (20 * cc) + 10000 * (20 * cm),
            cc * 10000 < n * exact + n,
            cm * 10000 < n * mass + n,
            n > 0,
            kk >= 0;
    // lower direction
    assert(20 * n * interp >= 10000 * scaled - 40 * n * kk);
    assert(10000 * scaled >= 10000 * (20 * cc) - 10000 * (20 * cm)) by (nonlinear_arith)
        requires 20 * cc - scaled <= 20 * cm;
    assert(exact - interp <= mass + 2 * kk + 2) by (nonlinear_arith)
        requires
            20 * n * interp >= 10000 * (20 * cc) - 10000 * (20 * cm) - 40 * n * kk,
            n * exact <= cc * 10000,
            cm * 10000 < n * mass + n,
            n > 0,
            kk >= 0;
}

/// The scaled half-term of the sigmoid never reaches its asymptote.
proof fn lemma_sigmoid_half_strict(mag: int)
    requires
        mag >= 0,
    ensures
        5000 * mag / (40 + mag) < 5000,
{
    let d = 40 + mag;
    assert(5000 * mag <= 5000 * d - 5000 * 40) by (nonlinear_arith)
        requires d == 40 + mag;
    lemma_div_is_ordered(5000 * mag, 5000 * d - 200000, d);
    assert((5000 * d - 200000) / d < 5000) by (nonlinear_arith)
        requires d >= 40;
}

} // verus!
