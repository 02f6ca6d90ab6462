//! Ensemble aggregation: from per-member hourly temperature series to
//! member highs, summary statistics, the bucket-probability table, and
//! the confidence tier.  All temperatures in tenths of °F.

use vstd::prelude::*;
use vstd::string::StringExecFns;
use vstd::arithmetic::div_mod::{lemma_div_is_ordered, lemma_div_by_multiple, lemma_div_pos_is_pos};
use crate::types::{
    EnsembleForecast, ForecastConfidence, TempBucketProbability, TEMP_BOUND,
};
use crate::fmt::fmt_i64;
use crate::stats::trunc_div;

verus! {

/// The largest member count the summary arithmetic accepts.
pub const SUMMARY_MEMBER_BOUND: usize = 10_000;

/// Highest value of a non-empty series.
pub open spec fn spec_series_high(s: Seq<i64>) -> i64
    recommends
        s.len() > 0,
    decreases s.len(),
{
    if s.len() <= 1 {
        s[0]
    } else {
        let m = spec_series_high(s.drop_last());
        if s.last() > m {
            s.last()
        } else {
            m
        }
    }
}

/// Highest temperature of a member's series; `None` when it is empty.
pub fn series_high(temps: &Vec<i64>) -> (r: Option<i64>)
    ensures
        match r {
            Some(h) => temps@.len() > 0 && h == spec_series_high(temps@)
                && (forall|i: int| 0 <= i < temps@.len() ==> #[trigger] temps@[i] <= h)
                && temps@.contains(h),
            None => temps@.len() == 0,
        },
{
    let n = temps.len();
    if n == 0 {
        return None;
    }
    let mut h = temps[0];
    let mut i: usize = 1;
    while i < n
        invariant
            1 <= i <= n,
            n == temps@.len(),
            h == spec_series_high(temps@.take(i as int)),
            forall|j: int| 0 <= j < i ==> #[trigger] temps@[j] <= h,
            temps@.contains(h),
        decreases n - i,
    {
        proof {
            assert(temps@.take(i + 1).drop_last() =~= temps@.take(i as int));
            assert(temps@.take(i + 1).last() == temps@[i as int]);
        }
        if temps[i] > h {
            h = temps[i];
        }
        i = i + 1;
    }
    proof {
        assert(temps@.take(n as int) =~= temps@);
    }
    Some(h)
}

/// The highs of the non-empty member series, in order.
pub open spec fn spec_member_highs(series: Seq<Seq<i64>>) -> Seq<i64>
    decreases series.len(),
{
    if series.len() == 0 {
        Seq::empty()
    } else {
        let rest = spec_member_highs(series.drop_first());
        if series.first().len() > 0 {
            seq![spec_series_high(series.first())] + rest
        } else {
            rest
        }
    }
}

/// One forecast high per member, from each member's hourly series for
/// the day; members with no data are skipped.
pub fn member_highs(series: Vec<Vec<i64>>) -> (r: Vec<i64>)
    ensures
        r@ == spec_member_highs(series@.map_values(|s: Vec<i64>| s@)),
{
    let ghost orig = series@.map_values(|s: Vec<i64>| s@);
    let mut series = series;
    let mut out: Vec<i64> = Vec::new();
    while series.len() > 0
        invariant
            spec_member_highs(orig) =~= out@ + spec_member_highs(
                series@.map_values(|s: Vec<i64>| s@),
            ),
        decreases series.len(),
    {
        let ghost before = series@.map_values(|s: Vec<i64>| s@);
        let s = series.remove(0);
        proof {
            assert(before.drop_first() =~= series@.map_values(|q: Vec<i64>| q@));
            assert(before.first() == s@);
        }
        match series_high(&s) {
            Some(h) => {
                out.push(h);
            },
            None => {},
        }
        proof {
            assert(spec_member_highs(orig) =~= out@ + spec_member_highs(
                series@.map_values(|q: Vec<i64>| q@),
            ));
        }
    }
    proof {
        assert(series@.map_values(|q: Vec<i64>| q@) =~= Seq::<Seq<i64>>::empty());
        assert(out@ + spec_member_highs(Seq::<Seq<i64>>::empty()) =~= out@);
    }
    out
}

/// Ascending order.
pub open spec fn sorted(s: Seq<i64>) -> bool {
    forall|i: int, j: int| 0 <= i <= j < s.len() ==> s[i] <= s[j]
}

/// Sort member highs ascending: the result is ordered and holds
/// exactly the same values.
pub fn sort_ascending(v: Vec<i64>) -> (r: Vec<i64>)
    ensures
        r@.len() == v@.len(),
        sorted(r@),
        r@.to_multiset() == v@.to_multiset(),
{
    broadcast use vstd::seq_lib::group_to_multiset_ensures;

    let mut src = v;
    let mut out: Vec<i64> = Vec::new();
    proof {
        assert(out@.to_multiset().add(src@.to_multiset()) =~= v@.to_multiset());
    }
    while src.len() > 0
        invariant
            out@.to_multiset().add(src@.to_multiset()) == v@.to_multiset(),
            sorted(out@),
            forall|i: int, j: int| 0 <= i < out@.len() && 0 <= j < src@.len() ==> out@[i]
                <= src@[j],
            out@.len() + src@.len() == v@.len(),
        decreases src.len(),
    {
        broadcast use vstd::seq_lib::group_to_multiset_ensures;

        let n = src.len();
        let mut m: usize = 0;
        let mut k: usize = 1;
        while k < n
            invariant
                0 <= m < k <= n,
                n == src@.len(),
                forall|t: int| 0 <= t < k ==> src@[m as int] <= #[trigger] src@[t],
            decreases n - k,
        {
            if src[k] < src[m] {
                m = k;
            }
            k = k + 1;
        }
        let ghost old_src = src@;
        let ghost old_out = out@;
        let x = src.remove(m);
        proof {
            assert(old_src.contains(x));
            assert(old_src.to_multiset().count(x) > 0);
            assert(src@.to_multiset() =~= old_src.to_multiset().remove(x));
            assert forall|j: int| 0 <= j < src@.len() implies x <= #[trigger] src@[j] by {
                if j < m {
                    assert(src@[j] == old_src[j]);
                } else {
                    assert(src@[j] == old_src[j + 1]);
                }
            }
        }
        out.push(x);
        proof {
            assert(out@.to_multiset() =~= old_out.to_multiset().insert(x));
            assert(out@.to_multiset().add(src@.to_multiset()) =~= v@.to_multiset()) by {
                broadcast use vstd::multiset::group_multiset_axioms;

                assert(old_out.to_multiset().insert(x).add(old_src.to_multiset().remove(x))
                    =~= old_out.to_multiset().add(old_src.to_multiset()));
            }
            assert(forall|i: int| 0 <= i < old_out.len() ==> #[trigger] out@[i] == old_out[i]);
            assert(out@.last() == x);
        }
    }
    out
}

/// Index of the percentile `p` in a sorted list of `n` values:
/// `p (n-1) / 100`, rounded half away from zero.
pub open spec fn pct_index(p: int, n: int) -> int
    recommends
        n > 0,
        0 <= p <= 100,
{
    (p * (n - 1) + 50) / 100
}

fn percentile(sorted_highs: &Vec<i64>, p: u64) -> (r: i64)
    requires
        sorted_highs@.len() > 0,
        sorted_highs@.len() <= SUMMARY_MEMBER_BOUND,
        0 <= p <= 100,
    ensures
        r == sorted_highs@[pct_index(p as int, sorted_highs@.len() as int)],
{
    let n = sorted_highs.len() as u64;
    proof {
        assert((p as int) * ((n as int) - 1) <= 1_000_000) by (nonlinear_arith)
            requires 0 <= p as int <= 100, 0 <= (n as int) - 1 <= 10_000;
    }
    let idx = (p * (n - 1) + 50) / 100;
    proof {
        let nn = sorted_highs@.len() as int;
        assert(p * (nn - 1) <= 100 * (nn - 1)) by (nonlinear_arith)
            requires 0 <= p <= 100, nn >= 1;
        lemma_div_pos_is_pos(p as int * (nn - 1) + 50, 100);
        lemma_div_is_ordered(p as int * (nn - 1) + 50, 100 * (nn - 1) + 50, 100);
        assert((100 * (nn - 1) + 50) / 100 < nn) by (nonlinear_arith)
            requires nn >= 1;
    }
    sorted_highs[idx as usize]
}

/// Integer square root: the largest `r` with `r * r <= x`.
pub fn isqrt_u64(x: u64) -> (r: u64)
    requires
        x <= 4_000_000_000_000_000_000,
    ensures
        r * r <= x,
        (r + 1) * (r + 1) > x,
        r <= 2_000_000_000,
{
    if x == 0 {
        return 0;
    }
    let mut lo: u64 = 0;
    let mut hi: u64 = 2_000_000_001;
    proof {
        assert((2_000_000_001u64 as int) * (2_000_000_001u64 as int)
            > 4_000_000_000_000_000_000) by (nonlinear_arith);
    }
    while lo + 1 < hi
        invariant
            lo < hi <= 2_000_000_001,
            (lo as int) * (lo as int) <= x,
            (hi as int) * (hi as int) > x,
        decreases hi - lo,
    {
        let mid = lo + (hi - lo) / 2;
        proof {
            assert(lo < mid < hi);
            if mid <= 2_000_000_000 {
                assert((mid as int) * (mid as int) <= 4_000_000_000_000_000_000)
                    by (nonlinear_arith)
                    requires mid <= 2_000_000_000u64;
            }
        }
        if mid <= 2_000_000_000 && mid * mid <= x {
            lo = mid;
        } else {
            proof {
                if mid > 2_000_000_000 {
                    assert((mid as int) * (mid as int) > 4_000_000_000_000_000_000)
                        by (nonlinear_arith)
                        requires mid > 2_000_000_000u64;
                }
            }
            hi = mid;
        }
    }
    lo
}

/// The scaled spread of a member list: `n · Σ h² − (Σ h)²`, which is
/// `n²` times the population variance; clamped below at zero.
pub open spec fn spec_spread_scaled(ms: Seq<i64>) -> int {
    let s = sum_of(ms);
    let q = sum_sq(ms);
    let ss = ms.len() * q - s * s;
    if ss < 0 {
        0
    } else {
        ss
    }
}

pub open spec fn sum_of(ms: Seq<i64>) -> int
    decreases ms.len(),
{
    if ms.len() == 0 {
        0
    } else {
        sum_of(ms.drop_last()) + ms.last()
    }
}

pub open spec fn sum_sq(ms: Seq<i64>) -> int
    decreases ms.len(),
{
    if ms.len() == 0 {
        0
    } else {
        sum_sq(ms.drop_last()) + ms.last() * ms.last()
    }
}

proof fn lemma_sum_bounds(ms: Seq<i64>)
    requires
        forall|i: int| 0 <= i < ms.len() ==> -TEMP_BOUND <= #[trigger] ms[i] <= TEMP_BOUND,
    ensures
        -(ms.len() * TEMP_BOUND) <= sum_of(ms) <= ms.len() * TEMP_BOUND,
        0 <= sum_sq(ms) <= ms.len() * TEMP_BOUND * TEMP_BOUND,
    decreases ms.len(),
{
    if ms.len() > 0 {
        lemma_sum_bounds(ms.drop_last());
        let h = ms.last() as int;
        assert(0 <= h * h <= TEMP_BOUND * TEMP_BOUND) by (nonlinear_arith)
            requires -TEMP_BOUND <= h <= TEMP_BOUND;
    }
}

/// Summarize a sorted list of member highs: count, mean, extremes,
/// spread (the integer square root of the variance, in tenths of °F)
/// and the standard percentiles.
pub fn summarize_members(sorted_highs: &Vec<i64>) -> (e: EnsembleForecast)
    requires
        sorted_highs@.len() > 0,
        sorted_highs@.len() <= SUMMARY_MEMBER_BOUND,
        sorted(sorted_highs@),
        forall|i: int| 0 <= i < sorted_highs@.len() ==>
            -TEMP_BOUND <= #[trigger] sorted_highs@[i] <= TEMP_BOUND,
    ensures
        e.model_count == sorted_highs@.len(),
        e.min_high == sorted_highs@[0],
        e.max_high == sorted_highs@[sorted_highs@.len() - 1],
        e.mean_high == trunc_div(sum_of(sorted_highs@), sorted_highs@.len() as int),
        e.std_dev >= 0,
        (e.std_dev as int) * (e.std_dev as int) * (sorted_highs@.len() as int)
            * (sorted_highs@.len() as int) <= spec_spread_scaled(sorted_highs@),
        ((e.std_dev as int + 1) * (sorted_highs@.len() as int)) * ((e.std_dev as int + 1)
            * (sorted_highs@.len() as int)) > spec_spread_scaled(sorted_highs@),
        e.p10 == sorted_highs@[pct_index(10, sorted_highs@.len() as int)],
        e.p25 == sorted_highs@[pct_index(25, sorted_highs@.len() as int)],
        e.p75 == sorted_highs@[pct_index(75, sorted_highs@.len() as int)],
        e.p90 == sorted_highs@[pct_index(90, sorted_highs@.len() as int)],
        e.wf(),
{
    let ghost ms = sorted_highs@;
    let n = sorted_highs.len();
    let mut s: i64 = 0;
    let mut q: i64 = 0;
    let mut i: usize = 0;
    while i < n
        invariant
            0 <= i <= n,
            n == ms.len(),
            sorted_highs@ == ms,
            n <= SUMMARY_MEMBER_BOUND,
            forall|j: int| 0 <= j < ms.len() ==> -TEMP_BOUND <= #[trigger] ms[j] <= TEMP_BOUND,
            s == sum_of(ms.take(i as int)),
            q == sum_sq(ms.take(i as int)),
        decreases n - i,
    {
        proof {
            assert(ms.take(i + 1).drop_last() =~= ms.take(i as int));
            assert(ms.take(i + 1).last() == ms[i as int]);
            assert(forall|j: int| 0 <= j < i ==> ms.take(i as int)[j] == ms[j]);
            lemma_sum_bounds(ms.take(i as int));
            lemma_sum_bounds(ms.take(i + 1));
        }
        let h = sorted_highs[i];
        s = s + h;
        proof {
            assert(-TEMP_BOUND <= ms[i as int] <= TEMP_BOUND);
            assert(0 <= (h as int) * (h as int) <= TEMP_BOUND * TEMP_BOUND) by (nonlinear_arith)
                requires -TEMP_BOUND <= h <= TEMP_BOUND;
        }
        q = q + h * h;
        i = i + 1;
    }
    proof {
        assert(ms.take(n as int) =~= ms);
        lemma_sum_bounds(ms);
        assert((n as int) * (q as int) <= (n as int) * ((n as int) * TEMP_BOUND * TEMP_BOUND))
            by (nonlinear_arith)
            requires 0 <= q <= (n as int) * TEMP_BOUND * TEMP_BOUND, n >= 1;
        assert((n as int) * ((n as int) * TEMP_BOUND * TEMP_BOUND)
            <= 1_000_000_000_000_000_000) by (nonlinear_arith)
            requires 1 <= (n as int) <= 10_000;
        assert(0 <= (s as int) * (s as int) <= 1_000_000_000_000_000_000) by (nonlinear_arith)
            requires -10_000 * TEMP_BOUND <= (s as int) <= 10_000 * TEMP_BOUND;
    }
    let ss0: i64 = (n as i64) * q - s * s;
    let ss: i64 = if ss0 < 0 {
        0
    } else {
        ss0
    };
    let root = isqrt_u64(ss as u64);
    let std_dev = (root as i64) / (n as i64);
    proof {
        lemma_div_pos_is_pos(root as int, n as int);
        let r = root as int;
        let d = std_dev as int;
        let nn = n as int;
        assert(d * nn <= r && r < d * nn + nn) by {
            vstd::arithmetic::div_mod::lemma_fundamental_div_mod(r, nn);
            vstd::arithmetic::div_mod::lemma_mod_bound(r, nn);
        }
        assert((d + 1) * nn == d * nn + nn) by (nonlinear_arith);
        assert(d * d * nn * nn <= r * r) by (nonlinear_arith)
            requires 0 <= d, 0 <= nn, d * nn <= r;
        assert(r * r <= ss);
        assert((r + 1) * (r + 1) <= ((d + 1) * nn) * ((d + 1) * nn)) by (nonlinear_arith)
            requires 0 <= r + 1, r + 1 <= (d + 1) * nn;
        assert((r + 1) * (r + 1) > ss);
    }
    let mean = trunc_div_pub(s, n as i64);
    proof {
        let nn = n as int;
        let si = s as int;
        let r = root as int;
        // the mean of bounded values is bounded
        if si >= 0 {
            lemma_div_pos_is_pos(si, nn);
            lemma_div_is_ordered(si, nn * TEMP_BOUND, nn);
            lemma_div_by_multiple(TEMP_BOUND as int, nn);
        } else {
            lemma_div_pos_is_pos(-si, nn);
            lemma_div_is_ordered(-si, nn * TEMP_BOUND, nn);
            lemma_div_by_multiple(TEMP_BOUND as int, nn);
        }
        // the spread of bounded values is bounded
        assert((ss as int) <= (nn * TEMP_BOUND) * (nn * TEMP_BOUND)) by (nonlinear_arith)
            requires
                ss as int <= nn * (nn * TEMP_BOUND * TEMP_BOUND)
                    || ss as int <= nn * (q as int),
                q as int <= nn * TEMP_BOUND * TEMP_BOUND,
                ss as int == if (nn * (q as int) - si * si) < 0 { 0int } else { nn * (q as int) - si * si },
                0 <= nn,
                0 <= q as int;
        assert(r <= nn * TEMP_BOUND) by (nonlinear_arith)
            requires
                0 <= r,
                r * r <= (nn * TEMP_BOUND) * (nn * TEMP_BOUND),
                0 <= nn * TEMP_BOUND;
        lemma_div_is_ordered(r, nn * TEMP_BOUND, nn);
        lemma_div_by_multiple(TEMP_BOUND as int, nn);
    }
    EnsembleForecast {
        model_count: n,
        mean_high: mean,
        min_high: sorted_highs[0],
        max_high: sorted_highs[n - 1],
        std_dev,
        p10: percentile(sorted_highs, 10),
        p25: percentile(sorted_highs, 25),
        p75: percentile(sorted_highs, 75),
        p90: percentile(sorted_highs, 90),
    }
}

/// Signed division truncating toward zero.
fn trunc_div_pub(a: i64, b: i64) -> (r: i64)
    requires
        b > 0,
        -0x4000_0000_0000_0000 < a < 0x4000_0000_0000_0000,
    ensures
        r == trunc_div(a as int, b as int),
{
    if a >= 0 {
        a / b
    } else {
        proof {
            lemma_div_pos_is_pos(-(a as int), b as int);
        }
        -((-a) / b)
    }
}

/// Confidence tier from the ensemble spread: high under two degrees of
/// standard deviation, medium under four, low above; medium when no
/// ensemble is available.
pub open spec fn spec_confidence(e: Option<EnsembleForecast>) -> ForecastConfidence {
    match e {
        Some(e) => if e.std_dev < 20 {
            ForecastConfidence::High
        } else if e.std_dev < 40 {
            ForecastConfidence::Medium
        } else {
            ForecastConfidence::Low
        },
        None => ForecastConfidence::Medium,
    }
}

/// Derive the confidence tier from the ensemble spread.
pub fn confidence_for(e: &Option<EnsembleForecast>) -> (c: ForecastConfidence)
    ensures
        c == spec_confidence(*e),
{
    match e {
        Some(e) => if e.std_dev < 20 {
            ForecastConfidence::High
        } else if e.std_dev < 40 {
            ForecastConfidence::Medium
        } else {
            ForecastConfidence::Low
        },
        None => ForecastConfidence::Medium,
    }
}

/// Number of members in `[lo, hi)`.
pub open spec fn count_in(ms: Seq<i64>, lo: int, hi: int) -> int
    decreases ms.len(),
{
    if ms.len() == 0 {
        0
    } else {
        count_in(ms.drop_last(), lo, hi) + if lo <= ms.last() < hi {
            1int
        } else {
            0int
        }
    }
}

/// Round down to the even-degree grid: twenty times the floor of `t / 20`.
pub open spec fn spec_grid_floor(t: int) -> int {
    20 * (t / 20)
}

fn grid_floor(t: i64) -> (r: i64)
    requires
        -TEMP_BOUND <= t <= TEMP_BOUND,
    ensures
        r == spec_grid_floor(t as int),
        r % 20 == 0,
        r <= t < r + 20,
{
    let q: i64 = if t >= 0 {
        t / 20
    } else {
        -((-t + 19) / 20)
    };
    proof {
        let ti = t as int;
        vstd::arithmetic::div_mod::lemma_fundamental_div_mod(ti, 20);
        vstd::arithmetic::div_mod::lemma_mod_bound(ti, 20);
        if t < 0 {
            vstd::arithmetic::div_mod::lemma_fundamental_div_mod(-ti + 19, 20);
            vstd::arithmetic::div_mod::lemma_mod_bound(-ti + 19, 20);
            assert(q == ti / 20) by (nonlinear_arith)
                requires
                    ti < 0,
                    q == -((-ti + 19) / 20),
                    -ti + 19 == 20 * ((-ti + 19) / 20) + (-ti + 19) % 20,
                    0 <= (-ti + 19) % 20 < 20,
                    ti == 20 * (ti / 20) + ti % 20,
                    0 <= ti % 20 < 20;
        }
        vstd::arithmetic::div_mod::lemma_mod_multiples_vanish(q as int, 0, 20);
    }
    20 * q
}

/// A zero interval count means no member lies in the interval.
pub proof fn lemma_count_in_zero(ms: Seq<i64>, lo: int, hi: int)
    requires
        count_in(ms, lo, hi) == 0,
    ensures
        forall|i: int| 0 <= i < ms.len() ==> !(lo <= #[trigger] ms[i] < hi),
    decreases ms.len(),
{
    if ms.len() > 0 {
        lemma_count_in_bounds(ms.drop_last(), lo, hi);
        lemma_count_in_zero(ms.drop_last(), lo, hi);
        assert(forall|i: int| 0 <= i < ms.len() - 1 ==> #[trigger] ms[i] == ms.drop_last()[i]);
    }
}

pub proof fn lemma_count_in_bounds(ms: Seq<i64>, lo: int, hi: int)
    ensures
        0 <= count_in(ms, lo, hi) <= ms.len(),
    decreases ms.len(),
{
    if ms.len() > 0 {
        lemma_count_in_bounds(ms.drop_last(), lo, hi);
    }
}

/// Count the members with `lo <= h < hi`.
pub fn count_members_in(ms: &Vec<i64>, lo: i64, hi: i64) -> (c: u64)
    requires
        ms@.len() <= SUMMARY_MEMBER_BOUND,
    ensures
        c == count_in(ms@, lo as int, hi as int),
        c <= ms@.len(),
{
    let n = ms.len();
    let mut c: u64 = 0;
    let mut i: usize = 0;
    while i < n
        invariant
            0 <= i <= n,
            n == ms@.len(),
            n <= SUMMARY_MEMBER_BOUND,
            c == count_in(ms@.take(i as int), lo as int, hi as int),
            c <= i,
        decreases n - i,
    {
        proof {
            assert(ms@.take(i + 1).drop_last() =~= ms@.take(i as int));
            assert(ms@.take(i + 1).last() == ms@[i as int]);
            lemma_count_in_bounds(ms@.take(i as int), lo as int, hi as int);
        }
        if lo <= ms[i] && ms[i] < hi {
            c = c + 1;
        }
        i = i + 1;
    }
    proof {
        assert(ms@.take(n as int) =~= ms@);
    }
    c
}

/// Build the two-degree bucket-probability table from the member
/// highs: a grid of `[L, L+20)` cells from one cell below the lowest
/// member to one above the highest, each listed bucket carrying its
/// member fraction in basis points; empty cells are left out.
///
/// Each listed bucket's mass is exactly its member count over the
/// member total, rounded down to basis points, and every member falls
/// in exactly one listed bucket — the table is complete.
pub fn build_buckets(ms: &Vec<i64>) -> (r: Vec<TempBucketProbability>)
    requires
        ms@.len() > 0,
        ms@.len() <= SUMMARY_MEMBER_BOUND,
        forall|i: int| 0 <= i < ms@.len() ==> -TEMP_BOUND <= #[trigger] ms@[i] <= TEMP_BOUND,
    ensures
        forall|k: int| 0 <= k < r@.len() ==> {
            let b = #[trigger] r@[k];
            &&& b.upper == b.lower + 20
            &&& b.lower % 20 == 0
            &&& count_in(ms@, b.lower as int, b.upper as int) > 0
            &&& b.probability_bps == count_in(ms@, b.lower as int, b.upper as int) * 10000
                / (ms@.len() as int)
            &&& 0 <= b.probability_bps <= 10000
        },
        forall|k1: int, k2: int| 0 <= k1 < k2 < r@.len() ==> (#[trigger] r@[k1]).lower
            < (#[trigger] r@[k2]).lower,
        forall|i: int| 0 <= i < ms@.len() ==> exists|k: int| 0 <= k < r@.len()
            && (#[trigger] r@[k]).lower <= #[trigger] ms@[i] < r@[k].upper,
        crate::probability::table_aligned(r@),
        crate::probability::table_ascending(r@),
        crate::probability::table_covers(ms@, r@),
{
    let n = ms.len();
    let mut min_h = ms[0];
    let mut max_h = ms[0];
    let mut i: usize = 1;
    while i < n
        invariant
            1 <= i <= n,
            n == ms@.len(),
            forall|j: int| 0 <= j < ms@.len() ==> -TEMP_BOUND <= #[trigger] ms@[j] <= TEMP_BOUND,
            -TEMP_BOUND <= min_h <= TEMP_BOUND,
            -TEMP_BOUND <= max_h <= TEMP_BOUND,
            min_h <= max_h,
            forall|j: int| 0 <= j < i ==> min_h <= #[trigger] ms@[j] <= max_h,
        decreases n - i,
    {
        if ms[i] < min_h {
            min_h = ms[i];
        }
        if ms[i] > max_h {
            max_h = ms[i];
        }
        i = i + 1;
    }
    let lo_start = grid_floor(min_h) - 20;
    let hi_end = grid_floor(max_h) + 40;
    let cells: i64 = (hi_end - lo_start) / 20;
    proof {
        lemma_div_pos_is_pos(hi_end as int - lo_start as int, 20);
        vstd::arithmetic::div_mod::lemma_fundamental_div_mod(
            hi_end as int - lo_start as int,
            20,
        );
        vstd::arithmetic::div_mod::lemma_mod_bound(hi_end as int - lo_start as int, 20);
    }
    proof {
        // the grid span is an exact number of cells and covers every member
        vstd::arithmetic::div_mod::lemma_div_by_multiple(
            (hi_end as int - lo_start as int) / 20,
            20,
        );
        assert(hi_end - lo_start == 20 * ((max_h as int) / 20 - (min_h as int) / 20 + 3));
        vstd::arithmetic::div_mod::lemma_div_by_multiple(
            (max_h as int) / 20 - (min_h as int) / 20 + 3,
            20,
        );
        assert(20 * (cells as int) == hi_end - lo_start);
    }
    let mut out: Vec<TempBucketProbability> = Vec::new();
    let mut c: i64 = 0;
    while c < cells
        invariant
            n == ms@.len(),
            n > 0,
            n <= SUMMARY_MEMBER_BOUND,
            0 <= c <= cells,
            20 * cells <= 300_000,
            20 * (cells as int) == hi_end - lo_start,
            hi_end > max_h,
            lo_start % 20 == 0,
            -TEMP_BOUND - 20 <= lo_start <= TEMP_BOUND,
            forall|j: int| 0 <= j < ms@.len() ==> min_h <= #[trigger] ms@[j] <= max_h,
            forall|i: int| 0 <= i < ms@.len() && #[trigger] ms@[i] < lo_start + 20 * c ==>
                exists|k: int| 0 <= k < out@.len()
                    && (#[trigger] out@[k]).lower <= ms@[i] < out@[k].upper,
            forall|k: int| 0 <= k < out@.len() ==> {
                let b = #[trigger] out@[k];
                &&& b.upper == b.lower + 20
                &&& b.lower % 20 == 0
                &&& b.lower < lo_start + 20 * c
                &&& count_in(ms@, b.lower as int, b.upper as int) > 0
                &&& b.probability_bps == count_in(ms@, b.lower as int, b.upper as int) * 10000
                    / (ms@.len() as int)
                &&& 0 <= b.probability_bps <= 10000
            },
            forall|k1: int, k2: int| 0 <= k1 < k2 < out@.len() ==> (#[trigger] out@[k1]).lower
                < (#[trigger] out@[k2]).lower,
        decreases cells - c,
    {
        let l = lo_start + 20 * c;
        proof {
            vstd::arithmetic::div_mod::lemma_mod_multiples_vanish(
                c as int,
                lo_start as int,
                20,
            );
        }
        let cnt = count_members_in(ms, l, l + 20);
        if cnt > 0 {
            proof {
                lemma_count_in_bounds(ms@, l as int, l as int + 20);
                assert((cnt as int) * 10000 <= (n as int) * 10000) by (nonlinear_arith)
                    requires 0 <= (cnt as int) <= (n as int);
                lemma_div_pos_is_pos((cnt as int) * 10000, n as int);
                lemma_div_is_ordered((cnt as int) * 10000, (n as int) * 10000, n as int);
                lemma_div_by_multiple(10000, n as int);
            }
            let bps = ((cnt * 10000) / (n as u64)) as i64;
            let mut label = fmt_i64(l / 10);
            label.append("-");
            label.append(fmt_i64(l / 10 + 2).as_str());
            label.append("F");
            let ghost before = out@;
            out.push(TempBucketProbability {
                label,
                lower: l,
                upper: l + 20,
                probability_bps: bps,
            });
            proof {
                // the new bucket covers its cell; earlier buckets still
                // cover everything below it
                assert forall|i: int|
                    0 <= i < ms@.len() && #[trigger] ms@[i] < lo_start + 20 * (c + 1) implies
                    exists|k: int| 0 <= k < out@.len()
                        && (#[trigger] out@[k]).lower <= ms@[i] < out@[k].upper by {
                    if ms@[i] < l {
                        let k = choose|k: int| 0 <= k < before.len()
                            && (#[trigger] before[k]).lower <= ms@[i] < before[k].upper;
                        assert(out@[k] == before[k]);
                        assert(0 <= k < out@.len() && out@[k].lower <= ms@[i] < out@[k].upper);
                    } else {
                        let k = before.len() as int;
                        assert(out@[k].lower <= ms@[i] < out@[k].upper);
                    }
                }
            }
        } else {
            proof {
                // an empty cell holds no member, so coverage extends past it
                lemma_count_in_zero(ms@, l as int, l as int + 20);
                assert forall|i: int|
                    0 <= i < ms@.len() && #[trigger] ms@[i] < lo_start + 20 * (c + 1) implies
                    exists|k: int| 0 <= k < out@.len()
                        && (#[trigger] out@[k]).lower <= ms@[i] < out@[k].upper by {
                    assert(!(l <= ms@[i] < l + 20));
                    assert(ms@[i] < l);
                }
            }
        }
        c = c + 1;
    }
    proof {
        // the grid's top lies above every member, so the walk covered all
        assert(lo_start + 20 * cells == hi_end);
        assert(forall|i: int| 0 <= i < ms@.len() ==> #[trigger] ms@[i] < hi_end);
    }
    out
}

/// What the point-forecast feed's periods yield: the first daytime
/// period's temperature as the high (with its index, whose short
/// description the caller may keep), the first nighttime period's as
/// the low; only the first four periods are read, and the walk stops
/// once both are found.
pub open spec fn spec_nws_pick(
    ps: Seq<(bool, i64)>,
    i: int,
    hi: Option<(int, i64)>,
    lo: Option<i64>,
) -> (Option<(int, i64)>, Option<i64>)
    decreases ps.len() - i,
{
    if i < 0 || i >= ps.len() || i >= 4 || (hi is Some && lo is Some) {
        (hi, lo)
    } else {
        let (day, temp) = ps[i];
        let hi2 = if day && hi is None {
            Some((i, temp))
        } else {
            hi
        };
        let lo2 = if !day && lo is None {
            Some(temp)
        } else {
            lo
        };
        spec_nws_pick(ps, i + 1, hi2, lo2)
    }
}

/// Pick the forecast high and low out of the feed's periods, each a
/// (daytime, temperature-tenths) pair.  Returns the high with the
/// index of the period it came from, and the low.
pub fn nws_pick(periods: &Vec<(bool, i64)>) -> (r: (Option<(usize, i64)>, Option<i64>))
    ensures
        ({
            let (hi, lo) = spec_nws_pick(periods@, 0, None, None);
            &&& (match (r.0, hi) {
                (Some((i, t)), Some((si, st))) => i == si && t == st && i < periods@.len(),
                (None, None) => true,
                _ => false,
            })
            &&& r.1 == lo
        }),
{
    let n = periods.len();
    let mut hi: Option<(usize, i64)> = None;
    let mut lo: Option<i64> = None;
    let mut i: usize = 0;
    while i < n && i < 4 && !(hi.is_some() && lo.is_some())
        invariant
            0 <= i <= n,
            n == periods@.len(),
            (match hi {
                Some((idx, _)) => idx < n,
                None => true,
            }),
            spec_nws_pick(periods@, 0, None, None) == spec_nws_pick(
                periods@,
                i as int,
                match hi {
                    Some((idx, t)) => Some((idx as int, t)),
                    None => None,
                },
                lo,
            ),
        decreases n - i,
    {
        let (day, temp) = periods[i];
        if day && hi.is_none() {
            hi = Some((i, temp));
        }
        if !day && lo.is_none() {
            lo = Some(temp);
        }
        i = i + 1;
    }
    (hi, lo)
}

/// Assemble the cycle's weather snapshot from the three feeds'
/// results: the deterministic point forecast, the optional
/// point-forecast high and low, and the optional ensemble aggregate.
/// The confidence tier comes from the ensemble spread alone.
pub fn assemble_snapshot(
    city: String,
    current_temp_tenths: i64,
    forecast_high_tenths: i64,
    hourly: Vec<crate::types::HourlyForecast>,
    nws_high: Option<i64>,
    nws_low: Option<i64>,
    nws_short: Option<String>,
    ensemble: Option<(EnsembleForecast, Vec<TempBucketProbability>, Vec<i64>)>,
) -> (w: crate::types::WeatherSnapshot)
    ensures
        w.city == city,
        w.current_temp_tenths == current_temp_tenths,
        w.open_meteo_forecast_high == forecast_high_tenths,
        w.hourly_forecasts == hourly,
        w.nws_forecast_high == nws_high,
        w.nws_forecast_low == nws_low,
        w.nws_short_forecast == nws_short,
        (match ensemble {
            Some((e, bs, ms)) => w.ensemble == Some(e) && w.bucket_probabilities == bs
                && w.ensemble_member_highs == ms,
            None => w.ensemble is None && w.bucket_probabilities@.len() == 0
                && w.ensemble_member_highs@.len() == 0,
        }),
        w.confidence == spec_confidence(
            match ensemble {
                Some((e, _, _)) => Some(e),
                None => None,
            },
        ),
{
    let (ens, buckets, members) = match ensemble {
        Some((e, bs, ms)) => (Some(e), bs, ms),
        None => (None, Vec::new(), Vec::new()),
    };
    let confidence = confidence_for(&ens);
    crate::types::WeatherSnapshot {
        city,
        current_temp_tenths,
        nws_forecast_high: nws_high,
        nws_forecast_low: nws_low,
        nws_short_forecast: nws_short,
        open_meteo_forecast_high: forecast_high_tenths,
        hourly_forecasts: hourly,
        ensemble: ens,
        bucket_probabilities: buckets,
        ensemble_member_highs: members,
        confidence,
    }
}

} // verus!
