use bracketbot::probability::{
    ensemble_yes_from_buckets, ensemble_yes_from_members, sigmoid_bps,
};
use bracketbot::types::{MarketType, TempBucketProbability};
use bracketbot::weather::{
    build_buckets, confidence_for, count_members_in, member_highs, nws_pick, sort_ascending,
    summarize_members, series_high,
};
use bracketbot::types::{EnsembleForecast, ForecastConfidence};

fn bucket(lower: i64, upper: i64, bps: i64) -> TempBucketProbability {
    TempBucketProbability {
        label: format!("{}-{}F", lower / 10, upper / 10),
        lower,
        upper,
        probability_bps: bps,
    }
}

#[test]
fn member_counting_is_exact_and_strict() {
    let ms: Vec<i64> = vec![690, 700, 701, 710, 720];
    // Above is strict: 700 itself does not count
    assert_eq!(ensemble_yes_from_members(&ms, &MarketType::Above(700)), 6000);
    // Below is strict as well
    assert_eq!(ensemble_yes_from_members(&ms, &MarketType::Below(700)), 2000);
    // Between is half-open: [700, 710) holds 700 and 701
    assert_eq!(ensemble_yes_from_members(&ms, &MarketType::Between(700, 710)), 4000);
    assert_eq!(ensemble_yes_from_members(&vec![], &MarketType::Above(0)), 0);
}

#[test]
fn member_counting_is_monotone_in_the_threshold() {
    let ms: Vec<i64> = vec![650, 660, 670, 700, 705, 710, 715, 720, 800, 900];
    let mut last = 10000;
    for t in (600..950).step_by(7) {
        let p = ensemble_yes_from_members(&ms, &MarketType::Above(t));
        assert!(p <= last, "raising an Above threshold must never raise the probability");
        last = p;
    }
}

#[test]
fn bucket_interpolation_full_and_partial() {
    let bs = vec![bucket(680, 700, 2000), bucket(700, 720, 5000), bucket(720, 740, 3000)];
    // threshold on a bucket edge: the full upper buckets count
    assert_eq!(ensemble_yes_from_buckets(&bs, &MarketType::Above(700)), 8000);
    // threshold halfway through a bucket: half its mass interpolates
    assert_eq!(ensemble_yes_from_buckets(&bs, &MarketType::Above(710)), 2500 + 3000);
    // Below at the same point takes the other side
    assert_eq!(ensemble_yes_from_buckets(&bs, &MarketType::Below(710)), 2000 + 2500);
    // Between across parts of two buckets
    assert_eq!(
        ensemble_yes_from_buckets(&bs, &MarketType::Between(690, 710)),
        1000 + 2500,
    );
}

#[test]
fn bucket_interpolation_agrees_with_member_counting() {
    // the same distribution expressed both ways: interpolation must
    // stay within one bucket's probability mass of exact counting
    let ms: Vec<i64> = vec![681, 685, 693, 701, 705, 707, 711, 713, 722, 731];
    let bs = build_buckets(&ms);
    for t in 660..760 {
        let exact = ensemble_yes_from_members(&ms, &MarketType::Above(t));
        let interp = ensemble_yes_from_buckets(&bs, &MarketType::Above(t));
        let cell = count_members_in(&ms, t - t.rem_euclid(20), t - t.rem_euclid(20) + 20);
        let max_mass = 10000 * (cell as i64) / (ms.len() as i64);
        assert!(
            (exact - interp).abs() <= max_mass + 1,
            "at {}: exact {} vs interpolated {} (cell mass {})",
            t,
            exact,
            interp,
            max_mass
        );
    }
}

#[test]
fn sigmoid_proxy_is_centered_and_monotone() {
    assert_eq!(sigmoid_bps(0), 5000);
    // slope near the midpoint matches a logistic with a 2F scale:
    // one degree of gap moves the probability by 12.5 points... here 10 tenths
    assert_eq!(sigmoid_bps(10), 5000 + 5000 * 10 / 50);
    let mut last = 0;
    for d in (-300..300).step_by(10) {
        let p = sigmoid_bps(d);
        assert!(p > last, "the proxy must rise with the forecast gap");
        assert!(0 < p && p < 10000);
        last = p;
    }
    assert_eq!(sigmoid_bps(40) + sigmoid_bps(-40), 10000);
}

#[test]
fn sorting_orders_and_keeps_values() {
    let v: Vec<i64> = vec![720, 680, 700, 680, 750, 690];
    let s = sort_ascending(v);
    assert_eq!(s, vec![680, 680, 690, 700, 720, 750]);
}

#[test]
fn summary_of_sorted_members() {
    let s: Vec<i64> = vec![680, 690, 700, 710, 720];
    let e: EnsembleForecast = summarize_members(&s);
    assert_eq!(e.model_count, 5);
    assert_eq!(e.min_high, 680);
    assert_eq!(e.max_high, 720);
    assert_eq!(e.mean_high, 700);
    // population variance 200 tenths^2, sqrt = 14 tenths
    assert_eq!(e.std_dev, 14);
    // percentile indices round half away from zero over n-1
    assert_eq!(e.p10, s[0]);
    assert_eq!(e.p25, s[1]);
    assert_eq!(e.p75, s[3]);
    assert_eq!(e.p90, s[4]);
}

#[test]
fn confidence_tiers_follow_the_spread() {
    let mut e = EnsembleForecast {
        model_count: 5,
        mean_high: 700,
        min_high: 680,
        max_high: 720,
        std_dev: 14,
        p10: 680,
        p25: 690,
        p75: 710,
        p90: 720,
    };
    assert_eq!(confidence_for(&Some(e)), ForecastConfidence::High);
    e.std_dev = 25;
    assert_eq!(confidence_for(&Some(e)), ForecastConfidence::Medium);
    e.std_dev = 45;
    assert_eq!(confidence_for(&Some(e)), ForecastConfidence::Low);
    assert_eq!(confidence_for(&None), ForecastConfidence::Medium);
}

#[test]
fn buckets_cover_the_members_on_a_two_degree_grid() {
    let ms: Vec<i64> = vec![681, 693, 701, 705, 722];
    let bs = build_buckets(&ms);
    let mut covered = 0u64;
    for b in &bs {
        assert_eq!(b.upper, b.lower + 20);
        assert_eq!(b.lower % 20, 0);
        let c = count_members_in(&ms, b.lower, b.upper);
        assert!(c > 0);
        assert_eq!(b.probability_bps, (c as i64) * 10000 / (ms.len() as i64));
        covered += c;
    }
    assert_eq!(covered, ms.len() as u64);
    for w in bs.windows(2) {
        assert!(w[0].lower < w[1].lower);
    }
}

#[test]
fn member_highs_take_each_series_maximum() {
    let series: Vec<Vec<i64>> = vec![
        vec![650, 700, 690],
        vec![],
        vec![710, 705],
    ];
    assert_eq!(member_highs(series), vec![700, 710]);
    assert_eq!(series_high(&vec![3, 9, 7]), Some(9));
    assert_eq!(series_high(&vec![]), None);
}

#[test]
fn nws_picker_takes_first_day_and_night_periods() {
    let periods: Vec<(bool, i64)> = vec![(false, 550), (true, 720), (false, 560), (true, 730)];
    let (hi, lo) = nws_pick(&periods);
    assert_eq!(hi, Some((1, 720)));
    assert_eq!(lo, Some(550));
    // only the first four periods are read
    let far: Vec<(bool, i64)> = vec![(false, 1), (false, 2), (false, 3), (false, 4), (true, 700)];
    let (hi2, lo2) = nws_pick(&far);
    assert_eq!(hi2, None);
    assert_eq!(lo2, Some(1));
}

#[test]
fn below_interpolation_agrees_with_member_counting() {
    let ms: Vec<i64> = vec![661, 672, 688, 694, 699, 703, 717, 724, 736, 742];
    let bs = build_buckets(&ms);
    for t in 640..780 {
        let exact = ensemble_yes_from_members(&ms, &MarketType::Below(t));
        let interp = ensemble_yes_from_buckets(&bs, &MarketType::Below(t));
        let cell = count_members_in(&ms, t - t.rem_euclid(20), t - t.rem_euclid(20) + 20);
        let max_mass = 10000 * (cell as i64) / (ms.len() as i64);
        assert!(
            (exact - interp).abs() <= max_mass + 1,
            "at {}: exact {} vs interpolated {}",
            t,
            exact,
            interp
        );
    }
}
