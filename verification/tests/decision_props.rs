use bracketbot::decision::{estimate_fee_dbps, spread_aware_price, RulesBrain, FLAT_SHARES};
use bracketbot::types::{
    Action, DecisionContext, ForecastConfidence, MarketState, MarketType, Orderbook, Side, Stats,
    StrikeKind, WeatherSnapshot,
};

fn blank_stats() -> Stats {
    Stats {
        total_trades: 0,
        wins: 0,
        losses: 0,
        win_rate_bps: 0,
        total_pnl_cents: 0,
        today_pnl_cents: 0,
        current_streak: 0,
        max_drawdown_cents: 0,
        avg_win_cents: 0,
        avg_loss_cents: 0,
    }
}

fn market(yes_bid: Option<u32>, yes_ask: Option<u32>, vol24: u64, oi: u64) -> MarketState {
    MarketState {
        ticker: "KXHIGHNY-26OCT12-B70".to_string(),
        event_ticker: "KXHIGHNY-26OCT12".to_string(),
        title: "High temperature above 70F".to_string(),
        yes_bid,
        yes_ask,
        no_bid: None,
        no_ask: None,
        last_price: None,
        volume: 1000,
        volume_24h: vol24,
        open_interest: oi,
        expiration_time: "2026-10-12T22:00:00Z".to_string(),
        minutes_to_expiry: 120,
        floor_strike: Some(700),
        cap_strike: None,
        strike_kind: StrikeKind::Greater,
    }
}

fn weather_with_members(member_highs: Vec<i64>, confidence: ForecastConfidence) -> WeatherSnapshot {
    WeatherSnapshot {
        city: "New York".to_string(),
        current_temp_tenths: 680,
        nws_forecast_high: Some(720),
        nws_forecast_low: Some(550),
        nws_short_forecast: Some("Sunny".to_string()),
        open_meteo_forecast_high: 715,
        hourly_forecasts: vec![],
        ensemble: None,
        bucket_probabilities: vec![],
        ensemble_member_highs: member_highs,
        confidence,
    }
}

fn ctx(market: MarketState, orderbook: Orderbook, weather: Option<WeatherSnapshot>) -> DecisionContext {
    DecisionContext {
        prompt_md: String::new(),
        stats: blank_stats(),
        last_n_trades: vec![],
        market,
        orderbook,
        weather,
    }
}

#[test]
fn spread_aware_midpoint_on_wide_thin_book() {
    // bid 40, ask 60 (spread 20), only 3 contracts resting at the ask
    let m = market(Some(40), Some(60), 500, 500);
    let ob = Orderbook { yes: vec![(60, 3)], no: vec![] };
    assert_eq!(spread_aware_price(&m, &ob, &Side::Yes), 50);
}

#[test]
fn spread_aware_ask_on_narrow_spread() {
    // bid 48, ask 52 (spread 4): the ask, regardless of depth
    let m = market(Some(48), Some(52), 500, 500);
    let ob = Orderbook { yes: vec![], no: vec![] };
    assert_eq!(spread_aware_price(&m, &ob, &Side::Yes), 52);
}

#[test]
fn spread_aware_ask_on_deep_book() {
    // wide spread but 12 contracts resting at the ask across two levels
    let m = market(Some(40), Some(60), 500, 500);
    let ob = Orderbook { yes: vec![(60, 7), (59, 4), (60, 5)], no: vec![] };
    assert_eq!(spread_aware_price(&m, &ob, &Side::Yes), 60);
}

#[test]
fn fee_is_seven_percent_of_cheaper_side() {
    // price 30c: min(30, 70) * 0.07 = 2.1 cents = 0.021 of notional
    assert_eq!(estimate_fee_dbps(30), 2100);
    assert_eq!(estimate_fee_dbps(70), 2100);
    assert_eq!(estimate_fee_dbps(50), 3500);
    assert_eq!(estimate_fee_dbps(100), 0);
}

#[test]
fn net_edge_clears_minimum_after_fee() {
    // price 30c, ensemble YES 40% => gross adjusted edge 0.10,
    // fee 0.021, net 0.079 >= 0.05: buy
    let m = market(Some(28), Some(30), 500, 500);
    let ob = Orderbook { yes: vec![], no: vec![] };
    let members: Vec<i64> = vec![710, 720, 730, 740, 650, 660, 670, 680, 690, 600];
    let w = weather_with_members(members, ForecastConfidence::High);
    let d = RulesBrain::new().decide(&ctx(m, ob, Some(w)));
    assert_eq!(d.action, Action::Buy);
    assert_eq!(d.edge_magnitude, 10000 - 2100);
}

#[test]
fn net_edge_below_minimum_after_fee() {
    // price 30c, ensemble YES 36% => gross adjusted edge 0.06,
    // fee 0.021, net 0.039 < 0.05: pass
    let m = market(Some(28), Some(30), 500, 500);
    let ob = Orderbook { yes: vec![], no: vec![] };
    let mut members: Vec<i64> = vec![710; 9];
    members.extend(vec![600; 16]);
    let w = weather_with_members(members, ForecastConfidence::High);
    let d = RulesBrain::new().decide(&ctx(m, ob, Some(w)));
    assert_eq!(d.action, Action::Pass);
    assert_eq!(d.edge_magnitude, 0);
}

#[test]
fn end_to_end_buy_scenario() {
    // yes ask 40c (implied 0.40), 6 of 10 member highs above 70F,
    // high confidence, liquid, narrow spread: buy YES at 40
    let m = market(Some(38), Some(40), 500, 500);
    let ob = Orderbook { yes: vec![(40, 50)], no: vec![] };
    let members: Vec<i64> = vec![710, 720, 730, 740, 750, 760, 650, 660, 670, 680];
    let w = weather_with_members(members, ForecastConfidence::High);
    let d = RulesBrain::new().decide(&ctx(m, ob, Some(w)));
    assert_eq!(d.action, Action::Buy);
    assert_eq!(d.side, Some(Side::Yes));
    assert_eq!(d.shares, Some(FLAT_SHARES));
    assert_eq!(d.max_price_cents, Some(40));
    // gross edge 0.20, high confidence, fee at 40c = 0.028
    assert_eq!(d.edge_magnitude, 20000 - 2800);
}

#[test]
fn end_to_end_pass_on_illiquidity() {
    // identical edge but 24h volume and open interest of 2: pass
    let m = market(Some(38), Some(40), 2, 2);
    let ob = Orderbook { yes: vec![(40, 50)], no: vec![] };
    let members: Vec<i64> = vec![710, 720, 730, 740, 750, 760, 650, 660, 670, 680];
    let w = weather_with_members(members, ForecastConfidence::High);
    let d = RulesBrain::new().decide(&ctx(m, ob, Some(w)));
    assert_eq!(d.action, Action::Pass);
    assert!(d.reasoning.contains("illiquid"));
}

#[test]
fn pass_without_weather() {
    let m = market(Some(38), Some(40), 500, 500);
    let ob = Orderbook { yes: vec![], no: vec![] };
    let d = RulesBrain::new().decide(&ctx(m, ob, None));
    assert_eq!(d.action, Action::Pass);
    assert!(d.side.is_none() && d.shares.is_none() && d.max_price_cents.is_none());
}

#[test]
fn pass_on_extreme_price() {
    // implied probability above 0.90 is treated as already resolved
    let m = market(Some(90), Some(93), 500, 500);
    let ob = Orderbook { yes: vec![], no: vec![] };
    let members: Vec<i64> = vec![710; 10];
    let w = weather_with_members(members, ForecastConfidence::High);
    let d = RulesBrain::new().decide(&ctx(m, ob, Some(w)));
    assert_eq!(d.action, Action::Pass);
}

#[test]
fn pass_on_missing_yes_ask() {
    let m = market(Some(40), None, 500, 500);
    let ob = Orderbook { yes: vec![], no: vec![] };
    let members: Vec<i64> = vec![710; 10];
    let w = weather_with_members(members, ForecastConfidence::High);
    let d = RulesBrain::new().decide(&ctx(m, ob, Some(w)));
    assert_eq!(d.action, Action::Pass);
}

#[test]
fn confidence_scales_edge() {
    // low confidence halves a 0.20 gross edge to 0.10; fee 0.028 at 40c
    let m = market(Some(38), Some(40), 500, 500);
    let ob = Orderbook { yes: vec![(40, 50)], no: vec![] };
    let members: Vec<i64> = vec![710, 720, 730, 740, 750, 760, 650, 660, 670, 680];
    let w = weather_with_members(members, ForecastConfidence::Low);
    let d = RulesBrain::new().decide(&ctx(m, ob, Some(w)));
    assert_eq!(d.action, Action::Buy);
    assert_eq!(d.edge_magnitude, 10000 - 2800);
}

#[test]
fn pass_over_price_cap() {
    // strong edge but the ask sits above the 50c cap
    let m = market(Some(58), Some(60), 500, 500);
    let ob = Orderbook { yes: vec![(60, 50)], no: vec![] };
    let members: Vec<i64> = vec![710; 10];
    let w = weather_with_members(members, ForecastConfidence::High);
    let d = RulesBrain::new().decide(&ctx(m, ob, Some(w)));
    assert_eq!(d.action, Action::Pass);
}

#[test]
fn market_type_from_strike_fields() {
    let mut m = market(Some(40), Some(42), 500, 500);
    assert_eq!(MarketType::from_market(&m), Some(MarketType::Above(700)));
    m.strike_kind = StrikeKind::Less;
    m.cap_strike = Some(800);
    assert_eq!(MarketType::from_market(&m), Some(MarketType::Below(800)));
    m.strike_kind = StrikeKind::Between;
    assert_eq!(MarketType::from_market(&m), Some(MarketType::Between(700, 800)));
    // unrecognized tag falls back to whichever strikes are populated
    m.strike_kind = StrikeKind::Other;
    m.floor_strike = None;
    assert_eq!(MarketType::from_market(&m), Some(MarketType::Below(800)));
    m.cap_strike = None;
    assert_eq!(MarketType::from_market(&m), None);
}

fn weather_with_buckets(buckets: Vec<bracketbot::types::TempBucketProbability>) -> WeatherSnapshot {
    WeatherSnapshot {
        city: "New York".to_string(),
        current_temp_tenths: 680,
        nws_forecast_high: Some(720),
        nws_forecast_low: Some(550),
        nws_short_forecast: None,
        open_meteo_forecast_high: 715,
        hourly_forecasts: vec![],
        ensemble: Some(bracketbot::types::EnsembleForecast {
            model_count: 10,
            mean_high: 705,
            min_high: 680,
            max_high: 730,
            std_dev: 15,
            p10: 685,
            p25: 695,
            p75: 715,
            p90: 725,
        }),
        bucket_probabilities: buckets,
        ensemble_member_highs: vec![],
        confidence: ForecastConfidence::High,
    }
}

#[test]
fn bucket_fallback_drives_the_decision() {
    // no raw members: the bucket table decides. Mass of 0.60 above 70F
    // against a 40c ask gives the same 0.20 edge as exact counting.
    let m = market(Some(38), Some(40), 500, 500);
    let ob = Orderbook { yes: vec![(40, 50)], no: vec![] };
    let buckets = vec![
        bracketbot::types::TempBucketProbability {
            label: "68-70F".to_string(),
            lower: 680,
            upper: 700,
            probability_bps: 4000,
        },
        bracketbot::types::TempBucketProbability {
            label: "70-72F".to_string(),
            lower: 700,
            upper: 720,
            probability_bps: 6000,
        },
    ];
    let w = weather_with_buckets(buckets);
    let d = RulesBrain::new().decide(&ctx(m, ob, Some(w)));
    assert_eq!(d.action, Action::Buy);
    assert_eq!(d.side, Some(Side::Yes));
    assert_eq!(d.edge_magnitude, 20000 - 2800);
}

#[test]
fn sigmoid_fallback_for_point_estimate_only() {
    // no members and no buckets: Above falls back to the point-estimate
    // proxy. Forecast high 71.5F vs threshold 70F gives a gap of 15
    // tenths: probability 5000 + 5000*15/55 = 6363.
    let m = market(Some(38), Some(40), 500, 500);
    let ob = Orderbook { yes: vec![(40, 50)], no: vec![] };
    let mut w = weather_with_buckets(vec![]);
    w.ensemble = None;
    let d = RulesBrain::new().decide(&ctx(m, ob, Some(w)));
    assert_eq!(d.action, Action::Buy);
    // edge 0.2363 adjusted at full confidence, minus the 40c fee
    assert_eq!(d.edge_magnitude, (6363 - 4000) * 10 - 2800);
}

#[test]
fn sigmoid_fallback_cannot_price_other_shapes() {
    let mut m = market(Some(38), Some(40), 500, 500);
    m.strike_kind = StrikeKind::Less;
    m.cap_strike = Some(800);
    let ob = Orderbook { yes: vec![], no: vec![] };
    let mut w = weather_with_buckets(vec![]);
    w.ensemble = None;
    let d = RulesBrain::new().decide(&ctx(m, ob, Some(w)));
    assert_eq!(d.action, Action::Pass);
    assert!(d.reasoning.contains("Cannot determine"));
}

#[test]
fn no_side_wins_when_its_edge_is_larger() {
    // members put YES at 10%; the NO ask at 45c leaves a large NO edge
    let mut m = market(Some(30), Some(32), 500, 500);
    m.no_bid = Some(43);
    m.no_ask = Some(45);
    let ob = Orderbook { no: vec![(45, 50)], yes: vec![] };
    let members: Vec<i64> = vec![710, 600, 610, 620, 630, 640, 650, 660, 670, 680];
    let w = weather_with_members(members, ForecastConfidence::High);
    let d = RulesBrain::new().decide(&ctx(m, ob, Some(w)));
    // edge_no = 0.90 - 0.45 = 0.45; fee at 45c is 0.0315
    assert_eq!(d.action, Action::Buy);
    assert_eq!(d.side, Some(Side::No));
    assert_eq!(d.max_price_cents, Some(45));
    assert_eq!(d.edge_magnitude, 45000 - 3150);
}

#[test]
fn pass_at_the_band_boundaries() {
    // the tradeable band is the open interval (0.10, 0.90): a quote at
    // exactly 10c or 90c is treated as already resolved or stale
    let members: Vec<i64> = vec![710; 10];
    for ask in [10u32, 90u32] {
        let m = market(Some(ask.saturating_sub(2).max(1)), Some(ask), 500, 500);
        let ob = Orderbook { yes: vec![], no: vec![] };
        let w = weather_with_members(members.clone(), ForecastConfidence::High);
        let d = RulesBrain::new().decide(&ctx(m, ob, Some(w)));
        assert_eq!(d.action, Action::Pass, "quote at {}c must pass", ask);
        assert!(d.reasoning.contains("Extreme price"));
    }
    // just inside the band the engine evaluates normally
    let m = market(Some(9), Some(11), 500, 500);
    let ob = Orderbook { yes: vec![(11, 50)], no: vec![] };
    let w = weather_with_members(members, ForecastConfidence::High);
    let d = RulesBrain::new().decide(&ctx(m, ob, Some(w)));
    assert_eq!(d.action, Action::Buy);
}

#[test]
fn decisions_are_deterministic_with_pinned_rationale() {
    let members: Vec<i64> = vec![710, 720, 730, 740, 750, 760, 650, 660, 670, 680];
    let make = || {
        let m = market(Some(38), Some(40), 500, 500);
        let ob = Orderbook { yes: vec![(40, 50)], no: vec![] };
        let w = weather_with_members(members.clone(), ForecastConfidence::High);
        ctx(m, ob, Some(w))
    };
    let a = RulesBrain::new().decide(&make());
    let b = RulesBrain::new().decide(&make());
    assert_eq!(a.action, b.action);
    assert_eq!(a.side, b.side);
    assert_eq!(a.shares, b.shares);
    assert_eq!(a.max_price_cents, b.max_price_cents);
    assert_eq!(a.edge_magnitude, b.edge_magnitude);
    assert_eq!(a.reasoning, b.reasoning);
    // the audit line carries the numbers the decision was made from
    assert!(a.reasoning.contains("Ensemble YES 60.0% vs market 40%"));
    assert!(a.reasoning.contains("net edge 17.2pp on YES"));
    // a fixed-text pass rationale is pinned as well
    let m = market(Some(38), Some(40), 500, 500);
    let ob = Orderbook { yes: vec![], no: vec![] };
    let p = RulesBrain::new().decide(&ctx(m, ob, None));
    assert_eq!(p.reasoning, "No weather data available");
}
