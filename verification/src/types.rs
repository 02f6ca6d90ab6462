//! Data model shared by the decision engine and the cycle orchestrator.
//!
//! All quantities are plain integers: temperatures in tenths of °F,
//! prices in cents, probabilities in basis points, timestamps in
//! minutes since the epoch.  Each aggregate carries a well-formedness
//! predicate (`wf`) stating its documented invariants together with
//! the size bounds that keep the arithmetic of the core free of
//! overflow.

use vstd::prelude::*;

verus! {

/// Largest magnitude accepted for a temperature or strike, in tenths of °F.
pub const TEMP_BOUND: i64 = 100_000;

/// Largest magnitude accepted for a single row's profit or loss, in cents.
pub const PNL_BOUND: i64 = 1_000_000_000;

/// Largest magnitude accepted for a row's running cumulative profit, in cents.
pub const CUM_BOUND: i64 = 4_000_000_000_000_000;

/// Largest number of ledger rows the core accepts in one snapshot.
pub const LEDGER_BOUND: usize = 100_000;

/// Largest number of price levels accepted on one orderbook side.
pub const BOOK_BOUND: usize = 100_000;

/// Largest resting quantity accepted at one price level.
pub const QTY_BOUND: u32 = 1_000_000_000;

/// Largest number of ensemble members accepted in one snapshot.
pub const MEMBER_BOUND: usize = 1_000_000;

/// Largest number of probability buckets accepted in one snapshot.
pub const BUCKET_BOUND: usize = 100_000;

/// Verdict kind of a trade decision.
#[derive(Clone, Copy, Debug, PartialEq, Eq, Structural)]
pub enum Action {
    Buy,
    Pass,
}

/// Side of a binary contract.
#[derive(Clone, Copy, Debug, PartialEq, Eq, Structural)]
pub enum Side {
    Yes,
    No,
}

/// Outcome recorded for one ledger row.
#[derive(Clone, Copy, Debug, PartialEq, Eq, Structural)]
pub enum TradeResult {
    Pending,
    Win,
    Loss,
    Cancelled,
    Unknown,
}

/// Strike-type tag reported by the exchange for a bracket.
#[derive(Clone, Copy, Debug, PartialEq, Eq, Structural)]
pub enum StrikeKind {
    Greater,
    Less,
    Between,
    BetweenInclusive,
    Other,
}

/// Confidence tier derived from the ensemble spread.
#[derive(Clone, Copy, Debug, PartialEq, Eq, Structural)]
pub enum ForecastConfidence {
    High,
    Medium,
    Low,
}

/// Payout shape of a bracket, with strikes in tenths of °F.
#[derive(Clone, Copy, Debug, PartialEq, Eq, Structural)]
pub enum MarketType {
    Above(i64),
    Below(i64),
    Between(i64, i64),
}

impl MarketType {
    /// True when every strike the shape mentions is within `TEMP_BOUND`.
    pub open spec fn wf(self) -> bool {
        match self {
            MarketType::Above(t) => -TEMP_BOUND <= t <= TEMP_BOUND,
            MarketType::Below(t) => -TEMP_BOUND <= t <= TEMP_BOUND,
            MarketType::Between(lo, hi) => -TEMP_BOUND <= lo <= TEMP_BOUND
                && -TEMP_BOUND <= hi <= TEMP_BOUND,
        }
    }
}

/// Verdict of the decision engine for one bracket.
///
/// `edge_magnitude` is the net confidence-adjusted edge in tenths of a
/// basis point; it is zero for every pass.
pub struct TradeDecision {
    pub action: Action,
    pub side: Option<Side>,
    pub shares: Option<u32>,
    pub max_price_cents: Option<u32>,
    pub reasoning: String,
    pub edge_magnitude: i64,
}

impl TradeDecision {
    /// A buy names side, size and limit price; a pass names none of them.
    pub open spec fn wf(self) -> bool {
        &&& self.edge_magnitude >= 0
        &&& (self.action == Action::Buy <==> self.side is Some)
        &&& (self.action == Action::Buy <==> self.shares is Some)
        &&& (self.action == Action::Buy <==> self.max_price_cents is Some)
        &&& (self.action == Action::Pass ==> self.edge_magnitude == 0)
    }
}

/// True for a price expressed in cents that a binary contract can quote.
pub open spec fn price_ok(p: u32) -> bool {
    1 <= p <= 99
}

/// One tradable bracket as reported by the exchange.
pub struct MarketState {
    pub ticker: String,
    pub event_ticker: String,
    pub title: String,
    pub yes_bid: Option<u32>,
    pub yes_ask: Option<u32>,
    pub no_bid: Option<u32>,
    pub no_ask: Option<u32>,
    pub last_price: Option<u32>,
    pub volume: u64,
    pub volume_24h: u64,
    pub open_interest: u64,
    pub expiration_time: String,
    pub minutes_to_expiry: i64,
    /// Lower strike in tenths of °F, when the shape has one.
    pub floor_strike: Option<i64>,
    /// Upper strike in tenths of °F, when the shape has one.
    pub cap_strike: Option<i64>,
    pub strike_kind: StrikeKind,
}

impl MarketState {
    /// Quotes are quotable prices, bid never above ask, strikes bounded.
    pub open spec fn wf(self) -> bool {
        &&& (match self.yes_bid {
            Some(p) => price_ok(p),
            None => true,
        })
        &&& (match self.yes_ask {
            Some(p) => price_ok(p),
            None => true,
        })
        &&& (match self.no_bid {
            Some(p) => price_ok(p),
            None => true,
        })
        &&& (match self.no_ask {
            Some(p) => price_ok(p),
            None => true,
        })
        &&& (match (self.yes_bid, self.yes_ask) {
            (Some(b), Some(a)) => b <= a,
            _ => true,
        })
        &&& (match (self.no_bid, self.no_ask) {
            (Some(b), Some(a)) => b <= a,
            _ => true,
        })
        &&& (match self.floor_strike {
            Some(t) => -TEMP_BOUND <= t <= TEMP_BOUND,
            None => true,
        })
        &&& (match self.cap_strike {
            Some(t) => -TEMP_BOUND <= t <= TEMP_BOUND,
            None => true,
        })
    }
}

/// Resting liquidity for one contract: (price-cents, quantity) levels.
pub struct Orderbook {
    pub yes: Vec<(u32, u32)>,
    pub no: Vec<(u32, u32)>,
}

/// Bounded levels with quotable prices.
pub open spec fn book_side_wf(levels: Seq<(u32, u32)>) -> bool {
    &&& levels.len() <= BOOK_BOUND
    &&& forall|i: int| 0 <= i < levels.len() ==>
        price_ok((#[trigger] levels[i]).0) && levels[i].1 <= QTY_BOUND
}

impl Orderbook {
    pub open spec fn wf(self) -> bool {
        book_side_wf(self.yes@) && book_side_wf(self.no@)
    }
}

/// One point of the hourly temperature trajectory.
pub struct HourlyForecast {
    pub time: String,
    /// Temperature in tenths of °F.
    pub temperature_tenths: i64,
}

/// Summary of forecast-model disagreement, all temperatures in tenths of °F.
#[derive(Clone, Copy)]
pub struct EnsembleForecast {
    pub model_count: usize,
    pub mean_high: i64,
    pub min_high: i64,
    pub max_high: i64,
    /// Spread of the member highs, in tenths of °F; never negative.
    pub std_dev: i64,
    pub p10: i64,
    pub p25: i64,
    pub p75: i64,
    pub p90: i64,
}

impl EnsembleForecast {
    /// Non-negative spread, monotone percentiles, bounded temperatures.
    pub open spec fn wf(self) -> bool {
        &&& 0 <= self.std_dev <= 2 * TEMP_BOUND
        &&& self.min_high <= self.max_high
        &&& self.p10 <= self.p25 <= self.p75 <= self.p90
        &&& -TEMP_BOUND <= self.mean_high <= TEMP_BOUND
        &&& -TEMP_BOUND <= self.min_high <= TEMP_BOUND
        &&& -TEMP_BOUND <= self.max_high <= TEMP_BOUND
        &&& -TEMP_BOUND <= self.p10 <= TEMP_BOUND
        &&& -TEMP_BOUND <= self.p90 <= TEMP_BOUND
    }
}

/// Probability mass assigned to one temperature bucket `[lower, upper)`.
pub struct TempBucketProbability {
    pub label: String,
    /// Inclusive lower bound in tenths of °F.
    pub lower: i64,
    /// Exclusive upper bound in tenths of °F.
    pub upper: i64,
    /// Mass in basis points.
    pub probability_bps: i64,
}

impl TempBucketProbability {
    pub open spec fn wf(self) -> bool {
        &&& -TEMP_BOUND <= self.lower < self.upper <= TEMP_BOUND
        &&& 0 <= self.probability_bps <= 10000
    }
}

/// Total mass of a bucket table, in basis points.
pub open spec fn sum_bucket_bps(bs: Seq<TempBucketProbability>) -> int
    decreases bs.len(),
{
    if bs.len() == 0 {
        0
    } else {
        sum_bucket_bps(bs.drop_last()) + bs.last().probability_bps
    }
}

/// Every bucket well formed and the table's mass at most one.
pub open spec fn buckets_wf(bs: Seq<TempBucketProbability>) -> bool {
    &&& bs.len() <= BUCKET_BOUND
    &&& forall|i: int| 0 <= i < bs.len() ==> (#[trigger] bs[i]).wf()
    &&& sum_bucket_bps(bs) <= 10000
}

/// One forecast cycle for one location.
pub struct WeatherSnapshot {
    pub city: String,
    /// Current temperature in tenths of °F.
    pub current_temp_tenths: i64,
    /// Point forecast high in tenths of °F, when available.
    pub nws_forecast_high: Option<i64>,
    pub nws_forecast_low: Option<i64>,
    pub nws_short_forecast: Option<String>,
    /// Deterministic model's forecast high in tenths of °F.
    pub open_meteo_forecast_high: i64,
    pub hourly_forecasts: Vec<HourlyForecast>,
    pub ensemble: Option<EnsembleForecast>,
    pub bucket_probabilities: Vec<TempBucketProbability>,
    /// Raw per-member forecast highs in tenths of °F.
    pub ensemble_member_highs: Vec<i64>,
    pub confidence: ForecastConfidence,
}

impl WeatherSnapshot {
    pub open spec fn wf(self) -> bool {
        &&& -TEMP_BOUND <= self.open_meteo_forecast_high <= TEMP_BOUND
        &&& -TEMP_BOUND <= self.current_temp_tenths <= TEMP_BOUND
        &&& (match self.nws_forecast_high {
            Some(t) => -TEMP_BOUND <= t <= TEMP_BOUND,
            None => true,
        })
        &&& (match self.nws_forecast_low {
            Some(t) => -TEMP_BOUND <= t <= TEMP_BOUND,
            None => true,
        })
        &&& (forall|i: int| 0 <= i < self.hourly_forecasts@.len() ==>
            -TEMP_BOUND <= (#[trigger] self.hourly_forecasts@[i]).temperature_tenths
                <= TEMP_BOUND)
        &&& buckets_wf(self.bucket_probabilities@)
        &&& self.ensemble_member_highs@.len() <= MEMBER_BOUND
        &&& forall|i: int| 0 <= i < self.ensemble_member_highs@.len() ==>
            -TEMP_BOUND <= #[trigger] self.ensemble_member_highs@[i] <= TEMP_BOUND
        &&& (match self.ensemble {
            Some(e) => e.wf(),
            None => true,
        })
    }
}

/// Acknowledgement returned by the exchange for a placed order.
pub struct OrderResult {
    pub order_id: String,
    pub status: String,
}

/// Order handed to the exchange.
pub struct OrderRequest {
    pub ticker: String,
    pub side: Side,
    pub shares: u32,
    pub price_cents: u32,
}

/// An order resting on the exchange from an earlier cycle.
pub struct RestingOrder {
    pub order_id: String,
    pub ticker: String,
}

/// An open position reported by the exchange.
pub struct Position {
    pub ticker: String,
    pub side: Side,
    pub count: u32,
}

/// A settlement record for one contract.
pub struct Settlement {
    pub ticker: String,
    pub side: Side,
    pub count: u32,
    pub price_cents: u32,
    /// Terminal outcome; never `Pending`.
    pub result: TradeResult,
    pub pnl_cents: i64,
    /// Minutes since the epoch.
    pub settled_time_minutes: u64,
    pub market_result: String,
}

impl Settlement {
    pub open spec fn wf(self) -> bool {
        &&& self.result != TradeResult::Pending
        &&& -PNL_BOUND <= self.pnl_cents <= PNL_BOUND
    }
}

/// One trade attempt in the append-only ledger.
pub struct LedgerRow {
    /// Minutes since the epoch at which the row was appended.
    pub timestamp_minutes: u64,
    pub ticker: String,
    pub side: Side,
    pub shares: u32,
    pub price: u32,
    pub result: TradeResult,
    pub pnl_cents: i64,
    pub cumulative_cents: i64,
    pub order_id: String,
}

impl LedgerRow {
    pub open spec fn wf(self) -> bool {
        &&& -PNL_BOUND <= self.pnl_cents <= PNL_BOUND
        &&& -CUM_BOUND <= self.cumulative_cents <= CUM_BOUND
    }
}

/// Rolling account performance, derived entirely from the ledger.
pub struct Stats {
    pub total_trades: u32,
    pub wins: u32,
    pub losses: u32,
    /// Wins over decided trades, in basis points.
    pub win_rate_bps: u32,
    pub total_pnl_cents: i64,
    pub today_pnl_cents: i64,
    pub current_streak: i32,
    pub max_drawdown_cents: i64,
    pub avg_win_cents: i64,
    pub avg_loss_cents: i64,
}

/// Everything the decision engine may read for one bracket.
pub struct DecisionContext {
    pub prompt_md: String,
    pub stats: Stats,
    pub last_n_trades: Vec<LedgerRow>,
    pub market: MarketState,
    pub orderbook: Orderbook,
    pub weather: Option<WeatherSnapshot>,
}

impl DecisionContext {
    /// Runtime check of `wf`, for a context assembled outside the core.
    pub fn wf_check(&self) -> (b: bool)
        ensures
            b == self.wf(),
    {
        self.market.wf_check() && self.orderbook.wf_check() && (match &self.weather {
            Some(w) => w.wf_check(),
            None => true,
        })
    }

    pub open spec fn wf(self) -> bool {
        &&& self.market.wf()
        &&& self.orderbook.wf()
        &&& (match self.weather {
            Some(w) => w.wf(),
            None => true,
        })
    }
}

/// One tracked city.
pub struct CityConfig {
    pub name: String,
    pub series_ticker: String,
    /// Latitude in microdegrees.
    pub lat_microdeg: i64,
    /// Longitude in microdegrees.
    pub lon_microdeg: i64,
    pub timezone: String,
}

/// Operating limits and credentials of one deployment.
pub struct Config {
    pub max_shares: u32,
    pub max_daily_loss_cents: i64,
    pub max_consecutive_losses: u32,
    pub min_balance_cents: u64,
    pub min_minutes_to_expiry: i64,
    pub paper_trade: bool,
    pub confirm_live: bool,
    pub kalshi_base_url: String,
    pub openrouter_api_key: String,
    pub kalshi_key_id: String,
    pub kalshi_private_key_pem: String,
    pub lockfile_path: String,
    pub cities: Vec<CityConfig>,
}

impl Config {
    pub open spec fn wf(self) -> bool {
        &&& self.max_shares >= 1
        &&& self.max_daily_loss_cents >= 0
        &&& self.max_consecutive_losses <= 1_000_000
    }
}

/// Shape a market's strike fields describe, if any.
///
/// The tag decides; when the tag is unrecognized the shape is inferred
/// from which strike fields are populated.
pub open spec fn spec_market_type(m: MarketState) -> Option<MarketType> {
    match m.strike_kind {
        StrikeKind::Greater => match m.floor_strike {
            Some(t) => Some(MarketType::Above(t)),
            None => None,
        },
        StrikeKind::Less => match m.cap_strike {
            Some(t) => Some(MarketType::Below(t)),
            None => None,
        },
        StrikeKind::Between | StrikeKind::BetweenInclusive => match (m.floor_strike, m.cap_strike) {
            (Some(lo), Some(hi)) => Some(MarketType::Between(lo, hi)),
            _ => None,
        },
        StrikeKind::Other => match (m.floor_strike, m.cap_strike) {
            (Some(lo), Some(hi)) => Some(MarketType::Between(lo, hi)),
            (Some(t), None) => Some(MarketType::Above(t)),
            (None, Some(t)) => Some(MarketType::Below(t)),
            (None, None) => None,
        },
    }
}

impl MarketType {
    /// Derive the payout shape from the strike fields and tag.
    pub fn from_market(m: &MarketState) -> (r: Option<MarketType>)
        ensures
            r == spec_market_type(*m),
            m.wf() ==> (r matches Some(mt) ==> mt.wf()),
    {
        match m.strike_kind {
            StrikeKind::Greater => match m.floor_strike {
                Some(t) => Some(MarketType::Above(t)),
                None => None,
            },
            StrikeKind::Less => match m.cap_strike {
                Some(t) => Some(MarketType::Below(t)),
                None => None,
            },
            StrikeKind::Between | StrikeKind::BetweenInclusive => {
                match (m.floor_strike, m.cap_strike) {
                    (Some(lo), Some(hi)) => Some(MarketType::Between(lo, hi)),
                    _ => None,
                }
            },
            StrikeKind::Other => match (m.floor_strike, m.cap_strike) {
                (Some(lo), Some(hi)) => Some(MarketType::Between(lo, hi)),
                (Some(t), None) => Some(MarketType::Above(t)),
                (None, Some(t)) => Some(MarketType::Below(t)),
                (None, None) => None,
            },
        }
    }
}

impl MarketState {
    /// Runtime check of `wf`, for data read from the exchange.
    pub fn wf_check(&self) -> (b: bool)
        ensures
            b == self.wf(),
    {
        let prices_ok = (match self.yes_bid {
            Some(p) => 1 <= p && p <= 99,
            None => true,
        }) && (match self.yes_ask {
            Some(p) => 1 <= p && p <= 99,
            None => true,
        }) && (match self.no_bid {
            Some(p) => 1 <= p && p <= 99,
            None => true,
        }) && (match self.no_ask {
            Some(p) => 1 <= p && p <= 99,
            None => true,
        });
        let order_ok = (match (self.yes_bid, self.yes_ask) {
            (Some(b), Some(a)) => b <= a,
            _ => true,
        }) && (match (self.no_bid, self.no_ask) {
            (Some(b), Some(a)) => b <= a,
            _ => true,
        });
        let strikes_ok = (match self.floor_strike {
            Some(t) => -TEMP_BOUND <= t && t <= TEMP_BOUND,
            None => true,
        }) && (match self.cap_strike {
            Some(t) => -TEMP_BOUND <= t && t <= TEMP_BOUND,
            None => true,
        });
        prices_ok && order_ok && strikes_ok
    }

    /// An exact copy, field by field.
    pub fn duplicate(&self) -> (r: MarketState)
        ensures
            r == *self,
    {
        MarketState {
            ticker: self.ticker.clone(),
            event_ticker: self.event_ticker.clone(),
            title: self.title.clone(),
            yes_bid: self.yes_bid,
            yes_ask: self.yes_ask,
            no_bid: self.no_bid,
            no_ask: self.no_ask,
            last_price: self.last_price,
            volume: self.volume,
            volume_24h: self.volume_24h,
            open_interest: self.open_interest,
            expiration_time: self.expiration_time.clone(),
            minutes_to_expiry: self.minutes_to_expiry,
            floor_strike: self.floor_strike,
            cap_strike: self.cap_strike,
            strike_kind: self.strike_kind,
        }
    }
}

fn copy_levels(levels: &Vec<(u32, u32)>) -> (r: Vec<(u32, u32)>)
    ensures
        r@ == levels@,
{
    let mut out: Vec<(u32, u32)> = Vec::new();
    let n = levels.len();
    let mut i: usize = 0;
    while i < n
        invariant
            0 <= i <= n,
            n == levels@.len(),
            out@ == levels@.take(i as int),
        decreases n - i,
    {
        out.push(levels[i]);
        proof {
            assert(out@ =~= levels@.take(i + 1));
        }
        i = i + 1;
    }
    proof {
        assert(levels@.take(n as int) =~= levels@);
    }
    out
}

impl Orderbook {
    /// Runtime check of `wf`, for data read from the exchange.
    pub fn wf_check(&self) -> (b: bool)
        ensures
            b == self.wf(),
    {
        side_wf_check(&self.yes) && side_wf_check(&self.no)
    }

    /// An exact copy, level by level.
    pub fn duplicate(&self) -> (r: Orderbook)
        ensures
            r.yes@ == self.yes@,
            r.no@ == self.no@,
    {
        Orderbook { yes: copy_levels(&self.yes), no: copy_levels(&self.no) }
    }
}

fn side_wf_check(levels: &Vec<(u32, u32)>) -> (b: bool)
    ensures
        b == book_side_wf(levels@),
{
    if levels.len() > BOOK_BOUND {
        return false;
    }
    let n = levels.len();
    let mut i: usize = 0;
    while i < n
        invariant
            0 <= i <= n,
            n == levels@.len(),
            forall|j: int| 0 <= j < i ==>
                price_ok((#[trigger] levels@[j]).0) && levels@[j].1 <= QTY_BOUND,
        decreases n - i,
    {
        let (p, q) = levels[i];
        if p < 1 || p > 99 || q > QTY_BOUND {
            return false;
        }
        i = i + 1;
    }
    true
}

impl HourlyForecast {
    /// An exact copy.
    pub fn duplicate(&self) -> (r: HourlyForecast)
        ensures
            r == *self,
    {
        HourlyForecast { time: self.time.clone(), temperature_tenths: self.temperature_tenths }
    }
}

impl TempBucketProbability {
    /// An exact copy.
    pub fn duplicate(&self) -> (r: TempBucketProbability)
        ensures
            r == *self,
    {
        TempBucketProbability {
            label: self.label.clone(),
            lower: self.lower,
            upper: self.upper,
            probability_bps: self.probability_bps,
        }
    }
}

impl WeatherSnapshot {
    /// Runtime check of `wf`, for a snapshot assembled from feeds.
    pub fn wf_check(&self) -> (b: bool)
        ensures
            b == self.wf(),
    {
        if self.open_meteo_forecast_high < -TEMP_BOUND || self.open_meteo_forecast_high > TEMP_BOUND {
            return false;
        }
        if self.current_temp_tenths < -TEMP_BOUND || self.current_temp_tenths > TEMP_BOUND {
            return false;
        }
        match self.nws_forecast_high {
            Some(t) => if t < -TEMP_BOUND || t > TEMP_BOUND {
                return false;
            },
            None => {},
        }
        match self.nws_forecast_low {
            Some(t) => if t < -TEMP_BOUND || t > TEMP_BOUND {
                return false;
            },
            None => {},
        }
        let hn = self.hourly_forecasts.len();
        let mut hi: usize = 0;
        while hi < hn
            invariant
                0 <= hi <= hn,
                hn == self.hourly_forecasts@.len(),
                forall|j: int| 0 <= j < hi ==>
                    -TEMP_BOUND <= (#[trigger] self.hourly_forecasts@[j]).temperature_tenths
                        <= TEMP_BOUND,
            decreases hn - hi,
        {
            let t = self.hourly_forecasts[hi].temperature_tenths;
            if t < -TEMP_BOUND || t > TEMP_BOUND {
                return false;
            }
            hi = hi + 1;
        }
        if !buckets_wf_check(&self.bucket_probabilities) {
            return false;
        }
        if self.ensemble_member_highs.len() > MEMBER_BOUND {
            return false;
        }
        let n = self.ensemble_member_highs.len();
        let mut i: usize = 0;
        while i < n
            invariant
                0 <= i <= n,
                n == self.ensemble_member_highs@.len(),
                forall|j: int| 0 <= j < i ==>
                    -TEMP_BOUND <= #[trigger] self.ensemble_member_highs@[j] <= TEMP_BOUND,
            decreases n - i,
        {
            let h = self.ensemble_member_highs[i];
            if h < -TEMP_BOUND || h > TEMP_BOUND {
                return false;
            }
            i = i + 1;
        }
        match &self.ensemble {
            Some(e) => 0 <= e.std_dev && e.std_dev <= 2 * TEMP_BOUND
                && e.min_high <= e.max_high && e.p10 <= e.p25
                && e.p25 <= e.p75 && e.p75 <= e.p90
                && -TEMP_BOUND <= e.mean_high && e.mean_high <= TEMP_BOUND
                && -TEMP_BOUND <= e.min_high && e.min_high <= TEMP_BOUND
                && -TEMP_BOUND <= e.max_high && e.max_high <= TEMP_BOUND
                && -TEMP_BOUND <= e.p10 && e.p10 <= TEMP_BOUND
                && -TEMP_BOUND <= e.p90 && e.p90 <= TEMP_BOUND,
            None => true,
        }
    }

    /// An exact copy, shared read-only across the brackets of one cycle.
    pub fn duplicate(&self) -> (r: WeatherSnapshot)
        ensures
            snapshot_equiv(r, *self),
    {
        let mut hourly: Vec<HourlyForecast> = Vec::new();
        let hn = self.hourly_forecasts.len();
        let mut i: usize = 0;
        while i < hn
            invariant
                0 <= i <= hn,
                hn == self.hourly_forecasts@.len(),
                hourly@ == self.hourly_forecasts@.take(i as int),
            decreases hn - i,
        {
            hourly.push(self.hourly_forecasts[i].duplicate());
            proof {
                assert(hourly@ =~= self.hourly_forecasts@.take(i + 1));
            }
            i = i + 1;
        }
        let mut buckets: Vec<TempBucketProbability> = Vec::new();
        let bn = self.bucket_probabilities.len();
        let mut j: usize = 0;
        while j < bn
            invariant
                0 <= j <= bn,
                bn == self.bucket_probabilities@.len(),
                buckets@ == self.bucket_probabilities@.take(j as int),
            decreases bn - j,
        {
            buckets.push(self.bucket_probabilities[j].duplicate());
            proof {
                assert(buckets@ =~= self.bucket_probabilities@.take(j + 1));
            }
            j = j + 1;
        }
        let mut members: Vec<i64> = Vec::new();
        let mn = self.ensemble_member_highs.len();
        let mut k: usize = 0;
        while k < mn
            invariant
                0 <= k <= mn,
                mn == self.ensemble_member_highs@.len(),
                members@ == self.ensemble_member_highs@.take(k as int),
            decreases mn - k,
        {
            members.push(self.ensemble_member_highs[k]);
            proof {
                assert(members@ =~= self.ensemble_member_highs@.take(k + 1));
            }
            k = k + 1;
        }
        proof {
            assert(self.hourly_forecasts@.take(hn as int) =~= self.hourly_forecasts@);
            assert(self.bucket_probabilities@.take(bn as int) =~= self.bucket_probabilities@);
            assert(self.ensemble_member_highs@.take(mn as int) =~= self.ensemble_member_highs@);
        }
        WeatherSnapshot {
            city: self.city.clone(),
            current_temp_tenths: self.current_temp_tenths,
            nws_forecast_high: self.nws_forecast_high,
            nws_forecast_low: self.nws_forecast_low,
            nws_short_forecast: match &self.nws_short_forecast {
                Some(s) => Some(s.clone()),
                None => None,
            },
            open_meteo_forecast_high: self.open_meteo_forecast_high,
            hourly_forecasts: hourly,
            ensemble: self.ensemble,
            bucket_probabilities: buckets,
            ensemble_member_highs: members,
            confidence: self.confidence,
        }
    }
}

/// The two snapshots carry the same forecast, field for field (their
/// vectors compared by contents).
pub open spec fn snapshot_equiv(a: WeatherSnapshot, b: WeatherSnapshot) -> bool {
    &&& a.city == b.city
    &&& a.current_temp_tenths == b.current_temp_tenths
    &&& a.nws_forecast_high == b.nws_forecast_high
    &&& a.nws_forecast_low == b.nws_forecast_low
    &&& a.nws_short_forecast == b.nws_short_forecast
    &&& a.open_meteo_forecast_high == b.open_meteo_forecast_high
    &&& a.hourly_forecasts@ == b.hourly_forecasts@
    &&& a.ensemble == b.ensemble
    &&& a.bucket_probabilities@ == b.bucket_probabilities@
    &&& a.ensemble_member_highs@ == b.ensemble_member_highs@
    &&& a.confidence == b.confidence
}

/// Runtime check of `buckets_wf`, for a table read from a feed.
pub fn buckets_wf_check(bs: &Vec<TempBucketProbability>) -> (b: bool)
    ensures
        b == buckets_wf(bs@),
{
    if bs.len() > BUCKET_BOUND {
        return false;
    }
    let ghost bseq = bs@;
    let n = bs.len();
    let mut sum: i64 = 0;
    let mut i: usize = 0;
    while i < n
        invariant
            0 <= i <= n,
            n == bseq.len(),
            bs@ == bseq,
            n <= BUCKET_BOUND,
            sum == sum_bucket_bps(bseq.take(i as int)),
            0 <= sum <= (i as int) * 10000,
            forall|j: int| 0 <= j < i ==> (#[trigger] bseq[j]).wf(),
        decreases n - i,
    {
        proof {
            assert(bseq.take(i + 1).drop_last() =~= bseq.take(i as int));
            assert(bseq.take(i + 1).last() == bseq[i as int]);
        }
        let b = &bs[i];
        if b.lower < -TEMP_BOUND || b.upper > TEMP_BOUND || b.lower >= b.upper
            || b.probability_bps < 0 || b.probability_bps > 10000 {
            return false;
        }
        sum = sum + b.probability_bps;
        i = i + 1;
    }
    proof {
        assert(bseq.take(n as int) =~= bseq);
    }
    sum <= 10000
}

impl Settlement {
    /// Runtime check of `wf`, for a record read from the exchange.
    pub fn wf_check(&self) -> (b: bool)
        ensures
            b == self.wf(),
    {
        !matches!(self.result, TradeResult::Pending) && -PNL_BOUND <= self.pnl_cents
            && self.pnl_cents <= PNL_BOUND
    }
}

impl LedgerRow {
    /// An exact copy, field by field.
    pub fn duplicate(&self) -> (r: LedgerRow)
        ensures
            r == *self,
    {
        LedgerRow {
            timestamp_minutes: self.timestamp_minutes,
            ticker: self.ticker.clone(),
            side: self.side,
            shares: self.shares,
            price: self.price,
            result: self.result,
            pnl_cents: self.pnl_cents,
            cumulative_cents: self.cumulative_cents,
            order_id: self.order_id.clone(),
        }
    }
}

impl CityConfig {
    /// The four tracked cities.
    pub fn all() -> (r: Vec<CityConfig>)
        ensures
            r@.len() == 4,
            r@[0].series_ticker@ == "KXHIGHNY"@,
            r@[1].series_ticker@ == "KXHIGHCHI"@,
            r@[2].series_ticker@ == "KXHIGHMI"@,
            r@[3].series_ticker@ == "KXHIGHAT"@,
            r@[0].name@ == "New York"@,
            r@[1].name@ == "Chicago"@,
            r@[2].name@ == "Miami"@,
            r@[3].name@ == "Austin"@,
            r@[0].lat_microdeg == 40_712_800 && r@[0].lon_microdeg == -74_006_000,
            r@[1].lat_microdeg == 41_878_100 && r@[1].lon_microdeg == -87_629_800,
            r@[2].lat_microdeg == 25_761_700 && r@[2].lon_microdeg == -80_191_800,
            r@[3].lat_microdeg == 30_267_200 && r@[3].lon_microdeg == -97_743_100,
            r@[0].timezone@ == "America/New_York"@,
            r@[1].timezone@ == "America/Chicago"@,
            r@[2].timezone@ == "America/New_York"@,
            r@[3].timezone@ == "America/Chicago"@,
    {
        let mut v: Vec<CityConfig> = Vec::new();
        v.push(CityConfig {
            name: "New York".to_owned(),
            series_ticker: "KXHIGHNY".to_owned(),
            lat_microdeg: 40_712_800,
            lon_microdeg: -74_006_000,
            timezone: "America/New_York".to_owned(),
        });
        v.push(CityConfig {
            name: "Chicago".to_owned(),
            series_ticker: "KXHIGHCHI".to_owned(),
            lat_microdeg: 41_878_100,
            lon_microdeg: -87_629_800,
            timezone: "America/Chicago".to_owned(),
        });
        v.push(CityConfig {
            name: "Miami".to_owned(),
            series_ticker: "KXHIGHMI".to_owned(),
            lat_microdeg: 25_761_700,
            lon_microdeg: -80_191_800,
            timezone: "America/New_York".to_owned(),
        });
        v.push(CityConfig {
            name: "Austin".to_owned(),
            series_ticker: "KXHIGHAT".to_owned(),
            lat_microdeg: 30_267_200,
            lon_microdeg: -97_743_100,
            timezone: "America/Chicago".to_owned(),
        });
        v
    }
}

} // verus!
