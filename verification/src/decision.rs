//! The deterministic rules-based decision engine.
//!
//! A pure transform from one bracket's market, orderbook and weather
//! context to a trade decision, with no network access and no
//! mutation, fully deterministic.  Probabilities are in basis points;
//! adjusted and net edges are in tenths of a basis point.

use vstd::prelude::*;
use vstd::string::StringExecFns;
use crate::types::{
    Action, DecisionContext, ForecastConfidence, MarketState, MarketType, Orderbook, Side,
    TradeDecision, WeatherSnapshot, price_ok, spec_market_type,
};
use crate::probability::{
    ensemble_yes_from_buckets, ensemble_yes_from_members, sigmoid_bps, spec_buckets_yes_bps,
    spec_members_yes_bps, spec_sigmoid_bps, lemma_members_yes_bps_bounds,
    lemma_buckets_yes_bounds,
};
use crate::fmt::{fmt_pct_bps, fmt_pp_dbps, fmt_u64};

verus! {

/// Minimum net confidence-adjusted edge worth trading, in tenths of a
/// basis point (five percentage points).
pub const MIN_NET_EDGE_DBPS: i64 = 5000;

/// Hard cap on the price paid for either side, in cents.
pub const PRICE_CAP_CENTS: u32 = 50;

/// A quoted spread at most this wide is taken at the ask outright.
pub const NARROW_SPREAD_CENTS: u32 = 4;

/// Minimum resting size at the ask before a wide spread is crossed.
pub const MIN_ASK_DEPTH: u64 = 10;

/// Liquidity floor: a bracket below this 24-hour volume and open
/// interest at once is not traded.
pub const MIN_LIQUIDITY: u64 = 10;

/// Fixed order size, in contracts.
pub const FLAT_SHARES: u32 = 50;

/// The rules-based decision engine.  Stateless: every verdict is a
/// function of the context alone.
pub struct RulesBrain;

impl RulesBrain {
    pub fn new() -> RulesBrain {
        RulesBrain
    }
}

/// Confidence multiplier in tenths: full weight on a tight ensemble,
/// four fifths on a medium spread, half on a wide one.
pub open spec fn confidence_multiplier(c: ForecastConfidence) -> int {
    match c {
        ForecastConfidence::High => 10,
        ForecastConfidence::Medium => 8,
        ForecastConfidence::Low => 5,
    }
}

/// Estimated taker fee in tenths of a basis point: seven percent of
/// the cheaper side of the price.
pub open spec fn spec_fee_dbps(price_cents: int) -> int {
    (if price_cents <= 100 - price_cents {
        price_cents
    } else {
        100 - price_cents
    }) * 70
}

/// The ensemble-implied YES probability in basis points, by priority:
/// exact member counting, bucket interpolation, then the point-estimate
/// proxy (Above shapes only).  `None` when none of the three applies.
pub open spec fn spec_yes_prob(w: WeatherSnapshot, mt: MarketType) -> Option<int> {
    if w.ensemble_member_highs@.len() > 0 {
        Some(spec_members_yes_bps(w.ensemble_member_highs@, mt))
    } else if w.ensemble is Some && w.bucket_probabilities@.len() > 0 {
        Some(spec_buckets_yes_bps(w.bucket_probabilities@, mt))
    } else {
        match mt {
            MarketType::Above(t) => Some(spec_sigmoid_bps(w.open_meteo_forecast_high - t)),
            _ => None,
        }
    }
}

/// Everything needed before an edge can even be computed: weather
/// present, a yes ask quoted whose implied probability lies strictly
/// inside (0.10, 0.90) — a quote at or beyond either bound is treated
/// as already resolved or stale — a derivable payout shape, and a
/// computable probability.
pub open spec fn spec_gate_ok(ctx: DecisionContext) -> bool {
    &&& ctx.weather is Some
    &&& ctx.market.yes_ask is Some
    &&& 10 < ctx.market.yes_ask->Some_0 < 90
    &&& spec_market_type(ctx.market) is Some
    &&& spec_yes_prob(ctx.weather->Some_0, spec_market_type(ctx.market)->Some_0) is Some
}

/// The NO side's ask in cents, one dollar when unquoted.
pub open spec fn spec_no_ask(m: MarketState) -> int {
    match m.no_ask {
        Some(p) => p as int,
        None => 100,
    }
}

/// The computed YES probability, in basis points (gate assumed open).
pub open spec fn spec_p_yes(ctx: DecisionContext) -> int {
    spec_yes_prob(ctx.weather->Some_0, spec_market_type(ctx.market)->Some_0)->Some_0
}

/// Confidence-adjusted YES edge in tenths of a basis point.
pub open spec fn spec_adj_edge_yes(ctx: DecisionContext) -> int {
    (spec_p_yes(ctx) - ctx.market.yes_ask->Some_0 * 100)
        * confidence_multiplier(ctx.weather->Some_0.confidence)
}

/// Confidence-adjusted NO edge in tenths of a basis point.
pub open spec fn spec_adj_edge_no(ctx: DecisionContext) -> int {
    ((10000 - spec_p_yes(ctx)) - spec_no_ask(ctx.market) * 100)
        * confidence_multiplier(ctx.weather->Some_0.confidence)
}

/// The side with the larger confidence-adjusted edge; YES on a tie.
pub open spec fn spec_side(ctx: DecisionContext) -> Side {
    if spec_adj_edge_yes(ctx) >= spec_adj_edge_no(ctx) {
        Side::Yes
    } else {
        Side::No
    }
}

/// The chosen side's raw ask in cents.
pub open spec fn spec_entry_price(ctx: DecisionContext) -> int {
    if spec_side(ctx) == Side::Yes {
        ctx.market.yes_ask->Some_0 as int
    } else {
        spec_no_ask(ctx.market)
    }
}

/// The chosen side's confidence-adjusted edge.
pub open spec fn spec_adj_edge(ctx: DecisionContext) -> int {
    if spec_side(ctx) == Side::Yes {
        spec_adj_edge_yes(ctx)
    } else {
        spec_adj_edge_no(ctx)
    }
}

/// Net edge after the estimated taker fee, in tenths of a basis point.
pub open spec fn spec_net_edge(ctx: DecisionContext) -> int {
    spec_adj_edge(ctx) - spec_fee_dbps(spec_entry_price(ctx))
}

/// Total resting quantity at the given price.
pub open spec fn spec_depth_at(levels: Seq<(u32, u32)>, price: int) -> int
    decreases levels.len(),
{
    if levels.len() == 0 {
        0
    } else {
        spec_depth_at(levels.drop_last(), price) + if levels.last().0 == price {
            levels.last().1 as int
        } else {
            0int
        }
    }
}

/// The spread-aware limit price: the ask outright when the quoted
/// spread is narrow; over a wide spread the ask only when enough size
/// rests at it, otherwise the bid/ask midpoint (integer division).
pub open spec fn spec_spread_price(m: MarketState, ob: Orderbook, side: Side) -> int {
    let bid = match side {
        Side::Yes => match m.yes_bid {
            Some(p) => p as int,
            None => 1,
        },
        Side::No => match m.no_bid {
            Some(p) => p as int,
            None => 1,
        },
    };
    let ask = match side {
        Side::Yes => match m.yes_ask {
            Some(p) => p as int,
            None => 99,
        },
        Side::No => match m.no_ask {
            Some(p) => p as int,
            None => 99,
        },
    };
    let levels = match side {
        Side::Yes => ob.yes@,
        Side::No => ob.no@,
    };
    let spread = if ask >= bid {
        ask - bid
    } else {
        0
    };
    if spread <= NARROW_SPREAD_CENTS {
        ask
    } else if spec_depth_at(levels, ask) >= MIN_ASK_DEPTH {
        ask
    } else {
        (bid + ask) / 2
    }
}

/// A bracket with real market activity: 24-hour volume or open
/// interest at the floor.
pub open spec fn spec_liquidity_ok(m: MarketState) -> bool {
    !(m.volume_24h < MIN_LIQUIDITY && m.open_interest < MIN_LIQUIDITY)
}

/// The complete buy condition: gate open, net edge at the minimum,
/// both the raw ask and the spread-aware limit under the price cap,
/// and the liquidity floor met.
pub open spec fn spec_buy(ctx: DecisionContext) -> bool {
    &&& spec_gate_ok(ctx)
    &&& spec_net_edge(ctx) >= MIN_NET_EDGE_DBPS
    &&& spec_entry_price(ctx) <= PRICE_CAP_CENTS
    &&& spec_spread_price(ctx.market, ctx.orderbook, spec_side(ctx)) <= PRICE_CAP_CENTS
    &&& spec_liquidity_ok(ctx.market)
}

/// Estimated taker fee for a price, in tenths of a basis point.
pub fn estimate_fee_dbps(price_cents: u32) -> (f: i64)
    requires
        price_cents <= 100,
    ensures
        f == spec_fee_dbps(price_cents as int),
        0 <= f <= 3500,
{
    let capped: u32 = if price_cents <= 100 - price_cents {
        price_cents
    } else {
        100 - price_cents
    };
    (capped as i64) * 70
}

/// Order size for a given net edge: the fixed quantity policy.
pub fn size_from_edge(net_edge_dbps: i64) -> (n: u32)
    ensures
        n == FLAT_SHARES,
{
    let _ = net_edge_dbps;
    FLAT_SHARES
}

/// Compute the spread-aware limit price for one side of a bracket.
pub fn spread_aware_price(market: &MarketState, orderbook: &Orderbook, side: &Side) -> (p: u32)
    requires
        market.wf(),
        orderbook.wf(),
    ensures
        p == spec_spread_price(*market, *orderbook, *side),
        price_ok(p),
{
    let bid: u32 = match side {
        Side::Yes => match market.yes_bid {
            Some(p) => p,
            None => 1,
        },
        Side::No => match market.no_bid {
            Some(p) => p,
            None => 1,
        },
    };
    let ask: u32 = match side {
        Side::Yes => match market.yes_ask {
            Some(p) => p,
            None => 99,
        },
        Side::No => match market.no_ask {
            Some(p) => p,
            None => 99,
        },
    };
    let spread = if ask >= bid {
        ask - bid
    } else {
        0
    };
    if spread <= NARROW_SPREAD_CENTS {
        return ask;
    }
    let levels = match side {
        Side::Yes => &orderbook.yes,
        Side::No => &orderbook.no,
    };
    let ghost ls = levels@;
    let n = levels.len();
    let mut depth: u64 = 0;
    let mut i: usize = 0;
    while i < n
        invariant
            0 <= i <= n,
            n == ls.len(),
            levels@ == ls,
            crate::types::book_side_wf(ls),
            depth == spec_depth_at(ls.take(i as int), ask as int),
            depth <= (i as int) * (crate::types::QTY_BOUND as int),
        decreases n - i,
    {
        proof {
            assert(ls.take(i + 1).drop_last() =~= ls.take(i as int));
            assert(ls.take(i + 1).last() == ls[i as int]);
            assert(ls[i as int].1 <= crate::types::QTY_BOUND);
        }
        let (lp, lq) = levels[i];
        if lp == ask {
            depth = depth + (lq as u64);
        }
        i = i + 1;
    }
    proof {
        assert(ls.take(n as int) =~= ls);
    }
    if depth >= MIN_ASK_DEPTH {
        ask
    } else {
        (bid + ask) / 2
    }
}


/// The rationale the engine attaches to its answer — the audit channel
/// of the decision — as an exact character sequence.  Pinning it makes
/// the complete answer, text included, a function of the context alone.
pub open spec fn spec_reasoning(ctx: DecisionContext) -> Seq<char> {
    if ctx.weather is None {
        "No weather data available"@
    } else if ctx.market.yes_ask is None {
        "No yes ask price available"@
    } else if ctx.market.yes_ask->Some_0 >= 90 || ctx.market.yes_ask->Some_0 <= 10 {
        "Extreme price: yes ask "@ + crate::fmt::u64_digits(ctx.market.yes_ask->Some_0 as int)
            + "c - likely settled or stale"@
    } else if spec_market_type(ctx.market) is None || spec_yes_prob(
        ctx.weather->Some_0,
        spec_market_type(ctx.market)->Some_0,
    ) is None {
        "Cannot determine ensemble probability"@
    } else {
        let adj = spec_adj_edge(ctx);
        let net = spec_net_edge(ctx);
        let price = spec_entry_price(ctx);
        if net < MIN_NET_EDGE_DBPS {
            "Edge too small: "@ + crate::fmt::pp_chars(adj) + "pp adjusted, "@
                + crate::fmt::pp_chars(net) + "pp net of fee"@
        } else if price > PRICE_CAP_CENTS {
            "Edge "@ + crate::fmt::pp_chars(adj) + "pp but price "@ + crate::fmt::u64_digits(
                price,
            ) + "c over the 50c cap"@
        } else {
            let sp = spec_spread_price(ctx.market, ctx.orderbook, spec_side(ctx));
            if sp > PRICE_CAP_CENTS {
                "Edge "@ + crate::fmt::pp_chars(adj) + "pp but spread-aware price "@
                    + crate::fmt::u64_digits(sp) + "c over the 50c cap"@
            } else if !spec_liquidity_ok(ctx.market) {
                "Net edge "@ + crate::fmt::pp_chars(net) + "pp but illiquid: 24h volume "@
                    + crate::fmt::u64_digits(ctx.market.volume_24h as int) + ", open interest "@
                    + crate::fmt::u64_digits(ctx.market.open_interest as int)
            } else {
                "Ensemble YES "@ + crate::fmt::pct_chars(spec_p_yes(ctx)) + "% vs market "@
                    + crate::fmt::u64_digits(ctx.market.yes_ask->Some_0 as int) + "%: net edge "@
                    + crate::fmt::pp_chars(net) + "pp on "@ + (if spec_side(ctx) == Side::Yes {
                    "YES"@
                } else {
                    "NO"@
                }) + " (adjusted "@ + crate::fmt::pp_chars(adj) + "pp, fee "@
                    + crate::fmt::pp_chars(spec_fee_dbps(price)) + "pp). "@
                    + crate::fmt::u64_digits(FLAT_SHARES as int) + "x @ "@
                    + crate::fmt::u64_digits(sp) + "c. 24h volume "@ + crate::fmt::u64_digits(
                    ctx.market.volume_24h as int,
                ) + ", open interest "@ + crate::fmt::u64_digits(ctx.market.open_interest as int)
            }
        }
    }
}

/// A pass verdict with the given rationale.
fn pass_msg(reason: String) -> (d: TradeDecision)
    ensures
        d.action == Action::Pass,
        d.side is None,
        d.shares is None,
        d.max_price_cents is None,
        d.edge_magnitude == 0,
        d.reasoning == reason,
        d.wf(),
{
    TradeDecision {
        action: Action::Pass,
        side: None,
        shares: None,
        max_price_cents: None,
        reasoning: reason,
        edge_magnitude: 0,
    }
}

/// A pass verdict with a fixed rationale.
fn pass(reason: &str) -> (d: TradeDecision)
    ensures
        d.action == Action::Pass,
        d.side is None,
        d.shares is None,
        d.max_price_cents is None,
        d.edge_magnitude == 0,
        d.reasoning@ == reason@,
        d.wf(),
{
    pass_msg(reason.to_owned())
}

impl RulesBrain {
    /// Produce exactly one verdict for one bracket.
    ///
    /// The verdict is a buy precisely when the full buy condition
    /// holds; a buy carries the side with the larger
    /// confidence-adjusted edge, the fixed size, the spread-aware
    /// limit price and the net edge magnitude; every pass carries a
    /// zero edge.  The rationale text is pinned too, so the complete
    /// answer is a function of the context alone.
    #[verifier::rlimit(100)]
    pub fn decide(&self, ctx: &DecisionContext) -> (d: TradeDecision)
        requires
            ctx.wf(),
        ensures
            d.wf(),
            d.reasoning@ == spec_reasoning(*ctx),
            (d.action == Action::Buy) <==> spec_buy(*ctx),
            d.action == Action::Buy ==> {
                &&& d.side == Some(spec_side(*ctx))
                &&& d.shares == Some(FLAT_SHARES)
                &&& d.max_price_cents == Some(
                    spec_spread_price(ctx.market, ctx.orderbook, spec_side(*ctx)) as u32,
                )
                &&& d.edge_magnitude == spec_net_edge(*ctx)
            },
            d.action == Action::Pass ==> d.edge_magnitude == 0,
    {
        let weather = match &ctx.weather {
            Some(w) => w,
            None => {
                return pass("No weather data available");
            },
        };
        let market_type = MarketType::from_market(&ctx.market);
        let yes_ask = match ctx.market.yes_ask {
            Some(a) => a,
            None => {
                return pass("No yes ask price available");
            },
        };
        if yes_ask >= 90 || yes_ask <= 10 {
            let mut m = String::new();
            m.append("Extreme price: yes ask ");
            m.append(fmt_u64(yes_ask as u64).as_str());
            m.append("c - likely settled or stale");
            proof {
                assert(m@ =~= spec_reasoning(*ctx));
            }
            return pass_msg(m);
        }
        let no_ask: u32 = match ctx.market.no_ask {
            Some(a) => a,
            None => 100,
        };
        let ensemble_yes: Option<i64> = match &market_type {
            Some(mt) => {
                if weather.ensemble_member_highs.len() > 0 {
                    proof {
                        lemma_members_yes_bps_bounds(weather.ensemble_member_highs@, *mt);
                    }
                    Some(ensemble_yes_from_members(&weather.ensemble_member_highs, mt))
                } else if weather.ensemble.is_some() && weather.bucket_probabilities.len() > 0 {
                    proof {
                        lemma_buckets_yes_bounds(weather.bucket_probabilities@, *mt);
                    }
                    Some(ensemble_yes_from_buckets(&weather.bucket_probabilities, mt))
                } else {
                    match mt {
                        MarketType::Above(t) => Some(
                            sigmoid_bps(weather.open_meteo_forecast_high - *t),
                        ),
                        _ => None,
                    }
                }
            },
            None => None,
        };
        let p_yes: i64 = match ensemble_yes {
            Some(p) => p,
            None => {
                return pass("Cannot determine ensemble probability");
            },
        };
        let mult: i64 = match weather.confidence {
            ForecastConfidence::High => 10,
            ForecastConfidence::Medium => 8,
            ForecastConfidence::Low => 5,
        };
        let edge_yes: i64 = p_yes - (yes_ask as i64) * 100;
        let edge_no: i64 = (10000 - p_yes) - (no_ask as i64) * 100;
        let adj_yes: i64 = edge_yes * mult;
        let adj_no: i64 = edge_no * mult;
        let take_yes = adj_yes >= adj_no;
        let side = if take_yes {
            Side::Yes
        } else {
            Side::No
        };
        let adj = if take_yes {
            adj_yes
        } else {
            adj_no
        };
        let price = if take_yes {
            yes_ask
        } else {
            no_ask
        };
        let fee = estimate_fee_dbps(price);
        let net = adj - fee;
        if net < MIN_NET_EDGE_DBPS {
            let mut m = String::new();
            m.append("Edge too small: ");
            m.append(fmt_pp_dbps(adj).as_str());
            m.append("pp adjusted, ");
            m.append(fmt_pp_dbps(net).as_str());
            m.append("pp net of fee");
            proof {
                assert(m@ =~= spec_reasoning(*ctx));
            }
            return pass_msg(m);
        }
        if price > PRICE_CAP_CENTS {
            let mut m = String::new();
            m.append("Edge ");
            m.append(fmt_pp_dbps(adj).as_str());
            m.append("pp but price ");
            m.append(fmt_u64(price as u64).as_str());
            m.append("c over the 50c cap");
            proof {
                assert(m@ =~= spec_reasoning(*ctx));
            }
            return pass_msg(m);
        }
        let shares = size_from_edge(net);
        let max_price = spread_aware_price(&ctx.market, &ctx.orderbook, &side);
        if max_price > PRICE_CAP_CENTS {
            let mut m = String::new();
            m.append("Edge ");
            m.append(fmt_pp_dbps(adj).as_str());
            m.append("pp but spread-aware price ");
            m.append(fmt_u64(max_price as u64).as_str());
            m.append("c over the 50c cap");
            proof {
                assert(m@ =~= spec_reasoning(*ctx));
            }
            return pass_msg(m);
        }
        if ctx.market.volume_24h < MIN_LIQUIDITY && ctx.market.open_interest < MIN_LIQUIDITY {
            let mut m = String::new();
            m.append("Net edge ");
            m.append(fmt_pp_dbps(net).as_str());
            m.append("pp but illiquid: 24h volume ");
            m.append(fmt_u64(ctx.market.volume_24h).as_str());
            m.append(", open interest ");
            m.append(fmt_u64(ctx.market.open_interest).as_str());
            proof {
                assert(m@ =~= spec_reasoning(*ctx));
            }
            return pass_msg(m);
        }
        let mut m = String::new();
        m.append("Ensemble YES ");
        m.append(fmt_pct_bps(p_yes).as_str());
        m.append("% vs market ");
        m.append(fmt_u64(yes_ask as u64).as_str());
        m.append("%: net edge ");
        m.append(fmt_pp_dbps(net).as_str());
        m.append("pp on ");
        m.append(match side {
            Side::Yes => "YES",
            Side::No => "NO",
        });
        m.append(" (adjusted ");
        m.append(fmt_pp_dbps(adj).as_str());
        m.append("pp, fee ");
        m.append(fmt_pp_dbps(fee).as_str());
        m.append("pp). ");
        m.append(fmt_u64(shares as u64).as_str());
        m.append("x @ ");
        m.append(fmt_u64(max_price as u64).as_str());
        m.append("c. 24h volume ");
        m.append(fmt_u64(ctx.market.volume_24h).as_str());
        m.append(", open interest ");
        m.append(fmt_u64(ctx.market.open_interest).as_str());
        proof {
            assert(m@ =~= spec_reasoning(*ctx));
        }
        TradeDecision {
            action: Action::Buy,
            side: Some(side),
            shares: Some(shares),
            max_price_cents: Some(max_price),
            reasoning: m,
            edge_magnitude: net,
        }
    }
}

} // verus!
