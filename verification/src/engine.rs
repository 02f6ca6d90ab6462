//! The cycle orchestrator, as a state machine.
//!
//! One trading cycle is a linear pass: reap stale orders, settle the
//! pending ledger row, risk gate, market scan, position dedup, weather
//! fetch, per-bracket evaluation, selection, race-guard re-check,
//! execution.  The machine holds every decision of that pass; the
//! surrounding process performs one `CycleAction` at a time (an
//! exchange call, a storage read or write, a decision request) and
//! hands the result back as the next `CycleEvent`.
//!
//! The contracts carry the cycle's consistency rules: an open position
//! on the event ends the cycle before any evaluation; an order is
//! placed with the exchange before the ledger row for it is written;
//! a ledger-write failure after a placed order is surfaced as a
//! distinct, critical failure carrying the order id.

use vstd::prelude::*;
use vstd::string::StringExecFns;
use crate::types::{
    Config, DecisionContext, LedgerRow, MarketState, Orderbook, OrderRequest, OrderResult,
    Position, RestingOrder, Settlement, Side, Stats, TradeDecision, TradeResult, WeatherSnapshot,
    Action, price_ok, snapshot_equiv,
};
use crate::ledger::{
    count_pending, last_pending_index, ledger_acceptable, ledger_wf, settle_step, apply_settlement,
    find_last_pending, SettleOutcome,
};
use crate::stats::{stats_compute, spec_stats, rows_bounded};
use crate::risk::{risk_check, spec_risk_veto, RiskVeto};
use crate::fmt::{fmt_pp_dbps, fmt_u64};

verus! {

/// How a cycle ended without error.
pub enum CycleOutcome {
    /// An order was placed (or paper-recorded) and the ledger row written.
    Traded { order_id: String },
    /// The risk gate vetoed the cycle.
    RiskVeto(RiskVeto),
    /// The exchange reported no active brackets.
    NoMarkets,
    /// Every bracket was too close to expiry.
    TooCloseToExpiry,
    /// An open position already sits on this event.
    EventConflict,
    /// No bracket had sufficient edge.
    NoCandidates,
    /// A position appeared on the event during evaluation.
    RaceAborted,
}

/// How a cycle ended in error.
#[derive(Debug)]
pub enum CycleFailure {
    /// Cancelling a stale resting order failed.
    CancelFailed,
    /// An exchange or collaborator read failed.
    FetchFailed,
    /// A storage read or write failed outside execution.
    StorageFailed,
    /// The ledger snapshot violates its own invariants.
    LedgerInvalid,
    /// The exchange handed back malformed data.
    InvalidData,
    /// Order placement itself failed; nothing was written.
    OrderFailed,
    /// Critical: the order was placed but the ledger write failed.
    /// The confirmed order id is carried for manual reconciliation.
    Unrecorded { order_id: String },
    /// An event arrived that the current phase does not await.
    UnexpectedEvent,
}

/// Final result of a cycle.
pub enum CycleEnd {
    Done(CycleOutcome),
    Failed(CycleFailure),
}

/// One bracket's buy verdict, kept until selection.
pub struct Candidate {
    /// Index of the bracket in the scanned list.
    pub index: usize,
    pub decision: TradeDecision,
}

/// The selected trade, after defaulting and capping.
pub struct ChosenTrade {
    pub index: usize,
    pub ticker: String,
    pub side: Side,
    pub shares: u32,
    pub price_cents: u32,
    pub edge: i64,
}

/// Where the cycle stands and what it has gathered so far.
pub enum Phase {
    /// Nothing has happened yet.
    Start,
    /// Waiting for the exchange's resting orders.
    AwaitResting,
    /// Cancelling resting orders one at a time; a failed cancel is
    /// remembered, the remaining orders are still reaped, and the
    /// cycle aborts afterwards.
    Reaping { orders: Vec<RestingOrder>, next: usize, failed: bool },
    /// Waiting for the ledger snapshot.
    AwaitLedger,
    /// Waiting for the settlement records of the pending row's ticker.
    AwaitSettlements { rows: Vec<LedgerRow> },
    /// Waiting for the settlement write to be persisted.
    AwaitSettlePersist { rows: Vec<LedgerRow> },
    /// Waiting for the account balance.
    AwaitBalance { rows: Vec<LedgerRow> },
    /// Waiting for the active markets.
    AwaitMarkets { rows: Vec<LedgerRow> },
    /// Waiting for the open positions (event-level dedup).
    AwaitPositions { rows: Vec<LedgerRow>, brackets: Vec<MarketState> },
    /// Waiting for the weather snapshot.
    AwaitWeather { rows: Vec<LedgerRow>, brackets: Vec<MarketState> },
    /// Waiting for the strategy prompt text.
    AwaitPrompt {
        rows: Vec<LedgerRow>,
        brackets: Vec<MarketState>,
        weather: Option<WeatherSnapshot>,
    },
    /// Waiting for bracket `next`'s orderbook.
    AwaitOrderbook {
        rows: Vec<LedgerRow>,
        brackets: Vec<MarketState>,
        weather: Option<WeatherSnapshot>,
        prompt: String,
        next: usize,
        candidates: Vec<Candidate>,
    },
    /// Waiting for the decision engine's verdict on bracket `next`.
    AwaitDecision {
        rows: Vec<LedgerRow>,
        brackets: Vec<MarketState>,
        weather: Option<WeatherSnapshot>,
        prompt: String,
        next: usize,
        candidates: Vec<Candidate>,
    },
    /// Waiting for the race-guard position re-check.
    AwaitRecheck {
        rows: Vec<LedgerRow>,
        brackets: Vec<MarketState>,
        candidates: Vec<Candidate>,
        best_index: usize,
        best: ChosenTrade,
    },
    /// Waiting for the exchange to acknowledge the order.
    AwaitOrderAck { rows: Vec<LedgerRow>, best: ChosenTrade },
    /// Waiting for the pending ledger row to be appended.
    AwaitAppend { order_id: String, paper: bool },
    /// The cycle is over.
    Ended { end: CycleEnd },
}

/// What the driving process reports back to the machine.
pub enum CycleEvent {
    /// Start the cycle.
    Begin,
    RestingOrders(Vec<RestingOrder>),
    /// The requested cancel (and its ledger mark) completed.
    Cancelled,
    Ledger(Vec<LedgerRow>),
    Settlements(Vec<Settlement>),
    SettlePersisted,
    Balance(u64),
    Markets(Vec<MarketState>),
    Positions(Vec<Position>),
    Weather(Option<WeatherSnapshot>),
    Prompt(String),
    OrderbookFor(Orderbook),
    Decision(TradeDecision),
    OrderPlaced(OrderResult),
    Appended,
    /// The requested operation failed.
    Failed,
}

/// What the driving process must do next.
pub enum CycleAction {
    FetchRestingOrders,
    /// Cancel the order on the exchange and mark its ledger row cancelled.
    CancelOrder { order_id: String },
    ReadLedger,
    FetchSettlements { ticker: String },
    /// Write the settlement into durable storage; when statistics are
    /// supplied, persist them too.
    PersistSettlement { settlement: Settlement, stats: Option<Stats> },
    FetchBalance,
    FetchMarkets,
    FetchPositions,
    FetchWeather,
    ReadPrompt,
    FetchOrderbook { ticker: String },
    /// Ask the decision engine (either variant) for a verdict.
    Decide { ctx: DecisionContext },
    PlaceOrder { request: OrderRequest },
    /// Append the new pending row to the ledger.
    AppendLedger { row: LedgerRow },
    /// Nothing more to do; the cycle has ended.
    Halt,
}

/// Some open position sits on one of the event's brackets.
pub open spec fn spec_conflict(ps: Seq<Position>, brackets: Seq<MarketState>) -> bool {
    exists|i: int, j: int|
        0 <= i < ps.len() && 0 <= j < brackets.len()
            && (#[trigger] ps[i]).ticker@ == (#[trigger] brackets[j]).ticker@
}

/// Check whether any open position matches any bracket of the event.
pub fn conflict_exists(ps: &Vec<Position>, brackets: &Vec<MarketState>) -> (b: bool)
    ensures
        b == spec_conflict(ps@, brackets@),
{
    let np = ps.len();
    let nb = brackets.len();
    let mut i: usize = 0;
    while i < np
        invariant
            0 <= i <= np,
            np == ps@.len(),
            nb == brackets@.len(),
            forall|x: int, y: int| 0 <= x < i && 0 <= y < nb ==>
                (#[trigger] ps@[x]).ticker@ != (#[trigger] brackets@[y]).ticker@,
        decreases np - i,
    {
        let mut j: usize = 0;
        while j < nb
            invariant
                0 <= i < np,
                0 <= j <= nb,
                np == ps@.len(),
                nb == brackets@.len(),
                forall|y: int| 0 <= y < j ==>
                    ps@[i as int].ticker@ != (#[trigger] brackets@[y]).ticker@,
            decreases nb - j,
        {
            if ps[i].ticker == brackets[j].ticker {
                return true;
            }
            j = j + 1;
        }
        i = i + 1;
    }
    false
}

/// The brackets kept by the expiry filter, in scan order.
pub open spec fn spec_keep(ms: Seq<MarketState>, min_minutes: i64) -> Seq<MarketState>
    decreases ms.len(),
{
    if ms.len() == 0 {
        Seq::empty()
    } else {
        let rest = spec_keep(ms.drop_first(), min_minutes);
        if ms.first().minutes_to_expiry >= min_minutes {
            seq![ms.first()] + rest
        } else {
            rest
        }
    }
}

/// Keep the brackets at least `min_minutes` from expiry, in order.
pub fn filter_brackets(ms: Vec<MarketState>, min_minutes: i64) -> (r: Vec<MarketState>)
    ensures
        r@ == spec_keep(ms@, min_minutes),
{
    let ghost orig = ms@;
    let mut ms = ms;
    let mut kept: Vec<MarketState> = Vec::new();
    while ms.len() > 0
        invariant
            spec_keep(orig, min_minutes) =~= kept@ + spec_keep(ms@, min_minutes),
        decreases ms.len(),
    {
        let ghost before = ms@;
        let m = ms.remove(0);
        proof {
            assert(before.drop_first() =~= ms@);
            assert(before.first() == m);
        }
        if m.minutes_to_expiry >= min_minutes {
            kept.push(m);
        }
        proof {
            assert(spec_keep(orig, min_minutes) =~= kept@ + spec_keep(ms@, min_minutes));
        }
    }
    proof {
        assert(spec_keep(ms@, min_minutes) =~= Seq::<MarketState>::empty());
        assert(kept@ + Seq::<MarketState>::empty() =~= kept@);
    }
    kept
}

/// Check that every market in the list is well formed.
pub fn markets_all_wf(ms: &Vec<MarketState>) -> (b: bool)
    ensures
        b == forall|i: int| 0 <= i < ms@.len() ==> (#[trigger] ms@[i]).wf(),
{
    let n = ms.len();
    let mut i: usize = 0;
    while i < n
        invariant
            0 <= i <= n,
            n == ms@.len(),
            forall|j: int| 0 <= j < i ==> (#[trigger] ms@[j]).wf(),
        decreases n - i,
    {
        if !ms[i].wf_check() {
            return false;
        }
        i = i + 1;
    }
    true
}

/// The most recent rows, newest first, at most `k` of them.
pub fn recent_rows(rows: &Vec<LedgerRow>, k: usize) -> (r: Vec<LedgerRow>)
    ensures
        r@.len() == if k <= rows@.len() { k as int } else { rows@.len() as int },
        forall|j: int| 0 <= j < r@.len() ==> r@[j] == rows@[rows@.len() - 1 - j],
{
    let n = rows.len();
    let m = if k <= n {
        k
    } else {
        n
    };
    let mut out: Vec<LedgerRow> = Vec::new();
    let mut i: usize = 0;
    while i < m
        invariant
            0 <= i <= m,
            m <= n,
            n == rows@.len(),
            out@.len() == i,
            forall|j: int| 0 <= j < i ==> out@[j] == rows@[n - 1 - j],
        decreases m - i,
    {
        out.push(rows[n - 1 - i].duplicate());
        i = i + 1;
    }
    out
}

/// The index of the candidate with the strictly largest edge seen
/// first: later candidates only displace it with a strictly greater
/// edge, so ties keep scan order.
pub open spec fn is_best_candidate(cands: Seq<Candidate>, bi: int) -> bool {
    &&& 0 <= bi < cands.len()
    &&& forall|j: int| 0 <= j < cands.len() ==>
        (#[trigger] cands[j]).decision.edge_magnitude <= cands[bi].decision.edge_magnitude
    &&& forall|j: int| 0 <= j < bi ==>
        (#[trigger] cands[j]).decision.edge_magnitude < cands[bi].decision.edge_magnitude
}

/// Select the winning candidate: largest edge, first seen on a tie.
pub fn select_best(cands: &Vec<Candidate>) -> (bi: usize)
    requires
        cands@.len() > 0,
    ensures
        is_best_candidate(cands@, bi as int),
{
    let n = cands.len();
    let mut best: usize = 0;
    let mut i: usize = 1;
    while i < n
        invariant
            0 <= best < i <= n,
            n == cands@.len(),
            forall|j: int| 0 <= j < i ==>
                (#[trigger] cands@[j]).decision.edge_magnitude
                    <= cands@[best as int].decision.edge_magnitude,
            forall|j: int| 0 <= j < best ==>
                (#[trigger] cands@[j]).decision.edge_magnitude
                    < cands@[best as int].decision.edge_magnitude,
        decreases n - i,
    {
        if cands[i].decision.edge_magnitude > cands[best].decision.edge_magnitude {
            best = i;
        }
        i = i + 1;
    }
    best
}

/// The side a buy verdict names, YES when it names none.
pub open spec fn spec_default_side(d: TradeDecision) -> Side {
    match d.side {
        Some(s) => s,
        None => Side::Yes,
    }
}

/// The size a buy verdict names, capped by the configured maximum;
/// one contract when it names none.
pub open spec fn spec_default_shares(d: TradeDecision, max_shares: u32) -> u32 {
    let n = match d.shares {
        Some(n) => n,
        None => 1u32,
    };
    if n > max_shares {
        max_shares
    } else {
        n
    }
}

/// The limit price a buy verdict names, clamped to a quotable price;
/// fifty cents when it names none.
pub open spec fn spec_default_price(d: TradeDecision) -> u32 {
    let p = match d.max_price_cents {
        Some(p) => p,
        None => 50u32,
    };
    if p < 1 {
        1u32
    } else if p > 99 {
        99u32
    } else {
        p
    }
}

/// Build the decision context for one bracket.
fn build_context(
    prompt: &String,
    rows: &Vec<LedgerRow>,
    today_day: u64,
    market: &MarketState,
    orderbook: Orderbook,
    weather: &Option<WeatherSnapshot>,
) -> (ctx: DecisionContext)
    requires
        rows_bounded(rows@),
        market.wf(),
        orderbook.wf(),
        (match *weather {
            Some(w) => w.wf(),
            None => true,
        }),
    ensures
        ctx.prompt_md == prompt,
        ctx.market == *market,
        ctx.orderbook == orderbook,
        ctx.stats == spec_stats(rows@, today_day),
        (match (ctx.weather, *weather) {
            (Some(a), Some(b)) => snapshot_equiv(a, b),
            (None, None) => true,
            _ => false,
        }),
        ctx.wf(),
{
    DecisionContext {
        prompt_md: prompt.clone(),
        stats: stats_compute(rows, today_day),
        last_n_trades: recent_rows(rows, 20),
        market: market.duplicate(),
        orderbook,
        weather: match weather {
            Some(w) => Some(w.duplicate()),
            None => None,
        },
    }
}

/// One human-readable line of the bracket scan table.
fn scan_line(ticker: &String, d: &TradeDecision) -> (line: String)
{
    let edge: i64 = if d.edge_magnitude == i64::MIN {
        -i64::MAX
    } else {
        d.edge_magnitude
    };
    let mut line = ticker.clone();
    line.append(": edge ");
    line.append(fmt_pp_dbps(edge).as_str());
    line.append("pp -> ");
    match d.action {
        Action::Buy => {
            line.append("BUY ");
            line.append(match d.side {
                Some(Side::Yes) => "YES",
                Some(Side::No) => "NO",
                None => "?",
            });
        },
        Action::Pass => {
            line.append("PASS");
        },
    }
    line.append(" | ");
    line.append(d.reasoning.as_str());
    line
}

/// The new pending ledger row for an executed (or paper) order.
fn make_pending_row(
    ticker: &String,
    side: Side,
    shares: u32,
    price: u32,
    now_minutes: u64,
    cumulative_cents: i64,
    order_id: String,
) -> (row: LedgerRow)
    ensures
        row.ticker@ == ticker@,
        row.side == side,
        row.shares == shares,
        row.price == price,
        row.timestamp_minutes == now_minutes,
        row.result == TradeResult::Pending,
        row.pnl_cents == 0,
        row.cumulative_cents == cumulative_cents,
        row.order_id == order_id,
{
    LedgerRow {
        timestamp_minutes: now_minutes,
        ticker: ticker.clone(),
        side,
        shares,
        price,
        result: TradeResult::Pending,
        pnl_cents: 0,
        cumulative_cents,
        order_id,
    }
}

/// A locally generated identifier for a paper execution.
fn paper_order_id(now_minutes: u64) -> (id: String)
    ensures
        id@ == "paper-"@ + crate::fmt::u64_digits(now_minutes as int),
{
    let mut id = "paper-".to_owned();
    id.append(fmt_u64(now_minutes).as_str());
    id
}

/// A non-empty list of well-formed brackets.
pub open spec fn brackets_ok(bs: Seq<MarketState>) -> bool {
    &&& bs.len() > 0
    &&& forall|i: int| 0 <= i < bs.len() ==> (#[trigger] bs[i]).wf()
}

/// The optional shared weather snapshot is well formed when present.
pub open spec fn weather_ok(w: Option<WeatherSnapshot>) -> bool {
    match w {
        Some(s) => s.wf(),
        None => true,
    }
}

/// Every collected candidate points at a scanned bracket.
pub open spec fn cands_ok(cs: Seq<Candidate>, n_brackets: int) -> bool {
    forall|i: int| 0 <= i < cs.len() ==> (#[trigger] cs[i]).index < n_brackets
}

/// The kept brackets of a well-formed market list are well formed.
proof fn lemma_keep_wf(ms: Seq<MarketState>, min_minutes: i64)
    requires
        forall|i: int| 0 <= i < ms.len() ==> (#[trigger] ms[i]).wf(),
    ensures
        forall|i: int| 0 <= i < spec_keep(ms, min_minutes).len() ==>
            (#[trigger] spec_keep(ms, min_minutes)[i]).wf(),
    decreases ms.len(),
{
    if ms.len() > 0 {
        assert(forall|i: int| 0 <= i < ms.drop_first().len() ==>
            #[trigger] ms.drop_first()[i] == ms[i + 1]);
        lemma_keep_wf(ms.drop_first(), min_minutes);
        let rest = spec_keep(ms.drop_first(), min_minutes);
        let kept = spec_keep(ms, min_minutes);
        if ms.first().minutes_to_expiry >= min_minutes {
            assert forall|i: int| 0 <= i < kept.len() implies (#[trigger] kept[i]).wf() by {
                if i == 0 {
                    assert(kept[0] == ms.first());
                    assert(ms[0].wf());
                } else {
                    assert(kept[i] == rest[i - 1]);
                }
            }
        } else {
            assert forall|i: int| 0 <= i < kept.len() implies (#[trigger] kept[i]).wf() by {
                assert(kept[i] == rest[i]);
            }
        }
    }
}

/// The cycle orchestration state machine.
///
/// Construct one per cycle, feed it `CycleEvent::Begin`, perform each
/// returned `CycleAction`, and feed the result back until the action
/// is `Halt`; the end of the cycle then stands in the phase.
pub struct CycleMachine {
    pub config: Config,
    /// The cycle's clock, read once at construction.
    pub now_minutes: u64,
    /// One human-readable line per evaluated bracket.
    pub scan_lines: Vec<String>,
    pub phase: Phase,
}

impl CycleMachine {
    /// The machine's internal consistency, maintained by every step.
    pub open spec fn inv(self) -> bool {
        &&& self.config.wf()
        &&& match self.phase {
            Phase::Reaping { orders, next, .. } => next < orders@.len(),
            Phase::AwaitSettlements { rows } => ledger_wf(rows@) && count_pending(rows@) == 1,
            Phase::AwaitSettlePersist { rows } => ledger_wf(rows@),
            Phase::AwaitBalance { rows } => ledger_wf(rows@),
            Phase::AwaitMarkets { rows } => ledger_wf(rows@),
            Phase::AwaitPositions { rows, brackets } => ledger_wf(rows@) && brackets_ok(
                brackets@,
            ),
            Phase::AwaitWeather { rows, brackets } => ledger_wf(rows@) && brackets_ok(brackets@),
            Phase::AwaitPrompt { rows, brackets, weather } => ledger_wf(rows@) && brackets_ok(
                brackets@,
            ) && weather_ok(weather),
            Phase::AwaitOrderbook { rows, brackets, weather, next, candidates, .. } => ledger_wf(
                rows@,
            ) && brackets_ok(brackets@) && weather_ok(weather) && next < brackets@.len()
                && cands_ok(candidates@, brackets@.len() as int),
            Phase::AwaitDecision { rows, brackets, weather, next, candidates, .. } => ledger_wf(
                rows@,
            ) && brackets_ok(brackets@) && weather_ok(weather) && next < brackets@.len()
                && cands_ok(candidates@, brackets@.len() as int),
            Phase::AwaitRecheck { rows, brackets, candidates, best_index, best } => ledger_wf(
                rows@,
            ) && brackets_ok(brackets@) && is_best_candidate(candidates@, best_index as int)
                && price_ok(best.price_cents),
            Phase::AwaitOrderAck { rows, best } => ledger_wf(rows@) && price_ok(best.price_cents)
                && !self.config.paper_trade,
            Phase::AwaitAppend { paper, .. } => paper == self.config.paper_trade,
            _ => true,
        }
    }

    /// A fresh machine for one cycle.
    pub fn new(config: Config, now_minutes: u64) -> (m: CycleMachine)
        requires
            config.wf(),
        ensures
            m.inv(),
            m.phase is Start,
            m.config == config,
            m.now_minutes == now_minutes,
            m.scan_lines@.len() == 0,
    {
        CycleMachine { config, now_minutes, scan_lines: Vec::new(), phase: Phase::Start }
    }

    /// Advance the cycle by one event, returning the next action.
    ///
    /// The contract carries the cycle's consistency rules:
    /// - a finished cycle stays finished and acts no further;
    /// - with the positions of the dedup step in hand, an open
    ///   position on any bracket of the event ends the cycle at once —
    ///   no evaluation, no order (and the race-guard re-check aborts
    ///   the same way just before execution);
    /// - the risk gate's veto ends the cycle exactly when a configured
    ///   limit is breached;
    /// - the settle step writes at most one settlement, and the ledger
    ///   it leaves behind has no pending row (so a second pass cannot
    ///   write again);
    /// - a pending ledger row is appended for a live trade only in the
    ///   same step that received the exchange's acknowledgement, and it
    ///   carries the acknowledged order id;
    /// - a ledger-append failure after a placed order ends the cycle
    ///   with the distinct critical failure carrying that order id.
    #[verifier::rlimit(100)]
    pub fn step(self, ev: CycleEvent) -> (r: (CycleMachine, CycleAction))
        requires
            self.inv(),
        ensures
            r.0.inv(),
            r.0.config == self.config,
            r.0.now_minutes == self.now_minutes,
            (self.phase matches Phase::Ended { .. } ==> r.0.phase == self.phase && r.1 is Halt),
            // every appended row is freshly pending; a live one answers an
            // acknowledgement and carries the acknowledged order id
            (match r.1 {
                CycleAction::AppendLedger { row } => {
                    &&& row.result == TradeResult::Pending
                    &&& row.pnl_cents == 0
                    &&& row.timestamp_minutes == self.now_minutes
                    &&& if self.config.paper_trade {
                        match (self.phase, ev) {
                            (
                                Phase::AwaitRecheck { rows, brackets, best, .. },
                                CycleEvent::Positions(ps),
                            ) => {
                                &&& !spec_conflict(ps@, brackets@)
                                &&& row.ticker@ == best.ticker@
                                &&& row.side == best.side
                                &&& row.shares == best.shares
                                &&& row.price == best.price_cents
                                &&& row.cumulative_cents == spec_stats(
                                    rows@,
                                    self.now_minutes / 1440,
                                ).total_pnl_cents
                                &&& row.order_id@ == "paper-"@ + crate::fmt::u64_digits(
                                    self.now_minutes as int,
                                )
                            },
                            _ => false,
                        }
                    } else {
                        match (self.phase, ev) {
                            (
                                Phase::AwaitOrderAck { rows, best },
                                CycleEvent::OrderPlaced(res),
                            ) => {
                                &&& row.order_id == res.order_id
                                &&& row.ticker@ == best.ticker@
                                &&& row.side == best.side
                                &&& row.shares == best.shares
                                &&& row.price == best.price_cents
                                &&& row.cumulative_cents == spec_stats(
                                    rows@,
                                    self.now_minutes / 1440,
                                ).total_pnl_cents
                            },
                            _ => false,
                        }
                    }
                },
                _ => true,
            }),
            // execution is forward-only: an order can be requested only on
            // the move from the race-guard re-check into awaiting the
            // acknowledgement, and from there the machine only advances to
            // the ledger append or an end — so one machine requests at
            // most one order placement over its whole run
            (r.1 matches CycleAction::PlaceOrder { .. } ==> (self.phase matches
                Phase::AwaitRecheck { .. } && r.0.phase matches Phase::AwaitOrderAck { .. })),
            (self.phase matches Phase::AwaitOrderAck { .. } ==> (r.0.phase matches
                Phase::AwaitAppend { .. } || r.0.phase matches Phase::Ended { .. })),
            (self.phase matches Phase::AwaitAppend { .. } ==> r.0.phase matches Phase::Ended {
                ..
            }),
            // an order goes out only from the race-guard step, conflict-free,
            // live mode, and exactly as selected
            (match r.1 {
                CycleAction::PlaceOrder { request } => match (self.phase, ev) {
                    (
                        Phase::AwaitRecheck { brackets, best, .. },
                        CycleEvent::Positions(ps),
                    ) => {
                        &&& !spec_conflict(ps@, brackets@)
                        &&& !self.config.paper_trade
                        &&& request.ticker@ == best.ticker@
                        &&& request.side == best.side
                        &&& request.shares == best.shares
                        &&& request.price_cents == best.price_cents
                    },
                    _ => false,
                },
                _ => true,
            }),
            // the cycle starts by reaping resting orders
            (match (self.phase, ev) {
                (Phase::Start, CycleEvent::Begin) => r.1 is FetchRestingOrders
                    && r.0.phase is AwaitResting,
                (Phase::AwaitResting, CycleEvent::RestingOrders(orders)) => if orders@.len()
                    == 0 {
                    r.1 is ReadLedger && r.0.phase is AwaitLedger
                } else {
                    (r.1 matches CycleAction::CancelOrder { order_id } && order_id@ == orders@[
                        0
                    ].order_id@) && (r.0.phase matches Phase::Reaping { orders: o2, next, failed }
                        && o2@ == orders@ && next == 0 && !failed)
                },
                // every order is attempted in turn; a failed cancel is
                // remembered without blocking the rest, and the cycle
                // aborts once every order was attempted
                (Phase::Reaping { orders, next, failed }, CycleEvent::Cancelled) => if next + 1
                    < orders@.len() {
                    (r.1 matches CycleAction::CancelOrder { order_id } && order_id@ == orders@[
                        next + 1
                    ].order_id@) && (r.0.phase matches Phase::Reaping {
                        orders: o2,
                        next: n2,
                        failed: f2,
                    } && o2@ == orders@ && n2 == next + 1 && f2 == failed)
                } else if failed {
                    (r.0.phase matches Phase::Ended {
                        end: CycleEnd::Failed(CycleFailure::CancelFailed),
                    }) && r.1 is Halt
                } else {
                    r.1 is ReadLedger && r.0.phase is AwaitLedger
                },
                (Phase::Reaping { orders, next, .. }, CycleEvent::Failed) => if next + 1
                    < orders@.len() {
                    (r.1 matches CycleAction::CancelOrder { order_id } && order_id@ == orders@[
                        next + 1
                    ].order_id@) && (r.0.phase matches Phase::Reaping {
                        orders: o2,
                        next: n2,
                        failed: f2,
                    } && o2@ == orders@ && n2 == next + 1 && f2)
                } else {
                    (r.0.phase matches Phase::Ended {
                        end: CycleEnd::Failed(CycleFailure::CancelFailed),
                    }) && r.1 is Halt
                },
                _ => true,
            }),
            // the ledger intake: validated, then routed by the pending slot
            (match (self.phase, ev) {
                (Phase::AwaitLedger, CycleEvent::Ledger(rows)) => if !ledger_wf(rows@) {
                    (r.0.phase matches Phase::Ended {
                        end: CycleEnd::Failed(CycleFailure::LedgerInvalid),
                    }) && r.1 is Halt
                } else if count_pending(rows@) == 0 {
                    r.1 is FetchBalance && (r.0.phase matches Phase::AwaitBalance { rows: r2 }
                        && r2@ == rows@)
                } else {
                    (r.1 matches CycleAction::FetchSettlements { ticker } && ticker@ == rows@[
                        last_pending_index(rows@)
                    ].ticker@) && (r.0.phase matches Phase::AwaitSettlements { rows: r2 }
                        && r2@ == rows@)
                },
                (Phase::AwaitSettlePersist { rows }, CycleEvent::SettlePersisted) => r.1
                    is FetchBalance && (r.0.phase matches Phase::AwaitBalance { rows: r2 }
                    && r2@ == rows@),
                _ => true,
            }),
            // the weather intake degrades to a no-weather cycle on failure
            // or on a malformed snapshot, never aborting
            (match (self.phase, ev) {
                (Phase::AwaitWeather { rows, brackets }, CycleEvent::Weather(w)) => r.1
                    is ReadPrompt && (r.0.phase matches Phase::AwaitPrompt {
                    rows: r2,
                    brackets: b2,
                    weather,
                } && r2@ == rows@ && b2@ == brackets@ && (match w {
                    Some(snap) => if snap.wf() {
                        weather == Some(snap)
                    } else {
                        weather is None
                    },
                    None => weather is None,
                })),
                (Phase::AwaitWeather { rows, brackets }, CycleEvent::Failed) => r.1 is ReadPrompt
                    && (r.0.phase matches Phase::AwaitPrompt { rows: r2, brackets: b2, weather }
                    && r2@ == rows@ && b2@ == brackets@ && weather is None),
                (Phase::AwaitPrompt { rows, brackets, weather }, CycleEvent::Prompt(p)) => (r.1
                    matches CycleAction::FetchOrderbook { ticker } && ticker@ == brackets@[
                    0
                ].ticker@) && (r.0.phase matches Phase::AwaitOrderbook {
                    rows: r2,
                    brackets: b2,
                    weather: w2,
                    prompt,
                    next,
                    candidates,
                } && r2@ == rows@ && b2@ == brackets@ && w2 == weather && prompt == p && next == 0
                    && candidates@.len() == 0),
                _ => true,
            }),
            // event-level dedup
            (match (self.phase, ev) {
                (Phase::AwaitPositions { rows, brackets }, CycleEvent::Positions(ps)) => if
                    spec_conflict(ps@, brackets@) {
                    r.0.phase matches Phase::Ended {
                        end: CycleEnd::Done(CycleOutcome::EventConflict),
                    } && r.1 is Halt
                } else {
                    r.1 is FetchWeather && (r.0.phase matches Phase::AwaitWeather {
                        rows: r2,
                        brackets: b2,
                    } && r2@ == rows@ && b2@ == brackets@)
                },
                _ => true,
            }),
            // race guard
            (match (self.phase, ev) {
                (Phase::AwaitRecheck { brackets, .. }, CycleEvent::Positions(ps)) => (
                    spec_conflict(ps@, brackets@) ==> (r.0.phase matches Phase::Ended {
                        end: CycleEnd::Done(CycleOutcome::RaceAborted),
                    } && r.1 is Halt)),
                _ => true,
            }),
            // execution epilogue: append answered, or the critical failure
            (match (self.phase, ev) {
                (Phase::AwaitAppend { order_id, paper }, CycleEvent::Failed) => if paper {
                    r.0.phase matches Phase::Ended {
                        end: CycleEnd::Failed(CycleFailure::StorageFailed),
                    }
                } else {
                    r.0.phase matches Phase::Ended {
                        end: CycleEnd::Failed(CycleFailure::Unrecorded { order_id: oid }),
                    } && oid == order_id
                },
                (Phase::AwaitAppend { order_id, .. }, CycleEvent::Appended) => r.0.phase matches
                    Phase::Ended {
                    end: CycleEnd::Done(CycleOutcome::Traded { order_id: oid }),
                } && oid == order_id,
                (Phase::AwaitOrderAck { .. }, CycleEvent::Failed) => r.0.phase matches
                    Phase::Ended { end: CycleEnd::Failed(CycleFailure::OrderFailed) },
                _ => true,
            }),
            // the risk gate's verdict
            (match (self.phase, ev) {
                (Phase::AwaitBalance { rows }, CycleEvent::Balance(b)) => match spec_risk_veto(
                    spec_stats(rows@, self.now_minutes / 1440),
                    b,
                    self.config,
                ) {
                    Some(veto) => r.0.phase matches Phase::Ended {
                        end: CycleEnd::Done(CycleOutcome::RiskVeto(v2)),
                    } && v2 == veto && r.1 is Halt,
                    None => r.1 is FetchMarkets && (r.0.phase matches Phase::AwaitMarkets {
                        rows: r2,
                    } && r2@ == rows@),
                },
                _ => true,
            }),
            // the settle step
            (match (self.phase, ev) {
                (Phase::AwaitSettlements { rows }, CycleEvent::Settlements(list)) => {
                    let i = last_pending_index(rows@);
                    if list@.len() > 0 {
                        if list@[0].wf() {
                            (r.1 matches CycleAction::PersistSettlement { settlement, stats }
                                && settlement == list@[0] && stats is Some) && (r.0.phase matches
                                Phase::AwaitSettlePersist { rows: r2 } && count_pending(r2@) == 0
                                && r2@.len() == rows@.len())
                        } else {
                            r.0.phase matches Phase::Ended {
                                end: CycleEnd::Failed(CycleFailure::InvalidData),
                            }
                        }
                    } else if self.now_minutes > rows@[i].timestamp_minutes
                        + crate::ledger::STALE_PENDING_MINUTES {
                        (r.1 matches CycleAction::PersistSettlement { settlement, stats }
                            && settlement.result == TradeResult::Unknown
                            && settlement.pnl_cents == 0 && settlement.ticker@ == rows@[i].ticker@
                            && stats is None) && (r.0.phase matches Phase::AwaitSettlePersist {
                            rows: r2,
                        } && count_pending(r2@) == 0 && r2@.len() == rows@.len())
                    } else {
                        r.1 is FetchBalance && (r.0.phase matches Phase::AwaitBalance { rows: r2 }
                            && r2@ == rows@)
                    }
                },
                _ => true,
            }),
            // the market scan
            (match (self.phase, ev) {
                (Phase::AwaitMarkets { rows }, CycleEvent::Markets(ms)) => {
                    let kept = spec_keep(ms@, self.config.min_minutes_to_expiry);
                    if !(forall|i: int| 0 <= i < ms@.len() ==> (#[trigger] ms@[i]).wf()) {
                        r.0.phase matches Phase::Ended {
                            end: CycleEnd::Failed(CycleFailure::InvalidData),
                        }
                    } else if ms@.len() == 0 {
                        r.0.phase matches Phase::Ended {
                            end: CycleEnd::Done(CycleOutcome::NoMarkets),
                        }
                    } else if kept.len() == 0 {
                        r.0.phase matches Phase::Ended {
                            end: CycleEnd::Done(CycleOutcome::TooCloseToExpiry),
                        }
                    } else {
                        r.1 is FetchPositions && (r.0.phase matches Phase::AwaitPositions {
                            rows: r2,
                            brackets,
                        } && r2@ == rows@ && brackets@ == kept)
                    }
                },
                _ => true,
            }),
            // a decision request carries exactly the bracket under scan
            (match r.1 {
                CycleAction::Decide { ctx } => match self.phase {
                    Phase::AwaitOrderbook { rows, brackets, weather, prompt, next, .. } => {
                        &&& ctx.market == brackets@[next as int]
                        &&& ctx.prompt_md == prompt
                        &&& ctx.stats == spec_stats(rows@, self.now_minutes / 1440)
                        &&& (ev matches CycleEvent::OrderbookFor(ob) && ctx.orderbook == ob)
                        &&& (match (ctx.weather, weather) {
                            (Some(a), Some(b)) => snapshot_equiv(a, b),
                            (None, None) => true,
                            _ => false,
                        })
                        &&& ctx.wf()
                    },
                    _ => false,
                },
                _ => true,
            }),
            // the scan and selection
            (match (self.phase, ev) {
                (
                    Phase::AwaitDecision { brackets, next, candidates, .. },
                    CycleEvent::Decision(d),
                ) => {
                    let cands2 = if d.action == Action::Buy {
                        candidates@.push(Candidate { index: next, decision: d })
                    } else {
                        candidates@
                    };
                    if next + 1 < brackets@.len() {
                        (r.1 matches CycleAction::FetchOrderbook { ticker } && ticker@ == brackets@[
                            next + 1
                        ].ticker@) && (r.0.phase matches Phase::AwaitOrderbook {
                            next: n2,
                            candidates: c2,
                            ..
                        } && n2 == next + 1 && c2@ == cands2)
                    } else if cands2.len() == 0 {
                        r.0.phase matches Phase::Ended {
                            end: CycleEnd::Done(CycleOutcome::NoCandidates),
                        } && r.1 is Halt
                    } else {
                        r.1 is FetchPositions && (r.0.phase matches Phase::AwaitRecheck {
                            candidates: c2,
                            ..
                        } && c2@ == cands2)
                    }
                },
                _ => true,
            }),
            // whenever a trade stands selected, it is the first-seen
            // largest-edge candidate, defaulted and capped
            (match r.0.phase {
                Phase::AwaitRecheck { brackets, candidates, best_index, best, .. } => {
                    &&& is_best_candidate(candidates@, best_index as int)
                    &&& best.index == candidates@[best_index as int].index
                    &&& best.index < brackets@.len()
                    &&& best.ticker@ == brackets@[best.index as int].ticker@
                    &&& best.side == spec_default_side(candidates@[best_index as int].decision)
                    &&& best.shares == spec_default_shares(
                        candidates@[best_index as int].decision,
                        self.config.max_shares,
                    )
                    &&& best.price_cents == spec_default_price(
                        candidates@[best_index as int].decision,
                    )
                    &&& best.edge == candidates@[best_index as int].decision.edge_magnitude
                },
                _ => true,
            }),
    {
        let CycleMachine { config, now_minutes, mut scan_lines, phase } = self;
        let today: u64 = now_minutes / 1440;
        match (phase, ev) {
            (Phase::Ended { end }, _) => (
                CycleMachine { config, now_minutes, scan_lines, phase: Phase::Ended { end } },
                CycleAction::Halt,
            ),
            (Phase::Start, CycleEvent::Begin) => (
                CycleMachine { config, now_minutes, scan_lines, phase: Phase::AwaitResting },
                CycleAction::FetchRestingOrders,
            ),
            (Phase::AwaitResting, CycleEvent::RestingOrders(orders)) => {
                if orders.len() == 0 {
                    (
                        CycleMachine { config, now_minutes, scan_lines, phase: Phase::AwaitLedger },
                        CycleAction::ReadLedger,
                    )
                } else {
                    let id = orders[0].order_id.clone();
                    (
                        CycleMachine {
                            config,
                            now_minutes,
                            scan_lines,
                            phase: Phase::Reaping { orders, next: 0, failed: false },
                        },
                        CycleAction::CancelOrder { order_id: id },
                    )
                }
            },
            (Phase::AwaitResting, CycleEvent::Failed) => finish(
                config,
                now_minutes,
                scan_lines,
                CycleEnd::Failed(CycleFailure::FetchFailed),
            ),
            (Phase::Reaping { orders, next, failed }, CycleEvent::Cancelled) => {
                let n_orders = orders.len();
                if next + 1 < n_orders {
                    let id = orders[next + 1].order_id.clone();
                    (
                        CycleMachine {
                            config,
                            now_minutes,
                            scan_lines,
                            phase: Phase::Reaping { orders, next: next + 1, failed },
                        },
                        CycleAction::CancelOrder { order_id: id },
                    )
                } else if failed {
                    finish(
                        config,
                        now_minutes,
                        scan_lines,
                        CycleEnd::Failed(CycleFailure::CancelFailed),
                    )
                } else {
                    (
                        CycleMachine { config, now_minutes, scan_lines, phase: Phase::AwaitLedger },
                        CycleAction::ReadLedger,
                    )
                }
            },
            (Phase::Reaping { orders, next, failed: _ }, CycleEvent::Failed) => {
                // one failed cancel does not block reaping the others;
                // the cycle still aborts once every order was attempted
                let n_orders = orders.len();
                if next + 1 < n_orders {
                    let id = orders[next + 1].order_id.clone();
                    (
                        CycleMachine {
                            config,
                            now_minutes,
                            scan_lines,
                            phase: Phase::Reaping { orders, next: next + 1, failed: true },
                        },
                        CycleAction::CancelOrder { order_id: id },
                    )
                } else {
                    finish(
                        config,
                        now_minutes,
                        scan_lines,
                        CycleEnd::Failed(CycleFailure::CancelFailed),
                    )
                }
            },
            (Phase::AwaitLedger, CycleEvent::Ledger(rows)) => {
                if !ledger_acceptable(&rows) {
                    finish(
                        config,
                        now_minutes,
                        scan_lines,
                        CycleEnd::Failed(CycleFailure::LedgerInvalid),
                    )
                } else {
                    match find_last_pending(&rows) {
                        None => (
                            CycleMachine {
                                config,
                                now_minutes,
                                scan_lines,
                                phase: Phase::AwaitBalance { rows },
                            },
                            CycleAction::FetchBalance,
                        ),
                        Some(i) => {
                            proof {
                                crate::ledger::lemma_pending_index(rows@);
                            }
                            let t = rows[i].ticker.clone();
                            (
                                CycleMachine {
                                    config,
                                    now_minutes,
                                    scan_lines,
                                    phase: Phase::AwaitSettlements { rows },
                                },
                                CycleAction::FetchSettlements { ticker: t },
                            )
                        },
                    }
                }
            },
            (Phase::AwaitLedger, CycleEvent::Failed) => finish(
                config,
                now_minutes,
                scan_lines,
                CycleEnd::Failed(CycleFailure::StorageFailed),
            ),
            (Phase::AwaitSettlements { rows }, CycleEvent::Settlements(list)) => {
                match settle_step(&rows, list, now_minutes) {
                    SettleOutcome::NoPending => (
                        CycleMachine {
                            config,
                            now_minutes,
                            scan_lines,
                            phase: Phase::AwaitBalance { rows },
                        },
                        CycleAction::FetchBalance,
                    ),
                    SettleOutcome::Settle(s) => {
                        if !s.wf_check() {
                            finish(
                                config,
                                now_minutes,
                                scan_lines,
                                CycleEnd::Failed(CycleFailure::InvalidData),
                            )
                        } else {
                            let mut rows = rows;
                            apply_settlement(&mut rows, &s);
                            let st = stats_compute(&rows, today);
                            (
                                CycleMachine {
                                    config,
                                    now_minutes,
                                    scan_lines,
                                    phase: Phase::AwaitSettlePersist { rows },
                                },
                                CycleAction::PersistSettlement {
                                    settlement: s,
                                    stats: Some(st),
                                },
                            )
                        }
                    },
                    SettleOutcome::Zombie(z) => {
                        let mut rows = rows;
                        apply_settlement(&mut rows, &z);
                        (
                            CycleMachine {
                                config,
                                now_minutes,
                                scan_lines,
                                phase: Phase::AwaitSettlePersist { rows },
                            },
                            CycleAction::PersistSettlement { settlement: z, stats: None },
                        )
                    },
                    SettleOutcome::Leave => (
                        CycleMachine {
                            config,
                            now_minutes,
                            scan_lines,
                            phase: Phase::AwaitBalance { rows },
                        },
                        CycleAction::FetchBalance,
                    ),
                }
            },
            (Phase::AwaitSettlements { .. }, CycleEvent::Failed) => finish(
                config,
                now_minutes,
                scan_lines,
                CycleEnd::Failed(CycleFailure::FetchFailed),
            ),
            (Phase::AwaitSettlePersist { rows }, CycleEvent::SettlePersisted) => (
                CycleMachine {
                    config,
                    now_minutes,
                    scan_lines,
                    phase: Phase::AwaitBalance { rows },
                },
                CycleAction::FetchBalance,
            ),
            (Phase::AwaitSettlePersist { .. }, CycleEvent::Failed) => finish(
                config,
                now_minutes,
                scan_lines,
                CycleEnd::Failed(CycleFailure::StorageFailed),
            ),
            (Phase::AwaitBalance { rows }, CycleEvent::Balance(b)) => {
                let st = stats_compute(&rows, today);
                match risk_check(&st, b, &config) {
                    Some(v) => finish(
                        config,
                        now_minutes,
                        scan_lines,
                        CycleEnd::Done(CycleOutcome::RiskVeto(v)),
                    ),
                    None => (
                        CycleMachine {
                            config,
                            now_minutes,
                            scan_lines,
                            phase: Phase::AwaitMarkets { rows },
                        },
                        CycleAction::FetchMarkets,
                    ),
                }
            },
            (Phase::AwaitBalance { .. }, CycleEvent::Failed) => finish(
                config,
                now_minutes,
                scan_lines,
                CycleEnd::Failed(CycleFailure::FetchFailed),
            ),
            (Phase::AwaitMarkets { rows }, CycleEvent::Markets(ms)) => {
                if !markets_all_wf(&ms) {
                    finish(
                        config,
                        now_minutes,
                        scan_lines,
                        CycleEnd::Failed(CycleFailure::InvalidData),
                    )
                } else if ms.len() == 0 {
                    finish(
                        config,
                        now_minutes,
                        scan_lines,
                        CycleEnd::Done(CycleOutcome::NoMarkets),
                    )
                } else {
                    proof {
                        lemma_keep_wf(ms@, config.min_minutes_to_expiry);
                    }
                    let brackets = filter_brackets(ms, config.min_minutes_to_expiry);
                    if brackets.len() == 0 {
                        finish(
                            config,
                            now_minutes,
                            scan_lines,
                            CycleEnd::Done(CycleOutcome::TooCloseToExpiry),
                        )
                    } else {
                        (
                            CycleMachine {
                                config,
                                now_minutes,
                                scan_lines,
                                phase: Phase::AwaitPositions { rows, brackets },
                            },
                            CycleAction::FetchPositions,
                        )
                    }
                }
            },
            (Phase::AwaitMarkets { .. }, CycleEvent::Failed) => finish(
                config,
                now_minutes,
                scan_lines,
                CycleEnd::Failed(CycleFailure::FetchFailed),
            ),
            (Phase::AwaitPositions { rows, brackets }, CycleEvent::Positions(ps)) => {
                if conflict_exists(&ps, &brackets) {
                    finish(
                        config,
                        now_minutes,
                        scan_lines,
                        CycleEnd::Done(CycleOutcome::EventConflict),
                    )
                } else {
                    (
                        CycleMachine {
                            config,
                            now_minutes,
                            scan_lines,
                            phase: Phase::AwaitWeather { rows, brackets },
                        },
                        CycleAction::FetchWeather,
                    )
                }
            },
            (Phase::AwaitPositions { .. }, CycleEvent::Failed) => finish(
                config,
                now_minutes,
                scan_lines,
                CycleEnd::Failed(CycleFailure::FetchFailed),
            ),
            (Phase::AwaitWeather { rows, brackets }, CycleEvent::Weather(w)) => {
                let w2 = match w {
                    Some(s) => if s.wf_check() {
                        Some(s)
                    } else {
                        None
                    },
                    None => None,
                };
                (
                    CycleMachine {
                        config,
                        now_minutes,
                        scan_lines,
                        phase: Phase::AwaitPrompt { rows, brackets, weather: w2 },
                    },
                    CycleAction::ReadPrompt,
                )
            },
            (Phase::AwaitWeather { rows, brackets }, CycleEvent::Failed) => (
                CycleMachine {
                    config,
                    now_minutes,
                    scan_lines,
                    phase: Phase::AwaitPrompt { rows, brackets, weather: None },
                },
                CycleAction::ReadPrompt,
            ),
            (Phase::AwaitPrompt { rows, brackets, weather }, CycleEvent::Prompt(p)) => {
                let t = brackets[0].ticker.clone();
                (
                    CycleMachine {
                        config,
                        now_minutes,
                        scan_lines,
                        phase: Phase::AwaitOrderbook {
                            rows,
                            brackets,
                            weather,
                            prompt: p,
                            next: 0,
                            candidates: Vec::new(),
                        },
                    },
                    CycleAction::FetchOrderbook { ticker: t },
                )
            },
            (Phase::AwaitPrompt { .. }, CycleEvent::Failed) => finish(
                config,
                now_minutes,
                scan_lines,
                CycleEnd::Failed(CycleFailure::StorageFailed),
            ),
            (
                Phase::AwaitOrderbook { rows, brackets, weather, prompt, next, candidates },
                CycleEvent::OrderbookFor(ob),
            ) => {
                if !ob.wf_check() {
                    finish(
                        config,
                        now_minutes,
                        scan_lines,
                        CycleEnd::Failed(CycleFailure::InvalidData),
                    )
                } else {
                    let ctx = build_context(&prompt, &rows, today, &brackets[next], ob, &weather);
                    (
                        CycleMachine {
                            config,
                            now_minutes,
                            scan_lines,
                            phase: Phase::AwaitDecision {
                                rows,
                                brackets,
                                weather,
                                prompt,
                                next,
                                candidates,
                            },
                        },
                        CycleAction::Decide { ctx },
                    )
                }
            },
            (Phase::AwaitOrderbook { .. }, CycleEvent::Failed) => finish(
                config,
                now_minutes,
                scan_lines,
                CycleEnd::Failed(CycleFailure::FetchFailed),
            ),
            (
                Phase::AwaitDecision { rows, brackets, weather, prompt, next, candidates },
                CycleEvent::Decision(d),
            ) => {
                let n_brackets = brackets.len();
                let line = scan_line(&brackets[next].ticker, &d);
                scan_lines.push(line);
                let mut candidates = candidates;
                if matches!(d.action, Action::Buy) {
                    candidates.push(Candidate { index: next, decision: d });
                }
                if next + 1 < n_brackets {
                    let t = brackets[next + 1].ticker.clone();
                    (
                        CycleMachine {
                            config,
                            now_minutes,
                            scan_lines,
                            phase: Phase::AwaitOrderbook {
                                rows,
                                brackets,
                                weather,
                                prompt,
                                next: next + 1,
                                candidates,
                            },
                        },
                        CycleAction::FetchOrderbook { ticker: t },
                    )
                } else if candidates.len() == 0 {
                    finish(
                        config,
                        now_minutes,
                        scan_lines,
                        CycleEnd::Done(CycleOutcome::NoCandidates),
                    )
                } else {
                    let bi = select_best(&candidates);
                    let cd = &candidates[bi];
                    let side = match cd.decision.side {
                        Some(s) => s,
                        None => Side::Yes,
                    };
                    let sh0 = match cd.decision.shares {
                        Some(n) => n,
                        None => 1,
                    };
                    let shares = if sh0 > config.max_shares {
                        config.max_shares
                    } else {
                        sh0
                    };
                    let p0 = match cd.decision.max_price_cents {
                        Some(p) => p,
                        None => 50,
                    };
                    let price = if p0 < 1 {
                        1
                    } else if p0 > 99 {
                        99
                    } else {
                        p0
                    };
                    let best = ChosenTrade {
                        index: cd.index,
                        ticker: brackets[cd.index].ticker.clone(),
                        side,
                        shares,
                        price_cents: price,
                        edge: cd.decision.edge_magnitude,
                    };
                    (
                        CycleMachine {
                            config,
                            now_minutes,
                            scan_lines,
                            phase: Phase::AwaitRecheck {
                                rows,
                                brackets,
                                candidates,
                                best_index: bi,
                                best,
                            },
                        },
                        CycleAction::FetchPositions,
                    )
                }
            },
            (Phase::AwaitDecision { .. }, CycleEvent::Failed) => finish(
                config,
                now_minutes,
                scan_lines,
                CycleEnd::Failed(CycleFailure::FetchFailed),
            ),
            (
                Phase::AwaitRecheck { rows, brackets, candidates, best_index, best },
                CycleEvent::Positions(ps),
            ) => {
                if conflict_exists(&ps, &brackets) {
                    finish(
                        config,
                        now_minutes,
                        scan_lines,
                        CycleEnd::Done(CycleOutcome::RaceAborted),
                    )
                } else if config.paper_trade {
                    let st = stats_compute(&rows, today);
                    let oid = paper_order_id(now_minutes);
                    let row = make_pending_row(
                        &best.ticker,
                        best.side,
                        best.shares,
                        best.price_cents,
                        now_minutes,
                        st.total_pnl_cents,
                        oid.clone(),
                    );
                    (
                        CycleMachine {
                            config,
                            now_minutes,
                            scan_lines,
                            phase: Phase::AwaitAppend { order_id: oid, paper: true },
                        },
                        CycleAction::AppendLedger { row },
                    )
                } else {
                    let req = OrderRequest {
                        ticker: best.ticker.clone(),
                        side: best.side,
                        shares: best.shares,
                        price_cents: best.price_cents,
                    };
                    (
                        CycleMachine {
                            config,
                            now_minutes,
                            scan_lines,
                            phase: Phase::AwaitOrderAck { rows, best },
                        },
                        CycleAction::PlaceOrder { request: req },
                    )
                }
            },
            (Phase::AwaitRecheck { .. }, CycleEvent::Failed) => finish(
                config,
                now_minutes,
                scan_lines,
                CycleEnd::Failed(CycleFailure::FetchFailed),
            ),
            (Phase::AwaitOrderAck { rows, best }, CycleEvent::OrderPlaced(res)) => {
                let st = stats_compute(&rows, today);
                let row = make_pending_row(
                    &best.ticker,
                    best.side,
                    best.shares,
                    best.price_cents,
                    now_minutes,
                    st.total_pnl_cents,
                    res.order_id.clone(),
                );
                (
                    CycleMachine {
                        config,
                        now_minutes,
                        scan_lines,
                        phase: Phase::AwaitAppend { order_id: res.order_id, paper: false },
                    },
                    CycleAction::AppendLedger { row },
                )
            },
            (Phase::AwaitOrderAck { .. }, CycleEvent::Failed) => finish(
                config,
                now_minutes,
                scan_lines,
                CycleEnd::Failed(CycleFailure::OrderFailed),
            ),
            (Phase::AwaitAppend { order_id, .. }, CycleEvent::Appended) => finish(
                config,
                now_minutes,
                scan_lines,
                CycleEnd::Done(CycleOutcome::Traded { order_id }),
            ),
            (Phase::AwaitAppend { order_id, paper }, CycleEvent::Failed) => {
                if paper {
                    finish(
                        config,
                        now_minutes,
                        scan_lines,
                        CycleEnd::Failed(CycleFailure::StorageFailed),
                    )
                } else {
                    finish(
                        config,
                        now_minutes,
                        scan_lines,
                        CycleEnd::Failed(CycleFailure::Unrecorded { order_id }),
                    )
                }
            },
            (_, _) => finish(
                config,
                now_minutes,
                scan_lines,
                CycleEnd::Failed(CycleFailure::UnexpectedEvent),
            ),
        }
    }
}

/// End the cycle: the machine parks in `Ended` and asks for nothing more.
fn finish(config: Config, now_minutes: u64, scan_lines: Vec<String>, end: CycleEnd) -> (r: (
    CycleMachine,
    CycleAction,
))
    requires
        config.wf(),
    ensures
        r.0 == (CycleMachine { config, now_minutes, scan_lines, phase: Phase::Ended { end } }),
        r.1 is Halt,
        r.0.inv(),
{
    (
        CycleMachine { config, now_minutes, scan_lines, phase: Phase::Ended { end } },
        CycleAction::Halt,
    )
}

} // verus!
