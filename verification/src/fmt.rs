//! Plain-text rendering of the core's fixed-point quantities and
//! records, for rationale strings, scan lines and the delegate prompt.
//!
//! Each renderer's contract states the exact character sequence it
//! produces, via a spec-level mirror of the construction.

use vstd::prelude::*;
use vstd::string::StringExecFns;
use crate::types::{
    EnsembleForecast, LedgerRow, MarketState, Side, Stats, TradeResult, WeatherSnapshot,
};

verus! {

/// The decimal digit character for a value below ten.
pub open spec fn digit_char(d: int) -> char {
    if d == 0 {
        '0'
    } else if d == 1 {
        '1'
    } else if d == 2 {
        '2'
    } else if d == 3 {
        '3'
    } else if d == 4 {
        '4'
    } else if d == 5 {
        '5'
    } else if d == 6 {
        '6'
    } else if d == 7 {
        '7'
    } else if d == 8 {
        '8'
    } else {
        '9'
    }
}

/// Decimal digits of a non-negative number, most significant first.
pub open spec fn u64_digits(n: int) -> Seq<char>
    decreases n,
{
    if n < 10 {
        seq![digit_char(n)]
    } else {
        u64_digits(n / 10).push(digit_char(n % 10))
    }
}

/// Decimal rendering of a signed number.
pub open spec fn i64_digits(v: int) -> Seq<char> {
    if v >= 0 {
        u64_digits(v)
    } else {
        seq!['-'] + u64_digits(-v)
    }
}

fn digit_str(d: u64) -> (s: &'static str)
    requires
        d < 10,
    ensures
        s@ == seq![digit_char(d as int)],
{
    proof {
        reveal_strlit("0");
        reveal_strlit("1");
        reveal_strlit("2");
        reveal_strlit("3");
        reveal_strlit("4");
        reveal_strlit("5");
        reveal_strlit("6");
        reveal_strlit("7");
        reveal_strlit("8");
        reveal_strlit("9");
    }
    let s = match d {
        0 => "0",
        1 => "1",
        2 => "2",
        3 => "3",
        4 => "4",
        5 => "5",
        6 => "6",
        7 => "7",
        8 => "8",
        _ => "9",
    };
    proof {
        assert(s@ =~= seq![digit_char(d as int)]);
    }
    s
}

/// Render an unsigned number in decimal.
pub fn fmt_u64(n: u64) -> (s: String)
    ensures
        s@ == u64_digits(n as int),
    decreases n,
{
    if n < 10 {
        digit_str(n).to_owned()
    } else {
        let mut s = fmt_u64(n / 10);
        s.append(digit_str(n % 10));
        proof {
            assert(s@ =~= u64_digits(n as int / 10).push(digit_char(n as int % 10)));
        }
        s
    }
}

/// Render a signed number in decimal.
pub fn fmt_i64(v: i64) -> (s: String)
    requires
        v != i64::MIN,
    ensures
        s@ == i64_digits(v as int),
{
    if v >= 0 {
        fmt_u64(v as u64)
    } else {
        proof {
            reveal_strlit("-");
        }
        let mut s = "-".to_owned();
        let rest = fmt_u64((-v) as u64);
        s.append(rest.as_str());
        proof {
            assert(s@ =~= i64_digits(v as int));
        }
        s
    }
}

/// Rendering of a quantity in tenths: whole part, point, one decimal.
pub open spec fn tenths_chars(t: int) -> Seq<char> {
    let sign: Seq<char> = if t < 0 {
        seq!['-']
    } else {
        Seq::empty()
    };
    let m = if t < 0 {
        -t
    } else {
        t
    };
    sign + u64_digits(m / 10) + seq!['.', digit_char(m % 10)]
}

/// Render a quantity given in tenths (a temperature in tenths of °F)
/// with one decimal place.
pub fn fmt_tenths(t: i64) -> (s: String)
    requires
        t != i64::MIN,
    ensures
        s@ == tenths_chars(t as int),
{
    proof {
        reveal_strlit("-");
        reveal_strlit(".");
    }
    let mut s = if t < 0 {
        "-".to_owned()
    } else {
        "".to_owned()
    };
    let m: u64 = if t < 0 {
        (-t) as u64
    } else {
        t as u64
    };
    let whole = fmt_u64(m / 10);
    s.append(whole.as_str());
    s.append(".");
    s.append(digit_str(m % 10));
    proof {
        reveal_strlit("");
        assert(s@ =~= tenths_chars(t as int));
    }
    s
}

/// Rendering of a probability in basis points as a percentage with one
/// decimal place.
pub open spec fn pct_chars(bps: int) -> Seq<char> {
    u64_digits(bps / 100) + seq!['.', digit_char(bps % 100 / 10)]
}

/// Render a probability in basis points as a percentage with one
/// decimal place (`6321` becomes `63.2`).
pub fn fmt_pct_bps(bps: i64) -> (s: String)
    requires
        0 <= bps <= 10000,
    ensures
        s@ == pct_chars(bps as int),
{
    proof {
        reveal_strlit(".");
    }
    let mut s = fmt_u64((bps / 100) as u64);
    s.append(".");
    s.append(digit_str((bps % 100 / 10) as u64));
    proof {
        assert(s@ =~= pct_chars(bps as int));
    }
    s
}

/// Rendering of an edge in tenths of a basis point as percentage
/// points with one decimal place.
pub open spec fn pp_chars(dbps: int) -> Seq<char> {
    let sign: Seq<char> = if dbps < 0 {
        seq!['-']
    } else {
        Seq::empty()
    };
    let m = if dbps < 0 {
        -dbps
    } else {
        dbps
    };
    sign + u64_digits(m / 1000) + seq!['.', digit_char(m % 1000 / 100)]
}

/// Render an edge in tenths of a basis point as percentage points with
/// one decimal place (`17200` becomes `17.2`).
pub fn fmt_pp_dbps(dbps: i64) -> (s: String)
    requires
        dbps != i64::MIN,
    ensures
        s@ == pp_chars(dbps as int),
{
    proof {
        reveal_strlit("-");
        reveal_strlit(".");
        reveal_strlit("");
    }
    let mut s = if dbps < 0 {
        "-".to_owned()
    } else {
        "".to_owned()
    };
    let m: u64 = if dbps < 0 {
        (-dbps) as u64
    } else {
        dbps as u64
    };
    let whole = fmt_u64(m / 1000);
    s.append(whole.as_str());
    s.append(".");
    s.append(digit_str(m % 1000 / 100));
    proof {
        assert(s@ =~= pp_chars(dbps as int));
    }
    s
}

/// Lower-case name of a side.
pub open spec fn side_chars(s: Side) -> Seq<char> {
    match s {
        Side::Yes => "yes"@,
        Side::No => "no"@,
    }
}

/// Lower-case name of a trade result.
pub open spec fn result_chars(r: TradeResult) -> Seq<char> {
    match r {
        TradeResult::Pending => "pending"@,
        TradeResult::Win => "win"@,
        TradeResult::Loss => "loss"@,
        TradeResult::Cancelled => "cancelled"@,
        TradeResult::Unknown => "unknown"@,
    }
}

fn side_str(s: Side) -> (r: &'static str)
    ensures
        r@ == side_chars(s),
{
    proof {
        reveal_strlit("yes");
        reveal_strlit("no");
    }
    match s {
        Side::Yes => "yes",
        Side::No => "no",
    }
}

fn result_str(r: TradeResult) -> (out: &'static str)
    ensures
        out@ == result_chars(r),
{
    proof {
        reveal_strlit("pending");
        reveal_strlit("win");
        reveal_strlit("loss");
        reveal_strlit("cancelled");
        reveal_strlit("unknown");
    }
    match r {
        TradeResult::Pending => "pending",
        TradeResult::Win => "win",
        TradeResult::Loss => "loss",
        TradeResult::Cancelled => "cancelled",
        TradeResult::Unknown => "unknown",
    }
}

/// One rendered ledger row.
pub open spec fn row_chars(r: LedgerRow) -> Seq<char> {
    u64_digits(r.timestamp_minutes as int) + " | "@ + r.ticker@ + " | "@ + side_chars(r.side)
        + " | "@ + u64_digits(r.shares as int) + "x @ "@ + u64_digits(r.price as int) + "c | "@
        + result_chars(r.result) + " | "@ + i64_digits(r.pnl_cents as int) + "c"@
}

/// The rendered rows from index `i` on, one line each.
pub open spec fn ledger_lines(rows: Seq<LedgerRow>, i: int) -> Seq<char>
    decreases rows.len() - i,
{
    if i < 0 || i >= rows.len() {
        Seq::empty()
    } else if i == 0 {
        row_chars(rows[0]) + ledger_lines(rows, 1)
    } else {
        seq!['\n'] + row_chars(rows[i]) + ledger_lines(rows, i + 1)
    }
}

/// The rendered recent-trades table.
pub open spec fn spec_format_ledger(rows: Seq<LedgerRow>) -> Seq<char> {
    if rows.len() == 0 {
        "No trades yet."@
    } else {
        ledger_lines(rows, 0)
    }
}

/// Render one ledger row as one line.
fn format_row(row: &LedgerRow) -> (s: String)
    requires
        row.pnl_cents != i64::MIN,
    ensures
        s@ == row_chars(*row),
{
    proof {
        reveal_strlit(" | ");
        reveal_strlit("x @ ");
        reveal_strlit("c | ");
        reveal_strlit("c");
    }
    let mut s = fmt_u64(row.timestamp_minutes);
    s.append(" | ");
    s.append(row.ticker.as_str());
    s.append(" | ");
    s.append(side_str(row.side));
    s.append(" | ");
    s.append(fmt_u64(row.shares as u64).as_str());
    s.append("x @ ");
    s.append(fmt_u64(row.price as u64).as_str());
    s.append("c | ");
    s.append(result_str(row.result));
    s.append(" | ");
    s.append(fmt_i64(row.pnl_cents).as_str());
    s.append("c");
    proof {
        assert(s@ =~= row_chars(*row));
    }
    s
}

/// Render the recent trades, one line per row, newest ordering as given.
pub fn format_ledger(trades: &Vec<LedgerRow>) -> (s: String)
    requires
        forall|i: int| 0 <= i < trades@.len() ==> (#[trigger] trades@[i]).pnl_cents
            != i64::MIN,
    ensures
        s@ == spec_format_ledger(trades@),
{
    proof {
        reveal_strlit("No trades yet.");
        reveal_strlit("\n");
    }
    let n = trades.len();
    if n == 0 {
        return "No trades yet.".to_owned();
    }
    let mut s = String::new();
    let mut i: usize = 0;
    while i < n
        invariant
            0 <= i <= n,
            n == trades@.len(),
            forall|j: int| 0 <= j < n ==> (#[trigger] trades@[j]).pnl_cents != i64::MIN,
            s@ + ledger_lines(trades@, i as int) == ledger_lines(trades@, 0),
        decreases n - i,
    {
        proof {
            reveal_strlit("\n");
        }
        let ghost pre = s@;
        let line = format_row(&trades[i]);
        if i > 0 {
            s.append("\n");
        }
        s.append(line.as_str());
        proof {
            if i == 0 {
                assert(s@ =~= pre + row_chars(trades@[i as int]));
            } else {
                assert(s@ =~= pre + (seq!['\n'] + row_chars(trades@[i as int])));
            }
            assert(s@ + ledger_lines(trades@, i + 1) =~= ledger_lines(trades@, 0));
        }
        i = i + 1;
    }
    s
}

/// One rendered orderbook level.
pub open spec fn level_chars(l: (u32, u32)) -> Seq<char> {
    u64_digits(l.0 as int) + "c x"@ + u64_digits(l.1 as int)
}

/// The rendered levels from index `i` on (at most the first five).
pub open spec fn level_list_chars(levels: Seq<(u32, u32)>, i: int) -> Seq<char>
    decreases levels.len() - i,
{
    if i < 0 || i >= levels.len() || i >= 5 {
        Seq::empty()
    } else if i == 0 {
        level_chars(levels[0]) + level_list_chars(levels, 1)
    } else {
        ", "@ + level_chars(levels[i]) + level_list_chars(levels, i + 1)
    }
}

/// The rendered top of one orderbook side.
pub open spec fn spec_format_ob_side(levels: Seq<(u32, u32)>) -> Seq<char> {
    if levels.len() == 0 {
        "empty"@
    } else {
        level_list_chars(levels, 0)
    }
}

/// Render the top five levels of one orderbook side.
pub fn format_ob_side(levels: &Vec<(u32, u32)>) -> (s: String)
    ensures
        s@ == spec_format_ob_side(levels@),
{
    proof {
        reveal_strlit("empty");
        reveal_strlit("c x");
        reveal_strlit(", ");
    }
    let n = levels.len();
    if n == 0 {
        return "empty".to_owned();
    }
    let stop = if n < 5 {
        n
    } else {
        5
    };
    let mut s = String::new();
    let mut i: usize = 0;
    while i < stop
        invariant
            0 <= i <= stop,
            stop == if n < 5 { n as int } else { 5int },
            n == levels@.len(),
            s@ + level_list_chars(levels@, i as int) == level_list_chars(levels@, 0),
        decreases stop - i,
    {
        proof {
            reveal_strlit("c x");
            reveal_strlit(", ");
        }
        let ghost pre = s@;
        let (p, q) = levels[i];
        if i > 0 {
            s.append(", ");
        }
        s.append(fmt_u64(p as u64).as_str());
        s.append("c x");
        s.append(fmt_u64(q as u64).as_str());
        proof {
            if i == 0 {
                assert(s@ =~= pre + level_chars(levels@[i as int]));
            } else {
                assert(s@ =~= pre + (", "@ + level_chars(levels@[i as int])));
            }
            assert(s@ + level_list_chars(levels@, i + 1) =~= level_list_chars(levels@, 0));
        }
        i = i + 1;
    }
    s
}

/// The rendered statistics line.
pub open spec fn spec_format_stats(s: Stats) -> Seq<char> {
    "Trades: "@ + u64_digits(s.total_trades as int) + " | W/L: "@ + u64_digits(s.wins as int)
        + "/"@ + u64_digits(s.losses as int) + " | Win rate: "@ + pct_chars(s.win_rate_bps as int)
        + "% | P&L: "@ + i64_digits(s.total_pnl_cents as int) + "c | Today: "@ + i64_digits(
        s.today_pnl_cents as int,
    ) + "c | Streak: "@ + i64_digits(s.current_streak as int) + " | Drawdown: "@ + i64_digits(
        s.max_drawdown_cents as int,
    ) + "c"@
}

/// Render the rolling statistics as one line.
pub fn format_stats(s: &Stats) -> (r: String)
    requires
        s.win_rate_bps <= 10000,
        s.total_pnl_cents != i64::MIN,
        s.today_pnl_cents != i64::MIN,
        s.current_streak != i32::MIN,
        s.max_drawdown_cents != i64::MIN,
    ensures
        r@ == spec_format_stats(*s),
{
    proof {
        reveal_strlit("Trades: ");
        reveal_strlit(" | W/L: ");
        reveal_strlit("/");
        reveal_strlit(" | Win rate: ");
        reveal_strlit("% | P&L: ");
        reveal_strlit("c | Today: ");
        reveal_strlit("c | Streak: ");
        reveal_strlit(" | Drawdown: ");
        reveal_strlit("c");
    }
    let mut r = "Trades: ".to_owned();
    r.append(fmt_u64(s.total_trades as u64).as_str());
    r.append(" | W/L: ");
    r.append(fmt_u64(s.wins as u64).as_str());
    r.append("/");
    r.append(fmt_u64(s.losses as u64).as_str());
    r.append(" | Win rate: ");
    r.append(fmt_pct_bps(s.win_rate_bps as i64).as_str());
    r.append("% | P&L: ");
    r.append(fmt_i64(s.total_pnl_cents).as_str());
    r.append("c | Today: ");
    r.append(fmt_i64(s.today_pnl_cents).as_str());
    r.append("c | Streak: ");
    r.append(fmt_i64(s.current_streak as i64).as_str());
    r.append(" | Drawdown: ");
    r.append(fmt_i64(s.max_drawdown_cents).as_str());
    r.append("c");
    proof {
        assert(r@ =~= spec_format_stats(*s));
    }
    r
}

/// A rendered optional price: its digits, or a dash.
pub open spec fn opt_price_chars(p: Option<u32>) -> Seq<char> {
    match p {
        Some(p) => u64_digits(p as int),
        None => "-"@,
    }
}

fn fmt_opt_price(p: Option<u32>) -> (s: String)
    ensures
        s@ == opt_price_chars(p),
{
    proof {
        reveal_strlit("-");
    }
    match p {
        Some(p) => fmt_u64(p as u64),
        None => "-".to_owned(),
    }
}

/// The rendered market line.
pub open spec fn spec_format_market(m: MarketState) -> Seq<char> {
    "Ticker: "@ + m.ticker@ + " | Title: "@ + m.title@ + " | Yes bid/ask: "@ + opt_price_chars(
        m.yes_bid,
    ) + "/"@ + opt_price_chars(m.yes_ask) + " | No bid/ask: "@ + opt_price_chars(m.no_bid) + "/"@
        + opt_price_chars(m.no_ask) + " | Last: "@ + opt_price_chars(m.last_price) + " | Vol: "@
        + u64_digits(m.volume as int) + " | 24h Vol: "@ + u64_digits(m.volume_24h as int)
        + " | OI: "@ + u64_digits(m.open_interest as int) + " | Expiry: "@ + m.expiration_time@
        + " ("@ + i64_digits(m.minutes_to_expiry as int) + "min)"@
}

/// Render one market's quotes and liquidity as one line.
pub fn format_market(m: &MarketState) -> (r: String)
    requires
        m.minutes_to_expiry != i64::MIN,
    ensures
        r@ == spec_format_market(*m),
{
    proof {
        reveal_strlit("Ticker: ");
        reveal_strlit(" | Title: ");
        reveal_strlit(" | Yes bid/ask: ");
        reveal_strlit("/");
        reveal_strlit(" | No bid/ask: ");
        reveal_strlit(" | Last: ");
        reveal_strlit(" | Vol: ");
        reveal_strlit(" | 24h Vol: ");
        reveal_strlit(" | OI: ");
        reveal_strlit(" | Expiry: ");
        reveal_strlit(" (");
        reveal_strlit("min)");
    }
    let mut r = "Ticker: ".to_owned();
    r.append(m.ticker.as_str());
    r.append(" | Title: ");
    r.append(m.title.as_str());
    r.append(" | Yes bid/ask: ");
    r.append(fmt_opt_price(m.yes_bid).as_str());
    r.append("/");
    r.append(fmt_opt_price(m.yes_ask).as_str());
    r.append(" | No bid/ask: ");
    r.append(fmt_opt_price(m.no_bid).as_str());
    r.append("/");
    r.append(fmt_opt_price(m.no_ask).as_str());
    r.append(" | Last: ");
    r.append(fmt_opt_price(m.last_price).as_str());
    r.append(" | Vol: ");
    r.append(fmt_u64(m.volume).as_str());
    r.append(" | 24h Vol: ");
    r.append(fmt_u64(m.volume_24h).as_str());
    r.append(" | OI: ");
    r.append(fmt_u64(m.open_interest).as_str());
    r.append(" | Expiry: ");
    r.append(m.expiration_time.as_str());
    r.append(" (");
    r.append(fmt_i64(m.minutes_to_expiry).as_str());
    r.append("min)");
    proof {
        assert(r@ =~= spec_format_market(*m));
    }
    r
}

/// The rendered comparison of the two point-forecast sources.
pub open spec fn spec_forecast_agreement(w: WeatherSnapshot) -> Seq<char> {
    let om = w.open_meteo_forecast_high as int;
    match w.nws_forecast_high {
        Some(nws) => {
            let diff = if nws >= om {
                nws - om
            } else {
                om - nws
            };
            if diff <= 10 {
                "Strong agreement: NWS "@ + tenths_chars(nws as int) + "F vs Open-Meteo "@
                    + tenths_chars(om) + "F (within 1F)"@
            } else if diff <= 30 {
                "Moderate agreement: NWS "@ + tenths_chars(nws as int) + "F vs Open-Meteo "@
                    + tenths_chars(om) + "F ("@ + tenths_chars(diff) + "F apart)"@
            } else {
                "Disagreement: NWS "@ + tenths_chars(nws as int) + "F vs Open-Meteo "@
                    + tenths_chars(om) + "F ("@ + tenths_chars(diff) + "F apart)"@
            }
        },
        None => "NWS unavailable. Open-Meteo forecast high: "@ + tenths_chars(om) + "F"@,
    }
}

/// Compare the point-forecast high against the deterministic model's:
/// within one degree is strong agreement, within three moderate,
/// anything wider a disagreement.
pub fn forecast_agreement(weather: &WeatherSnapshot) -> (r: String)
    requires
        weather.wf(),
    ensures
        r@ == spec_forecast_agreement(*weather),
{
    proof {
        reveal_strlit("Strong agreement: NWS ");
        reveal_strlit("Moderate agreement: NWS ");
        reveal_strlit("Disagreement: NWS ");
        reveal_strlit("F vs Open-Meteo ");
        reveal_strlit("F (within 1F)");
        reveal_strlit("F (");
        reveal_strlit("F apart)");
        reveal_strlit("NWS unavailable. Open-Meteo forecast high: ");
        reveal_strlit("F");
    }
    let om = weather.open_meteo_forecast_high;
    match weather.nws_forecast_high {
        Some(nws) => {
            let diff = if nws >= om {
                nws - om
            } else {
                om - nws
            };
            let mut r = if diff <= 10 {
                "Strong agreement: NWS ".to_owned()
            } else if diff <= 30 {
                "Moderate agreement: NWS ".to_owned()
            } else {
                "Disagreement: NWS ".to_owned()
            };
            r.append(fmt_tenths(nws).as_str());
            r.append("F vs Open-Meteo ");
            r.append(fmt_tenths(om).as_str());
            if diff <= 10 {
                r.append("F (within 1F)");
            } else {
                r.append("F (");
                r.append(fmt_tenths(diff).as_str());
                r.append("F apart)");
            }
            proof {
                assert(r@ =~= spec_forecast_agreement(*weather));
            }
            r
        },
        None => {
            let mut r = "NWS unavailable. Open-Meteo forecast high: ".to_owned();
            r.append(fmt_tenths(om).as_str());
            r.append("F");
            proof {
                assert(r@ =~= spec_forecast_agreement(*weather));
            }
            r
        },
    }
}

/// The rendered ensemble statistics.
pub open spec fn spec_ensemble_summary(e: EnsembleForecast) -> Seq<char> {
    u64_digits(e.model_count as int) + " members | Mean: "@ + tenths_chars(e.mean_high as int)
        + "F | Range: "@ + tenths_chars(e.min_high as int) + "-"@ + tenths_chars(
        e.max_high as int,
    ) + "F | Std dev: "@ + tenths_chars(e.std_dev as int) + "F | P10/P25/P75/P90: "@
        + tenths_chars(e.p10 as int) + "/"@ + tenths_chars(e.p25 as int) + "/"@ + tenths_chars(
        e.p75 as int,
    ) + "/"@ + tenths_chars(e.p90 as int) + "F"@
}

/// Render the ensemble statistics as one readable line.
pub fn ensemble_summary(ensemble: &EnsembleForecast) -> (r: String)
    requires
        ensemble.wf(),
    ensures
        r@ == spec_ensemble_summary(*ensemble),
{
    proof {
        reveal_strlit(" members | Mean: ");
        reveal_strlit("F | Range: ");
        reveal_strlit("-");
        reveal_strlit("F | Std dev: ");
        reveal_strlit("F | P10/P25/P75/P90: ");
        reveal_strlit("/");
        reveal_strlit("F");
    }
    let mut r = fmt_u64(ensemble.model_count as u64);
    r.append(" members | Mean: ");
    r.append(fmt_tenths(ensemble.mean_high).as_str());
    r.append("F | Range: ");
    r.append(fmt_tenths(ensemble.min_high).as_str());
    r.append("-");
    r.append(fmt_tenths(ensemble.max_high).as_str());
    r.append("F | Std dev: ");
    r.append(fmt_tenths(ensemble.std_dev).as_str());
    r.append("F | P10/P25/P75/P90: ");
    r.append(fmt_tenths(ensemble.p10).as_str());
    r.append("/");
    r.append(fmt_tenths(ensemble.p25).as_str());
    r.append("/");
    r.append(fmt_tenths(ensemble.p75).as_str());
    r.append("/");
    r.append(fmt_tenths(ensemble.p90).as_str());
    r.append("F");
    proof {
        assert(r@ =~= spec_ensemble_summary(*ensemble));
    }
    r
}

/// The rendered confidence tier, with its spread band.
pub open spec fn confidence_desc_chars(c: crate::types::ForecastConfidence) -> Seq<char> {
    match c {
        crate::types::ForecastConfidence::High => "HIGH (under 2F std dev)"@,
        crate::types::ForecastConfidence::Medium => "MEDIUM (2-4F std dev)"@,
        crate::types::ForecastConfidence::Low => "LOW (over 4F std dev)"@,
    }
}

fn confidence_desc(c: crate::types::ForecastConfidence) -> (r: &'static str)
    ensures
        r@ == confidence_desc_chars(c),
{
    proof {
        reveal_strlit("HIGH (under 2F std dev)");
        reveal_strlit("MEDIUM (2-4F std dev)");
        reveal_strlit("LOW (over 4F std dev)");
    }
    match c {
        crate::types::ForecastConfidence::High => "HIGH (under 2F std dev)",
        crate::types::ForecastConfidence::Medium => "MEDIUM (2-4F std dev)",
        crate::types::ForecastConfidence::Low => "LOW (over 4F std dev)",
    }
}

/// The rendered bucket table from index `i` on, one line per bucket.
pub open spec fn bucket_lines(bs: Seq<crate::types::TempBucketProbability>, i: int) -> Seq<char>
    decreases bs.len() - i,
{
    if i < 0 || i >= bs.len() {
        Seq::empty()
    } else {
        "  "@ + bs[i].label@ + " -> "@ + pct_chars(bs[i].probability_bps as int) + "%\n"@
            + bucket_lines(bs, i + 1)
    }
}

fn bucket_section(bs: &Vec<crate::types::TempBucketProbability>) -> (r: String)
    requires
        crate::types::buckets_wf(bs@),
    ensures
        r@ == bucket_lines(bs@, 0),
{
    proof {
        reveal_strlit("  ");
        reveal_strlit(" -> ");
        reveal_strlit("%\n");
    }
    let n = bs.len();
    let mut r = String::new();
    let mut i: usize = 0;
    while i < n
        invariant
            0 <= i <= n,
            n == bs@.len(),
            crate::types::buckets_wf(bs@),
            r@ + bucket_lines(bs@, i as int) == bucket_lines(bs@, 0),
        decreases n - i,
    {
        proof {
            reveal_strlit("  ");
            reveal_strlit(" -> ");
            reveal_strlit("%\n");
            assert(bs@[i as int].wf());
        }
        let ghost pre = r@;
        let b = &bs[i];
        r.append("  ");
        r.append(b.label.as_str());
        r.append(" -> ");
        r.append(fmt_pct_bps(b.probability_bps).as_str());
        r.append("%\n");
        proof {
            assert(r@ =~= pre + ("  "@ + bs@[i as int].label@ + " -> "@ + pct_chars(
                bs@[i as int].probability_bps as int,
            ) + "%\n"@));
            assert(r@ + bucket_lines(bs@, i + 1) =~= bucket_lines(bs@, 0));
        }
        i = i + 1;
    }
    r
}

/// The rendered hourly trajectory from index `i` on, every third hour.
pub open spec fn hourly_lines(hs: Seq<crate::types::HourlyForecast>, i: int) -> Seq<char>
    decreases hs.len() + 3 - i,
{
    if i < 0 || i >= hs.len() {
        Seq::empty()
    } else {
        "  "@ + hs[i].time@ + " -> "@ + tenths_chars(hs[i].temperature_tenths as int) + "F\n"@
            + hourly_lines(hs, i + 3)
    }
}

fn hourly_section(hs: &Vec<crate::types::HourlyForecast>) -> (r: String)
    requires
        forall|i: int| 0 <= i < hs@.len() ==> (#[trigger] hs@[i]).temperature_tenths
            != i64::MIN,
    ensures
        r@ == hourly_lines(hs@, 0),
{
    proof {
        reveal_strlit("  ");
        reveal_strlit(" -> ");
        reveal_strlit("F\n");
    }
    let n = hs.len();
    let mut r = String::new();
    let mut i: usize = 0;
    while i < n
        invariant
            0 <= i <= n,
            n == hs@.len(),
            forall|j: int| 0 <= j < hs@.len() ==> (#[trigger] hs@[j]).temperature_tenths
                != i64::MIN,
            r@ + hourly_lines(hs@, i as int) == hourly_lines(hs@, 0),
        decreases n - i,
    {
        proof {
            reveal_strlit("  ");
            reveal_strlit(" -> ");
            reveal_strlit("F\n");
        }
        let ghost pre = r@;
        let h = &hs[i];
        r.append("  ");
        r.append(h.time.as_str());
        r.append(" -> ");
        r.append(fmt_tenths(h.temperature_tenths).as_str());
        r.append("F\n");
        proof {
            assert(r@ =~= pre + ("  "@ + hs@[i as int].time@ + " -> "@ + tenths_chars(
                hs@[i as int].temperature_tenths as int,
            ) + "F\n"@));
            assert(r@ + hourly_lines(hs@, i + 3) =~= hourly_lines(hs@, 0));
        }
        if n - i >= 3 {
            i = i + 3;
        } else {
            proof {
                assert(hourly_lines(hs@, i + 3) =~= Seq::<char>::empty());
                assert(hourly_lines(hs@, n as int) =~= Seq::<char>::empty());
            }
            i = n;
        }
    }
    r
}

/// The opening lines of the weather narrative.
pub open spec fn weather_head_chars(w: WeatherSnapshot) -> Seq<char> {
    "Current temp: "@ + tenths_chars(w.current_temp_tenths as int) + "F\n"@
        + "Forecast confidence: "@ + confidence_desc_chars(w.confidence) + "\n"@
        + "Source agreement: "@ + spec_forecast_agreement(w) + "\n"@
}

/// The point-forecast lines of the weather narrative.
pub open spec fn weather_nws_chars(w: WeatherSnapshot) -> Seq<char> {
    (match w.nws_forecast_high {
        Some(h) => "NWS forecast high: "@ + tenths_chars(h as int) + "F"@
            + (match w.nws_short_forecast {
            Some(sf) => " ("@ + sf@ + ")"@,
            None => Seq::empty(),
        }) + "\n"@,
        None => Seq::empty(),
    }) + (match w.nws_forecast_low {
        Some(l) => "NWS forecast low: "@ + tenths_chars(l as int) + "F\n"@,
        None => Seq::empty(),
    })
}

/// The model and ensemble lines of the weather narrative.
pub open spec fn weather_tail_chars(w: WeatherSnapshot) -> Seq<char> {
    "Open-Meteo forecast high: "@ + tenths_chars(w.open_meteo_forecast_high as int) + "F\n"@
        + (match w.ensemble {
        Some(e) => "Ensemble: "@ + spec_ensemble_summary(e) + "\n"@,
        None => Seq::empty(),
    }) + (if w.bucket_probabilities@.len() > 0 {
        "\nTemperature bucket probabilities (ensemble-derived):\n"@ + bucket_lines(
            w.bucket_probabilities@,
            0,
        )
    } else {
        Seq::empty()
    }) + (if w.hourly_forecasts@.len() > 0 {
        "\nHourly trajectory (today):\n"@ + hourly_lines(w.hourly_forecasts@, 0)
    } else {
        Seq::empty()
    })
}

/// The rendered weather narrative handed to the reasoning delegate.
pub open spec fn spec_format_weather(w: WeatherSnapshot) -> Seq<char> {
    weather_head_chars(w) + weather_nws_chars(w) + weather_tail_chars(w)
}

fn weather_head(w: &WeatherSnapshot) -> (r: String)
    requires
        w.wf(),
    ensures
        r@ == weather_head_chars(*w),
{
    proof {
        reveal_strlit("Current temp: ");
        reveal_strlit("F\n");
        reveal_strlit("Forecast confidence: ");
        reveal_strlit("\n");
        reveal_strlit("Source agreement: ");
    }
    let mut r = "Current temp: ".to_owned();
    r.append(fmt_tenths(w.current_temp_tenths).as_str());
    r.append("F\n");
    r.append("Forecast confidence: ");
    r.append(confidence_desc(w.confidence));
    r.append("\n");
    r.append("Source agreement: ");
    r.append(forecast_agreement(w).as_str());
    r.append("\n");
    proof {
        assert(r@ =~= weather_head_chars(*w));
    }
    r
}

fn weather_nws_part(w: &WeatherSnapshot) -> (r: String)
    requires
        w.wf(),
    ensures
        r@ == weather_nws_chars(*w),
{
    proof {
        reveal_strlit("NWS forecast high: ");
        reveal_strlit("F");
        reveal_strlit(" (");
        reveal_strlit(")");
        reveal_strlit("\n");
        reveal_strlit("NWS forecast low: ");
        reveal_strlit("F\n");
        reveal_strlit("");
    }
    let mut r = "".to_owned();
    match w.nws_forecast_high {
        Some(h) => {
            r.append("NWS forecast high: ");
            r.append(fmt_tenths(h).as_str());
            r.append("F");
            match &w.nws_short_forecast {
                Some(sf) => {
                    r.append(" (");
                    r.append(sf.as_str());
                    r.append(")");
                },
                None => {},
            }
            r.append("\n");
        },
        None => {},
    }
    match w.nws_forecast_low {
        Some(l) => {
            r.append("NWS forecast low: ");
            r.append(fmt_tenths(l).as_str());
            r.append("F\n");
        },
        None => {},
    }
    proof {
        assert(r@ =~= weather_nws_chars(*w));
    }
    r
}

fn weather_tail(w: &WeatherSnapshot) -> (r: String)
    requires
        w.wf(),
    ensures
        r@ == weather_tail_chars(*w),
{
    proof {
        reveal_strlit("Open-Meteo forecast high: ");
        reveal_strlit("F\n");
        reveal_strlit("Ensemble: ");
        reveal_strlit("\n");
        reveal_strlit("\nTemperature bucket probabilities (ensemble-derived):\n");
        reveal_strlit("\nHourly trajectory (today):\n");
    }
    let mut r = "Open-Meteo forecast high: ".to_owned();
    r.append(fmt_tenths(w.open_meteo_forecast_high).as_str());
    r.append("F\n");
    match &w.ensemble {
        Some(e) => {
            r.append("Ensemble: ");
            r.append(ensemble_summary(e).as_str());
            r.append("\n");
        },
        None => {},
    }
    if w.bucket_probabilities.len() > 0 {
        r.append("\nTemperature bucket probabilities (ensemble-derived):\n");
        r.append(bucket_section(&w.bucket_probabilities).as_str());
    }
    if w.hourly_forecasts.len() > 0 {
        r.append("\nHourly trajectory (today):\n");
        r.append(hourly_section(&w.hourly_forecasts).as_str());
    }
    proof {
        assert(r@ =~= weather_tail_chars(*w));
    }
    r
}

/// Render the full weather narrative.
pub fn format_weather(w: &WeatherSnapshot) -> (r: String)
    requires
        w.wf(),
    ensures
        r@ == spec_format_weather(*w),
{
    let mut r = weather_head(w);
    r.append(weather_nws_part(w).as_str());
    r.append(weather_tail(w).as_str());
    proof {
        assert(r@ =~= spec_format_weather(*w));
    }
    r
}

/// The full prompt handed to the reasoning delegate: the strategy
/// text, then statistics, recent trades, the market, the orderbook
/// and the weather narrative.
pub open spec fn spec_decision_prompt(ctx: crate::types::DecisionContext) -> Seq<char> {
    ctx.prompt_md@ + "\n\n---\n## STATS\n"@ + spec_format_stats(ctx.stats)
        + "\n\n---\n## LAST "@ + u64_digits(ctx.last_n_trades@.len() as int) + " TRADES\n"@
        + spec_format_ledger(ctx.last_n_trades@) + "\n\n---\n## MARKET\n"@ + spec_format_market(
        ctx.market,
    ) + "\n\n---\n## ORDERBOOK\nYes bids: "@ + spec_format_ob_side(ctx.orderbook.yes@)
        + "\nNo bids: "@ + spec_format_ob_side(ctx.orderbook.no@) + (match ctx.weather {
        Some(w) => "\n\n---\n## WEATHER FORECAST ("@ + w.city@ + ")\n"@ + spec_format_weather(w),
        None => "\n\n---\n## WEATHER FORECAST\nUnavailable this cycle."@,
    })
}

/// Assemble the reasoning delegate's prompt from one decision context.
pub fn build_decision_prompt(ctx: &crate::types::DecisionContext) -> (r: String)
    requires
        ctx.wf(),
        ctx.stats.win_rate_bps <= 10000,
        ctx.stats.total_pnl_cents != i64::MIN,
        ctx.stats.today_pnl_cents != i64::MIN,
        ctx.stats.current_streak != i32::MIN,
        ctx.stats.max_drawdown_cents != i64::MIN,
        ctx.market.minutes_to_expiry != i64::MIN,
        forall|i: int| 0 <= i < ctx.last_n_trades@.len() ==>
            (#[trigger] ctx.last_n_trades@[i]).pnl_cents != i64::MIN,
    ensures
        r@ == spec_decision_prompt(*ctx),
{
    proof {
        reveal_strlit("\n\n---\n## STATS\n");
        reveal_strlit("\n\n---\n## LAST ");
        reveal_strlit(" TRADES\n");
        reveal_strlit("\n\n---\n## MARKET\n");
        reveal_strlit("\n\n---\n## ORDERBOOK\nYes bids: ");
        reveal_strlit("\nNo bids: ");
        reveal_strlit("\n\n---\n## WEATHER FORECAST (");
        reveal_strlit(")\n");
        reveal_strlit("\n\n---\n## WEATHER FORECAST\nUnavailable this cycle.");
    }
    let mut r = ctx.prompt_md.clone();
    r.append("\n\n---\n## STATS\n");
    r.append(format_stats(&ctx.stats).as_str());
    r.append("\n\n---\n## LAST ");
    r.append(fmt_u64(ctx.last_n_trades.len() as u64).as_str());
    r.append(" TRADES\n");
    r.append(format_ledger(&ctx.last_n_trades).as_str());
    r.append("\n\n---\n## MARKET\n");
    r.append(format_market(&ctx.market).as_str());
    r.append("\n\n---\n## ORDERBOOK\nYes bids: ");
    r.append(format_ob_side(&ctx.orderbook.yes).as_str());
    r.append("\nNo bids: ");
    r.append(format_ob_side(&ctx.orderbook.no).as_str());
    match &ctx.weather {
        Some(w) => {
            r.append("\n\n---\n## WEATHER FORECAST (");
            r.append(w.city.as_str());
            r.append(")\n");
            r.append(format_weather(w).as_str());
        },
        None => {
            r.append("\n\n---\n## WEATHER FORECAST\nUnavailable this cycle.");
        },
    }
    proof {
        assert(r@ =~= spec_decision_prompt(*ctx));
    }
    r
}

} // verus!
