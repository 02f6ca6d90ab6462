//! Rolling account statistics, derived entirely from a ledger snapshot.

use vstd::prelude::*;
use vstd::arithmetic::div_mod::{lemma_div_is_ordered, lemma_div_by_multiple, lemma_div_pos_is_pos};
use crate::types::{LedgerRow, Stats, TradeResult, PNL_BOUND, LEDGER_BOUND};

verus! {

/// A row whose outcome is decided and counts as a trade: neither still
/// pending nor cancelled before it could fill.
pub open spec fn is_terminal(r: TradeResult) -> bool {
    r == TradeResult::Win || r == TradeResult::Loss || r == TradeResult::Unknown
}

/// Number of terminal rows.
pub open spec fn count_terminal(rows: Seq<LedgerRow>) -> int
    decreases rows.len(),
{
    if rows.len() == 0 {
        0
    } else {
        count_terminal(rows.drop_last()) + if is_terminal(rows.last().result) {
            1int
        } else {
            0int
        }
    }
}

/// Number of rows with the given result.
pub open spec fn count_with(rows: Seq<LedgerRow>, res: TradeResult) -> int
    decreases rows.len(),
{
    if rows.len() == 0 {
        0
    } else {
        count_with(rows.drop_last(), res) + if rows.last().result == res {
            1int
        } else {
            0int
        }
    }
}

/// Sum of realized profit and loss over all rows, in cents.
pub open spec fn sum_pnl(rows: Seq<LedgerRow>) -> int
    decreases rows.len(),
{
    if rows.len() == 0 {
        0
    } else {
        sum_pnl(rows.drop_last()) + rows.last().pnl_cents
    }
}

/// Day number of a timestamp in minutes since the epoch.
pub open spec fn day_of(minutes: u64) -> int {
    minutes as int / 1440
}

/// Sum of profit and loss over the rows appended on the given day.
pub open spec fn sum_pnl_on_day(rows: Seq<LedgerRow>, day: u64) -> int
    decreases rows.len(),
{
    if rows.len() == 0 {
        0
    } else {
        sum_pnl_on_day(rows.drop_last(), day) + if day_of(rows.last().timestamp_minutes) == day {
            rows.last().pnl_cents as int
        } else {
            0int
        }
    }
}

/// Sum of profit and loss over the rows with the given result.
pub open spec fn sum_pnl_with(rows: Seq<LedgerRow>, res: TradeResult) -> int
    decreases rows.len(),
{
    if rows.len() == 0 {
        0
    } else {
        sum_pnl_with(rows.drop_last(), res) + if rows.last().result == res {
            rows.last().pnl_cents as int
        } else {
            0int
        }
    }
}

/// Current streak: the number of consecutive wins (positive) or losses
/// (negative) at the tail of the decided rows; rows with any other
/// result neither extend nor break a streak.
pub open spec fn spec_streak(rows: Seq<LedgerRow>) -> int
    decreases rows.len(),
{
    if rows.len() == 0 {
        0
    } else {
        let front = spec_streak(rows.drop_last());
        match rows.last().result {
            TradeResult::Win => if front > 0 {
                front + 1
            } else {
                1
            },
            TradeResult::Loss => if front < 0 {
                front - 1
            } else {
                -1
            },
            _ => front,
        }
    }
}

/// Highest running cumulative profit reached over any prefix (never
/// below the starting point of zero).
pub open spec fn spec_peak(rows: Seq<LedgerRow>) -> int
    decreases rows.len(),
{
    if rows.len() == 0 {
        0
    } else {
        let p = spec_peak(rows.drop_last());
        let c = sum_pnl(rows);
        if c > p {
            c
        } else {
            p
        }
    }
}

/// Largest drop from a running peak to a later running cumulative value.
pub open spec fn spec_drawdown(rows: Seq<LedgerRow>) -> int
    decreases rows.len(),
{
    if rows.len() == 0 {
        0
    } else {
        let d = spec_drawdown(rows.drop_last());
        let gap = spec_peak(rows) - sum_pnl(rows);
        if gap > d {
            gap
        } else {
            d
        }
    }
}

/// Division truncating toward zero, as the executable `/` computes it
/// on possibly negative sums.
pub open spec fn trunc_div(a: int, b: int) -> int {
    if a >= 0 {
        a / b
    } else {
        -((-a) / b)
    }
}

/// Wins over decided trades, in basis points; zero when nothing is decided.
pub open spec fn spec_win_rate_bps(rows: Seq<LedgerRow>) -> int {
    let w = count_with(rows, TradeResult::Win);
    let l = count_with(rows, TradeResult::Loss);
    if w + l == 0 {
        0
    } else {
        w * 10000 / (w + l)
    }
}

/// Every row's sums and counts stay well within the bounds used by the
/// executable accumulators.
pub open spec fn rows_bounded(rows: Seq<LedgerRow>) -> bool {
    &&& rows.len() <= LEDGER_BOUND
    &&& forall|i: int| 0 <= i < rows.len() ==> (#[trigger] rows[i]).wf()
}

proof fn lemma_count_bounds(rows: Seq<LedgerRow>, res: TradeResult)
    ensures
        0 <= count_with(rows, res) <= rows.len(),
        0 <= count_terminal(rows) <= rows.len(),
    decreases rows.len(),
{
    if rows.len() > 0 {
        lemma_count_bounds(rows.drop_last(), res);
    }
}

proof fn lemma_sum_bounds(rows: Seq<LedgerRow>, day: u64, res: TradeResult)
    requires
        forall|i: int| 0 <= i < rows.len() ==> (#[trigger] rows[i]).wf(),
    ensures
        -(rows.len() * PNL_BOUND) <= sum_pnl(rows) <= rows.len() * PNL_BOUND,
        -(rows.len() * PNL_BOUND) <= sum_pnl_on_day(rows, day) <= rows.len() * PNL_BOUND,
        -(rows.len() * PNL_BOUND) <= sum_pnl_with(rows, res) <= rows.len() * PNL_BOUND,
        0 <= spec_peak(rows) <= rows.len() * PNL_BOUND,
        0 <= spec_drawdown(rows) <= 2 * rows.len() * PNL_BOUND,
        -rows.len() <= spec_streak(rows) <= rows.len(),
    decreases rows.len(),
{
    if rows.len() > 0 {
        lemma_sum_bounds(rows.drop_last(), day, res);
        assert(rows.last().wf());
    }
}

/// The statistics record of a ledger snapshot, as a value.
pub open spec fn spec_stats(rows: Seq<LedgerRow>, today_day: u64) -> Stats {
    Stats {
        total_trades: count_terminal(rows) as u32,
        wins: count_with(rows, TradeResult::Win) as u32,
        losses: count_with(rows, TradeResult::Loss) as u32,
        win_rate_bps: spec_win_rate_bps(rows) as u32,
        total_pnl_cents: sum_pnl(rows) as i64,
        today_pnl_cents: sum_pnl_on_day(rows, today_day) as i64,
        current_streak: spec_streak(rows) as i32,
        max_drawdown_cents: spec_drawdown(rows) as i64,
        avg_win_cents: trunc_div(
            sum_pnl_with(rows, TradeResult::Win),
            if count_with(rows, TradeResult::Win) == 0 {
                1int
            } else {
                count_with(rows, TradeResult::Win)
            },
        ) as i64,
        avg_loss_cents: trunc_div(
            sum_pnl_with(rows, TradeResult::Loss),
            if count_with(rows, TradeResult::Loss) == 0 {
                1int
            } else {
                count_with(rows, TradeResult::Loss)
            },
        ) as i64,
    }
}

/// Compute the rolling statistics of a ledger snapshot.
///
/// `today_day` is the current day number (minutes since the epoch
/// divided by 1440); it scopes the daily profit figure.
///
/// The contract carries the ledger law: the trade count equals the
/// number of terminal (non-pending, non-cancelled) rows, and the win
/// rate is a genuine probability, between zero and one.
pub fn stats_compute(rows: &Vec<LedgerRow>, today_day: u64) -> (s: Stats)
    requires
        rows_bounded(rows@),
    ensures
        s == spec_stats(rows@, today_day),
        s.total_trades == count_terminal(rows@),
        s.wins == count_with(rows@, TradeResult::Win),
        s.losses == count_with(rows@, TradeResult::Loss),
        s.win_rate_bps == spec_win_rate_bps(rows@),
        s.win_rate_bps <= 10000,
        s.total_pnl_cents == sum_pnl(rows@),
        s.today_pnl_cents == sum_pnl_on_day(rows@, today_day),
        s.current_streak == spec_streak(rows@),
        s.max_drawdown_cents == spec_drawdown(rows@),
        s.max_drawdown_cents >= 0,
        s.avg_win_cents == trunc_div(
            sum_pnl_with(rows@, TradeResult::Win),
            if count_with(rows@, TradeResult::Win) == 0 { 1int } else { count_with(rows@, TradeResult::Win) },
        ),
        s.avg_loss_cents == trunc_div(
            sum_pnl_with(rows@, TradeResult::Loss),
            if count_with(rows@, TradeResult::Loss) == 0 { 1int } else { count_with(rows@, TradeResult::Loss) },
        ),
{
    let ghost rs = rows@;
    let n = rows.len();
    let mut terminal: u32 = 0;
    let mut wins: u32 = 0;
    let mut losses: u32 = 0;
    let mut total: i64 = 0;
    let mut today: i64 = 0;
    let mut win_pnl: i64 = 0;
    let mut loss_pnl: i64 = 0;
    let mut streak: i32 = 0;
    let mut peak: i64 = 0;
    let mut drawdown: i64 = 0;
    let mut i: usize = 0;
    while i < n
        invariant
            0 <= i <= n,
            n == rs.len(),
            rows@ == rs,
            rows_bounded(rs),
            terminal == count_terminal(rs.take(i as int)),
            wins == count_with(rs.take(i as int), TradeResult::Win),
            losses == count_with(rs.take(i as int), TradeResult::Loss),
            total == sum_pnl(rs.take(i as int)),
            today == sum_pnl_on_day(rs.take(i as int), today_day),
            win_pnl == sum_pnl_with(rs.take(i as int), TradeResult::Win),
            loss_pnl == sum_pnl_with(rs.take(i as int), TradeResult::Loss),
            streak == spec_streak(rs.take(i as int)),
            total == sum_pnl(rs.take(i as int)),
            peak == spec_peak(rs.take(i as int)),
            drawdown == spec_drawdown(rs.take(i as int)),
        decreases n - i,
    {
        proof {
            assert(rs[i as int].wf());
            assert(rs.take(i + 1).drop_last() =~= rs.take(i as int));
            assert(rs.take(i + 1).last() == rs[i as int]);
            lemma_count_bounds(rs.take(i as int), TradeResult::Win);
            lemma_count_bounds(rs.take(i as int), TradeResult::Loss);
            lemma_sum_bounds(rs.take(i as int), today_day, TradeResult::Win);
            lemma_sum_bounds(rs.take(i as int), today_day, TradeResult::Loss);
            lemma_sum_bounds(rs.take(i + 1), today_day, TradeResult::Win);
            lemma_sum_bounds(rs.take(i + 1), today_day, TradeResult::Loss);
            assert(rs.take(i + 1).len() <= LEDGER_BOUND);
        }
        let row = &rows[i];
        match row.result {
            TradeResult::Win => {
                terminal = terminal + 1;
                wins = wins + 1;
                win_pnl = win_pnl + row.pnl_cents;
                streak = if streak > 0 { streak + 1 } else { 1 };
            },
            TradeResult::Loss => {
                terminal = terminal + 1;
                losses = losses + 1;
                loss_pnl = loss_pnl + row.pnl_cents;
                streak = if streak < 0 { streak - 1 } else { -1 };
            },
            TradeResult::Unknown => {
                terminal = terminal + 1;
            },
            TradeResult::Pending | TradeResult::Cancelled => {},
        }
        total = total + row.pnl_cents;
        if day_number(row.timestamp_minutes) == today_day {
            today = today + row.pnl_cents;
        }
        if total > peak {
            peak = total;
        }
        let gap = peak - total;
        if gap > drawdown {
            drawdown = gap;
        }
        i = i + 1;
    }
    proof {
        assert(rs.take(n as int) =~= rs);
        lemma_count_bounds(rs, TradeResult::Win);
        lemma_count_bounds(rs, TradeResult::Loss);
        lemma_sum_bounds(rs, today_day, TradeResult::Win);
        lemma_sum_bounds(rs, today_day, TradeResult::Loss);
    }
    let decided: u32 = wins + losses;
    let win_rate_bps: u32 = if decided == 0 {
        0
    } else {
        proof {
            lemma_count_bounds(rs, TradeResult::Win);
            assert((wins as int) * 10000 <= (decided as int) * 10000) by (nonlinear_arith)
                requires wins <= decided;
            lemma_div_pos_is_pos((wins as int) * 10000, decided as int);
            lemma_div_is_ordered((wins as int) * 10000, (decided as int) * 10000, decided as int);
            lemma_div_by_multiple(10000, decided as int);
        }
        (((wins as u64) * 10000) / (decided as u64)) as u32
    };
    let avg_win = trunc_div_i64(win_pnl, if wins == 0 { 1 } else { wins as i64 });
    let avg_loss = trunc_div_i64(loss_pnl, if losses == 0 { 1 } else { losses as i64 });
    Stats {
        total_trades: terminal,
        wins,
        losses,
        win_rate_bps,
        total_pnl_cents: total,
        today_pnl_cents: today,
        current_streak: streak,
        max_drawdown_cents: drawdown,
        avg_win_cents: avg_win,
        avg_loss_cents: avg_loss,
    }
}

/// Day number of a timestamp in minutes since the epoch.
pub fn day_number(minutes: u64) -> (d: u64)
    ensures
        d == day_of(minutes),
{
    minutes / 1440
}

/// Signed division truncating toward zero.
fn trunc_div_i64(a: i64, b: i64) -> (q: i64)
    requires
        b > 0,
        -0x4000_0000_0000_0000 < a < 0x4000_0000_0000_0000,
    ensures
        q == trunc_div(a as int, b as int),
{
    if a >= 0 {
        a / b
    } else {
        proof {
            lemma_div_pos_is_pos(-(a as int), b as int);
        }
        -((-a) / b)
    }
}

} // verus!
