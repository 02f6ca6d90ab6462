//! Ledger-row transformations: the settle step, settlement application,
//! and cancellation marking.
//!
//! The ledger itself is persisted elsewhere; these functions carry the
//! rules that keep it consistent, above all the single-pending-row
//! invariant: at most one trade is awaiting its outcome at any time,
//! and resolving it can never happen twice.

use vstd::prelude::*;
use crate::types::{LedgerRow, Settlement, Side, TradeResult, LEDGER_BOUND};

verus! {

/// Number of rows still awaiting their outcome.
pub open spec fn count_pending(rows: Seq<LedgerRow>) -> int
    decreases rows.len(),
{
    if rows.len() == 0 {
        0
    } else {
        count_pending(rows.drop_last()) + if rows.last().result == TradeResult::Pending {
            1int
        } else {
            0int
        }
    }
}

/// A ledger snapshot the core accepts: bounded, well-formed rows, and
/// at most one pending row.
pub open spec fn ledger_wf(rows: Seq<LedgerRow>) -> bool {
    &&& rows.len() <= LEDGER_BOUND
    &&& forall|i: int| 0 <= i < rows.len() ==> (#[trigger] rows[i]).wf()
    &&& count_pending(rows) <= 1
}

/// Index of the most recent pending row; -1 when none is pending.
pub open spec fn last_pending_index(rows: Seq<LedgerRow>) -> int
    decreases rows.len(),
{
    if rows.len() == 0 {
        -1
    } else if rows.last().result == TradeResult::Pending {
        rows.len() - 1
    } else {
        last_pending_index(rows.drop_last())
    }
}

/// There is a pending row exactly when the last pending index exists.
pub proof fn lemma_pending_index(rows: Seq<LedgerRow>)
    ensures
        count_pending(rows) == 0 <==> last_pending_index(rows) == -1,
        count_pending(rows) > 0 ==> {
            let i = last_pending_index(rows);
            &&& 0 <= i < rows.len()
            &&& rows[i].result == TradeResult::Pending
            &&& forall|j: int| i < j < rows.len() ==>
                (#[trigger] rows[j]).result != TradeResult::Pending
        },
        count_pending(rows) >= 0,
    decreases rows.len(),
{
    if rows.len() > 0 {
        let front = rows.drop_last();
        lemma_pending_index(front);
        if rows.last().result != TradeResult::Pending && count_pending(rows) > 0 {
            let i = last_pending_index(rows);
            assert(rows[i] == front[i]);
            assert forall|j: int| i < j < rows.len() implies
                (#[trigger] rows[j]).result != TradeResult::Pending by {
                if j < rows.len() - 1 {
                    assert(rows[j] == front[j]);
                }
            }
        }
    }
}

/// Updating one row changes the pending count exactly as its result does.
pub proof fn lemma_count_pending_update(rows: Seq<LedgerRow>, i: int, r: LedgerRow)
    requires
        0 <= i < rows.len(),
    ensures
        count_pending(rows.update(i, r)) == count_pending(rows)
            - (if rows[i].result == TradeResult::Pending { 1int } else { 0int })
            + (if r.result == TradeResult::Pending { 1int } else { 0int }),
    decreases rows.len(),
{
    let upd = rows.update(i, r);
    if i == rows.len() - 1 {
        assert(upd.drop_last() =~= rows.drop_last());
    } else {
        assert(upd.drop_last() =~= rows.drop_last().update(i, r));
        lemma_count_pending_update(rows.drop_last(), i, r);
    }
}

/// What the settle step decided to do about the pending slot.
pub enum SettleOutcome {
    /// No row is pending; nothing to settle.
    NoPending,
    /// A settlement record exists for the pending row: write it.
    Settle(Settlement),
    /// The pending row is older than the staleness window and no
    /// settlement could be observed: write a synthetic unknown outcome
    /// so the slot frees up.
    Zombie(Settlement),
    /// The pending row is recent; leave it pending.
    Leave,
}

/// Minutes a pending row may wait for its settlement before it is
/// written off as unobservable.
pub const STALE_PENDING_MINUTES: u64 = 30;

/// Index of the most recent pending row, if any.
pub fn find_last_pending(rows: &Vec<LedgerRow>) -> (r: Option<usize>)
    ensures
        match r {
            Some(i) => i == last_pending_index(rows@)
                && i < rows@.len()
                && rows@[i as int].result == TradeResult::Pending,
            None => count_pending(rows@) == 0,
        },
{
    proof {
        lemma_pending_index(rows@);
    }
    let mut i = rows.len();
    while i > 0
        invariant
            0 <= i <= rows@.len(),
            last_pending_index(rows@) < i,
        decreases i,
    {
        i = i - 1;
        proof {
            lemma_pending_suffix(rows@, i as int);
        }
        if matches!(rows[i].result, TradeResult::Pending) {
            return Some(i);
        }
    }
    proof {
        lemma_pending_index(rows@);
    }
    None
}

/// If everything from `i` on is known non-pending and row `i` is
/// pending, then `i` is the last pending index.
proof fn lemma_pending_suffix(rows: Seq<LedgerRow>, i: int)
    requires
        0 <= i < rows.len(),
        last_pending_index(rows) < i + 1,
    ensures
        rows[i].result == TradeResult::Pending ==> last_pending_index(rows) == i,
        rows[i].result != TradeResult::Pending ==> last_pending_index(rows) < i,
    decreases rows.len(),
{
    lemma_pending_index(rows);
    if rows[i].result == TradeResult::Pending {
        if last_pending_index(rows) == -1 {
            lemma_pending_positive(rows, i);
        }
    } else {
        if last_pending_index(rows) == i {
            // contradiction: that index would be pending
        }
    }
}

/// A pending row makes the pending count positive.
proof fn lemma_pending_positive(rows: Seq<LedgerRow>, i: int)
    requires
        0 <= i < rows.len(),
        rows[i].result == TradeResult::Pending,
    ensures
        count_pending(rows) > 0,
    decreases rows.len(),
{
    lemma_pending_index(rows);
    if i < rows.len() - 1 {
        lemma_pending_positive(rows.drop_last(), i);
    }
}

/// Decide what to do about the pending slot, given the settlement
/// records the exchange returned for its ticker and the current time.
///
/// Exactly one of the four outcomes applies:
/// - no pending row: `NoPending`;
/// - a settlement record exists: `Settle` with the first record;
/// - none exists and the row is older than the staleness window:
///   `Zombie` with a synthetic unknown settlement for its ticker;
/// - none exists and the row is recent: `Leave`.
pub fn settle_step(rows: &Vec<LedgerRow>, mut settlements: Vec<Settlement>, now_minutes: u64) -> (r:
    SettleOutcome)
    ensures
        count_pending(rows@) == 0 ==> r is NoPending,
        count_pending(rows@) != 0 ==> {
            let i = last_pending_index(rows@);
            if settlements@.len() > 0 {
                r == SettleOutcome::Settle(settlements@[0])
            } else if now_minutes > rows@[i].timestamp_minutes + STALE_PENDING_MINUTES {
                r matches SettleOutcome::Zombie(z)
                    && z.ticker@ == rows@[i].ticker@
                    && z.result == TradeResult::Unknown
                    && z.pnl_cents == 0
                    && z.count == 0
                    && z.price_cents == 0
                    && z.settled_time_minutes == now_minutes
            } else {
                r is Leave
            }
        },
{
    proof {
        lemma_pending_index(rows@);
    }
    let pending = find_last_pending(rows);
    match pending {
        None => SettleOutcome::NoPending,
        Some(i) => {
            proof {
                lemma_pending_positive(rows@, i as int);
            }
            if settlements.len() > 0 {
                let s = settlements.remove(0);
                SettleOutcome::Settle(s)
            } else if now_minutes > STALE_PENDING_MINUTES
                && now_minutes - STALE_PENDING_MINUTES > rows[i].timestamp_minutes {
                SettleOutcome::Zombie(Settlement {
                    ticker: rows[i].ticker.clone(),
                    side: Side::Yes,
                    count: 0,
                    price_cents: 0,
                    result: TradeResult::Unknown,
                    pnl_cents: 0,
                    settled_time_minutes: now_minutes,
                    market_result: "unknown".to_owned(),
                })
            } else {
                SettleOutcome::Leave
            }
        },
    }
}

/// Write a settlement into the most recent pending row: the row turns
/// terminal with the settlement's outcome and profit; every other row
/// and every other field stays as it was.  Afterwards nothing is
/// pending any more, so a second settle pass has nothing to write.
pub fn apply_settlement(rows: &mut Vec<LedgerRow>, s: &Settlement)
    requires
        ledger_wf(old(rows)@),
        count_pending(old(rows)@) == 1,
        s.wf(),
    ensures
        final(rows)@.len() == old(rows)@.len(),
        ledger_wf(final(rows)@),
        count_pending(final(rows)@) == 0,
        ({
            let i = last_pending_index(old(rows)@);
            &&& final(rows)@ == old(rows)@.update(i, final(rows)@[i])
            &&& final(rows)@[i].result == s.result
            &&& final(rows)@[i].pnl_cents == s.pnl_cents
            &&& final(rows)@[i].ticker@ == old(rows)@[i].ticker@
            &&& final(rows)@[i].timestamp_minutes == old(rows)@[i].timestamp_minutes
            &&& final(rows)@[i].side == old(rows)@[i].side
            &&& final(rows)@[i].shares == old(rows)@[i].shares
            &&& final(rows)@[i].price == old(rows)@[i].price
            &&& final(rows)@[i].cumulative_cents == old(rows)@[i].cumulative_cents
            &&& final(rows)@[i].order_id@ == old(rows)@[i].order_id@
        }),
{
    proof {
        lemma_pending_index(old(rows)@);
    }
    let i = match find_last_pending(rows) {
        Some(i) => i,
        None => {
            proof {
                assert(false);
            }
            0
        },
    };
    let old_row = rows.remove(i);
    let new_row = LedgerRow {
        result: s.result,
        pnl_cents: s.pnl_cents,
        ..old_row
    };
    rows.insert(i, new_row);
    proof {
        assert(rows@ =~= old(rows)@.update(i as int, rows@[i as int]));
        lemma_count_pending_update(old(rows)@, i as int, rows@[i as int]);
    }
}

/// Mark the pending row that carries the given order id as cancelled;
/// every other row stays as it was.  Used when a resting order from an
/// earlier cycle is reaped.
pub fn mark_cancelled(rows: &mut Vec<LedgerRow>, order_id: &String)
    requires
        ledger_wf(old(rows)@),
    ensures
        final(rows)@.len() == old(rows)@.len(),
        ledger_wf(final(rows)@),
        count_pending(final(rows)@) <= count_pending(old(rows)@),
        forall|j: int| 0 <= j < final(rows)@.len() ==> {
            let was = #[trigger] old(rows)@[j];
            if was.result == TradeResult::Pending && was.order_id@ == order_id@ {
                final(rows)@[j] == LedgerRow { result: TradeResult::Cancelled, ..was }
            } else {
                final(rows)@[j] == was
            }
        },
{
    let ghost orig = rows@;
    let n = rows.len();
    let mut i: usize = 0;
    while i < n
        invariant
            0 <= i <= n,
            n == rows@.len(),
            n == orig.len(),
            ledger_wf(orig),
            ledger_wf(rows@),
            count_pending(rows@) <= count_pending(orig),
            forall|j: int| i <= j < n ==> rows@[j] == #[trigger] orig[j],
            forall|j: int| 0 <= j < i ==> {
                let was = #[trigger] orig[j];
                if was.result == TradeResult::Pending && was.order_id@ == order_id@ {
                    rows@[j] == LedgerRow { result: TradeResult::Cancelled, ..was }
                } else {
                    rows@[j] == was
                }
            },
        decreases n - i,
    {
        let hit = matches!(rows[i].result, TradeResult::Pending) && rows[i].order_id == *order_id;
        if hit {
            let ghost before = rows@;
            let old_row = rows.remove(i);
            let new_row = LedgerRow { result: TradeResult::Cancelled, ..old_row };
            rows.insert(i, new_row);
            proof {
                assert(rows@ =~= before.update(i as int, rows@[i as int]));
                lemma_count_pending_update(before, i as int, rows@[i as int]);
            }
        }
        i = i + 1;
    }
}

/// Whether the core accepts a ledger snapshot read from storage.
pub fn ledger_acceptable(rows: &Vec<LedgerRow>) -> (b: bool)
    ensures
        b == ledger_wf(rows@),
{
    if rows.len() > LEDGER_BOUND {
        return false;
    }
    let ghost rs = rows@;
    let n = rows.len();
    let mut pending: u64 = 0;
    let mut i: usize = 0;
    while i < n
        invariant
            0 <= i <= n,
            n == rs.len(),
            rows@ == rs,
            n <= LEDGER_BOUND,
            pending == count_pending(rs.take(i as int)),
            pending <= i,
            forall|j: int| 0 <= j < i ==> (#[trigger] rs[j]).wf(),
        decreases n - i,
    {
        proof {
            assert(rs.take(i + 1).drop_last() =~= rs.take(i as int));
            assert(rs.take(i + 1).last() == rs[i as int]);
            lemma_count_pending_nonneg(rs.take(i as int));
        }
        let row = &rows[i];
        if row.pnl_cents < -crate::types::PNL_BOUND || row.pnl_cents > crate::types::PNL_BOUND
            || row.cumulative_cents < -crate::types::CUM_BOUND
            || row.cumulative_cents > crate::types::CUM_BOUND {
            return false;
        }
        if matches!(row.result, TradeResult::Pending) {
            pending = pending + 1;
        }
        i = i + 1;
    }
    proof {
        assert(rs.take(n as int) =~= rs);
    }
    pending <= 1
}

proof fn lemma_count_pending_nonneg(rows: Seq<LedgerRow>)
    ensures
        count_pending(rows) >= 0,
    decreases rows.len(),
{
    if rows.len() > 0 {
        lemma_count_pending_nonneg(rows.drop_last());
    }
}

/// Resolving the pending slot is not repeatable: once the single
/// pending row has been written terminal, no pending row remains, so a
/// second settle pass over the resulting ledger finds nothing to write.
pub proof fn lemma_settle_not_repeatable(rows: Seq<LedgerRow>, r: LedgerRow)
    requires
        count_pending(rows) == 1,
        r.result != TradeResult::Pending,
    ensures
        count_pending(rows.update(last_pending_index(rows), r)) == 0,
{
    lemma_pending_index(rows);
    lemma_count_pending_update(rows, last_pending_index(rows), r);
}

} // verus!
