//! Deterministic pre-flight risk gate: can veto an entire cycle.

use vstd::prelude::*;
use crate::types::{Config, Stats};

verus! {

/// Reason the risk gate vetoed the cycle.
#[derive(Clone, Copy, Debug, PartialEq, Eq, Structural)]
pub enum RiskVeto {
    /// Today's realized loss has reached the daily loss limit.
    DailyLossLimit,
    /// The current losing streak has reached the configured maximum.
    LossStreakLimit,
    /// The account balance is below the configured minimum.
    LowBalance,
}

/// The first breached limit, going through daily loss, losing streak
/// and balance in that order; `None` when no limit is breached.
pub open spec fn spec_risk_veto(s: Stats, balance_cents: u64, c: Config) -> Option<RiskVeto> {
    if s.today_pnl_cents <= -c.max_daily_loss_cents {
        Some(RiskVeto::DailyLossLimit)
    } else if s.current_streak <= -(c.max_consecutive_losses as int) {
        Some(RiskVeto::LossStreakLimit)
    } else if balance_cents < c.min_balance_cents {
        Some(RiskVeto::LowBalance)
    } else {
        None
    }
}

/// Check the configured limits against the current statistics and
/// account balance.  Returns the first breached limit, or `None` when
/// the cycle may proceed: a veto comes if and only if a limit is
/// breached.
pub fn risk_check(s: &Stats, balance_cents: u64, c: &Config) -> (r: Option<RiskVeto>)
    requires
        c.wf(),
    ensures
        r == spec_risk_veto(*s, balance_cents, *c),
{
    if s.today_pnl_cents <= -c.max_daily_loss_cents {
        Some(RiskVeto::DailyLossLimit)
    } else if (s.current_streak as i64) <= -(c.max_consecutive_losses as i64) {
        Some(RiskVeto::LossStreakLimit)
    } else if balance_cents < c.min_balance_cents {
        Some(RiskVeto::LowBalance)
    } else {
        None
    }
}

} // verus!
