//! Audit snapshots and spending records.
use vstd::prelude::*;

use crate::amount::{in_range, nearest_double, round_to_double};
use crate::checker::Phase;

verus! {

/// A single spending record kept for history/audit.
#[derive(Debug, Clone)]
pub struct SpendingRecord {
    /// Timestamp when the record was created (Unix millis).
    pub timestamp_ms: i64,
    /// Tokens consumed in this call, as a double holds them.
    pub tokens: i128,
    /// Model slug used for this call.
    pub model: String,
}

/// What a [`SpendingRecord`] says.
pub struct RecordView {
    pub timestamp_ms: i64,
    pub tokens: int,
    pub model: Seq<char>,
}

impl View for SpendingRecord {
    type V = RecordView;

    open spec fn view(&self) -> RecordView {
        RecordView {
            timestamp_ms: self.timestamp_ms,
            tokens: self.tokens as int,
            model: self.model@,
        }
    }
}

/// Snapshot of a single budget period's state.
#[derive(Debug, Clone, Copy, PartialEq, Eq, Structural)]
pub struct PeriodSnapshot {
    /// Token limit for this period.
    pub limit: i128,
    /// Tokens consumed so far in this period.
    pub consumed: i128,
    /// Remaining tokens.
    pub remaining: i128,
    /// Whether the budget is currently violated: overshot by more than the tolerance.
    pub violated: bool,
    /// Current phase of this period.
    pub phase: Phase,
    /// Drift rate (tokens per record), as the bits of a double.
    pub drift_rate: u64,
}

impl PeriodSnapshot {
    /// Whether the amounts are ones that a guard can be restored to.
    pub open spec fn in_range(self) -> bool {
        in_range(self.limit as int) && in_range(self.remaining as int)
    }
}

/// `v`, or zero where `v` is negative.
pub open spec fn at_least_zero(v: int) -> int {
    if v >= 0 {
        v
    } else {
        0
    }
}

/// What the snapshot of a period shows: what is used and what is left of the limit, each not
/// below zero, whether more than the limit and the tolerance is used, and what the checker reports
/// of the period.
pub open spec fn period_shown(
    limit: int,
    current: int,
    tolerance: int,
    phase: Phase,
    drift_rate: u64,
) -> PeriodSnapshot {
    PeriodSnapshot {
        limit: limit as i128,
        consumed: at_least_zero(nearest_double(limit - current)) as i128,
        remaining: at_least_zero(current) as i128,
        violated: limit - current > limit + tolerance,
        phase,
        drift_rate,
    }
}

/// The snapshot of a period; see [`period_shown`].
pub fn show_period(
    limit: i128,
    current: i128,
    tolerance: i128,
    phase: Phase,
    drift_rate: u64,
) -> (shown: PeriodSnapshot)
    requires
        in_range(limit as int),
        in_range(current as int),
        in_range(tolerance as int),
    ensures
        shown == period_shown(
            limit as int,
            current as int,
            tolerance as int,
            phase,
            drift_rate,
        ),
{
    let consumed: i128 = round_to_double(limit - current);
    PeriodSnapshot {
        limit,
        consumed: if consumed >= 0 { consumed } else { 0 },
        remaining: if current >= 0 { current } else { 0 },
        violated: current < -tolerance,
        phase,
        drift_rate,
    }
}

/// A point-in-time snapshot of all budget state, suitable for logging, audit, or recovery via
/// `BudgetGuard::from_snapshot`.
#[derive(Debug, Clone)]
pub struct BudgetSnapshot {
    /// Session identifier.
    pub session_id: String,
    /// When this snapshot was taken (Unix millis).
    pub timestamp_ms: i64,
    /// The budget periods by name. Where a name occurs more than once, its last entry counts.
    pub periods: Vec<(String, PeriodSnapshot)>,
    /// Cumulative total tokens spent across all periods.
    pub cumulative_total: i128,
    /// Current throttle level: the rung of the ladder from which the next depleted budget steps
    /// down.
    pub throttle_level: usize,
    /// The model currently in use.
    pub active_model: String,
}

/// The periods that a list of named entries describes.
pub open spec fn by_name(entries: Seq<(String, PeriodSnapshot)>) -> Map<Seq<char>, PeriodSnapshot>
    decreases entries.len(),
{
    if entries.len() == 0 {
        Map::empty()
    } else {
        by_name(entries.drop_last()).insert(entries.last().0@, entries.last().1)
    }
}

/// What a [`BudgetSnapshot`] says.
#[verifier::ext_equal]
pub struct SnapshotView {
    pub session_id: Seq<char>,
    pub timestamp_ms: i64,
    pub periods: Map<Seq<char>, PeriodSnapshot>,
    pub cumulative_total: int,
    pub throttle_level: nat,
    pub active_model: Seq<char>,
}

impl View for BudgetSnapshot {
    type V = SnapshotView;

    open spec fn view(&self) -> SnapshotView {
        SnapshotView {
            session_id: self.session_id@,
            timestamp_ms: self.timestamp_ms,
            periods: by_name(self.periods@),
            cumulative_total: self.cumulative_total as int,
            throttle_level: self.throttle_level as nat,
            active_model: self.active_model@,
        }
    }
}

impl BudgetSnapshot {
    /// Whether the amounts are ones that a guard can be restored to.
    pub open spec fn in_range(self) -> bool {
        &&& in_range(self.cumulative_total as int)
        &&& forall|i: int| 0 <= i < self.periods.len() ==> (#[trigger] self.periods[i]).1.in_range()
    }
}

} // verus!
