//! The state of a budget guard and how its operations change it.
use vstd::prelude::*;

use crate::action::{decision, ActionView};
use crate::amount::{
    in_range, is_amount, lemma_nearest_exact, lemma_nearest_in_range, lemma_nearest_order,
    lemma_nearest_step, lemma_nearest_twice, nearest_double, AMOUNT_LIMIT, STEP_LIMIT,
};
use crate::checker::{Phase, Quantity, NOISE_SHARE};
use crate::config::ConfigView;
use crate::period::BudgetPeriod;
use crate::snapshot::{period_shown, PeriodSnapshot, RecordView, SnapshotView};

verus! {

impl Quantity {
    /// The quantity after `tokens` were taken from it and the outcome was noted.
    pub open spec fn spent(self, tokens: int) -> Quantity {
        self.updated(self.current - tokens).noted()
    }

    /// What holds of the quantities of a guard: they are only ever lowered. Past the initial
    /// value the history does not rise, and it ends in the present value.
    pub open spec fn only_spent(self) -> bool {
        &&& is_amount(self.initial)
        &&& is_amount(self.tolerance)
        &&& is_amount(self.current)
        &&& self.tolerance >= 0
        &&& self.history.len() >= 1
        &&& self.history[0] == self.initial
        &&& self.history.len() >= 2 ==> self.history.last() == self.current
        &&& forall|i: int, j: int|
            1 <= i <= j < self.history.len() ==> self.history[i] >= self.history[j]
    }
}

impl ConfigView {
    /// A period with its full allowance, held to the configured tolerance.
    pub open spec fn full_allowance(self, limit: int) -> Quantity {
        let tokens = nearest_double(limit);
        Quantity::registered(tokens, self.tolerance_for(tokens))
    }

    /// The period that is restored from what a snapshot shows.
    pub open spec fn restored(self, shown: PeriodSnapshot) -> Quantity {
        self.full_allowance(shown.limit as int).updated(shown.remaining as int)
    }

    /// Whether a period is held to the configured tolerance.
    pub open spec fn holds(self, period: Quantity) -> bool {
        period.tolerance == nearest_double(self.tolerance_for(period.initial))
    }

    /// What a snapshot shows of a period.
    pub open spec fn shown(self, period: Quantity) -> PeriodSnapshot {
        period_shown(
            period.initial,
            period.current,
            self.tolerance_for(period.initial),
            period.phase(),
            period.drift_rate(),
        )
    }

    /// `periods`, and with them `period` with its full allowance where it has a limit.
    pub open spec fn with_period(
        self,
        periods: Map<Seq<char>, Quantity>,
        period: BudgetPeriod,
    ) -> Map<Seq<char>, Quantity> {
        match self.limit(period) {
            Some(limit) => periods.insert(period.name(), self.full_allowance(limit as int)),
            None => periods,
        }
    }

    /// The periods that have a limit, each with its full allowance.
    pub open spec fn all_periods(self) -> Map<Seq<char>, Quantity> {
        let daily = self.with_period(Map::empty(), BudgetPeriod::Daily);
        let weekly = self.with_period(daily, BudgetPeriod::Weekly);
        self.with_period(weekly, BudgetPeriod::Monthly)
    }

    /// The most capable model of the ladder.
    pub open spec fn first_model(self) -> Seq<char> {
        if self.throttle_ladder.len() > 0 {
            self.throttle_ladder[0]
        } else {
            "unknown"@
        }
    }
}

/// The state of a budget guard.
#[verifier::ext_equal]
pub struct GuardView {
    /// Session identifier.
    pub session_id: Seq<char>,
    /// Configuration of the budget limits.
    pub config: ConfigView,
    /// The tracked periods by name. The present value of each is what remains of it.
    pub periods: Map<Seq<char>, Quantity>,
    /// Number of records so far.
    pub record_count: nat,
    /// Cumulative tokens spent.
    pub cumulative_total: int,
    /// Current throttle level: the rung of the ladder from which the next depleted budget steps
    /// down.
    pub throttle_level: nat,
    /// The model slug that was last requested.
    pub active_model: Seq<char>,
    /// The records so far, the earliest first.
    pub history: Seq<RecordView>,
}

impl GuardView {
    /// What holds of every guard.
    pub open spec fn valid(self) -> bool {
        &&& forall|name: Seq<char>| #[trigger]
            self.periods.contains_key(name) ==> self.periods[name].only_spent()
                && self.config.holds(self.periods[name])
        &&& is_amount(self.cumulative_total)
        &&& self.history.len() == self.record_count
    }

    /// A guard that has recorded nothing: every period has its full allowance.
    pub open spec fn started(session_id: Seq<char>, config: ConfigView) -> GuardView {
        GuardView {
            session_id,
            config,
            periods: config.all_periods(),
            record_count: 0,
            cumulative_total: 0,
            throttle_level: 0,
            active_model: config.first_model(),
            history: Seq::empty(),
        }
    }

    /// A guard restored from a snapshot: it takes up the snapshot's amounts, holds them to the
    /// configured tolerance, and has an empty history.
    pub open spec fn restored(snapshot: SnapshotView, config: ConfigView) -> GuardView {
        GuardView {
            session_id: snapshot.session_id,
            config,
            periods: snapshot.periods.map_values(|shown: PeriodSnapshot| config.restored(shown)),
            record_count: 0,
            cumulative_total: nearest_double(snapshot.cumulative_total),
            throttle_level: snapshot.throttle_level,
            active_model: snapshot.active_model,
            history: Seq::empty(),
        }
    }

    /// Whether a budget is being depleted, and the guard is to act on it.
    pub open spec fn depleting(self) -> bool {
        &&& !self.exhausted()
        &&& self.record_count >= self.config.warmup_records
        &&& self.any_in(Phase::Transitioning)
    }

    /// The guard after a call that used `tokens` tokens of `model`. Where a budget was being
    /// depleted already, the throttle level moves one rung down the ladder, up to the last.
    pub open spec fn recorded(self, tokens: u64, model: Seq<char>, now_ms: i64) -> GuardView {
        let spent = nearest_double(tokens as int);
        GuardView {
            periods: self.periods.map_values(|q: Quantity| q.spent(spent)),
            record_count: self.record_count + 1,
            cumulative_total: nearest_double(self.cumulative_total + spent),
            throttle_level: if self.depleting() && self.throttle_level + 1
                < self.config.throttle_ladder.len() {
                self.throttle_level + 1
            } else {
                self.throttle_level
            },
            active_model: model,
            history: self.history.push(
                RecordView { timestamp_ms: now_ms, tokens: spent, model },
            ),
            ..self
        }
    }

    /// Whether `period` can be reset: it has a limit and is tracked.
    pub open spec fn can_reset(self, period: BudgetPeriod) -> bool {
        self.config.limit(period) is Some && self.periods.contains_key(period.name())
    }

    /// The guard with `period` back at its full allowance.
    pub open spec fn reset(self, period: BudgetPeriod) -> GuardView {
        GuardView { periods: self.config.with_period(self.periods, period), ..self }
    }

    /// Whether there are tracked periods and nothing remains of any. With no limit nothing can be
    /// exhausted.
    pub open spec fn exhausted(self) -> bool {
        &&& !self.periods.dom().is_empty()
        &&& forall|name: Seq<char>| #[trigger]
            self.periods.contains_key(name) ==> self.periods[name].current <= 0
    }

    /// Whether some period is in `phase`.
    pub open spec fn any_in(self, phase: Phase) -> bool {
        exists|name: Seq<char>| #[trigger]
            self.periods.contains_key(name) && self.periods[name].phase() == phase
    }

    /// The most severe phase among the periods.
    pub open spec fn worst(self) -> Phase {
        if self.any_in(Phase::Transitioning) {
            Phase::Transitioning
        } else if self.any_in(Phase::PreTransition) {
            Phase::PreTransition
        } else {
            Phase::Stable
        }
    }

    /// The action that the guard recommends.
    pub open spec fn recommended(self) -> ActionView {
        decision(
            self.config,
            self.record_count,
            self.throttle_level,
            self.active_model,
            self.exhausted(),
            self.worst(),
        )
    }

    /// The snapshot of the guard.
    pub open spec fn snapshot(self, now_ms: i64) -> SnapshotView {
        SnapshotView {
            session_id: self.session_id,
            timestamp_ms: now_ms,
            periods: self.periods.map_values(|q: Quantity| self.config.shown(q)),
            cumulative_total: self.cumulative_total,
            throttle_level: self.throttle_level,
            active_model: self.active_model,
        }
    }
}

/// A freshly registered quantity has only been spent from.
pub proof fn lemma_registered_only_spent(initial: int, tolerance: int)
    requires
        in_range(initial),
        in_range(tolerance),
        tolerance >= 0,
    ensures
        Quantity::registered(initial, tolerance).only_spent(),
{
    lemma_nearest_in_range(initial);
    lemma_nearest_in_range(tolerance);
    lemma_nearest_exact(0);
    lemma_nearest_order(0, tolerance);
}

/// Spending keeps a quantity one that has only been spent from, and does not raise it.
pub proof fn lemma_spent_only_spent(q: Quantity, tokens: int)
    requires
        q.only_spent(),
        0 <= tokens <= STEP_LIMIT,
    ensures
        q.spent(tokens).only_spent(),
        q.spent(tokens).current <= q.current,
{
    lemma_nearest_in_range(q.current - tokens);
    lemma_nearest_order(q.current - tokens, q.current);
    let after = q.spent(tokens);
    assert forall|i: int, j: int| 1 <= i <= j < after.history.len() implies after.history[i]
        >= after.history[j] by {
        if i < q.history.len() {
            assert(q.history[i] >= q.history[q.history.len() - 1]);
        }
    }
}

/// A tolerance is an amount, and not negative.
pub proof fn lemma_tolerance(config: ConfigView, limit: int)
    ensures
        0 <= config.tolerance_for(limit) <= AMOUNT_LIMIT,
{
    if limit > 0 {
        assert(0 <= limit * config.tolerance) by (nonlinear_arith)
            requires
                limit > 0,
                0 <= config.tolerance,
        ;
    }
}

/// A period with its full allowance has only been spent from, and it is held to the tolerance.
pub proof fn lemma_full_allowance(config: ConfigView, limit: int)
    requires
        in_range(limit),
    ensures
        config.full_allowance(limit).only_spent(),
        config.holds(config.full_allowance(limit)),
        config.full_allowance(limit).initial == nearest_double(limit),
        config.full_allowance(limit).current == nearest_double(limit),
        0 <= config.tolerance_for(nearest_double(limit)) <= AMOUNT_LIMIT,
{
    let tokens = nearest_double(limit);
    lemma_nearest_in_range(limit);
    lemma_nearest_twice(limit);
    lemma_tolerance(config, tokens);
    lemma_registered_only_spent(tokens, config.tolerance_for(tokens));
}

/// A guard that has recorded nothing is valid.
pub proof fn lemma_started_valid(session_id: Seq<char>, config: ConfigView)
    ensures
        GuardView::started(session_id, config).valid(),
{
    lemma_nearest_exact(0);
    let guard = GuardView::started(session_id, config);
    assert forall|name: Seq<char>| #[trigger]
        guard.periods.contains_key(name) implies guard.periods[name].only_spent() && config.holds(
        guard.periods[name],
    ) by {
        if let Some(limit) = config.daily {
            lemma_full_allowance(config, limit as int);
        }
        if let Some(limit) = config.weekly {
            lemma_full_allowance(config, limit as int);
        }
        if let Some(limit) = config.monthly {
            lemma_full_allowance(config, limit as int);
        }
    }
}

/// Recording keeps a guard valid.
pub proof fn lemma_recorded_valid(guard: GuardView, tokens: u64, model: Seq<char>, now_ms: i64)
    requires
        guard.valid(),
    ensures
        guard.recorded(tokens, model, now_ms).valid(),
{
    let spent = nearest_double(tokens as int);
    lemma_nearest_step(tokens);
    lemma_nearest_in_range(guard.cumulative_total + spent);
    let after = guard.recorded(tokens, model, now_ms);
    assert forall|name: Seq<char>| #[trigger]
        after.periods.contains_key(name) implies after.periods[name].only_spent()
        && guard.config.holds(after.periods[name]) by {
        assert(guard.periods.contains_key(name));
        lemma_spent_only_spent(guard.periods[name], spent);
    }
}

/// Resetting a period keeps a guard valid.
pub proof fn lemma_reset_valid(guard: GuardView, period: BudgetPeriod)
    requires
        guard.valid(),
    ensures
        guard.reset(period).valid(),
{
    if let Some(limit) = guard.config.limit(period) {
        lemma_full_allowance(guard.config, limit as int);
    }
    let after = guard.reset(period);
    assert forall|name: Seq<char>| #[trigger]
        after.periods.contains_key(name) implies after.periods[name].only_spent()
        && guard.config.holds(after.periods[name]) by {
        if name != period.name() {
            assert(guard.periods.contains_key(name));
        }
    }
}

/// A guard restored from a snapshot within range is valid.
pub proof fn lemma_restored_valid(snapshot: SnapshotView, config: ConfigView)
    requires
        in_range(snapshot.cumulative_total),
        forall|name: Seq<char>| #[trigger]
            snapshot.periods.contains_key(name) ==> snapshot.periods[name].in_range(),
    ensures
        GuardView::restored(snapshot, config).valid(),
{
    lemma_nearest_in_range(snapshot.cumulative_total);
    let guard = GuardView::restored(snapshot, config);
    assert forall|name: Seq<char>| #[trigger]
        guard.periods.contains_key(name) implies guard.periods[name].only_spent() && config.holds(
        guard.periods[name],
    ) by {
        assert(snapshot.periods.contains_key(name));
        lemma_full_allowance(config, snapshot.periods[name].limit as int);
        lemma_nearest_in_range(snapshot.periods[name].remaining as int);
    }
}

/// A period that has only been spent from is not `Resolving`.
pub proof fn lemma_not_resolving(q: Quantity)
    requires
        q.only_spent(),
    ensures
        q.phase() != Phase::Resolving,
{
    if q.history.len() >= 3 {
        let n = q.history.len();
        assert(q.history[n - 2] >= q.history[n - 1]);
        lemma_nearest_exact(0);
        lemma_nearest_order(q.history[n - 1] - q.history[n - 2], 0);
        lemma_noise(q);
    }
}

/// The noise is above zero.
pub proof fn lemma_noise(q: Quantity)
    ensures
        q.noise() > 0,
{
    lemma_nearest_exact(1);
    if q.tolerance >= 1 {
        assert(q.tolerance * NOISE_SHARE >= 1) by (nonlinear_arith)
            requires
                q.tolerance >= 1,
                NOISE_SHARE == 5_764_607_523_034_235,
        ;
        lemma_nearest_order(1, q.tolerance * NOISE_SHARE);
    } else {
        lemma_nearest_order(1, 1 * NOISE_SHARE);
    }
}

} // verus!
