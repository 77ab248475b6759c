//! The budget guard.
use conservation_checker::ConservationChecker;
use vstd::prelude::*;

use crate::action::{decide, severity, worst_phase, ActionView, BudgetAction};
use crate::amount::{
    lemma_nearest_step, lemma_nearest_twice, nearest_double, round_to_double, STEP_LIMIT,
};
use crate::checker;
use crate::checker::{quantities, Phase, Quantity};
use crate::clock::now_millis;
use crate::config::BudgetConfig;
use crate::error::BudgetError;
use crate::period::BudgetPeriod;
use crate::snapshot::{
    by_name, show_period, BudgetSnapshot, PeriodSnapshot, RecordView, SpendingRecord,
};
use crate::state::{
    lemma_not_resolving, lemma_recorded_valid, lemma_reset_valid, lemma_restored_valid,
    lemma_started_valid, GuardView,
};

verus! {

/// The contents of a list of records.
pub open spec fn entries(list: Seq<SpendingRecord>) -> Seq<RecordView> {
    list.map_values(|record: SpendingRecord| record@)
}

/// Token budget enforcer for coding-agent sessions.
///
/// Uses `conservation-checker` internally to track one-sided conservation of daily, weekly, and
/// monthly token budgets. Detects spending phases and recommends automated model downgrades when
/// budget depletion accelerates.
pub struct BudgetGuard {
    session_id: String,
    config: BudgetConfig,
    checker: ConservationChecker,
    record_count: usize,
    cumulative_total: i128,
    throttle_level: usize,
    active_model: String,
    history: Vec<SpendingRecord>,
}

impl View for BudgetGuard {
    type V = GuardView;

    closed spec fn view(&self) -> GuardView {
        GuardView {
            session_id: self.session_id@,
            config: self.config@,
            periods: quantities(self.checker),
            record_count: self.record_count as nat,
            cumulative_total: self.cumulative_total as int,
            throttle_level: self.throttle_level as nat,
            active_model: self.active_model@,
            history: entries(self.history@),
        }
    }
}

/// The most severe of the phases of all periods is the guard's worst phase.
proof fn lemma_worst(guard: GuardView, names: Seq<String>, phases: Seq<Phase>, worst: Phase)
    requires
        phases.len() == names.len(),
        guard.valid(),
        forall|i: int|
            0 <= i < names.len() ==> guard.periods.contains_key(#[trigger] names[i]@)
                && guard.periods[names[i]@].phase() == phases[i],
        forall|name: Seq<char>| #[trigger]
            guard.periods.contains_key(name) ==> exists|i: int|
                0 <= i < names.len() && (#[trigger] names[i])@ == name,
        phases.len() == 0 ==> worst == Phase::Stable,
        phases.len() > 0 ==> phases.contains(worst),
        forall|i: int| 0 <= i < phases.len() ==> severity(#[trigger] phases[i]) <= severity(worst),
    ensures
        worst == guard.worst(),
{
    if phases.len() > 0 {
        let at = choose|i: int| 0 <= i < phases.len() && phases[i] == worst;
        assert(guard.periods.contains_key(names[at]@));
        lemma_not_resolving(guard.periods[names[at]@]);
    }
    assert forall|phase: Phase| guard.any_in(phase) implies severity(phase) <= severity(worst) by {
        let name = choose|name: Seq<char>| #[trigger]
            guard.periods.contains_key(name) && guard.periods[name].phase() == phase;
        let i = choose|i: int| 0 <= i < names.len() && (#[trigger] names[i])@ == name;
        assert(severity(phases[i]) <= severity(worst));
    }
    assert(guard.any_in(Phase::Transitioning) ==> severity(worst) >= 2);
    assert(guard.any_in(Phase::PreTransition) ==> severity(worst) >= 1);
}

impl BudgetGuard {
    /// Takes `spent` tokens from every registered quantity and notes the outcome.
    fn spend(tracker: &mut ConservationChecker, names: &Vec<String>, spent: i128)
        requires
            0 <= spent <= STEP_LIMIT,
            forall|name: Seq<char>| #[trigger]
                quantities(*old(tracker)).contains_key(name) ==> quantities(
                    *old(tracker),
                )[name].only_spent(),
            forall|i: int|
                0 <= i < names.len() ==> quantities(*old(tracker)).contains_key(
                    #[trigger] names[i]@,
                ),
            forall|name: Seq<char>| #[trigger]
                quantities(*old(tracker)).contains_key(name) ==> exists|i: int|
                    0 <= i < names.len() && (#[trigger] names[i])@ == name,
            forall|i: int, j: int| 0 <= i < j < names.len() ==> names[i]@ != names[j]@,
        ensures
            quantities(*final(tracker)) == quantities(*old(tracker)).map_values(
                |q: Quantity| q.spent(spent as int),
            ),
    {
        let ghost held = quantities(*tracker);
        let mut i: usize = 0;
        while i < names.len()
            invariant
                i <= names.len(),
                0 <= spent <= STEP_LIMIT,
                forall|name: Seq<char>| #[trigger]
                    held.contains_key(name) ==> held[name].only_spent(),
                forall|j: int| 0 <= j < names.len() ==> held.contains_key(#[trigger] names[j]@),
                forall|j: int, k: int| 0 <= j < k < names.len() ==> names[j]@ != names[k]@,
                quantities(*tracker).dom() == held.dom(),
                forall|j: int|
                    0 <= j < i ==> quantities(*tracker)[#[trigger] names[j]@]
                        == held[names[j]@].updated(held[names[j]@].current - spent),
                forall|j: int|
                    i <= j < names.len() ==> quantities(*tracker)[#[trigger] names[j]@]
                        == held[names[j]@],
            decreases names.len() - i,
        {
            let label: &str = names[i].as_str();
            assert(quantities(*tracker).contains_key(names[i as int]@));
            assert(held[names[i as int]@].only_spent());
            let current: i128 = checker::current_value(tracker, label);
            checker::update(tracker, label, current - spent);
            assert(quantities(*tracker).dom() =~= held.dom());
            i = i + 1;
        }
        checker::note_all(tracker);
        assert(quantities(*tracker) =~= held.map_values(|q: Quantity| q.spent(spent as int)));
    }

    /// Registers a period with its full allowance, where it has a limit.
    fn add_period(config: &BudgetConfig, tracker: &mut ConservationChecker, period: BudgetPeriod)
        ensures
            quantities(*final(tracker)) == config@.with_period(quantities(*old(tracker)), period),
    {
        if let Some(limit) = config.limit_for_period(period) {
            proof {
                lemma_nearest_step(limit);
            }
            let tokens: i128 = round_to_double(limit as i128);
            let tolerance: i128 = config.tolerance_for(tokens);
            checker::register(tracker, period.label(), tokens, tolerance);
        }
    }

    /// Create a new budget guard for a session.
    ///
    /// Registers daily, weekly, and monthly tracking windows based on `config`. Each period starts
    /// with its full token allowance.
    pub fn new(session_id: &str, config: BudgetConfig) -> (guard: Self)
        ensures
            guard@ == GuardView::started(session_id@, config@),
            guard@.valid(),
    {
        let mut tracker = checker::new_checker();
        let active_model = if config.throttle_ladder.len() > 0 {
            config.throttle_ladder[0].clone()
        } else {
            "unknown".to_string()
        };
        Self::add_period(&config, &mut tracker, BudgetPeriod::Daily);
        Self::add_period(&config, &mut tracker, BudgetPeriod::Weekly);
        Self::add_period(&config, &mut tracker, BudgetPeriod::Monthly);
        let guard = BudgetGuard {
            session_id: session_id.to_string(),
            config,
            checker: tracker,
            record_count: 0,
            cumulative_total: 0,
            throttle_level: 0,
            active_model,
            history: Vec::new(),
        };
        proof {
            assert(guard@ =~= GuardView::started(session_id@, config@));
            lemma_started_valid(session_id@, config@);
        }
        guard
    }

    /// Restore a `BudgetGuard` from a previously saved `BudgetSnapshot`.
    ///
    /// This is useful for resuming budget tracking across sessions (e.g. after a restart or crash).
    pub fn from_snapshot(snapshot: BudgetSnapshot, config: BudgetConfig) -> (guard: Self)
        requires
            snapshot.in_range(),
        ensures
            guard@ == GuardView::restored(snapshot@, config@),
            guard@.valid(),
    {
        let mut tracker = checker::new_checker();
        let ghost restore = |shown: PeriodSnapshot| config@.restored(shown);
        let mut i: usize = 0;
        proof {
            assert(by_name(snapshot.periods@.take(0)).map_values(restore) =~= Map::empty());
        }
        while i < snapshot.periods.len()
            invariant
                i <= snapshot.periods.len(),
                snapshot.in_range(),
                restore == (|shown: PeriodSnapshot| config@.restored(shown)),
                quantities(tracker) == by_name(snapshot.periods@.take(i as int)).map_values(
                    restore,
                ),
                forall|name: Seq<char>| #[trigger]
                    by_name(snapshot.periods@.take(i as int)).contains_key(name) ==> by_name(
                        snapshot.periods@.take(i as int),
                    )[name].in_range(),
            decreases snapshot.periods.len() - i,
        {
            let shown: PeriodSnapshot = snapshot.periods[i].1;
            let label: &str = snapshot.periods[i].0.as_str();
            let ghost before = snapshot.periods@.take(i as int);
            let ghost after = snapshot.periods@.take(i + 1);
            let tokens: i128 = round_to_double(shown.limit);
            let tolerance: i128 = config.tolerance_for(tokens);
            checker::register(&mut tracker, label, tokens, tolerance);
            checker::update(&mut tracker, label, shown.remaining);
            proof {
                assert(after.drop_last() =~= before);
                assert(by_name(after) == by_name(before).insert(label@, shown));
                assert(quantities(tracker) =~= by_name(after).map_values(restore));
            }
            i = i + 1;
        }
        proof {
            assert(snapshot.periods@.take(i as int) =~= snapshot.periods@);
            lemma_restored_valid(snapshot@, config@);
        }
        let guard = BudgetGuard {
            session_id: snapshot.session_id,
            config,
            checker: tracker,
            record_count: 0,
            cumulative_total: round_to_double(snapshot.cumulative_total),
            throttle_level: snapshot.throttle_level,
            active_model: snapshot.active_model,
            history: Vec::new(),
        };
        assert(guard@ =~= GuardView::restored(snapshot@, config@));
        guard
    }

    /// Record token usage for an API call that completed at `now_ms`; see [`BudgetGuard::record`].
    pub fn record_at(&mut self, tokens: u64, model: &str, now_ms: i64) -> (result: Result<
        BudgetAction,
        BudgetError,
    >)
        requires
            old(self)@.valid(),
        ensures
            final(self)@ == old(self)@.recorded(tokens, model@, now_ms),
            final(self)@.valid(),
            match result {
                Ok(action) => {
                    &&& !old(self)@.periods.dom().is_empty()
                    &&& action@ == final(self)@.recommended()
                    &&& action@ matches ActionView::Proceed(name) ==> name == model@
                },
                Err(BudgetError::NotRegistered(name)) => {
                    &&& old(self)@.periods.dom().is_empty()
                    &&& name@ == "no budget periods"@
                },
            },
    {
        let ghost before = self@;
        let ghost held = quantities(self.checker);
        let ghost spending = |q: Quantity| q.spent(nearest_double(tokens as int));
        proof {
            lemma_nearest_step(tokens);
            lemma_recorded_valid(self@, tokens, model@, now_ms);
        }
        let (exhausted, worst) = self.survey();
        let rungs: usize = self.config.throttle_ladder.len();
        let escalates = !exhausted && self.record_count >= self.config.warmup_records && worst
            == Phase::Transitioning;
        if escalates && self.throttle_level < rungs && self.throttle_level + 1 < rungs {
            self.throttle_level = self.throttle_level + 1;
        }
        let spent: i128 = round_to_double(tokens as i128);
        let ghost records = self.history@;
        self.history.push(
            SpendingRecord { timestamp_ms: now_ms, tokens: spent, model: model.to_string() },
        );
        assert(entries(self.history@) =~= entries(records).push(entries(self.history@).last()));
        assert(self.history.len() == records.len() + 1);
        self.record_count = self.record_count + 1;
        self.cumulative_total = round_to_double(self.cumulative_total + spent);
        self.active_model = model.to_string();

        let names = checker::registered(&self.checker);
        if names.len() == 0 {
            assert(before.periods.dom() =~= Set::empty());
            assert(before.periods.map_values(spending) =~= before.periods);
            assert(self@ =~= before.recorded(tokens, model@, now_ms));
            return Err(BudgetError::NotRegistered("no budget periods".to_string()));
        }
        assert(held.contains_key(names[0]@));
        Self::spend(&mut self.checker, &names, spent);
        assert(self@ =~= before.recorded(tokens, model@, now_ms));
        Ok(self.recommend_action())
    }

    /// Examines all budget periods: whether they are exhausted, and which phase is the worst.
    fn survey(&self) -> (found: (bool, Phase))
        requires
            self@.valid(),
        ensures
            found.0 == self@.exhausted(),
            found.1 == self@.worst(),
    {
        let names = checker::registered(&self.checker);
        let ghost held = quantities(self.checker);
        let mut exhausted = names.len() > 0;
        let mut phases: Vec<Phase> = Vec::new();
        let mut i: usize = 0;
        while i < names.len()
            invariant
                i <= names.len(),
                held == quantities(self.checker),
                forall|name: Seq<char>| #[trigger]
                    held.contains_key(name) ==> held[name].only_spent(),
                forall|j: int| 0 <= j < names.len() ==> held.contains_key(#[trigger] names[j]@),
                exhausted == (names.len() > 0 && forall|j: int|
                    0 <= j < i ==> held[#[trigger] names[j]@].current <= 0),
                phases.len() == i,
                forall|j: int| 0 <= j < i ==> held[#[trigger] names[j]@].phase() == phases[j],
            decreases names.len() - i,
        {
            let label: &str = names[i].as_str();
            if checker::current_value(&self.checker, label) > 0 {
                exhausted = false;
            }
            phases.push(checker::phase(&self.checker, label));
            i = i + 1;
        }
        let worst = worst_phase(&phases);
        proof {
            if names.len() > 0 {
                assert(held.dom().contains(names[0]@));
            } else {
                assert(held.dom() =~= Set::empty());
            }
            lemma_worst(self@, names@, phases@, worst);
        }
        (exhausted, worst)
    }

    /// Determine the recommended action based on current budget state.
    ///
    /// Examines all budget periods, finds the worst phase, and returns a `BudgetAction`:
    ///
    /// - All budgets exhausted: `Halt`
    /// - Fewer records than the warm-up asks for: `Proceed` with the requested model
    /// - Any `Transitioning`: `Throttle` to one rung below the throttle level
    /// - Any `PreTransition`: `Throttle` to the rung at the throttle level
    /// - All periods `Stable`, or none limited: `Proceed` with the requested model
    pub fn recommend_action(&self) -> (action: BudgetAction)
        requires
            self@.valid(),
        ensures
            action@ == self@.recommended(),
    {
        let (exhausted, worst) = self.survey();
        decide(
            &self.config,
            self.record_count,
            self.throttle_level,
            &self.active_model,
            exhausted,
            worst,
        )
    }

    /// Record token usage for an API call.
    ///
    /// Decreases remaining budget in each active period by `tokens`. Call this after each API
    /// response completes with the total tokens that it used. Where a budget was being depleted
    /// already, the guard moves one step down the ladder, so that each further record of such
    /// spending is throttled further down.
    ///
    /// Returns the current [`BudgetAction`] recommendation, or `BudgetError::NotRegistered` if no
    /// budgets are configured; the call is recorded either way. The record bears the time of the
    /// wall clock, of which nothing is known.
    pub fn record(&mut self, tokens: u64, model: &str) -> (result: Result<
        BudgetAction,
        BudgetError,
    >)
        requires
            old(self)@.valid(),
        ensures
            exists|now_ms: i64|
                final(self)@ == #[trigger] old(self)@.recorded(tokens, model@, now_ms),
            final(self)@.valid(),
            match result {
                Ok(action) => {
                    &&& !old(self)@.periods.dom().is_empty()
                    &&& action@ == final(self)@.recommended()
                    &&& action@ matches ActionView::Proceed(name) ==> name == model@
                },
                Err(BudgetError::NotRegistered(name)) => {
                    &&& old(self)@.periods.dom().is_empty()
                    &&& name@ == "no budget periods"@
                },
            },
    {
        let now_ms: i64 = now_millis();
        self.record_at(tokens, model, now_ms)
    }

    /// Generate an audit snapshot of all budget state as of `now_ms`.
    ///
    /// Holds every budget period's current value, phase, drift rate, and violation status.
    pub fn snapshot_at(&self, now_ms: i64) -> (snapshot: BudgetSnapshot)
        requires
            self@.valid(),
        ensures
            snapshot@ == self@.snapshot(now_ms),
            snapshot.in_range(),
            forall|i: int, j: int|
                0 <= i < j < snapshot.periods.len() ==> snapshot.periods[i].0@
                    != snapshot.periods[j].0@,
    {
        let names = checker::registered(&self.checker);
        let ghost held = quantities(self.checker);
        assert(held == self@.periods);
        let mut periods: Vec<(String, PeriodSnapshot)> = Vec::new();
        let mut i: usize = 0;
        while i < names.len()
            invariant
                i <= names.len(),
                held == quantities(self.checker),
                forall|name: Seq<char>| #[trigger]
                    held.contains_key(name) ==> held[name].only_spent(),
                forall|j: int| 0 <= j < names.len() ==> held.contains_key(#[trigger] names[j]@),
                forall|j: int, k: int| 0 <= j < k < names.len() ==> names[j]@ != names[k]@,
                periods.len() == i,
                forall|j: int|
                    0 <= j < i ==> (#[trigger] periods[j]).0@ == names[j]@
                        && periods[j].1.in_range(),
                forall|j: int|
                    0 <= j < i ==> by_name(periods@).contains_key(#[trigger] names[j]@) && by_name(
                        periods@,
                    )[names[j]@] == self@.config.shown(held[names[j]@]),
                forall|name: Seq<char>| #[trigger]
                    by_name(periods@).contains_key(name) ==> held.contains_key(name),
            decreases names.len() - i,
        {
            let label: &str = names[i].as_str();
            assert(held.contains_key(names[i as int]@));
            let ghost before = periods@;
            let limit: i128 = checker::initial_value(&self.checker, label);
            let shown = show_period(
                limit,
                checker::current_value(&self.checker, label),
                self.config.tolerance_for(limit),
                checker::phase(&self.checker, label),
                checker::drift_rate(&self.checker, label),
            );
            periods.push((names[i].clone(), shown));
            proof {
                assert(periods@.drop_last() =~= before);
                assert(by_name(periods@) == by_name(before).insert(names[i as int]@, shown));
            }
            i = i + 1;
        }
        let snapshot = BudgetSnapshot {
            session_id: self.session_id.clone(),
            timestamp_ms: now_ms,
            periods,
            cumulative_total: self.cumulative_total,
            throttle_level: self.throttle_level,
            active_model: self.active_model.clone(),
        };
        proof {
            assert(by_name(periods@) =~= held.map_values(|q: Quantity| self@.config.shown(q)));
            assert(snapshot@ =~= self@.snapshot(now_ms));
        }
        snapshot
    }

    /// Generate an audit snapshot of all budget state as of now. It bears the time of the wall
    /// clock, of which nothing is known.
    pub fn snapshot(&self) -> (snapshot: BudgetSnapshot)
        requires
            self@.valid(),
        ensures
            exists|now_ms: i64| snapshot@ == #[trigger] self@.snapshot(now_ms),
            snapshot.in_range(),
            forall|i: int, j: int|
                0 <= i < j < snapshot.periods.len() ==> snapshot.periods[i].0@
                    != snapshot.periods[j].0@,
    {
        let now_ms: i64 = now_millis();
        self.snapshot_at(now_ms)
    }

    /// Whether a list of names holds a name.
    fn lists(names: &Vec<String>, label: &str) -> (found: bool)
        ensures
            found == exists|i: int| 0 <= i < names.len() && (#[trigger] names[i])@ == label@,
    {
        let wanted = label.to_string();
        let mut i: usize = 0;
        while i < names.len()
            invariant
                i <= names.len(),
                wanted@ == label@,
                forall|j: int| 0 <= j < i ==> (#[trigger] names[j])@ != label@,
            decreases names.len() - i,
        {
            if names[i] == wanted {
                return true;
            }
            i = i + 1;
        }
        false
    }

    /// Reset a budget period to its full allowance (e.g. at the start of a new day/week/month),
    /// which clears any violation for that period.
    ///
    /// Returns `BudgetError::NotRegistered` if the period has no limit or is not tracked.
    pub fn reset_period(&mut self, period: BudgetPeriod) -> (result: Result<(), BudgetError>)
        requires
            old(self)@.valid(),
        ensures
            final(self)@.valid(),
            match result {
                Ok(()) => {
                    &&& old(self)@.can_reset(period)
                    &&& final(self)@ == old(self)@.reset(period)
                },
                Err(BudgetError::NotRegistered(name)) => {
                    &&& !old(self)@.can_reset(period)
                    &&& final(self)@ == old(self)@
                    &&& name@ == period.name()
                },
            },
    {
        let ghost before = self@;
        let label: &str = period.label();
        let limit: u64 = match self.config.limit_for_period(period) {
            Some(limit) => limit,
            None => return Err(BudgetError::NotRegistered(label.to_string())),
        };
        let names = checker::registered(&self.checker);
        if !Self::lists(&names, label) {
            return Err(BudgetError::NotRegistered(label.to_string()));
        }
        proof {
            lemma_nearest_step(limit);
            lemma_nearest_twice(limit as int);
            lemma_reset_valid(before, period);
        }
        let tokens: i128 = round_to_double(limit as i128);
        let tolerance: i128 = self.config.tolerance_for(tokens);
        checker::deregister(&mut self.checker, label);
        checker::register(&mut self.checker, label, tokens, tolerance);
        checker::update(&mut self.checker, label, tokens);
        proof {
            let full = before.config.full_allowance(limit as int);
            assert(full.updated(tokens as int) =~= full);
            assert(self@ =~= before.reset(period));
        }
        Ok(())
    }

    /// Access the underlying conservation checker for advanced queries.
    pub fn checker(&self) -> (tracker: &ConservationChecker)
        ensures
            quantities(*tracker) == self@.periods,
    {
        &self.checker
    }

    /// Total tokens recorded across all periods.
    pub fn cumulative_total(&self) -> (total: i128)
        ensures
            total == self@.cumulative_total,
    {
        self.cumulative_total
    }

    /// Number of `record()` calls made so far.
    pub fn record_count(&self) -> (count: usize)
        ensures
            count == self@.record_count,
    {
        self.record_count
    }

    /// Current throttle level: the rung of the ladder from which the next depleted budget steps
    /// down.
    pub fn throttle_level(&self) -> (level: usize)
        ensures
            level == self@.throttle_level,
    {
        self.throttle_level
    }

    /// Get spending history, in the order in which the records were made.
    pub fn history(&self) -> (records: &[SpendingRecord])
        ensures
            entries(records@) == self@.history,
    {
        self.history.as_slice()
    }
}

} // verus!
