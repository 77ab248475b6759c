//! What holds of the budget guard as a whole.
//!
//! The laws speak of the states of a guard and of what the operations of
//! [`BudgetGuard`](crate::guard::BudgetGuard) do to them. Amounts are doubles, so laws on exact
//! sums ask that the sums be representable; up to 2^53 tokens they always are. [`operations`] says
//! what each operation does, [`sessions`] what a session of calls leads to, and [`amounts`] what
//! the rounding of amounts is.
use vstd::prelude::*;

use crate::action::{decision, rung, ActionView};
use crate::amount::{
    is_double, lemma_nearest_error, lemma_nearest_exact, lemma_nearest_order, lemma_nearest_step,
    lemma_nearest_twice, nearest_double, AMOUNT_LIMIT, EXACT_LIMIT,
};
use crate::checker::{magnitude, Phase, Quantity, NOISE_SHARE};
use crate::config::{ConfigView, FULL_TOLERANCE};
use crate::period::{law_names_differ, BudgetPeriod};
use crate::snapshot::{at_least_zero, RecordView, SnapshotView};
use crate::state::{
    lemma_full_allowance, lemma_noise, lemma_not_resolving, lemma_recorded_valid,
    lemma_restored_valid, lemma_spent_only_spent, lemma_tolerance, GuardView,
};

pub mod amounts;
pub mod operations;
pub mod sessions;

verus! {

/// Exactly the periods that have a limit are tracked, under their names.
pub proof fn law_limited_periods_are_tracked(config: ConfigView, name: Seq<char>)
    ensures
        config.all_periods().contains_key(name) <==> exists|period: BudgetPeriod|
            #[trigger] period.name() == name && config.limit(period) is Some,
        forall|period: BudgetPeriod|
            config.limit(period) is Some ==> config.all_periods()[#[trigger] period.name()]
                == config.full_allowance(config.limit(period)->0 as int),
{
    let (daily, weekly, monthly) = (
        BudgetPeriod::Daily,
        BudgetPeriod::Weekly,
        BudgetPeriod::Monthly,
    );
    law_names_differ(daily, weekly);
    law_names_differ(daily, monthly);
    law_names_differ(weekly, monthly);
    let all = config.all_periods();
    if all.contains_key(name) {
        assert(daily.name() == name || weekly.name() == name || monthly.name() == name);
    }
    assert forall|period: BudgetPeriod| config.limit(period) is Some implies all.contains_key(
        #[trigger] period.name(),
    ) && all[period.name()] == config.full_allowance(config.limit(period)->0 as int) by {
        match period {
            BudgetPeriod::Daily => {},
            BudgetPeriod::Weekly => {},
            BudgetPeriod::Monthly => {},
        }
    }
}

/// A tolerance is a share of the limit, rounded down: at most the limit, all of it where the
/// tolerance is full, and nothing where the budget is strict.
pub proof fn law_tolerance_is_a_share_of_the_limit(config: ConfigView, limit: int)
    requires
        0 <= limit <= AMOUNT_LIMIT,
        config.tolerance <= FULL_TOLERANCE,
    ensures
        config.tolerance_for(limit) == limit * config.tolerance / FULL_TOLERANCE as int,
        0 <= config.tolerance_for(limit) <= limit,
        config.tolerance == FULL_TOLERANCE ==> config.tolerance_for(limit) == limit,
        config.tolerance == 0 ==> config.tolerance_for(limit) == 0,
{
    let share = limit * config.tolerance;
    assert(0 <= share <= limit * 1_000_000_000) by (nonlinear_arith)
        requires
            limit >= 0,
            0 <= config.tolerance <= 1_000_000_000,
            share == limit * config.tolerance,
    ;
    assert(config.tolerance == 0 ==> share == 0) by (nonlinear_arith)
        requires
            share == limit * config.tolerance,
    ;
}

/// A guard that has recorded nothing shows every limit as unused and unviolated.
pub proof fn law_new_guard_is_unspent(session_id: Seq<char>, config: ConfigView, name: Seq<char>)
    requires
        config.all_periods().contains_key(name),
    ensures
        ({
            let shown = GuardView::started(session_id, config).snapshot(0).periods[name];
            &&& shown.consumed == 0
            &&& shown.remaining == shown.limit
            &&& !shown.violated
        }),
{
    law_limited_periods_are_tracked(config, name);
    let period = choose|period: BudgetPeriod|
        #[trigger] period.name() == name && config.limit(period) is Some;
    let limit = config.limit(period)->0;
    assert(config.all_periods()[period.name()] == config.full_allowance(limit as int));
    lemma_full_allowance(config, limit as int);
    lemma_nearest_step(limit);
    lemma_nearest_exact(0);
    assert(GuardView::started(session_id, config).periods.contains_key(name));
}

/// A guard without limits never halts and never throttles: it proceeds with the requested model.
pub proof fn law_unlimited_proceeds(guard: GuardView)
    requires
        guard.periods.dom().is_empty(),
    ensures
        guard.recommended() == ActionView::Proceed(guard.active_model),
{
    assert(guard.periods.dom() =~= Set::empty());
}

/// Recording takes the tokens from every period and adds them to the total.
pub proof fn law_record_deducts(
    guard: GuardView,
    tokens: u64,
    model: Seq<char>,
    now_ms: i64,
    name: Seq<char>,
)
    requires
        guard.periods.contains_key(name),
        is_double(tokens as int),
        is_double(guard.periods[name].current - tokens),
        is_double(guard.cumulative_total + tokens),
    ensures
        ({
            let after = guard.recorded(tokens, model, now_ms);
            &&& after.periods.dom() == guard.periods.dom()
            &&& after.periods[name].current == guard.periods[name].current - tokens
            &&& after.periods[name].initial == guard.periods[name].initial
            &&& after.cumulative_total == guard.cumulative_total + tokens
        }),
{
    let after = guard.recorded(tokens, model, now_ms);
    assert(after.periods.dom() =~= guard.periods.dom());
}

/// Two records take from a period and add to the total what one record of their sum would, in
/// either order.
pub proof fn law_records_add_up(
    guard: GuardView,
    first: u64,
    second: u64,
    sum: u64,
    model: Seq<char>,
    now_ms: i64,
    name: Seq<char>,
)
    requires
        sum == first + second,
        guard.periods.contains_key(name),
        is_double(first as int),
        is_double(second as int),
        is_double(sum as int),
        is_double(guard.periods[name].current - first),
        is_double(guard.periods[name].current - second),
        is_double(guard.periods[name].current - sum),
        is_double(guard.cumulative_total + first),
        is_double(guard.cumulative_total + second),
        is_double(guard.cumulative_total + sum),
    ensures
        ({
            let both = guard.recorded(first, model, now_ms).recorded(second, model, now_ms);
            let swapped = guard.recorded(second, model, now_ms).recorded(first, model, now_ms);
            let once = guard.recorded(sum, model, now_ms);
            &&& both.periods[name].current == once.periods[name].current
            &&& swapped.periods[name].current == once.periods[name].current
            &&& both.cumulative_total == once.cumulative_total
            &&& swapped.cumulative_total == once.cumulative_total
        }),
{
    let current = guard.periods[name].current;
    let total = guard.cumulative_total;
    assert(current - first - second == current - sum && current - second - first == current - sum);
    assert(total + first + second == total + sum && total + second + first == total + sum);
}

/// The tokens of all records together.
pub open spec fn tokens_of(history: Seq<RecordView>) -> int
    decreases history.len(),
{
    if history.len() == 0 {
        0
    } else {
        tokens_of(history.drop_last()) + history.last().tokens
    }
}

/// The total is the sum of the records: it is so for a new guard, and recording keeps it so.
pub proof fn law_total_is_the_sum_of_the_records(
    session_id: Seq<char>,
    config: ConfigView,
    guard: GuardView,
    tokens: u64,
    model: Seq<char>,
    now_ms: i64,
)
    requires
        guard.cumulative_total == tokens_of(guard.history),
        is_double(guard.cumulative_total + nearest_double(tokens as int)),
    ensures
        ({
            let started = GuardView::started(session_id, config);
            started.cumulative_total == tokens_of(started.history)
        }),
        ({
            let after = guard.recorded(tokens, model, now_ms);
            after.cumulative_total == tokens_of(after.history)
        }),
{
    let after = guard.recorded(tokens, model, now_ms);
    assert(after.history.drop_last() =~= guard.history);
}

/// Recording never raises what remains of a period.
pub proof fn law_record_never_raises(
    guard: GuardView,
    tokens: u64,
    model: Seq<char>,
    now_ms: i64,
    name: Seq<char>,
)
    requires
        guard.valid(),
        guard.periods.contains_key(name),
    ensures
        guard.recorded(tokens, model, now_ms).periods[name].current <= guard.periods[name].current,
{
    lemma_nearest_step(tokens);
    lemma_spent_only_spent(guard.periods[name], nearest_double(tokens as int));
}

/// The guard halts exactly when it tracks periods and nothing remains of any.
pub proof fn law_halt_means_exhausted(guard: GuardView)
    ensures
        guard.recommended() is Halt <==> guard.exhausted(),
{
}

/// A guard that halts keeps halting, whatever is recorded.
pub proof fn law_halt_persists(guard: GuardView, tokens: u64, model: Seq<char>, now_ms: i64)
    requires
        guard.valid(),
        guard.recommended() is Halt,
    ensures
        guard.recorded(tokens, model, now_ms).recommended() is Halt,
{
    let after = guard.recorded(tokens, model, now_ms);
    assert(after.periods.dom() =~= guard.periods.dom());
    assert forall|name: Seq<char>| #[trigger]
        after.periods.contains_key(name) implies after.periods[name].current <= 0 by {
        assert(guard.periods.contains_key(name));
        law_record_never_raises(guard, tokens, model, now_ms, name);
    }
}

/// A call that uses up what remains of every period makes the guard halt.
pub proof fn law_spending_everything_halts(
    guard: GuardView,
    tokens: u64,
    model: Seq<char>,
    now_ms: i64,
)
    requires
        guard.valid(),
        !guard.periods.dom().is_empty(),
        forall|name: Seq<char>| #[trigger]
            guard.periods.contains_key(name) ==> guard.periods[name].current <= tokens,
    ensures
        guard.recorded(tokens, model, now_ms).recommended() is Halt,
{
    let spent = nearest_double(tokens as int);
    let after = guard.recorded(tokens, model, now_ms);
    lemma_nearest_exact(0);
    assert(after.periods.dom() =~= guard.periods.dom());
    assert forall|name: Seq<char>| #[trigger]
        after.periods.contains_key(name) implies after.periods[name].current <= 0 by {
        assert(guard.periods.contains_key(name));
        let current = guard.periods[name].current;
        lemma_nearest_order(current, tokens as int);
        lemma_nearest_order(current - spent, 0);
    }
}

/// During the warm-up the guard never throttles.
pub proof fn law_warmup_never_throttles(guard: GuardView)
    requires
        guard.record_count < guard.config.warmup_records,
    ensures
        guard.exhausted() ==> guard.recommended() is Halt,
        !guard.exhausted() ==> guard.recommended() == ActionView::Proceed(guard.active_model),
{
}

/// A guard proceeds only with the model that was last requested, and throttles only to a model of
/// the ladder, or to the requested one where there is no ladder.
pub proof fn law_recommended_model_is_known(guard: GuardView)
    ensures
        match guard.recommended() {
            ActionView::Proceed(model) => model == guard.active_model,
            ActionView::Throttle(model) => if guard.config.throttle_ladder.len() == 0 {
                model == guard.active_model
            } else {
                guard.config.throttle_ladder.contains(model)
            },
            ActionView::Halt => true,
        },
{
}

/// What a record returns goes by the state after it: where that is to proceed, it is with the
/// model of the record.
pub proof fn law_record_proceeds_with_its_model(
    guard: GuardView,
    tokens: u64,
    model: Seq<char>,
    now_ms: i64,
)
    ensures
        guard.recorded(tokens, model, now_ms).recommended() matches ActionView::Proceed(name)
            ==> name == model,
{
}

/// Where a budget is being depleted, the guard throttles to one rung below its throttle level, or
/// to the last rung of the ladder.
pub proof fn law_transitioning_steps_down(guard: GuardView)
    requires
        guard.depleting(),
        guard.config.throttle_ladder.len() > 0,
    ensures
        guard.throttle_level + 1 < guard.config.throttle_ladder.len() ==> guard.recommended()
            == ActionView::Throttle(
            guard.config.throttle_ladder[(guard.throttle_level + 1) as int],
        ),
        guard.throttle_level + 1 >= guard.config.throttle_ladder.len() ==> guard.recommended()
            == ActionView::Throttle(guard.config.throttle_ladder.last()),
{
}

/// Each subsequent escalation moves further down the ladder: of two records in a row that leave a
/// budget being depleted, the second is throttled to the rung below that of the first, until the
/// last rung is reached.
pub proof fn law_escalations_descend(
    guard: GuardView,
    tokens: u64,
    model: Seq<char>,
    now_ms: i64,
    next_tokens: u64,
    next_model: Seq<char>,
    next_ms: i64,
)
    requires
        guard.recorded(tokens, model, now_ms).depleting(),
        guard.recorded(tokens, model, now_ms).recorded(
            next_tokens,
            next_model,
            next_ms,
        ).depleting(),
    ensures
        ({
            let ladder = guard.config.throttle_ladder;
            let first = guard.recorded(tokens, model, now_ms);
            let second = first.recorded(next_tokens, next_model, next_ms);
            let level = first.throttle_level;
            &&& first.recommended() == ActionView::Throttle(rung(ladder, level + 1, model))
            &&& second.recommended() == ActionView::Throttle(rung(ladder, level + 2, next_model))
        }),
{
}

/// Recording never lowers the throttle level, raises it by one rung at most, and only where a
/// budget was being depleted; it never takes it past the ladder.
pub proof fn law_throttle_level_moves_by_one(
    guard: GuardView,
    tokens: u64,
    model: Seq<char>,
    now_ms: i64,
)
    ensures
        ({
            let after = guard.recorded(tokens, model, now_ms);
            &&& guard.throttle_level <= after.throttle_level <= guard.throttle_level + 1
            &&& after.throttle_level > guard.throttle_level ==> guard.depleting()
            &&& guard.throttle_level < guard.config.throttle_ladder.len() ==> after.throttle_level
                < guard.config.throttle_ladder.len()
        }),
{
}

/// A guard at a lower throttle level is never throttled to a rung further down the ladder than
/// one at a higher level, and `PreTransition` never to one further down than `Transitioning`.
pub proof fn law_throttle_descends(
    config: ConfigView,
    record_count: nat,
    level: nat,
    deeper: nat,
    model: Seq<char>,
)
    requires
        level <= deeper,
        record_count >= config.warmup_records,
        level < config.throttle_ladder.len(),
    ensures
        exists|above: int, below: int|
            0 <= above <= below < config.throttle_ladder.len()
                && decision(config, record_count, level, model, false, Phase::Transitioning)
                == ActionView::Throttle(#[trigger] config.throttle_ladder[above])
                && decision(config, record_count, deeper, model, false, Phase::Transitioning)
                == ActionView::Throttle(#[trigger] config.throttle_ladder[below]),
        exists|above: int, below: int|
            0 <= above <= below < config.throttle_ladder.len()
                && decision(config, record_count, level, model, false, Phase::PreTransition)
                == ActionView::Throttle(#[trigger] config.throttle_ladder[above])
                && decision(config, record_count, level, model, false, Phase::Transitioning)
                == ActionView::Throttle(#[trigger] config.throttle_ladder[below]),
{
    let ladder = config.throttle_ladder;
    let last = ladder.len() - 1;
    let above: int = if level + 1 <= last { (level + 1) as int } else { last };
    let below: int = if deeper + 1 <= last { (deeper + 1) as int } else { last };
    assert(rung(ladder, level + 1, model) == ladder[above]);
    assert(rung(ladder, deeper + 1, model) == ladder[below]);
    assert(ladder[level as int] == ladder[level as int]);
}

/// A change of more than one percent of the tolerance is no noise, for changes of up to 2^46
/// tokens.
pub proof fn law_one_percent_is_no_noise(q: Quantity)
    requires
        q.tolerance >= 0,
        0 < magnitude(q.last_step()) <= 0x4000_0000_0000,
        100 * magnitude(q.last_step()) > q.tolerance,
    ensures
        q.notable(),
{
    let step = magnitude(q.last_step());
    let bound = if q.tolerance >= 1 { q.tolerance } else { 1 };
    let product = bound * NOISE_SHARE;
    assert(product <= (100 * step - 1) * NOISE_SHARE) by (nonlinear_arith)
        requires
            product == bound * NOISE_SHARE,
            bound <= 100 * step - 1,
            NOISE_SHARE == 5_764_607_523_034_235,
    ;
    assert(0 <= product) by (nonlinear_arith)
        requires
            product == bound * NOISE_SHARE,
            bound >= 1,
            NOISE_SHARE == 5_764_607_523_034_235,
    ;
    lemma_nearest_error(product);
}

/// Spending past the tolerance is throttled: a record that takes more than noise from a period
/// that is then not conserved steps the model down, unless it is still the warm-up or all budgets
/// are exhausted.
pub proof fn law_overspending_throttles(
    guard: GuardView,
    tokens: u64,
    model: Seq<char>,
    now_ms: i64,
    name: Seq<char>,
)
    requires
        guard.valid(),
        guard.periods.contains_key(name),
        guard.periods[name].history.len() >= 2,
        guard.recorded(tokens, model, now_ms).periods[name].notable(),
        !guard.recorded(tokens, model, now_ms).periods[name].conserved(),
        !guard.recorded(tokens, model, now_ms).exhausted(),
        guard.record_count + 1 >= guard.config.warmup_records,
    ensures
        guard.recorded(tokens, model, now_ms).depleting(),
        guard.recorded(tokens, model, now_ms).recommended() == ActionView::Throttle(
            rung(
                guard.config.throttle_ladder,
                guard.recorded(tokens, model, now_ms).throttle_level + 1,
                model,
            ),
        ),
{
    let after = guard.recorded(tokens, model, now_ms);
    lemma_recorded_valid(guard, tokens, model, now_ms);
    assert(after.periods.contains_key(name));
    lemma_not_resolving(after.periods[name]);
    assert(after.periods[name].phase() == Phase::Transitioning);
}

/// On a strict budget every record that takes something from a period is throttled from the
/// second one on, unless it is still the warm-up or all budgets are exhausted.
pub proof fn law_strict_spending_throttles(
    guard: GuardView,
    tokens: u64,
    model: Seq<char>,
    now_ms: i64,
    name: Seq<char>,
)
    requires
        guard.valid(),
        guard.periods.contains_key(name),
        guard.periods[name].tolerance == 0,
        guard.periods[name].current <= guard.periods[name].initial,
        guard.periods[name].history.len() >= 2,
        guard.recorded(tokens, model, now_ms).periods[name].current < guard.periods[name].current,
        !guard.recorded(tokens, model, now_ms).exhausted(),
        guard.record_count + 1 >= guard.config.warmup_records,
    ensures
        guard.recorded(tokens, model, now_ms).recommended() == ActionView::Throttle(
            rung(
                guard.config.throttle_ladder,
                guard.recorded(tokens, model, now_ms).throttle_level + 1,
                model,
            ),
        ),
{
    let before = guard.periods[name];
    let q = guard.recorded(tokens, model, now_ms).periods[name];
    lemma_nearest_exact(-1);
    lemma_nearest_order(q.current - before.current, -1);
    lemma_nearest_exact(1 * NOISE_SHARE);
    law_overspending_throttles(guard, tokens, model, now_ms, name);
}

/// Accelerating spending is caught before it gets past the tolerance: a record that takes more
/// than noise from a period, and more than the one two before it did, is throttled although the
/// period is still conserved, unless it is still the warm-up, all budgets are exhausted, or the
/// guard is throttled past the end of its ladder. It is throttled to the rung at the throttle
/// level, or where another budget is being depleted to the one below.
pub proof fn law_accelerating_spending_throttles(
    guard: GuardView,
    tokens: u64,
    model: Seq<char>,
    now_ms: i64,
    name: Seq<char>,
)
    requires
        guard.periods.contains_key(name),
        guard.periods[name].history.len() >= 2,
        guard.recorded(tokens, model, now_ms).periods[name].notable(),
        guard.recorded(tokens, model, now_ms).periods[name].growing(),
        guard.recorded(tokens, model, now_ms).periods[name].conserved(),
        !guard.recorded(tokens, model, now_ms).exhausted(),
        guard.record_count + 1 >= guard.config.warmup_records,
        guard.throttle_level < guard.config.throttle_ladder.len(),
    ensures
        ({
            let after = guard.recorded(tokens, model, now_ms);
            after.recommended() == ActionView::Throttle(
                rung(
                    guard.config.throttle_ladder,
                    if after.depleting() {
                        after.throttle_level + 1
                    } else {
                        after.throttle_level
                    },
                    model,
                ),
            )
        }),
{
    let after = guard.recorded(tokens, model, now_ms);
    assert(after.periods.contains_key(name));
    assert(after.periods[name].phase() == Phase::PreTransition);
}

/// No period of a guard is ever `Resolving`: budgets are only spent from.
pub proof fn law_never_resolving(guard: GuardView)
    requires
        guard.valid(),
    ensures
        !guard.any_in(Phase::Resolving),
{
    assert forall|name: Seq<char>| #[trigger]
        guard.periods.contains_key(name) implies guard.periods[name].phase() != Phase::Resolving by {
        lemma_not_resolving(guard.periods[name]);
    }
}

/// Recording a call that used nothing never throttles.
pub proof fn law_idle_record_never_throttles(guard: GuardView, model: Seq<char>, now_ms: i64)
    requires
        guard.valid(),
    ensures
        guard.exhausted() ==> guard.recorded(0, model, now_ms).recommended() is Halt,
        !guard.exhausted() ==> guard.recorded(0, model, now_ms).recommended()
            == ActionView::Proceed(model),
{
    let after = guard.recorded(0, model, now_ms);
    lemma_nearest_exact(0);
    assert forall|name: Seq<char>| #[trigger] after.periods.contains_key(name) implies {
        &&& guard.periods.contains_key(name)
        &&& after.periods[name].current == guard.periods[name].current
        &&& after.periods[name].phase() == Phase::Stable
    } by {
        assert(guard.periods.contains_key(name));
        assert(guard.periods[name].only_spent());
        let q = after.periods[name];
        if q.history.len() >= 3 {
            assert(q.last_step() == 0);
            lemma_noise(q);
        }
    }
    assert(after.periods.dom() =~= guard.periods.dom());
    assert(after.exhausted() == guard.exhausted());
}

/// Resetting a period gives it back its full limit, clears its violation, and leaves everything
/// else as it was; doing it again changes nothing.
pub proof fn law_reset_restores_allowance(guard: GuardView, period: BudgetPeriod)
    requires
        guard.can_reset(period),
    ensures
        ({
            let after = guard.reset(period);
            let q = after.periods[period.name()];
            &&& q.current == nearest_double(guard.config.limit(period)->0 as int)
            &&& q.initial == q.current
            &&& q.conserved()
            &&& !after.snapshot(0).periods[period.name()].violated
            &&& after == (GuardView { periods: after.periods, ..guard })
            &&& after.periods.dom() == guard.periods.dom()
            &&& forall|name: Seq<char>|
                name != period.name() ==> #[trigger] after.periods[name] == guard.periods[name]
            &&& after.reset(period) == after
        }),
{
    let limit = guard.config.limit(period)->0;
    let after = guard.reset(period);
    let q = guard.config.full_allowance(limit as int);
    lemma_full_allowance(guard.config, limit as int);
    lemma_nearest_step(limit);
    assert(after.periods.contains_key(period.name()));
    lemma_nearest_twice(limit as int);
    lemma_nearest_order(q.initial - q.tolerance, q.initial);
    assert(after.periods.dom() =~= guard.periods.dom());
    assert(after.reset(period) =~= after);
}

/// Resetting a period with a limit above zero ends a halt.
pub proof fn law_reset_ends_halt(guard: GuardView, period: BudgetPeriod)
    requires
        guard.can_reset(period),
        guard.config.limit(period)->0 > 0,
    ensures
        !(guard.reset(period).recommended() is Halt),
{
    let limit = guard.config.limit(period)->0;
    lemma_nearest_exact(1);
    lemma_nearest_order(1, limit as int);
    lemma_nearest_twice(limit as int);
    let after = guard.reset(period);
    assert(after.periods.contains_key(period.name()));
    assert(after.periods[period.name()].current > 0);
}

/// A reset undoes all spending on the period: nothing recorded before it shows in the period.
pub proof fn law_reset_undoes_spending(
    guard: GuardView,
    tokens: u64,
    model: Seq<char>,
    now_ms: i64,
    period: BudgetPeriod,
)
    requires
        guard.can_reset(period),
    ensures
        guard.recorded(tokens, model, now_ms).can_reset(period),
        guard.recorded(tokens, model, now_ms).reset(period).periods[period.name()]
            == guard.reset(period).periods[period.name()],
{
}

/// What is used and what is left of a period make up its limit, while it is not overspent.
pub proof fn law_used_and_left_make_up_the_limit(config: ConfigView, q: Quantity)
    requires
        q.only_spent(),
        0 <= q.current <= q.initial,
        is_double(q.initial - q.current),
    ensures
        config.shown(q).consumed + config.shown(q).remaining == config.shown(q).limit,
        config.shown(q).limit == q.initial,
{
}

/// The guard after several calls, each with its tokens, its model and its time.
pub open spec fn recorded_all(guard: GuardView, calls: Seq<(u64, Seq<char>, i64)>) -> GuardView
    decreases calls.len(),
{
    if calls.len() == 0 {
        guard
    } else {
        recorded_all(guard, calls.drop_last()).recorded(
            calls.last().0,
            calls.last().1,
            calls.last().2,
        )
    }
}

/// The tokens of several calls together.
pub open spec fn tokens_used(calls: Seq<(u64, Seq<char>, i64)>) -> int
    decreases calls.len(),
{
    if calls.len() == 0 {
        0
    } else {
        tokens_used(calls.drop_last()) + calls.last().0
    }
}

proof fn lemma_all_deducted(
    guard: GuardView,
    calls: Seq<(u64, Seq<char>, i64)>,
    name: Seq<char>,
)
    requires
        guard.periods.contains_key(name),
        0 <= guard.periods[name].current <= EXACT_LIMIT,
        tokens_used(calls) <= EXACT_LIMIT,
    ensures
        tokens_used(calls) >= 0,
        ({
            let after = recorded_all(guard, calls);
            &&& after.config == guard.config
            &&& after.periods.contains_key(name)
            &&& after.periods[name].initial == guard.periods[name].initial
            &&& after.periods[name].current == guard.periods[name].current - tokens_used(calls)
        }),
    decreases calls.len(),
{
    if calls.len() > 0 {
        let tokens = calls.last().0;
        lemma_tokens_used(calls.drop_last());
        lemma_all_deducted(guard, calls.drop_last(), name);
        lemma_nearest_exact(tokens as int);
        lemma_nearest_exact(guard.periods[name].current - tokens_used(calls));
    }
}

proof fn lemma_tokens_used(calls: Seq<(u64, Seq<char>, i64)>)
    ensures
        tokens_used(calls) >= 0,
    decreases calls.len(),
{
    if calls.len() > 0 {
        lemma_tokens_used(calls.drop_last());
    }
}

/// A period is violated exactly when the calls of a session have used more than its limit and the
/// tolerance on it, for limits and uses of up to 2^53 tokens.
pub proof fn law_violated_means_overshot(
    session_id: Seq<char>,
    config: ConfigView,
    period: BudgetPeriod,
    calls: Seq<(u64, Seq<char>, i64)>,
    now_ms: i64,
)
    requires
        config.limit(period) is Some,
        config.limit(period)->0 <= EXACT_LIMIT,
        tokens_used(calls) <= EXACT_LIMIT,
    ensures
        ({
            let limit = config.limit(period)->0 as int;
            let guard = recorded_all(GuardView::started(session_id, config), calls);
            guard.snapshot(now_ms).periods[period.name()].violated <==> tokens_used(calls) > limit
                + config.tolerance_for(limit)
        }),
{
    let limit = config.limit(period)->0;
    let started = GuardView::started(session_id, config);
    law_limited_periods_are_tracked(config, period.name());
    lemma_full_allowance(config, limit as int);
    lemma_nearest_exact(limit as int);
    assert(started.periods[period.name()] == config.full_allowance(limit as int));
    assert(started.periods.contains_key(period.name()));
    lemma_all_deducted(started, calls, period.name());
}

/// The tolerance is applied to each restored budget, whatever its limit: the period is held to the
/// share of its limit that the configuration allows, as a new period with that limit would be.
pub proof fn law_restored_is_held_to_the_tolerance(
    snapshot: SnapshotView,
    config: ConfigView,
    name: Seq<char>,
)
    requires
        snapshot.periods.contains_key(name),
        is_double(snapshot.periods[name].limit as int),
        0 <= snapshot.periods[name].limit <= AMOUNT_LIMIT,
        config.tolerance <= FULL_TOLERANCE,
    ensures
        ({
            let limit = snapshot.periods[name].limit as int;
            let restored = GuardView::restored(snapshot, config).periods[name];
            &&& restored.tolerance == config.full_allowance(limit).tolerance
            &&& restored.tolerance == nearest_double(
                limit * config.tolerance / FULL_TOLERANCE as int,
            )
        }),
{
    let limit = snapshot.periods[name].limit as int;
    law_tolerance_is_a_share_of_the_limit(config, limit);
    assert(GuardView::restored(snapshot, config).periods.contains_key(name));
}

/// A guard restored from a snapshot takes up where the guard left off: the session, the total, the
/// throttle level, the model, and for every period its limit, what remained of it, and with the
/// same configuration its tolerance.
pub proof fn law_restore_resumes(guard: GuardView, now_ms: i64, config: ConfigView)
    requires
        guard.valid(),
    ensures
        ({
            let restored = GuardView::restored(guard.snapshot(now_ms), config);
            &&& restored.valid()
            &&& restored.session_id == guard.session_id
            &&& restored.cumulative_total == guard.cumulative_total
            &&& restored.throttle_level == guard.throttle_level
            &&& restored.active_model == guard.active_model
            &&& restored.periods.dom() == guard.periods.dom()
            &&& forall|name: Seq<char>| #[trigger]
                guard.periods.contains_key(name) ==> {
                    &&& restored.periods[name].initial == guard.periods[name].initial
                    &&& restored.periods[name].current == at_least_zero(
                        guard.periods[name].current,
                    )
                    &&& config.holds(restored.periods[name])
                    &&& config == guard.config ==> restored.periods[name].tolerance
                        == guard.periods[name].tolerance
                }
        }),
{
    let snapshot = guard.snapshot(now_ms);
    let restored = GuardView::restored(snapshot, config);
    lemma_nearest_exact(0);
    assert forall|name: Seq<char>| #[trigger]
        snapshot.periods.contains_key(name) implies snapshot.periods[name].in_range() by {
        assert(guard.periods.contains_key(name));
        assert(guard.periods[name].only_spent());
    }
    lemma_restored_valid(snapshot, config);
    assert(restored.periods.dom() =~= guard.periods.dom());
    assert forall|name: Seq<char>| #[trigger] guard.periods.contains_key(name) implies {
        &&& restored.periods[name].initial == guard.periods[name].initial
        &&& restored.periods[name].current == at_least_zero(guard.periods[name].current)
        &&& config.holds(restored.periods[name])
    } by {
        assert(guard.periods[name].only_spent());
        assert(snapshot.periods.contains_key(name));
        assert(restored.periods.contains_key(name));
    }
}

/// A snapshot survives being restored: the restored guard shows the same limit and the same
/// remaining tokens for every period, and the same consumed tokens where nothing was overspent.
/// A snapshot does not tell by how much a period was overspent: such a period comes back with
/// nothing remaining, and no period comes back violated.
pub proof fn law_snapshot_survives_restore(
    guard: GuardView,
    now_ms: i64,
    later_ms: i64,
    config: ConfigView,
    name: Seq<char>,
)
    requires
        guard.valid(),
        guard.periods.contains_key(name),
    ensures
        ({
            let first = guard.snapshot(now_ms).periods[name];
            let second = GuardView::restored(guard.snapshot(now_ms), config).snapshot(
                later_ms,
            ).periods[name];
            &&& second.limit == first.limit
            &&& second.remaining == first.remaining
            &&& guard.periods[name].current >= 0 ==> second.consumed == first.consumed
            &&& !second.violated
        }),
{
    law_restore_resumes(guard, now_ms, config);
    let restored = GuardView::restored(guard.snapshot(now_ms), config);
    assert(restored.periods.contains_key(name));
    assert(guard.periods[name].only_spent());
    lemma_tolerance(config, restored.periods[name].initial);
}

} // verus!
