//! What the phases mean in tokens, and what a session of calls leads to.
//!
//! The laws here speak of limits and uses that doubles hold exactly.
use vstd::arithmetic::power2::{lemma2_to64, lemma2_to64_rest, pow2};
use vstd::prelude::*;

use crate::action::ActionView;
use crate::amount::{lemma_nearest_exact, lemma_nearest_order, nearest_double};
use crate::checker::{magnitude, Phase, Quantity, NOISE_SCALE, NOISE_SHARE};
use crate::config::{ConfigView, FULL_TOLERANCE};
use crate::laws::amounts::law_doubles_are_kept;
use crate::laws::operations::{
    law_accelerating_period_is_throttled, law_halt_exactly_when_nothing_remains,
    law_new_guard_tracks_the_limits, law_record_is_noted_once, law_record_takes_the_tokens,
    law_snapshot_shows_each_period, law_transitioning_period_is_throttled,
    law_unwarned_spending_proceeds,
};
use crate::laws::{
    law_limited_periods_are_tracked, law_one_percent_is_no_noise,
    law_throttle_level_moves_by_one, law_tolerance_is_a_share_of_the_limit, recorded_all,
    tokens_used,
};
use crate::period::BudgetPeriod;
use crate::state::{lemma_noise, lemma_recorded_valid, lemma_started_valid, GuardView};

verus! {

/// A change of up to one percent of the tolerance is noise.
proof fn lemma_small_change_is_noise(q: Quantity)
    requires
        q.tolerance >= 0,
        magnitude(q.last_step()) <= 0x20_0000_0000_0000,
        100 * magnitude(q.last_step()) <= q.tolerance || magnitude(q.last_step()) == 0,
    ensures
        !q.notable(),
{
    let step = magnitude(q.last_step());
    let bound = if q.tolerance >= 1 {
        q.tolerance
    } else {
        1
    };
    lemma2_to64();
    lemma2_to64_rest();
    assert(pow2(59) == NOISE_SCALE);
    law_doubles_are_kept(step, 59);
    assert(bound * NOISE_SHARE >= step * NOISE_SCALE) by (nonlinear_arith)
        requires
            bound >= 100 * step,
            step >= 0,
            NOISE_SHARE == 5_764_607_523_034_235,
            NOISE_SCALE == 576_460_752_303_423_488,
    ;
    lemma_nearest_order(step * NOISE_SCALE, bound * NOISE_SHARE);
}

/// The phase of a period in tokens. It has one once there are three entries in its history and the
/// last change is more than one percent of the tolerance. It is then `Transitioning` where it has
/// fallen by more than its tolerance and is still falling, `Resolving` where it is recovering, and
/// `PreTransition` where it has not fallen that far but the change is larger than the one two
/// before it. Otherwise it is `Stable`.
pub proof fn law_phase_in_tokens(q: Quantity)
    requires
        q.history.len() >= 3,
        0 <= q.initial <= 0x10_0000_0000_0000,
        0 <= q.tolerance <= 0x10_0000_0000_0000,
        forall|i: int|
            0 <= i < q.history.len() ==> -0x10_0000_0000_0000 <= #[trigger] q.history[i]
                <= 0x10_0000_0000_0000,
        -0x4000_0000_0000 <= q.history[q.history.len() - 1] - q.history[q.history.len() - 2]
            <= 0x4000_0000_0000,
    ensures
        ({
            let n = q.history.len();
            let step = q.history[n - 1] - q.history[n - 2];
            let earlier = if n >= 4 {
                q.history[n - 3] - q.history[n - 4]
            } else {
                0
            };
            let large = step != 0 && (100 * step > q.tolerance || -100 * step > q.tolerance);
            let grew = (step > earlier && step > -earlier) || (-step > earlier && -step
                > -earlier);
            let kept = q.initial - q.current <= q.tolerance;
            &&& q.phase() == Phase::Transitioning <==> !kept && large && step < 0
            &&& q.phase() == Phase::Resolving <==> !kept && large && step > 0
            &&& q.phase() == Phase::PreTransition <==> kept && large && grew
            &&& q.phase() == Phase::Stable <==> !large || (kept && !grew)
        }),
{
    let n = q.history.len();
    let step = q.history[n - 1] - q.history[n - 2];
    lemma_nearest_exact(step);
    lemma_nearest_exact(q.initial - q.tolerance);
    if n >= 4 {
        lemma_nearest_exact(q.history[n - 3] - q.history[n - 4]);
    }
    if step != 0 && 100 * magnitude(step) > q.tolerance {
        law_one_percent_is_no_noise(q);
    } else {
        lemma_small_change_is_noise(q);
    }
}

/// A period is `Stable` until three entries are in its history.
pub proof fn law_phase_needs_three_entries(q: Quantity)
    requires
        q.history.len() < 3,
    ensures
        q.phase() == Phase::Stable,
{
}

/// The phase of a period of any size, as doubles subtract, multiply and compare.
pub proof fn law_phase_in_doubles(q: Quantity)
    requires
        q.history.len() >= 3,
    ensures
        ({
            let n = q.history.len();
            let step = nearest_double(q.history[n - 1] - q.history[n - 2]);
            let earlier = if n >= 4 {
                nearest_double(q.history[n - 3] - q.history[n - 4])
            } else {
                0
            };
            let floor = if q.tolerance >= 1 {
                nearest_double(q.tolerance * 5_764_607_523_034_235)
            } else {
                5_764_607_523_034_235
            };
            let falls = -step * 0x800_0000_0000_0000 > floor;
            let rises = step * 0x800_0000_0000_0000 > floor;
            let grew = (step > earlier && step > -earlier) || (-step > earlier && -step
                > -earlier);
            let kept = q.current >= nearest_double(q.initial - q.tolerance);
            &&& q.phase() == Phase::Transitioning <==> !kept && falls
            &&& q.phase() == Phase::Resolving <==> !kept && rises
            &&& q.phase() == Phase::PreTransition <==> kept && (falls || rises) && grew
        }),
{
    lemma_nearest_exact(5_764_607_523_034_235);
    lemma_noise(q);
}

// A session of calls.

proof fn lemma_used(calls: Seq<(u64, Seq<char>, i64)>, k: int)
    requires
        0 <= k <= calls.len(),
    ensures
        0 <= tokens_used(calls.take(k)) <= tokens_used(calls),
        k < calls.len() ==> tokens_used(calls.take(k + 1)) == tokens_used(calls.take(k))
            + calls[k].0,
        calls.take(calls.len() as int) == calls,
    decreases calls.len(),
{
    assert(calls.take(calls.len() as int) =~= calls);
    if k < calls.len() {
        assert(calls.take(k + 1).drop_last() =~= calls.take(k));
        assert(calls.take(k + 1).last() == calls[k]);
        if k + 1 < calls.len() {
            assert(calls.drop_last().take(k) =~= calls.take(k));
        } else {
            assert(calls.take(k) =~= calls.drop_last());
        }
        lemma_used(calls.drop_last(), k);
        if k + 1 == calls.len() {
            assert(calls.drop_last().take(k) =~= calls.drop_last());
        }
    } else if calls.len() > 0 {
        lemma_used(calls.drop_last(), k - 1);
        assert(calls.drop_last().take(k - 1) =~= calls.drop_last());
    }
}

/// A session keeps its name and configuration and stays valid.
proof fn lemma_session_valid(
    session_id: Seq<char>,
    config: ConfigView,
    calls: Seq<(u64, Seq<char>, i64)>,
)
    ensures
        ({
            let guard = recorded_all(GuardView::started(session_id, config), calls);
            &&& guard.valid()
            &&& guard.config == config
            &&& guard.periods.dom() == config.all_periods().dom()
            &&& guard.record_count == calls.len()
            &&& config.throttle_ladder.len() > 0 ==> guard.throttle_level
                < config.throttle_ladder.len()
        }),
    decreases calls.len(),
{
    let started = GuardView::started(session_id, config);
    if calls.len() == 0 {
        lemma_started_valid(session_id, config);
    } else {
        let (tokens, model, now_ms) = calls.last();
        let before = recorded_all(started, calls.drop_last());
        lemma_session_valid(session_id, config, calls.drop_last());
        lemma_recorded_valid(before, tokens, model, now_ms);
        law_record_takes_the_tokens(before, tokens, model, now_ms);
        law_throttle_level_moves_by_one(before, tokens, model, now_ms);
    }
}

/// The guard after a session has recorded each call in its place, and knows the model of the last.
pub proof fn law_session_records_each_call(
    session_id: Seq<char>,
    config: ConfigView,
    calls: Seq<(u64, Seq<char>, i64)>,
)
    requires
        tokens_used(calls) <= 0x20_0000_0000_0000,
    ensures
        ({
            let guard = recorded_all(GuardView::started(session_id, config), calls);
            &&& guard.session_id == session_id
            &&& guard.config == config
            &&& guard.record_count == calls.len()
            &&& guard.cumulative_total == tokens_used(calls)
            &&& guard.history.len() == calls.len()
            &&& forall|i: int|
                0 <= i < calls.len() ==> (#[trigger] guard.history[i]).tokens == calls[i].0
                    && guard.history[i].model == calls[i].1 && guard.history[i].timestamp_ms
                    == calls[i].2
            &&& calls.len() > 0 ==> guard.active_model == calls.last().1
        }),
    decreases calls.len(),
{
    let started = GuardView::started(session_id, config);
    if calls.len() > 0 {
        let (tokens, model, now_ms) = calls.last();
        let before = recorded_all(started, calls.drop_last());
        let after = recorded_all(started, calls);
        lemma_used(calls, calls.len() - 1);
        assert(calls.take(calls.len() - 1) =~= calls.drop_last());
        law_session_records_each_call(session_id, config, calls.drop_last());
        law_record_takes_the_tokens(before, tokens, model, now_ms);
        law_record_is_noted_once(before, tokens, model, now_ms);
        lemma_nearest_exact(tokens as int);
        lemma_nearest_exact(tokens_used(calls));
        assert forall|i: int| 0 <= i < calls.len() implies (#[trigger] after.history[i]).tokens
            == calls[i].0 && after.history[i].model == calls[i].1 && after.history[i].timestamp_ms
            == calls[i].2 by {
            if i < calls.len() - 1 {
                assert(after.history.drop_last()[i] == after.history[i]);
                assert(calls.drop_last()[i] == calls[i]);
            }
        }
    }
}

/// The history of a period lists what remained of its limit at the start and after every call.
pub proof fn law_session_notes_what_remained(
    session_id: Seq<char>,
    config: ConfigView,
    period: BudgetPeriod,
    limit: u64,
    calls: Seq<(u64, Seq<char>, i64)>,
)
    requires
        config.limit(period) == Some(limit),
        config.tolerance <= FULL_TOLERANCE,
        limit <= 0x20_0000_0000_0000,
        tokens_used(calls) <= 0x20_0000_0000_0000,
    ensures
        ({
            let guard = recorded_all(GuardView::started(session_id, config), calls);
            let q = guard.periods[period.name()];
            &&& guard.periods.contains_key(period.name())
            &&& q.initial == limit
            &&& q.current == limit - tokens_used(calls)
            &&& q.tolerance == limit * config.tolerance / 1_000_000_000
            &&& q.history.len() == calls.len() + 1
            &&& forall|k: int|
                0 <= k <= calls.len() ==> #[trigger] q.history[k] == limit - tokens_used(
                    calls.take(k),
                )
        }),
    decreases calls.len(),
{
    let started = GuardView::started(session_id, config);
    let name = period.name();
    if calls.len() == 0 {
        law_new_guard_tracks_the_limits(session_id, config, period);
        lemma_nearest_exact(limit as int);
        law_tolerance_is_a_share_of_the_limit(config, limit as int);
        lemma_nearest_exact(config.tolerance_for(limit as int));
        assert(calls.take(0) =~= calls);
    } else {
        let (tokens, model, now_ms) = calls.last();
        let before = recorded_all(started, calls.drop_last());
        let q = recorded_all(started, calls).periods[name];
        lemma_used(calls, calls.len() - 1);
        lemma_used(calls, calls.len() as int);
        assert(calls.take(calls.len() - 1) =~= calls.drop_last());
        law_session_notes_what_remained(session_id, config, period, limit, calls.drop_last());
        law_record_takes_the_tokens(before, tokens, model, now_ms);
        law_record_is_noted_once(before, tokens, model, now_ms);
        lemma_nearest_exact(tokens as int);
        lemma_nearest_exact(limit - tokens_used(calls));
        assert(q.history == before.periods[name].history.push(q.current));
        assert forall|k: int| 0 <= k <= calls.len() implies #[trigger] q.history[k] == limit
            - tokens_used(calls.take(k)) by {
            if k < calls.len() {
                assert(q.history[k] == before.periods[name].history[k]);
                assert(calls.drop_last().take(k) =~= calls.take(k));
            }
        }
    }
}

/// The last changes that a session leaves in the history of a period are the calls.
proof fn lemma_session_steps(
    session_id: Seq<char>,
    config: ConfigView,
    period: BudgetPeriod,
    limit: u64,
    calls: Seq<(u64, Seq<char>, i64)>,
)
    requires
        config.limit(period) == Some(limit),
        config.tolerance <= FULL_TOLERANCE,
        limit <= 0x10_0000_0000_0000,
        tokens_used(calls) <= 0x10_0000_0000_0000,
        calls.len() >= 2,
    ensures
        ({
            let q = recorded_all(GuardView::started(session_id, config), calls).periods[
                period.name()
            ];
            let n = q.history.len();
            &&& n == calls.len() + 1
            &&& q.history[n - 1] - q.history[n - 2] == -calls.last().0
            &&& n >= 4 ==> q.history[n - 3] - q.history[n - 4] == -calls[calls.len() - 3].0
            &&& forall|i: int|
                0 <= i < n ==> -0x10_0000_0000_0000 <= #[trigger] q.history[i]
                    <= 0x10_0000_0000_0000
            &&& 0 <= q.tolerance <= q.initial
        }),
{
    law_session_notes_what_remained(session_id, config, period, limit, calls);
    law_tolerance_is_a_share_of_the_limit(config, limit as int);
    lemma_used(calls, calls.len() - 1);
    if calls.len() >= 3 {
        lemma_used(calls, calls.len() - 3);
    }
    let q = recorded_all(GuardView::started(session_id, config), calls).periods[period.name()];
    assert forall|i: int| 0 <= i < q.history.len() implies -0x10_0000_0000_0000
        <= #[trigger] q.history[i] <= 0x10_0000_0000_0000 by {
        lemma_used(calls, i);
    }
}

/// What a snapshot shows after a session: the limit, what the calls used, and what they left.
pub proof fn law_session_snapshot(
    session_id: Seq<char>,
    config: ConfigView,
    period: BudgetPeriod,
    limit: u64,
    calls: Seq<(u64, Seq<char>, i64)>,
    now_ms: i64,
)
    requires
        config.limit(period) == Some(limit),
        config.tolerance <= FULL_TOLERANCE,
        limit <= 0x20_0000_0000_0000,
        tokens_used(calls) <= 0x20_0000_0000_0000,
    ensures
        ({
            let guard = recorded_all(GuardView::started(session_id, config), calls);
            let shown = guard.snapshot(now_ms).periods[period.name()];
            let used = tokens_used(calls);
            &&& shown.limit == limit
            &&& shown.consumed == used
            &&& shown.remaining == if used <= limit {
                limit - used
            } else {
                0
            }
            &&& shown.violated <==> used > limit + limit * config.tolerance / 1_000_000_000
        }),
{
    let guard = recorded_all(GuardView::started(session_id, config), calls);
    lemma_session_valid(session_id, config, calls);
    law_session_notes_what_remained(session_id, config, period, limit, calls);
    law_tolerance_is_a_share_of_the_limit(config, limit as int);
    law_snapshot_shows_each_period(guard, now_ms, period.name());
    lemma_used(calls, 0);
    lemma_nearest_exact(tokens_used(calls));
}

/// A snapshot shows as `Transitioning` a period from which a session has used more than the
/// tolerance, and the last call more than one percent of it.
pub proof fn law_session_snapshot_shows_depletion(
    session_id: Seq<char>,
    config: ConfigView,
    period: BudgetPeriod,
    limit: u64,
    calls: Seq<(u64, Seq<char>, i64)>,
    now_ms: i64,
)
    requires
        config.limit(period) == Some(limit),
        config.tolerance <= FULL_TOLERANCE,
        limit <= 0x10_0000_0000_0000,
        tokens_used(calls) <= 0x10_0000_0000_0000,
        calls.len() >= 2,
        0 < calls.last().0 <= 0x4000_0000_0000,
    ensures
        ({
            let guard = recorded_all(GuardView::started(session_id, config), calls);
            let tolerance = limit * config.tolerance / 1_000_000_000;
            guard.snapshot(now_ms).periods[period.name()].phase == Phase::Transitioning
                <==> tokens_used(calls) > tolerance && 100 * calls.last().0 > tolerance
        }),
{
    let guard = recorded_all(GuardView::started(session_id, config), calls);
    lemma_session_valid(session_id, config, calls);
    law_session_notes_what_remained(session_id, config, period, limit, calls);
    lemma_session_steps(session_id, config, period, limit, calls);
    law_phase_in_tokens(guard.periods[period.name()]);
    law_snapshot_shows_each_period(guard, now_ms, period.name());
}

/// Overspending is throttled: a session that has used more than the tolerance of a period, and
/// more than one percent of it in the last call, is sent down the ladder after the warm-up, while
/// tokens remain of some period.
pub proof fn law_overspending_session_throttles(
    session_id: Seq<char>,
    config: ConfigView,
    period: BudgetPeriod,
    limit: u64,
    funded: BudgetPeriod,
    calls: Seq<(u64, Seq<char>, i64)>,
)
    requires
        config.limit(period) == Some(limit),
        config.tolerance <= FULL_TOLERANCE,
        limit <= 0x10_0000_0000_0000,
        tokens_used(calls) <= 0x10_0000_0000_0000,
        calls.len() >= 2,
        calls.len() >= config.warmup_records,
        0 < calls.last().0 <= 0x4000_0000_0000,
        tokens_used(calls) > limit * config.tolerance / 1_000_000_000,
        100 * calls.last().0 > limit * config.tolerance / 1_000_000_000,
        config.limit(funded) matches Some(tokens) && tokens_used(calls) < tokens
            <= 0x20_0000_0000_0000,
    ensures
        ({
            let guard = recorded_all(GuardView::started(session_id, config), calls);
            let ladder = config.throttle_ladder;
            guard.recommended() matches ActionView::Throttle(model) && {
                &&& ladder.len() == 0 ==> model == calls.last().1
                &&& guard.throttle_level + 1 < ladder.len() ==> model == ladder[(
                guard.throttle_level + 1) as int]
                &&& 0 < ladder.len() <= guard.throttle_level + 1 ==> model == ladder.last()
            }
        }),
{
    let guard = recorded_all(GuardView::started(session_id, config), calls);
    lemma_session_valid(session_id, config, calls);
    law_session_records_each_call(session_id, config, calls);
    law_session_notes_what_remained(session_id, config, funded, config.limit(funded)->0, calls);
    law_session_notes_what_remained(session_id, config, period, limit, calls);
    lemma_session_steps(session_id, config, period, limit, calls);
    law_phase_in_tokens(guard.periods[period.name()]);
    law_transitioning_period_is_throttled(guard, period.name(), funded.name());
}

/// Steady spending within the tolerances is left alone: a session whose last call used no more
/// than the one two before it, and which has used no more than the tolerance of any period,
/// proceeds with the requested model.
pub proof fn law_steady_session_proceeds(
    session_id: Seq<char>,
    config: ConfigView,
    calls: Seq<(u64, Seq<char>, i64)>,
)
    requires
        config.tolerance <= FULL_TOLERANCE,
        calls.len() >= 3,
        calls.last().0 <= calls[calls.len() - 3].0,
        tokens_used(calls) <= 0x10_0000_0000_0000,
        forall|period: BudgetPeriod|
            #![trigger config.limit(period)]
            config.limit(period) matches Some(limit) ==> limit <= 0x10_0000_0000_0000
                && tokens_used(calls) < limit && tokens_used(calls) <= limit * config.tolerance
                / 1_000_000_000,
    ensures
        recorded_all(GuardView::started(session_id, config), calls).recommended()
            == ActionView::Proceed(calls.last().1),
{
    let guard = recorded_all(GuardView::started(session_id, config), calls);
    lemma_session_valid(session_id, config, calls);
    law_session_records_each_call(session_id, config, calls);
    assert forall|name: Seq<char>| #[trigger] guard.periods.contains_key(name) implies {
        &&& guard.periods[name].phase() == Phase::Stable
        &&& guard.periods[name].current > 0
    } by {
        law_limited_periods_are_tracked(config, name);
        assert(config.all_periods().dom().contains(name));
        let period = choose|period: BudgetPeriod|
            #[trigger] period.name() == name && config.limit(period) is Some;
        let limit = config.limit(period)->0;
        law_session_notes_what_remained(session_id, config, period, limit, calls);
        lemma_session_steps(session_id, config, period, limit, calls);
        let q = guard.periods[name];
        let n = q.history.len();
        lemma_nearest_exact(q.history[n - 1] - q.history[n - 2]);
        lemma_nearest_exact(q.history[n - 3] - q.history[n - 4]);
        lemma_nearest_exact(q.initial - q.tolerance);
    }
    law_unwarned_spending_proceeds(guard);
    law_halt_exactly_when_nothing_remains(guard);
}

/// Accelerating spending is caught within the tolerance: a session whose last call used more than
/// one percent of the tolerance of a period, and more than the call two before it, is throttled
/// after the warm-up, while tokens remain of some period.
pub proof fn law_accelerating_session_throttles(
    session_id: Seq<char>,
    config: ConfigView,
    period: BudgetPeriod,
    limit: u64,
    funded: BudgetPeriod,
    calls: Seq<(u64, Seq<char>, i64)>,
)
    requires
        config.throttle_ladder.len() > 0,
        config.limit(period) == Some(limit),
        config.tolerance <= FULL_TOLERANCE,
        limit <= 0x10_0000_0000_0000,
        tokens_used(calls) <= 0x10_0000_0000_0000,
        calls.len() >= 2,
        calls.len() >= config.warmup_records,
        0 < calls.last().0 <= 0x4000_0000_0000,
        100 * calls.last().0 > limit * config.tolerance / 1_000_000_000,
        calls.len() >= 3 ==> calls.last().0 > calls[calls.len() - 3].0,
        config.limit(funded) matches Some(tokens) && tokens_used(calls) < tokens
            <= 0x20_0000_0000_0000,
    ensures
        recorded_all(GuardView::started(session_id, config), calls).recommended() is Throttle,
{
    let guard = recorded_all(GuardView::started(session_id, config), calls);
    lemma_session_valid(session_id, config, calls);
    law_session_notes_what_remained(session_id, config, funded, config.limit(funded)->0, calls);
    law_session_notes_what_remained(session_id, config, period, limit, calls);
    lemma_session_steps(session_id, config, period, limit, calls);
    law_phase_in_tokens(guard.periods[period.name()]);
    if exists|name: Seq<char>| #[trigger]
        guard.periods.contains_key(name) && guard.periods[name].phase() == Phase::Transitioning {
        let name = choose|name: Seq<char>| #[trigger]
            guard.periods.contains_key(name) && guard.periods[name].phase()
                == Phase::Transitioning;
        law_transitioning_period_is_throttled(guard, name, funded.name());
    } else {
        law_accelerating_period_is_throttled(guard, period.name(), funded.name());
    }
}

/// A session halts exactly when its calls have used up every limit, and there is one.
pub proof fn law_session_halts_when_used_up(
    session_id: Seq<char>,
    config: ConfigView,
    calls: Seq<(u64, Seq<char>, i64)>,
)
    requires
        config.tolerance <= FULL_TOLERANCE,
        tokens_used(calls) <= 0x20_0000_0000_0000,
        forall|period: BudgetPeriod|
            #![trigger config.limit(period)]
            config.limit(period) matches Some(limit) ==> limit <= 0x20_0000_0000_0000,
    ensures
        recorded_all(GuardView::started(session_id, config), calls).recommended() is Halt <==> {
            &&& config.daily is Some || config.weekly is Some || config.monthly is Some
            &&& config.daily matches Some(limit) ==> tokens_used(calls) >= limit
            &&& config.weekly matches Some(limit) ==> tokens_used(calls) >= limit
            &&& config.monthly matches Some(limit) ==> tokens_used(calls) >= limit
        },
{
    let guard = recorded_all(GuardView::started(session_id, config), calls);
    lemma_session_valid(session_id, config, calls);
    law_halt_exactly_when_nothing_remains(guard);
    assert forall|period: BudgetPeriod|
        #![trigger config.limit(period)]
        config.limit(period) is Some implies guard.periods.contains_key(period.name())
        && guard.periods[period.name()].current == config.limit(period)->0 - tokens_used(
        calls,
    ) by {
        law_session_notes_what_remained(session_id, config, period, config.limit(period)->0, calls);
    }
    assert(config.limit(BudgetPeriod::Daily) == config.daily);
    assert(config.limit(BudgetPeriod::Weekly) == config.weekly);
    assert(config.limit(BudgetPeriod::Monthly) == config.monthly);
    assert forall|name: Seq<char>| #[trigger] guard.periods.contains_key(name) implies exists|
        period: BudgetPeriod,
    | #[trigger] period.name() == name && config.limit(period) is Some by {
        law_limited_periods_are_tracked(config, name);
        assert(config.all_periods().dom().contains(name));
    }
}

} // verus!
