//! What each operation of the guard does, for every state and every argument.
use vstd::prelude::*;

use crate::action::{decision, severity, ActionView, BudgetAction};
use crate::amount::{
    in_range, lemma_nearest_in_double_range, lemma_nearest_twice, nearest_double,
};
use crate::checker::{drift_rate_bits, Phase};
use crate::config::{BudgetConfig, BuilderView, ConfigView};
use crate::error::BudgetError;
use crate::guard::entries;
use crate::laws::{law_limited_periods_are_tracked, recorded_all};
use crate::period::{law_names_differ, BudgetPeriod};
use crate::snapshot::{
    by_name, period_shown, BudgetSnapshot, PeriodSnapshot, SnapshotView, SpendingRecord,
};
use crate::state::{lemma_full_allowance, GuardView};

verus! {

// Configuration.

/// A built configuration holds what was set: each limit and the tolerance as they were set,
/// whatever else was, and the ladder and the warm-up where they were set.
pub proof fn law_built_holds_what_was_set(builder: BuilderView)
    ensures
        builder.built().daily == builder.daily,
        builder.built().weekly == builder.weekly,
        builder.built().monthly == builder.monthly,
        builder.built().tolerance == builder.tolerance,
        builder.throttle_ladder matches Some(ladder) ==> builder.built().throttle_ladder == ladder,
        builder.warmup_records matches Some(n) ==> builder.built().warmup_records == n,
{
}

/// What was not set is unlimited, strict, or the default: four models from the most to the least
/// capable, and a warm-up of five records.
pub proof fn law_unset_is_default(builder: BuilderView)
    ensures
        BuilderView::unset().built().daily is None,
        BuilderView::unset().built().weekly is None,
        BuilderView::unset().built().monthly is None,
        BuilderView::unset().built().tolerance == 0,
        builder.throttle_ladder is None ==> builder.built().throttle_ladder == seq![
            "gpt-5-codex"@,
            "gpt-4.1"@,
            "gpt-4.1-mini"@,
            "gpt-4.1-nano"@,
        ],
        builder.warmup_records is None ==> builder.built().warmup_records == 5,
{
}

/// Setting one limit changes the built configuration in that limit alone, and setting the daily
/// one again replaces it.
pub proof fn law_limits_are_independent(builder: BuilderView, first: u64, tokens: u64)
    ensures
        ({
            let daily = BuilderView { daily: Some(tokens), ..builder };
            let weekly = BuilderView { weekly: Some(tokens), ..builder };
            let monthly = BuilderView { monthly: Some(tokens), ..builder };
            let before = BuilderView { daily: Some(first), ..builder };
            let again = BuilderView { daily: Some(tokens), ..before };
            &&& daily.built() == (ConfigView { daily: Some(tokens), ..builder.built() })
            &&& weekly.built() == (ConfigView { weekly: Some(tokens), ..builder.built() })
            &&& monthly.built() == (ConfigView { monthly: Some(tokens), ..builder.built() })
            &&& again.built() == daily.built()
        }),
{
}

/// Each period has the limit that the configuration gives it.
pub proof fn law_limit_is_that_of_the_period(config: ConfigView)
    ensures
        config.limit(BudgetPeriod::Daily) == config.daily,
        config.limit(BudgetPeriod::Weekly) == config.weekly,
        config.limit(BudgetPeriod::Monthly) == config.monthly,
{
}

/// The tolerance for a limit of `limit` tokens is the largest number of tokens that is no more
/// than `tolerance` billionths of it, and no more than 2^125.
pub proof fn law_tolerance_is_the_largest_allowed(config: ConfigView, limit: int, tokens: int)
    requires
        limit >= 0,
    ensures
        tokens <= config.tolerance_for(limit) <==> tokens * 1_000_000_000 <= limit
            * config.tolerance && tokens <= 0x2000_0000_0000_0000_0000_0000_0000_0000,
        config.tolerance_for(-limit) == 0,
{
    assert(limit == 0 ==> limit * config.tolerance == 0) by (nonlinear_arith);
    assert(limit >= 0 ==> limit * config.tolerance >= 0) by (nonlinear_arith)
        requires
            config.tolerance >= 0,
    ;
}

// New and restored guards.

/// A new guard has recorded nothing, is not throttled, and takes the first model of the ladder.
pub proof fn law_new_guard(session_id: Seq<char>, config: ConfigView)
    ensures
        ({
            let guard = GuardView::started(session_id, config);
            &&& guard.session_id == session_id
            &&& guard.config == config
            &&& guard.record_count == 0
            &&& guard.cumulative_total == 0
            &&& guard.throttle_level == 0
            &&& guard.history.len() == 0
            &&& config.throttle_ladder.len() > 0 ==> guard.active_model
                == config.throttle_ladder[0]
            &&& config.throttle_ladder.len() == 0 ==> guard.active_model == "unknown"@
        }),
{
}

/// A new guard tracks exactly the periods that have a limit. All of the limit remains of each, and
/// each is held to the tolerance on its limit.
pub proof fn law_new_guard_tracks_the_limits(
    session_id: Seq<char>,
    config: ConfigView,
    period: BudgetPeriod,
)
    ensures
        ({
            let periods = GuardView::started(session_id, config).periods;
            let limit = match period {
                BudgetPeriod::Daily => config.daily,
                BudgetPeriod::Weekly => config.weekly,
                BudgetPeriod::Monthly => config.monthly,
            };
            &&& periods.contains_key(period.name()) <==> limit is Some
            &&& limit matches Some(tokens) ==> {
                let q = periods[period.name()];
                &&& q.initial == nearest_double(tokens as int)
                &&& q.current == q.initial
                &&& q.tolerance == nearest_double(config.tolerance_for(q.initial))
                &&& q.history == seq![q.initial]
            }
        }),
        forall|name: Seq<char>|
            GuardView::started(session_id, config).periods.contains_key(name) ==> name
                == BudgetPeriod::Daily.name() || name == BudgetPeriod::Weekly.name() || name
                == BudgetPeriod::Monthly.name(),
{
    law_limited_periods_are_tracked(config, period.name());
    if let Some(tokens) = config.limit(period) {
        lemma_full_allowance(config, tokens as int);
        assert(config.all_periods()[period.name()] == config.full_allowance(tokens as int));
    } else if config.all_periods().contains_key(period.name()) {
        let other = choose|other: BudgetPeriod|
            #[trigger] other.name() == period.name() && config.limit(other) is Some;
        law_names_differ(other, period);
    }
}

/// A restored guard takes up the session, the total, the throttle level and the model of the
/// snapshot, and has recorded nothing itself.
pub proof fn law_restored_guard(snapshot: SnapshotView, config: ConfigView)
    ensures
        ({
            let guard = GuardView::restored(snapshot, config);
            &&& guard.session_id == snapshot.session_id
            &&& guard.config == config
            &&& guard.record_count == 0
            &&& guard.cumulative_total == nearest_double(snapshot.cumulative_total)
            &&& guard.throttle_level == snapshot.throttle_level
            &&& guard.active_model == snapshot.active_model
            &&& guard.history.len() == 0
        }),
{
}

/// A restored guard tracks exactly the periods of the snapshot, each with the limit and the
/// remaining tokens that the snapshot shows, held to the tolerance on its limit.
pub proof fn law_restored_guard_tracks_the_snapshot(
    snapshot: SnapshotView,
    config: ConfigView,
    name: Seq<char>,
)
    ensures
        ({
            let periods = GuardView::restored(snapshot, config).periods;
            let shown = snapshot.periods[name];
            &&& periods.contains_key(name) <==> snapshot.periods.contains_key(name)
            &&& snapshot.periods.contains_key(name) ==> {
                let q = periods[name];
                &&& q.initial == nearest_double(shown.limit as int)
                &&& q.current == nearest_double(shown.remaining as int)
                &&& q.tolerance == nearest_double(config.tolerance_for(q.initial))
                &&& q.history == seq![q.initial]
            }
        }),
{
    lemma_nearest_twice(snapshot.periods[name].limit as int);
}

/// Exactly the snapshots whose amounts are within 2^125 can be restored.
pub proof fn law_restorable_snapshots(snapshot: BudgetSnapshot)
    ensures
        snapshot.in_range() <==> {
            let top = 0x2000_0000_0000_0000_0000_0000_0000_0000int;
            &&& -top <= snapshot.cumulative_total <= top
            &&& forall|i: int|
                0 <= i < snapshot.periods.len() ==> -top <= (
                #[trigger] snapshot.periods[i]).1.limit <= top && -top
                    <= snapshot.periods[i].1.remaining <= top
        },
{
}

// Recording.

/// A record is noted once: in the history of the guard with its time, tokens and model, and in the
/// history of every period with what then remains of it.
pub proof fn law_record_is_noted_once(
    guard: GuardView,
    tokens: u64,
    model: Seq<char>,
    now_ms: i64,
)
    ensures
        ({
            let after = guard.recorded(tokens, model, now_ms);
            &&& after.record_count == guard.record_count + 1
            &&& after.history.len() == guard.history.len() + 1
            &&& after.history.drop_last() == guard.history
            &&& after.history.last().timestamp_ms == now_ms
            &&& after.history.last().tokens == nearest_double(tokens as int)
            &&& after.history.last().model == model
            &&& after.active_model == model
            &&& forall|name: Seq<char>| #[trigger]
                guard.periods.contains_key(name) ==> after.periods[name].history
                    == guard.periods[name].history.push(after.periods[name].current)
        }),
{
    let after = guard.recorded(tokens, model, now_ms);
    assert(after.history.drop_last() =~= guard.history);
}

/// A record takes its tokens from what remains of every period and adds them to the total, as
/// doubles subtract and add, and changes no limit, no tolerance and no setting.
pub proof fn law_record_takes_the_tokens(
    guard: GuardView,
    tokens: u64,
    model: Seq<char>,
    now_ms: i64,
)
    ensures
        ({
            let after = guard.recorded(tokens, model, now_ms);
            let taken = nearest_double(tokens as int);
            &&& after.session_id == guard.session_id
            &&& after.config == guard.config
            &&& after.cumulative_total == nearest_double(guard.cumulative_total + taken)
            &&& after.periods.dom() == guard.periods.dom()
            &&& forall|name: Seq<char>| #[trigger]
                guard.periods.contains_key(name) ==> {
                    &&& after.periods[name].current == nearest_double(
                        guard.periods[name].current - taken,
                    )
                    &&& after.periods[name].initial == guard.periods[name].initial
                    &&& after.periods[name].tolerance == guard.periods[name].tolerance
                }
        }),
{
    let after = guard.recorded(tokens, model, now_ms);
    assert(after.periods.dom() =~= guard.periods.dom());
}

/// The throttle level moves one rung down exactly when, before the record, tokens remained of
/// some period, the warm-up was over, some period was `Transitioning` and there was a rung below;
/// otherwise it stays.
pub proof fn law_level_moves_exactly_when_depleting(
    guard: GuardView,
    tokens: u64,
    model: Seq<char>,
    now_ms: i64,
)
    ensures
        ({
            let after = guard.recorded(tokens, model, now_ms);
            let moves = {
                &&& exists|name: Seq<char>| #[trigger]
                    guard.periods.contains_key(name) && guard.periods[name].current > 0
                &&& exists|name: Seq<char>| #[trigger]
                    guard.periods.contains_key(name) && guard.periods[name].phase()
                        == Phase::Transitioning
                &&& guard.record_count >= guard.config.warmup_records
                &&& guard.throttle_level + 1 < guard.config.throttle_ladder.len()
            };
            &&& moves ==> after.throttle_level == guard.throttle_level + 1
            &&& !moves ==> after.throttle_level == guard.throttle_level
        }),
{
    lemma_exhausted(guard);
}

// Recommending.

/// A guard is exhausted when it tracks something, and tokens remain of nothing that it tracks.
proof fn lemma_exhausted(guard: GuardView)
    ensures
        guard.exhausted() <==> {
            &&& exists|name: Seq<char>| guard.periods.contains_key(name)
            &&& !(exists|name: Seq<char>| #[trigger]
                guard.periods.contains_key(name) && guard.periods[name].current > 0)
        },
{
    if guard.periods.dom().is_empty() {
        assert(guard.periods.dom() =~= Set::empty());
    } else {
        let name = guard.periods.dom().choose();
        assert(guard.periods.contains_key(name));
    }
}

/// The guard halts exactly when it tracks periods and tokens remain of none of them.
pub proof fn law_halt_exactly_when_nothing_remains(guard: GuardView)
    ensures
        guard.recommended() is Halt <==> {
            &&& exists|name: Seq<char>| guard.periods.contains_key(name)
            &&& forall|name: Seq<char>| #[trigger]
                guard.periods.contains_key(name) ==> guard.periods[name].current <= 0
        },
{
    lemma_exhausted(guard);
}

/// Spending that no period warns of is left alone: where no period is `PreTransition` or
/// `Transitioning` and the guard does not halt, it proceeds with the requested model.
pub proof fn law_unwarned_spending_proceeds(guard: GuardView)
    requires
        forall|name: Seq<char>| #[trigger]
            guard.periods.contains_key(name) ==> guard.periods[name].phase() == Phase::Stable
                || guard.periods[name].phase() == Phase::Resolving,
    ensures
        guard.recommended() is Halt || guard.recommended() == ActionView::Proceed(
            guard.active_model,
        ),
{
}

/// The guard throttles only for a reason: after the warm-up, while tokens remain of some period,
/// and where some period is `PreTransition` or `Transitioning`.
pub proof fn law_throttle_needs_a_warning(guard: GuardView)
    ensures
        guard.recommended() is Throttle ==> {
            &&& guard.record_count >= guard.config.warmup_records
            &&& exists|name: Seq<char>| #[trigger]
                guard.periods.contains_key(name) && guard.periods[name].current > 0
            &&& exists|name: Seq<char>| #[trigger]
                guard.periods.contains_key(name) && (guard.periods[name].phase()
                    == Phase::PreTransition || guard.periods[name].phase()
                    == Phase::Transitioning)
        },
{
    lemma_exhausted(guard);
    if guard.recommended() is Throttle {
        let phase = guard.worst();
        assert(guard.any_in(phase));
        let name = choose|name: Seq<char>| #[trigger]
            guard.periods.contains_key(name) && guard.periods[name].phase() == phase;
        assert(guard.periods.contains_key(name));
    }
}

/// During the warm-up a guard with tokens remaining proceeds with the requested model.
pub proof fn law_warmup_proceeds(guard: GuardView, name: Seq<char>)
    requires
        guard.record_count < guard.config.warmup_records,
        guard.periods.contains_key(name),
        guard.periods[name].current > 0,
    ensures
        guard.recommended() == ActionView::Proceed(guard.active_model),
{
}

/// A period that is `Transitioning` is acted on: after the warm-up, while tokens remain of some
/// period, the guard throttles to the rung below its throttle level, to the last rung where there
/// is none below, and to the requested model where there is no ladder.
pub proof fn law_transitioning_period_is_throttled(
    guard: GuardView,
    name: Seq<char>,
    funded: Seq<char>,
)
    requires
        guard.record_count >= guard.config.warmup_records,
        guard.periods.contains_key(funded),
        guard.periods[funded].current > 0,
        guard.periods.contains_key(name),
        guard.periods[name].phase() == Phase::Transitioning,
    ensures
        guard.recommended() matches ActionView::Throttle(model) && ({
            let ladder = guard.config.throttle_ladder;
            let below = guard.throttle_level + 1;
            &&& ladder.len() == 0 ==> model == guard.active_model
            &&& below < ladder.len() ==> model == ladder[below as int]
            &&& 0 < ladder.len() <= below ==> model == ladder[ladder.len() - 1]
        }),
{
}

/// A period that is `PreTransition` is acted on where none is `Transitioning`: after the warm-up,
/// while tokens remain of some period, the guard throttles to the rung at its throttle level. Past
/// the end of the ladder it proceeds.
pub proof fn law_accelerating_period_is_throttled(
    guard: GuardView,
    name: Seq<char>,
    funded: Seq<char>,
)
    requires
        guard.record_count >= guard.config.warmup_records,
        guard.periods.contains_key(funded),
        guard.periods[funded].current > 0,
        guard.periods.contains_key(name),
        guard.periods[name].phase() == Phase::PreTransition,
        forall|other: Seq<char>| #[trigger]
            guard.periods.contains_key(other) ==> guard.periods[other].phase()
                != Phase::Transitioning,
    ensures
        ({
            let ladder = guard.config.throttle_ladder;
            let level = guard.throttle_level;
            &&& level < ladder.len() ==> guard.recommended() == ActionView::Throttle(
                ladder[level as int],
            )
            &&& level >= ladder.len() ==> guard.recommended() == ActionView::Proceed(
                guard.active_model,
            )
        }),
{
    assert(guard.any_in(Phase::PreTransition));
    assert(!guard.any_in(Phase::Transitioning));
}

/// The decision on a guard's state: to halt when exhausted, to proceed during the warm-up and in
/// the phases `Stable` and `Resolving`, and otherwise to throttle to a model of the ladder that is
/// the further down, the further down the guard is throttled already.
pub proof fn law_decision(
    config: ConfigView,
    count: nat,
    level: nat,
    model: Seq<char>,
    exhausted: bool,
    phase: Phase,
)
    ensures
        ({
            let made = decision(config, count, level, model, exhausted, phase);
            let ladder = config.throttle_ladder;
            let proceeds = count < config.warmup_records || phase == Phase::Stable || phase
                == Phase::Resolving || (phase == Phase::PreTransition && level >= ladder.len());
            &&& made is Halt <==> exhausted
            &&& made == ActionView::Proceed(model) <==> !exhausted && proceeds
            &&& !exhausted && !proceeds ==> (made matches ActionView::Throttle(chosen) && {
                let at = if phase == Phase::Transitioning {
                    level + 1
                } else {
                    level
                };
                &&& at < ladder.len() ==> chosen == ladder[at as int]
                &&& 0 < ladder.len() <= at ==> chosen == ladder[ladder.len() - 1]
                &&& ladder.len() == 0 ==> chosen == model
            })
        }),
{
}

/// `Transitioning` outweighs every other phase, and every other phase outweighs `Stable`.
pub proof fn law_severities(phase: Phase)
    ensures
        phase != Phase::Transitioning ==> severity(phase) < severity(Phase::Transitioning),
        phase != Phase::Stable ==> severity(phase) > severity(Phase::Stable),
        severity(Phase::PreTransition) == severity(Phase::Resolving),
{
}

// Snapshots.

/// A snapshot shows the guard as it stands: its session, total, throttle level and model, the time
/// that it was taken, and the tracked periods.
pub proof fn law_snapshot_shows_the_guard(guard: GuardView, now_ms: i64)
    ensures
        ({
            let snapshot = guard.snapshot(now_ms);
            &&& snapshot.session_id == guard.session_id
            &&& snapshot.timestamp_ms == now_ms
            &&& snapshot.cumulative_total == guard.cumulative_total
            &&& snapshot.throttle_level == guard.throttle_level
            &&& snapshot.active_model == guard.active_model
            &&& snapshot.periods.dom() == guard.periods.dom()
        }),
{
    assert(guard.snapshot(now_ms).periods.dom() =~= guard.periods.dom());
}

/// A snapshot shows of every period its limit, what is used and what is left of it but not below
/// zero, whether it is overshot by more than the tolerance, and the phase and the drift rate that
/// the checker gives it.
pub proof fn law_snapshot_shows_each_period(guard: GuardView, now_ms: i64, name: Seq<char>)
    requires
        guard.valid(),
        guard.periods.contains_key(name),
    ensures
        ({
            let shown = guard.snapshot(now_ms).periods[name];
            let q = guard.periods[name];
            let used = nearest_double(q.initial - q.current);
            &&& shown.limit == q.initial
            &&& shown.remaining == if q.current >= 0 {
                q.current
            } else {
                0
            }
            &&& shown.consumed == if used >= 0 {
                used
            } else {
                0
            }
            &&& shown.violated <==> q.current + guard.config.tolerance_for(q.initial) < 0
            &&& shown.phase == q.phase()
            &&& shown.drift_rate == drift_rate_bits(q.history)
        }),
{
    let q = guard.periods[name];
    assert(q.only_spent());
    lemma_nearest_in_double_range(q.initial - q.current);
}

/// The entry for a period with any limit, remaining amount and tolerance within range.
pub proof fn law_shown_period(
    limit: int,
    current: int,
    tolerance: int,
    phase: Phase,
    drift_rate: u64,
)
    requires
        in_range(limit),
        in_range(current),
    ensures
        ({
            let shown = period_shown(limit, current, tolerance, phase, drift_rate);
            let used = nearest_double(limit - current);
            &&& shown.limit == limit
            &&& shown.remaining == if current >= 0 {
                current
            } else {
                0
            }
            &&& shown.consumed == if used >= 0 {
                used
            } else {
                0
            }
            &&& shown.violated <==> current + tolerance < 0
            &&& shown.phase == phase
            &&& shown.drift_rate == drift_rate
        }),
{
    lemma_nearest_in_double_range(limit - current);
}

/// A list of named entries describes a period exactly when it has an entry under that name, and
/// the last such entry counts.
pub proof fn law_last_entry_counts(list: Seq<(String, PeriodSnapshot)>, name: Seq<char>, at: int)
    requires
        0 <= at < list.len(),
        list[at].0@ == name,
        forall|i: int| at < i < list.len() ==> (#[trigger] list[i]).0@ != name,
    ensures
        by_name(list).contains_key(name),
        by_name(list)[name] == list[at].1,
    decreases list.len(),
{
    if at < list.len() - 1 {
        law_last_entry_counts(list.drop_last(), name, at);
    }
}

/// A list of named entries describes no period that it has no entry for.
pub proof fn law_no_entry_no_period(list: Seq<(String, PeriodSnapshot)>, name: Seq<char>)
    requires
        forall|i: int| 0 <= i < list.len() ==> (#[trigger] list[i]).0@ != name,
    ensures
        !by_name(list).contains_key(name),
    decreases list.len(),
{
    if list.len() > 0 {
        law_no_entry_no_period(list.drop_last(), name);
    }
}

// Resetting.

/// A period can be reset exactly when the configuration limits it and it is tracked.
pub proof fn law_reset_exactly_when_limited_and_tracked(guard: GuardView)
    ensures
        guard.can_reset(BudgetPeriod::Daily) <==> guard.config.daily is Some
            && guard.periods.contains_key(BudgetPeriod::Daily.name()),
        guard.can_reset(BudgetPeriod::Weekly) <==> guard.config.weekly is Some
            && guard.periods.contains_key(BudgetPeriod::Weekly.name()),
        guard.can_reset(BudgetPeriod::Monthly) <==> guard.config.monthly is Some
            && guard.periods.contains_key(BudgetPeriod::Monthly.name()),
{
}

/// Every period that has a limit can be reset, on a new guard and after any calls.
pub proof fn law_limited_periods_can_be_reset(
    session_id: Seq<char>,
    config: ConfigView,
    calls: Seq<(u64, Seq<char>, i64)>,
    period: BudgetPeriod,
)
    ensures
        recorded_all(GuardView::started(session_id, config), calls).can_reset(period) <==> (
        match period {
            BudgetPeriod::Daily => config.daily is Some,
            BudgetPeriod::Weekly => config.weekly is Some,
            BudgetPeriod::Monthly => config.monthly is Some,
        }),
    decreases calls.len(),
{
    let started = GuardView::started(session_id, config);
    law_new_guard_tracks_the_limits(session_id, config, period);
    if calls.len() > 0 {
        law_limited_periods_can_be_reset(session_id, config, calls.drop_last(), period);
        law_record_takes_the_tokens(
            recorded_all(started, calls.drop_last()),
            calls.last().0,
            calls.last().1,
            calls.last().2,
        );
        law_reset_exactly_when_limited_and_tracked(recorded_all(started, calls.drop_last()));
        law_reset_exactly_when_limited_and_tracked(recorded_all(started, calls));
    }
}

/// A reset period is as it was on the new guard: its whole limit remains, nothing is noted but
/// that, and it is held to the tolerance on its limit. Everything else stays as it was.
pub proof fn law_reset_period_is_as_new(guard: GuardView, period: BudgetPeriod, tokens: u64)
    requires
        guard.can_reset(period),
        tokens == (match period {
            BudgetPeriod::Daily => guard.config.daily,
            BudgetPeriod::Weekly => guard.config.weekly,
            BudgetPeriod::Monthly => guard.config.monthly,
        })->0,
    ensures
        ({
            let after = guard.reset(period);
            let q = after.periods[period.name()];
            &&& q.initial == nearest_double(tokens as int)
            &&& q.current == q.initial
            &&& q.tolerance == nearest_double(guard.config.tolerance_for(q.initial))
            &&& q.history == seq![q.initial]
            &&& after.session_id == guard.session_id
            &&& after.config == guard.config
            &&& after.record_count == guard.record_count
            &&& after.cumulative_total == guard.cumulative_total
            &&& after.throttle_level == guard.throttle_level
            &&& after.active_model == guard.active_model
            &&& after.history == guard.history
            &&& after.periods.dom() == guard.periods.dom()
            &&& forall|name: Seq<char>|
                name != period.name() ==> #[trigger] after.periods[name] == guard.periods[name]
        }),
{
    let after = guard.reset(period);
    lemma_nearest_twice(tokens as int);
    assert(after.periods.dom() =~= guard.periods.dom());
}

// What the types say.

/// A recommendation says what it is and which model it names.
pub proof fn law_action_says_what_it_is(model: String)
    ensures
        BudgetAction::Proceed(model)@ == ActionView::Proceed(model@),
        BudgetAction::Throttle(model)@ == ActionView::Throttle(model@),
        BudgetAction::Halt@ == ActionView::Halt,
{
}

/// A list of records says of each record, in its place, the time, the tokens and the model.
pub proof fn law_records_say_what_they_hold(list: Seq<SpendingRecord>, i: int)
    requires
        0 <= i < list.len(),
    ensures
        entries(list).len() == list.len(),
        entries(list)[i].timestamp_ms == list[i].timestamp_ms,
        entries(list)[i].tokens == list[i].tokens,
        entries(list)[i].model == list[i].model@,
{
}

/// A configuration says what its fields hold, the ladder rung by rung.
pub proof fn law_config_says_what_it_holds(config: BudgetConfig)
    ensures
        config@.daily == config.daily,
        config@.weekly == config.weekly,
        config@.monthly == config.monthly,
        config@.tolerance == config.tolerance,
        config@.warmup_records == config.warmup_records,
        config@.throttle_ladder.len() == config.throttle_ladder.len(),
        forall|i: int|
            0 <= i < config.throttle_ladder.len() ==> #[trigger] config@.throttle_ladder[i]
                == config.throttle_ladder[i]@,
{
}

/// A snapshot says what its fields hold.
pub proof fn law_snapshot_says_what_it_holds(snapshot: BudgetSnapshot)
    ensures
        snapshot@.session_id == snapshot.session_id@,
        snapshot@.timestamp_ms == snapshot.timestamp_ms,
        snapshot@.periods == by_name(snapshot.periods@),
        snapshot@.cumulative_total == snapshot.cumulative_total,
        snapshot@.throttle_level == snapshot.throttle_level,
        snapshot@.active_model == snapshot.active_model@,
{
}

/// The periods go by the names daily, weekly and monthly.
pub proof fn law_period_names()
    ensures
        BudgetPeriod::Daily.name() == "daily"@,
        BudgetPeriod::Weekly.name() == "weekly"@,
        BudgetPeriod::Monthly.name() == "monthly"@,
{
}

/// The message of an error names the period that it is about.
pub proof fn law_message_names_the_period(name: String)
    ensures
        ({
            let message = BudgetError::NotRegistered(name).message();
            let (start, end) = ("budget period '"@, "' is not registered"@);
            &&& message.len() == start.len() + name@.len() + end.len()
            &&& message.take(start.len() as int) == start
            &&& message.subrange(start.len() as int, (start.len() + name@.len()) as int) == name@
            &&& message.skip((start.len() + name@.len()) as int) == end
        }),
{
    let message = BudgetError::NotRegistered(name).message();
    let (start, end) = ("budget period '"@, "' is not registered"@);
    assert(message.take(start.len() as int) =~= start);
    assert(message.subrange(start.len() as int, (start.len() + name@.len()) as int) =~= name@);
    assert(message.skip((start.len() + name@.len()) as int) =~= end);
}

} // verus!
