//! What to do before the next API call.
use vstd::prelude::*;

use crate::checker::Phase;
use crate::config::{BudgetConfig, ConfigView};

verus! {

/// The action the budget guard recommends before the next API call.
#[derive(Debug, Clone, PartialEq, Eq)]
pub enum BudgetAction {
    /// Budget healthy. Use the originally-requested model slug.
    Proceed(String),
    /// Budget approaching depletion. Downgrade to a cheaper model.
    Throttle(String),
    /// All budget windows exhausted. Should block further requests.
    Halt,
}

/// What a [`BudgetAction`] says.
pub enum ActionView {
    Proceed(Seq<char>),
    Throttle(Seq<char>),
    Halt,
}

impl View for BudgetAction {
    type V = ActionView;

    open spec fn view(&self) -> ActionView {
        match self {
            BudgetAction::Proceed(model) => ActionView::Proceed(model@),
            BudgetAction::Throttle(model) => ActionView::Throttle(model@),
            BudgetAction::Halt => ActionView::Halt,
        }
    }
}

/// How severe a phase is.
pub open spec fn severity(phase: Phase) -> int {
    match phase {
        Phase::Stable => 0,
        Phase::PreTransition => 1,
        Phase::Resolving => 1,
        Phase::Transitioning => 2,
    }
}

/// The model on a rung of the ladder: the last rung stands for all below it, and `fallback` is
/// used where there is no ladder.
pub open spec fn rung(ladder: Seq<Seq<char>>, level: nat, fallback: Seq<char>) -> Seq<char> {
    if ladder.len() == 0 {
        fallback
    } else if level < ladder.len() {
        ladder[level as int]
    } else {
        ladder.last()
    }
}

/// The recommended action.
///
/// With every budget exhausted it is to halt. During the warm-up it is to proceed. After that the
/// most severe phase decides: `Transitioning` steps down from the throttle level by one rung,
/// `PreTransition` takes the rung at the throttle level, and the others proceed.
pub open spec fn decision(
    config: ConfigView,
    record_count: nat,
    throttle_level: nat,
    active_model: Seq<char>,
    exhausted: bool,
    worst: Phase,
) -> ActionView {
    if exhausted {
        ActionView::Halt
    } else if record_count < config.warmup_records {
        ActionView::Proceed(active_model)
    } else {
        match worst {
            Phase::Transitioning => ActionView::Throttle(
                rung(config.throttle_ladder, throttle_level + 1, active_model),
            ),
            Phase::PreTransition => if throttle_level < config.throttle_ladder.len() {
                ActionView::Throttle(config.throttle_ladder[throttle_level as int])
            } else {
                ActionView::Proceed(active_model)
            },
            Phase::Resolving => ActionView::Proceed(active_model),
            Phase::Stable => ActionView::Proceed(active_model),
        }
    }
}

/// How severe a phase is.
pub fn phase_severity(p: Phase) -> (level: u8)
    ensures
        level == severity(p),
{
    match p {
        Phase::Stable => 0,
        Phase::PreTransition => 1,
        Phase::Resolving => 1,
        Phase::Transitioning => 2,
    }
}

/// The most severe of several phases, the last one of those that are equally severe; `Stable`
/// where there is none.
pub fn worst_phase(phases: &Vec<Phase>) -> (worst: Phase)
    ensures
        phases.len() == 0 ==> worst == Phase::Stable,
        phases.len() > 0 ==> exists|i: int|
            #![trigger phases[i]]
            {
                &&& 0 <= i < phases.len()
                &&& worst == phases[i]
                &&& forall|j: int| 0 <= j < i ==> severity(#[trigger] phases[j]) <= severity(worst)
                &&& forall|j: int|
                    i < j < phases.len() ==> severity(#[trigger] phases[j]) < severity(worst)
            },
{
    if phases.len() == 0 {
        return Phase::Stable;
    }
    let mut at: usize = 0;
    let mut next: usize = 1;
    while next < phases.len()
        invariant
            at < next <= phases.len(),
            forall|j: int|
                0 <= j < at ==> severity(#[trigger] phases[j]) <= severity(phases[at as int]),
            forall|j: int|
                at < j < next ==> severity(#[trigger] phases[j]) < severity(phases[at as int]),
        decreases phases.len() - next,
    {
        if phase_severity(phases[next]) >= phase_severity(phases[at]) {
            at = next;
        }
        next = next + 1;
    }
    phases[at]
}

/// The recommended action for a guard in this state; see [`decision`].
pub fn decide(
    config: &BudgetConfig,
    record_count: usize,
    throttle_level: usize,
    active_model: &String,
    exhausted: bool,
    worst: Phase,
) -> (action: BudgetAction)
    ensures
        action@ == decision(
            config@,
            record_count as nat,
            throttle_level as nat,
            active_model@,
            exhausted,
            worst,
        ),
{
    if exhausted {
        return BudgetAction::Halt;
    }
    if record_count < config.warmup_records {
        return BudgetAction::Proceed(active_model.clone());
    }
    let rungs: usize = config.throttle_ladder.len();
    match worst {
        Phase::Transitioning => {
            if rungs == 0 {
                return BudgetAction::Throttle(active_model.clone());
            }
            let index: usize = if throttle_level < rungs - 1 {
                throttle_level + 1
            } else {
                rungs - 1
            };
            BudgetAction::Throttle(config.throttle_ladder[index].clone())
        },
        Phase::PreTransition => {
            if throttle_level < rungs {
                BudgetAction::Throttle(config.throttle_ladder[throttle_level].clone())
            } else {
                BudgetAction::Proceed(active_model.clone())
            }
        },
        Phase::Resolving => BudgetAction::Proceed(active_model.clone()),
        Phase::Stable => BudgetAction::Proceed(active_model.clone()),
    }
}

} // verus!
