use codex_budget_guard::action::{decide, phase_severity, worst_phase};
use codex_budget_guard::amount::round_to_double;
use codex_budget_guard::config::{
    default_throttle_ladder, default_warmup_records, FULL_TOLERANCE,
};
use codex_budget_guard::snapshot::show_period;
use codex_budget_guard::{BudgetAction, BudgetConfig, BudgetError, BudgetGuard, BudgetPeriod, Phase};

#[test]
fn rounding_agrees_with_doubles() {
    let mut samples: Vec<i128> = vec![0, 1, 2, 1000, 9_007_199_254_740_991, 1 << 53];
    for shift in 50..125u32 {
        let base = 1i128 << shift;
        for offset in [0i128, 1, 2, 3, 4, 5, 6, 7, 511, 512, 513, 1023, 1024, 1025, 3072] {
            samples.push(base + offset);
            samples.push(base - offset);
            samples.push(base + (base >> 53) * offset / 2);
            samples.push(base + (base >> 53) + offset);
        }
    }
    for v in samples {
        assert_eq!(round_to_double(v), v as f64 as i128, "{}", v);
        assert_eq!(round_to_double(-v), -v as f64 as i128, "{}", -v);
    }
    assert_eq!(round_to_double(9_007_199_254_740_993), 9_007_199_254_740_992);
    assert_eq!(round_to_double(9_007_199_254_740_995), 9_007_199_254_740_996);
}

#[test]
fn labels_name_the_periods() {
    assert_eq!(BudgetPeriod::labels(), ["daily", "weekly", "monthly"]);
    assert_eq!(BudgetPeriod::Daily.label(), "daily");
    assert_eq!(BudgetPeriod::Weekly.label(), "weekly");
    assert_eq!(BudgetPeriod::Monthly.label(), "monthly");
}

#[test]
fn default_config() {
    let config = BudgetConfig::default();
    assert_eq!(config.daily, Some(500_000));
    assert_eq!(config.weekly, Some(2_500_000));
    assert_eq!(config.monthly, Some(10_000_000));
    assert_eq!(config.tolerance, 0);
    assert_eq!(config.warmup_records, 5);
    assert_eq!(
        config.throttle_ladder,
        vec!["gpt-5-codex", "gpt-4.1", "gpt-4.1-mini", "gpt-4.1-nano"]
    );
    assert_eq!(default_throttle_ladder().len(), 4);
    assert_eq!(default_warmup_records(), 5);
}

#[test]
fn builder_sets_and_defaults() {
    let unset = BudgetConfig::builder().build();
    assert_eq!(unset.daily, None);
    assert_eq!(unset.weekly, None);
    assert_eq!(unset.monthly, None);
    assert_eq!(unset.tolerance, 0);
    assert_eq!(unset.warmup_records, 5);
    assert_eq!(unset.throttle_ladder, default_throttle_ladder());

    let config = BudgetConfig::builder()
        .daily(1)
        .daily(2)
        .weekly(3)
        .monthly(4)
        .tolerance(2 * FULL_TOLERANCE)
        .throttle_ladder(vec![])
        .warmup_records(9)
        .build();
    assert_eq!(config.daily, Some(2));
    assert_eq!(config.weekly, Some(3));
    assert_eq!(config.monthly, Some(4));
    assert_eq!(config.tolerance, FULL_TOLERANCE);
    assert!(config.throttle_ladder.is_empty());
    assert_eq!(config.warmup_records, 9);
    assert_eq!(config.limit_for_period(BudgetPeriod::Daily), Some(2));
    assert_eq!(config.limit_for_period(BudgetPeriod::Weekly), Some(3));
    assert_eq!(config.limit_for_period(BudgetPeriod::Monthly), Some(4));
}

#[test]
fn tolerance_is_a_share_of_the_limit() {
    let config = BudgetConfig::builder().tolerance(50_000_000).build();
    assert_eq!(config.tolerance_for(500_000), 25_000);
    assert_eq!(config.tolerance_for(19), 0);
    assert_eq!(config.tolerance_for(39), 1);
    let full = BudgetConfig::builder().tolerance(FULL_TOLERANCE).build();
    assert_eq!(full.tolerance_for(12_345), 12_345);
    assert_eq!(BudgetConfig::default().tolerance_for(500_000), 0);
    assert_eq!(full.tolerance_for(1 << 64), 1 << 64);
    assert_eq!(full.tolerance_for((1 << 64) + 1), (1 << 64) + 1);
    assert_eq!(full.tolerance_for(1 << 125), 1 << 125);
    assert_eq!(config.tolerance_for(20 << 100), 1 << 100);
    assert_eq!(full.tolerance_for(0), 0);
    assert_eq!(full.tolerance_for(-1), 0);
    // Not more than the largest amount.
    assert_eq!(full.tolerance_for((1 << 125) + 1), 1 << 125);
    let huge = BudgetConfig { tolerance: u64::MAX, ..BudgetConfig::default() };
    assert_eq!(huge.tolerance_for(1), 18_446_744_073);
    assert_eq!(huge.tolerance_for(1_000_000_000), 18_446_744_073_709_551_615);
    assert_eq!(huge.tolerance_for(1 << 100), 1 << 125);
    assert_eq!(huge.tolerance_for(i128::MAX), 1 << 125);
}

#[test]
fn guard_starts_with_the_first_model() {
    let config = BudgetConfig::builder().daily(10).build();
    let guard = BudgetGuard::new("s", config);
    assert_eq!(guard.snapshot().active_model, "gpt-5-codex");
    let config = BudgetConfig::builder().daily(10).throttle_ladder(vec![]).build();
    let guard = BudgetGuard::new("s", config);
    assert_eq!(guard.snapshot().active_model, "unknown");
}

#[test]
fn severities() {
    assert_eq!(phase_severity(Phase::Stable), 0);
    assert_eq!(phase_severity(Phase::PreTransition), 1);
    assert_eq!(phase_severity(Phase::Resolving), 1);
    assert_eq!(phase_severity(Phase::Transitioning), 2);
}

#[test]
fn worst_phase_is_the_last_of_the_most_severe() {
    assert_eq!(worst_phase(&vec![]), Phase::Stable);
    assert_eq!(worst_phase(&vec![Phase::Stable]), Phase::Stable);
    assert_eq!(
        worst_phase(&vec![Phase::PreTransition, Phase::Resolving, Phase::Stable]),
        Phase::Resolving
    );
    assert_eq!(
        worst_phase(&vec![Phase::Resolving, Phase::PreTransition]),
        Phase::PreTransition
    );
    assert_eq!(
        worst_phase(&vec![Phase::Stable, Phase::Transitioning, Phase::PreTransition]),
        Phase::Transitioning
    );
}

#[test]
fn decisions() {
    let config = BudgetConfig::builder()
        .throttle_ladder(vec!["a".into(), "b".into(), "c".into()])
        .warmup_records(2)
        .build();
    let active = "x".to_string();
    let proceed = BudgetAction::Proceed("x".to_string());
    let throttle = |model: &str| BudgetAction::Throttle(model.to_string());
    assert_eq!(decide(&config, 9, 0, &active, true, Phase::Stable), BudgetAction::Halt);
    assert_eq!(decide(&config, 1, 0, &active, false, Phase::Transitioning), proceed);
    assert_eq!(decide(&config, 2, 0, &active, false, Phase::Transitioning), throttle("b"));
    assert_eq!(decide(&config, 2, 1, &active, false, Phase::Transitioning), throttle("c"));
    assert_eq!(decide(&config, 2, 2, &active, false, Phase::Transitioning), throttle("c"));
    assert_eq!(decide(&config, 2, 50, &active, false, Phase::Transitioning), throttle("c"));
    let last: usize = usize::MAX;
    assert_eq!(decide(&config, 2, last, &active, false, Phase::Transitioning), throttle("c"));
    assert_eq!(decide(&config, 2, 0, &active, false, Phase::PreTransition), throttle("a"));
    assert_eq!(decide(&config, 2, 2, &active, false, Phase::PreTransition), throttle("c"));
    assert_eq!(decide(&config, 2, 3, &active, false, Phase::PreTransition), proceed);
    assert_eq!(decide(&config, 2, 1, &active, false, Phase::Resolving), proceed);
    assert_eq!(decide(&config, 2, 1, &active, false, Phase::Stable), proceed);

    let no_ladder = BudgetConfig::builder().throttle_ladder(vec![]).warmup_records(0).build();
    assert_eq!(decide(&no_ladder, 0, 0, &active, false, Phase::Transitioning), throttle("x"));
    assert_eq!(decide(&no_ladder, 0, 0, &active, false, Phase::PreTransition), proceed);
}

#[test]
fn shown_period_is_not_below_zero() {
    let shown = show_period(100, -20, 19, Phase::Transitioning, 3);
    assert_eq!(shown.limit, 100);
    assert_eq!(shown.consumed, 120);
    assert_eq!(shown.remaining, 0);
    assert!(shown.violated);
    assert_eq!(shown.phase, Phase::Transitioning);
    assert_eq!(shown.drift_rate, 3);
    assert!(!show_period(100, -20, 20, Phase::Transitioning, 3).violated);
    assert!(!show_period(100, 0, 0, Phase::Transitioning, 3).violated);
    assert!(show_period(100, -1, 0, Phase::Transitioning, 3).violated);
    let shown = show_period(100, 140, 0, Phase::Stable, 0);
    assert_eq!(shown.consumed, 0);
    assert_eq!(shown.remaining, 140);
    assert!(!shown.violated);
}

#[test]
fn error_message() {
    let error = BudgetError::NotRegistered("weekly".to_string());
    assert_eq!(error.to_string(), "budget period 'weekly' is not registered");
}
