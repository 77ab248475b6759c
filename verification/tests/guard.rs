use codex_budget_guard::{
    BudgetAction, BudgetConfig, BudgetGuard, BudgetPeriod, BudgetSnapshot, Phase, PeriodSnapshot,
};
use serde_json::Value;

fn test_config() -> BudgetConfig {
    BudgetConfig::builder()
        .daily(1000)
        .weekly(5000)
        .monthly(20_000)
        .build()
}

fn period(snapshot: &BudgetSnapshot, label: &str) -> PeriodSnapshot {
    snapshot
        .periods
        .iter()
        .find(|entry| entry.0 == label)
        .map(|entry| entry.1)
        .unwrap()
}

fn has_period(snapshot: &BudgetSnapshot, label: &str) -> bool {
    snapshot.periods.iter().any(|entry| entry.0 == label)
}

/// The snapshot as JSON text.
fn json_text(snapshot: &BudgetSnapshot) -> String {
    let mut periods = serde_json::Map::new();
    for (label, shown) in &snapshot.periods {
        let mut entry = serde_json::Map::new();
        entry.insert("limit".to_string(), Value::from(shown.limit as f64));
        entry.insert("consumed".to_string(), Value::from(shown.consumed as f64));
        entry.insert("remaining".to_string(), Value::from(shown.remaining as f64));
        entry.insert("violated".to_string(), Value::from(shown.violated));
        entry.insert("phase".to_string(), Value::from(format!("{:?}", shown.phase)));
        entry.insert("drift_rate".to_string(), Value::from(f64::from_bits(shown.drift_rate)));
        periods.insert(label.clone(), Value::Object(entry));
    }
    let mut root = serde_json::Map::new();
    root.insert("session_id".to_string(), Value::from(snapshot.session_id.clone()));
    root.insert("timestamp_ms".to_string(), Value::from(snapshot.timestamp_ms));
    root.insert("periods".to_string(), Value::Object(periods));
    root.insert("cumulative_total".to_string(), Value::from(snapshot.cumulative_total as f64));
    root.insert("throttle_level".to_string(), Value::from(snapshot.throttle_level as u64));
    root.insert("active_model".to_string(), Value::from(snapshot.active_model.clone()));
    serde_json::to_string_pretty(&Value::Object(root)).unwrap()
}

/// The snapshot that a JSON text holds.
fn from_json(text: &str) -> BudgetSnapshot {
    let root: Value = serde_json::from_str(text).unwrap();
    let periods = root["periods"]
        .as_object()
        .unwrap()
        .iter()
        .map(|(label, entry)| {
            let shown = PeriodSnapshot {
                limit: entry["limit"].as_f64().unwrap() as i128,
                consumed: entry["consumed"].as_f64().unwrap() as i128,
                remaining: entry["remaining"].as_f64().unwrap() as i128,
                violated: entry["violated"].as_bool().unwrap(),
                phase: match entry["phase"].as_str().unwrap() {
                    "Stable" => Phase::Stable,
                    "PreTransition" => Phase::PreTransition,
                    "Transitioning" => Phase::Transitioning,
                    _ => Phase::Resolving,
                },
                drift_rate: entry["drift_rate"].as_f64().unwrap().to_bits(),
            };
            (label.clone(), shown)
        })
        .collect();
    BudgetSnapshot {
        session_id: root["session_id"].as_str().unwrap().to_string(),
        timestamp_ms: root["timestamp_ms"].as_i64().unwrap(),
        periods,
        cumulative_total: root["cumulative_total"].as_f64().unwrap() as i128,
        throttle_level: root["throttle_level"].as_u64().unwrap() as usize,
        active_model: root["active_model"].as_str().unwrap().to_string(),
    }
}

#[test]
fn new_guard_starts_healthy() {
    let guard = BudgetGuard::new("test-session", test_config());
    assert_eq!(guard.cumulative_total() as f64, 0.0);
    assert_eq!(guard.record_count(), 0);
    assert_eq!(guard.throttle_level(), 0);
    assert_eq!(guard.checker().registered().len(), 3);
}

#[test]
fn record_deducts_from_budget() {
    let mut guard = BudgetGuard::new("test-session", test_config());
    guard.record(100, "gpt-5-codex").unwrap();
    assert_eq!(guard.cumulative_total() as f64, 100.0);
    assert_eq!(guard.record_count(), 1);

    // daily remaining should be 1000 - 100 = 900
    assert!((guard.checker().current_value("daily") - 900.0).abs() < 1e-9);
}

#[test]
fn record_multiple_deducts_cumulatively() {
    let mut guard = BudgetGuard::new("test-session", test_config());
    guard.record(300, "gpt-5-codex").unwrap();
    guard.record(400, "gpt-5-codex").unwrap();
    guard.record(200, "gpt-5-codex").unwrap();
    assert_eq!(guard.cumulative_total() as f64, 900.0);

    // daily: 1000 - 900 = 100 remaining
    assert!((guard.checker().current_value("daily") - 100.0).abs() < 1e-9);
    // weekly: 5000 - 900 = 4100
    assert!((guard.checker().current_value("weekly") - 4100.0).abs() < 1e-9);
}

#[test]
fn exhaust_budget_returns_halt() {
    let config = BudgetConfig::builder().daily(100).build();
    let mut guard = BudgetGuard::new("test", config);
    guard.record(50, "gpt-5-codex").unwrap();
    guard.record(50, "gpt-5-codex").unwrap();
    let action = guard.record(1, "gpt-5-codex").unwrap();
    assert_eq!(action, BudgetAction::Halt);
}

#[test]
fn budget_approaching_limit_throttles() {
    let config = BudgetConfig::builder()
        .daily(5000) // large enough to avoid full exhaustion after 5 records
        .warmup_records(1)
        .build();
    let mut guard = BudgetGuard::new("test", config);

    // Spend aggressively: 5 turns of 800 each = 4000 of 5000
    for _ in 0..5 {
        guard.record(800, "gpt-5-codex").unwrap();
    }

    let action = guard.recommend_action();
    match action {
        BudgetAction::Throttle(_) => {} // expected
        other => panic!("expected Throttle, got {other:?}"),
    }
}

#[test]
fn snapshot_serialization_roundtrip() {
    let mut guard = BudgetGuard::new("test-session", test_config());
    guard.record(500, "gpt-5-codex").unwrap();

    let json = json_text(&guard.snapshot());
    let snapshot = from_json(&json);

    assert_eq!(snapshot.session_id, "test-session");
    assert_eq!(snapshot.cumulative_total as f64, 500.0);
    assert!(has_period(&snapshot, "daily"));
    assert!(has_period(&snapshot, "weekly"));
    assert!(has_period(&snapshot, "monthly"));

    // Restore from snapshot
    let restored = BudgetGuard::from_snapshot(snapshot, test_config());
    assert_eq!(restored.cumulative_total() as f64, 500.0);
}

#[test]
fn reset_period_restores_allowance() {
    let mut guard = BudgetGuard::new("test", test_config());
    guard.record(900, "gpt-5-codex").unwrap();
    assert!((guard.checker().current_value("daily") - 100.0).abs() < 1e-9);

    guard.reset_period(BudgetPeriod::Daily).unwrap();
    assert!((guard.checker().current_value("daily") - 1000.0).abs() < 1e-9);
}

#[test]
fn custom_ladder_respected() {
    let config = BudgetConfig::builder()
        .daily(500) // larger budget
        .throttle_ladder(vec!["my-big-model".into(), "my-small-model".into()])
        .warmup_records(1)
        .build();
    let mut guard = BudgetGuard::new("test", config);
    guard.record(250, "my-big-model").unwrap();
    guard.record(250, "my-big-model").unwrap();
    drop(guard);

    let config = BudgetConfig::builder()
        .daily(100)
        .throttle_ladder(vec!["my-big-model".into(), "my-small-model".into()])
        .warmup_records(2) // need 2 records
        .build();
    let mut guard = BudgetGuard::new("test", config);
    guard.record(40, "my-big-model").unwrap(); // 40 used
    guard.record(40, "my-big-model").unwrap(); // 80 used, 20 remain
    let action = guard.recommend_action();
    match &action {
        BudgetAction::Throttle(model) => {
            assert!(!model.is_empty());
        }
        _ => panic!("expected Throttle, got {action:?}"),
    }
}

#[test]
fn serializable_snapshot() {
    // Verify that snapshot can be (de)serialized via JSON
    let mut guard = BudgetGuard::new("serde-test", test_config());
    guard.record(100, "gpt-5-codex").unwrap();
    let json = json_text(&guard.snapshot());
    let parsed: Value = serde_json::from_str(&json).unwrap();
    assert_eq!(parsed["session_id"], "serde-test");
    assert_eq!(parsed["cumulative_total"], 100.0);
    assert!(parsed["periods"]["daily"]["remaining"].as_f64().unwrap() >= 0.0);
}

#[test]
fn history_tracks_records() {
    let mut guard = BudgetGuard::new("test", test_config());
    guard.record(100, "gpt-5-codex").unwrap();
    guard.record(200, "gpt-4.1").unwrap();
    assert_eq!(guard.history().len(), 2);
    assert_eq!(guard.history()[0].tokens as f64, 100.0);
    assert_eq!(guard.history()[1].model, "gpt-4.1");
}

#[test]
fn no_budget_periods_returns_error() {
    let config = BudgetConfig::default();
    let mut guard = BudgetGuard::new(
        "test",
        BudgetConfig { daily: None, weekly: None, monthly: None, ..config },
    );
    let result = guard.record(100, "gpt-5-codex");
    assert!(result.is_err());
    assert!(result.unwrap_err().to_string().contains("no budget periods"));
}

#[test]
fn phase_snapshots_integration() {
    let config = BudgetConfig::builder()
        .daily(500)
        .tolerance(0)
        .warmup_records(1)
        .build();
    let mut guard = BudgetGuard::new("phase-test", config);

    // Spend a little
    guard.record(100, "gpt-5-codex").unwrap();
    let snap = json_text(&guard.snapshot());
    let sv: Value = serde_json::from_str(&snap).unwrap();
    assert_eq!(sv["periods"]["daily"]["consumed"], 100.0);
    assert_eq!(sv["periods"]["daily"]["remaining"], 400.0);
}

#[test]
fn unregistered_period_reset_returns_error() {
    let config = BudgetConfig::builder().daily(100).build();
    let mut guard = BudgetGuard::new("test", config);
    // weekly wasn't registered
    let result = guard.reset_period(BudgetPeriod::Weekly);
    assert!(result.is_err());
}

// What a snapshot shows, and what a restored guard takes up.

#[test]
fn snapshot_shows_every_field() {
    let config = BudgetConfig::builder().daily(1000).weekly(5000).build();
    let mut guard = BudgetGuard::new("session", config);
    guard.record_at(300, "gpt-4.1", 7).unwrap();
    guard.record_at(100, "gpt-4.1", 8).unwrap();
    let snapshot = guard.snapshot_at(99);
    assert_eq!(snapshot.session_id, "session");
    assert_eq!(snapshot.timestamp_ms, 99);
    assert_eq!(snapshot.cumulative_total, 400);
    assert_eq!(snapshot.throttle_level, 0);
    assert_eq!(snapshot.active_model, "gpt-4.1");
    assert_eq!(snapshot.periods.len(), 2);
    assert_eq!(
        period(&snapshot, "daily"),
        PeriodSnapshot {
            limit: 1000,
            consumed: 400,
            remaining: 600,
            violated: false,
            phase: Phase::Transitioning,
            drift_rate: (-200.0f64).to_bits(),
        }
    );
    assert_eq!(
        period(&snapshot, "weekly"),
        PeriodSnapshot {
            limit: 5000,
            consumed: 400,
            remaining: 4600,
            violated: false,
            phase: Phase::Transitioning,
            drift_rate: (-200.0f64).to_bits(),
        }
    );
}

#[test]
fn new_guard_is_unspent() {
    let guard = BudgetGuard::new("s", test_config());
    let shown = period(&guard.snapshot(), "monthly");
    assert_eq!(
        shown,
        PeriodSnapshot {
            limit: 20_000,
            consumed: 0,
            remaining: 20_000,
            violated: false,
            phase: Phase::Stable,
            drift_rate: 0,
        }
    );
}

#[test]
fn overspent_period_shows_nothing_remaining() {
    let config = BudgetConfig::builder().daily(100).weekly(1000).build();
    let mut guard = BudgetGuard::new("s", config);
    guard.record(130, "m").unwrap();
    let snapshot = guard.snapshot();
    assert_eq!(period(&snapshot, "daily").remaining, 0);
    assert_eq!(period(&snapshot, "daily").consumed, 130);
    assert!(period(&snapshot, "daily").violated);
    assert!(!period(&snapshot, "weekly").violated);
    assert_eq!(guard.checker().current_value("daily"), -30.0);
    let restored = BudgetGuard::from_snapshot(snapshot, test_config());
    assert!(!period(&restored.snapshot(), "daily").violated);
    assert_eq!(restored.checker().current_value("daily"), 0.0);
    assert_eq!(restored.checker().initial_value("daily"), 100.0);
}

#[test]
fn restored_guard_resumes() {
    let mut guard = BudgetGuard::new("resume", test_config());
    guard.record(250, "gpt-4.1-mini").unwrap();
    let first = guard.snapshot();
    let restored = BudgetGuard::from_snapshot(first.clone(), test_config());
    assert_eq!(restored.record_count(), 0);
    assert_eq!(restored.history().len(), 0);
    assert_eq!(restored.cumulative_total(), 250);
    let second = restored.snapshot();
    assert_eq!(second.session_id, "resume");
    assert_eq!(second.active_model, "gpt-4.1-mini");
    for label in BudgetPeriod::labels() {
        assert_eq!(period(&second, label).limit, period(&first, label).limit);
        assert_eq!(period(&second, label).remaining, period(&first, label).remaining);
        assert_eq!(period(&second, label).consumed, period(&first, label).consumed);
        assert!(!period(&second, label).violated);
    }
}

#[test]
fn restored_guard_keeps_unknown_periods_and_level() {
    let shown = PeriodSnapshot {
        limit: 60,
        consumed: 20,
        remaining: 40,
        violated: false,
        phase: Phase::Stable,
        drift_rate: 0,
    };
    let snapshot = BudgetSnapshot {
        session_id: "s".to_string(),
        timestamp_ms: 0,
        periods: vec![
            ("hourly".to_string(), PeriodSnapshot { limit: 1, ..shown }),
            ("hourly".to_string(), shown),
        ],
        cumulative_total: 20,
        throttle_level: 2,
        active_model: "m".to_string(),
    };
    let mut guard = BudgetGuard::from_snapshot(snapshot, test_config());
    assert_eq!(guard.throttle_level(), 2);
    assert_eq!(guard.checker().registered(), vec!["hourly".to_string()]);
    assert_eq!(guard.checker().initial_value("hourly"), 60.0);
    guard.record(15, "m").unwrap();
    assert_eq!(guard.checker().current_value("hourly"), 25.0);
    assert_eq!(guard.throttle_level(), 2);
    // The daily period has a limit, but is not tracked.
    let error = guard.reset_period(BudgetPeriod::Daily).unwrap_err();
    assert_eq!(error.to_string(), "budget period 'daily' is not registered");
}

#[test]
fn restored_guard_is_held_to_the_tolerance() {
    let config = || BudgetConfig::builder().daily(1000).tolerance(50_000_000).build();
    let mut guard = BudgetGuard::new("s", config());
    guard.record(50, "m").unwrap();
    assert!(guard.checker().is_conserved("daily"));
    let mut restored = BudgetGuard::from_snapshot(guard.snapshot(), config());
    assert!(restored.checker().is_conserved("daily"));
    restored.record(1, "m").unwrap();
    assert!(!restored.checker().is_conserved("daily"));
    assert!(!period(&restored.snapshot(), "daily").violated);
    restored.record(999, "m").unwrap();
    assert_eq!(restored.checker().current_value("daily"), -50.0);
    assert!(!period(&restored.snapshot(), "daily").violated);
    restored.record(1, "m").unwrap();
    assert!(period(&restored.snapshot(), "daily").violated);
    // A strict configuration allows nothing.
    let strict = BudgetConfig::builder().daily(1000).build();
    let restored = BudgetGuard::from_snapshot(guard.snapshot(), strict);
    assert!(!restored.checker().is_conserved("daily"));
}

#[test]
fn restored_period_with_a_huge_limit_keeps_its_tolerance() {
    let limit: i128 = 1 << 80;
    let shown = PeriodSnapshot {
        limit,
        consumed: limit / 2,
        remaining: limit / 2,
        violated: false,
        phase: Phase::Stable,
        drift_rate: 0,
    };
    let snapshot = BudgetSnapshot {
        session_id: "s".to_string(),
        timestamp_ms: 0,
        periods: vec![
            ("half".to_string(), shown),
            ("less".to_string(), PeriodSnapshot { remaining: limit / 2 - (1 << 40), ..shown }),
            ("over".to_string(), PeriodSnapshot { remaining: -limit / 2, ..shown }),
            ("past".to_string(), PeriodSnapshot { remaining: -limit / 2 - (1 << 40), ..shown }),
        ],
        cumulative_total: 0,
        throttle_level: 0,
        active_model: "m".to_string(),
    };
    let config = BudgetConfig::builder().tolerance(500_000_000).build();
    let guard = BudgetGuard::from_snapshot(snapshot, config);
    assert!(guard.checker().is_conserved("half"));
    assert!(!guard.checker().is_conserved("less"));
    assert!(!period(&guard.snapshot(), "over").violated);
    assert!(period(&guard.snapshot(), "past").violated);
}

#[test]
fn restored_level_past_the_ladder_stays_on_the_last_rung() {
    let mut guard = BudgetGuard::new("s", test_config());
    guard.record(1, "m").unwrap();
    let snapshot = BudgetSnapshot { throttle_level: usize::MAX, ..guard.snapshot() };
    let config = BudgetConfig { warmup_records: 0, ..test_config() };
    let mut guard = BudgetGuard::from_snapshot(snapshot, config);
    assert_eq!(
        guard.record(1, "m").unwrap(),
        BudgetAction::Proceed("m".to_string())
    );
    for _ in 0..2 {
        assert_eq!(
            guard.record(1, "m").unwrap(),
            BudgetAction::Throttle("gpt-4.1-nano".to_string())
        );
        assert_eq!(guard.throttle_level(), usize::MAX);
    }
}

// Recording.

#[test]
fn failed_record_is_still_kept() {
    let mut guard = BudgetGuard::new("s", BudgetConfig::builder().build());
    let error = guard.record_at(70, "m", 5).unwrap_err();
    assert_eq!(error.to_string(), "budget period 'no budget periods' is not registered");
    assert_eq!(guard.record_count(), 1);
    assert_eq!(guard.cumulative_total(), 70);
    assert_eq!(guard.history()[0].timestamp_ms, 5);
    assert_eq!(guard.history()[0].tokens, 70);
    assert_eq!(guard.history()[0].model, "m");
    assert_eq!(
        guard.recommend_action(),
        BudgetAction::Proceed("m".to_string())
    );
}

#[test]
fn unlimited_guard_proceeds() {
    let guard = BudgetGuard::new("s", BudgetConfig::builder().warmup_records(0).build());
    assert_eq!(
        guard.recommend_action(),
        BudgetAction::Proceed("gpt-5-codex".to_string())
    );
}

#[test]
fn total_is_the_sum_of_the_records() {
    let mut guard = BudgetGuard::new("s", test_config());
    for tokens in [5, 0, 700, 42] {
        guard.record(tokens, "m").unwrap();
        let sum: i128 = guard.history().iter().map(|record| record.tokens).sum();
        assert_eq!(guard.cumulative_total(), sum);
    }
    assert_eq!(guard.cumulative_total(), 747);
}

#[test]
fn records_bear_the_time() {
    let mut guard = BudgetGuard::new("s", test_config());
    guard.record(1, "m").unwrap();
    // Later than the start of 2024.
    assert!(guard.history()[0].timestamp_ms > 1_704_067_200_000);
    assert!(guard.snapshot().timestamp_ms >= guard.history()[0].timestamp_ms);
}

#[test]
fn records_add_up_in_either_order() {
    let mut first = BudgetGuard::new("s", test_config());
    first.record(30, "m").unwrap();
    first.record(12, "m").unwrap();
    let mut second = BudgetGuard::new("s", test_config());
    second.record(12, "m").unwrap();
    second.record(30, "m").unwrap();
    let mut once = BudgetGuard::new("s", test_config());
    once.record(42, "m").unwrap();
    for label in BudgetPeriod::labels() {
        assert_eq!(
            first.checker().current_value(label),
            once.checker().current_value(label)
        );
        assert_eq!(
            second.checker().current_value(label),
            once.checker().current_value(label)
        );
    }
    assert_eq!(first.cumulative_total(), 42);
    assert_eq!(second.cumulative_total(), 42);
    assert_eq!(once.cumulative_total(), 42);
}

#[test]
fn amounts_past_the_exact_range_round_as_doubles() {
    let config = BudgetConfig::builder().daily(u64::MAX).build();
    let mut guard = BudgetGuard::new("s", config);
    let mut left = u64::MAX as f64;
    let mut total = 0.0f64;
    for tokens in [1u64, 3, 9_007_199_254_740_993, 1025, u64::MAX, 2047, u64::MAX - 1] {
        guard.record(tokens, "m").unwrap();
        left -= tokens as f64;
        total += tokens as f64;
        assert_eq!(guard.checker().current_value("daily"), left);
        assert_eq!(guard.cumulative_total(), total as i128);
        assert_eq!(
            guard.history()[guard.record_count() - 1].tokens,
            tokens as f64 as i128
        );
        let shown = period(&guard.snapshot(), "daily");
        assert_eq!(shown.consumed, (u64::MAX as f64 - left).max(0.0) as i128);
        assert_eq!(shown.remaining, left.max(0.0) as i128);
    }
}

// Recommendations.

#[test]
fn halt_needs_every_period_exhausted() {
    let config = BudgetConfig::builder().daily(100).weekly(300).build();
    let mut guard = BudgetGuard::new("s", config);
    assert_eq!(
        guard.record(100, "m").unwrap(),
        BudgetAction::Proceed("m".to_string())
    );
    assert_eq!(guard.record(200, "m").unwrap(), BudgetAction::Halt);
    assert_eq!(guard.record(0, "m").unwrap(), BudgetAction::Halt);
    guard.reset_period(BudgetPeriod::Daily).unwrap();
    assert_eq!(
        guard.recommend_action(),
        BudgetAction::Proceed("m".to_string())
    );
}

#[test]
fn warmup_proceeds_with_the_requested_model() {
    let config = BudgetConfig::builder().daily(1000).warmup_records(4).build();
    let mut guard = BudgetGuard::new("s", config);
    for _ in 0..3 {
        assert_eq!(
            guard.record(100, "m").unwrap(),
            BudgetAction::Proceed("m".to_string())
        );
    }
    // The records of the warm-up have not moved the throttle level.
    assert_eq!(
        guard.record(100, "m").unwrap(),
        BudgetAction::Throttle("gpt-4.1".to_string())
    );
    assert_eq!(guard.throttle_level(), 0);
    assert_eq!(
        guard.record(100, "m").unwrap(),
        BudgetAction::Throttle("gpt-4.1-mini".to_string())
    );
    assert_eq!(guard.throttle_level(), 1);
}

#[test]
fn strict_spending_throttles_from_the_second_record() {
    let config = BudgetConfig::builder().daily(1000).warmup_records(0).build();
    let mut guard = BudgetGuard::new("s", config);
    assert_eq!(
        guard.recommend_action(),
        BudgetAction::Proceed("gpt-5-codex".to_string())
    );
    assert_eq!(
        guard.record(1, "m").unwrap(),
        BudgetAction::Proceed("m".to_string())
    );
    assert_eq!(
        guard.record(1, "m").unwrap(),
        BudgetAction::Throttle("gpt-4.1".to_string())
    );
    // A call that used nothing.
    assert_eq!(
        guard.record(0, "m").unwrap(),
        BudgetAction::Proceed("m".to_string())
    );
}

#[test]
fn each_escalation_moves_further_down_the_ladder() {
    let config = BudgetConfig::builder().daily(1000).warmup_records(0).build();
    let mut guard = BudgetGuard::new("s", config);
    assert_eq!(
        guard.record(1, "m").unwrap(),
        BudgetAction::Proceed("m".to_string())
    );
    let steps = [
        ("gpt-4.1", 0),
        ("gpt-4.1-mini", 1),
        ("gpt-4.1-nano", 2),
        ("gpt-4.1-nano", 3),
        ("gpt-4.1-nano", 3),
    ];
    for (model, level) in steps {
        let action = BudgetAction::Throttle(model.to_string());
        assert_eq!(guard.record(1, "m").unwrap(), action);
        assert_eq!(guard.throttle_level(), level);
        assert_eq!(guard.recommend_action(), action);
    }
    // What comes after a quiet call starts from the level that was reached.
    guard.record(0, "m").unwrap();
    assert_eq!(guard.throttle_level(), 3);
    guard.record(0, "m").unwrap();
    assert_eq!(guard.throttle_level(), 3);
    assert_eq!(
        guard.record(1, "m").unwrap(),
        BudgetAction::Throttle("gpt-4.1-nano".to_string())
    );
}

#[test]
fn overshoot_within_the_tolerance_is_no_violation() {
    let config = BudgetConfig::builder()
        .daily(100)
        .weekly(100_000)
        .tolerance(50_000_000)
        .build();
    let mut guard = BudgetGuard::new("s", config);
    guard.record(100, "m").unwrap();
    assert!(!period(&guard.snapshot(), "daily").violated);
    guard.record(5, "m").unwrap();
    assert!(!period(&guard.snapshot(), "daily").violated);
    guard.record(1, "m").unwrap();
    assert!(period(&guard.snapshot(), "daily").violated);
    assert!(!period(&guard.snapshot(), "weekly").violated);
}

#[test]
fn changes_up_to_one_percent_of_the_tolerance_are_noise() {
    // The tolerance is 20 000, one percent of which is 200.
    let config = || {
        BudgetConfig::builder()
            .daily(40_000)
            .tolerance(500_000_000)
            .warmup_records(0)
            .build()
    };
    for (tokens, phase) in [(200, Phase::Stable), (201, Phase::PreTransition)] {
        let mut guard = BudgetGuard::new("s", config());
        guard.record(1, "m").unwrap();
        guard.record(tokens, "m").unwrap();
        assert_eq!(period(&guard.snapshot(), "daily").phase, phase);
    }
    for (tokens, phase) in [(200, Phase::Stable), (201, Phase::Transitioning)] {
        let mut guard = BudgetGuard::new("s", config());
        guard.record(30_000, "m").unwrap();
        guard.record(tokens, "m").unwrap();
        assert_eq!(period(&guard.snapshot(), "daily").phase, phase);
    }
}

#[test]
fn accelerating_spending_within_tolerance_takes_the_rung_of_the_level() {
    let config = BudgetConfig::builder()
        .daily(1000)
        .tolerance(500_000_000)
        .warmup_records(0)
        .build();
    let mut guard = BudgetGuard::new("s", config);
    guard.record(10, "m").unwrap();
    // 10, then 20: accelerating, and within the tolerance of 500.
    assert_eq!(
        guard.record(20, "m").unwrap(),
        BudgetAction::Throttle("gpt-5-codex".to_string())
    );
    assert_eq!(guard.checker().is_conserved("daily"), true);
    assert_eq!(period(&guard.snapshot(), "daily").phase, Phase::PreTransition);
    // All of the tolerance is used, and none of it exceeded until the next record.
    guard.record(470, "m").unwrap();
    assert!(guard.checker().is_conserved("daily"));
    assert_eq!(
        guard.record(10, "m").unwrap(),
        BudgetAction::Throttle("gpt-4.1".to_string())
    );
    assert!(!guard.checker().is_conserved("daily"));
    // Half of the limit is left, so that nothing is overshot.
    assert!(!period(&guard.snapshot(), "daily").violated);
}

#[test]
fn one_depleting_period_is_enough() {
    let config = BudgetConfig::builder()
        .daily(1000)
        .weekly(1_000_000)
        .tolerance(10_000_000)
        .warmup_records(0)
        .build();
    let mut guard = BudgetGuard::new("s", config);
    guard.record(100, "m").unwrap();
    // Daily is past its tolerance of 10, weekly is within its 10 000.
    assert_eq!(
        guard.record(101, "m").unwrap(),
        BudgetAction::Throttle("gpt-4.1".to_string())
    );
    let snapshot = guard.snapshot();
    assert_eq!(period(&snapshot, "daily").phase, Phase::Transitioning);
    assert_eq!(period(&snapshot, "weekly").phase, Phase::PreTransition);
}

// Resetting.

#[test]
fn reset_clears_violation_and_leaves_the_rest() {
    let mut guard = BudgetGuard::new("s", test_config());
    guard.record(900, "m").unwrap();
    guard.record(150, "m").unwrap();
    assert!(period(&guard.snapshot(), "daily").violated);
    guard.reset_period(BudgetPeriod::Daily).unwrap();
    let snapshot = guard.snapshot();
    assert_eq!(
        period(&snapshot, "daily"),
        PeriodSnapshot {
            limit: 1000,
            consumed: 0,
            remaining: 1000,
            violated: false,
            phase: Phase::Stable,
            drift_rate: 0,
        }
    );
    assert_eq!(period(&snapshot, "weekly").remaining, 3950);
    assert_eq!(guard.record_count(), 2);
    assert_eq!(guard.cumulative_total(), 1050);
    guard.reset_period(BudgetPeriod::Daily).unwrap();
    assert_eq!(period(&guard.snapshot(), "daily").remaining, 1000);
}

#[test]
fn reset_uses_the_configured_tolerance() {
    let config = BudgetConfig::builder().daily(1000).tolerance(50_000_000).build();
    let mut guard = BudgetGuard::new("s", config);
    guard.record(1050, "m").unwrap();
    assert!(!period(&guard.snapshot(), "daily").violated);
    guard.record(1, "m").unwrap();
    assert!(period(&guard.snapshot(), "daily").violated);
    guard.reset_period(BudgetPeriod::Daily).unwrap();
    guard.record(50, "m").unwrap();
    assert!(guard.checker().is_conserved("daily"));
    guard.record(1, "m").unwrap();
    assert!(!guard.checker().is_conserved("daily"));
    assert!(!period(&guard.snapshot(), "daily").violated);
}

#[test]
fn reset_of_an_unlimited_period_names_it() {
    let mut guard = BudgetGuard::new("s", BudgetConfig::builder().daily(1).build());
    let error = guard.reset_period(BudgetPeriod::Monthly).unwrap_err();
    assert_eq!(error.to_string(), "budget period 'monthly' is not registered");
    assert_eq!(guard.checker().registered(), vec!["daily".to_string()]);
}
