# codex-budget-guard

Budget enforcement for coding-agent sessions, verified with Verus.

- **Set a budget**: daily, weekly, and monthly token limits
- **Get warned** before it is exceeded: phase detection catches accelerating spending
- **Auto-downgrade** when it is close: the guard recommends models further down a ladder
- **Audit snapshots**: checkpoints for billing, forensics and recovery

```rust
use codex_budget_guard::{BudgetAction, BudgetConfig, BudgetGuard};

let config = BudgetConfig::builder()
    .daily(500_000)
    .weekly(2_500_000)
    .monthly(10_000_000)
    .tolerance(50_000_000) // parts per billion: allow 5% overshoot before flagging violation
    .build();
let mut guard = BudgetGuard::new("session-42", config);

// After each API response:
match guard.record(1200, "gpt-5-codex") {
    Ok(BudgetAction::Proceed(model)) => { /* full speed */ }
    Ok(BudgetAction::Throttle(model)) => { /* downgrade */ }
    Ok(BudgetAction::Halt) => { /* block further calls */ }
    Err(error) => { /* no budget is configured */ }
}
```

## Layout

- `src/amount.rs`: amounts of tokens, which are whole numbers as a double holds them
- `src/checker.rs`: the calls into `conservation-checker`, with what is relied on of each
- `src/clock.rs`: the call into `chrono`
- `src/config.rs`, `src/period.rs`, `src/action.rs`, `src/snapshot.rs`, `src/error.rs`: the types
- `src/state.rs`: the state of a guard and how its operations change it
- `src/guard.rs`: the guard
- `src/laws.rs`: what holds of the guard as a whole
- `app/`: JSON and error plumbing, and two demonstrations
