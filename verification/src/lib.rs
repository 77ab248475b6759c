//! Budget enforcement for coding-agent sessions.
//!
//! Tracks token spending across daily, weekly, and monthly windows using
//! [conservation-checker](https://crates.io/crates/conservation-checker)'s one-sided conservation
//! laws. When a budget approaches its limit:
//!
//! 1. **Phase detection** warns that spending is accelerating
//!    (`PreTransition`, then `Transitioning`)
//! 2. **Auto-throttle** downgrades the model as budget depletion gets critical
//! 3. **Snapshots** checkpoint spending for audit, billing, or recovery
//!
//! Amounts of tokens are whole numbers as a double holds them; see [`amount`]. The state of a
//! guard is a [`state::GuardView`], every operation of [`BudgetGuard`] is specified as a step
//! between such states, and [`laws`] proves what holds of them.
pub mod action;
pub mod amount;
pub mod checker;
mod clock;
pub mod config;
pub mod error;
pub mod guard;
pub mod laws;
pub mod period;
pub mod snapshot;
pub mod state;

pub use action::BudgetAction;
pub use checker::Phase;
pub use config::{BudgetConfig, BudgetConfigBuilder};
pub use error::BudgetError;
pub use guard::BudgetGuard;
pub use period::BudgetPeriod;
pub use snapshot::{BudgetSnapshot, PeriodSnapshot, SpendingRecord};
