//! Budget limits and throttling settings.
use vstd::prelude::*;

use crate::amount::AMOUNT_LIMIT;
use crate::period::BudgetPeriod;

verus! {

/// The tolerance that stands for the whole of a budget: tolerances are parts per billion.
pub const FULL_TOLERANCE: u64 = 1_000_000_000;

/// The contents of a list of strings.
pub open spec fn texts(list: Seq<String>) -> Seq<Seq<char>> {
    list.map_values(|text: String| text@)
}

/// Configuration for token budget limits across time windows.
#[derive(Debug, Clone)]
pub struct BudgetConfig {
    /// Maximum tokens allowed per day. `None` means unlimited.
    pub daily: Option<u64>,
    /// Maximum tokens allowed per week. `None` means unlimited.
    pub weekly: Option<u64>,
    /// Maximum tokens allowed per month. `None` means unlimited.
    pub monthly: Option<u64>,
    /// Tolerance applied to each budget, in parts per billion. A tolerance of 5% (50 million)
    /// means you can overshoot by 5% before being considered violated. Default: 0 (strict).
    pub tolerance: u64,
    /// Model tier ladder for auto-throttle. Each entry is a model slug that represents one step
    /// down in capability/cost. When budget depletion reaches critical phases, the guard steps
    /// down this ladder.
    pub throttle_ladder: Vec<String>,
    /// Minimum number of records before phase analysis produces actionable results. Prevents
    /// false positives on cold starts.
    pub warmup_records: usize,
}

/// What a [`BudgetConfig`] says.
#[verifier::ext_equal]
pub struct ConfigView {
    pub daily: Option<u64>,
    pub weekly: Option<u64>,
    pub monthly: Option<u64>,
    pub tolerance: u64,
    pub throttle_ladder: Seq<Seq<char>>,
    pub warmup_records: nat,
}

impl View for BudgetConfig {
    type V = ConfigView;

    open spec fn view(&self) -> ConfigView {
        ConfigView {
            daily: self.daily,
            weekly: self.weekly,
            monthly: self.monthly,
            tolerance: self.tolerance,
            throttle_ladder: texts(self.throttle_ladder@),
            warmup_records: self.warmup_records as nat,
        }
    }
}

impl ConfigView {
    /// The limit of a period, if it has one.
    pub open spec fn limit(self, period: BudgetPeriod) -> Option<u64> {
        match period {
            BudgetPeriod::Daily => self.daily,
            BudgetPeriod::Weekly => self.weekly,
            BudgetPeriod::Monthly => self.monthly,
        }
    }

    /// The tolerance in whole tokens for a limit: its share of the limit, rounded down, and at
    /// most the largest amount. A limit that is not above zero has no tolerance.
    pub open spec fn tolerance_for(self, limit: int) -> int {
        if limit <= 0 {
            0
        } else if limit * self.tolerance / FULL_TOLERANCE as int <= AMOUNT_LIMIT {
            limit * self.tolerance / FULL_TOLERANCE as int
        } else {
            AMOUNT_LIMIT as int
        }
    }
}

/// The ladder of models used where none is configured.
pub open spec fn default_ladder() -> Seq<Seq<char>> {
    seq!["gpt-5-codex"@, "gpt-4.1"@, "gpt-4.1-mini"@, "gpt-4.1-nano"@]
}

/// The ladder of models used where none is configured, from the most to the least capable.
pub fn default_throttle_ladder() -> (ladder: Vec<String>)
    ensures
        texts(ladder@) == default_ladder(),
{
    let ladder = vec![
        "gpt-5-codex".to_string(),
        "gpt-4.1".to_string(),
        "gpt-4.1-mini".to_string(),
        "gpt-4.1-nano".to_string(),
    ];
    assert(texts(ladder@) =~= default_ladder());
    ladder
}

/// The number of warm-up records where none is configured.
pub fn default_warmup_records() -> (records: usize)
    ensures
        records == 5,
{
    5
}

impl Default for BudgetConfig {
    fn default() -> (config: Self)
        ensures
            config@ == (ConfigView {
                daily: Some(500_000),
                weekly: Some(2_500_000),
                monthly: Some(10_000_000),
                tolerance: 0,
                throttle_ladder: default_ladder(),
                warmup_records: 5,
            }),
    {
        BudgetConfig {
            daily: Some(500_000),
            weekly: Some(2_500_000),
            monthly: Some(10_000_000),
            tolerance: 0,
            throttle_ladder: default_throttle_ladder(),
            warmup_records: default_warmup_records(),
        }
    }
}

impl BudgetConfig {
    /// Create a builder for `BudgetConfig`.
    pub fn builder() -> (builder: BudgetConfigBuilder)
        ensures
            builder@ == BuilderView::unset(),
    {
        BudgetConfigBuilder::default()
    }

    /// Compute absolute tolerance in tokens for a given limit.
    pub fn tolerance_for(&self, limit: i128) -> (tokens: i128)
        ensures
            tokens == self@.tolerance_for(limit as int),
            0 <= tokens <= AMOUNT_LIMIT,
    {
        if limit <= 0 {
            return 0;
        }
        let tolerance: u128 = self.tolerance as u128;
        let whole: u128 = limit as u128 / FULL_TOLERANCE as u128;
        let rest: u128 = limit as u128 % FULL_TOLERANCE as u128;
        proof {
            assert(0 <= rest * tolerance <= 1_000_000_000 * tolerance) by (nonlinear_arith)
                requires
                    0 <= rest <= 1_000_000_000,
                    0 <= tolerance,
            ;
            assert(limit * tolerance == 1_000_000_000 * (whole * tolerance) + rest * tolerance)
                by (nonlinear_arith)
                requires
                    limit == 1_000_000_000 * whole + rest,
            ;
        }
        match whole.checked_mul(tolerance) {
            Some(share) if share <= AMOUNT_LIMIT as u128 => {
                let tokens: u128 = share + rest * tolerance / FULL_TOLERANCE as u128;
                if tokens <= AMOUNT_LIMIT as u128 {
                    tokens as i128
                } else {
                    AMOUNT_LIMIT
                }
            },
            _ => AMOUNT_LIMIT,
        }
    }

    /// The limit of a period, if it has one.
    pub fn limit_for_period(&self, period: BudgetPeriod) -> (limit: Option<u64>)
        ensures
            limit == self@.limit(period),
    {
        match period {
            BudgetPeriod::Daily => self.daily,
            BudgetPeriod::Weekly => self.weekly,
            BudgetPeriod::Monthly => self.monthly,
        }
    }
}

/// Builder for `BudgetConfig`.
#[derive(Debug)]
pub struct BudgetConfigBuilder {
    daily: Option<u64>,
    weekly: Option<u64>,
    monthly: Option<u64>,
    tolerance: u64,
    throttle_ladder: Option<Vec<String>>,
    warmup_records: Option<usize>,
}

/// What has been set on a [`BudgetConfigBuilder`].
#[verifier::ext_equal]
pub struct BuilderView {
    pub daily: Option<u64>,
    pub weekly: Option<u64>,
    pub monthly: Option<u64>,
    pub tolerance: u64,
    pub throttle_ladder: Option<Seq<Seq<char>>>,
    pub warmup_records: Option<nat>,
}

impl BuilderView {
    /// Nothing set.
    pub open spec fn unset() -> BuilderView {
        BuilderView {
            daily: None,
            weekly: None,
            monthly: None,
            tolerance: 0,
            throttle_ladder: None,
            warmup_records: None,
        }
    }

    /// The configuration with what has been set, and defaults for the rest.
    pub open spec fn built(self) -> ConfigView {
        ConfigView {
            daily: self.daily,
            weekly: self.weekly,
            monthly: self.monthly,
            tolerance: self.tolerance,
            throttle_ladder: match self.throttle_ladder {
                Some(ladder) => ladder,
                None => default_ladder(),
            },
            warmup_records: match self.warmup_records {
                Some(records) => records,
                None => 5,
            },
        }
    }
}

impl View for BudgetConfigBuilder {
    type V = BuilderView;

    closed spec fn view(&self) -> BuilderView {
        BuilderView {
            daily: self.daily,
            weekly: self.weekly,
            monthly: self.monthly,
            tolerance: self.tolerance,
            throttle_ladder: match self.throttle_ladder {
                Some(ladder) => Some(texts(ladder@)),
                None => None,
            },
            warmup_records: match self.warmup_records {
                Some(records) => Some(records as nat),
                None => None,
            },
        }
    }
}

impl Default for BudgetConfigBuilder {
    fn default() -> (builder: Self)
        ensures
            builder@ == BuilderView::unset(),
    {
        BudgetConfigBuilder {
            daily: None,
            weekly: None,
            monthly: None,
            tolerance: 0,
            throttle_ladder: None,
            warmup_records: None,
        }
    }
}

impl BudgetConfigBuilder {
    /// Set daily token limit.
    pub fn daily(self, tokens: u64) -> (builder: Self)
        ensures
            builder@ == (BuilderView { daily: Some(tokens), ..self@ }),
    {
        BudgetConfigBuilder { daily: Some(tokens), ..self }
    }

    /// Set weekly token limit.
    pub fn weekly(self, tokens: u64) -> (builder: Self)
        ensures
            builder@ == (BuilderView { weekly: Some(tokens), ..self@ }),
    {
        BudgetConfigBuilder { weekly: Some(tokens), ..self }
    }

    /// Set monthly token limit.
    pub fn monthly(self, tokens: u64) -> (builder: Self)
        ensures
            builder@ == (BuilderView { monthly: Some(tokens), ..self@ }),
    {
        BudgetConfigBuilder { monthly: Some(tokens), ..self }
    }

    /// Set the budget tolerance in parts per billion (0 = strict, 50 million = allow 5%
    /// overshoot). More than the whole budget counts as the whole budget.
    pub fn tolerance(self, tol: u64) -> (builder: Self)
        ensures
            builder@ == (BuilderView {
                tolerance: if tol <= FULL_TOLERANCE {
                    tol
                } else {
                    FULL_TOLERANCE
                },
                ..self@
            }),
    {
        let tolerance: u64 = if tol <= FULL_TOLERANCE { tol } else { FULL_TOLERANCE };
        BudgetConfigBuilder { tolerance, ..self }
    }

    /// Set the throttle ladder (ordered most to least capable).
    pub fn throttle_ladder(self, ladder: Vec<String>) -> (builder: Self)
        ensures
            builder@ == (BuilderView { throttle_ladder: Some(texts(ladder@)), ..self@ }),
    {
        BudgetConfigBuilder { throttle_ladder: Some(ladder), ..self }
    }

    /// Set the minimum number of records before phase analysis produces actionable results.
    /// Prevents false positives on cold starts.
    pub fn warmup_records(self, n: usize) -> (builder: Self)
        ensures
            builder@ == (BuilderView { warmup_records: Some(n as nat), ..self@ }),
    {
        BudgetConfigBuilder { warmup_records: Some(n), ..self }
    }

    /// Build the `BudgetConfig`.
    pub fn build(self) -> (config: BudgetConfig)
        ensures
            config@ == self@.built(),
            config.daily == self@.daily,
            config.weekly == self@.weekly,
            config.monthly == self@.monthly,
            config.tolerance == self@.tolerance,
    {
        BudgetConfig {
            daily: self.daily,
            weekly: self.weekly,
            monthly: self.monthly,
            tolerance: self.tolerance,
            throttle_ladder: match self.throttle_ladder {
                Some(ladder) => ladder,
                None => default_throttle_ladder(),
            },
            warmup_records: match self.warmup_records {
                Some(records) => records,
                None => default_warmup_records(),
            },
        }
    }
}

} // verus!
