//! The budget windows.
use vstd::prelude::*;

verus! {

/// Supported budget period windows.
#[derive(Debug, Clone, Copy, PartialEq, Eq, Hash, Structural)]
pub enum BudgetPeriod {
    /// Resets every 24 hours.
    Daily,
    /// Resets every 7 days.
    Weekly,
    /// Resets every 30 days.
    Monthly,
}

impl BudgetPeriod {
    /// The name under which the period is tracked.
    pub open spec fn name(self) -> Seq<char> {
        match self {
            BudgetPeriod::Daily => "daily"@,
            BudgetPeriod::Weekly => "weekly"@,
            BudgetPeriod::Monthly => "monthly"@,
        }
    }

    /// The name under which the period is tracked.
    pub fn label(&self) -> (label: &'static str)
        ensures
            label@ == self.name(),
    {
        match self {
            BudgetPeriod::Daily => "daily",
            BudgetPeriod::Weekly => "weekly",
            BudgetPeriod::Monthly => "monthly",
        }
    }

    /// Human-readable labels for each budget period.
    pub fn labels() -> (labels: [&'static str; 3])
        ensures
            labels[0]@ == BudgetPeriod::Daily.name(),
            labels[1]@ == BudgetPeriod::Weekly.name(),
            labels[2]@ == BudgetPeriod::Monthly.name(),
    {
        ["daily", "weekly", "monthly"]
    }
}

/// Different periods are tracked under different names.
pub proof fn law_names_differ(a: BudgetPeriod, b: BudgetPeriod)
    ensures
        a.name() == b.name() <==> a == b,
{
    reveal_strlit("daily");
    reveal_strlit("weekly");
    reveal_strlit("monthly");
    assert(BudgetPeriod::Daily.name().len() == 5);
    assert(BudgetPeriod::Weekly.name().len() == 6);
    assert(BudgetPeriod::Monthly.name().len() == 7);
}

} // verus!
