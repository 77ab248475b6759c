//! Errors of the budget guard.
use vstd::prelude::*;
use vstd::string::StringExecFns;

verus! {

/// Errors that can occur during budget guard operations.
#[derive(Debug)]
pub enum BudgetError {
    /// The named budget period has not been registered.
    NotRegistered(String),
}

impl BudgetError {
    /// The message of the error.
    pub open spec fn message(self) -> Seq<char> {
        match self {
            BudgetError::NotRegistered(name) => "budget period '"@ + name@
                + "' is not registered"@,
        }
    }

    /// The message of the error.
    pub fn to_string(&self) -> (text: String)
        ensures
            text@ == self.message(),
    {
        match self {
            BudgetError::NotRegistered(name) => {
                "budget period '".to_string().concat(name.as_str()).concat("' is not registered")
            },
        }
    }
}

} // verus!
