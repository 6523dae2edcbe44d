//! Errors of the core.
use vstd::prelude::*;
use vstd::string::StringExecFns;

verus! {

/// What went wrong: the store failed (its message), or the input broke a
/// rule (which one).
#[derive(Debug, PartialEq, Eq)]
pub enum CoreError {
    Database(String),
    Validation(String),
}

/// The result of a core operation.
pub type CoreResult<T> = Result<T, CoreError>;

impl CoreError {
    /// The text shown for the error.
    pub open spec fn text(&self) -> Seq<char> {
        match self {
            CoreError::Database(m) => "Database-Error: "@ + m@,
            CoreError::Validation(m) => "Validation-Error: "@ + m@,
        }
    }

    /// The error as text: `"Database-Error: "` or `"Validation-Error: "`
    /// followed by the message.
    pub fn message(&self) -> (r: String)
        ensures
            r@ == self.text(),
    {
        match self {
            CoreError::Database(m) => {
                let mut r = String::from_str("Database-Error: ");
                r.append(m.as_str());
                r
            },
            CoreError::Validation(m) => {
                let mut r = String::from_str("Validation-Error: ");
                r.append(m.as_str());
                r
            },
        }
    }
}

} // verus!
