//! Errors of the model expansion and of the runtime lookups.
use vstd::prelude::*;
use vstd::string::*;

verus! {

/// An error that the expansion of a model definition reports, by its message.
pub struct MacroError {
    pub message: String,
}

/// An error of a runtime lookup on a model.
pub enum SqlError {
    Message(String),
}

/// The message of a runtime lookup error.
pub open spec fn sql_error_message(e: SqlError) -> Seq<char> {
    match e {
        SqlError::Message(m) => m@,
    }
}

impl SqlError {
    /// The text of the error.
    pub fn message(&self) -> (r: String)
        ensures
            r@ == sql_error_message(*self),
    {
        match self {
            SqlError::Message(m) => m.clone(),
        }
    }
}

impl MacroError {
    /// The text of the error.
    pub fn message(&self) -> (r: String)
        ensures
            r@ == self.message@,
    {
        self.message.clone()
    }
}

} // verus!
