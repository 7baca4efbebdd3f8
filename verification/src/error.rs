//! The errors that an evaluation can end with.

use vstd::prelude::*;

verus! {

/// Why an evaluation gave no value.
#[derive(Debug, Clone, Copy, PartialEq, Eq, Structural)]
pub enum SchierkeError {
    /// A text could not be read as an expression. Evaluation never ends
    /// with it: it is kept for a reader of expressions.
    ParseError,
    /// An arithmetic node does not have two parts, or one of its parts
    /// evaluates to a value that is no number.
    UnknownExpression,
    /// A variable was read under a name to which nothing is bound.
    UndefinedVariable,
    /// A variable node has neither one part nor two.
    TooMuchArguments,
}

impl SchierkeError {
    /// The sentence that describes the error.
    pub open spec fn message(self) -> Seq<char> {
        match self {
            SchierkeError::ParseError => "Error while parsing passed expression"@,
            SchierkeError::UnknownExpression => "The following expression is unknown"@,
            SchierkeError::UndefinedVariable => "The following variable is undefined"@,
            SchierkeError::TooMuchArguments => "Too much arguments passed"@,
        }
    }

    /// The error as one line of text.
    pub fn to_string(&self) -> (text: String)
        ensures
            text@ == self.message(),
    {
        match self {
            SchierkeError::ParseError => "Error while parsing passed expression".to_owned(),
            SchierkeError::UnknownExpression => "The following expression is unknown".to_owned(),
            SchierkeError::UndefinedVariable => "The following variable is undefined".to_owned(),
            SchierkeError::TooMuchArguments => "Too much arguments passed".to_owned(),
        }
    }
}

} // verus!
