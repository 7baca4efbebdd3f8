//! The kinds of value that an evaluation can be said to give.

use crate::decimal::{decimal, decimal_string};
use crate::expression::Expression;
use vstd::prelude::*;
use vstd::std_specs::cmp::PartialEqSpecImpl;

verus! {

/// A value: a number, a text, or an expression kept as it was bound.
#[derive(Debug)]
pub enum SchierkeResult {
    Number(i64),
    String(String),
    Expression(Expression),
}

impl SchierkeResult {
    /// The value as text: a number in decimal notation, a text as itself,
    /// an expression as its own text.
    pub open spec fn render(self) -> Seq<char> {
        match self {
            SchierkeResult::Number(n) => decimal(n as int),
            SchierkeResult::String(text) => text@,
            SchierkeResult::Expression(expression) => expression@.render(),
        }
    }

    /// Whether the two values are of one kind and hold the same.
    pub open spec fn same(self, other: SchierkeResult) -> bool {
        match (self, other) {
            (SchierkeResult::Number(n), SchierkeResult::Number(m)) => n == m,
            (SchierkeResult::String(mine), SchierkeResult::String(theirs)) => mine@ == theirs@,
            (SchierkeResult::Expression(mine), SchierkeResult::Expression(theirs)) => mine@
                == theirs@,
            _ => false,
        }
    }

    /// The value as text.
    pub fn to_string(&self) -> (text: String)
        ensures
            text@ == self.render(),
    {
        match self {
            SchierkeResult::Number(n) => decimal_string(*n),
            SchierkeResult::String(text) => text.clone(),
            SchierkeResult::Expression(expression) => expression.to_string(),
        }
    }
}

impl PartialEq for SchierkeResult {
    /// Values of one kind that hold the same are equal; a number is never
    /// equal to the expression that is its literal.
    fn eq(&self, other: &SchierkeResult) -> (same: bool) {
        match self {
            SchierkeResult::Number(n) => match other {
                SchierkeResult::Number(m) => *n == *m,
                _ => false,
            },
            SchierkeResult::String(text) => match other {
                SchierkeResult::String(theirs) => *text == *theirs,
                _ => false,
            },
            SchierkeResult::Expression(expression) => match other {
                SchierkeResult::Expression(theirs) => *expression == *theirs,
                _ => false,
            },
        }
    }
}

impl PartialEqSpecImpl for SchierkeResult {
    open spec fn obeys_eq_spec() -> bool {
        true
    }

    open spec fn eq_spec(&self, other: &SchierkeResult) -> bool {
        self.same(*other)
    }
}

} // verus!
