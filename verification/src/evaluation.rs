//! What evaluation means: the value of a term and the default bindings it
//! leaves behind, as functions on mathematical values.

use crate::environment::Bindings;
use crate::error::SchierkeError;
use crate::expression::Term;
use vstd::prelude::*;

verus! {

/// Whether `n` can be held by a signed 64-bit number.
pub open spec fn fits(n: int) -> bool {
    i64::MIN <= n <= i64::MAX
}

/// The quotient of `a` by `b` rounded towards zero, for `b` other than zero.
pub open spec fn quotient(a: int, b: int) -> int {
    if a >= 0 {
        if b > 0 {
            a / b
        } else {
            -(a / (-b))
        }
    } else {
        if b > 0 {
            -((-a) / b)
        } else {
            (-a) / (-b)
        }
    }
}

/// One of the four arithmetic operations.
#[derive(Clone, Copy, Debug, PartialEq, Eq, Structural)]
pub enum Operator {
    Add,
    Subtract,
    Multiply,
    Divide,
}

impl Operator {
    /// The exact result of the operation on `a` and `b`. There is none where
    /// the machine has none: where the divisor is zero, and where the result
    /// cannot be held by a signed 64-bit number.
    pub open spec fn apply(self, a: int, b: int) -> Option<int> {
        let exact = match self {
            Operator::Add => a + b,
            Operator::Subtract => a - b,
            Operator::Multiply => a * b,
            Operator::Divide => quotient(a, b),
        };
        if (self == Operator::Divide && b == 0) || !fits(exact) {
            None
        } else {
            Some(exact)
        }
    }

    /// The arithmetic node of this operation over `parts`.
    pub open spec fn node(self, parts: Seq<Term>) -> Term {
        match self {
            Operator::Add => Term::Add(parts),
            Operator::Subtract => Term::Subtract(parts),
            Operator::Multiply => Term::Multiply(parts),
            Operator::Divide => Term::Divide(parts),
        }
    }

    /// Carries the operation out on two numbers for which it has a result.
    pub fn compute(self, a: i64, b: i64) -> (result: i64)
        requires
            self.apply(a as int, b as int) is Some,
        ensures
            self.apply(a as int, b as int) == Some(result as int),
    {
        match self {
            Operator::Add => a + b,
            Operator::Subtract => a - b,
            Operator::Multiply => a * b,
            Operator::Divide => a.checked_div(b).unwrap(),
        }
    }
}

/// How one evaluation ends: with a value or an error, and with the default
/// bindings that the next evaluation will find.
pub struct Outcome {
    pub result: Result<Term, SchierkeError>,
    pub global: Bindings,
}

/// The bindings that an evaluation reads and binds in: those it was given,
/// or, where it was given none, the default bindings as it found them.
pub open spec fn working(local: Option<Bindings>, global: Bindings) -> Bindings {
    match local {
        Some(given) => given,
        None => global,
    }
}

/// What reading `name` in `bindings` gives.
pub open spec fn read(bindings: Bindings, name: Seq<char>) -> Result<Term, SchierkeError> {
    if bindings.contains_key(name) {
        Ok(bindings[name])
    } else {
        Err(SchierkeError::UndefinedVariable)
    }
}

/// The number that an operand's evaluation gave: the error of an operand
/// that failed, and `UnknownExpression` for a value that is no number.
pub open spec fn number_of(result: Result<Term, SchierkeError>) -> Result<int, SchierkeError> {
    match result {
        Ok(Term::Number(n)) => Ok(n),
        Ok(_) => Err(SchierkeError::UnknownExpression),
        Err(error) => Err(error),
    }
}

/// The outcome of evaluating `term` with the bindings `local`, if any were
/// given, while the default bindings are `global`; `None` where the
/// evaluation meets an arithmetic operation without a result.
///
/// The parts of a node are evaluated against the default bindings, never
/// against `local`, from left to right, each finding the default bindings
/// as the one before left them. A node that ends by itself, with a value or
/// with an error of its own, leaves its working bindings as the new default
/// bindings. A node that ends because one of its parts failed, or gave an
/// arithmetic node something other than a number, ends at once: the default
/// bindings stay as its parts left them.
pub open spec fn run(term: Term, local: Option<Bindings>, global: Bindings) -> Option<Outcome>
    decreases term,
{
    let working = working(local, global);
    match term {
        Term::Number(_) | Term::Text(_) => Some(Outcome { result: Ok(term), global: working }),
        Term::Variable(parts) => run_variable(parts, working, global),
        Term::Add(parts) => run_arithmetic(Operator::Add, parts, working, global),
        Term::Subtract(parts) => run_arithmetic(Operator::Subtract, parts, working, global),
        Term::Multiply(parts) => run_arithmetic(Operator::Multiply, parts, working, global),
        Term::Divide(parts) => run_arithmetic(Operator::Divide, parts, working, global),
    }
}

/// The outcome of a variable node over `parts`: a read for one part, a
/// binding for two, `TooMuchArguments` for any other number of parts.
pub open spec fn run_variable(parts: Seq<Term>, working: Bindings, global: Bindings) -> Option<
    Outcome,
>
    decreases parts,
{
    if parts.len() == 1 {
        Some(Outcome { result: read(working, parts[0].render()), global: working })
    } else if parts.len() == 2 {
        match run(parts[1], None, global) {
            None => None,
            Some(value) => match value.result {
                Err(error) => Some(Outcome { result: Err(error), global: value.global }),
                Ok(bound) => Some(
                    Outcome { result: Ok(bound), global: working.insert(parts[0].render(), bound) },
                ),
            },
        }
    } else {
        Some(Outcome { result: Err(SchierkeError::TooMuchArguments), global: working })
    }
}

/// The outcome of an arithmetic node over `parts`: `UnknownExpression`
/// unless there are two parts, else the operation on the numbers that the
/// two parts evaluate to.
pub open spec fn run_arithmetic(
    operator: Operator,
    parts: Seq<Term>,
    working: Bindings,
    global: Bindings,
) -> Option<Outcome>
    decreases parts,
{
    if parts.len() != 2 {
        Some(Outcome { result: Err(SchierkeError::UnknownExpression), global: working })
    } else {
        match run(parts[0], None, global) {
            None => None,
            Some(left) => match number_of(left.result) {
                Err(error) => Some(Outcome { result: Err(error), global: left.global }),
                Ok(a) => match run(parts[1], None, left.global) {
                    None => None,
                    Some(right) => match number_of(right.result) {
                        Err(error) => Some(Outcome { result: Err(error), global: right.global }),
                        Ok(b) => match operator.apply(a, b) {
                            None => None,
                            Some(n) => Some(Outcome { result: Ok(Term::Number(n)), global: working }),
                        },
                    },
                },
            },
        }
    }
}

} // verus!
